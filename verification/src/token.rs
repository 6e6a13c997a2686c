//! Tokens: the lexical categories, the token value, and the reserved words.

use vstd::prelude::*;

verus! {

/// The closed set of lexical categories a token can belong to.
#[derive(Debug, PartialEq, Eq, Clone, Copy, Structural)]
pub enum TokenType {
    Illegal,
    Eof,
    Ident,
    Int,
    Assign,
    Plus,
    Minus,
    Bang,
    Asterisk,
    Slash,
    Lt,
    Gt,
    Comma,
    Semicolon,
    LParen,
    RParen,
    LBrace,
    RBrace,
    Function,
    Let,
    True,
    False,
    If,
    Else,
    Return,
    Eq,
    NotEq,
}

/// Mathematical value of a token: its category and the text it was read from.
pub struct TokenView {
    pub kind: TokenType,
    pub literal: Seq<char>,
}

/// A classified unit of source text.
#[derive(Debug)]
pub struct Token {
    pub kind: TokenType,
    pub literal: String,
}

impl View for Token {
    type V = TokenView;

    open spec fn view(&self) -> TokenView {
        TokenView { kind: self.kind, literal: self.literal@ }
    }
}

impl DeepView for Token {
    type V = TokenView;

    open spec fn deep_view(&self) -> TokenView {
        self@
    }
}

impl Clone for Token {
    /// A token with the same category and the same literal.
    fn clone(&self) -> (copy: Self)
        ensures
            copy == *self,
    {
        Token { kind: self.kind, literal: self.literal.clone() }
    }
}

impl Token {
    /// A token of category `token_type` that carries `literal`.
    #[must_use]
    pub fn new(token_type: TokenType, literal: String) -> (token: Self)
        ensures
            token.kind == token_type,
            token.literal == literal,
    {
        Self { kind: token_type, literal }
    }
}

/// The category of an identifier-shaped lexeme: the reserved word it spells,
/// or `Ident` when it spells none. The comparison is exact and case-sensitive.
pub open spec fn keyword_kind(ident: Seq<char>) -> TokenType {
    if ident == "fn"@ {
        TokenType::Function
    } else if ident == "let"@ {
        TokenType::Let
    } else if ident == "true"@ {
        TokenType::True
    } else if ident == "false"@ {
        TokenType::False
    } else if ident == "if"@ {
        TokenType::If
    } else if ident == "else"@ {
        TokenType::Else
    } else if ident == "return"@ {
        TokenType::Return
    } else {
        TokenType::Ident
    }
}

/// Whether a category is one of the seven reserved words.
pub open spec fn is_keyword(kind: TokenType) -> bool {
    kind == TokenType::Function || kind == TokenType::Let || kind == TokenType::True || kind
        == TokenType::False || kind == TokenType::If || kind == TokenType::Else || kind
        == TokenType::Return
}

/// The spelling of a reserved word.
pub open spec fn keyword_text(kind: TokenType) -> Seq<char>
    recommends
        is_keyword(kind),
{
    match kind {
        TokenType::Function => "fn"@,
        TokenType::Let => "let"@,
        TokenType::True => "true"@,
        TokenType::False => "false"@,
        TokenType::If => "if"@,
        TokenType::Else => "else"@,
        _ => "return"@,
    }
}

/// The name under which a category appears in diagnostics.
pub open spec fn kind_name(kind: TokenType) -> Seq<char> {
    match kind {
        TokenType::Illegal => "Illegal"@,
        TokenType::Eof => "Eof"@,
        TokenType::Ident => "Ident"@,
        TokenType::Int => "Int"@,
        TokenType::Assign => "Assign"@,
        TokenType::Plus => "Plus"@,
        TokenType::Minus => "Minus"@,
        TokenType::Bang => "Bang"@,
        TokenType::Asterisk => "Asterisk"@,
        TokenType::Slash => "Slash"@,
        TokenType::Lt => "Lt"@,
        TokenType::Gt => "Gt"@,
        TokenType::Comma => "Comma"@,
        TokenType::Semicolon => "Semicolon"@,
        TokenType::LParen => "LParen"@,
        TokenType::RParen => "RParen"@,
        TokenType::LBrace => "LBrace"@,
        TokenType::RBrace => "RBrace"@,
        TokenType::Function => "Function"@,
        TokenType::Let => "Let"@,
        TokenType::True => "True"@,
        TokenType::False => "False"@,
        TokenType::If => "If"@,
        TokenType::Else => "Else"@,
        TokenType::Return => "Return"@,
        TokenType::Eq => "Eq"@,
        TokenType::NotEq => "NotEq"@,
    }
}

/// Compares `text`, whose length in characters is `len`, with `word`.
fn spells(text: &str, len: usize, word: &str) -> (same: bool)
    requires
        len == text@.len(),
    ensures
        same == (text@ == word@),
{
    if word.unicode_len() != len {
        return false;
    }
    let mut i: usize = 0;
    while i < len
        invariant
            i <= len,
            len == text@.len(),
            len == word@.len(),
            forall|j: int| 0 <= j < i ==> text@[j] == word@[j],
        decreases len - i,
    {
        if text.get_char(i) != word.get_char(i) {
            return false;
        }
        i += 1;
    }
    assert(text@ =~= word@);
    true
}

impl TokenType {
    /// The reserved word that `ident` spells, or `Ident`.
    fn from_keyword(ident: &str) -> (kind: Self)
        ensures
            kind == keyword_kind(ident@),
    {
        let len = ident.unicode_len();
        if spells(ident, len, "fn") {
            Self::Function
        } else if spells(ident, len, "let") {
            Self::Let
        } else if spells(ident, len, "true") {
            Self::True
        } else if spells(ident, len, "false") {
            Self::False
        } else if spells(ident, len, "if") {
            Self::If
        } else if spells(ident, len, "else") {
            Self::Else
        } else if spells(ident, len, "return") {
            Self::Return
        } else {
            Self::Ident
        }
    }

    /// The category's name, as diagnostics print it.
    pub fn name(&self) -> (name: &'static str)
        ensures
            name@ == kind_name(*self),
    {
        match self {
            TokenType::Illegal => "Illegal",
            TokenType::Eof => "Eof",
            TokenType::Ident => "Ident",
            TokenType::Int => "Int",
            TokenType::Assign => "Assign",
            TokenType::Plus => "Plus",
            TokenType::Minus => "Minus",
            TokenType::Bang => "Bang",
            TokenType::Asterisk => "Asterisk",
            TokenType::Slash => "Slash",
            TokenType::Lt => "Lt",
            TokenType::Gt => "Gt",
            TokenType::Comma => "Comma",
            TokenType::Semicolon => "Semicolon",
            TokenType::LParen => "LParen",
            TokenType::RParen => "RParen",
            TokenType::LBrace => "LBrace",
            TokenType::RBrace => "RBrace",
            TokenType::Function => "Function",
            TokenType::Let => "Let",
            TokenType::True => "True",
            TokenType::False => "False",
            TokenType::If => "If",
            TokenType::Else => "Else",
            TokenType::Return => "Return",
            TokenType::Eq => "Eq",
            TokenType::NotEq => "NotEq",
        }
    }
}

/// Classifies an identifier-shaped lexeme as a reserved word or a plain
/// identifier.
#[must_use]
pub fn lookup_ident(ident: &str) -> (kind: TokenType)
    ensures
        kind == keyword_kind(ident@),
{
    TokenType::from_keyword(ident)
}

/// A lexeme is classified as a reserved word exactly when it is spelled like
/// that word; every other lexeme is a plain identifier.
pub proof fn lemma_keyword_kind(ident: Seq<char>)
    ensures
        is_keyword(keyword_kind(ident)) ==> ident == keyword_text(keyword_kind(ident)),
        !is_keyword(keyword_kind(ident)) ==> keyword_kind(ident) == TokenType::Ident,
        forall|kind: TokenType|
            is_keyword(kind) && ident == #[trigger] keyword_text(kind) ==> keyword_kind(ident)
                == kind,
{
    reveal_strlit("fn");
    reveal_strlit("let");
    reveal_strlit("true");
    reveal_strlit("false");
    reveal_strlit("if");
    reveal_strlit("else");
    reveal_strlit("return");
    // Two reserved words differ in length or in their first character.
    assert("fn"@.len() == 2 && "if"@.len() == 2 && "let"@.len() == 3);
    assert("true"@.len() == 4 && "else"@.len() == 4);
    assert("false"@.len() == 5 && "return"@.len() == 6);
    assert("fn"@[0] != "if"@[0]);
    assert("true"@[0] != "else"@[0]);
}

} // verus!
