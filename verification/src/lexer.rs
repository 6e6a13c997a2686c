//! The tokenizer: a cursor over a source text that yields one token per call.

use crate::scan::{
    char_at, digit, eof_literal, lemma_scan_advances, letter, run_end, scan, tokens_until_eof,
    CharClass,
};
use crate::token::{lookup_ident, Token, TokenType};
use vstd::prelude::*;
use vstd::string::string_is_ascii;

verus! {

/// A tokenizer over one source text.
#[derive(Debug)]
pub struct Lexer {
    input: String,
    chars: Vec<char>,
    ascii: bool,
    position: usize,
    read_position: usize,
    ch: char,
}

impl Lexer {
    /// The text being tokenized.
    pub closed spec fn source(&self) -> Seq<char> {
        self.input@
    }

    /// The position of the character under the cursor; the length of the
    /// text once the text is exhausted.
    pub closed spec fn cursor(&self) -> int {
        self.position as int
    }

    /// The cursor lies inside the text or at its end, and the cached
    /// character and lookahead position agree with it.
    pub closed spec fn wf(&self) -> bool {
        &&& self.chars@ == self.input@
        &&& self.ascii ==> string_is_ascii(&self.input)
        &&& self.position <= self.chars.len()
        &&& self.read_position == if self.position < self.chars.len() {
            self.position + 1
        } else {
            self.position as int
        }
        &&& self.ch == char_at(self.chars@, self.position as int)
    }

    /// Whether every character has been consumed.
    pub open spec fn exhausted(&self) -> bool {
        self.cursor() >= self.source().len()
    }

    /// The cursor of a well-formed tokenizer lies inside the text or at its
    /// end.
    pub broadcast proof fn lemma_cursor_in_bounds(&self)
        requires
            #[trigger] self.wf(),
        ensures
            0 <= self.cursor() <= self.source().len(),
    {
    }

    /// A tokenizer placed on the first character of `input`.
    pub fn new(input: &str) -> (lexer: Self)
        ensures
            lexer.wf(),
            lexer.source() == input@,
            lexer.cursor() == 0,
    {
        let mut chars: Vec<char> = Vec::new();
        for c in it: input.chars()
            invariant
                chars@ == it.seq().take(it.index()),
        {
            chars.push(c);
        }
        assert(chars@ == input@);
        let ch = if chars.len() > 0 {
            chars[0]
        } else {
            '\0'
        };
        let read_position: usize = if chars.len() > 0 {
            1
        } else {
            0
        };
        Self {
            input: String::from_str(input),
            chars,
            ascii: input.is_ascii(),
            position: 0,
            read_position,
            ch,
        }
    }

    /// Whether every character has been consumed, so that every further
    /// token is the end-of-input token.
    pub fn is_exhausted(&self) -> (done: bool)
        requires
            self.wf(),
        ensures
            done == self.exhausted(),
    {
        self.position >= self.chars.len()
    }

    /// Moves the cursor one character forward; at the end of the text it
    /// stays in place.
    pub fn read_char(&mut self)
        requires
            old(self).wf(),
        ensures
            final(self).wf(),
            final(self).source() == old(self).source(),
            final(self).cursor() == if old(self).exhausted() {
                old(self).cursor()
            } else {
                old(self).cursor() + 1
            },
    {
        if self.read_position >= self.chars.len() {
            self.ch = '\0';
        } else {
            self.ch = self.chars[self.read_position];
        }
        self.position = self.read_position;
        if self.read_position < self.chars.len() {
            self.read_position += 1;
        }
    }

    /// Yields the next token and moves the cursor behind it.
    ///
    /// Once the text is exhausted every call yields the end-of-input token
    /// and leaves the cursor where it is.
    pub fn next_token(&mut self) -> (token: Token)
        requires
            old(self).wf(),
        ensures
            final(self).wf(),
            final(self).source() == old(self).source(),
            token@ == scan(old(self).source(), old(self).cursor()).token,
            final(self).cursor() == scan(old(self).source(), old(self).cursor()).next,
            old(self).exhausted() ==> token.kind == TokenType::Eof && final(self).cursor() == old(
                self,
            ).cursor(),
            old(self).cursor() <= final(self).cursor() <= final(self).source().len(),
            !old(self).exhausted() ==> old(self).cursor() < final(self).cursor(),
    {
        proof {
            lemma_scan_advances(self.source(), self.cursor());
        }
        self.skip_whitespace();
        let ch = self.ch;
        if self.position >= self.chars.len() {
            return new_token(TokenType::Eof, sentinel_text());
        }
        let token = if ch == '=' {
            if self.peek_is_equals_sign() {
                self.read_char();
                proof {
                    reveal_strlit("==");
                }
                assert("=="@ =~= seq!['=', '=']);
                new_token(TokenType::Eq, String::from_str("=="))
            } else {
                new_token(TokenType::Assign, self.char_to_string())
            }
        } else if ch == ';' {
            new_token(TokenType::Semicolon, self.char_to_string())
        } else if ch == '(' {
            new_token(TokenType::LParen, self.char_to_string())
        } else if ch == ')' {
            new_token(TokenType::RParen, self.char_to_string())
        } else if ch == ',' {
            new_token(TokenType::Comma, self.char_to_string())
        } else if ch == '+' {
            new_token(TokenType::Plus, self.char_to_string())
        } else if ch == '-' {
            new_token(TokenType::Minus, self.char_to_string())
        } else if ch == '!' {
            if self.peek_is_equals_sign() {
                self.read_char();
                proof {
                    reveal_strlit("!=");
                }
                assert("!="@ =~= seq!['!', '=']);
                new_token(TokenType::NotEq, String::from_str("!="))
            } else {
                new_token(TokenType::Bang, self.char_to_string())
            }
        } else if ch == '/' {
            new_token(TokenType::Slash, self.char_to_string())
        } else if ch == '*' {
            new_token(TokenType::Asterisk, self.char_to_string())
        } else if ch == '<' {
            new_token(TokenType::Lt, self.char_to_string())
        } else if ch == '>' {
            new_token(TokenType::Gt, self.char_to_string())
        } else if ch == '{' {
            new_token(TokenType::LBrace, self.char_to_string())
        } else if ch == '}' {
            new_token(TokenType::RBrace, self.char_to_string())
        } else if ch == '\0' {
            new_token(TokenType::Eof, sentinel_text())
        } else if is_letter(ch) {
            let literal = self.read_identifier();
            return Token { kind: lookup_ident(literal.as_str()), literal };
        } else if is_digit(ch) {
            return Token { kind: TokenType::Int, literal: self.read_number() };
        } else {
            new_token(TokenType::Illegal, self.char_to_string())
        };
        self.read_char();
        token
    }

    /// Consumes the run of letters under the cursor and returns it.
    fn read_identifier(&mut self) -> (text: String)
        requires
            old(self).wf(),
        ensures
            final(self).wf(),
            final(self).source() == old(self).source(),
            final(self).cursor() == run_end(
                old(self).source(),
                CharClass::Letter,
                old(self).cursor(),
            ),
            text@ == old(self).source().subrange(old(self).cursor(), final(self).cursor()),
    {
        let start_position = self.position;
        while is_letter(self.ch)
            invariant
                self.wf(),
                self.source() == old(self).source(),
                start_position <= self.position,
                run_end(self.source(), CharClass::Letter, self.cursor()) == run_end(
                    self.source(),
                    CharClass::Letter,
                    start_position as int,
                ),
            decreases self.chars.len() - self.position,
        {
            self.read_char();
        }
        self.slice(start_position, self.position)
    }

    /// Consumes the run of digits under the cursor and returns it.
    fn read_number(&mut self) -> (text: String)
        requires
            old(self).wf(),
        ensures
            final(self).wf(),
            final(self).source() == old(self).source(),
            final(self).cursor() == run_end(
                old(self).source(),
                CharClass::Digit,
                old(self).cursor(),
            ),
            text@ == old(self).source().subrange(old(self).cursor(), final(self).cursor()),
    {
        let start_position = self.position;
        while is_digit(self.ch)
            invariant
                self.wf(),
                self.source() == old(self).source(),
                start_position <= self.position,
                run_end(self.source(), CharClass::Digit, self.cursor()) == run_end(
                    self.source(),
                    CharClass::Digit,
                    start_position as int,
                ),
            decreases self.chars.len() - self.position,
        {
            self.read_char();
        }
        self.slice(start_position, self.position)
    }

    /// Moves the cursor to the first character that is not whitespace.
    fn skip_whitespace(&mut self)
        requires
            old(self).wf(),
        ensures
            final(self).wf(),
            final(self).source() == old(self).source(),
            final(self).cursor() == run_end(
                old(self).source(),
                CharClass::Whitespace,
                old(self).cursor(),
            ),
    {
        while self.ch == ' ' || self.ch == '\t' || self.ch == '\n' || self.ch == '\r'
            invariant
                self.wf(),
                self.source() == old(self).source(),
                run_end(self.source(), CharClass::Whitespace, self.cursor()) == run_end(
                    self.source(),
                    CharClass::Whitespace,
                    old(self).cursor(),
                ),
            decreases self.chars.len() - self.position,
        {
            self.read_char();
        }
    }

    /// The character after the one under the cursor, if there is one.
    fn peek_char(&self) -> (next: Option<char>)
        requires
            self.wf(),
        ensures
            next == if self.cursor() + 1 < self.source().len() {
                Some(self.source()[self.cursor() + 1])
            } else {
                None
            },
    {
        if self.read_position >= self.chars.len() {
            None
        } else {
            Some(self.chars[self.read_position])
        }
    }

    /// Whether the character after the one under the cursor is `=`.
    fn peek_is_equals_sign(&self) -> (found: bool)
        requires
            self.wf(),
        ensures
            found == (self.cursor() + 1 < self.source().len() && self.source()[self.cursor() + 1]
                == '='),
    {
        match self.peek_char() {
            Some(c) => c == '=',
            None => false,
        }
    }

    /// The character under the cursor as a text of its own.
    fn char_to_string(&self) -> (text: String)
        requires
            self.wf(),
            !self.exhausted(),
        ensures
            text@ == seq![self.source()[self.cursor()]],
    {
        self.slice(self.position, self.position + 1)
    }

    /// The characters from position `from` up to position `to`.
    fn slice(&self, from: usize, to: usize) -> (text: String)
        requires
            self.wf(),
            from <= to <= self.source().len(),
        ensures
            text@ == self.source().subrange(from as int, to as int),
    {
        if self.ascii {
            String::from_str(self.input.as_str().substring_ascii(from, to))
        } else {
            String::from_str(self.input.as_str().substring_char(from, to))
        }
    }
}

/// The tokens of `input` in source order, up to the first end-of-input token,
/// which is left out.
pub fn tokenize(input: &str) -> (tokens: Vec<Token>)
    ensures
        tokens.deep_view() == tokens_until_eof(input@, 0),
{
    let mut lexer = Lexer::new(input);
    let mut tokens: Vec<Token> = Vec::new();
    loop
        invariant_except_break
            lexer.wf(),
            lexer.source() == input@,
            tokens_until_eof(input@, 0) == tokens.deep_view() + tokens_until_eof(
                input@,
                lexer.cursor(),
            ),
        ensures
            tokens.deep_view() == tokens_until_eof(input@, 0),
        decreases input@.len() - lexer.cursor(),
    {
        let token = lexer.next_token();
        if token.kind == TokenType::Eof {
            break ;
        }
        tokens.push(token);
    }
    tokens
}

/// The literal that the end-of-input token carries.
fn sentinel_text() -> (text: String)
    ensures
        text@ == eof_literal(),
{
    proof {
        reveal_strlit("\0");
    }
    String::from_str("\0")
}

fn new_token(token_type: TokenType, literal: String) -> (token: Token)
    ensures
        token.kind == token_type,
        token.literal == literal,
{
    Token { kind: token_type, literal }
}

fn is_letter(ch: char) -> (yes: bool)
    ensures
        yes == letter(ch),
{
    ('a' <= ch && ch <= 'z') || ('A' <= ch && ch <= 'Z') || ch == '_'
}

fn is_digit(ch: char) -> (yes: bool)
    ensures
        yes == digit(ch),
{
    '0' <= ch && ch <= '9'
}

} // verus!
