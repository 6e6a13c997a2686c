//! What tokenizing computes: the token at a position of a text, the position
//! after it, and the stream of tokens that repeated steps yield.

use crate::token::{
    is_keyword, keyword_kind, keyword_text, lemma_keyword_kind, TokenType, TokenView,
};
use vstd::prelude::*;

verus! {

/// The character classes whose maximal runs the tokenizer consumes.
pub enum CharClass {
    Whitespace,
    Letter,
    Digit,
}

/// Space, tab, newline and carriage return separate tokens.
pub open spec fn whitespace(c: char) -> bool {
    c == ' ' || c == '\t' || c == '\n' || c == '\r'
}

/// ASCII letters and the underscore make up identifiers.
pub open spec fn letter(c: char) -> bool {
    ('a' <= c && c <= 'z') || ('A' <= c && c <= 'Z') || c == '_'
}

/// ASCII digits make up integer literals.
pub open spec fn digit(c: char) -> bool {
    '0' <= c && c <= '9'
}

/// Whether `c` belongs to `class`.
pub open spec fn in_class(class: CharClass, c: char) -> bool {
    match class {
        CharClass::Whitespace => whitespace(c),
        CharClass::Letter => letter(c),
        CharClass::Digit => digit(c),
    }
}

/// The end of the longest run of `class` characters that starts at `from`.
pub open spec fn run_end(s: Seq<char>, class: CharClass, from: int) -> int
    decreases s.len() - from,
{
    if 0 <= from < s.len() && in_class(class, s[from]) {
        run_end(s, class, from + 1)
    } else {
        from
    }
}

/// The category of a character that forms a token by itself.
pub open spec fn single_kind(c: char) -> TokenType {
    if c == '=' {
        TokenType::Assign
    } else if c == ';' {
        TokenType::Semicolon
    } else if c == '(' {
        TokenType::LParen
    } else if c == ')' {
        TokenType::RParen
    } else if c == ',' {
        TokenType::Comma
    } else if c == '+' {
        TokenType::Plus
    } else if c == '-' {
        TokenType::Minus
    } else if c == '!' {
        TokenType::Bang
    } else if c == '/' {
        TokenType::Slash
    } else if c == '*' {
        TokenType::Asterisk
    } else if c == '<' {
        TokenType::Lt
    } else if c == '>' {
        TokenType::Gt
    } else if c == '{' {
        TokenType::LBrace
    } else if c == '}' {
        TokenType::RBrace
    } else if c == '\0' {
        TokenType::Eof
    } else {
        TokenType::Illegal
    }
}

/// The literal of the token that marks the end of the input.
pub open spec fn eof_literal() -> Seq<char> {
    seq!['\0']
}

/// The end-of-input token.
pub open spec fn eof_token() -> TokenView {
    TokenView { kind: TokenType::Eof, literal: eof_literal() }
}

/// One step of tokenizing: the token found and the position after it.
pub struct Scan {
    pub token: TokenView,
    pub next: int,
}

/// The token that tokenizing `s` from position `from` yields, and where
/// tokenizing goes on afterwards.
///
/// Whitespace before the token is skipped. At the end of the text the
/// end-of-input token is yielded and the position stays where it is. `==` and
/// `!=` are one token each; a run of letters is a reserved word or an
/// identifier; a run of digits is an integer literal; any other character is
/// a token by itself.
pub open spec fn scan(s: Seq<char>, from: int) -> Scan {
    let start = run_end(s, CharClass::Whitespace, from);
    if !(0 <= start < s.len()) {
        Scan { token: eof_token(), next: start }
    } else {
        let c = s[start];
        if c == '=' && start + 1 < s.len() && s[start + 1] == '=' {
            Scan {
                token: TokenView { kind: TokenType::Eq, literal: seq!['=', '='] },
                next: start + 2,
            }
        } else if c == '!' && start + 1 < s.len() && s[start + 1] == '=' {
            Scan {
                token: TokenView { kind: TokenType::NotEq, literal: seq!['!', '='] },
                next: start + 2,
            }
        } else if letter(c) {
            let end = run_end(s, CharClass::Letter, start);
            let text = s.subrange(start, end);
            Scan { token: TokenView { kind: keyword_kind(text), literal: text }, next: end }
        } else if digit(c) {
            let end = run_end(s, CharClass::Digit, start);
            Scan {
                token: TokenView { kind: TokenType::Int, literal: s.subrange(start, end) },
                next: end,
            }
        } else {
            Scan { token: TokenView { kind: single_kind(c), literal: seq![c] }, next: start + 1 }
        }
    }
}

/// The character at position `at`, or the sentinel past the end of the text.
pub open spec fn char_at(s: Seq<char>, at: int) -> char {
    if 0 <= at < s.len() {
        s[at]
    } else {
        '\0'
    }
}

/// A maximal run lies inside the text, holds only characters of its class,
/// and ends at the end of the text or before a character of another class.
pub proof fn lemma_run_end(s: Seq<char>, class: CharClass, from: int)
    requires
        0 <= from <= s.len(),
    ensures
        from <= run_end(s, class, from) <= s.len(),
        forall|i: int| from <= i < run_end(s, class, from) ==> in_class(class, #[trigger] s[i]),
        !in_class(class, char_at(s, run_end(s, class, from))),
    decreases s.len() - from,
{
    if from < s.len() && in_class(class, s[from]) {
        lemma_run_end(s, class, from + 1);
    }
}

/// Maximal munch: the end of a run is the only position that can be reached
/// from `from` over characters of the class alone and that has no character
/// of the class under it.
pub proof fn lemma_run_end_unique(s: Seq<char>, class: CharClass, from: int, end: int)
    requires
        0 <= from <= end <= s.len(),
        forall|i: int| from <= i < end ==> in_class(class, #[trigger] s[i]),
        !in_class(class, char_at(s, end)),
    ensures
        run_end(s, class, from) == end,
    decreases end - from,
{
    if from < end {
        lemma_run_end_unique(s, class, from + 1, end);
    }
}

/// Tokenizing never moves backwards and never leaves the text. A step that
/// starts inside the text moves forwards; so does every step that yields
/// another token than end-of-input.
pub proof fn lemma_scan_advances(s: Seq<char>, from: int)
    ensures
        0 <= from <= s.len() ==> from <= scan(s, from).next <= s.len(),
        0 <= from < s.len() ==> from < scan(s, from).next,
        scan(s, from).token.kind != TokenType::Eof ==> 0 <= from < scan(s, from).next <= s.len(),
{
    if 0 <= from <= s.len() {
        let start = run_end(s, CharClass::Whitespace, from);
        lemma_run_end(s, CharClass::Whitespace, from);
        if start < s.len() {
            lemma_run_end(s, CharClass::Letter, start);
            lemma_run_end(s, CharClass::Digit, start);
        }
    }
}

/// Once the text is exhausted, a step yields the end-of-input token and
/// stays where it is.
pub proof fn lemma_scan_exhausted(s: Seq<char>, from: int)
    requires
        from >= s.len(),
    ensures
        scan(s, from) == (Scan { token: eof_token(), next: from }),
{
}

/// A text of one character that is neither whitespace, a letter nor a digit
/// is one token that carries the character, followed by end of input.
pub proof fn lemma_single_character_text(c: char)
    requires
        !whitespace(c),
        !letter(c),
        !digit(c),
    ensures
        scan(seq![c], 0) == (Scan {
            token: TokenView { kind: single_kind(c), literal: seq![c] },
            next: 1,
        }),
        scan(seq![c], 1) == (Scan { token: eof_token(), next: 1 }),
{
}

/// Where tokenizing stands after `n` steps from position `from`.
pub open spec fn cursor_after(s: Seq<char>, from: int, n: nat) -> int
    decreases n,
{
    if n == 0 {
        from
    } else {
        scan(s, cursor_after(s, from, (n - 1) as nat)).next
    }
}

/// The token that the step after the first `n` steps from `from` yields.
pub open spec fn nth_token(s: Seq<char>, from: int, n: nat) -> TokenView {
    scan(s, cursor_after(s, from, n)).token
}

/// End of input is final: from an exhausted text every further step, however
/// many are taken, yields the end-of-input token and leaves the position
/// unchanged.
pub proof fn lemma_eof_forever(s: Seq<char>, from: int, n: nat)
    requires
        from >= s.len(),
    ensures
        cursor_after(s, from, n) == from,
        nth_token(s, from, n) == eof_token(),
    decreases n,
{
    if n > 0 {
        lemma_eof_forever(s, from, (n - 1) as nat);
    }
}

/// The position never decreases along the token stream and never leaves the
/// text.
pub proof fn lemma_cursor_monotonic(s: Seq<char>, from: int, m: nat, n: nat)
    requires
        0 <= from <= s.len(),
        m <= n,
    ensures
        from <= cursor_after(s, from, m) <= cursor_after(s, from, n) <= s.len(),
    decreases n,
{
    if n == 0 {
    } else if m == n {
        lemma_cursor_monotonic(s, from, (n - 1) as nat, (n - 1) as nat);
        lemma_scan_advances(s, cursor_after(s, from, (n - 1) as nat));
    } else {
        lemma_cursor_monotonic(s, from, m, (n - 1) as nat);
        lemma_scan_advances(s, cursor_after(s, from, (n - 1) as nat));
    }
}

/// The tokens from position `from` up to the first end-of-input token, which
/// is left out.
pub open spec fn tokens_until_eof(s: Seq<char>, from: int) -> Seq<TokenView>
    decreases s.len() - from,
{
    let step = scan(s, from);
    if step.token.kind == TokenType::Eof {
        Seq::empty()
    } else {
        proof {
            lemma_scan_advances(s, from);
        }
        seq![step.token] + tokens_until_eof(s, step.next)
    }
}

/// Taking one step and then `n` more is the same as taking `n + 1` steps.
pub proof fn lemma_cursor_after_first(s: Seq<char>, from: int, n: nat)
    ensures
        cursor_after(s, from, n + 1) == cursor_after(s, scan(s, from).next, n),
    decreases n,
{
    if n == 0 {
        assert(cursor_after(s, from, 0) == from);
    } else {
        lemma_cursor_after_first(s, from, (n - 1) as nat);
    }
}

/// The tokens up to end of input are the first tokens of the token stream:
/// none of them is the end-of-input token, and the token that follows them
/// is.
pub proof fn lemma_tokens_until_eof(s: Seq<char>, from: int)
    ensures
        forall|i: int|
            0 <= i < tokens_until_eof(s, from).len() ==> #[trigger] tokens_until_eof(s, from)[i]
                == nth_token(s, from, i as nat) && tokens_until_eof(s, from)[i].kind
                != TokenType::Eof,
        nth_token(s, from, tokens_until_eof(s, from).len()).kind == TokenType::Eof,
    decreases s.len() - from,
{
    let step = scan(s, from);
    if step.token.kind != TokenType::Eof {
        lemma_scan_advances(s, from);
        lemma_tokens_until_eof(s, step.next);
        let rest = tokens_until_eof(s, step.next);
        let all = tokens_until_eof(s, from);
        assert forall|i: int| 0 <= i < all.len() implies #[trigger] all[i] == nth_token(
            s,
            from,
            i as nat,
        ) && all[i].kind != TokenType::Eof by {
            if i > 0 {
                lemma_cursor_after_first(s, from, (i - 1) as nat);
                assert(all[i] == rest[i - 1]);
            }
        }
        lemma_cursor_after_first(s, from, rest.len());
    }
}

/// Whether the literal of a token of this category varies with the source
/// text: identifiers, integer literals and unrecognized characters.
pub open spec fn has_free_literal(kind: TokenType) -> bool {
    kind == TokenType::Ident || kind == TokenType::Int || kind == TokenType::Illegal
}

/// The literal that every token of a category without a free literal
/// carries.
pub open spec fn fixed_literal(kind: TokenType) -> Seq<char>
    recommends
        !has_free_literal(kind),
{
    match kind {
        TokenType::Eof => eof_literal(),
        TokenType::Assign => seq!['='],
        TokenType::Plus => seq!['+'],
        TokenType::Minus => seq!['-'],
        TokenType::Bang => seq!['!'],
        TokenType::Asterisk => seq!['*'],
        TokenType::Slash => seq!['/'],
        TokenType::Lt => seq!['<'],
        TokenType::Gt => seq!['>'],
        TokenType::Comma => seq![','],
        TokenType::Semicolon => seq![';'],
        TokenType::LParen => seq!['('],
        TokenType::RParen => seq![')'],
        TokenType::LBrace => seq!['{'],
        TokenType::RBrace => seq!['}'],
        TokenType::Eq => seq!['=', '='],
        TokenType::NotEq => seq!['!', '='],
        _ => keyword_text(kind),
    }
}

/// Every token found inside the text carries exactly the characters it was
/// read from: those between the end of the whitespace before it and the
/// position after it.
pub proof fn lemma_literal_is_source_text(s: Seq<char>, from: int)
    requires
        0 <= from <= s.len(),
    ensures
        ({
            let start = run_end(s, CharClass::Whitespace, from);
            let step = scan(s, from);
            start < s.len() ==> start < step.next <= s.len() && step.token.literal == s.subrange(
                start,
                step.next,
            )
        }),
{
    let start = run_end(s, CharClass::Whitespace, from);
    lemma_run_end(s, CharClass::Whitespace, from);
    if start < s.len() {
        lemma_run_end(s, CharClass::Letter, start);
        lemma_run_end(s, CharClass::Digit, start);
    }
}

/// What the category of a token says about its literal. The literal is
/// never empty. A reserved word, an operator, a delimiter and end-of-input
/// carry their fixed spelling. An identifier is a run of letters that spells
/// no reserved word, an integer literal is a run of digits, and an
/// unrecognized token is one character that starts no other token.
pub proof fn lemma_token_shape(s: Seq<char>, from: int)
    ensures
        ({
            let token = scan(s, from).token;
            &&& token.literal.len() > 0
            &&& !has_free_literal(token.kind) ==> token.literal == fixed_literal(token.kind)
            &&& token.kind == TokenType::Ident ==> {
                &&& forall|i: int|
                    0 <= i < token.literal.len() ==> letter(#[trigger] token.literal[i])
                &&& forall|kind: TokenType|
                    is_keyword(kind) ==> token.literal != #[trigger] keyword_text(kind)
            }
            &&& token.kind == TokenType::Int ==> forall|i: int|
                0 <= i < token.literal.len() ==> digit(#[trigger] token.literal[i])
            &&& token.kind == TokenType::Illegal ==> {
                &&& token.literal.len() == 1
                &&& single_kind(token.literal[0]) == TokenType::Illegal
                &&& !whitespace(token.literal[0])
                &&& !letter(token.literal[0])
                &&& !digit(token.literal[0])
            }
        }),
{
    let start = run_end(s, CharClass::Whitespace, from);
    let token = scan(s, from).token;
    if 0 <= from <= s.len() {
        lemma_run_end(s, CharClass::Whitespace, from);
    }
    if 0 <= start < s.len() {
        lemma_run_end(s, CharClass::Letter, start);
        lemma_run_end(s, CharClass::Digit, start);
        let c = s[start];
        if letter(c) {
            lemma_keyword_kind(token.literal);
        }
    }
}

} // verus!
