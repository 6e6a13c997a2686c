//! What parsing computes: the statement that an attempt at a position yields,
//! and the statements and diagnostics of a whole program.

use crate::ast::{
    ExpressionView, IdentifierView, LetStatementView, ReturnStatementView, StatementView,
};
use crate::scan::{
    cursor_after, lemma_cursor_after_first, lemma_eof_forever, lemma_scan_advances,
    lemma_token_shape, nth_token, scan,
};
use crate::token::{kind_name, TokenType, TokenView};
use vstd::prelude::*;

verus! {

/// The token that a parser whose lookahead window starts at `at` holds as
/// its current token.
pub open spec fn token_at(s: Seq<char>, at: int) -> TokenView {
    scan(s, at).token
}

/// Where the lookahead window starts after one token advance.
pub open spec fn advance(s: Seq<char>, at: int) -> int {
    scan(s, at).next
}

/// The token after the current one.
pub open spec fn peek_at(s: Seq<char>, at: int) -> TokenView {
    token_at(s, advance(s, at))
}

/// The diagnostic for a token of another category than the grammar asks for.
pub open spec fn mismatch_message(expected: TokenType, found: TokenType) -> Seq<char> {
    "expected next token to be "@ + kind_name(expected) + ", got "@ + kind_name(found)
        + " instead"@
}

/// The expression that stands in for a value the parser does not structure:
/// an identifier with an empty name, whose token is of category `kind`.
pub open spec fn placeholder(kind: TokenType) -> ExpressionView {
    ExpressionView::Identifier(
        IdentifierView {
            token: TokenView { kind, literal: Seq::empty() },
            value: Seq::empty(),
        },
    )
}

/// Whether the token read at `at` ends a statement: a `;`, or the
/// end-of-input token that has nothing of the text behind it. An end-of-input
/// token with text behind it ends no statement.
pub open spec fn ends_statement(s: Seq<char>, at: int) -> bool {
    let kind = token_at(s, at).kind;
    kind == TokenType::Semicolon || (kind == TokenType::Eof && advance(s, at) >= s.len())
}

/// The start of the first `;` at or after `at`; where no `;` follows, the
/// start of the end-of-input token that the exhausted text yields. Every
/// token before it is passed over.
pub open spec fn statement_end(s: Seq<char>, at: int) -> int
    decreases s.len() - at,
{
    if at < 0 || ends_statement(s, at) {
        at
    } else {
        proof {
            lemma_scan_advances(s, at);
        }
        statement_end(s, advance(s, at))
    }
}

/// The number of tokens that are passed over from `at` to the end of the
/// statement.
pub open spec fn tokens_before_statement_end(s: Seq<char>, at: int) -> nat
    decreases s.len() - at,
{
    if at < 0 || ends_statement(s, at) {
        0
    } else {
        proof {
            lemma_scan_advances(s, at);
        }
        1 + tokens_before_statement_end(s, advance(s, at))
    }
}

/// The result of one attempt to parse a statement: the statement, if one was
/// recognized; where the lookahead window starts afterwards; and the
/// diagnostics recorded on the way.
pub struct Attempt {
    pub statement: Option<StatementView>,
    pub cursor: int,
    pub errors: Seq<Seq<char>>,
}

/// Parsing a `let` statement whose `let` token starts at `at`.
///
/// The token after `let` must be an identifier and the one after that `=`;
/// otherwise one diagnostic is recorded, no statement is produced and the
/// window stays on the last token that was accepted. The tokens of the value
/// are passed over up to the end of the statement.
pub open spec fn let_statement(s: Seq<char>, at: int) -> Attempt {
    let name_at = advance(s, at);
    let assign_at = advance(s, name_at);
    if token_at(s, name_at).kind != TokenType::Ident {
        Attempt {
            statement: None,
            cursor: at,
            errors: seq![mismatch_message(TokenType::Ident, token_at(s, name_at).kind)],
        }
    } else if token_at(s, assign_at).kind != TokenType::Assign {
        Attempt {
            statement: None,
            cursor: name_at,
            errors: seq![mismatch_message(TokenType::Assign, token_at(s, assign_at).kind)],
        }
    } else {
        Attempt {
            statement: Some(
                StatementView::Let(
                    LetStatementView {
                        token: token_at(s, at),
                        name: IdentifierView {
                            token: token_at(s, name_at),
                            value: token_at(s, name_at).literal,
                        },
                        value: placeholder(TokenType::Illegal),
                    },
                ),
            ),
            cursor: statement_end(s, assign_at),
            errors: Seq::empty(),
        }
    }
}

/// Parsing a `return` statement whose `return` token starts at `at`: the
/// tokens of the value are passed over up to the end of the statement.
pub open spec fn return_statement(s: Seq<char>, at: int) -> Attempt {
    Attempt {
        statement: Some(
            StatementView::Return(
                ReturnStatementView {
                    token: token_at(s, at),
                    return_value: placeholder(TokenType::Return),
                },
            ),
        ),
        cursor: statement_end(s, advance(s, at)),
        errors: Seq::empty(),
    }
}

/// One attempt to parse a statement at `at`: the category of the current
/// token selects the rule, and a token that starts no statement yields
/// nothing.
pub open spec fn statement(s: Seq<char>, at: int) -> Attempt {
    let kind = token_at(s, at).kind;
    if kind == TokenType::Let {
        let_statement(s, at)
    } else if kind == TokenType::Return {
        return_statement(s, at)
    } else {
        Attempt { statement: None, cursor: at, errors: Seq::empty() }
    }
}

/// The statement of an attempt as a sequence of at most one element.
pub open spec fn produced(attempt: Attempt) -> Seq<StatementView> {
    match attempt.statement {
        Some(statement) => seq![statement],
        None => Seq::empty(),
    }
}

/// The result of parsing a whole program.
pub struct Parse {
    pub statements: Seq<StatementView>,
    pub errors: Seq<Seq<char>>,
    pub cursor: int,
}

/// Parsing from a window that starts at `at`: one attempt per round, then one
/// token advance, so that every round moves forwards, up to the first round
/// that starts on an end-of-input token. An end-of-input token inside the
/// value of a statement is passed over with the value. The statements and the
/// diagnostics come in source order.
pub open spec fn program(s: Seq<char>, at: int) -> Parse
    decreases s.len() - at,
{
    if token_at(s, at).kind == TokenType::Eof {
        Parse { statements: Seq::empty(), errors: Seq::empty(), cursor: at }
    } else {
        let attempt = statement(s, at);
        proof {
            lemma_round_advances(s, at);
        }
        let rest = program(s, advance(s, attempt.cursor));
        Parse {
            statements: produced(attempt) + rest.statements,
            errors: attempt.errors + rest.errors,
            cursor: rest.cursor,
        }
    }
}

/// Passing over the rest of a statement never moves backwards, never leaves
/// the text, and stops on a `;` or, where the text is exhausted first, on the
/// end-of-input token that it yields.
pub proof fn lemma_statement_end(s: Seq<char>, at: int)
    requires
        0 <= at <= s.len(),
    ensures
        at <= statement_end(s, at) <= s.len(),
        ends_statement(s, statement_end(s, at)),
    decreases s.len() - at,
{
    lemma_scan_advances(s, at);
    if !ends_statement(s, at) {
        lemma_statement_end(s, advance(s, at));
    }
}

/// The end of a statement is the first token of the token stream from `at`
/// on that ends a statement: it is reached by passing over tokens, and none
/// of the tokens passed over is a `;`.
pub proof fn lemma_statement_end_is_first(s: Seq<char>, at: int)
    requires
        0 <= at <= s.len(),
    ensures
        statement_end(s, at) == cursor_after(s, at, tokens_before_statement_end(s, at)),
        forall|n: nat|
            n < tokens_before_statement_end(s, at) ==> !ends_statement(
                s,
                #[trigger] cursor_after(s, at, n),
            ),
    decreases s.len() - at,
{
    lemma_scan_advances(s, at);
    if !ends_statement(s, at) {
        let next = advance(s, at);
        let rest = tokens_before_statement_end(s, next);
        lemma_statement_end_is_first(s, next);
        lemma_cursor_after_first(s, at, rest);
        assert forall|n: nat| n < rest + 1 implies !ends_statement(
            s,
            #[trigger] cursor_after(s, at, n),
        ) by {
            if n > 0 {
                lemma_cursor_after_first(s, at, (n - 1) as nat);
            }
        }
    }
}

/// Where a `;` follows in the token stream, passing over the rest of a
/// statement stops on a `;`, whatever tokens stand before it.
pub proof fn lemma_statement_end_on_semicolon(s: Seq<char>, at: int, n: nat)
    requires
        0 <= at <= s.len(),
        nth_token(s, at, n).kind == TokenType::Semicolon,
    ensures
        token_at(s, statement_end(s, at)).kind == TokenType::Semicolon,
        tokens_before_statement_end(s, at) <= n,
    decreases n,
{
    lemma_scan_advances(s, at);
    if n > 0 {
        lemma_cursor_after_first(s, at, (n - 1) as nat);
        if ends_statement(s, at) {
            if token_at(s, at).kind == TokenType::Eof {
                // Nothing but end of input follows, so no `;` does.
                lemma_eof_forever(s, advance(s, at), (n - 1) as nat);
            }
        } else {
            lemma_statement_end_on_semicolon(s, advance(s, at), (n - 1) as nat);
        }
    }
}

/// An attempt never moves the window backwards or out of the text.
pub proof fn lemma_attempt_cursor(s: Seq<char>, at: int)
    requires
        0 <= at <= s.len(),
    ensures
        at <= statement(s, at).cursor <= s.len(),
{
    let name_at = advance(s, at);
    let assign_at = advance(s, name_at);
    lemma_scan_advances(s, at);
    lemma_scan_advances(s, name_at);
    lemma_statement_end(s, name_at);
    lemma_statement_end(s, assign_at);
}

/// A round of parsing, an attempt followed by one token advance, moves the
/// window forwards unless the current token is end-of-input.
pub proof fn lemma_round_advances(s: Seq<char>, at: int)
    requires
        token_at(s, at).kind != TokenType::Eof,
    ensures
        0 <= at < advance(s, statement(s, at).cursor) <= s.len(),
{
    lemma_scan_advances(s, at);
    lemma_attempt_cursor(s, at);
    lemma_scan_advances(s, statement(s, at).cursor);
}

/// What holds of every statement that parsing produces. A `let` statement
/// carries the `let` token and, as its name, an identifier token with that
/// token's literal; a `return` statement carries the `return` token. The
/// value of either is the placeholder.
pub open spec fn recognized(statement: StatementView) -> bool {
    match statement {
        StatementView::Let(found) => {
            &&& found.token == TokenView { kind: TokenType::Let, literal: "let"@ }
            &&& found.name.token.kind == TokenType::Ident
            &&& found.name.value == found.name.token.literal
            &&& found.value == placeholder(TokenType::Illegal)
        },
        StatementView::Return(found) => {
            &&& found.token == TokenView { kind: TokenType::Return, literal: "return"@ }
            &&& found.return_value == placeholder(TokenType::Return)
        },
    }
}

/// An attempt that produces a statement records no diagnostic, and the
/// statement is well formed in the sense of `recognized`; an attempt that
/// produces none records at most one diagnostic.
pub proof fn lemma_statement_attempt(s: Seq<char>, at: int)
    ensures
        statement(s, at).statement matches Some(found) ==> recognized(found) && found.wf()
            && statement(s, at).errors.len() == 0,
        statement(s, at).errors.len() <= 1,
{
    lemma_token_shape(s, at);
}

/// Every statement of a parsed program is well formed in the sense of
/// `recognized`, and every identifier in it repeats its token's literal.
pub proof fn lemma_program_recognized(s: Seq<char>, at: int)
    ensures
        forall|i: int|
            0 <= i < program(s, at).statements.len() ==> recognized(
                #[trigger] program(s, at).statements[i],
            ) && program(s, at).statements[i].wf(),
    decreases s.len() - at,
{
    if token_at(s, at).kind != TokenType::Eof {
        let attempt = statement(s, at);
        lemma_round_advances(s, at);
        lemma_statement_attempt(s, at);
        lemma_program_recognized(s, advance(s, attempt.cursor));
        let first = produced(attempt);
        let rest = program(s, advance(s, attempt.cursor)).statements;
        assert forall|i: int| 0 <= i < (first + rest).len() implies recognized(
            #[trigger] (first + rest)[i],
        ) && (first + rest)[i].wf() by {}
    }
}

/// Parsing a program stops on an end-of-input token, without having moved
/// backwards or out of the text; it records at most one diagnostic for each
/// token it started an attempt on.
pub proof fn lemma_program_end(s: Seq<char>, at: int)
    requires
        0 <= at <= s.len(),
    ensures
        at <= program(s, at).cursor <= s.len(),
        token_at(s, program(s, at).cursor).kind == TokenType::Eof,
        program(s, at).statements.len() + program(s, at).errors.len() <= s.len() - at,
    decreases s.len() - at,
{
    if token_at(s, at).kind != TokenType::Eof {
        let attempt = statement(s, at);
        lemma_round_advances(s, at);
        lemma_statement_attempt(s, at);
        lemma_program_end(s, advance(s, attempt.cursor));
    }
}

} // verus!
