//! The parser: a two-token window over the token stream that recognizes `let`
//! and `return` statements and collects diagnostics.

use crate::ast::{Expression, Identifier, LetStatement, Program, ReturnStatement, Statement};
use crate::grammar::{
    advance, ends_statement, lemma_program_recognized, lemma_round_advances, let_statement,
    mismatch_message, peek_at, program, recognized, return_statement, statement, statement_end,
    token_at,
};
use crate::lexer::Lexer;
use crate::scan::lemma_scan_advances;
use crate::token::{Token, TokenType, TokenView};
use vstd::prelude::*;

verus! {

/// A parser that reads its tokens from a tokenizer, one token ahead of the
/// one it is looking at.
pub struct Parser {
    l: Lexer,
    cur_token: Token,
    cur_is_last: bool,
    peek_token: Token,
    peek_is_last: bool,
    errors: Vec<String>,
    start: Ghost<int>,
}

impl Parser {
    /// The text being parsed.
    pub closed spec fn source(&self) -> Seq<char> {
        self.l.source()
    }

    /// The position from which the current token was read.
    pub closed spec fn cursor(&self) -> int {
        self.start@
    }

    /// The diagnostics recorded so far, oldest first.
    pub closed spec fn diagnostics(&self) -> Seq<Seq<char>> {
        self.errors.deep_view()
    }

    /// The current token and the token after it are the next two tokens of
    /// the text from the cursor on, and the tokenizer stands behind them.
    /// Beside each token the parser keeps whether the text was exhausted
    /// once the token had been read.
    pub closed spec fn wf(&self) -> bool {
        let s = self.l.source();
        &&& self.l.wf()
        &&& 0 <= self.start@ <= s.len()
        &&& self.cur_token@ == token_at(s, self.start@)
        &&& self.cur_is_last == (advance(s, self.start@) >= s.len())
        &&& self.peek_token@ == peek_at(s, self.start@)
        &&& self.peek_is_last == (advance(s, advance(s, self.start@)) >= s.len())
        &&& self.l.cursor() == advance(s, advance(s, self.start@))
    }

    /// The token the parser is looking at.
    pub open spec fn current(&self) -> TokenView {
        token_at(self.source(), self.cursor())
    }

    /// The token after the current one.
    pub open spec fn peek(&self) -> TokenView {
        peek_at(self.source(), self.cursor())
    }

    /// The cursor of a well-formed parser lies inside the text or at its end.
    pub broadcast proof fn lemma_cursor_in_bounds(&self)
        requires
            #[trigger] self.wf(),
        ensures
            0 <= self.cursor() <= self.source().len(),
    {
    }

    /// A parser over the rest of the tokenizer's text, with the first two
    /// tokens read ahead and no diagnostics.
    #[must_use]
    pub fn new(l: Lexer) -> (parser: Self)
        requires
            l.wf(),
        ensures
            parser.wf(),
            parser.source() == l.source(),
            parser.cursor() == l.cursor(),
            parser.diagnostics() == Seq::<Seq<char>>::empty(),
    {
        broadcast use Lexer::lemma_cursor_in_bounds;

        let ghost start = l.cursor();
        let mut l = l;
        let cur_token = l.next_token();
        let cur_is_last = l.is_exhausted();
        let peek_token = l.next_token();
        let peek_is_last = l.is_exhausted();
        Self {
            l,
            cur_token,
            cur_is_last,
            peek_token,
            peek_is_last,
            errors: Vec::new(),
            start: Ghost(start),
        }
    }

    /// Makes the token after the current one the current token and reads
    /// one more token ahead.
    pub fn next_token(&mut self)
        requires
            old(self).wf(),
        ensures
            final(self).wf(),
            final(self).source() == old(self).source(),
            final(self).cursor() == advance(old(self).source(), old(self).cursor()),
            final(self).diagnostics() == old(self).diagnostics(),
    {
        proof {
            lemma_scan_advances(self.l.source(), self.start@);
        }
        std::mem::swap(&mut self.cur_token, &mut self.peek_token);
        self.cur_is_last = self.peek_is_last;
        self.peek_token = self.l.next_token();
        self.peek_is_last = self.l.is_exhausted();
        self.start = Ghost(advance(self.l.source(), self.start@));
    }

    /// Parses statement by statement until the current token, where a
    /// statement could start, is an end-of-input token, and returns the
    /// statements recognized on the way, in source order. A token that starts no
    /// statement, and a statement that breaks off, are passed over; what
    /// went wrong is added to the diagnostics.
    pub fn parse_program(&mut self) -> (tree: Program)
        requires
            old(self).wf(),
        ensures
            final(self).wf(),
            final(self).source() == old(self).source(),
            tree@ == program(old(self).source(), old(self).cursor()).statements,
            final(self).diagnostics() == old(self).diagnostics() + program(
                old(self).source(),
                old(self).cursor(),
            ).errors,
            final(self).cursor() == program(old(self).source(), old(self).cursor()).cursor,
            final(self).current().kind == TokenType::Eof,
            forall|i: int| 0 <= i < tree@.len() ==> recognized(#[trigger] tree@[i]),
    {
        proof {
            lemma_program_recognized(self.source(), self.cursor());
        }
        let mut tree = Program { statements: Vec::new() };
        let ghost whole = program(self.source(), self.cursor());
        while self.cur_token.kind != TokenType::Eof
            invariant
                self.wf(),
                self.source() == old(self).source(),
                whole == program(old(self).source(), old(self).cursor()),
                whole.statements == tree@ + program(self.source(), self.cursor()).statements,
                old(self).diagnostics() + whole.errors == self.diagnostics() + program(
                    self.source(),
                    self.cursor(),
                ).errors,
                whole.cursor == program(self.source(), self.cursor()).cursor,
            decreases self.source().len() - self.cursor(),
        {
            proof {
                lemma_round_advances(self.source(), self.cursor());
            }
            if let Some(stmt) = self.parse_statement() {
                tree.statements.push(stmt);
            }
            self.next_token();
        }
        tree
    }

    /// Attempts to parse the statement that the current token starts.
    fn parse_statement(&mut self) -> (parsed: Option<Statement>)
        requires
            old(self).wf(),
        ensures
            final(self).wf(),
            final(self).source() == old(self).source(),
            parsed.deep_view() == statement(old(self).source(), old(self).cursor()).statement,
            final(self).cursor() == statement(old(self).source(), old(self).cursor()).cursor,
            final(self).diagnostics() == old(self).diagnostics() + statement(
                old(self).source(),
                old(self).cursor(),
            ).errors,
    {
        match self.cur_token.kind {
            TokenType::Let => self.parse_let_statement(),
            TokenType::Return => self.parse_return_statement(),
            _ => {
                None
            },
        }
    }

    /// Parses `let <name> = ... ;` with the current token on `let`.
    fn parse_let_statement(&mut self) -> (parsed: Option<Statement>)
        requires
            old(self).wf(),
        ensures
            final(self).wf(),
            final(self).source() == old(self).source(),
            parsed.deep_view() == let_statement(old(self).source(), old(self).cursor()).statement,
            final(self).cursor() == let_statement(old(self).source(), old(self).cursor()).cursor,
            final(self).diagnostics() == old(self).diagnostics() + let_statement(
                old(self).source(),
                old(self).cursor(),
            ).errors,
            parsed is Some ==> ends_statement(final(self).source(), final(self).cursor()),
    {
        let mut stmt = LetStatement {
            token: self.cur_token.clone(),
            name: Identifier {
                token: Token { kind: TokenType::Illegal, literal: String::new() },
                value: String::new(),
            },
            value: Expression::Identifier(
                Identifier {
                    token: Token { kind: TokenType::Illegal, literal: String::new() },
                    value: String::new(),
                },
            ),
        };

        if !self.expect_peek(&TokenType::Ident) {
            return None;
        }
        stmt.name = Identifier {
            token: self.cur_token.clone(),
            value: self.cur_token.literal.clone(),
        };

        if !self.expect_peek(&TokenType::Assign) {
            return None;
        }
        self.skip_to_statement_end();

        Some(Statement::Let(stmt))
    }

    /// Parses `return ... ;` with the current token on `return`.
    fn parse_return_statement(&mut self) -> (parsed: Option<Statement>)
        requires
            old(self).wf(),
        ensures
            final(self).wf(),
            final(self).source() == old(self).source(),
            parsed.deep_view() == return_statement(
                old(self).source(),
                old(self).cursor(),
            ).statement,
            final(self).cursor() == return_statement(old(self).source(), old(self).cursor()).cursor,
            final(self).diagnostics() == old(self).diagnostics() + return_statement(
                old(self).source(),
                old(self).cursor(),
            ).errors,
            parsed is Some && ends_statement(final(self).source(), final(self).cursor()),
    {
        let stmt = ReturnStatement {
            token: self.cur_token.clone(),
            return_value: Expression::Identifier(
                Identifier {
                    token: Token { kind: TokenType::Return, literal: String::new() },
                    value: String::new(),
                },
            ),
        };

        self.next_token();
        self.skip_to_statement_end();

        Some(Statement::Return(stmt))
    }

    /// Advances until the current token is a `;`. Where the text holds no
    /// further `;`, advances until the current token is the end-of-input
    /// token that the exhausted text yields.
    fn skip_to_statement_end(&mut self)
        requires
            old(self).wf(),
        ensures
            final(self).wf(),
            final(self).source() == old(self).source(),
            final(self).cursor() == statement_end(old(self).source(), old(self).cursor()),
            ends_statement(final(self).source(), final(self).cursor()),
            final(self).diagnostics() == old(self).diagnostics(),
    {
        while !self.cur_token_ends_statement()
            invariant
                self.wf(),
                self.source() == old(self).source(),
                self.diagnostics() == old(self).diagnostics(),
                statement_end(self.source(), self.cursor()) == statement_end(
                    old(self).source(),
                    old(self).cursor(),
                ),
            decreases self.source().len() - self.cursor(),
        {
            proof {
                lemma_scan_advances(self.source(), self.cursor());
            }
            self.next_token();
        }
    }

    /// Whether the current token is a `;`, or the end-of-input token with
    /// nothing of the text behind it.
    fn cur_token_ends_statement(&self) -> (ends: bool)
        requires
            self.wf(),
        ensures
            ends == ends_statement(self.source(), self.cursor()),
    {
        self.cur_token_is(&TokenType::Semicolon) || (self.cur_token_is(&TokenType::Eof)
            && self.cur_is_last)
    }

    /// Whether the current token is of category `t`.
    fn cur_token_is(&self, t: &TokenType) -> (same: bool)
        requires
            self.wf(),
        ensures
            same == (self.current().kind == *t),
    {
        self.cur_token.kind == *t
    }

    /// Whether the token after the current one is of category `t`.
    fn peek_token_is(&self, t: &TokenType) -> (same: bool)
        requires
            self.wf(),
        ensures
            same == (self.peek().kind == *t),
    {
        self.peek_token.kind == *t
    }

    /// Advances if the token after the current one is of category `t`;
    /// otherwise records a diagnostic and stays.
    fn expect_peek(&mut self, t: &TokenType) -> (found: bool)
        requires
            old(self).wf(),
        ensures
            final(self).wf(),
            final(self).source() == old(self).source(),
            found == (old(self).peek().kind == *t),
            found ==> final(self).cursor() == advance(old(self).source(), old(self).cursor())
                && final(self).diagnostics() == old(self).diagnostics(),
            !found ==> final(self).cursor() == old(self).cursor() && final(self).diagnostics()
                == old(self).diagnostics().push(
                mismatch_message(*t, old(self).peek().kind),
            ),
    {
        if self.peek_token_is(t) {
            self.next_token();
            true
        } else {
            self.peek_error(t);
            false
        }
    }

    /// The diagnostics recorded so far, oldest first.
    #[must_use]
    pub fn errors(&self) -> (errors: &Vec<String>)
        ensures
            errors.deep_view() == self.diagnostics(),
    {
        &self.errors
    }

    /// Records that the token after the current one is not of the category
    /// `expected`.
    pub fn peek_error(&mut self, expected: &TokenType)
        requires
            old(self).wf(),
        ensures
            final(self).wf(),
            final(self).source() == old(self).source(),
            final(self).cursor() == old(self).cursor(),
            final(self).diagnostics() == old(self).diagnostics().push(
                mismatch_message(*expected, old(self).peek().kind),
            ),
    {
        let mut msg = String::from_str("expected next token to be ");
        msg.append(expected.name());
        msg.append(", got ");
        msg.append(self.peek_token.kind.name());
        msg.append(" instead");
        self.errors.push(msg);
    }
}

} // verus!
