//! The recursive-descent parser: one procedure per nonterminal, driving a
//! token cursor with one or two tokens of lookahead.
use vstd::prelude::*;
use crate::token::{C1Token, Token, starts_block, starts_expression, is_type_keyword, is_constant, is_relop, is_addop, is_mulop};
use crate::grammar::{
    Expected, ParseError, Step, kind_at, is_at, error_at, agrees, terminal,
    typ, functioncall, assignment, expr, simexpr, simexpr_rest, term, term_rest, factor,
    statassignment, returnstatement, printfstatement, statementlist, block, statement, ifstatement,
    functiondefinition, program, parses,
};

verus! {

/// A parse run: the token sequence and a cursor into it.
pub struct C1Parser {
    tokens: Vec<Token>,
    pos: usize,
}

impl C1Parser {
    /// The tokens being parsed.
    pub closed spec fn tokens(&self) -> Seq<Token> {
        self.tokens@
    }

    /// The cursor: the index of the current token.
    pub closed spec fn position(&self) -> int {
        self.pos as int
    }

    /// The cursor lies within the tokens, or just past the last one.
    pub closed spec fn wf(&self) -> bool {
        self.pos <= self.tokens.len()
    }

    /// Parses a whole token sequence as a program.
    ///
    /// Succeeds exactly when the model accepts the tokens, and then every token
    /// has been consumed; otherwise returns the first failure that the model
    /// gives.
    pub fn parse(tokens: Vec<Token>) -> (r: Result<(), ParseError>)
        ensures
            agrees(r, tokens@, tokens@.len() as int, parses(tokens@)),
    {
        let mut parser = C1Parser::init_parser(tokens);
        let r = parser.program();
        r
    }

    fn init_parser(tokens: Vec<Token>) -> (r: C1Parser)
        ensures
            r.wf(),
            r.tokens() == tokens@,
            r.position() == 0,
    {
        C1Parser { tokens, pos: 0 }
    }

    fn current(&self) -> (r: Option<C1Token>)
        requires
            self.wf(),
        ensures
            r == kind_at(self.tokens(), self.position()),
    {
        if self.pos < self.tokens.len() {
            Some(self.tokens[self.pos].kind)
        } else {
            None
        }
    }

    fn peek(&self) -> (r: Option<C1Token>)
        requires
            self.wf(),
        ensures
            r == kind_at(self.tokens(), self.position() + 1),
    {
        if self.pos < self.tokens.len() && self.pos + 1 < self.tokens.len() {
            Some(self.tokens[self.pos + 1].kind)
        } else {
            None
        }
    }

    fn current_matches(&self, token: C1Token) -> (r: bool)
        requires
            self.wf(),
        ensures
            r == is_at(self.tokens(), self.position(), token),
    {
        match self.current() {
            Some(k) => k == token,
            None => false,
        }
    }

    fn next_matches(&self, token: C1Token) -> (r: bool)
        requires
            self.wf(),
        ensures
            r == is_at(self.tokens(), self.position() + 1, token),
    {
        match self.peek() {
            Some(k) => k == token,
            None => false,
        }
    }

    fn eat(&mut self)
        requires
            old(self).wf(),
            old(self).position() < old(self).tokens().len(),
        ensures
            final(self).wf(),
            final(self).tokens() == old(self).tokens(),
            final(self).position() == old(self).position() + 1,
    {
        self.pos = self.pos + 1;
    }

    fn check_and_eat_token(&mut self, token: C1Token) -> (r: bool)
        requires
            old(self).wf(),
        ensures
            final(self).wf(),
            final(self).tokens() == old(self).tokens(),
            r == is_at(old(self).tokens(), old(self).position(), token),
            final(self).position() == old(self).position() + if r { 1int } else { 0int },
    {
        if self.current_matches(token) {
            self.eat();
            true
        } else {
            false
        }
    }

    /// The error for a failure at the cursor.
    fn error_here(&self, expected: Expected) -> (r: ParseError)
        requires
            self.wf(),
        ensures
            r == error_at(self.tokens(), self.position(), expected),
    {
        let line = if self.pos < self.tokens.len() {
            self.tokens[self.pos].line
        } else if self.tokens.len() > 0 {
            self.tokens[self.tokens.len() - 1].line
        } else {
            1
        };
        ParseError { expected, line, actual: self.current() }
    }

    /// Matches one terminal of kind `token`.
    fn expect(&mut self, token: C1Token) -> (r: Result<(), ParseError>)
        requires
            old(self).wf(),
        ensures
            final(self).wf(),
            final(self).tokens() == old(self).tokens(),
            agrees(r, old(self).tokens(), final(self).position(), terminal(old(self).tokens(), old(self).position(), token)),
            r is Ok ==> final(self).position() == old(self).position() + 1,
            r is Err ==> final(self).position() == old(self).position(),
    {
        if self.check_and_eat_token(token) {
            Ok(())
        } else {
            Err(self.error_here(Expected::Token(token)))
        }
    }

    /// The cursor moved from `self` to `after` as the model's `step` says, on
    /// the same tokens, with the outcome `r`: to the end of the rule on
    /// success, and to the point of failure on a failure.
    spec fn ran(self, after: C1Parser, r: Result<(), ParseError>, step: Step) -> bool {
        &&& after.wf()
        &&& after.tokens() == self.tokens()
        &&& agrees(r, self.tokens(), after.position(), step)
        &&& (step matches Err((at, _)) ==> after.position() == at)
    }

    fn current_starts_block(&self) -> (r: bool)
        requires
            self.wf(),
        ensures
            r == (kind_at(self.tokens(), self.position()) matches Some(k) && starts_block(k)),
    {
        match self.current() {
            Some(C1Token::LeftBrace) | Some(C1Token::KwIf) | Some(C1Token::KwReturn) | Some(C1Token::KwPrintf) | Some(C1Token::Identifier) => true,
            _ => false,
        }
    }

    fn current_starts_expression(&self) -> (r: bool)
        requires
            self.wf(),
        ensures
            r == (kind_at(self.tokens(), self.position()) matches Some(k) && starts_expression(k)),
    {
        match self.current() {
            Some(C1Token::Identifier) | Some(C1Token::Minus) | Some(C1Token::ConstInt) | Some(C1Token::ConstFloat) | Some(C1Token::ConstBoolean) | Some(C1Token::LeftParenthesis) => true,
            _ => false,
        }
    }

    fn current_is_type_keyword(&self) -> (r: bool)
        requires
            self.wf(),
        ensures
            r == (kind_at(self.tokens(), self.position()) matches Some(k) && is_type_keyword(k)),
    {
        match self.current() {
            Some(C1Token::KwBoolean) | Some(C1Token::KwFloat) | Some(C1Token::KwInt) | Some(C1Token::KwVoid) => true,
            _ => false,
        }
    }

    fn current_is_constant(&self) -> (r: bool)
        requires
            self.wf(),
        ensures
            r == (kind_at(self.tokens(), self.position()) matches Some(k) && is_constant(k)),
    {
        match self.current() {
            Some(C1Token::ConstInt) | Some(C1Token::ConstFloat) | Some(C1Token::ConstBoolean) => true,
            _ => false,
        }
    }

    fn current_is_relop(&self) -> (r: bool)
        requires
            self.wf(),
        ensures
            r == (kind_at(self.tokens(), self.position()) matches Some(k) && is_relop(k)),
    {
        match self.current() {
            Some(C1Token::Equal) | Some(C1Token::NotEqual) | Some(C1Token::GreaterEqual) | Some(C1Token::LessEqual) | Some(C1Token::Greater) | Some(C1Token::Less) => true,
            _ => false,
        }
    }

    fn current_is_addop(&self) -> (r: bool)
        requires
            self.wf(),
        ensures
            r == (kind_at(self.tokens(), self.position()) matches Some(k) && is_addop(k)),
    {
        match self.current() {
            Some(C1Token::Plus) | Some(C1Token::Minus) | Some(C1Token::Or) => true,
            _ => false,
        }
    }

    fn current_is_mulop(&self) -> (r: bool)
        requires
            self.wf(),
        ensures
            r == (kind_at(self.tokens(), self.position()) matches Some(k) && is_mulop(k)),
    {
        match self.current() {
            Some(C1Token::Asterisk) | Some(C1Token::Slash) | Some(C1Token::And) => true,
            _ => false,
        }
    }

    // One procedure per nonterminal. Each ends having done what the rule of
    // the same name in the grammar model says, and one that succeeds having
    // matched a terminal has moved the cursor forward.

    fn program(&mut self) -> (r: Result<(), ParseError>)
        requires
            old(self).wf(),
        ensures
            old(self).ran(*final(self), r, program(old(self).tokens(), old(self).position())),
            r is Ok ==> old(self).position() <= final(self).position(),
            r is Ok ==> final(self).position() == old(self).tokens().len(),
    {
        let ghost s = self.tokens();
        let ghost p = self.position();
        while self.pos < self.tokens.len()
            invariant
                self.wf(),
                self.tokens() == s,
                s == old(self).tokens(),
                p == old(self).position(),
                p <= self.position(),
                program(s, p) == program(s, self.position()),
            decreases s.len() - self.position(),
        {
            match self.functiondefinition() {
                Ok(()) => {},
                Err(e) => return Err(e),
            }
        }
        Ok(())
    }

    fn functiondefinition(&mut self) -> (r: Result<(), ParseError>)
        requires
            old(self).wf(),
        ensures
            old(self).ran(*final(self), r, functiondefinition(old(self).tokens(), old(self).position())),
            r is Ok ==> old(self).position() < final(self).position(),
    {
        match self.typ() {
            Ok(()) => {},
            Err(e) => return Err(e),
        }
        match self.expect(C1Token::Identifier) {
            Ok(()) => {},
            Err(e) => return Err(e),
        }
        match self.expect(C1Token::LeftParenthesis) {
            Ok(()) => {},
            Err(e) => return Err(e),
        }
        match self.expect(C1Token::RightParenthesis) {
            Ok(()) => {},
            Err(e) => return Err(e),
        }
        match self.expect(C1Token::LeftBrace) {
            Ok(()) => {},
            Err(e) => return Err(e),
        }
        match self.statementlist() {
            Ok(()) => {},
            Err(e) => return Err(e),
        }
        self.expect(C1Token::RightBrace)
    }

    fn functioncall(&mut self) -> (r: Result<(), ParseError>)
        requires
            old(self).wf(),
        ensures
            old(self).ran(*final(self), r, functioncall(old(self).tokens(), old(self).position())),
            r is Ok ==> old(self).position() < final(self).position(),
    {
        match self.expect(C1Token::Identifier) {
            Ok(()) => {},
            Err(e) => return Err(e),
        }
        match self.expect(C1Token::LeftParenthesis) {
            Ok(()) => {},
            Err(e) => return Err(e),
        }
        self.expect(C1Token::RightParenthesis)
    }

    fn statementlist(&mut self) -> (r: Result<(), ParseError>)
        requires
            old(self).wf(),
        ensures
            old(self).ran(*final(self), r, statementlist(old(self).tokens(), old(self).position())),
            r is Ok ==> old(self).position() <= final(self).position(),
        decreases old(self).tokens().len() - old(self).position(), 3int,
    {
        let ghost s = self.tokens();
        let ghost p = self.position();
        while self.current_starts_block()
            invariant
                self.wf(),
                self.tokens() == s,
                s == old(self).tokens(),
                p == old(self).position(),
                p <= self.position(),
                statementlist(s, p) == statementlist(s, self.position()),
            decreases s.len() - self.position(),
        {
            match self.block() {
                Ok(()) => {},
                Err(e) => return Err(e),
            }
        }
        Ok(())
    }

    fn block(&mut self) -> (r: Result<(), ParseError>)
        requires
            old(self).wf(),
        ensures
            old(self).ran(*final(self), r, block(old(self).tokens(), old(self).position())),
            r is Ok ==> old(self).position() < final(self).position(),
        decreases old(self).tokens().len() - old(self).position(), 2int,
    {
        if self.current_matches(C1Token::LeftBrace) {
            self.eat();
            match self.statementlist() {
                Ok(()) => {},
                Err(e) => return Err(e),
            }
            self.expect(C1Token::RightBrace)
        } else {
            self.statement()
        }
    }

    /// The alternatives exclude one another, chosen by the current token. An
    /// identifier followed by `(` starts a call; any other identifier starts an
    /// assignment, so one followed by neither `(` nor `=` is an error that
    /// expects `=`, not an empty statement.
    fn statement(&mut self) -> (r: Result<(), ParseError>)
        requires
            old(self).wf(),
        ensures
            old(self).ran(*final(self), r, statement(old(self).tokens(), old(self).position())),
            r is Ok ==> old(self).position() < final(self).position(),
        decreases old(self).tokens().len() - old(self).position(), 1int,
    {
        if self.current_matches(C1Token::KwIf) {
            self.ifstatement()
        } else if self.current_matches(C1Token::KwReturn) {
            match self.returnstatement() {
                Ok(()) => {},
                Err(e) => return Err(e),
            }
            self.expect(C1Token::Semicolon)
        } else if self.current_matches(C1Token::KwPrintf) {
            match self.printf() {
                Ok(()) => {},
                Err(e) => return Err(e),
            }
            self.expect(C1Token::Semicolon)
        } else if self.current_matches(C1Token::Identifier) {
            if self.next_matches(C1Token::LeftParenthesis) {
                match self.functioncall() {
                    Ok(()) => {},
                    Err(e) => return Err(e),
                }
            } else {
                match self.statassignment() {
                    Ok(()) => {},
                    Err(e) => return Err(e),
                }
            }
            self.expect(C1Token::Semicolon)
        } else {
            Err(self.error_here(Expected::Statement))
        }
    }

    fn ifstatement(&mut self) -> (r: Result<(), ParseError>)
        requires
            old(self).wf(),
        ensures
            old(self).ran(*final(self), r, ifstatement(old(self).tokens(), old(self).position())),
            r is Ok ==> old(self).position() < final(self).position(),
        decreases old(self).tokens().len() - old(self).position(), 0int,
    {
        match self.expect(C1Token::KwIf) {
            Ok(()) => {},
            Err(e) => return Err(e),
        }
        match self.expect(C1Token::LeftParenthesis) {
            Ok(()) => {},
            Err(e) => return Err(e),
        }
        match self.assignment() {
            Ok(()) => {},
            Err(e) => return Err(e),
        }
        match self.expect(C1Token::RightParenthesis) {
            Ok(()) => {},
            Err(e) => return Err(e),
        }
        self.block()
    }

    fn returnstatement(&mut self) -> (r: Result<(), ParseError>)
        requires
            old(self).wf(),
        ensures
            old(self).ran(*final(self), r, returnstatement(old(self).tokens(), old(self).position())),
            r is Ok ==> old(self).position() < final(self).position(),
    {
        match self.expect(C1Token::KwReturn) {
            Ok(()) => {},
            Err(e) => return Err(e),
        }
        if self.current_starts_expression() {
            self.assignment()
        } else {
            Ok(())
        }
    }

    fn printf(&mut self) -> (r: Result<(), ParseError>)
        requires
            old(self).wf(),
        ensures
            old(self).ran(*final(self), r, printfstatement(old(self).tokens(), old(self).position())),
            r is Ok ==> old(self).position() < final(self).position(),
    {
        match self.expect(C1Token::KwPrintf) {
            Ok(()) => {},
            Err(e) => return Err(e),
        }
        match self.expect(C1Token::LeftParenthesis) {
            Ok(()) => {},
            Err(e) => return Err(e),
        }
        match self.assignment() {
            Ok(()) => {},
            Err(e) => return Err(e),
        }
        self.expect(C1Token::RightParenthesis)
    }

    fn typ(&mut self) -> (r: Result<(), ParseError>)
        requires
            old(self).wf(),
        ensures
            old(self).ran(*final(self), r, typ(old(self).tokens(), old(self).position())),
            r is Ok ==> old(self).position() < final(self).position(),
    {
        if self.current_is_type_keyword() {
            self.eat();
            Ok(())
        } else {
            Err(self.error_here(Expected::Type))
        }
    }

    fn statassignment(&mut self) -> (r: Result<(), ParseError>)
        requires
            old(self).wf(),
        ensures
            old(self).ran(*final(self), r, statassignment(old(self).tokens(), old(self).position())),
            r is Ok ==> old(self).position() < final(self).position(),
    {
        match self.expect(C1Token::Identifier) {
            Ok(()) => {},
            Err(e) => return Err(e),
        }
        match self.expect(C1Token::Assign) {
            Ok(()) => {},
            Err(e) => return Err(e),
        }
        self.assignment()
    }

    fn assignment(&mut self) -> (r: Result<(), ParseError>)
        requires
            old(self).wf(),
        ensures
            old(self).ran(*final(self), r, assignment(old(self).tokens(), old(self).position())),
            r is Ok ==> old(self).position() < final(self).position(),
        decreases old(self).tokens().len() - old(self).position(), 6int,
    {
        if self.current_matches(C1Token::Identifier) && self.next_matches(C1Token::Assign) {
            self.eat();
            self.eat();
            self.assignment()
        } else {
            self.expr()
        }
    }

    fn expr(&mut self) -> (r: Result<(), ParseError>)
        requires
            old(self).wf(),
        ensures
            old(self).ran(*final(self), r, expr(old(self).tokens(), old(self).position())),
            r is Ok ==> old(self).position() < final(self).position(),
        decreases old(self).tokens().len() - old(self).position(), 5int,
    {
        match self.simexpr() {
            Ok(()) => {},
            Err(e) => return Err(e),
        }
        if self.current_is_relop() {
            self.eat();
            self.simexpr()
        } else {
            Ok(())
        }
    }

    fn simexpr(&mut self) -> (r: Result<(), ParseError>)
        requires
            old(self).wf(),
        ensures
            old(self).ran(*final(self), r, simexpr(old(self).tokens(), old(self).position())),
            r is Ok ==> old(self).position() < final(self).position(),
        decreases old(self).tokens().len() - old(self).position(), 4int,
    {
        let ghost s = self.tokens();
        let ghost p = self.position();
        if self.current_matches(C1Token::Minus) {
            self.eat();
        }
        match self.term() {
            Ok(()) => {},
            Err(e) => return Err(e),
        }
        while self.current_is_addop()
            invariant
                self.wf(),
                self.tokens() == s,
                s == old(self).tokens(),
                p == old(self).position(),
                p < self.position(),
                simexpr(s, p) == simexpr_rest(s, self.position()),
            decreases s.len() - self.position(),
        {
            self.eat();
            match self.term() {
                Ok(()) => {},
                Err(e) => return Err(e),
            }
        }
        Ok(())
    }

    fn term(&mut self) -> (r: Result<(), ParseError>)
        requires
            old(self).wf(),
        ensures
            old(self).ran(*final(self), r, term(old(self).tokens(), old(self).position())),
            r is Ok ==> old(self).position() < final(self).position(),
        decreases old(self).tokens().len() - old(self).position(), 2int,
    {
        let ghost s = self.tokens();
        let ghost p = self.position();
        match self.factor() {
            Ok(()) => {},
            Err(e) => return Err(e),
        }
        while self.current_is_mulop()
            invariant
                self.wf(),
                self.tokens() == s,
                s == old(self).tokens(),
                p == old(self).position(),
                p < self.position(),
                term(s, p) == term_rest(s, self.position()),
            decreases s.len() - self.position(),
        {
            self.eat();
            match self.factor() {
                Ok(()) => {},
                Err(e) => return Err(e),
            }
        }
        Ok(())
    }

    fn factor(&mut self) -> (r: Result<(), ParseError>)
        requires
            old(self).wf(),
        ensures
            old(self).ran(*final(self), r, factor(old(self).tokens(), old(self).position())),
            r is Ok ==> old(self).position() < final(self).position(),
        decreases old(self).tokens().len() - old(self).position(), 0int,
    {
        if self.current_matches(C1Token::LeftParenthesis) {
            self.eat();
            match self.assignment() {
                Ok(()) => {},
                Err(e) => return Err(e),
            }
            self.expect(C1Token::RightParenthesis)
        } else if self.current_is_constant() {
            self.eat();
            Ok(())
        } else if self.current_matches(C1Token::Identifier) {
            if self.next_matches(C1Token::LeftParenthesis) {
                self.functioncall()
            } else {
                self.eat();
                Ok(())
            }
        } else {
            Err(self.error_here(Expected::Factor))
        }
    }
}

} // verus!
