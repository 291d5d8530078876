//! The grammar of C1 as a functional model over token sequences.
//!
//! Each nonterminal is a spec function from a token sequence and a start
//! position to a `Step`: `Ok(end)` when the tokens from the start position up
//! to `end` derive the nonterminal (taking the choices that one or two tokens
//! of lookahead dictate), or `Err((at, expected))` for the first position at
//! which the tokens diverge from the grammar and what was expected there.
//!
//! The range conditions on an intermediate end `q` that guard some recursive
//! calls always hold (a repeated rule consumes at least one token and no rule
//! runs past the end); they only let the definitions be seen to terminate.
use vstd::prelude::*;
use crate::token::{C1Token, Token, starts_block, starts_expression, is_type_keyword, is_constant, is_relop, is_addop, is_mulop};

verus! {

/// What the parser expected at the point where it failed.
#[derive(Clone, Copy, Debug, PartialEq, Eq, Structural)]
pub enum Expected {
    /// A token of this kind.
    Token(C1Token),
    /// A type keyword (`bool`, `float`, `int` or `void`).
    Type,
    /// The start of a statement.
    Statement,
    /// The start of a factor: `(`, a constant or an identifier.
    Factor,
}

/// A syntax error: the construct that was expected, the source line at the
/// point of failure and the token found there (`None` at end of input).
#[derive(Clone, Copy, Debug, PartialEq, Eq, Structural)]
pub struct ParseError {
    pub expected: Expected,
    pub line: usize,
    pub actual: Option<C1Token>,
}

/// The outcome of a rule: `Ok(end)`, or `Err((at, expected))`.
pub type Step = Result<int, (int, Expected)>;

/// The kind of the token at `p`, or `None` outside the sequence.
pub open spec fn kind_at(s: Seq<Token>, p: int) -> Option<C1Token> {
    if 0 <= p < s.len() {
        Some(s[p].kind)
    } else {
        None
    }
}

pub open spec fn is_at(s: Seq<Token>, p: int, k: C1Token) -> bool {
    kind_at(s, p) == Some(k)
}

/// The source line reported for a failure at `p`: the line of the token there,
/// or at end of input the line of the last token.
pub open spec fn line_at(s: Seq<Token>, p: int) -> usize {
    if 0 <= p < s.len() {
        s[p].line
    } else if s.len() > 0 {
        s.last().line
    } else {
        1
    }
}

/// The error reported for a failure at `p` that expected `x`.
pub open spec fn error_at(s: Seq<Token>, p: int, x: Expected) -> ParseError {
    ParseError { expected: x, line: line_at(s, p), actual: kind_at(s, p) }
}

/// Whether an executable outcome, with the cursor left at `end`, is the one
/// that the model gives.
pub open spec fn agrees(r: Result<(), ParseError>, s: Seq<Token>, end: int, step: Step) -> bool {
    match step {
        Ok(q) => r is Ok && end == q,
        Err((at, x)) => r == Err::<(), ParseError>(error_at(s, at, x)),
    }
}

/// A single terminal of kind `k` at `p`.
pub open spec fn terminal(s: Seq<Token>, p: int, k: C1Token) -> Step {
    if is_at(s, p, k) {
        Ok(p + 1)
    } else {
        Err((p, Expected::Token(k)))
    }
}

/// `r` followed by a terminal of kind `k`.
pub open spec fn then_terminal(r: Step, s: Seq<Token>, k: C1Token) -> Step {
    match r {
        Ok(q) => terminal(s, q, k),
        Err(e) => Err(e),
    }
}

/// `type := "bool" | "float" | "int" | "void"`
pub open spec fn typ(s: Seq<Token>, p: int) -> Step {
    match kind_at(s, p) {
        Some(k) if is_type_keyword(k) => Ok(p + 1),
        _ => Err((p, Expected::Type)),
    }
}

/// `functioncall := identifier "(" ")"`
pub open spec fn functioncall(s: Seq<Token>, p: int) -> Step {
    then_terminal(then_terminal(terminal(s, p, C1Token::Identifier), s, C1Token::LeftParenthesis), s, C1Token::RightParenthesis)
}

/// `assignment := identifier "=" assignment | expr`, the first alternative
/// chosen when an identifier is followed by `=`.
pub open spec fn assignment(s: Seq<Token>, p: int) -> Step
    decreases s.len() - p, 6int,
{
    if is_at(s, p, C1Token::Identifier) && is_at(s, p + 1, C1Token::Assign) {
        assignment(s, p + 2)
    } else {
        expr(s, p)
    }
}

/// `expr := simexpr [ relop simexpr ]`
pub open spec fn expr(s: Seq<Token>, p: int) -> Step
    decreases s.len() - p, 5int,
{
    match simexpr(s, p) {
        Ok(q) => match kind_at(s, q) {
            Some(k) if is_relop(k) && p <= q < s.len() => simexpr(s, q + 1),
            _ => Ok(q),
        },
        Err(e) => Err(e),
    }
}

/// `simexpr := "-"? term ( addop term )*`
pub open spec fn simexpr(s: Seq<Token>, p: int) -> Step
    decreases s.len() - p, 4int,
{
    let start = if is_at(s, p, C1Token::Minus) { p + 1 } else { p };
    match term(s, start) {
        Ok(q) => if p <= q <= s.len() { simexpr_rest(s, q) } else { Ok(q) },
        Err(e) => Err(e),
    }
}

/// `( addop term )*`, repeated while an additive operator follows.
pub open spec fn simexpr_rest(s: Seq<Token>, p: int) -> Step
    decreases s.len() - p, 3int,
{
    match kind_at(s, p) {
        Some(k) if is_addop(k) => match term(s, p + 1) {
            Ok(q) => if p < q <= s.len() { simexpr_rest(s, q) } else { Ok(q) },
            Err(e) => Err(e),
        },
        _ => Ok(p),
    }
}

/// `term := factor ( mulop factor )*`
pub open spec fn term(s: Seq<Token>, p: int) -> Step
    decreases s.len() - p, 2int,
{
    match factor(s, p) {
        Ok(q) => if p <= q <= s.len() { term_rest(s, q) } else { Ok(q) },
        Err(e) => Err(e),
    }
}

/// `( mulop factor )*`, repeated while a multiplicative operator follows.
pub open spec fn term_rest(s: Seq<Token>, p: int) -> Step
    decreases s.len() - p, 1int,
{
    match kind_at(s, p) {
        Some(k) if is_mulop(k) => match factor(s, p + 1) {
            Ok(q) => if p < q <= s.len() { term_rest(s, q) } else { Ok(q) },
            Err(e) => Err(e),
        },
        _ => Ok(p),
    }
}

/// `factor := "(" assignment ")" | constant | identifier ("(" ")")?`, an
/// identifier followed by `(` being a function call.
pub open spec fn factor(s: Seq<Token>, p: int) -> Step
    decreases s.len() - p, 0int,
{
    match kind_at(s, p) {
        Some(C1Token::LeftParenthesis) => then_terminal(assignment(s, p + 1), s, C1Token::RightParenthesis),
        Some(k) if is_constant(k) => Ok(p + 1),
        Some(C1Token::Identifier) => if is_at(s, p + 1, C1Token::LeftParenthesis) {
            functioncall(s, p)
        } else {
            Ok(p + 1)
        },
        _ => Err((p, Expected::Factor)),
    }
}

/// `statassignment := identifier "=" assignment`
pub open spec fn statassignment(s: Seq<Token>, p: int) -> Step {
    match then_terminal(terminal(s, p, C1Token::Identifier), s, C1Token::Assign) {
        Ok(q) => assignment(s, q),
        Err(e) => Err(e),
    }
}

/// `returnstatement := "return" assignment?`, the assignment present when the
/// token after `return` may begin an expression.
pub open spec fn returnstatement(s: Seq<Token>, p: int) -> Step {
    match terminal(s, p, C1Token::KwReturn) {
        Ok(q) => match kind_at(s, q) {
            Some(k) if starts_expression(k) => assignment(s, q),
            _ => Ok(q),
        },
        Err(e) => Err(e),
    }
}

/// `printfstatement := "printf" "(" assignment ")"`
pub open spec fn printfstatement(s: Seq<Token>, p: int) -> Step {
    match then_terminal(terminal(s, p, C1Token::KwPrintf), s, C1Token::LeftParenthesis) {
        Ok(q) => then_terminal(assignment(s, q), s, C1Token::RightParenthesis),
        Err(e) => Err(e),
    }
}

/// `statementlist := block*`, repeated while the current token may begin a block.
pub open spec fn statementlist(s: Seq<Token>, p: int) -> Step
    decreases s.len() - p, 3int,
{
    match kind_at(s, p) {
        Some(k) if starts_block(k) => match block(s, p) {
            Ok(q) => if p < q <= s.len() { statementlist(s, q) } else { Ok(q) },
            Err(e) => Err(e),
        },
        _ => Ok(p),
    }
}

/// `block := "{" statementlist "}" | statement`
pub open spec fn block(s: Seq<Token>, p: int) -> Step
    decreases s.len() - p, 2int,
{
    if is_at(s, p, C1Token::LeftBrace) {
        then_terminal(statementlist(s, p + 1), s, C1Token::RightBrace)
    } else {
        statement(s, p)
    }
}

/// `statement := ifstatement | returnstatement ";" | printfstatement ";"
/// | functioncall ";" | statassignment ";"`, chosen by the current token and,
/// after an identifier, by whether `(` follows.
///
/// The alternatives exclude one another: exactly one is tried. An identifier
/// not followed by `(` is taken as the start of an assignment, so an
/// identifier followed by neither `(` nor `=` is an error that expects `=`;
/// it is never accepted as an empty statement. A current token that starts
/// no statement is an error that expects a statement.
pub open spec fn statement(s: Seq<Token>, p: int) -> Step
    decreases s.len() - p, 1int,
{
    match kind_at(s, p) {
        Some(C1Token::KwIf) => ifstatement(s, p),
        Some(C1Token::KwReturn) => then_terminal(returnstatement(s, p), s, C1Token::Semicolon),
        Some(C1Token::KwPrintf) => then_terminal(printfstatement(s, p), s, C1Token::Semicolon),
        Some(C1Token::Identifier) => if is_at(s, p + 1, C1Token::LeftParenthesis) {
            then_terminal(functioncall(s, p), s, C1Token::Semicolon)
        } else {
            then_terminal(statassignment(s, p), s, C1Token::Semicolon)
        },
        _ => Err((p, Expected::Statement)),
    }
}

/// `ifstatement := "if" "(" assignment ")" block`
pub open spec fn ifstatement(s: Seq<Token>, p: int) -> Step
    decreases s.len() - p, 0int,
{
    match then_terminal(terminal(s, p, C1Token::KwIf), s, C1Token::LeftParenthesis) {
        Ok(q) => match then_terminal(assignment(s, q), s, C1Token::RightParenthesis) {
            Ok(r) => if p < r <= s.len() { block(s, r) } else { Ok(r) },
            Err(e) => Err(e),
        },
        Err(e) => Err(e),
    }
}

/// `functiondefinition := type identifier "(" ")" "{" statementlist "}"`
pub open spec fn functiondefinition(s: Seq<Token>, p: int) -> Step {
    let head = then_terminal(
        then_terminal(then_terminal(then_terminal(typ(s, p), s, C1Token::Identifier), s, C1Token::LeftParenthesis), s, C1Token::RightParenthesis),
        s,
        C1Token::LeftBrace,
    );
    match head {
        Ok(q) => then_terminal(statementlist(s, q), s, C1Token::RightBrace),
        Err(e) => Err(e),
    }
}

/// `program := functiondefinition*`, repeated until the end of input.
pub open spec fn program(s: Seq<Token>, p: int) -> Step
    decreases s.len() - p,
{
    if 0 <= p < s.len() {
        match functiondefinition(s, p) {
            Ok(q) => if p < q <= s.len() { program(s, q) } else { Ok(q) },
            Err(e) => Err(e),
        }
    } else {
        Ok(p)
    }
}

/// The outcome of parsing a whole token sequence as a program.
pub open spec fn parses(s: Seq<Token>) -> Step {
    program(s, 0)
}

} // verus!
