//! Every rule of the grammar model ends, or fails, between its start position
//! and the end of input. So the range conditions that guard the model's
//! repetitions always hold, and a reported failure always lies within the
//! input or at its end.
use vstd::prelude::*;
use crate::token::{C1Token, Token};
use crate::grammar::{
    Step, terminal, then_terminal, typ, functioncall, assignment, expr, simexpr, simexpr_rest, term, term_rest, factor,
    statassignment, returnstatement, printfstatement, statementlist, block, statement, ifstatement,
    functiondefinition, program,
};

verus! {

/// The outcome `r` of a rule started at `p` ends, or fails, between `p` and
/// the end of `s`.
pub open spec fn within(s: Seq<Token>, p: int, r: Step) -> bool {
    match r {
        Ok(q) => p <= q <= s.len(),
        Err((at, _)) => p <= at <= s.len(),
    }
}

pub proof fn lemma_then_terminal(s: Seq<Token>, p: int, r: Step, k: C1Token)
    requires
        within(s, p, r),
    ensures
        within(s, p, then_terminal(r, s, k)),
{
}

pub proof fn lemma_functioncall_within(s: Seq<Token>, p: int)
    requires
        0 <= p <= s.len(),
    ensures
        within(s, p, functioncall(s, p)),
{
    let a = terminal(s, p, C1Token::Identifier);
    lemma_then_terminal(s, p, a, C1Token::LeftParenthesis);
    lemma_then_terminal(s, p, then_terminal(a, s, C1Token::LeftParenthesis), C1Token::RightParenthesis);
}

pub proof fn lemma_assignment_within(s: Seq<Token>, p: int)
    requires
        0 <= p <= s.len(),
    ensures
        within(s, p, assignment(s, p)),
    decreases s.len() - p, 6int,
{
    if crate::grammar::is_at(s, p, C1Token::Identifier) && crate::grammar::is_at(s, p + 1, C1Token::Assign) {
        lemma_assignment_within(s, p + 2);
    } else {
        lemma_expr_within(s, p);
    }
}

pub proof fn lemma_expr_within(s: Seq<Token>, p: int)
    requires
        0 <= p <= s.len(),
    ensures
        within(s, p, expr(s, p)),
    decreases s.len() - p, 5int,
{
    lemma_simexpr_within(s, p);
    if let Ok(q) = simexpr(s, p) {
        if q < s.len() {
            lemma_simexpr_within(s, q + 1);
        }
    }
}

pub proof fn lemma_simexpr_within(s: Seq<Token>, p: int)
    requires
        0 <= p <= s.len(),
    ensures
        within(s, p, simexpr(s, p)),
    decreases s.len() - p, 4int,
{
    let start = if crate::grammar::is_at(s, p, C1Token::Minus) { p + 1 } else { p };
    lemma_term_within(s, start);
    if let Ok(q) = term(s, start) {
        lemma_simexpr_rest_within(s, q);
    }
}

pub proof fn lemma_simexpr_rest_within(s: Seq<Token>, p: int)
    requires
        0 <= p <= s.len(),
    ensures
        within(s, p, simexpr_rest(s, p)),
    decreases s.len() - p, 3int,
{
    if p < s.len() && crate::token::is_addop(s[p].kind) {
        lemma_term_within(s, p + 1);
        if let Ok(q) = term(s, p + 1) {
            lemma_simexpr_rest_within(s, q);
        }
    }
}

pub proof fn lemma_term_within(s: Seq<Token>, p: int)
    requires
        0 <= p <= s.len(),
    ensures
        within(s, p, term(s, p)),
    decreases s.len() - p, 2int,
{
    lemma_factor_within(s, p);
    if let Ok(q) = factor(s, p) {
        lemma_term_rest_within(s, q);
    }
}

pub proof fn lemma_term_rest_within(s: Seq<Token>, p: int)
    requires
        0 <= p <= s.len(),
    ensures
        within(s, p, term_rest(s, p)),
    decreases s.len() - p, 1int,
{
    if p < s.len() && crate::token::is_mulop(s[p].kind) {
        lemma_factor_within(s, p + 1);
        if let Ok(q) = factor(s, p + 1) {
            lemma_term_rest_within(s, q);
        }
    }
}

pub proof fn lemma_factor_within(s: Seq<Token>, p: int)
    requires
        0 <= p <= s.len(),
    ensures
        within(s, p, factor(s, p)),
    decreases s.len() - p, 0int,
{
    if crate::grammar::is_at(s, p, C1Token::LeftParenthesis) {
        lemma_assignment_within(s, p + 1);
        lemma_then_terminal(s, p, assignment(s, p + 1), C1Token::RightParenthesis);
    }
    lemma_functioncall_within(s, p);
}

pub proof fn lemma_statementlist_within(s: Seq<Token>, p: int)
    requires
        0 <= p <= s.len(),
    ensures
        within(s, p, statementlist(s, p)),
    decreases s.len() - p, 3int,
{
    if p < s.len() {
        lemma_block_within(s, p);
        if let Ok(q) = block(s, p) {
            if p < q {
                lemma_statementlist_within(s, q);
            }
        }
    }
}

pub proof fn lemma_block_within(s: Seq<Token>, p: int)
    requires
        0 <= p <= s.len(),
    ensures
        within(s, p, block(s, p)),
    decreases s.len() - p, 2int,
{
    if crate::grammar::is_at(s, p, C1Token::LeftBrace) {
        lemma_statementlist_within(s, p + 1);
        lemma_then_terminal(s, p, statementlist(s, p + 1), C1Token::RightBrace);
    } else {
        lemma_statement_within(s, p);
    }
}

pub proof fn lemma_statement_within(s: Seq<Token>, p: int)
    requires
        0 <= p <= s.len(),
    ensures
        within(s, p, statement(s, p)),
    decreases s.len() - p, 1int,
{
    if p < s.len() {
        let semi = C1Token::Semicolon;
        match s[p].kind {
            C1Token::KwIf => lemma_ifstatement_within(s, p),
            C1Token::KwReturn => {
                lemma_returnstatement_within(s, p);
                lemma_then_terminal(s, p, returnstatement(s, p), semi);
            },
            C1Token::KwPrintf => {
                lemma_printfstatement_within(s, p);
                lemma_then_terminal(s, p, printfstatement(s, p), semi);
            },
            C1Token::Identifier => {
                lemma_functioncall_within(s, p);
                lemma_then_terminal(s, p, functioncall(s, p), semi);
                lemma_statassignment_within(s, p);
                lemma_then_terminal(s, p, statassignment(s, p), semi);
            },
            _ => {},
        }
    }
}

pub proof fn lemma_ifstatement_within(s: Seq<Token>, p: int)
    requires
        0 <= p <= s.len(),
    ensures
        within(s, p, ifstatement(s, p)),
    decreases s.len() - p, 0int,
{
    let head = then_terminal(terminal(s, p, C1Token::KwIf), s, C1Token::LeftParenthesis);
    lemma_then_terminal(s, p, terminal(s, p, C1Token::KwIf), C1Token::LeftParenthesis);
    if let Ok(q) = head {
        lemma_assignment_within(s, q);
        lemma_then_terminal(s, q, assignment(s, q), C1Token::RightParenthesis);
        if let Ok(r) = then_terminal(assignment(s, q), s, C1Token::RightParenthesis) {
            if p < r {
                lemma_block_within(s, r);
            }
        }
    }
}

pub proof fn lemma_statassignment_within(s: Seq<Token>, p: int)
    requires
        0 <= p <= s.len(),
    ensures
        within(s, p, statassignment(s, p)),
{
    lemma_then_terminal(s, p, terminal(s, p, C1Token::Identifier), C1Token::Assign);
    if let Ok(q) = then_terminal(terminal(s, p, C1Token::Identifier), s, C1Token::Assign) {
        lemma_assignment_within(s, q);
    }
}

pub proof fn lemma_returnstatement_within(s: Seq<Token>, p: int)
    requires
        0 <= p <= s.len(),
    ensures
        within(s, p, returnstatement(s, p)),
{
    if let Ok(q) = terminal(s, p, C1Token::KwReturn) {
        lemma_assignment_within(s, q);
    }
}

pub proof fn lemma_printfstatement_within(s: Seq<Token>, p: int)
    requires
        0 <= p <= s.len(),
    ensures
        within(s, p, printfstatement(s, p)),
{
    let head = then_terminal(terminal(s, p, C1Token::KwPrintf), s, C1Token::LeftParenthesis);
    lemma_then_terminal(s, p, terminal(s, p, C1Token::KwPrintf), C1Token::LeftParenthesis);
    if let Ok(q) = head {
        lemma_assignment_within(s, q);
        lemma_then_terminal(s, q, assignment(s, q), C1Token::RightParenthesis);
    }
}

pub proof fn lemma_functiondefinition_within(s: Seq<Token>, p: int)
    requires
        0 <= p <= s.len(),
    ensures
        within(s, p, functiondefinition(s, p)),
        functiondefinition(s, p) matches Ok(q) ==> p < q,
{
    let start = if typ(s, p) is Ok { p + 1 } else { p };
    let a = then_terminal(typ(s, p), s, C1Token::Identifier);
    let b = then_terminal(a, s, C1Token::LeftParenthesis);
    let c = then_terminal(b, s, C1Token::RightParenthesis);
    lemma_then_terminal(s, start, typ(s, p), C1Token::Identifier);
    lemma_then_terminal(s, start, a, C1Token::LeftParenthesis);
    lemma_then_terminal(s, start, b, C1Token::RightParenthesis);
    lemma_then_terminal(s, start, c, C1Token::LeftBrace);
    if let Ok(q) = then_terminal(c, s, C1Token::LeftBrace) {
        lemma_statementlist_within(s, q);
        lemma_then_terminal(s, q, statementlist(s, q), C1Token::RightBrace);
    }
}

pub proof fn lemma_program_within(s: Seq<Token>, p: int)
    requires
        0 <= p <= s.len(),
    ensures
        within(s, p, program(s, p)),
        program(s, p) matches Ok(q) ==> q == s.len(),
    decreases s.len() - p,
{
    if p < s.len() {
        lemma_functiondefinition_within(s, p);
        if let Ok(q) = functiondefinition(s, p) {
            if p < q {
                lemma_program_within(s, q);
            }
        }
    }
}

} // verus!
