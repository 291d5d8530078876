//! A rule of the grammar model reads no token beyond the position where it
//! ends or fails: two token sequences whose kinds agree up to that position
//! give the rule the same outcome.
use vstd::prelude::*;
use crate::token::{C1Token, Token};
use crate::grammar::{
    Step, kind_at, is_at, terminal, then_terminal, typ, functioncall, assignment, expr, simexpr, simexpr_rest,
    term, term_rest, factor, statassignment, returnstatement, printfstatement, statementlist, block, statement,
    ifstatement, functiondefinition, program,
};
use crate::positions::{
    lemma_functioncall_within, lemma_assignment_within, lemma_simexpr_within, lemma_simexpr_rest_within,
    lemma_term_within, lemma_term_rest_within, lemma_factor_within, lemma_statementlist_within, lemma_block_within,
    lemma_statement_within, lemma_ifstatement_within, lemma_statassignment_within, lemma_returnstatement_within,
    lemma_printfstatement_within, lemma_functiondefinition_within, lemma_program_within,
};

verus! {

/// The kinds of `s` and `t` agree at every position up to `m`, the end of
/// input counting as a kind of its own.
pub open spec fn same_upto(s: Seq<Token>, t: Seq<Token>, m: int) -> bool {
    forall|i: int| 0 <= i <= m ==> #[trigger] kind_at(s, i) == kind_at(t, i)
}

/// The position where an outcome ends or fails.
pub open spec fn reach(r: Step) -> int {
    match r {
        Ok(q) => q,
        Err((at, _)) => at,
    }
}

/// The common hypotheses: `p` lies in both sequences, which agree up to `m`.
pub open spec fn local(s: Seq<Token>, t: Seq<Token>, p: int, m: int) -> bool {
    &&& 0 <= p <= s.len()
    &&& 0 <= p <= t.len()
    &&& same_upto(s, t, m)
}

pub proof fn lemma_same_at(s: Seq<Token>, t: Seq<Token>, m: int, i: int)
    requires
        same_upto(s, t, m),
        0 <= i <= m,
    ensures
        kind_at(s, i) == kind_at(t, i),
{
}

pub proof fn lemma_then_local(s: Seq<Token>, t: Seq<Token>, r: Step, k: C1Token, m: int)
    requires
        same_upto(s, t, m),
        reach(then_terminal(r, s, k)) <= m,
        r matches Ok(q) ==> q >= 0,
    ensures
        reach(r) <= reach(then_terminal(r, s, k)),
        then_terminal(r, t, k) == then_terminal(r, s, k),
{
    if let Ok(q) = r {
        lemma_same_at(s, t, m, q);
    }
}

pub proof fn lemma_functioncall_local(s: Seq<Token>, t: Seq<Token>, p: int, m: int)
    requires
        local(s, t, p, m),
        reach(functioncall(s, p)) <= m,
    ensures
        functioncall(t, p) == functioncall(s, p),
{
    let a = terminal(s, p, C1Token::Identifier);
    let b = then_terminal(a, s, C1Token::LeftParenthesis);
    lemma_then_local(s, t, b, C1Token::RightParenthesis, m);
    lemma_then_local(s, t, a, C1Token::LeftParenthesis, m);
    lemma_same_at(s, t, m, p);
}

pub proof fn lemma_assignment_local(s: Seq<Token>, t: Seq<Token>, p: int, m: int)
    requires
        local(s, t, p, m),
        reach(assignment(s, p)) <= m,
    ensures
        assignment(t, p) == assignment(s, p),
    decreases s.len() - p, 6int,
{
    lemma_assignment_within(s, p);
    lemma_same_at(s, t, m, p);
    if is_at(s, p, C1Token::Identifier) {
        lemma_expr_reads_past_identifier(s, p);
        if is_at(s, p + 1, C1Token::Assign) {
            lemma_assignment_within(s, p + 2);
        }
        lemma_same_at(s, t, m, p + 1);
    }
    if is_at(s, p, C1Token::Identifier) && is_at(s, p + 1, C1Token::Assign) {
        lemma_assignment_local(s, t, p + 2, m);
    } else {
        lemma_expr_local(s, t, p, m);
    }
}

/// An expression that starts with an identifier ends or fails after it.
pub proof fn lemma_expr_reads_past_identifier(s: Seq<Token>, p: int)
    requires
        0 <= p <= s.len(),
        is_at(s, p, C1Token::Identifier),
    ensures
        reach(expr(s, p)) > p,
{
    lemma_factor_within(s, p);
    if let Ok(q) = factor(s, p) {
        lemma_term_rest_within(s, q);
    }
    lemma_term_within(s, p);
    if let Ok(q) = term(s, p) {
        lemma_simexpr_rest_within(s, q);
    }
    lemma_simexpr_within(s, p);
    if let Ok(q) = simexpr(s, p) {
        if q < s.len() {
            lemma_simexpr_within(s, q + 1);
        }
    }
}

pub proof fn lemma_expr_local(s: Seq<Token>, t: Seq<Token>, p: int, m: int)
    requires
        local(s, t, p, m),
        reach(expr(s, p)) <= m,
    ensures
        expr(t, p) == expr(s, p),
    decreases s.len() - p, 5int,
{
    lemma_simexpr_within(s, p);
    if let Ok(q) = simexpr(s, p) {
        if q < s.len() {
            lemma_simexpr_within(s, q + 1);
        }
        lemma_simexpr_local(s, t, p, m);
        lemma_same_at(s, t, m, q);
        if q < s.len() && crate::token::is_relop(s[q].kind) {
            lemma_simexpr_local(s, t, q + 1, m);
        }
    } else {
        lemma_simexpr_local(s, t, p, m);
    }
}

pub proof fn lemma_simexpr_local(s: Seq<Token>, t: Seq<Token>, p: int, m: int)
    requires
        local(s, t, p, m),
        reach(simexpr(s, p)) <= m,
    ensures
        simexpr(t, p) == simexpr(s, p),
    decreases s.len() - p, 4int,
{
    lemma_simexpr_within(s, p);
    lemma_same_at(s, t, m, p);
    let start = if is_at(s, p, C1Token::Minus) { p + 1 } else { p };
    lemma_term_within(s, start);
    if let Ok(q) = term(s, start) {
        lemma_simexpr_rest_within(s, q);
        lemma_term_local(s, t, start, m);
        lemma_term_within(t, start);
        lemma_simexpr_rest_local(s, t, q, m);
    } else {
        lemma_term_local(s, t, start, m);
    }
}

pub proof fn lemma_simexpr_rest_local(s: Seq<Token>, t: Seq<Token>, p: int, m: int)
    requires
        local(s, t, p, m),
        reach(simexpr_rest(s, p)) <= m,
    ensures
        simexpr_rest(t, p) == simexpr_rest(s, p),
    decreases s.len() - p, 3int,
{
    lemma_simexpr_rest_within(s, p);
    lemma_same_at(s, t, m, p);
    if p < s.len() && crate::token::is_addop(s[p].kind) {
        lemma_term_within(s, p + 1);
        if let Ok(q) = term(s, p + 1) {
            lemma_simexpr_rest_within(s, q);
            lemma_term_local(s, t, p + 1, m);
            lemma_term_within(t, p + 1);
            lemma_simexpr_rest_local(s, t, q, m);
        } else {
            lemma_term_local(s, t, p + 1, m);
        }
    }
}

pub proof fn lemma_term_local(s: Seq<Token>, t: Seq<Token>, p: int, m: int)
    requires
        local(s, t, p, m),
        reach(term(s, p)) <= m,
    ensures
        term(t, p) == term(s, p),
    decreases s.len() - p, 2int,
{
    lemma_factor_within(s, p);
    if let Ok(q) = factor(s, p) {
        lemma_term_rest_within(s, q);
        lemma_factor_local(s, t, p, m);
        lemma_factor_within(t, p);
        lemma_term_rest_local(s, t, q, m);
    } else {
        lemma_factor_local(s, t, p, m);
    }
}

pub proof fn lemma_term_rest_local(s: Seq<Token>, t: Seq<Token>, p: int, m: int)
    requires
        local(s, t, p, m),
        reach(term_rest(s, p)) <= m,
    ensures
        term_rest(t, p) == term_rest(s, p),
    decreases s.len() - p, 1int,
{
    lemma_term_rest_within(s, p);
    lemma_same_at(s, t, m, p);
    if p < s.len() && crate::token::is_mulop(s[p].kind) {
        lemma_factor_within(s, p + 1);
        if let Ok(q) = factor(s, p + 1) {
            lemma_term_rest_within(s, q);
            lemma_factor_local(s, t, p + 1, m);
            lemma_factor_within(t, p + 1);
            lemma_term_rest_local(s, t, q, m);
        } else {
            lemma_factor_local(s, t, p + 1, m);
        }
    }
}

pub proof fn lemma_factor_local(s: Seq<Token>, t: Seq<Token>, p: int, m: int)
    requires
        local(s, t, p, m),
        reach(factor(s, p)) <= m,
    ensures
        factor(t, p) == factor(s, p),
    decreases s.len() - p, 0int,
{
    lemma_factor_within(s, p);
    lemma_same_at(s, t, m, p);
    if is_at(s, p, C1Token::LeftParenthesis) {
        lemma_assignment_within(s, p + 1);
        lemma_then_local(s, t, assignment(s, p + 1), C1Token::RightParenthesis, m);
        lemma_assignment_local(s, t, p + 1, m);
    } else if is_at(s, p, C1Token::Identifier) {
        lemma_functioncall_within(s, p);
        lemma_same_at(s, t, m, p + 1);
        if is_at(s, p + 1, C1Token::LeftParenthesis) {
            lemma_functioncall_local(s, t, p, m);
        }
    }
}

pub proof fn lemma_statementlist_local(s: Seq<Token>, t: Seq<Token>, p: int, m: int)
    requires
        local(s, t, p, m),
        reach(statementlist(s, p)) <= m,
    ensures
        statementlist(t, p) == statementlist(s, p),
    decreases s.len() - p, 3int,
{
    lemma_statementlist_within(s, p);
    lemma_same_at(s, t, m, p);
    if p < s.len() && crate::token::starts_block(s[p].kind) {
        lemma_block_within(s, p);
        if let Ok(q) = block(s, p) {
            if p < q {
                lemma_statementlist_within(s, q);
            }
            lemma_block_local(s, t, p, m);
            lemma_block_within(t, p);
            if p < q {
                lemma_statementlist_local(s, t, q, m);
            }
        } else {
            lemma_block_local(s, t, p, m);
        }
    }
}

pub proof fn lemma_block_local(s: Seq<Token>, t: Seq<Token>, p: int, m: int)
    requires
        local(s, t, p, m),
        reach(block(s, p)) <= m,
    ensures
        block(t, p) == block(s, p),
    decreases s.len() - p, 2int,
{
    lemma_block_within(s, p);
    lemma_same_at(s, t, m, p);
    if is_at(s, p, C1Token::LeftBrace) {
        lemma_statementlist_within(s, p + 1);
        lemma_then_local(s, t, statementlist(s, p + 1), C1Token::RightBrace, m);
        lemma_statementlist_local(s, t, p + 1, m);
    } else {
        lemma_statement_local(s, t, p, m);
    }
}

pub proof fn lemma_statement_local(s: Seq<Token>, t: Seq<Token>, p: int, m: int)
    requires
        local(s, t, p, m),
        reach(statement(s, p)) <= m,
    ensures
        statement(t, p) == statement(s, p),
    decreases s.len() - p, 1int,
{
    lemma_statement_within(s, p);
    lemma_same_at(s, t, m, p);
    if p < s.len() {
        let semi = C1Token::Semicolon;
        match s[p].kind {
            C1Token::KwIf => lemma_ifstatement_local(s, t, p, m),
            C1Token::KwReturn => {
                lemma_returnstatement_within(s, p);
                lemma_then_local(s, t, returnstatement(s, p), semi, m);
                lemma_returnstatement_local(s, t, p, m);
            },
            C1Token::KwPrintf => {
                lemma_printfstatement_within(s, p);
                lemma_then_local(s, t, printfstatement(s, p), semi, m);
                lemma_printfstatement_local(s, t, p, m);
            },
            C1Token::Identifier => {
                let id = terminal(s, p, C1Token::Identifier);
                crate::positions::lemma_then_terminal(s, p + 1, id, C1Token::LeftParenthesis);
                crate::positions::lemma_then_terminal(
                    s, p + 1, then_terminal(id, s, C1Token::LeftParenthesis), C1Token::RightParenthesis);
                crate::positions::lemma_then_terminal(s, p + 1, id, C1Token::Assign);
                if let Ok(q) = then_terminal(id, s, C1Token::Assign) {
                    lemma_assignment_within(s, q);
                }
                if is_at(s, p + 1, C1Token::LeftParenthesis) {
                    lemma_then_local(s, t, functioncall(s, p), semi, m);
                    lemma_same_at(s, t, m, p + 1);
                    lemma_functioncall_local(s, t, p, m);
                } else {
                    lemma_then_local(s, t, statassignment(s, p), semi, m);
                    lemma_same_at(s, t, m, p + 1);
                    lemma_statassignment_local(s, t, p, m);
                }
            },
            _ => {},
        }
    }
}

pub proof fn lemma_ifstatement_local(s: Seq<Token>, t: Seq<Token>, p: int, m: int)
    requires
        local(s, t, p, m),
        reach(ifstatement(s, p)) <= m,
    ensures
        ifstatement(t, p) == ifstatement(s, p),
    decreases s.len() - p, 0int,
{
    lemma_ifstatement_within(s, p);
    let a = terminal(s, p, C1Token::KwIf);
    let head = then_terminal(a, s, C1Token::LeftParenthesis);
    lemma_same_at(s, t, m, p);
    if let Ok(q) = head {
        lemma_assignment_within(s, q);
        let body = then_terminal(assignment(s, q), s, C1Token::RightParenthesis);
        if let Ok(r) = body {
            lemma_block_within(s, r);
            lemma_then_local(s, t, assignment(s, q), C1Token::RightParenthesis, m);
            lemma_block_local(s, t, r, m);
        } else {
            lemma_then_local(s, t, assignment(s, q), C1Token::RightParenthesis, m);
        }
        lemma_assignment_local(s, t, q, m);
        lemma_then_local(s, t, a, C1Token::LeftParenthesis, m);
    } else {
        lemma_then_local(s, t, a, C1Token::LeftParenthesis, m);
    }
}

pub proof fn lemma_statassignment_local(s: Seq<Token>, t: Seq<Token>, p: int, m: int)
    requires
        local(s, t, p, m),
        reach(statassignment(s, p)) <= m,
    ensures
        statassignment(t, p) == statassignment(s, p),
{
    lemma_statassignment_within(s, p);
    let a = terminal(s, p, C1Token::Identifier);
    lemma_same_at(s, t, m, p);
    if let Ok(q) = then_terminal(a, s, C1Token::Assign) {
        lemma_assignment_within(s, q);
        lemma_assignment_local(s, t, q, m);
    }
    lemma_then_local(s, t, a, C1Token::Assign, m);
}

pub proof fn lemma_returnstatement_local(s: Seq<Token>, t: Seq<Token>, p: int, m: int)
    requires
        local(s, t, p, m),
        reach(returnstatement(s, p)) <= m,
    ensures
        returnstatement(t, p) == returnstatement(s, p),
{
    lemma_returnstatement_within(s, p);
    lemma_same_at(s, t, m, p);
    if let Ok(q) = terminal(s, p, C1Token::KwReturn) {
        lemma_assignment_within(s, q);
        lemma_same_at(s, t, m, q);
        if kind_at(s, q) matches Some(k) && crate::token::starts_expression(k) {
            lemma_assignment_local(s, t, q, m);
        }
    }
}

pub proof fn lemma_printfstatement_local(s: Seq<Token>, t: Seq<Token>, p: int, m: int)
    requires
        local(s, t, p, m),
        reach(printfstatement(s, p)) <= m,
    ensures
        printfstatement(t, p) == printfstatement(s, p),
{
    lemma_printfstatement_within(s, p);
    let a = terminal(s, p, C1Token::KwPrintf);
    lemma_same_at(s, t, m, p);
    if let Ok(q) = then_terminal(a, s, C1Token::LeftParenthesis) {
        lemma_assignment_within(s, q);
        lemma_then_local(s, t, assignment(s, q), C1Token::RightParenthesis, m);
        lemma_assignment_local(s, t, q, m);
    }
    lemma_then_local(s, t, a, C1Token::LeftParenthesis, m);
}

pub proof fn lemma_functiondefinition_local(s: Seq<Token>, t: Seq<Token>, p: int, m: int)
    requires
        local(s, t, p, m),
        reach(functiondefinition(s, p)) <= m,
    ensures
        functiondefinition(t, p) == functiondefinition(s, p),
{
    lemma_functiondefinition_within(s, p);
    lemma_same_at(s, t, m, p);
    let a = then_terminal(typ(s, p), s, C1Token::Identifier);
    let b = then_terminal(a, s, C1Token::LeftParenthesis);
    let c = then_terminal(b, s, C1Token::RightParenthesis);
    let d = then_terminal(c, s, C1Token::LeftBrace);
    if let Ok(q) = d {
        lemma_statementlist_within(s, q);
        lemma_then_local(s, t, statementlist(s, q), C1Token::RightBrace, m);
        lemma_statementlist_local(s, t, q, m);
    }
    lemma_then_local(s, t, c, C1Token::LeftBrace, m);
    lemma_then_local(s, t, b, C1Token::RightParenthesis, m);
    lemma_then_local(s, t, a, C1Token::LeftParenthesis, m);
    lemma_then_local(s, t, typ(s, p), C1Token::Identifier, m);
}

pub proof fn lemma_program_local(s: Seq<Token>, t: Seq<Token>, p: int, m: int)
    requires
        local(s, t, p, m),
        reach(program(s, p)) <= m,
    ensures
        program(t, p) == program(s, p),
    decreases s.len() - p,
{
    lemma_program_within(s, p);
    lemma_same_at(s, t, m, p);
    if p < s.len() {
        lemma_functiondefinition_within(s, p);
        if let Ok(q) = functiondefinition(s, p) {
            lemma_program_within(s, q);
            lemma_functiondefinition_local(s, t, p, m);
            lemma_functiondefinition_within(t, p);
            lemma_program_local(s, t, q, m);
        } else {
            lemma_functiondefinition_local(s, t, p, m);
        }
    }
}

} // verus!
