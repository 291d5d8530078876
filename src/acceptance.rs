//! The grammar model accepts the yield of every well-formed derivation tree,
//! consuming exactly its tokens, when the token that follows cannot extend it.
use vstd::prelude::*;
use crate::token::{C1Token, Token, starts_block, starts_expression, is_relop, is_addop, is_mulop};
use crate::grammar::{
    Step, kind_at, is_at, factor, term, term_rest, simexpr, simexpr_rest, expr, assignment, statement, block,
    statementlist, functiondefinition, program,
};
use crate::derivation::{
    Factor, FactorTail, Term, TermTail, SimpleExpr, Expr, Assignment, Statement, Block, StatementList,
    FunctionDefinition, Program, spells,
};

verus! {

/// A token that may follow a factor without extending it.
pub open spec fn may_follow_factor(f: Option<C1Token>) -> bool {
    f != Some(C1Token::LeftParenthesis) && f != Some(C1Token::Assign)
}

/// A token that may follow a term without extending it.
pub open spec fn may_follow_term(f: Option<C1Token>) -> bool {
    may_follow_factor(f) && !(f matches Some(k) && is_mulop(k))
}

/// A token that may follow a simple expression without extending it.
pub open spec fn may_follow_simexpr(f: Option<C1Token>) -> bool {
    may_follow_term(f) && !(f matches Some(k) && is_addop(k))
}

/// A token that may follow an expression or assignment without extending it.
pub open spec fn may_follow_expr(f: Option<C1Token>) -> bool {
    may_follow_simexpr(f) && !(f matches Some(k) && is_relop(k))
}

/// What every expression-level rule at `p` establishes: it may start an
/// expression there, and it does not open with an identifier followed by `=`.
pub open spec fn expression_start(s: Seq<Token>, p: int) -> bool {
    &&& kind_at(s, p) matches Some(k) && starts_expression(k)
    &&& !(is_at(s, p, C1Token::Identifier) && is_at(s, p + 1, C1Token::Assign))
}

pub proof fn lemma_spells_split(s: Seq<Token>, p: int, a: Seq<C1Token>, b: Seq<C1Token>)
    requires
        spells(s, p, a + b),
    ensures
        spells(s, p, a),
        spells(s, p + a.len(), b),
{
    assert forall|i: int| 0 <= i < a.len() implies s[p + i].kind == #[trigger] a[i] by {
        assert((a + b)[i] == a[i]);
    }
    assert forall|i: int| 0 <= i < b.len() implies s[p + a.len() + i].kind == #[trigger] b[i] by {
        assert((a + b)[a.len() + i] == b[i]);
        assert(p + (a.len() + i) == p + a.len() + i);
    }
}

pub proof fn lemma_spells_at(s: Seq<Token>, p: int, y: Seq<C1Token>, i: int)
    requires
        spells(s, p, y),
        0 <= i < y.len(),
    ensures
        kind_at(s, p + i) == Some(y[i]),
{
    assert(s[p + i].kind == y[i]);
}

pub proof fn lemma_factor(s: Seq<Token>, p: int, f: Factor)
    requires
        f.wf(),
        spells(s, p, f.tokens()),
        may_follow_factor(kind_at(s, p + f.tokens().len())),
    ensures
        factor(s, p) == Step::Ok(p + f.tokens().len()),
        expression_start(s, p),
    decreases f,
{
    let y = f.tokens();
    lemma_spells_at(s, p, y, 0);
    match f {
        Factor::Paren(a) => {
            let ya = a.tokens();
            lemma_spells_split(s, p, seq![C1Token::LeftParenthesis] + ya, seq![C1Token::RightParenthesis]);
            lemma_spells_split(s, p, seq![C1Token::LeftParenthesis], ya);
            lemma_spells_at(s, p + 1 + ya.len(), seq![C1Token::RightParenthesis], 0);
            lemma_assignment(s, p + 1, *a);
        },
        Factor::Call => {
            lemma_spells_at(s, p, y, 1);
            lemma_spells_at(s, p, y, 2);
        },
        _ => {},
    }
}

pub proof fn lemma_factor_tail(s: Seq<Token>, p: int, t: FactorTail)
    requires
        t.wf(),
        spells(s, p, t.tokens()),
        may_follow_term(kind_at(s, p + t.tokens().len())),
    ensures
        term_rest(s, p) == Step::Ok(p + t.tokens().len()),
    decreases t,
{
    match t {
        FactorTail::End => {},
        FactorTail::Next(op, f, rest) => {
            let yf = f.tokens();
            let yr = rest.tokens();
            lemma_spells_split(s, p, seq![op] + yf, yr);
            lemma_spells_split(s, p, seq![op], yf);
            lemma_spells_at(s, p, seq![op], 0);
            assert(t.tokens().len() == 1 + yf.len() + yr.len());
            match *rest {
                FactorTail::Next(op2, _, _) => {
                    lemma_spells_at(s, p + 1 + yf.len(), yr, 0);
                    reveal_with_fuel(FactorTail::wf, 2);
                    assert(is_mulop(op2));
                },
                FactorTail::End => {
                    assert(p + 1 + yf.len() == p + t.tokens().len());
                },
            }
            lemma_factor(s, p + 1, f);
            lemma_factor_tail(s, p + 1 + yf.len(), *rest);
        },
    }
}

pub proof fn lemma_term(s: Seq<Token>, p: int, t: Term)
    requires
        t.wf(),
        spells(s, p, t.tokens()),
        may_follow_term(kind_at(s, p + t.tokens().len())),
    ensures
        term(s, p) == Step::Ok(p + t.tokens().len()),
        expression_start(s, p),
    decreases t,
{
    let yf = t.first.tokens();
    let yr = t.rest.tokens();
    lemma_spells_split(s, p, yf, yr);
    if yr.len() > 0 {
        lemma_spells_at(s, p + yf.len(), yr, 0);
        assert(yr[0] == t.rest->Next_0);
    }
    lemma_factor(s, p, t.first);
    lemma_factor_tail(s, p + yf.len(), t.rest);
}

pub proof fn lemma_term_tail(s: Seq<Token>, p: int, t: TermTail)
    requires
        t.wf(),
        spells(s, p, t.tokens()),
        may_follow_simexpr(kind_at(s, p + t.tokens().len())),
    ensures
        simexpr_rest(s, p) == Step::Ok(p + t.tokens().len()),
    decreases t,
{
    match t {
        TermTail::End => {},
        TermTail::Next(op, tm, rest) => {
            let yt = tm.tokens();
            let yr = rest.tokens();
            lemma_spells_split(s, p, seq![op] + yt, yr);
            lemma_spells_split(s, p, seq![op], yt);
            lemma_spells_at(s, p, seq![op], 0);
            assert(t.tokens().len() == 1 + yt.len() + yr.len());
            match *rest {
                TermTail::Next(op2, _, _) => {
                    lemma_spells_at(s, p + 1 + yt.len(), yr, 0);
                    reveal_with_fuel(TermTail::wf, 2);
                    assert(is_addop(op2));
                },
                TermTail::End => {
                    assert(p + 1 + yt.len() == p + t.tokens().len());
                },
            }
            lemma_term(s, p + 1, tm);
            lemma_term_tail(s, p + 1 + yt.len(), *rest);
        },
    }
}

pub proof fn lemma_simexpr(s: Seq<Token>, p: int, e: SimpleExpr)
    requires
        e.wf(),
        spells(s, p, e.tokens()),
        may_follow_simexpr(kind_at(s, p + e.tokens().len())),
    ensures
        simexpr(s, p) == Step::Ok(p + e.tokens().len()),
        expression_start(s, p),
    decreases e,
{
    let sign: Seq<C1Token> = if e.negated { seq![C1Token::Minus] } else { seq![] };
    let yt = e.first.tokens();
    let yr = e.rest.tokens();
    lemma_spells_split(s, p, sign + yt, yr);
    lemma_spells_split(s, p, sign, yt);
    if e.negated {
        lemma_spells_at(s, p, sign, 0);
    }
    if yr.len() > 0 {
        lemma_spells_at(s, p + sign.len() + yt.len(), yr, 0);
        assert(yr[0] == e.rest->Next_0);
    }
    lemma_term(s, p + sign.len(), e.first);
    lemma_term_tail(s, p + sign.len() + yt.len(), e.rest);
}

pub proof fn lemma_expr(s: Seq<Token>, p: int, e: Expr)
    requires
        e.wf(),
        spells(s, p, e.tokens()),
        may_follow_expr(kind_at(s, p + e.tokens().len())),
    ensures
        expr(s, p) == Step::Ok(p + e.tokens().len()),
        expression_start(s, p),
    decreases e,
{
    match e {
        Expr::Simple(se) => {
            lemma_simexpr(s, p, se);
        },
        Expr::Compare(l, op, r) => {
            let yl = l.tokens();
            let yr = r.tokens();
            lemma_spells_split(s, p, yl + seq![op], yr);
            lemma_spells_split(s, p, yl, seq![op]);
            lemma_spells_at(s, p + yl.len(), seq![op], 0);
            lemma_simexpr(s, p, l);
            lemma_simexpr(s, p + yl.len() + 1, r);
        },
    }
}

pub proof fn lemma_assignment(s: Seq<Token>, p: int, a: Assignment)
    requires
        a.wf(),
        spells(s, p, a.tokens()),
        may_follow_expr(kind_at(s, p + a.tokens().len())),
    ensures
        assignment(s, p) == Step::Ok(p + a.tokens().len()),
        kind_at(s, p) matches Some(k) && starts_expression(k),
    decreases a,
{
    match a {
        Assignment::Assign(inner) => {
            let yi = inner.tokens();
            lemma_spells_split(s, p, seq![C1Token::Identifier, C1Token::Assign], yi);
            lemma_spells_at(s, p, seq![C1Token::Identifier, C1Token::Assign], 0);
            lemma_spells_at(s, p, seq![C1Token::Identifier, C1Token::Assign], 1);
            lemma_assignment(s, p + 2, *inner);
        },
        Assignment::Value(e) => {
            lemma_expr(s, p, e);
        },
    }
}

pub proof fn lemma_statement(s: Seq<Token>, p: int, st: Statement)
    requires
        st.wf(),
        spells(s, p, st.tokens()),
    ensures
        statement(s, p) == Step::Ok(p + st.tokens().len()),
        kind_at(s, p) matches Some(k) && starts_block(k) && k != C1Token::LeftBrace,
    decreases st,
{
    let y = st.tokens();
    lemma_spells_at(s, p, y, 0);
    match st {
        Statement::If(a, b) => {
            let head = seq![C1Token::KwIf, C1Token::LeftParenthesis];
            let ya = a.tokens();
            let close = seq![C1Token::RightParenthesis];
            lemma_spells_split(s, p, head + ya + close, b.tokens());
            lemma_spells_split(s, p, head + ya, close);
            lemma_spells_split(s, p, head, ya);
            lemma_spells_at(s, p, head, 1);
            lemma_spells_at(s, p + 2 + ya.len(), close, 0);
            lemma_assignment(s, p + 2, a);
            lemma_block(s, p + 3 + ya.len(), *b);
        },
        Statement::Return(Some(a)) => {
            let ya = a.tokens();
            let semi = seq![C1Token::Semicolon];
            lemma_spells_split(s, p, seq![C1Token::KwReturn] + ya, semi);
            lemma_spells_split(s, p, seq![C1Token::KwReturn], ya);
            lemma_spells_at(s, p + 1 + ya.len(), semi, 0);
            lemma_assignment(s, p + 1, a);
        },
        Statement::Return(None) => {
            lemma_spells_at(s, p, y, 1);
        },
        Statement::Printf(a) => {
            let head = seq![C1Token::KwPrintf, C1Token::LeftParenthesis];
            let ya = a.tokens();
            let tail = seq![C1Token::RightParenthesis, C1Token::Semicolon];
            lemma_spells_split(s, p, head + ya, tail);
            lemma_spells_split(s, p, head, ya);
            lemma_spells_at(s, p, head, 1);
            lemma_spells_at(s, p + 2 + ya.len(), tail, 0);
            lemma_spells_at(s, p + 2 + ya.len(), tail, 1);
            lemma_assignment(s, p + 2, a);
        },
        Statement::Call => {
            lemma_spells_at(s, p, y, 1);
            lemma_spells_at(s, p, y, 2);
            lemma_spells_at(s, p, y, 3);
        },
        Statement::Assign(a) => {
            let head = seq![C1Token::Identifier, C1Token::Assign];
            let ya = a.tokens();
            let semi = seq![C1Token::Semicolon];
            lemma_spells_split(s, p, head + ya, semi);
            lemma_spells_split(s, p, head, ya);
            lemma_spells_at(s, p, head, 1);
            lemma_spells_at(s, p + 2 + ya.len(), semi, 0);
            lemma_assignment(s, p + 2, a);
        },
    }
}

pub proof fn lemma_block(s: Seq<Token>, p: int, b: Block)
    requires
        b.wf(),
        spells(s, p, b.tokens()),
    ensures
        block(s, p) == Step::Ok(p + b.tokens().len()),
        kind_at(s, p) matches Some(k) && starts_block(k),
    decreases b,
{
    match b {
        Block::Braced(l) => {
            let yl = l.tokens();
            let close = seq![C1Token::RightBrace];
            lemma_spells_split(s, p, seq![C1Token::LeftBrace] + yl, close);
            lemma_spells_split(s, p, seq![C1Token::LeftBrace], yl);
            lemma_spells_at(s, p, seq![C1Token::LeftBrace], 0);
            lemma_spells_at(s, p + 1 + yl.len(), close, 0);
            lemma_statementlist(s, p + 1, *l);
        },
        Block::Single(st) => {
            lemma_statement(s, p, *st);
        },
    }
}

pub proof fn lemma_statementlist(s: Seq<Token>, p: int, l: StatementList)
    requires
        l.wf(),
        spells(s, p, l.tokens()),
        !(kind_at(s, p + l.tokens().len()) matches Some(k) && starts_block(k)),
    ensures
        statementlist(s, p) == Step::Ok(p + l.tokens().len()),
    decreases l,
{
    match l {
        StatementList::End => {},
        StatementList::Next(b, rest) => {
            let yb = b.tokens();
            lemma_spells_split(s, p, yb, rest.tokens());
            lemma_block(s, p, *b);
            lemma_statementlist(s, p + yb.len(), *rest);
        },
    }
}

pub proof fn lemma_functiondefinition(s: Seq<Token>, p: int, f: FunctionDefinition)
    requires
        f.wf(),
        spells(s, p, f.tokens()),
    ensures
        functiondefinition(s, p) == Step::Ok(p + f.tokens().len()),
{
    let head = seq![f.typ, C1Token::Identifier, C1Token::LeftParenthesis, C1Token::RightParenthesis, C1Token::LeftBrace];
    let yb = f.body.tokens();
    let close = seq![C1Token::RightBrace];
    lemma_spells_split(s, p, head + yb, close);
    lemma_spells_split(s, p, head, yb);
    lemma_spells_at(s, p, head, 0);
    lemma_spells_at(s, p, head, 1);
    lemma_spells_at(s, p, head, 2);
    lemma_spells_at(s, p, head, 3);
    lemma_spells_at(s, p, head, 4);
    lemma_spells_at(s, p + 5 + yb.len(), close, 0);
    lemma_statementlist(s, p + 5, f.body);
}

pub proof fn lemma_program(s: Seq<Token>, p: int, prog: Program)
    requires
        prog.wf(),
        spells(s, p, prog.tokens()),
        p + prog.tokens().len() == s.len(),
    ensures
        program(s, p) == Step::Ok(s.len() as int),
    decreases prog,
{
    match prog {
        Program::End => {},
        Program::Next(f, rest) => {
            let yf = f.tokens();
            lemma_spells_split(s, p, yf, rest.tokens());
            lemma_functiondefinition(s, p, f);
            lemma_program(s, p + yf.len(), *rest);
        },
    }
}

} // verus!
