//! The grammar model accepts only what the grammar derives: from every
//! successful run of a rule a well-formed derivation tree is built whose
//! yield is exactly the tokens the run consumed.
use vstd::prelude::*;
use crate::token::{C1Token, Token, starts_block, starts_expression, is_constant, is_relop, is_addop, is_mulop};
use crate::grammar::{
    kind_at, is_at, typ, assignment, expr, simexpr, simexpr_rest, term, term_rest, factor, statementlist, block,
    statement, functiondefinition, program,
};
use crate::derivation::{
    Factor, FactorTail, Term, TermTail, SimpleExpr, Expr, Assignment, Statement, Block, StatementList,
    FunctionDefinition, Program, spells,
};
use crate::positions::{lemma_simexpr_within, lemma_term_within, lemma_factor_within, lemma_block_within};

verus! {

/// The kinds `y` are exactly those of the tokens from `p` up to `q`.
pub open spec fn derives(s: Seq<Token>, p: int, q: int, y: Seq<C1Token>) -> bool {
    spells(s, p, y) && q == p + y.len()
}

pub proof fn lemma_spells_join(s: Seq<Token>, p: int, a: Seq<C1Token>, b: Seq<C1Token>)
    requires
        spells(s, p, a),
        spells(s, p + a.len(), b),
    ensures
        spells(s, p, a + b),
{
    assert forall|i: int| 0 <= i < (a + b).len() implies s[p + i].kind == #[trigger] (a + b)[i] by {
        if i < a.len() {
            assert(s[p + i].kind == a[i]);
        } else {
            let j = i - a.len();
            assert(s[p + a.len() + j].kind == b[j]);
            assert(p + a.len() + j == p + i);
        }
    }
}

pub proof fn lemma_spells_one(s: Seq<Token>, p: int, k: C1Token)
    requires
        kind_at(s, p) == Some(k),
    ensures
        spells(s, p, seq![k]),
{
    assert(s[p + 0].kind == seq![k][0]);
}

pub proof fn lemma_spells_empty(s: Seq<Token>, p: int)
    requires
        0 <= p <= s.len(),
    ensures
        spells(s, p, Seq::<C1Token>::empty()),
{
}

/// A tree for a successful `factor`.
pub proof fn factor_tree(s: Seq<Token>, p: int) -> (t: Factor)
    requires
        0 <= p <= s.len(),
        factor(s, p) is Ok,
    ensures
        t.wf(),
        derives(s, p, factor(s, p)->Ok_0, t.tokens()),
    decreases s.len() - p, 0int,
{
    let k = s[p].kind;
    lemma_spells_one(s, p, k);
    if k == C1Token::LeftParenthesis {
        let a = assignment_tree(s, p + 1);
        let q = p + 1 + a.tokens().len();
        lemma_spells_one(s, q, C1Token::RightParenthesis);
        lemma_spells_join(s, p, seq![k], a.tokens());
        lemma_spells_join(s, p, seq![k] + a.tokens(), seq![C1Token::RightParenthesis]);
        Factor::Paren(Box::new(a))
    } else if is_constant(k) {
        Factor::Constant(k)
    } else if is_at(s, p + 1, C1Token::LeftParenthesis) {
        lemma_spells_one(s, p + 1, C1Token::LeftParenthesis);
        lemma_spells_one(s, p + 2, C1Token::RightParenthesis);
        lemma_spells_join(s, p, seq![k], seq![C1Token::LeftParenthesis]);
        lemma_spells_join(s, p, seq![k] + seq![C1Token::LeftParenthesis], seq![C1Token::RightParenthesis]);
        assert(seq![k] + seq![C1Token::LeftParenthesis] + seq![C1Token::RightParenthesis]
            =~= seq![C1Token::Identifier, C1Token::LeftParenthesis, C1Token::RightParenthesis]);
        Factor::Call
    } else {
        Factor::Variable
    }
}

/// A tree for a successful `term_rest`.
pub proof fn factor_tail_tree(s: Seq<Token>, p: int) -> (t: FactorTail)
    requires
        0 <= p <= s.len(),
        term_rest(s, p) is Ok,
    ensures
        t.wf(),
        derives(s, p, term_rest(s, p)->Ok_0, t.tokens()),
    decreases s.len() - p, 1int,
{
    if p < s.len() && is_mulop(s[p].kind) {
        let op = s[p].kind;
        lemma_factor_within(s, p + 1);
        let f = factor_tree(s, p + 1);
        let q = p + 1 + f.tokens().len();
        let rest = factor_tail_tree(s, q);
        lemma_spells_one(s, p, op);
        lemma_spells_join(s, p, seq![op], f.tokens());
        lemma_spells_join(s, p, seq![op] + f.tokens(), rest.tokens());
        FactorTail::Next(op, f, Box::new(rest))
    } else {
        FactorTail::End
    }
}

/// A tree for a successful `term`.
pub proof fn term_tree(s: Seq<Token>, p: int) -> (t: Term)
    requires
        0 <= p <= s.len(),
        term(s, p) is Ok,
    ensures
        t.wf(),
        derives(s, p, term(s, p)->Ok_0, t.tokens()),
    decreases s.len() - p, 2int,
{
    lemma_factor_within(s, p);
    let f = factor_tree(s, p);
    let q = p + f.tokens().len();
    let rest = factor_tail_tree(s, q);
    lemma_spells_join(s, p, f.tokens(), rest.tokens());
    Term { first: f, rest }
}

/// A tree for a successful `simexpr_rest`.
pub proof fn term_tail_tree(s: Seq<Token>, p: int) -> (t: TermTail)
    requires
        0 <= p <= s.len(),
        simexpr_rest(s, p) is Ok,
    ensures
        t.wf(),
        derives(s, p, simexpr_rest(s, p)->Ok_0, t.tokens()),
    decreases s.len() - p, 3int,
{
    if p < s.len() && is_addop(s[p].kind) {
        let op = s[p].kind;
        lemma_term_within(s, p + 1);
        let tm = term_tree(s, p + 1);
        let q = p + 1 + tm.tokens().len();
        let rest = term_tail_tree(s, q);
        lemma_spells_one(s, p, op);
        lemma_spells_join(s, p, seq![op], tm.tokens());
        lemma_spells_join(s, p, seq![op] + tm.tokens(), rest.tokens());
        TermTail::Next(op, tm, Box::new(rest))
    } else {
        TermTail::End
    }
}

/// A tree for a successful `simexpr`.
pub proof fn simexpr_tree(s: Seq<Token>, p: int) -> (t: SimpleExpr)
    requires
        0 <= p <= s.len(),
        simexpr(s, p) is Ok,
    ensures
        t.wf(),
        derives(s, p, simexpr(s, p)->Ok_0, t.tokens()),
    decreases s.len() - p, 4int,
{
    let negated = is_at(s, p, C1Token::Minus);
    let sign: Seq<C1Token> = if negated { seq![C1Token::Minus] } else { seq![] };
    let start = p + sign.len();
    if negated {
        lemma_spells_one(s, p, C1Token::Minus);
    } else {
        lemma_spells_empty(s, p);
    }
    lemma_term_within(s, start);
    let first = term_tree(s, start);
    let q = start + first.tokens().len();
    let rest = term_tail_tree(s, q);
    lemma_spells_join(s, p, sign, first.tokens());
    lemma_spells_join(s, p, sign + first.tokens(), rest.tokens());
    SimpleExpr { negated, first, rest }
}

/// A tree for a successful `expr`.
pub proof fn expr_tree(s: Seq<Token>, p: int) -> (t: Expr)
    requires
        0 <= p <= s.len(),
        expr(s, p) is Ok,
    ensures
        t.wf(),
        derives(s, p, expr(s, p)->Ok_0, t.tokens()),
    decreases s.len() - p, 5int,
{
    lemma_simexpr_within(s, p);
    let l = simexpr_tree(s, p);
    let q = p + l.tokens().len();
    if q < s.len() && is_relop(s[q].kind) {
        let op = s[q].kind;
        let r = simexpr_tree(s, q + 1);
        lemma_spells_one(s, q, op);
        lemma_spells_join(s, p, l.tokens(), seq![op]);
        lemma_spells_join(s, p, l.tokens() + seq![op], r.tokens());
        Expr::Compare(l, op, r)
    } else {
        Expr::Simple(l)
    }
}

/// A tree for a successful `assignment`.
pub proof fn assignment_tree(s: Seq<Token>, p: int) -> (t: Assignment)
    requires
        0 <= p <= s.len(),
        assignment(s, p) is Ok,
    ensures
        t.wf(),
        derives(s, p, assignment(s, p)->Ok_0, t.tokens()),
        kind_at(s, p) matches Some(k) && starts_expression(k),
    decreases s.len() - p, 6int,
{
    if is_at(s, p, C1Token::Identifier) && is_at(s, p + 1, C1Token::Assign) {
        let inner = assignment_tree(s, p + 2);
        lemma_spells_one(s, p, C1Token::Identifier);
        lemma_spells_one(s, p + 1, C1Token::Assign);
        lemma_spells_join(s, p, seq![C1Token::Identifier], seq![C1Token::Assign]);
        assert(seq![C1Token::Identifier] + seq![C1Token::Assign] =~= seq![C1Token::Identifier, C1Token::Assign]);
        lemma_spells_join(s, p, seq![C1Token::Identifier, C1Token::Assign], inner.tokens());
        Assignment::Assign(Box::new(inner))
    } else {
        let e = expr_tree(s, p);
        lemma_expr_starts(s, p);
        Assignment::Value(e)
    }
}

/// A successful `expr` starts with a token that may begin an expression.
pub proof fn lemma_expr_starts(s: Seq<Token>, p: int)
    requires
        0 <= p <= s.len(),
        expr(s, p) is Ok,
    ensures
        kind_at(s, p) matches Some(k) && starts_expression(k),
{
    if !is_at(s, p, C1Token::Minus) {
        assert(term(s, p) is Ok);
        assert(factor(s, p) is Ok);
    }
}

/// The tokens from `p` spell the fixed kinds `y`, each checked one by one.
proof fn lemma_spells_literal(s: Seq<Token>, p: int, y: Seq<C1Token>)
    requires
        0 <= p,
        y.len() > 0,
        forall|i: int| 0 <= i < y.len() ==> kind_at(s, p + i) == Some(#[trigger] y[i]),
    ensures
        spells(s, p, y),
    decreases y.len(),
{
    assert(kind_at(s, p + 0) == Some(y[0]));
    if y.len() == 1 {
        lemma_spells_one(s, p, y[0]);
        assert(seq![y[0]] =~= y);
    } else {
        let front = y.drop_last();
        assert forall|i: int| 0 <= i < front.len() implies kind_at(s, p + i) == Some(#[trigger] front[i]) by {
            assert(front[i] == y[i]);
        }
        lemma_spells_literal(s, p, front);
        assert(kind_at(s, p + front.len()) == Some(y[front.len() as int]));
        lemma_spells_one(s, p + front.len(), y.last());
        lemma_spells_join(s, p, front, seq![y.last()]);
        assert(front + seq![y.last()] =~= y);
    }
}

/// A tree for a successful `statement`.
pub proof fn statement_tree(s: Seq<Token>, p: int) -> (t: Statement)
    requires
        0 <= p <= s.len(),
        statement(s, p) is Ok,
    ensures
        t.wf(),
        derives(s, p, statement(s, p)->Ok_0, t.tokens()),
    decreases s.len() - p, 1int,
{
    let k = s[p].kind;
    let semi = seq![C1Token::Semicolon];
    if k == C1Token::KwIf {
        let head = seq![C1Token::KwIf, C1Token::LeftParenthesis];
        lemma_spells_literal(s, p, head);
        let a = assignment_tree(s, p + 2);
        let q = p + 2 + a.tokens().len();
        lemma_spells_one(s, q, C1Token::RightParenthesis);
        let b = block_tree(s, q + 1);
        lemma_spells_join(s, p, head, a.tokens());
        lemma_spells_join(s, p, head + a.tokens(), seq![C1Token::RightParenthesis]);
        lemma_spells_join(s, p, head + a.tokens() + seq![C1Token::RightParenthesis], b.tokens());
        Statement::If(a, Box::new(b))
    } else if k == C1Token::KwReturn {
        lemma_spells_one(s, p, k);
        if kind_at(s, p + 1) matches Some(k1) && starts_expression(k1) {
            let a = assignment_tree(s, p + 1);
            let q = p + 1 + a.tokens().len();
            lemma_spells_one(s, q, C1Token::Semicolon);
            lemma_spells_join(s, p, seq![k], a.tokens());
            lemma_spells_join(s, p, seq![k] + a.tokens(), semi);
            Statement::Return(Some(a))
        } else {
            lemma_spells_literal(s, p, seq![C1Token::KwReturn, C1Token::Semicolon]);
            Statement::Return(None)
        }
    } else if k == C1Token::KwPrintf {
        let head = seq![C1Token::KwPrintf, C1Token::LeftParenthesis];
        lemma_spells_literal(s, p, head);
        let a = assignment_tree(s, p + 2);
        let q = p + 2 + a.tokens().len();
        let tail = seq![C1Token::RightParenthesis, C1Token::Semicolon];
        lemma_spells_literal(s, q, tail);
        lemma_spells_join(s, p, head, a.tokens());
        lemma_spells_join(s, p, head + a.tokens(), tail);
        Statement::Printf(a)
    } else if is_at(s, p + 1, C1Token::LeftParenthesis) {
        lemma_spells_literal(s, p, seq![C1Token::Identifier, C1Token::LeftParenthesis, C1Token::RightParenthesis, C1Token::Semicolon]);
        Statement::Call
    } else {
        let head = seq![C1Token::Identifier, C1Token::Assign];
        lemma_spells_literal(s, p, head);
        let a = assignment_tree(s, p + 2);
        let q = p + 2 + a.tokens().len();
        lemma_spells_one(s, q, C1Token::Semicolon);
        lemma_spells_join(s, p, head, a.tokens());
        lemma_spells_join(s, p, head + a.tokens(), semi);
        Statement::Assign(a)
    }
}

/// A tree for a successful `block`.
pub proof fn block_tree(s: Seq<Token>, p: int) -> (t: Block)
    requires
        0 <= p <= s.len(),
        block(s, p) is Ok,
    ensures
        t.wf(),
        derives(s, p, block(s, p)->Ok_0, t.tokens()),
    decreases s.len() - p, 2int,
{
    if is_at(s, p, C1Token::LeftBrace) {
        lemma_spells_one(s, p, C1Token::LeftBrace);
        let l = statementlist_tree(s, p + 1);
        let q = p + 1 + l.tokens().len();
        lemma_spells_one(s, q, C1Token::RightBrace);
        lemma_spells_join(s, p, seq![C1Token::LeftBrace], l.tokens());
        lemma_spells_join(s, p, seq![C1Token::LeftBrace] + l.tokens(), seq![C1Token::RightBrace]);
        Block::Braced(Box::new(l))
    } else {
        Block::Single(Box::new(statement_tree(s, p)))
    }
}

/// A tree for a successful `statementlist`.
pub proof fn statementlist_tree(s: Seq<Token>, p: int) -> (t: StatementList)
    requires
        0 <= p <= s.len(),
        statementlist(s, p) is Ok,
    ensures
        t.wf(),
        derives(s, p, statementlist(s, p)->Ok_0, t.tokens()),
    decreases s.len() - p, 3int,
{
    if p < s.len() && starts_block(s[p].kind) {
        lemma_block_within(s, p);
        let q = block(s, p)->Ok_0;
        if p < q {
            let b = block_tree(s, p);
            let rest = statementlist_tree(s, q);
            lemma_spells_join(s, p, b.tokens(), rest.tokens());
            StatementList::Next(Box::new(b), Box::new(rest))
        } else {
            StatementList::End
        }
    } else {
        StatementList::End
    }
}

/// A tree for a successful `functiondefinition`.
pub proof fn functiondefinition_tree(s: Seq<Token>, p: int) -> (t: FunctionDefinition)
    requires
        0 <= p <= s.len(),
        functiondefinition(s, p) is Ok,
    ensures
        t.wf(),
        derives(s, p, functiondefinition(s, p)->Ok_0, t.tokens()),
{
    let k = s[p].kind;
    let head = seq![k, C1Token::Identifier, C1Token::LeftParenthesis, C1Token::RightParenthesis, C1Token::LeftBrace];
    lemma_spells_literal(s, p, head);
    let body = statementlist_tree(s, p + 5);
    let q = p + 5 + body.tokens().len();
    lemma_spells_one(s, q, C1Token::RightBrace);
    lemma_spells_join(s, p, head, body.tokens());
    lemma_spells_join(s, p, head + body.tokens(), seq![C1Token::RightBrace]);
    FunctionDefinition { typ: k, body }
}

/// A tree for a successful `program`.
pub proof fn program_tree(s: Seq<Token>, p: int) -> (t: Program)
    requires
        0 <= p <= s.len(),
        program(s, p) is Ok,
    ensures
        t.wf(),
        derives(s, p, program(s, p)->Ok_0, t.tokens()),
    decreases s.len() - p,
{
    if p < s.len() {
        crate::positions::lemma_functiondefinition_within(s, p);
        let q = functiondefinition(s, p)->Ok_0;
        let f = functiondefinition_tree(s, p);
        let rest = program_tree(s, q);
        lemma_spells_join(s, p, f.tokens(), rest.tokens());
        Program::Next(f, Box::new(rest))
    } else {
        lemma_spells_empty(s, p);
        Program::End
    }
}

} // verus!
