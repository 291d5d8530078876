//! Properties of the grammar model, and so of the parser, which is proved to
//! agree with it.
use vstd::prelude::*;
use crate::token::{C1Token, Token};
use crate::grammar::{
    Expected, ParseError, Step, agrees, is_at, kind_at, line_at, error_at, parses, factor, assignment, statement, then_terminal,
    program, functiondefinition,
};
use crate::derivation::{
    Factor, FactorTail, Term, TermTail, SimpleExpr, Expr, Assignment, Program, kinds, spells,
};
use crate::positions::lemma_program_within;
use crate::soundness::program_tree;
use crate::locality::lemma_program_local;
use crate::acceptance::{
    may_follow_expr, lemma_spells_split, lemma_spells_at, lemma_assignment, lemma_statementlist,
    lemma_functiondefinition, lemma_program,
};

verus! {

/// Parsing is a function of the tokens alone: any two outcomes that agree with
/// the model on the same tokens are equal, so a failure is reported at the
/// same line, with the same expected construct and actual token, every time.
pub proof fn parse_outcome_is_unique(s: Seq<Token>, r1: Result<(), ParseError>, r2: Result<(), ParseError>)
    requires
        agrees(r1, s, s.len() as int, parses(s)),
        agrees(r2, s, s.len() as int, parses(s)),
    ensures
        r1 == r2,
{
    if let (Ok(u1), Ok(u2)) = (r1, r2) {
        assert(u1 == u2);
    }
}

/// An identifier followed by `(` `)` is a function call wherever a factor may
/// stand: the factor takes all three tokens.
pub proof fn identifier_with_parentheses_is_a_call(s: Seq<Token>, p: int)
    requires
        is_at(s, p, C1Token::Identifier),
        is_at(s, p + 1, C1Token::LeftParenthesis),
        is_at(s, p + 2, C1Token::RightParenthesis),
    ensures
        factor(s, p) == Step::Ok(p + 3),
{
}

/// An identifier followed by `(` `)` `;` is a call statement.
pub proof fn call_statement(s: Seq<Token>, p: int)
    requires
        is_at(s, p, C1Token::Identifier),
        is_at(s, p + 1, C1Token::LeftParenthesis),
        is_at(s, p + 2, C1Token::RightParenthesis),
        is_at(s, p + 3, C1Token::Semicolon),
    ensures
        statement(s, p) == Step::Ok(p + 4),
{
}

/// An identifier followed by `=` starts an assignment, never a bare
/// expression: what follows the `=` is parsed as the assigned value.
pub proof fn identifier_with_assign_is_an_assignment(s: Seq<Token>, p: int)
    requires
        is_at(s, p, C1Token::Identifier),
        is_at(s, p + 1, C1Token::Assign),
    ensures
        assignment(s, p) == assignment(s, p + 2),
        statement(s, p) == then_terminal(assignment(s, p + 2), s, C1Token::Semicolon),
{
}

proof fn lemma_kinds_spell(s: Seq<Token>, y: Seq<C1Token>)
    requires
        kinds(s) == y,
    ensures
        spells(s, 0, y),
        s.len() == y.len(),
{
    assert(kinds(s).len() == s.len());
    assert forall|i: int| 0 <= i < y.len() implies s[0 + i].kind == #[trigger] y[i] by {
        assert(kinds(s)[i] == s[i].kind);
    }
}

/// Every valid program is accepted, and the parse consumes all of its tokens:
/// a token sequence whose kinds are the yield of a well-formed derivation tree
/// of `program` parses to its very end.
pub proof fn valid_program_parses(s: Seq<Token>, prog: Program)
    requires
        prog.wf(),
        kinds(s) == prog.tokens(),
    ensures
        parses(s) == Step::Ok(s.len() as int),
{
    lemma_kinds_spell(s, prog.tokens());
    lemma_program(s, 0, prog);
}

/// `n` opening parentheses, a constant, and `n` closing parentheses.
pub open spec fn parenthesized_constant(n: nat) -> Seq<C1Token>
    decreases n,
{
    if n == 0 {
        seq![C1Token::ConstInt]
    } else {
        seq![C1Token::LeftParenthesis] + parenthesized_constant((n - 1) as nat) + seq![C1Token::RightParenthesis]
    }
}

/// A factor standing alone as an assignment.
pub open spec fn factor_as_assignment(f: Factor) -> Assignment {
    Assignment::Value(Expr::Simple(SimpleExpr {
        negated: false,
        first: Term { first: f, rest: FactorTail::End },
        rest: TermTail::End,
    }))
}

proof fn lemma_factor_as_assignment(f: Factor)
    requires
        f.wf(),
    ensures
        factor_as_assignment(f).wf(),
        factor_as_assignment(f).tokens() == f.tokens(),
{
    let t = Term { first: f, rest: FactorTail::End };
    let se = SimpleExpr { negated: false, first: t, rest: TermTail::End };
    assert(t.wf());
    assert(se.wf());
    assert(Expr::Simple(se).wf());
    assert(t.tokens() =~= f.tokens());
    assert(se.tokens() =~= f.tokens());
    assert(Expr::Simple(se).tokens() == se.tokens());
}

/// The derivation of a constant inside `n` pairs of parentheses.
pub open spec fn nested_factor(n: nat) -> Factor
    decreases n,
{
    if n == 0 {
        Factor::Constant(C1Token::ConstInt)
    } else {
        Factor::Paren(Box::new(factor_as_assignment(nested_factor((n - 1) as nat))))
    }
}

proof fn lemma_nested_factor(n: nat)
    ensures
        nested_factor(n).wf(),
        nested_factor(n).tokens() == parenthesized_constant(n),
    decreases n,
{
    if n > 0 {
        lemma_nested_factor((n - 1) as nat);
        lemma_factor_as_assignment(nested_factor((n - 1) as nat));
    }
}

/// Parentheses nest without bound: a constant inside any number of pairs of
/// parentheses is one complete assignment, whatever the depth.
pub proof fn nested_parentheses_parse(s: Seq<Token>, p: int, n: nat)
    requires
        spells(s, p, parenthesized_constant(n)),
        may_follow_expr(kind_at(s, p + parenthesized_constant(n).len())),
    ensures
        assignment(s, p) == Step::Ok(p + 2 * n + 1),
{
    lemma_nested_factor(n);
    lemma_parenthesized_length(n);
    lemma_factor_as_assignment(nested_factor(n));
    lemma_assignment(s, p, factor_as_assignment(nested_factor(n)));
}

proof fn lemma_parenthesized_length(n: nat)
    ensures
        parenthesized_constant(n).len() == 2 * n + 1,
    decreases n,
{
    if n > 0 {
        lemma_parenthesized_length((n - 1) as nat);
    }
}

proof fn lemma_truncated_program(s: Seq<Token>, p: int, prog: Program)
    requires
        prog.wf(),
        prog is Next,
        spells(s, p, prog.tokens().drop_last()),
        p + prog.tokens().len() - 1 == s.len(),
    ensures
        program(s, p) == Step::Err((s.len() as int, Expected::Token(C1Token::RightBrace))),
    decreases prog,
{
    let f = prog->Next_0;
    let rest = *prog->Next_1;
    let yf = f.tokens();
    let yr = rest.tokens();
    if rest is Next {
        assert(yr.len() > 0) by {
            assert(rest.tokens() == rest->Next_0.tokens() + rest->Next_1.tokens());
        }
        assert(prog.tokens().drop_last() =~= yf + yr.drop_last());
        lemma_spells_split(s, p, yf, yr.drop_last());
        lemma_functiondefinition(s, p, f);
        lemma_truncated_program(s, p + yf.len(), rest);
    } else {
        let head = seq![f.typ, C1Token::Identifier, C1Token::LeftParenthesis, C1Token::RightParenthesis, C1Token::LeftBrace];
        let yb = f.body.tokens();
        assert(prog.tokens().drop_last() =~= head + yb);
        lemma_spells_split(s, p, head, yb);
        lemma_spells_at(s, p, head, 0);
        lemma_spells_at(s, p, head, 1);
        lemma_spells_at(s, p, head, 2);
        lemma_spells_at(s, p, head, 3);
        lemma_spells_at(s, p, head, 4);
        lemma_statementlist(s, p + 5, f.body);
        assert(functiondefinition(s, p) == Step::Err((s.len() as int, Expected::Token(C1Token::RightBrace))));
    }
}

/// A valid program that lacks its final closing brace is rejected with a
/// single failure at the end of input: `}` was expected, no token was found,
/// and the line reported is that of the last token.
pub proof fn truncated_program_fails_at_end(s: Seq<Token>, prog: Program)
    requires
        prog.wf(),
        prog is Next,
        kinds(s) == prog.tokens().drop_last(),
    ensures
        parses(s) == Step::Err((s.len() as int, Expected::Token(C1Token::RightBrace))),
        error_at(s, s.len() as int, Expected::Token(C1Token::RightBrace))
            == (ParseError { expected: Expected::Token(C1Token::RightBrace), line: s.last().line, actual: None }),
{
    assert(prog.tokens().len() > 0) by {
        assert(prog.tokens() == prog->Next_0.tokens() + prog->Next_1.tokens());
    }
    lemma_kinds_spell(s, prog.tokens().drop_last());
    lemma_truncated_program(s, 0, prog);
}

/// Every parse ends in one of two ways: it succeeds with the whole input
/// consumed, or it fails at a single position inside the input or at its end,
/// reported with the line and the token found there.
pub proof fn parse_ends_within_input(s: Seq<Token>)
    ensures
        parses(s) matches Ok(q) ==> q == s.len(),
        parses(s) matches Err((at, x)) ==> 0 <= at <= s.len()
            && error_at(s, at, x) == (ParseError { expected: x, line: line_at(s, at), actual: kind_at(s, at) }),
{
    lemma_program_within(s, 0);
}

/// Only valid programs are accepted: a token sequence that parses to its end
/// is the yield of some well-formed derivation tree of `program`.
pub proof fn accepted_tokens_are_a_valid_program(s: Seq<Token>)
    requires
        parses(s) == Step::Ok(s.len() as int),
    ensures
        exists|prog: Program| prog.wf() && #[trigger] prog.tokens() == kinds(s),
{
    let prog = program_tree(s, 0);
    let y = prog.tokens();
    assert forall|i: int| 0 <= i < s.len() implies #[trigger] kinds(s)[i] == y[i] by {
        assert(s[0 + i].kind == y[i]);
    }
    assert(kinds(s) =~= y);
}

/// The tokens of kinds `y`, all on line 1.
pub open spec fn tokens_of_kinds(y: Seq<C1Token>) -> Seq<Token> {
    y.map_values(|k: C1Token| Token { kind: k, line: 1 })
}

/// A failure is never reported before the input has left the language. When
/// the parse fails at a token of the input, no valid program begins with the
/// input's kinds up to and including that token; when it fails at the end of
/// input, the input itself is not a valid program.
pub proof fn failure_lies_outside_every_valid_program(s: Seq<Token>, prog: Program)
    requires
        prog.wf(),
    ensures
        parses(s) matches Err((at, _)) ==> (at < s.len() ==> !(at < prog.tokens().len()
            && kinds(s).take(at + 1) == prog.tokens().take(at + 1))),
        parses(s) matches Err((at, _)) ==> (at == s.len() ==> kinds(s) != prog.tokens()),
{
    lemma_program_within(s, 0);
    if let Err((at, _)) = parses(s) {
        if kinds(s) == prog.tokens() {
            valid_program_parses(s, prog);
        }
        let y = prog.tokens();
        if at < s.len() && at < y.len() && kinds(s).take(at + 1) == y.take(at + 1) {
            let t = tokens_of_kinds(y);
            assert(kinds(t) =~= y);
            valid_program_parses(t, prog);
            assert forall|i: int| 0 <= i <= at implies #[trigger] kind_at(s, i) == kind_at(t, i) by {
                assert(kinds(s).take(at + 1)[i] == y.take(at + 1)[i]);
            }
            lemma_program_local(s, t, 0, at);
        }
    }
}

} // verus!
