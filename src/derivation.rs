//! Derivation trees of the C1 grammar and the token kinds each one spells.
//!
//! A tree is well formed when every operator and constant in it is of the
//! right class; its yield is the sequence of token kinds it derives. A token
//! sequence is a valid program when its kinds are the yield of a well-formed
//! `Program`.
use vstd::prelude::*;
use crate::token::{C1Token, Token, is_type_keyword, is_constant, is_relop, is_addop, is_mulop};

verus! {

pub enum Factor {
    /// `"(" assignment ")"`
    Paren(Box<Assignment>),
    /// A literal of the given constant kind.
    Constant(C1Token),
    /// `identifier "(" ")"`
    Call,
    /// A bare identifier.
    Variable,
}

/// `( mulop factor )*`
pub enum FactorTail {
    End,
    Next(C1Token, Factor, Box<FactorTail>),
}

pub struct Term {
    pub first: Factor,
    pub rest: FactorTail,
}

/// `( addop term )*`
pub enum TermTail {
    End,
    Next(C1Token, Term, Box<TermTail>),
}

pub struct SimpleExpr {
    pub negated: bool,
    pub first: Term,
    pub rest: TermTail,
}

pub enum Expr {
    Simple(SimpleExpr),
    /// `simexpr relop simexpr`
    Compare(SimpleExpr, C1Token, SimpleExpr),
}

pub enum Assignment {
    /// `identifier "=" assignment`
    Assign(Box<Assignment>),
    Value(Expr),
}

pub enum Statement {
    /// `"if" "(" assignment ")" block`
    If(Assignment, Box<Block>),
    /// `"return" assignment? ";"`
    Return(Option<Assignment>),
    /// `"printf" "(" assignment ")" ";"`
    Printf(Assignment),
    /// `identifier "(" ")" ";"`
    Call,
    /// `identifier "=" assignment ";"`
    Assign(Assignment),
}

pub enum Block {
    /// `"{" statementlist "}"`
    Braced(Box<StatementList>),
    Single(Box<Statement>),
}

pub enum StatementList {
    End,
    Next(Box<Block>, Box<StatementList>),
}

pub struct FunctionDefinition {
    /// The type keyword that opens the definition.
    pub typ: C1Token,
    pub body: StatementList,
}

pub enum Program {
    End,
    Next(FunctionDefinition, Box<Program>),
}

impl Factor {
    pub open spec fn wf(self) -> bool
        decreases self,
    {
        match self {
            Factor::Paren(a) => a.wf(),
            Factor::Constant(k) => is_constant(k),
            _ => true,
        }
    }

    pub open spec fn tokens(self) -> Seq<C1Token>
        decreases self,
    {
        match self {
            Factor::Paren(a) => seq![C1Token::LeftParenthesis] + a.tokens() + seq![C1Token::RightParenthesis],
            Factor::Constant(k) => seq![k],
            Factor::Call => seq![C1Token::Identifier, C1Token::LeftParenthesis, C1Token::RightParenthesis],
            Factor::Variable => seq![C1Token::Identifier],
        }
    }
}

impl FactorTail {
    pub open spec fn wf(self) -> bool
        decreases self,
    {
        match self {
            FactorTail::End => true,
            FactorTail::Next(op, f, rest) => is_mulop(op) && f.wf() && rest.wf(),
        }
    }

    pub open spec fn tokens(self) -> Seq<C1Token>
        decreases self,
    {
        match self {
            FactorTail::End => seq![],
            FactorTail::Next(op, f, rest) => seq![op] + f.tokens() + rest.tokens(),
        }
    }
}

impl Term {
    pub open spec fn wf(self) -> bool
        decreases self,
    {
        self.first.wf() && self.rest.wf()
    }

    pub open spec fn tokens(self) -> Seq<C1Token>
        decreases self,
    {
        self.first.tokens() + self.rest.tokens()
    }
}

impl TermTail {
    pub open spec fn wf(self) -> bool
        decreases self,
    {
        match self {
            TermTail::End => true,
            TermTail::Next(op, t, rest) => is_addop(op) && t.wf() && rest.wf(),
        }
    }

    pub open spec fn tokens(self) -> Seq<C1Token>
        decreases self,
    {
        match self {
            TermTail::End => seq![],
            TermTail::Next(op, t, rest) => seq![op] + t.tokens() + rest.tokens(),
        }
    }
}

impl SimpleExpr {
    pub open spec fn wf(self) -> bool
        decreases self,
    {
        self.first.wf() && self.rest.wf()
    }

    pub open spec fn tokens(self) -> Seq<C1Token>
        decreases self,
    {
        let sign = if self.negated { seq![C1Token::Minus] } else { seq![] };
        sign + self.first.tokens() + self.rest.tokens()
    }
}

impl Expr {
    pub open spec fn wf(self) -> bool
        decreases self,
    {
        match self {
            Expr::Simple(e) => e.wf(),
            Expr::Compare(l, op, r) => l.wf() && is_relop(op) && r.wf(),
        }
    }

    pub open spec fn tokens(self) -> Seq<C1Token>
        decreases self,
    {
        match self {
            Expr::Simple(e) => e.tokens(),
            Expr::Compare(l, op, r) => l.tokens() + seq![op] + r.tokens(),
        }
    }
}

impl Assignment {
    pub open spec fn wf(self) -> bool
        decreases self,
    {
        match self {
            Assignment::Assign(a) => a.wf(),
            Assignment::Value(e) => e.wf(),
        }
    }

    pub open spec fn tokens(self) -> Seq<C1Token>
        decreases self,
    {
        match self {
            Assignment::Assign(a) => seq![C1Token::Identifier, C1Token::Assign] + a.tokens(),
            Assignment::Value(e) => e.tokens(),
        }
    }
}

impl Statement {
    pub open spec fn wf(self) -> bool
        decreases self,
    {
        match self {
            Statement::If(a, b) => a.wf() && b.wf(),
            Statement::Return(Some(a)) => a.wf(),
            Statement::Return(None) => true,
            Statement::Printf(a) => a.wf(),
            Statement::Call => true,
            Statement::Assign(a) => a.wf(),
        }
    }

    pub open spec fn tokens(self) -> Seq<C1Token>
        decreases self,
    {
        match self {
            Statement::If(a, b) => seq![C1Token::KwIf, C1Token::LeftParenthesis] + a.tokens() + seq![C1Token::RightParenthesis] + b.tokens(),
            Statement::Return(Some(a)) => seq![C1Token::KwReturn] + a.tokens() + seq![C1Token::Semicolon],
            Statement::Return(None) => seq![C1Token::KwReturn, C1Token::Semicolon],
            Statement::Printf(a) => seq![C1Token::KwPrintf, C1Token::LeftParenthesis] + a.tokens() + seq![C1Token::RightParenthesis, C1Token::Semicolon],
            Statement::Call => seq![C1Token::Identifier, C1Token::LeftParenthesis, C1Token::RightParenthesis, C1Token::Semicolon],
            Statement::Assign(a) => seq![C1Token::Identifier, C1Token::Assign] + a.tokens() + seq![C1Token::Semicolon],
        }
    }
}

impl Block {
    pub open spec fn wf(self) -> bool
        decreases self,
    {
        match self {
            Block::Braced(l) => l.wf(),
            Block::Single(st) => st.wf(),
        }
    }

    pub open spec fn tokens(self) -> Seq<C1Token>
        decreases self,
    {
        match self {
            Block::Braced(l) => seq![C1Token::LeftBrace] + l.tokens() + seq![C1Token::RightBrace],
            Block::Single(st) => st.tokens(),
        }
    }
}

impl StatementList {
    pub open spec fn wf(self) -> bool
        decreases self,
    {
        match self {
            StatementList::End => true,
            StatementList::Next(b, rest) => b.wf() && rest.wf(),
        }
    }

    pub open spec fn tokens(self) -> Seq<C1Token>
        decreases self,
    {
        match self {
            StatementList::End => seq![],
            StatementList::Next(b, rest) => b.tokens() + rest.tokens(),
        }
    }
}

impl FunctionDefinition {
    pub open spec fn wf(self) -> bool {
        is_type_keyword(self.typ) && self.body.wf()
    }

    pub open spec fn tokens(self) -> Seq<C1Token> {
        seq![self.typ, C1Token::Identifier, C1Token::LeftParenthesis, C1Token::RightParenthesis, C1Token::LeftBrace]
            + self.body.tokens() + seq![C1Token::RightBrace]
    }
}

impl Program {
    pub open spec fn wf(self) -> bool
        decreases self,
    {
        match self {
            Program::End => true,
            Program::Next(f, rest) => f.wf() && rest.wf(),
        }
    }

    pub open spec fn tokens(self) -> Seq<C1Token>
        decreases self,
    {
        match self {
            Program::End => seq![],
            Program::Next(f, rest) => f.tokens() + rest.tokens(),
        }
    }
}

/// The kinds of a token sequence.
pub open spec fn kinds(s: Seq<Token>) -> Seq<C1Token> {
    s.map_values(|t: Token| t.kind)
}

/// The tokens of `s` from `p` on spell the kinds `y`.
pub open spec fn spells(s: Seq<Token>, p: int, y: Seq<C1Token>) -> bool {
    &&& 0 <= p
    &&& p + y.len() <= s.len()
    &&& forall|i: int| 0 <= i < y.len() ==> s[p + i].kind == #[trigger] y[i]
}

} // verus!
