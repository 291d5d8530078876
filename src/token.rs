//! Token kinds and tokens as the token source hands them to the parser.
use vstd::prelude::*;

verus! {

/// The kind of a lexical token of C1.
#[derive(Clone, Copy, Debug, PartialEq, Eq, Structural)]
pub enum C1Token {
    Identifier,
    ConstInt,
    ConstFloat,
    ConstBoolean,
    KwIf,
    KwReturn,
    KwPrintf,
    KwBoolean,
    KwFloat,
    KwInt,
    KwVoid,
    LeftParenthesis,
    RightParenthesis,
    LeftBrace,
    RightBrace,
    Semicolon,
    Assign,
    Plus,
    Minus,
    Asterisk,
    Slash,
    And,
    Or,
    Equal,
    NotEqual,
    Less,
    LessEqual,
    Greater,
    GreaterEqual,
}

/// A classified token together with the 1-based source line it stands on.
#[derive(Clone, Copy, Debug, PartialEq, Eq, Structural)]
pub struct Token {
    pub kind: C1Token,
    pub line: usize,
}

impl Token {
    pub fn new(kind: C1Token, line: usize) -> (r: Token)
        ensures
            r.kind == kind,
            r.line == line,
    {
        Token { kind, line }
    }
}

/// Token kinds that may begin a block, and so continue a statement list.
pub open spec fn starts_block(k: C1Token) -> bool {
    matches!(k, C1Token::LeftBrace | C1Token::KwIf | C1Token::KwReturn | C1Token::KwPrintf | C1Token::Identifier)
}

/// Token kinds that may begin an expression.
pub open spec fn starts_expression(k: C1Token) -> bool {
    matches!(k, C1Token::Identifier | C1Token::Minus | C1Token::ConstInt | C1Token::ConstFloat | C1Token::ConstBoolean | C1Token::LeftParenthesis)
}

/// The keywords that name a type.
pub open spec fn is_type_keyword(k: C1Token) -> bool {
    matches!(k, C1Token::KwBoolean | C1Token::KwFloat | C1Token::KwInt | C1Token::KwVoid)
}

/// Literal constants.
pub open spec fn is_constant(k: C1Token) -> bool {
    matches!(k, C1Token::ConstInt | C1Token::ConstFloat | C1Token::ConstBoolean)
}

/// Relational operators: `==`, `!=`, `>=`, `<=`, `>`, `<`.
pub open spec fn is_relop(k: C1Token) -> bool {
    matches!(k, C1Token::Equal | C1Token::NotEqual | C1Token::GreaterEqual | C1Token::LessEqual | C1Token::Greater | C1Token::Less)
}

/// Additive operators: `+`, `-`, `||`.
pub open spec fn is_addop(k: C1Token) -> bool {
    matches!(k, C1Token::Plus | C1Token::Minus | C1Token::Or)
}

/// Multiplicative operators: `*`, `/`, `&&`.
pub open spec fn is_mulop(k: C1Token) -> bool {
    matches!(k, C1Token::Asterisk | C1Token::Slash | C1Token::And)
}

} // verus!
