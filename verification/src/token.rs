//! The closed set of token kinds the lexer produces, with the three
//! predicates that sort binary-operator tokens into precedence tiers.

use vstd::prelude::*;

verus! {

/// A classified unit of lexical syntax. Tokens carry no payload; the lexeme
/// text backing the most recent token is state owned by the lexer.
/// `Unset` stands for "no valid token": the parser starts in it, and a bare
/// `=` lexes to it.
#[derive(Clone, Copy, Debug, PartialEq, Eq, Structural)]
pub enum Token {
    Eof,
    Comma,
    Define,
    Identifier,
    Number,
    InvalidChar,
    If,
    Else,
    Then,
    Lpar,
    Rpar,
    Equal,
    Less,
    Greater,
    Plus,
    Minus,
    Star,
    Slash,
    Or,
    And,
    Semicolon,
    Unset,
    NotEq,
}

impl Token {
    /// The middle precedence tier: `+`, `-`, `|`.
    pub open spec fn spec_addition_operator(&self) -> bool {
        self is Plus || self is Minus || self is Or
    }

    #[verifier::when_used_as_spec(spec_addition_operator)]
    pub fn is_addition_operator(&self) -> (r: bool)
        ensures
            r == self.spec_addition_operator(),
    {
        match *self {
            Token::Plus | Token::Minus | Token::Or => true,
            _ => false,
        }
    }

    /// The highest precedence tier: `*`, `/`, `&`.
    pub open spec fn spec_multiplication_operator(&self) -> bool {
        self is Star || self is Slash || self is And
    }

    #[verifier::when_used_as_spec(spec_multiplication_operator)]
    pub fn is_multiplication_operator(&self) -> (r: bool)
        ensures
            r == self.spec_multiplication_operator(),
    {
        match *self {
            Token::Star | Token::Slash | Token::And => true,
            _ => false,
        }
    }

    /// The lowest precedence tier: `<`, `>`, `==`, `<>`.
    pub open spec fn spec_comparison_operator(&self) -> bool {
        self is Less || self is Greater || self is Equal || self is NotEq
    }

    #[verifier::when_used_as_spec(spec_comparison_operator)]
    pub fn is_comparison_operator(&self) -> (r: bool)
        ensures
            r == self.spec_comparison_operator(),
    {
        match *self {
            Token::Less | Token::Greater | Token::Equal | Token::NotEq => true,
            _ => false,
        }
    }

    /// Any token the operator model can translate: one of the three tiers.
    pub open spec fn spec_operator(&self) -> bool {
        self.spec_addition_operator() || self.spec_multiplication_operator()
            || self.spec_comparison_operator()
    }
}

} // verus!
