//! The semantic operator model: the bidirectional mapping from operator
//! tokens to semantic operators, and from each operator to its fixed target
//! instruction mnemonic.

use vstd::prelude::*;
use vstd::string::StringExecFns;
use crate::token::Token;

verus! {

/// A semantic operator of the language. `Neg` only arises from unary minus;
/// the rest come from binary-operator tokens.
#[derive(Clone, Copy, Debug, PartialEq, Eq, Structural)]
pub enum Operator {
    Plus,
    Minus,
    Mul,
    Div,
    Or,
    And,
    Less,
    Greater,
    Equal,
    NotEq,
    Neg,
}

impl Operator {
    /// The one instruction line each operator renders to: arithmetic and
    /// comparison operators use floating-point instructions, while `|` and
    /// `&` deliberately use the integer bitwise ones.
    pub open spec fn spec_wat(&self) -> Seq<char> {
        match *self {
            Operator::Plus => "f32.add\n"@,
            Operator::Minus => "f32.sub\n"@,
            Operator::Mul => "f32.mul\n"@,
            Operator::Div => "f32.div\n"@,
            Operator::Or => "i32.or\n"@,
            Operator::And => "i32.and\n"@,
            Operator::Greater => "f32.gt\n"@,
            Operator::Less => "f32.lt\n"@,
            Operator::Equal => "f32.eq\n"@,
            Operator::NotEq => "f32.ne\n"@,
            Operator::Neg => "f32.neg\n"@,
        }
    }

    pub fn to_wat(&self) -> (r: String)
        ensures
            r@ == self.spec_wat(),
    {
        match *self {
            Operator::Plus => String::from_str("f32.add\n"),
            Operator::Minus => String::from_str("f32.sub\n"),
            Operator::Mul => String::from_str("f32.mul\n"),
            Operator::Div => String::from_str("f32.div\n"),
            Operator::Or => String::from_str("i32.or\n"),
            Operator::And => String::from_str("i32.and\n"),
            Operator::Greater => String::from_str("f32.gt\n"),
            Operator::Less => String::from_str("f32.lt\n"),
            Operator::Equal => String::from_str("f32.eq\n"),
            Operator::NotEq => String::from_str("f32.ne\n"),
            Operator::Neg => String::from_str("f32.neg\n"),
        }
    }

    /// The total mapping from operator tokens to semantic operators.
    /// Tokens outside the three operator tiers have no image and are a
    /// caller error, so they are excluded up front.
    pub open spec fn spec_from_token(t: Token) -> Operator
        recommends
            t.spec_operator(),
    {
        match t {
            Token::Plus => Operator::Plus,
            Token::Minus => Operator::Minus,
            Token::Star => Operator::Mul,
            Token::Slash => Operator::Div,
            Token::Or => Operator::Or,
            Token::And => Operator::And,
            Token::Less => Operator::Less,
            Token::Greater => Operator::Greater,
            Token::Equal => Operator::Equal,
            _ => Operator::NotEq,
        }
    }

    pub fn from_token(t: &Token) -> (r: Operator)
        requires
            t.spec_operator(),
        ensures
            r == Operator::spec_from_token(*t),
    {
        match *t {
            Token::Plus => Operator::Plus,
            Token::Minus => Operator::Minus,
            Token::Star => Operator::Mul,
            Token::Slash => Operator::Div,
            Token::Or => Operator::Or,
            Token::And => Operator::And,
            Token::Less => Operator::Less,
            Token::Greater => Operator::Greater,
            Token::Equal => Operator::Equal,
            _ => Operator::NotEq,
        }
    }
}

} // verus!
