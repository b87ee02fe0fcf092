//! Character tokens and preprocessed tokens of the lexer.

use vstd::prelude::*;
use crate::symbols::{PreprocessedTokenTypes, PreprocessedView};

verus! {

#[derive(Debug, Clone, Copy, PartialEq, Eq, Structural)]
pub enum OperatorType {
    Equal,
    NotEqual,
}

#[derive(Debug, Clone, Copy, PartialEq, Eq, Structural)]
pub enum TokenType {
    WhiteSpace,
    SemiColon,
    Operator(OperatorType),
    Misc,
}

/// One character of the input, with its byte offset.
#[derive(Debug)]
pub struct Token {
    pub character: char,
    pub position: usize,
    pub token_type: TokenType,
}

impl Token {
    pub fn new(character: char, position: usize, token_type: TokenType) -> (r: Self)
        ensures
            r.character == character,
            r.position == position,
            r.token_type == token_type,
    {
        Token { character, position, token_type }
    }
}

/// A word, symbol or operator of the input.
#[derive(Debug)]
pub struct PreprocessedToken {
    pub value: PreprocessedTokenTypes,
}

pub open spec fn preprocessed_view(ts: Seq<PreprocessedToken>) -> Seq<PreprocessedView> {
    ts.map_values(|t: PreprocessedToken| t.value@)
}

} // verus!
