//! The keywords and symbols that the lexer recognises in a word.

use vstd::prelude::*;
use crate::text::{chars_of, lower, lower_chars, same_chars};
use crate::tokens::OperatorType;

verus! {

#[allow(non_camel_case_types)]
#[derive(Debug, Clone, Copy, PartialEq, Eq, Structural)]
pub enum Symbols {
    SELECT,
    WHERE,
    WILDCARD,
}

pub enum PreprocessedView {
    Symbol(Symbols),
    Identifier(Seq<char>),
    Operator(OperatorType),
}

/// A higher-level token: a keyword or symbol, an identifier as written, or
/// an operator.
#[derive(Debug)]
pub enum PreprocessedTokenTypes {
    Symbol(Symbols),
    Identifier(String),
    Operator(OperatorType),
}

impl View for PreprocessedTokenTypes {
    type V = PreprocessedView;

    open spec fn view(&self) -> PreprocessedView {
        match self {
            PreprocessedTokenTypes::Symbol(s) => PreprocessedView::Symbol(*s),
            PreprocessedTokenTypes::Identifier(w) => PreprocessedView::Identifier(w@),
            PreprocessedTokenTypes::Operator(o) => PreprocessedView::Operator(*o),
        }
    }
}

/// What a word is: `select`, `where` (in any letter case) and `*` are
/// symbols; any other word is an identifier, kept as written.
pub open spec fn classify_word(w: Seq<char>) -> PreprocessedView {
    let l = lower(w);
    if l == seq!['s', 'e', 'l', 'e', 'c', 't'] {
        PreprocessedView::Symbol(Symbols::SELECT)
    } else if l == seq!['w', 'h', 'e', 'r', 'e'] {
        PreprocessedView::Symbol(Symbols::WHERE)
    } else if l == seq!['*'] {
        PreprocessedView::Symbol(Symbols::WILDCARD)
    } else {
        PreprocessedView::Identifier(w)
    }
}

impl PreprocessedTokenTypes {
    pub fn from_string(buffer: &String) -> (r: Self)
        ensures
            r@ == classify_word(buffer@),
    {
        let l = lower_chars(&chars_of(buffer.as_str()));
        let select = vec!['s', 'e', 'l', 'e', 'c', 't'];
        let where_kw = vec!['w', 'h', 'e', 'r', 'e'];
        let star = vec!['*'];
        assert(select@ == seq!['s', 'e', 'l', 'e', 'c', 't']);
        assert(where_kw@ == seq!['w', 'h', 'e', 'r', 'e']);
        assert(star@ == seq!['*']);
        if same_chars(&l, &select) {
            PreprocessedTokenTypes::Symbol(Symbols::SELECT)
        } else if same_chars(&l, &where_kw) {
            PreprocessedTokenTypes::Symbol(Symbols::WHERE)
        } else if same_chars(&l, &star) {
            PreprocessedTokenTypes::Symbol(Symbols::WILDCARD)
        } else {
            PreprocessedTokenTypes::Identifier(buffer.clone())
        }
    }
}

} // verus!
