use vstd::prelude::*;
use crate::token::Token;

verus! {

/// A source of tokens, read one after the other.
pub trait TokenSource {
    type TK: Token;

    fn next_token(&mut self) -> Self::TK;

    fn line(&self) -> isize;

    fn char_position_in_line(&self) -> isize;
}

} // verus!
