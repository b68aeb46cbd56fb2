use std::rc::Rc;
use vstd::prelude::*;
use crate::int_stream::IntStream;
use crate::token::Token;

verus! {

/// A stream of tokens that the parser reads.
pub trait TokenStream: IntStream {
    type TK: Token;

    fn lt(&self) -> Rc<Self::TK>;

    fn token_at(&self, idx: usize) -> Rc<Self::TK>;

    fn all_text(&self) -> String;
}

} // verus!
