use vstd::prelude::*;
use crate::int_stream::IntStream;
use crate::token::Token;

verus! {

/// A recognition failure: the token at which it happened, a message, and the
/// input it was read from.
pub trait RecognitionException {
    type TK: Token;

    type Input: IntStream;

    fn offending_token(&self) -> &Self::TK;

    fn message(&self) -> String;

    fn input_stream(&self) -> &Self::Input;
}

} // verus!
