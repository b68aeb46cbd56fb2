use vstd::prelude::*;

verus! {

/// A recognition fault, reported to the surrounding recognizer: none of the
/// alternatives fits, the input does not match, or a predicate failed.
#[derive(Clone, Debug)]
pub enum ANTLRError {
    LexerNoAltErr { start_index: isize },
    NoViableErr(NoViableError),
    InputMismatchErr(InputMismatchError),
    PredicateErr(PredicateError),
    OtherErr(String),
}

#[derive(Clone, Debug)]
pub struct NoViableError {}

#[derive(Clone, Debug)]
pub struct InputMismatchError {}

#[derive(Clone, Debug)]
pub struct PredicateError {}

} // verus!
