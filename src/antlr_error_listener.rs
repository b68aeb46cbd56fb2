use vstd::prelude::*;
use crate::recognition_exception::RecognitionException;
use crate::recognizer::Recognizer;

verus! {

/// Told of each syntax error with the offending symbol and the exception;
/// by default it ignores them.
pub trait ANTLRErrorListener {
    fn syntax_error<T, R: Recognizer, E: RecognitionException>(
        &mut self,
        _recognizer: &R,
        _offending_symbol: Option<&T>,
        _line: isize,
        _column: isize,
        _msg: &str,
        _err: Option<&E>,
    ) {
    }
}

} // verus!
