use vstd::prelude::*;
use crate::errors::ANTLRError;
use crate::recognizer::Recognizer;

verus! {

/// Told of each syntax error that a recognizer meets; by default it ignores
/// them.
pub trait ErrorListener {
    fn syntax_error<R: Recognizer>(
        &mut self,
        _recognizer: &R,
        _line: isize,
        _column: isize,
        _msg: &str,
        _err: Option<&ANTLRError>,
    ) {
    }
}

} // verus!
