use vstd::prelude::*;
use crate::code_point::{codes, range_text};
use crate::int_stream::IntStream;

verus! {

/// A stream of characters whose text can be read back by position.
pub trait CharStream: IntStream {
    /// The codes of the stream's characters.
    spec fn text_points(&self) -> Seq<u32>;

    /// The text of positions `start..=end`, cut at the end; `<EOF>` when the
    /// range is empty or starts past the end.
    fn text(&self, start: usize, end: usize) -> (r: String)
        requires
            self.stream_wf(),
        ensures
            codes(r@) == range_text(self.text_points(), start as int, end as int),
    ;
}

} // verus!
