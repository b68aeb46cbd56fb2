use vstd::prelude::*;

verus! {

/// The symbol that a stream yields at or past its end.
pub const EOF: isize = -1;

/// What `la(i)` reads on a stream at `index` of `size` symbols: `i > 0` looks
/// ahead (`la(1)` is the current symbol), `i < 0` looks back; out of range
/// it is `EOF`.
pub open spec fn lookahead(index: int, size: int, symbol: spec_fn(int) -> int, i: int) -> int {
    let k = if i < 0 { index + i } else { index + i - 1 };
    if 0 <= k < size {
        symbol(k)
    } else {
        EOF as int
    }
}

/// A stream of integer symbols with a current position.
pub trait IntStream {
    spec fn stream_wf(&self) -> bool;

    spec fn stream_index(&self) -> int;

    spec fn stream_size(&self) -> int;

    /// The symbol at position `k`, for `0 <= k < stream_size()`.
    spec fn symbol(&self, k: int) -> int;

    /// Moves past the current symbol; there must be one.
    fn consume(&mut self)
        requires
            old(self).stream_wf(),
            old(self).stream_index() < old(self).stream_size(),
        ensures
            final(self).stream_wf(),
            final(self).stream_index() == old(self).stream_index() + 1,
            final(self).stream_size() == old(self).stream_size(),
            forall|k: int| #[trigger] final(self).symbol(k) == old(self).symbol(k),
    ;

    /// The symbol at offset `i` from the current position; `i` is not 0.
    fn la(&mut self, i: isize) -> (r: isize)
        requires
            old(self).stream_wf(),
            i != 0,
        ensures
            final(self).stream_wf(),
            final(self).stream_index() == old(self).stream_index(),
            final(self).stream_size() == old(self).stream_size(),
            forall|k: int| #[trigger] final(self).symbol(k) == old(self).symbol(k),
            r == lookahead(
                old(self).stream_index(),
                old(self).stream_size(),
                |k: int| old(self).symbol(k),
                i as int,
            ),
    ;

    fn index(&self) -> (r: isize)
        requires
            self.stream_wf(),
        ensures
            r == self.stream_index(),
    ;

    /// Moves back to `index`, or forward to it but not past the end.
    fn seek(&mut self, index: isize)
        requires
            old(self).stream_wf(),
        ensures
            final(self).stream_wf(),
            final(self).stream_index() == if index <= old(self).stream_index() {
                index as int
            } else if index < old(self).stream_size() {
                index as int
            } else {
                old(self).stream_size()
            },
            final(self).stream_size() == old(self).stream_size(),
            forall|k: int| #[trigger] final(self).symbol(k) == old(self).symbol(k),
    ;

    fn size(&self) -> (r: isize)
        requires
            self.stream_wf(),
        ensures
            r == self.stream_size(),
    ;

    fn source_name(&self) -> String;
}

} // verus!
