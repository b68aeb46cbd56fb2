use vstd::prelude::*;
use crate::char_stream::CharStream;
use crate::code_point::{codes, range_text, CodePoints};
use crate::int_stream::{lookahead, IntStream, EOF};

verus! {

const INPUT_STREAM_SOURCE_NAME: &'static str = "source from string";

/// A character stream over code points held in memory.
pub struct InputStream<T> {
    index: isize,
    size: isize,
    data: T,
}

pub type StringStream = InputStream<String>;

pub type ByteStream = InputStream<Vec<u8>>;

pub type CodePoint8BitStream = InputStream<Vec<u8>>;

pub type CodePoint16BitStream = InputStream<Vec<u16>>;

pub type CodePoint32BitStream = InputStream<Vec<u32>>;

impl<T: CodePoints> InputStream<T> {
    /// The code points that the stream reads.
    pub closed spec fn data_points(&self) -> Seq<u32> {
        self.data.points()
    }

    /// A stream at the start of `input`.
    pub fn new(input: T) -> (r: Self)
        requires
            input.points().len() <= isize::MAX,
        ensures
            r.stream_wf(),
            r.stream_index() == 0,
            r.stream_size() == input.points().len(),
            r.data_points() == input.points(),
            r.text_points() == input.text_points(),
            forall|k: int| 0 <= k < r.stream_size() ==> #[trigger] r.symbol(k)
                == input.points()[k] as isize as int,
    {
        let size = input.size();
        Self { index: 0, size: size as isize, data: input }
    }
}

impl InputStream<String> {
    /// A stream at the start of a copy of `input`.
    pub fn from(input: &str) -> (r: Self)
        requires
            input@.len() <= isize::MAX,
        ensures
            r.stream_wf(),
            r.stream_index() == 0,
            r.stream_size() == input@.len(),
            r.text_points() == codes(input@),
            forall|k: int| 0 <= k < r.stream_size() ==> #[trigger] r.symbol(k)
                == input@[k] as u32 as isize as int,
    {
        Self::new(input.to_owned())
    }
}

impl<T: CodePoints> IntStream for InputStream<T> {
    closed spec fn stream_wf(&self) -> bool {
        &&& self.size as int == self.data.points().len()
        &&& self.size >= 0
    }

    closed spec fn stream_index(&self) -> int {
        self.index as int
    }

    closed spec fn stream_size(&self) -> int {
        self.size as int
    }

    closed spec fn symbol(&self, k: int) -> int {
        (self.data.points()[k] as isize) as int
    }

    fn consume(&mut self) {
        self.index = self.index + 1;
    }

    fn la(&mut self, i: isize) -> (r: isize) {
        let new_index: i128 = if i < 0 {
            self.index as i128 + i as i128
        } else {
            self.index as i128 + i as i128 - 1
        };
        if new_index < 0 || new_index >= self.size as i128 {
            return EOF;
        }
        match self.data.code_point_at(new_index as usize) {
            Some(c) => #[verifier::truncate] (c as isize),
            None => EOF,
        }
    }

    fn index(&self) -> (r: isize) {
        self.index
    }

    fn seek(&mut self, index: isize) {
        if index <= self.index {
            self.index = index;
            return;
        }
        self.index = if index < self.size { index } else { self.size };
    }

    fn size(&self) -> (r: isize) {
        self.size
    }

    fn source_name(&self) -> String {
        INPUT_STREAM_SOURCE_NAME.to_owned()
    }
}

impl<T: CodePoints> CharStream for InputStream<T> {
    closed spec fn text_points(&self) -> Seq<u32> {
        self.data.text_points()
    }

    fn text(&self, start: usize, end: usize) -> (r: String) {
        self.data.text_range(start, end)
    }
}

} // verus!
