use vstd::prelude::*;

verus! {

broadcast use vstd::string::axiom_spec_iter;

/// What a text range outside the data reads as.
pub const TEXT_RANGE_EOF: &'static str = "<EOF>";

/// Whether `v` is the code of a Unicode scalar value.
pub open spec fn is_scalar(v: u32) -> bool {
    v < 0xD800 || (0xE000 <= v && v <= 0x10FFFF)
}

/// The code of the character that stands for `v`: `v` itself, or U+FFFD
/// when `v` is no scalar value.
pub open spec fn decode(v: u32) -> u32 {
    if is_scalar(v) {
        v
    } else {
        0xFFFD
    }
}

/// The codes of the characters of `s`.
pub open spec fn codes(s: Seq<char>) -> Seq<u32> {
    s.map_values(|c: char| c as u32)
}

/// The codes of positions `start..=end` of `s` (cut at its end), or those of
/// `<EOF>` when the range is empty or starts past the end.
pub open spec fn range_text(s: Seq<u32>, start: int, end: int) -> Seq<u32> {
    if start > end || start >= s.len() {
        codes(TEXT_RANGE_EOF@)
    } else if end >= s.len() {
        s.subrange(start, s.len() as int)
    } else {
        s.subrange(start, end + 1)
    }
}

/// Relies on `String::push`: it appends the character.
#[verifier::external_body]
fn push_char(s: &mut String, c: char)
    ensures
        final(s)@ == old(s)@.push(c),
{
    s.push(c)
}

/// Relies on `char::from_u32`: the character with that code, if it is a
/// Unicode scalar value.
#[verifier::external_body]
fn char_from_u32(v: u32) -> (r: Option<char>)
    ensures
        r is Some <==> is_scalar(v),
        r is Some ==> r->Some_0 as u32 == v,
{
    char::from_u32(v)
}

fn decode_char(v: u32) -> (r: char)
    ensures
        r as u32 == decode(v),
{
    match char_from_u32(v) {
        Some(c) => c,
        None => '\u{FFFD}',
    }
}

fn eof_text() -> (r: String)
    ensures
        r@ == TEXT_RANGE_EOF@,
        codes(r@) == codes(TEXT_RANGE_EOF@),
{
    TEXT_RANGE_EOF.to_owned()
}

/// A sequence of code points that a character stream reads.
pub trait CodePoints {
    /// The code points, in order.
    spec fn points(&self) -> Seq<u32>;

    /// The codes of the characters that the code points stand for.
    spec fn text_points(&self) -> Seq<u32>;

    /// The code point at `pos`, if there is one.
    fn code_point_at(&self, pos: usize) -> (r: Option<u32>)
        ensures
            pos < self.points().len() ==> r == Some(self.points()[pos as int]),
            pos >= self.points().len() ==> r is None,
    ;

    fn size(&self) -> (r: usize)
        requires
            self.points().len() <= usize::MAX,
        ensures
            r == self.points().len(),
    ;

    /// The text of positions `start..=end`, cut at the end; `<EOF>` when the
    /// range is empty or starts past the end.
    fn text_range(&self, start: usize, end: usize) -> (r: String)
        requires
            self.points().len() <= usize::MAX,
        ensures
            codes(r@) == range_text(self.text_points(), start as int, end as int),
    ;
}

impl CodePoints for String {
    open spec fn points(&self) -> Seq<u32> {
        self@.map_values(|c: char| c as u32)
    }

    open spec fn text_points(&self) -> Seq<u32> {
        codes(self@)
    }

    fn code_point_at(&self, pos: usize) -> (r: Option<u32>) {
        let mut k: usize = 0;
        for c in it: self.chars()
            invariant
                it.seq() == self@,
                k == it.index(),
                k <= pos,
        {
            if k == pos {
                return Some(c as u32);
            }
            k += 1;
        }
        None
    }

    fn size(&self) -> (r: usize) {
        let mut n: usize = 0;
        for c in it: self.chars()
            invariant
                it.seq() == self@,
                n == it.index(),
                self@.len() <= usize::MAX,
        {
            n += 1;
        }
        n
    }

    fn text_range(&self, start: usize, end: usize) -> (r: String) {
        let n = self.size();
        if start > end || start >= n {
            return eof_text();
        }
        let last = if end >= n { n - 1 } else { end };
        let mut out = String::new();
        let mut k: usize = 0;
        for c in it: self.chars()
            invariant
                it.seq() == self@,
                k == it.index(),
                n == self@.len(),
                start <= last < n,
                out@ == self@.subrange(start as int, if k < start { start as int } else if k
                    > last + 1 { last + 1 } else { k as int }),
        {
            if start <= k && k <= last {
                push_char(&mut out, c);
                proof {
                    assert(self@.subrange(start as int, k + 1) =~= self@.subrange(start as int, k as int).push(c));
                }
            }
            k += 1;
        }
        proof {
            assert(codes(out@) =~= codes(self@).subrange(start as int, last + 1));
        }
        out
    }
}

impl CodePoints for Vec<u8> {
    open spec fn points(&self) -> Seq<u32> {
        self@.map_values(|v: u8| v as u32)
    }

    open spec fn text_points(&self) -> Seq<u32> {
        self@.map_values(|v: u8| decode(v as u32))
    }

    fn code_point_at(&self, pos: usize) -> (r: Option<u32>) {
        if pos >= self.len() {
            return None;
        }
        Some(self[pos] as u32)
    }

    fn size(&self) -> (r: usize) {
        self.len()
    }

    fn text_range(&self, start: usize, end: usize) -> (r: String) {
        let mut points: Vec<u32> = Vec::new();
        let mut i: usize = 0;
        while i < self.len()
            invariant
                i <= self@.len(),
                points@ == self.points().take(i as int),
            decreases self.len() - i,
        {
            points.push(self[i] as u32);
            proof {
                assert(points@ =~= self.points().take(i + 1));
            }
            i += 1;
        }
        proof {
            assert(self.points().take(i as int) =~= self.points());
            assert(points@.map_values(|v: u32| decode(v)) =~= self.text_points());
        }
        text_of_points(&points, start, end)
    }
}

impl CodePoints for Vec<u16> {
    open spec fn points(&self) -> Seq<u32> {
        self@.map_values(|v: u16| v as u32)
    }

    open spec fn text_points(&self) -> Seq<u32> {
        self@.map_values(|v: u16| decode(v as u32))
    }

    fn code_point_at(&self, pos: usize) -> (r: Option<u32>) {
        if pos >= self.len() {
            return None;
        }
        Some(self[pos] as u32)
    }

    fn size(&self) -> (r: usize) {
        self.len()
    }

    fn text_range(&self, start: usize, end: usize) -> (r: String) {
        let mut points: Vec<u32> = Vec::new();
        let mut i: usize = 0;
        while i < self.len()
            invariant
                i <= self@.len(),
                points@ == self.points().take(i as int),
            decreases self.len() - i,
        {
            points.push(self[i] as u32);
            proof {
                assert(points@ =~= self.points().take(i + 1));
            }
            i += 1;
        }
        proof {
            assert(self.points().take(i as int) =~= self.points());
            assert(points@.map_values(|v: u32| decode(v)) =~= self.text_points());
        }
        text_of_points(&points, start, end)
    }
}

impl CodePoints for Vec<u32> {
    open spec fn points(&self) -> Seq<u32> {
        self@
    }

    open spec fn text_points(&self) -> Seq<u32> {
        self@.map_values(|v: u32| decode(v))
    }

    fn code_point_at(&self, pos: usize) -> (r: Option<u32>) {
        if pos >= self.len() {
            return None;
        }
        Some(self[pos])
    }

    fn size(&self) -> (r: usize) {
        self.len()
    }

    fn text_range(&self, start: usize, end: usize) -> (r: String) {
        text_of_points(self, start, end)
    }
}

/// The text of positions `start..=end` of `points`, each decoded.
fn text_of_points(points: &Vec<u32>, start: usize, end: usize) -> (r: String)
    ensures
        codes(r@) == range_text(points@.map_values(|v: u32| decode(v)), start as int, end as int),
{
    let ghost cs = points@.map_values(|v: u32| decode(v));
    let n = points.len();
    if start > end || start >= n {
        return eof_text();
    }
    let last = if end >= n { n - 1 } else { end };
    let mut out = String::new();
    let mut k: usize = start;
    while k <= last
        invariant
            start <= k <= last + 1,
            last < n,
            n == points@.len(),
            cs == points@.map_values(|v: u32| decode(v)),
            codes(out@) == cs.subrange(start as int, k as int),
        decreases last + 1 - k,
    {
        let c = decode_char(points[k]);
        let ghost prev = out@;
        push_char(&mut out, c);
        proof {
            assert(codes(out@) =~= codes(prev).push(c as u32));
            assert(cs.subrange(start as int, k + 1) =~= cs.subrange(start as int, k as int).push(
                c as u32,
            ));
        }
        k += 1;
    }
    out
}

} // verus!
