use vstd::prelude::*;

verus! {

/// The inclusive range `start..=stop`; it is empty when `stop < start`.
#[derive(Debug, Clone, Copy, PartialEq, Eq, Structural)]
pub struct Interval {
    pub start: isize,
    pub stop: isize,
}

impl Interval {
    pub open spec fn contains(self, x: int) -> bool {
        self.start <= x <= self.stop
    }

    pub fn new(start: isize, stop: isize) -> (r: Self)
        ensures
            r.start == start,
            r.stop == stop,
    {
        Self { start, stop }
    }
}

/// Whether some interval of `s` holds `x`.
pub open spec fn covers(s: Seq<Interval>, x: int) -> bool
    decreases s.len(),
{
    s.len() > 0 && (covers(s.drop_last(), x) || s.last().contains(x))
}

/// Each interval is non-empty, and any two of them are ordered by start with
/// at least one integer between them: no overlap, no adjacency.
pub open spec fn canonical(s: Seq<Interval>) -> bool {
    &&& forall|i: int| 0 <= i < s.len() ==> #[trigger] s[i].start <= s[i].stop
    &&& forall|i: int, j: int|
        0 <= i < j < s.len() ==> #[trigger] s[i].stop + 1 < #[trigger] s[j].start
}

spec fn pending_covers(s: Seq<Interval>, placed: bool, lo: int, hi: int, x: int) -> bool {
    covers(s, x) || (!placed && lo <= x <= hi)
}

proof fn lemma_covers_push(s: Seq<Interval>, e: Interval, x: int)
    ensures
        covers(s.push(e), x) == (covers(s, x) || e.contains(x)),
{
    assert(s.push(e).drop_last() =~= s);
}

proof fn lemma_covers_take_next(s: Seq<Interval>, i: int, x: int)
    requires
        0 <= i < s.len(),
    ensures
        covers(s.take(i + 1), x) == (covers(s.take(i), x) || s[i].contains(x)),
{
    assert(s.take(i + 1).drop_last() =~= s.take(i));
}

proof fn lemma_canonical_push(s: Seq<Interval>, e: Interval)
    requires
        canonical(s),
        e.start <= e.stop,
        s.len() > 0 ==> s.last().stop + 1 < e.start,
    ensures
        canonical(s.push(e)),
{
    let t = s.push(e);
    assert forall|j: int, k: int| 0 <= j < k < t.len() implies #[trigger] t[j].stop + 1
        < #[trigger] t[k].start by {
        if k == s.len() && j < s.len() - 1 {
            assert(s[j].stop + 1 < s[s.len() - 1].start);
            assert(s[s.len() - 1].start <= s[s.len() - 1].stop);
        }
    }
    assert forall|j: int| 0 <= j < t.len() implies #[trigger] t[j].start <= t[j].stop by {
        if j < s.len() {
            assert(s[j].start <= s[j].stop);
        }
    }
}

proof fn lemma_covers_index(s: Seq<Interval>, x: int)
    ensures
        covers(s, x) <==> exists|i: int| 0 <= i < s.len() && #[trigger] s[i].contains(x),
    decreases s.len(),
{
    if s.len() > 0 {
        let p = s.drop_last();
        lemma_covers_index(p, x);
        if covers(s, x) {
            if covers(p, x) {
                let i = choose|i: int| 0 <= i < p.len() && #[trigger] p[i].contains(x);
                assert(s[i].contains(x));
            } else {
                assert(s[s.len() - 1].contains(x));
            }
        } else {
            assert forall|i: int| 0 <= i < s.len() implies !#[trigger] s[i].contains(x) by {
                if i < s.len() - 1 {
                    assert(p[i] == s[i]);
                }
            }
        }
    }
}

/// In a canonical list, what the intervals before the last one cover lies
/// below the last one, with a gap.
proof fn lemma_covers_before_last(s: Seq<Interval>, x: int)
    requires
        canonical(s),
        s.len() > 0,
        covers(s.drop_last(), x),
    ensures
        x + 1 < s.last().start,
{
    let p = s.drop_last();
    lemma_covers_index(p, x);
    let i = choose|i: int| 0 <= i < p.len() && #[trigger] p[i].contains(x);
    assert(s[i] == p[i]);
    assert(s[i].stop + 1 < s[s.len() - 1].start);
}

proof fn lemma_canonical_drop_last(s: Seq<Interval>)
    requires
        canonical(s),
        s.len() > 0,
    ensures
        canonical(s.drop_last()),
{
    let p = s.drop_last();
    assert forall|i: int| 0 <= i < p.len() implies #[trigger] p[i].start <= p[i].stop by {
        assert(s[i] == p[i]);
    }
    assert forall|i: int, j: int| 0 <= i < j < p.len() implies #[trigger] p[i].stop + 1
        < #[trigger] p[j].start by {
        assert(s[i] == p[i] && s[j] == p[j]);
    }
}

/// A canonical list is determined by the integers it covers: two canonical
/// lists that cover the same integers are equal.
pub proof fn lemma_canonical_unique(s: Seq<Interval>, t: Seq<Interval>)
    requires
        canonical(s),
        canonical(t),
        forall|x: int| #[trigger] covers(s, x) == covers(t, x),
    ensures
        s == t,
    decreases s.len() + t.len(),
{
    if s.len() == 0 && t.len() == 0 {
        assert(s =~= t);
        return;
    }
    if s.len() == 0 {
        let b = t[t.len() - 1];
        assert(b.start <= b.stop);
        assert(covers(t, b.start as int));
        assert(!covers(s, b.start as int));
        return;
    }
    if t.len() == 0 {
        let a = s[s.len() - 1];
        assert(a.start <= a.stop);
        assert(covers(s, a.start as int));
        assert(!covers(t, a.start as int));
        return;
    }
    let a = s[s.len() - 1];
    let b = t[t.len() - 1];
    let sp = s.drop_last();
    let tp = t.drop_last();
    assert(a.start <= a.stop && b.start <= b.stop);
    assert(covers(s, a.stop as int) && covers(t, b.stop as int));
    assert(covers(s, b.stop as int) == covers(t, b.stop as int));
    assert(covers(t, a.stop as int) && covers(s, b.stop as int));
    if covers(tp, a.stop as int) {
        lemma_covers_before_last(t, a.stop as int);
    }
    if covers(sp, b.stop as int) {
        lemma_covers_before_last(s, b.stop as int);
    }
    assert(a.stop == b.stop);
    if a.start < b.start {
        let y = b.start - 1;
        assert(covers(s, y));
        if covers(tp, y) {
            lemma_covers_before_last(t, y);
        }
        assert(!covers(t, y));
    }
    if b.start < a.start {
        let y = a.start - 1;
        assert(covers(t, y));
        if covers(sp, y) {
            lemma_covers_before_last(s, y);
        }
        assert(!covers(s, y));
    }
    assert(a == b);
    assert forall|x: int| #[trigger] covers(sp, x) == covers(tp, x) by {
        assert(covers(s, x) == covers(t, x));
        if covers(sp, x) {
            lemma_covers_before_last(s, x);
        }
        if covers(tp, x) {
            lemma_covers_before_last(t, x);
        }
    }
    lemma_canonical_drop_last(s);
    lemma_canonical_drop_last(t);
    lemma_canonical_unique(sp, tp);
    assert(s =~= sp.push(a));
    assert(t =~= tp.push(b));
}

/// A set of integers kept as a sorted list of disjoint, non-adjacent inclusive
/// ranges.
#[derive(Debug, Clone)]
pub struct IntervalSet {
    intervals: Vec<Interval>,
    read_only: bool,
}

impl View for IntervalSet {
    type V = Seq<Interval>;

    closed spec fn view(&self) -> Seq<Interval> {
        self.intervals@
    }
}

impl IntervalSet {
    pub closed spec fn is_read_only(&self) -> bool {
        self.read_only
    }

    /// Whether the set holds the integer `x`.
    pub open spec fn contains(&self, x: int) -> bool {
        covers(self@, x)
    }

    pub fn new() -> (r: Self)
        ensures
            r@ == Seq::<Interval>::empty(),
            canonical(r@),
            !r.is_read_only(),
    {
        Self { intervals: Vec::new(), read_only: false }
    }

    /// The intervals, in increasing order.
    pub fn intervals(&self) -> (r: &Vec<Interval>)
        ensures
            r@ == self@,
    {
        &self.intervals
    }

    pub fn read_only(&self) -> (r: bool)
        ensures
            r == self.is_read_only(),
    {
        self.read_only
    }

    /// Refuse any further insertion.
    pub fn set_read_only(&mut self)
        ensures
            final(self)@ == old(self)@,
            final(self).is_read_only(),
    {
        self.read_only = true;
    }

    /// Insert the single integer `v`.
    pub fn add_one(&mut self, v: isize)
        requires
            canonical(old(self)@),
            !old(self).is_read_only(),
        ensures
            canonical(final(self)@),
            !final(self).is_read_only(),
            forall|x: int| #[trigger]
                covers(final(self)@, x) <==> covers(old(self)@, x) || x == v,
    {
        self.add_range(v, v)
    }

    /// Insert every integer of `l..=r`; nothing when `r < l`.
    pub fn add_range(&mut self, l: isize, r: isize)
        requires
            canonical(old(self)@),
            !old(self).is_read_only(),
        ensures
            canonical(final(self)@),
            !final(self).is_read_only(),
            forall|x: int| #[trigger]
                covers(final(self)@, x) <==> covers(old(self)@, x) || (l <= x <= r),
    {
        self.add_interval(Interval::new(l, r))
    }

    /// Merge `v` into the list: the intervals left of it and right of it are
    /// kept, and those it overlaps or touches are fused with it into one.
    fn add_interval(&mut self, v: Interval)
        requires
            canonical(old(self)@),
        ensures
            canonical(final(self)@),
            final(self).read_only == old(self).read_only,
            forall|x: int| #[trigger]
                covers(final(self)@, x) <==> covers(old(self)@, x) || v.contains(x),
    {
        if v.stop < v.start {
            return;
        }
        let ghost old_s = self@;
        let n = self.intervals.len();
        let mut out: Vec<Interval> = Vec::new();
        let mut lo: isize = v.start;
        let mut hi: isize = v.stop;
        let mut placed = false;
        let mut i: usize = 0;
        assert(old_s.take(0) =~= Seq::<Interval>::empty());
        while i < n
            invariant
                n == old_s.len(),
                old_s == self@,
                canonical(old_s),
                0 <= i <= n,
                canonical(out@),
                lo <= hi,
                !placed && out@.len() > 0 ==> out@.last().stop + 1 < lo,
                forall|j: int|
                    i <= j < n && out@.len() > 0
                        ==> out@.last().stop + 1 < #[trigger] old_s[j].start,
                forall|x: int| #[trigger]
                    pending_covers(out@, placed, lo as int, hi as int, x) == (covers(
                        old_s.take(i as int),
                        x,
                    ) || v.contains(x)),
            decreases n - i,
        {
            let cur = self.intervals[i];
            let ghost prev = out@;
            let ghost plo = lo;
            let ghost phi = hi;
            let ghost pplaced = placed;
            proof {
                if i > 0 {
                    assert(old_s[i - 1].stop + 1 < old_s[i as int].start);
                }
                assert(cur.start <= cur.stop);
            }
            if placed || cur.stop < lo && cur.stop + 1 < lo {
                proof {
                    lemma_canonical_push(out@, cur);
                }
                out.push(cur);
            } else if hi < cur.start && hi + 1 < cur.start {
                proof {
                    lemma_canonical_push(out@, Interval { start: lo, stop: hi });
                    lemma_canonical_push(out@.push(Interval { start: lo, stop: hi }), cur);
                }
                out.push(Interval::new(lo, hi));
                placed = true;
                out.push(cur);
            } else {
                if cur.start < lo {
                    lo = cur.start;
                }
                if cur.stop > hi {
                    hi = cur.stop;
                }
            }
            proof {
                assert forall|x: int| #[trigger]
                    pending_covers(out@, placed, lo as int, hi as int, x) == (covers(
                        old_s.take(i + 1),
                        x,
                    ) || v.contains(x)) by {
                    assert(pending_covers(prev, pplaced, plo as int, phi as int, x) == (covers(
                        old_s.take(i as int),
                        x,
                    ) || v.contains(x)));
                    lemma_covers_take_next(old_s, i as int, x);
                    if pplaced || cur.stop + 1 < plo {
                        lemma_covers_push(prev, cur, x);
                    } else if phi + 1 < cur.start {
                        let e = Interval { start: plo, stop: phi };
                        let mid = prev.push(e);
                        lemma_covers_push(prev, e, x);
                        lemma_covers_push(mid, cur, x);
                    }
                }
                assert forall|j: int|
                    i + 1 <= j < n && out@.len() > 0 implies out@.last().stop + 1
                    < #[trigger] old_s[j].start by {
                    assert(old_s[i as int].stop + 1 < old_s[j].start);
                    if !(pplaced || cur.stop + 1 < plo || phi + 1 < cur.start) {
                        assert(prev.len() > 0 ==> prev.last().stop + 1 < old_s[j].start);
                    }
                }
            }
            i += 1;
        }
        proof {
            assert(old_s.take(n as int) =~= old_s);
        }
        let ghost prev = out@;
        let ghost pplaced = placed;
        if !placed {
            proof {
                lemma_canonical_push(out@, Interval { start: lo, stop: hi });
            }
            out.push(Interval::new(lo, hi));
        }
        proof {
            assert forall|x: int| #[trigger] covers(out@, x) == (covers(old_s, x)
                || v.contains(x)) by {
                assert(pending_covers(prev, pplaced, lo as int, hi as int, x) == (covers(
                    old_s.take(n as int),
                    x,
                ) || v.contains(x)));
                if !pplaced {
                    lemma_covers_push(prev, Interval { start: lo, stop: hi }, x);
                }
            }
        }
        self.intervals = out;
    }
}

} // verus!
