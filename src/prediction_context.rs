use std::collections::HashMap;
use vstd::prelude::*;
use crate::Nth;
use crate::murmur3::{
    murmur_finish, murmur_finish_spec, murmur_fold, murmur_init, murmur_update,
    murmur_update_spec, MurmurHash,
};

verus! {

/// The structure of a call-stack context: parents are handles of contexts in
/// the same cache.
pub enum ContextView {
    Empty,
    Singleton { ret: Nth, parent: usize },
    Array { rets: Seq<Nth>, parents: Seq<usize> },
}

pub open spec fn words(s: Seq<usize>) -> Seq<u32> {
    s.map_values(|x: usize| x as u32)
}

/// The hash of a context, from its structure alone.
pub open spec fn context_hash(v: ContextView) -> u32 {
    match v {
        ContextView::Empty => murmur_finish_spec(1, 0),
        ContextView::Singleton { ret, parent } => murmur_finish_spec(
            murmur_update_spec(murmur_update_spec(1, parent as u32), ret as u32),
            2,
        ),
        ContextView::Array { rets, parents } => murmur_finish_spec(
            murmur_fold(murmur_fold(1, words(parents)), words(rets)),
            (2 * rets.len()) as u32,
        ),
    }
}

/// The recognizer's call stack at a decision point: empty, one return state
/// with its parent, or several return states with their parents where call
/// sites merge.
#[derive(Debug)]
pub enum PredictionContext {
    Empty,
    Singleton(SingletonPredictionContext),
    Array(ArrayPredictionContext),
}

#[derive(Debug)]
pub struct SingletonPredictionContext {
    cached_hash: u32,
    ret_state_nth: Nth,
    parent_ctx: usize,
}

#[derive(Debug)]
pub struct ArrayPredictionContext {
    cached_hash: u32,
    ret_states_nths: Vec<Nth>,
    parents: Vec<usize>,
}

impl View for PredictionContext {
    type V = ContextView;

    closed spec fn view(&self) -> ContextView {
        match self {
            PredictionContext::Empty => ContextView::Empty,
            PredictionContext::Singleton(s) => ContextView::Singleton {
                ret: s.ret_state_nth,
                parent: s.parent_ctx,
            },
            PredictionContext::Array(a) => ContextView::Array {
                rets: a.ret_states_nths@,
                parents: a.parents@,
            },
        }
    }
}

/// Hashes `s` into `h`, one word per element.
fn hash_words(h: u32, s: &Vec<usize>) -> (r: u32)
    ensures
        r == murmur_fold(h, words(s@)),
{
    let mut acc = h;
    let mut i: usize = 0;
    while i < s.len()
        invariant
            i <= s@.len(),
            acc == murmur_fold(h, words(s@.take(i as int))),
        decreases s.len() - i,
    {
        proof {
            assert(words(s@.take(i + 1)).drop_last() =~= words(s@.take(i as int)));
        }
        acc = murmur_update(acc, #[verifier::truncate] (s[i] as u32));
        i += 1;
    }
    proof {
        assert(s@.take(i as int) =~= s@);
    }
    acc
}

impl PredictionContext {
    /// The cached hash is that of the structure, and an array context has as
    /// many parents as return states.
    pub closed spec fn wf(&self) -> bool {
        match self {
            PredictionContext::Empty => true,
            PredictionContext::Singleton(s) => s.cached_hash == context_hash(self@),
            PredictionContext::Array(a) => a.cached_hash == context_hash(self@)
                && a.parents@.len() == a.ret_states_nths@.len(),
        }
    }

    pub fn new_empty() -> (r: Self)
        ensures
            r@ == ContextView::Empty,
            r.wf(),
            r.murmur_spec() == context_hash(r@),
    {
        PredictionContext::Empty
    }

    /// One return state `ret_state_nth` above the context with handle `parent`.
    pub fn new_singleton(parent: usize, ret_state_nth: Nth) -> (r: Self)
        ensures
            r@ == (ContextView::Singleton { ret: ret_state_nth, parent }),
            r.wf(),
            r.murmur_spec() == context_hash(r@),
    {
        let mut h = murmur_init(1);
        h = murmur_update(h, #[verifier::truncate] (parent as u32));
        h = murmur_update(h, #[verifier::truncate] (ret_state_nth as u32));
        let cached_hash = murmur_finish(h, 2);
        PredictionContext::Singleton(
            SingletonPredictionContext { cached_hash, ret_state_nth, parent_ctx: parent },
        )
    }

    /// Several return states, each above the context whose handle stands at
    /// the same position in `parents`.
    pub fn new_array(parents: Vec<usize>, ret_states_nths: Vec<Nth>) -> (r: Self)
        requires
            parents@.len() == ret_states_nths@.len(),
            2 * ret_states_nths@.len() <= u32::MAX,
        ensures
            r@ == (ContextView::Array { rets: ret_states_nths@, parents: parents@ }),
            r.wf(),
            r.murmur_spec() == context_hash(r@),
    {
        let h = hash_words(murmur_init(1), &parents);
        let h = hash_words(h, &ret_states_nths);
        let cached_hash = murmur_finish(h, (2 * ret_states_nths.len()) as u32);
        PredictionContext::Array(ArrayPredictionContext { cached_hash, ret_states_nths, parents })
    }

    /// Whether this is the bottom of a stack.
    pub fn is_empty(&self) -> (r: bool)
        ensures
            r == (self@ is Empty),
    {
        matches!(self, PredictionContext::Empty)
    }

    /// Whether `self` and `other` have the same structure.
    pub fn equals(&self, other: &Self) -> (r: bool)
        ensures
            r == (self@ == other@),
    {
        match (self, other) {
            (PredictionContext::Empty, PredictionContext::Empty) => true,
            (PredictionContext::Singleton(a), PredictionContext::Singleton(b)) => {
                a.ret_state_nth == b.ret_state_nth && a.parent_ctx == b.parent_ctx
            },
            (PredictionContext::Array(a), PredictionContext::Array(b)) => {
                same_nths(&a.ret_states_nths, &b.ret_states_nths)
                    && same_nths(&a.parents, &b.parents)
            },
            _ => false,
        }
    }
}

impl MurmurHash for PredictionContext {
    closed spec fn murmur_spec(&self) -> u32 {
        match self {
            PredictionContext::Empty => murmur_finish_spec(1, 0),
            PredictionContext::Singleton(s) => s.cached_hash,
            PredictionContext::Array(a) => a.cached_hash,
        }
    }

    fn murmur(&self) -> (r: u32) {
        match self {
            PredictionContext::Empty => murmur_finish(murmur_init(1), 0),
            PredictionContext::Singleton(s) => s.cached_hash,
            PredictionContext::Array(a) => a.cached_hash,
        }
    }
}

fn same_nths(a: &Vec<usize>, b: &Vec<usize>) -> (r: bool)
    ensures
        r == (a@ == b@),
{
    if a.len() != b.len() {
        return false;
    }
    let mut i: usize = 0;
    while i < a.len()
        invariant
            a@.len() == b@.len(),
            i <= a@.len(),
            forall|j: int| 0 <= j < i ==> a@[j] == b@[j],
        decreases a.len() - i,
    {
        if a[i] != b[i] {
            return false;
        }
        i += 1;
    }
    proof {
        assert(a@ =~= b@);
    }
    true
}

/// What adding `c` to a cache holding `s` gives: the cache is unchanged and
/// the handle is that of the equal context already there, or `c` is appended
/// and its handle is the new last position.
pub open spec fn cache_add(s: Seq<ContextView>, c: ContextView) -> (Seq<ContextView>, int) {
    if s.contains(c) {
        (s, s.index_of(c))
    } else {
        (s.push(c), s.len() as int)
    }
}

broadcast use vstd::std_specs::hash::group_hash_axioms;

/// The table that maps each context structure to its one canonical instance,
/// addressed by handle: the contexts in an arena, and for each hash the
/// handles of the contexts with that hash.
#[derive(Debug)]
pub struct PredictionContextCache {
    contexts: Vec<PredictionContext>,
    by_hash: HashMap<u32, Vec<usize>>,
}

impl View for PredictionContextCache {
    type V = Seq<ContextView>;

    closed spec fn view(&self) -> Seq<ContextView> {
        self.contexts@.map_values(|c: PredictionContext| c@)
    }
}

impl PredictionContextCache {
    /// Each context is well formed and no structure is held twice.
    pub closed spec fn wf(&self) -> bool {
        &&& forall|i: int| 0 <= i < self.contexts@.len() ==> (#[trigger] self.contexts@[i]).wf()
        &&& self@.no_duplicates()
        &&& forall|i: int|
            0 <= i < self.contexts@.len() ==> self.by_hash@.contains_key(
                (#[trigger] self.contexts@[i]).murmur_spec(),
            ) && self.by_hash@[self.contexts@[i].murmur_spec()]@.contains(i as usize)
        &&& forall|h: u32, j: int|
            self.by_hash@.contains_key(h) && 0 <= j < self.by_hash@[h]@.len() ==> (
            #[trigger] self.by_hash@[h]@[j]) < self.contexts@.len()
                && self.contexts@[self.by_hash@[h]@[j] as int].murmur_spec() == h
    }

    pub fn new() -> (r: Self)
        ensures
            r@ == Seq::<ContextView>::empty(),
            r.wf(),
            r@.no_duplicates(),
    {
        let r = Self { contexts: Vec::new(), by_hash: HashMap::new() };
        proof {
            assert(r@ =~= Seq::<ContextView>::empty());
        }
        r
    }

    pub fn len(&self) -> (r: usize)
        ensures
            r == self@.len(),
    {
        self.contexts.len()
    }

    /// The context with handle `h`.
    pub fn get(&self, h: usize) -> (r: &PredictionContext)
        requires
            self.wf(),
            h < self@.len(),
        ensures
            r@ == self@[h as int],
            r.wf(),
    {
        &self.contexts[h]
    }

    /// Returns the handle of the context with the structure of `ctx`, adding
    /// `ctx` when no such context is there yet.
    pub fn add(&mut self, ctx: PredictionContext) -> (r: usize)
        requires
            old(self).wf(),
            ctx.wf(),
        ensures
            final(self).wf(),
            final(self)@.no_duplicates(),
            (final(self)@, r as int) == cache_add(old(self)@, ctx@),
    {
        let ghost s = self@;
        let h = ctx.murmur();
        let n = self.contexts.len();
        proof {
            assert(h == context_hash(ctx@));
        }
        match self.by_hash.get(&h) {
            Some(bucket) => {
                let mut j: usize = 0;
                while j < bucket.len()
                    invariant
                        self.wf(),
                        self@ == s,
                        n == s.len(),
                        h == context_hash(ctx@),
                        self.by_hash@.contains_key(h),
                        *bucket == self.by_hash@[h],
                        j <= bucket@.len(),
                        forall|j2: int| 0 <= j2 < j ==> s[#[trigger] bucket@[j2] as int] != ctx@,
                    decreases bucket.len() - j,
                {
                    let i = bucket[j];
                    proof {
                        assert(i < n);
                        assert(s[i as int] == self.contexts@[i as int]@);
                    }
                    if self.contexts[i].equals(&ctx) {
                        proof {
                            assert(s.contains(ctx@));
                            let k = s.index_of(ctx@);
                            assert(s[k] == ctx@);
                            assert(k == i) by {
                                if k != i {
                                    assert(s.no_duplicates());
                                }
                            }
                        }
                        return i;
                    }
                    j += 1;
                }
                proof {
                    assert forall|i: int| 0 <= i < n implies s[i] != ctx@ by {
                        let c = self.contexts@[i];
                        assert(c.wf());
                        assert(s[i] == c@);
                        if s[i] == ctx@ {
                            assert(c.murmur_spec() == h);
                            assert(bucket@.contains(i as usize));
                            let w = choose|w: int| 0 <= w < bucket@.len() && bucket@[w]
                                == i as usize;
                            assert(s[bucket@[w] as int] != ctx@);
                        }
                    }
                }
            },
            None => {
                proof {
                    assert forall|i: int| 0 <= i < n implies s[i] != ctx@ by {
                        let c = self.contexts@[i];
                        assert(c.wf());
                        assert(s[i] == c@);
                        if s[i] == ctx@ {
                            assert(c.murmur_spec() == h);
                        }
                    }
                }
            },
        }
        proof {
            assert(!s.contains(ctx@));
        }
        let ghost old_map = self.by_hash@;
        let mut bucket = match self.by_hash.remove(&h) {
            Some(b) => b,
            None => Vec::new(),
        };
        let ghost old_bucket = bucket@;
        proof {
            assert(old_map.contains_key(h) ==> old_bucket == old_map[h]@);
            assert(!old_map.contains_key(h) ==> old_bucket.len() == 0);
        }
        bucket.push(n);
        self.by_hash.insert(h, bucket);
        self.contexts.push(ctx);
        proof {
            assert(self@ =~= s.push(ctx@));
            assert(self.by_hash@ == old_map.insert(h, self.by_hash@[h]));
            assert(self.by_hash@[h]@ == old_bucket.push(n));
            assert forall|j: int| 0 <= j < self.contexts@.len() implies (
            #[trigger] self.contexts@[j]).wf() by {
                if j < n {
                    assert(old(self).contexts@[j] == self.contexts@[j]);
                }
            }
            assert forall|a: int, b: int|
                0 <= a < self@.len() && 0 <= b < self@.len() && a != b implies self@[a]
                != self@[b] by {
                if a < n && b < n {
                    assert(s.no_duplicates());
                }
            }
            assert forall|i: int| 0 <= i < self.contexts@.len() implies self.by_hash@.contains_key(
                (#[trigger] self.contexts@[i]).murmur_spec(),
            ) && self.by_hash@[self.contexts@[i].murmur_spec()]@.contains(i as usize) by {
                if i < n {
                    let hi = old(self).contexts@[i].murmur_spec();
                    assert(old(self).contexts@[i] == self.contexts@[i]);
                    assert(old_map.contains_key(hi) && old_map[hi]@.contains(i as usize));
                    if hi == h {
                        let w = choose|w: int| 0 <= w < old_bucket.len() && old_bucket[w]
                            == i as usize;
                        assert(self.by_hash@[h]@[w] == i as usize);
                    }
                } else {
                    assert(self.by_hash@[h]@[old_bucket.len() as int] == n);
                }
            }
            assert forall|h2: u32, j: int|
                self.by_hash@.contains_key(h2) && 0 <= j < self.by_hash@[h2]@.len() implies (
            #[trigger] self.by_hash@[h2]@[j]) < self.contexts@.len()
                && self.contexts@[self.by_hash@[h2]@[j] as int].murmur_spec() == h2 by {
                if h2 != h {
                    assert(old_map.contains_key(h2));
                    assert(self.by_hash@[h2] == old_map[h2]);
                    assert(old(self).contexts@[old_map[h2]@[j] as int]
                        == self.contexts@[old_map[h2]@[j] as int]);
                } else if j < old_bucket.len() {
                    assert(old_bucket[j] == old_map[h]@[j]);
                    assert(old(self).contexts@[old_bucket[j] as int]
                        == self.contexts@[old_bucket[j] as int]);
                }
            }
        }
        n
    }
}

/// Adding a context whose structure the cache already holds returns its
/// handle and leaves the cache as it was.
pub proof fn lemma_present_context_keeps_handle(s: Seq<ContextView>, h: int, c: ContextView)
    requires
        s.no_duplicates(),
        0 <= h < s.len(),
        s[h] == c,
    ensures
        cache_add(s, c) == (s, h),
{
    assert(s.contains(c));
    let k = s.index_of(c);
    assert(s[k] == c);
}

/// Adding keeps every context at its handle, holds the added one at the
/// returned handle, and adds no duplicate.
pub proof fn lemma_add_keeps_handles(s: Seq<ContextView>, c: ContextView)
    requires
        s.no_duplicates(),
    ensures
        cache_add(s, c).0.no_duplicates(),
        cache_add(s, c).0.len() >= s.len(),
        forall|i: int| 0 <= i < s.len() ==> #[trigger] cache_add(s, c).0[i] == s[i],
        0 <= cache_add(s, c).1 < cache_add(s, c).0.len(),
        cache_add(s, c).0[cache_add(s, c).1] == c,
{
    if s.contains(c) {
        let k = s.index_of(c);
        assert(s[k] == c);
    } else {
        let t = s.push(c);
        assert forall|a: int, b: int| 0 <= a < t.len() && 0 <= b < t.len() && a != b implies t[a]
            != t[b] by {
            if a < s.len() && b < s.len() {
            } else if a == s.len() && b < s.len() {
                assert(s.contains(s[b]));
            } else if b == s.len() && a < s.len() {
                assert(s.contains(s[a]));
            }
        }
    }
}

/// Two contexts of the same structure, built independently and added to the
/// same cache one after the other, get the same handle: they are one shared
/// instance.
pub proof fn lemma_equal_contexts_share_handle(s: Seq<ContextView>, a: ContextView, b: ContextView)
    requires
        s.no_duplicates(),
        a == b,
    ensures
        cache_add(cache_add(s, a).0, b).1 == cache_add(s, a).1,
        cache_add(cache_add(s, a).0, b).0 == cache_add(s, a).0,
{
    lemma_add_keeps_handles(s, a);
    lemma_present_context_keeps_handle(cache_add(s, a).0, cache_add(s, a).1, b);
}

} // verus!
