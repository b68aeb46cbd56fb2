use std::rc::Rc;
use vstd::prelude::*;
use crate::interval_set::IntervalSet;
use crate::transition::{BaseTransition, EpsilonTransition, Transition, TRANSITION_EPSILON};
use crate::atn::ATN;
use crate::atn_deserializer::SERIALIZED_VERSION;
use crate::atn_state::{
    ATNState, StarLoopEntryState, ATN_STATE_BLOCK_START, ATN_STATE_LOOP_END, ATN_STATE_PLUS_BLOCK_START,
    ATN_STATE_PLUS_LOOPBACK, ATN_STATE_RULE_START, ATN_STATE_STAR_BLOCK_START,
    ATN_STATE_STAR_LOOP_ENTRY, ATN_STATE_TOKEN_START,
};

verus! {

/// The data holds a 0 at position `p`.
pub open spec fn zero_at(d: Seq<i32>, p: int) -> bool {
    0 <= p < d.len() && d[p] == 0
}

/// The encoding of an automaton with no state, rule, mode, interval set, edge
/// or decision (and, for a lexer, no lexer action); data may follow it.
pub open spec fn empty_encoding(d: Seq<i32>) -> bool {
    &&& d.len() >= 11
    &&& d[0] == SERIALIZED_VERSION
    &&& d[1] == 0 || d[1] == 1
    &&& forall|k: int| 3 <= k < 11 ==> zero_at(d, k)
    &&& d[1] == 0 ==> zero_at(d, 11)
}

/// How many integers the record of a state of kind `kind` takes: a loop end
/// and the block starts also give their partner.
pub open spec fn state_record_len(kind: i32) -> int {
    if kind == ATN_STATE_LOOP_END || kind == ATN_STATE_BLOCK_START || kind
        == ATN_STATE_PLUS_BLOCK_START || kind == ATN_STATE_STAR_BLOCK_START {
        3
    } else {
        2
    }
}

/// Where the record of state `i` starts, when the first one starts at `p`.
pub open spec fn state_record_pos(d: Seq<i32>, p: int, i: nat) -> int
    decreases i,
{
    if i == 0 {
        p
    } else {
        let q = state_record_pos(d, p, (i - 1) as nat);
        q + state_record_len(d[q])
    }
}

/// Each state has the kind and the rule index that its record gives.
pub open spec fn states_match(states: Seq<ATNState>, d: Seq<i32>, p: int) -> bool {
    forall|i: int|
        0 <= i < states.len() ==> {
            let q = state_record_pos(d, p, i as nat);
            &&& #[trigger] states[i].kind() == d[q]
            &&& states[i].base().rule_idx == d[q + 1] as usize
        }
}

/// Where the section after the states starts, when the state count is at
/// `p`: past the state records, the non-greedy list and the precedence list.
pub open spec fn after_states(d: Seq<i32>, p: int) -> int {
    let q0 = state_record_pos(d, p + 1, d[p] as nat);
    let q1 = q0 + 1 + d[q0];
    q1 + 1 + d[q1]
}

/// Where the record of rule `r` starts, when the rule count is at `p`: a
/// lexer rule (`lexer`) also gives its token type.
pub open spec fn rule_record_pos(p: int, lexer: bool, r: int) -> int {
    p + 1 + if lexer {
        2 * r
    } else {
        r
    }
}

/// Where the rule section starts.
pub open spec fn rules_section(d: Seq<i32>) -> int {
    after_states(d, 3)
}

/// Where the mode section starts.
pub open spec fn modes_section(d: Seq<i32>) -> int {
    rule_record_pos(rules_section(d), d[1] == 0, d[rules_section(d)] as int)
}

/// Where the record of interval set `i` starts, when the first one starts at
/// `p`: each gives its number of ranges `n`, its end-of-input flag, then `n`
/// pairs.
pub open spec fn set_record_pos(d: Seq<i32>, p: int, i: nat) -> int
    decreases i,
{
    if i == 0 {
        p
    } else {
        let q = set_record_pos(d, p, (i - 1) as nat);
        q + 2 + 2 * d[q]
    }
}

/// Where the edge section starts.
pub open spec fn edges_section(d: Seq<i32>) -> int {
    let p = modes_section(d) + 1 + d[modes_section(d)];
    set_record_pos(d, p + 1, d[p] as nat)
}

/// Where the decision section starts: past the edges, six integers each.
pub open spec fn decisions_section(d: Seq<i32>) -> int {
    edges_section(d) + 1 + 6 * d[edges_section(d)]
}

/// `b` holds states of the kinds and rule indices of those of `a`.
pub open spec fn skeleton_kept(a: Seq<ATNState>, b: Seq<ATNState>) -> bool {
    &&& b.len() == a.len()
    &&& forall|i: int|
        0 <= i < a.len() ==> #[trigger] b[i].kind() == a[i].kind() && b[i].base().rule_idx
            == a[i].base().rule_idx
}

pub proof fn lemma_skeleton_step(a: Seq<ATNState>, b: Seq<ATNState>, x: int)
    requires
        a.len() == b.len(),
        0 <= x < a.len(),
        b == a.update(x, b[x]),
        b[x].kind() == a[x].kind(),
        b[x].base().rule_idx == a[x].base().rule_idx,
    ensures
        skeleton_kept(a, b),
        (b[x] is StarLoopEntry && a[x] is StarLoopEntry
            ==> b[x]->StarLoopEntry_0.precedence_decision
            == a[x]->StarLoopEntry_0.precedence_decision) ==> marks_kept(a, b),
{
    assert forall|i: int| 0 <= i < a.len() implies #[trigger] b[i].kind() == a[i].kind()
        && b[i].base().rule_idx == a[i].base().rule_idx by {
        if i != x {
            assert(b[i] == a[i]);
        }
    }
    if b[x] is StarLoopEntry && a[x] is StarLoopEntry ==> b[x]->StarLoopEntry_0.precedence_decision
        == a[x]->StarLoopEntry_0.precedence_decision {
        assert forall|i: int|
            0 <= i < a.len() && (#[trigger] b[i]) is StarLoopEntry
                && a[i] is StarLoopEntry implies b[i]->StarLoopEntry_0.precedence_decision
                == a[i]->StarLoopEntry_0.precedence_decision by {
            if i != x {
                assert(b[i] == a[i]);
            }
        }
    }
}

pub proof fn lemma_skeleton_trans(a: Seq<ATNState>, b: Seq<ATNState>, c: Seq<ATNState>)
    requires
        skeleton_kept(a, b),
        skeleton_kept(b, c),
    ensures
        skeleton_kept(a, c),
        marks_kept(a, b) && marks_kept(b, c) ==> marks_kept(a, c),
{
    if marks_kept(a, b) && marks_kept(b, c) {
        assert forall|i: int|
            0 <= i < a.len() && (#[trigger] c[i]) is StarLoopEntry
                && a[i] is StarLoopEntry implies c[i]->StarLoopEntry_0.precedence_decision
                == a[i]->StarLoopEntry_0.precedence_decision by {
            assert(b[i].kind() == a[i].kind());
            assert(b[i] is StarLoopEntry);
        }
    }
    assert forall|i: int| 0 <= i < a.len() implies #[trigger] c[i].kind() == a[i].kind()
        && c[i].base().rule_idx == a[i].base().rule_idx by {
        assert(b[i].kind() == a[i].kind());
        assert(c[i].kind() == b[i].kind());
    }
}

pub proof fn lemma_states_match_kept(a: Seq<ATNState>, b: Seq<ATNState>, d: Seq<i32>, p: int)
    requires
        skeleton_kept(a, b),
        states_match(a, d, p),
    ensures
        states_match(b, d, p),
{
    assert forall|i: int| 0 <= i < b.len() implies {
        let q = state_record_pos(d, p, i as nat);
        &&& #[trigger] b[i].kind() == d[q]
        &&& b[i].base().rule_idx == d[q + 1] as usize
    } by {
        assert(a[i].kind() == b[i].kind());
    }
}

/// The state at `i` is the entry of the loop that removes a rule's left
/// recursion: a star-loop entry of a left-recursive rule whose last
/// transition leads to a loop end whose first transition leads to that
/// rule's stop state.
pub open spec fn is_left_recursion_loop(atn: &ATN, i: int) -> bool {
    let s = atn.states@[i];
    let ts = s.base().transitions@;
    let r = s.base().rule_idx as int;
    let start = atn.rule2start_state_nths@[r] as int;
    let end = ts.last().target() as int;
    let end_ts = atn.states@[end].base().transitions@;
    &&& s is StarLoopEntry
    &&& 0 <= r < atn.rule2start_state_nths@.len()
    &&& atn.valid_state(start)
    &&& atn.states@[start] is RuleStart
    &&& atn.states@[start]->RuleStart_0.left_recursive
    &&& ts.len() > 0
    &&& atn.valid_state(end)
    &&& atn.states@[end] is LoopEnd
    &&& end_ts.len() > 0
    &&& r < atn.rule2stop_state_nths@.len()
    &&& end_ts[0].target() == atn.rule2stop_state_nths@[r]
}

/// What marking needs of the state at `i`: a star-loop entry's rule has a
/// rule-start state; when that rule is left-recursive, the entry has a
/// transition, its last one leads to a state, and when that state is a loop
/// end, the loop end has a transition into the automaton and the rule has a
/// stop entry.
pub open spec fn entry_markable(atn: &ATN, i: int) -> bool {
    let s = atn.states@[i];
    let ts = s.base().transitions@;
    let r = s.base().rule_idx as int;
    let start = atn.rule2start_state_nths@[r] as int;
    let end = ts.last().target() as int;
    let end_ts = atn.states@[end].base().transitions@;
    s is StarLoopEntry ==> {
        &&& 0 <= r < atn.rule2start_state_nths@.len()
        &&& atn.valid_state(start)
        &&& atn.states@[start] is RuleStart
        &&& atn.states@[start]->RuleStart_0.left_recursive ==> {
            &&& ts.len() > 0
            &&& atn.valid_state(end)
            &&& atn.states@[end] is LoopEnd ==> {
                &&& end_ts.len() > 0
                &&& atn.valid_state(end_ts[0].target() as int)
                &&& r < atn.rule2stop_state_nths@.len()
            }
        }
    }
}

/// `marks` holds `j` exactly when `j < upto` and `j` is a left-recursion loop.
pub open spec fn marked_upto(marks: Seq<usize>, atn: &ATN, upto: int, j: int) -> bool {
    marks.contains(j as usize) <==> (j < upto && is_left_recursion_loop(atn, j))
}

/// `b` holds the rule, mode and decision tables of `a`.
pub open spec fn tables_kept(a: &ATN, b: &ATN) -> bool {
    &&& b.rule2start_state_nths@ == a.rule2start_state_nths@
    &&& b.rule2stop_state_nths@ == a.rule2stop_state_nths@
    &&& b.mode2start_state_nths@ == a.mode2start_state_nths@
    &&& b.decision2state_nth@ == a.decision2state_nth@
}

/// `b` keeps the grammar type, the largest token type and the number of
/// states of `a`.
pub open spec fn shape_kept(a: &ATN, b: &ATN) -> bool {
    &&& b.grammar_type == a.grammar_type
    &&& b.max_token_type == a.max_token_type
    &&& b.states@.len() == a.states@.len()
    &&& skeleton_kept(a.states@, b.states@)
}

/// Each star-loop entry of `b` is a precedence decision when that of `a` is.
pub open spec fn marks_kept(a: Seq<ATNState>, b: Seq<ATNState>) -> bool {
    forall|i: int|
        0 <= i < a.len() && (#[trigger] b[i]) is StarLoopEntry && a[i] is StarLoopEntry
            ==> b[i]->StarLoopEntry_0.precedence_decision
                == a[i]->StarLoopEntry_0.precedence_decision
}

/// No star-loop entry is marked as a precedence decision.
pub open spec fn no_precedence_marks(s: Seq<ATNState>) -> bool {
    forall|i: int|
        0 <= i < s.len() && (#[trigger] s[i]) is StarLoopEntry
            ==> !s[i]->StarLoopEntry_0.precedence_decision
}

/// `b` keeps what `shape_kept` asks and the precedence marks of `a`.
pub open spec fn frame_kept(a: &ATN, b: &ATN) -> bool {
    &&& shape_kept(a, b)
    &&& marks_kept(a.states@, b.states@)
}

pub proof fn lemma_no_marks_kept(a: Seq<ATNState>, b: Seq<ATNState>)
    requires
        skeleton_kept(a, b),
        marks_kept(a, b),
        no_precedence_marks(a),
    ensures
        no_precedence_marks(b),
{
    assert forall|i: int| 0 <= i < b.len()
        && (#[trigger] b[i]) is StarLoopEntry
            implies !b[i]->StarLoopEntry_0.precedence_decision by {
        assert(b[i].kind() == a[i].kind());
        assert(a[i] is StarLoopEntry);
    }
}

/// Changing only the precedence marks keeps whether a state is the
/// left-recursion loop.
pub proof fn lemma_left_recursion_loop_kept(a: &ATN, b: &ATN, i: int)
    requires
        b.rule2start_state_nths@ == a.rule2start_state_nths@,
        b.rule2stop_state_nths@ == a.rule2stop_state_nths@,
        b.states@.len() == a.states@.len(),
        0 <= i < a.states@.len(),
        forall|j: int|
            0 <= j < a.states@.len() ==> (#[trigger] b.states@[j]).base() == a.states@[j].base()
                && b.states@[j].kind() == a.states@[j].kind() && (!(a.states@[j] is StarLoopEntry)
                ==> b.states@[j] == a.states@[j]),
    ensures
        is_left_recursion_loop(a, i) == is_left_recursion_loop(b, i),
{
    let s = a.states@[i];
    let ts = s.base().transitions@;
    let r = s.base().rule_idx as int;
    assert(b.states@[i].base() == s.base());
    if 0 <= r < a.rule2start_state_nths@.len() {
        let start = a.rule2start_state_nths@[r] as int;
        if 0 <= start < a.states@.len() {
            assert(b.states@[start].kind() == a.states@[start].kind());
            if a.states@[start] is RuleStart {
                assert(b.states@[start] == a.states@[start]);
            }
        }
    }
    if ts.len() > 0 {
        let end = ts.last().target() as int;
        if 0 <= end < a.states@.len() {
            assert(b.states@[end].kind() == a.states@[end].kind());
            assert(b.states@[end].base() == a.states@[end].base());
            let end_ts = a.states@[end].base().transitions@;
            if end_ts.len() > 0 {
                let t = end_ts[0].target() as int;
                if 0 <= t < a.states@.len() {
                    assert(b.states@[t].kind() == a.states@[t].kind());
                }
            }
        }
    }
}

/// If the state at `j` is a block start, its end is a block end that names
/// `j` as its start.
pub open spec fn block_sealed(s: Seq<ATNState>, j: int) -> bool {
    s[j].is_block_start_kind() ==> {
        let e = s[j].block_start_part().block_end_state_nth as int;
        &&& 0 <= e < s.len()
        &&& s[e] is BlockEnd
        &&& s[e]->BlockEnd_0.contrast_set
        &&& s[e]->BlockEnd_0.block_start_state_nth == j
    }
}

/// Changing a state that is no block end, and keeping its block end if it is
/// a block start, keeps every block sealed.
pub proof fn lemma_sealed_kept(a: Seq<ATNState>, b: Seq<ATNState>, x: int, n: int)
    requires
        a.len() == b.len(),
        0 <= x < a.len(),
        n <= a.len(),
        b == a.update(x, b[x]),
        !(a[x] is BlockEnd),
        !(b[x] is BlockEnd),
        a[x].is_block_start_kind() == b[x].is_block_start_kind(),
        a[x].is_block_start_kind() ==> b[x].block_start_part().block_end_state_nth
            == a[x].block_start_part().block_end_state_nth,
        forall|j: int| 0 <= j < n ==> #[trigger] block_sealed(a, j),
    ensures
        forall|j: int| 0 <= j < n ==> #[trigger] block_sealed(b, j),
{
    assert forall|j: int| 0 <= j < n implies #[trigger] block_sealed(b, j) by {
        assert(block_sealed(a, j));
        if a[j].is_block_start_kind() {
            let e = a[j].block_start_part().block_end_state_nth as int;
            assert(e != x);
            if j != x {
                assert(b[j] == a[j]);
            }
            assert(b[e] == a[e]);
        } else if j != x {
            assert(b[j] == a[j]);
        }
    }
}

/// `x` lies in one of the first `n` ranges of the set record at `q`; range
/// `j` is the closed pair at `q + 2 + 2 * j`.
pub open spec fn pairs_hold(d: Seq<i32>, q: int, n: nat, x: int) -> bool
    decreases n,
{
    n > 0 && (pairs_hold(d, q, (n - 1) as nat, x) || (d[q + 2 * n] <= x <= d[q + 2 * n + 1]))
}

/// `x` belongs to the set whose record starts at `q`: the end-of-input
/// symbol -1 when the flag at `q + 1` is set, or a value of one of its ranges.
pub open spec fn set_holds(d: Seq<i32>, q: int, x: int) -> bool {
    (d[q + 1] != 0 && x == -1) || pairs_hold(d, q, d[q] as nat, x)
}

/// The first `k` set records, the first starting at `p`, lie inside the data
/// with a non-negative range count each.
pub open spec fn sets_fit(d: Seq<i32>, p: int, k: nat) -> bool
    decreases k,
{
    k == 0 || {
        let q = set_record_pos(d, p, (k - 1) as nat);
        &&& sets_fit(d, p, (k - 1) as nat)
        &&& 0 <= q
        &&& q + 1 < d.len()
        &&& d[q] >= 0
        &&& q + 2 + 2 * d[q] <= d.len()
    }
}

pub proof fn lemma_sets_fit_prefix(d: Seq<i32>, p: int, n: nat, k: nat)
    requires
        sets_fit(d, p, n),
        k <= n,
    ensures
        sets_fit(d, p, k),
    decreases n,
{
    if k < n {
        lemma_sets_fit_prefix(d, p, (n - 1) as nat, k);
    }
}

/// Position `v` of the list `d` holds `q`, and no later position does.
pub open spec fn last_position(d: Seq<usize>, v: int, q: usize) -> bool {
    &&& 0 <= v < d.len()
    &&& d[v] == q
    &&& forall|k: int| v < k < d.len() ==> d[k] != q
}

/// States of one kind are alike in the kinds of groups they belong to.
pub proof fn lemma_same_kind(a: ATNState, b: ATNState)
    requires
        a.kind() == b.kind(),
    ensures
        a.is_decision_kind() == b.is_decision_kind(),
        a.is_block_start_kind() == b.is_block_start_kind(),
        a is RuleStart <==> b is RuleStart,
        a is RuleStop <==> b is RuleStop,
        a is BlockEnd <==> b is BlockEnd,
        a is LoopEnd <==> b is LoopEnd,
        a is StarLoopEntry <==> b is StarLoopEntry,
        a is PlusBlockStart <==> b is PlusBlockStart,
        a is PlusLoopback <==> b is PlusLoopback,
        a is StarLoopback <==> b is StarLoopback,
{
}

/// The state is what its record at `q` gives when just read: no transition
/// yet, and a loop end's loopback or a block start's end recorded as read.
pub open spec fn state_read(s: ATNState, d: Seq<i32>, q: int) -> bool {
    &&& s.base().transitions@.len() == 0
    &&& s is LoopEnd ==> s->LoopEnd_0.contrast_set && s->LoopEnd_0.loopback_state_nth as int
        == d[q + 2]
    &&& s.is_block_start_kind() ==> s.block_start_part().contrast_set
        && s.block_start_part().block_end_state_nth as int == d[q + 2]
}

/// Each state is what its record gives when just read; the first record
/// starts at `p`.
pub open spec fn states_read(states: Seq<ATNState>, d: Seq<i32>, p: int) -> bool {
    forall|i: int|
        0 <= i < states.len()
            ==> state_read(#[trigger] states[i], d, state_record_pos(d, p, i as nat))
}

/// `x` is among the first `k` entries of the list whose count is at `l`.
pub open spec fn listed(d: Seq<i32>, l: int, k: int, x: int) -> bool {
    d.subrange(l + 1, l + 1 + k).contains(x as i32)
}

pub proof fn lemma_listed_step(d: Seq<i32>, l: int, k: int, x: int)
    requires
        0 <= l,
        0 <= k,
        l + 2 + k <= d.len(),
    ensures
        listed(d, l, k + 1, x) == (listed(d, l, k, x) || d[l + 1 + k] == x as i32),
{
    let a = d.subrange(l + 1, l + 1 + k);
    let b = d.subrange(l + 1, l + 2 + k);
    assert(b =~= a.push(d[l + 1 + k]));
    if b.contains(x as i32) {
        let w = choose|w: int| 0 <= w < b.len() && b[w] == x as i32;
        if w < a.len() {
            assert(a[w] == x as i32);
        }
    }
    if a.contains(x as i32) {
        let w = choose|w: int| 0 <= w < a.len() && a[w] == x as i32;
        assert(b[w] == x as i32);
    }
    if d[l + 1 + k] == x as i32 {
        assert(b[k] == x as i32);
    }
}

/// No rule-stop state of rule `r` lies strictly between `q` and `n`.
pub open spec fn no_later_stop(s: Seq<ATNState>, r: int, q: int, n: int) -> bool {
    forall|q2: int|
        q < q2 < n ==> !(#[trigger] s[q2] is RuleStop && s[q2].base().rule_idx == r)
}

/// The rule-stop state at `q` is recorded: its rule is in the tables, the
/// table gives it as the rule's stop when no later stop of that rule comes
/// before `n`, and the rule's start state records a stop of a rule that
/// starts there.
pub open spec fn stop_recorded(
    s: Seq<ATNState>,
    starts: Seq<usize>,
    stops: Seq<usize>,
    q: int,
    n: int,
) -> bool {
    let r = s[q].base().rule_idx as int;
    let st = starts[r] as int;
    let t = s[st]->RuleStart_0.rule_stop_state_nth as int;
    s[q] is RuleStop ==> {
        &&& r < starts.len()
        &&& r < stops.len()
        &&& no_later_stop(s, r, q, n) ==> stops[r] == q
        &&& 0 <= st < s.len()
        &&& s[st] is RuleStart
        &&& s[st]->RuleStart_0.contrast_set
        &&& 0 <= t < s.len()
        &&& s[t] is RuleStop
        &&& s[t].base().rule_idx < starts.len()
        &&& starts[s[t].base().rule_idx as int] == st
        &&& (forall|r2: int| 0 <= r2 < starts.len() && r2 != r ==> starts[r2] != starts[r])
            && no_later_stop(s, r, q, n) ==> t == q
    }
}

/// Kinds of the decision states.
pub open spec fn decision_kind_code(t: i32) -> bool {
    t == ATN_STATE_BLOCK_START || t == ATN_STATE_PLUS_BLOCK_START || t == ATN_STATE_STAR_BLOCK_START
        || t == ATN_STATE_TOKEN_START || t == ATN_STATE_STAR_LOOP_ENTRY || t
        == ATN_STATE_PLUS_LOOPBACK
}

/// The record of state `i` (the first starting at `p`) lies inside the data,
/// gives a kind of state, and a non-negative partner when it has one.
pub open spec fn state_record_ok(d: Seq<i32>, p: int, i: nat) -> bool {
    let q = state_record_pos(d, p, i);
    &&& 0 <= q
    &&& q < d.len()
    &&& q + state_record_len(d[q]) <= d.len()
    &&& 1 <= d[q] <= 12
    &&& state_record_len(d[q]) == 3 ==> d[q + 2] >= 0
}

/// The count-prefixed list at `l` lies inside the data and names states
/// `0..n` (records from `p`): decision states, or else states of kind `kind`.
pub open spec fn state_list_ok(d: Seq<i32>, l: int, p: int, n: int, kind: i32, decisions: bool) -> bool {
    &&& 0 <= l < d.len()
    &&& d[l] >= 0
    &&& l + 1 + d[l] <= d.len()
    &&& forall|j: int|
        0 <= j < d[l] ==> {
            let x = #[trigger] d[l + 1 + j];
            let t = d[state_record_pos(d, p, x as nat)];
            &&& 0 <= x < n
            &&& if decisions {
                decision_kind_code(t)
            } else {
                t == kind
            }
        }
}

/// The state section whose count is at `p` is complete and well formed: every
/// record, then the non-greedy list naming decision states, then the
/// precedence list naming rule-start states.
pub open spec fn states_section_ok(d: Seq<i32>, p: int) -> bool {
    let n = d[p];
    let q0 = state_record_pos(d, p + 1, n as nat);
    let q1 = q0 + 1 + d[q0];
    &&& 0 <= p < d.len()
    &&& n >= 0
    &&& forall|i: nat| i < n ==> #[trigger] state_record_ok(d, p + 1, i)
    &&& state_list_ok(d, q0, p + 1, n as int, 0, true)
    &&& state_list_ok(d, q1, p + 1, n as int, ATN_STATE_RULE_START, false)
}

/// The rule section whose count is at `p` is complete and well formed for
/// the states read: each start index is non-negative, and each rule-stop
/// state's rule is listed and starts at a rule-start state.
pub open spec fn rules_section_ok(d: Seq<i32>, p: int, lexer: bool, states: Seq<ATNState>) -> bool {
    &&& 0 <= p < d.len()
    &&& d[p] >= 0
    &&& rule_record_pos(p, lexer, d[p] as int) <= d.len()
    &&& forall|r: int| 0 <= r < d[p] ==> #[trigger] d[rule_record_pos(p, lexer, r)] >= 0
    &&& forall|q: int|
        0 <= q < states.len() && (#[trigger] states[q]) is RuleStop ==> {
            let r = states[q].base().rule_idx as int;
            let st = d[rule_record_pos(p, lexer, r)] as int;
            &&& r < d[p]
            &&& 0 <= st < states.len()
            &&& states[st] is RuleStart
        }
}

/// How many of the first `e` edge records (from `b`, six integers each) leave
/// state `s`.
pub open spec fn edge_count(d: Seq<i32>, b: int, s: int, e: nat) -> nat
    decreases e,
{
    if e == 0 {
        0
    } else {
        edge_count(d, b, s, (e - 1) as nat) + if d[b + 6 * (e - 1)] == s {
            1nat
        } else {
            0nat
        }
    }
}

/// Each state of `b` keeps the transitions it had in `a` as a prefix.
pub open spec fn transitions_extend(a: Seq<ATNState>, b: Seq<ATNState>) -> bool {
    &&& a.len() == b.len()
    &&& forall|s: int|
        0 <= s < a.len()
            ==> a[s].base().transitions@.len() <= (#[trigger] b[s]).base().transitions@.len()
    &&& forall|s: int, j: int|
        0 <= s < a.len() && 0 <= j < a[s].base().transitions@.len()
            ==> #[trigger] b[s].base().transitions@[j] == a[s].base().transitions@[j]
}

/// The first `m` edge records (from `b`) are attached: record `e`'s
/// transition sits on its source state right after the transitions that the
/// state had in `orig` and those of the earlier records with that source.
pub open spec fn edges_attached(
    states: Seq<ATNState>,
    orig: Seq<ATNState>,
    d: Seq<i32>,
    b: int,
    m: nat,
    sets: Seq<Rc<IntervalSet>>,
) -> bool {
    forall|e: int|
        0 <= e < m ==> {
            let s = #[trigger] d[b + 6 * e] as int;
            let t = states[s].base().transitions@;
            let k = (orig[s].base().transitions@.len() + edge_count(d, b, s, e as nat)) as int;
            &&& 0 <= s < states.len()
            &&& k < t.len()
            &&& t[k].built_from(
                d[b + 6 * e + 2],
                d[b + 6 * e + 1] as usize,
                d[b + 6 * e + 3] as isize,
                d[b + 6 * e + 4] as isize,
                d[b + 6 * e + 5] as isize,
                sets,
            )
        }
}

/// Extending transitions keeps the attached records in place.
pub proof fn lemma_edges_kept(
    a: Seq<ATNState>,
    b: Seq<ATNState>,
    orig: Seq<ATNState>,
    d: Seq<i32>,
    base: int,
    m: nat,
    sets: Seq<Rc<IntervalSet>>,
)
    requires
        edges_attached(a, orig, d, base, m, sets),
        transitions_extend(orig, a),
        transitions_extend(a, b),
    ensures
        edges_attached(b, orig, d, base, m, sets),
        transitions_extend(orig, b),
{
    assert forall|s: int| 0 <= s < orig.len() implies orig[s].base().transitions@.len()
        <= (#[trigger] b[s]).base().transitions@.len() by {
        assert(orig[s].base().transitions@.len() <= a[s].base().transitions@.len());
    }
    assert forall|s: int, j: int|
        0 <= s < orig.len() && 0 <= j < orig[s].base().transitions@.len()
            implies #[trigger] b[s].base().transitions@[j]
            == orig[s].base().transitions@[j] by {
        assert(a[s].base().transitions@[j] == orig[s].base().transitions@[j]);
        assert(orig[s].base().transitions@.len() <= a[s].base().transitions@.len());
        assert(b[s].base().transitions@[j] == a[s].base().transitions@[j]);
    }
    assert forall|e: int| 0 <= e < m implies {
        let s = #[trigger] d[base + 6 * e] as int;
        let t = b[s].base().transitions@;
        let k = (orig[s].base().transitions@.len() + edge_count(d, base, s, e as nat)) as int;
        &&& 0 <= s < b.len()
        &&& k < t.len()
        &&& t[k].built_from(
            d[base + 6 * e + 2],
            d[base + 6 * e + 1] as usize,
            d[base + 6 * e + 3] as isize,
            d[base + 6 * e + 4] as isize,
            d[base + 6 * e + 5] as isize,
            sets,
        )
    } by {
        let s = d[base + 6 * e] as int;
        let k = (orig[s].base().transitions@.len() + edge_count(d, base, s, e as nat)) as int;
        assert(k < a[s].base().transitions@.len());
        assert(b[s].base().transitions@[k] == a[s].base().transitions@[k]);
    }
}

/// Changing only state `x`, whose transitions grow, extends transitions.
pub proof fn lemma_extend_step(a: Seq<ATNState>, b: Seq<ATNState>, x: int)
    requires
        a.len() == b.len(),
        0 <= x < a.len(),
        b == a.update(x, b[x]),
        a[x].base().transitions@.len() <= b[x].base().transitions@.len(),
        forall|j: int| 0 <= j < a[x].base().transitions@.len() ==> b[x].base().transitions@[j]
            == a[x].base().transitions@[j],
    ensures
        transitions_extend(a, b),
{
    assert forall|s: int| 0 <= s < a.len() implies a[s].base().transitions@.len()
        <= (#[trigger] b[s]).base().transitions@.len() by {
        if s != x {
            assert(b[s] == a[s]);
        }
    }
    assert forall|s: int, j: int|
        0 <= s < a.len() && 0 <= j < a[s].base().transitions@.len()
            implies #[trigger] b[s].base().transitions@[j]
            == a[s].base().transitions@[j] by {
        if s != x {
            assert(b[s] == a[s]);
        }
    }
}

/// Appending record `e`'s transition to its source attaches one more record.
pub proof fn lemma_attach_step(
    before: Seq<ATNState>,
    after: Seq<ATNState>,
    orig: Seq<ATNState>,
    d: Seq<i32>,
    bb: int,
    e: nat,
    sets: Seq<Rc<IntervalSet>>,
    src: int,
    t0: Transition,
)
    requires
        0 <= src < before.len(),
        after.len() == before.len(),
        orig.len() == before.len(),
        after == before.update(src, after[src]),
        after[src].base().transitions@ == before[src].base().transitions@.push(t0),
        d[bb + 6 * e] == src,
        t0.built_from(
            d[bb + 6 * e + 2],
            d[bb + 6 * e + 1] as usize,
            d[bb + 6 * e + 3] as isize,
            d[bb + 6 * e + 4] as isize,
            d[bb + 6 * e + 5] as isize,
            sets,
        ),
        transitions_extend(orig, before),
        edges_attached(before, orig, d, bb, e, sets),
        forall|s: int|
            0 <= s < before.len() ==> (#[trigger] before[s]).base().transitions@.len()
                == orig[s].base().transitions@.len() + edge_count(d, bb, s, e),
    ensures
        transitions_extend(orig, after),
        edges_attached(after, orig, d, bb, e + 1, sets),
        forall|s: int|
            0 <= s < after.len() ==> (#[trigger] after[s]).base().transitions@.len()
                == orig[s].base().transitions@.len() + edge_count(d, bb, s, e + 1),
{
    lemma_extend_step(before, after, src);
    lemma_edges_kept(before, after, orig, d, bb, e, sets);
    assert forall|s: int| 0 <= s < after.len()
        implies (#[trigger] after[s]).base().transitions@.len()
        == orig[s].base().transitions@.len() + edge_count(d, bb, s, e + 1) by {
        assert(before[s].base().transitions@.len() == orig[s].base().transitions@.len()
            + edge_count(d, bb, s, e));
        if s != src {
            assert(after[s] == before[s]);
        }
    }
    assert forall|e2: int| 0 <= e2 < e + 1 implies {
        let s = #[trigger] d[bb + 6 * e2] as int;
        let t = after[s].base().transitions@;
        let k = (orig[s].base().transitions@.len() + edge_count(d, bb, s, e2 as nat)) as int;
        &&& 0 <= s < after.len()
        &&& k < t.len()
        &&& t[k].built_from(
            d[bb + 6 * e2 + 2],
            d[bb + 6 * e2 + 1] as usize,
            d[bb + 6 * e2 + 3] as isize,
            d[bb + 6 * e2 + 4] as isize,
            d[bb + 6 * e2 + 5] as isize,
            sets,
        )
    } by {
        if e2 == e {
            assert(before[src].base().transitions@.len() == orig[src].base().transitions@.len()
                + edge_count(d, bb, src, e));
            assert(after[src].base().transitions@[before[src].base().transitions@.len() as int]
                == t0);
        }
    }
}

/// Where the lexer-action section starts (it follows the decisions).
pub open spec fn actions_section(d: Seq<i32>) -> int {
    decisions_section(d) + 1 + d[decisions_section(d)]
}

/// Where the encoding ends: past the decisions, and for a lexer past its
/// actions, three integers each.
pub open spec fn encoding_end(d: Seq<i32>) -> int {
    if d[1] == 0 {
        actions_section(d) + 1 + 3 * d[actions_section(d)]
    } else {
        actions_section(d)
    }
}

/// A plus loopback (`plus`) or a star loopback.
pub open spec fn loopback_kind(s: ATNState, plus: bool) -> bool {
    if plus {
        s is PlusLoopback
    } else {
        s is StarLoopback
    }
}

/// A plus-block start (`plus`) or a star-loop entry.
pub open spec fn loop_entry_kind(s: ATNState, plus: bool) -> bool {
    if plus {
        s is PlusBlockStart
    } else {
        s is StarLoopEntry
    }
}

/// Whether the loop entry has its loopback recorded, and which.
pub open spec fn loopback_of(s: ATNState, plus: bool) -> (bool, usize) {
    if plus {
        (s->PlusBlockStart_0.contrast_set, s->PlusBlockStart_0.plus_loopback_state_nth)
    } else {
        (s->StarLoopEntry_0.contrast_set, s->StarLoopEntry_0.star_loopback_state_nth)
    }
}

/// Transition `k` of the loopback at `p` leads to a loop entry of its group.
pub open spec fn loop_edge(s: Seq<ATNState>, p: int, k: int, plus: bool) -> bool {
    let t = s[p].base().transitions@;
    &&& 0 <= p < s.len()
    &&& loopback_kind(s[p], plus)
    &&& 0 <= k < t.len()
    &&& t[k].target() < s.len()
    &&& loop_entry_kind(s[t[k].target() as int], plus)
}

/// The loop entry at `q` records a loopback of its group that has a
/// transition to `q`.
pub open spec fn loopback_recorded(s: Seq<ATNState>, q: int, plus: bool) -> bool {
    let l = loopback_of(s[q], plus).1 as int;
    &&& loopback_of(s[q], plus).0
    &&& 0 <= l < s.len()
    &&& loopback_kind(s[l], plus)
    &&& exists|k: int|
        0 <= k < s[l].base().transitions@.len()
            && #[trigger] s[l].base().transitions@[k].target() == q
}

/// Every loop edge of the group leads to an entry that records a loopback.
pub open spec fn loopbacks_recorded(s: Seq<ATNState>, plus: bool) -> bool {
    forall|p: int, k: int|
        #[trigger] loop_edge(s, p, k, plus) ==> loopback_recorded(
            s,
            s[p].base().transitions@[k].target() as int,
            plus,
        )
}

/// `b` has the kinds and the transitions of `a`.
pub open spec fn links_frame(a: Seq<ATNState>, b: Seq<ATNState>) -> bool {
    &&& a.len() == b.len()
    &&& forall|i: int|
        0 <= i < a.len() ==> (#[trigger] b[i]).kind() == a[i].kind() && b[i].base().transitions@
            == a[i].base().transitions@
}

pub proof fn lemma_loop_edge_frame(a: Seq<ATNState>, b: Seq<ATNState>, p: int, k: int, plus: bool)
    requires
        links_frame(a, b),
    ensures
        loop_edge(a, p, k, plus) == loop_edge(b, p, k, plus),
        0 <= p < a.len() ==> b[p].base().transitions@ == a[p].base().transitions@,
{
    if 0 <= p < a.len() {
        assert(b[p].kind() == a[p].kind());
        lemma_same_kind(a[p], b[p]);
        let t = a[p].base().transitions@;
        if 0 <= k < t.len() && t[k].target() < a.len() {
            let q = t[k].target() as int;
            assert(b[q].kind() == a[q].kind());
            lemma_same_kind(a[q], b[q]);
        }
    }
}

pub proof fn lemma_recorded_kept(a: Seq<ATNState>, b: Seq<ATNState>, q: int, plus: bool)
    requires
        links_frame(a, b),
        0 <= q < a.len(),
        loopback_of(b[q], plus) == loopback_of(a[q], plus),
        loopback_recorded(a, q, plus),
    ensures
        loopback_recorded(b, q, plus),
{
    let l = loopback_of(a[q], plus).1 as int;
    assert(b[l].kind() == a[l].kind());
    lemma_same_kind(a[l], b[l]);
    let k = choose|k: int|
        0 <= k < a[l].base().transitions@.len() && #[trigger] a[l].base().transitions@[k].target()
            == q;
    assert(b[l].base().transitions@ == a[l].base().transitions@);
    assert(b[l].base().transitions@[k].target() == q);
}

/// `b` is `a` with at most its precedence-decision mark changed.
pub open spec fn only_mark_changed(a: ATNState, b: ATNState) -> bool {
    if a is StarLoopEntry {
        b == ATNState::StarLoopEntry(
            StarLoopEntryState {
                precedence_decision: b->StarLoopEntry_0.precedence_decision,
                ..a->StarLoopEntry_0
            },
        )
    } else {
        b == a
    }
}

/// `b` has the kind of `a` and keeps the back-references that it read or
/// derived before the edges: a rule start's stop and flags, a loop end's
/// loopback, a block start's end.
pub open spec fn refs_same(a: ATNState, b: ATNState) -> bool {
    &&& b.kind() == a.kind()
    &&& a is RuleStart ==> b->RuleStart_0.rule_stop_state_nth == a->RuleStart_0.rule_stop_state_nth
        && b->RuleStart_0.contrast_set == a->RuleStart_0.contrast_set
        && b->RuleStart_0.left_recursive == a->RuleStart_0.left_recursive
    &&& a is LoopEnd ==> b->LoopEnd_0.loopback_state_nth == a->LoopEnd_0.loopback_state_nth
        && b->LoopEnd_0.contrast_set == a->LoopEnd_0.contrast_set
    &&& a.is_block_start_kind() ==> b.block_start_part().block_end_state_nth
        == a.block_start_part().block_end_state_nth && b.block_start_part().contrast_set
        == a.block_start_part().contrast_set
}

/// Every state of `b` keeps the back-references of the same state of `a`.
pub open spec fn back_refs_kept(a: Seq<ATNState>, b: Seq<ATNState>) -> bool {
    &&& a.len() == b.len()
    &&& forall|i: int| 0 <= i < a.len() ==> refs_same(a[i], #[trigger] b[i])
}

pub proof fn lemma_refs_step(o: Seq<ATNState>, a: Seq<ATNState>, b: Seq<ATNState>, x: int)
    requires
        back_refs_kept(o, a),
        0 <= x < a.len(),
        b == a.update(x, b[x]),
        refs_same(a[x], b[x]),
    ensures
        back_refs_kept(o, b),
{
    assert forall|i: int| 0 <= i < o.len() implies refs_same(o[i], #[trigger] b[i]) by {
        assert(refs_same(o[i], a[i]));
        if i == x {
            lemma_same_kind(o[i], a[i]);
        } else {
            assert(b[i] == a[i]);
        }
    }
}

/// The epsilon transition back to `follow`, tagged `opr`.
pub open spec fn return_transition(follow: usize, opr: isize) -> Transition {
    Transition::Epsilon(
        EpsilonTransition {
            base: BaseTransition { target_nth: follow, trans_type: TRANSITION_EPSILON },
            outermost_precedence_return: opr,
        },
    )
}

/// The return edge that the rule call at transition `k` of state `i` asks
/// for: from the called rule's stop state back to the call's follow state,
/// tagged with the rule when the rule is left-recursive and the call's
/// precedence is 0, else -1.
pub open spec fn return_edge(
    s: Seq<ATNState>,
    starts: Seq<usize>,
    stops: Seq<usize>,
    i: int,
    k: int,
) -> (usize, usize, isize) {
    let rt = s[i].base().transitions@[k]->Rule_0;
    let t = rt.base.target_nth as int;
    let r = s[t].base().rule_idx as int;
    let st = s[starts[r] as int];
    let lr = st is RuleStart && st->RuleStart_0.left_recursive;
    if 0 <= t < s.len() && r < starts.len() && r < stops.len() && starts[r] < s.len() {
        (stops[r], rt.follow_state_nth, if lr && rt.precedence == 0 { r as isize } else { -1isize })
    } else {
        (0usize, 0usize, 0isize)
    }
}

/// The return edges that the rule calls among the first `k` transitions of
/// state `i` ask for, in order.
pub open spec fn state_returns(
    s: Seq<ATNState>,
    starts: Seq<usize>,
    stops: Seq<usize>,
    i: int,
    k: nat,
) -> Seq<(usize, usize, isize)>
    decreases k,
{
    if k == 0 {
        Seq::empty()
    } else {
        let prev = state_returns(s, starts, stops, i, (k - 1) as nat);
        if s[i].base().transitions@[k - 1] is Rule {
            prev.push(return_edge(s, starts, stops, i, k - 1))
        } else {
            prev
        }
    }
}

/// The return edges that the rule calls of the first `n` states ask for, in
/// state order, then transition order.
pub open spec fn all_returns(s: Seq<ATNState>, starts: Seq<usize>, stops: Seq<usize>, n: nat) -> Seq<
    (usize, usize, isize),
>
    decreases n,
{
    if n == 0 {
        Seq::empty()
    } else {
        all_returns(s, starts, stops, (n - 1) as nat) + state_returns(
            s,
            starts,
            stops,
            n - 1,
            s[n - 1].base().transitions@.len(),
        )
    }
}

/// The return transitions of `es` that leave state `q`, in order.
pub open spec fn returns_to(es: Seq<(usize, usize, isize)>, q: int) -> Seq<Transition>
    decreases es.len(),
{
    if es.len() == 0 {
        Seq::empty()
    } else {
        let prev = returns_to(es.drop_last(), q);
        if es.last().0 == q {
            prev.push(return_transition(es.last().1, es.last().2))
        } else {
            prev
        }
    }
}

pub proof fn lemma_return_edge_same(
    o: Seq<ATNState>,
    a: Seq<ATNState>,
    b: Seq<ATNState>,
    starts: Seq<usize>,
    stops: Seq<usize>,
    i: int,
    k: int,
)
    requires
        skeleton_kept(o, a),
        skeleton_kept(o, b),
        back_refs_kept(o, a),
        back_refs_kept(o, b),
        0 <= i < a.len(),
        0 <= k < a[i].base().transitions@.len(),
        k < b[i].base().transitions@.len(),
        b[i].base().transitions@[k] == a[i].base().transitions@[k],
    ensures
        return_edge(a, starts, stops, i, k) == return_edge(b, starts, stops, i, k),
{
    let rt = a[i].base().transitions@[k]->Rule_0;
    let t = rt.base.target_nth as int;
    if 0 <= t < a.len() {
        assert(a[t].base().rule_idx == o[t].base().rule_idx);
        assert(b[t].base().rule_idx == o[t].base().rule_idx);
        let r = a[t].base().rule_idx as int;
        if r < starts.len() && starts[r] < a.len() {
            let x = starts[r] as int;
            assert(refs_same(o[x], a[x]) && refs_same(o[x], b[x]));
            lemma_same_kind(o[x], a[x]);
            lemma_same_kind(o[x], b[x]);
        }
    }
}

pub proof fn lemma_state_returns_same(
    o: Seq<ATNState>,
    a: Seq<ATNState>,
    b: Seq<ATNState>,
    starts: Seq<usize>,
    stops: Seq<usize>,
    i: int,
    k: nat,
)
    requires
        skeleton_kept(o, a),
        skeleton_kept(o, b),
        back_refs_kept(o, a),
        back_refs_kept(o, b),
        0 <= i < a.len(),
        k <= a[i].base().transitions@.len(),
        k <= b[i].base().transitions@.len(),
        forall|j: int| 0 <= j < k ==> b[i].base().transitions@[j] == a[i].base().transitions@[j],
    ensures
        state_returns(a, starts, stops, i, k) == state_returns(b, starts, stops, i, k),
    decreases k,
{
    if k > 0 {
        lemma_state_returns_same(o, a, b, starts, stops, i, (k - 1) as nat);
        lemma_return_edge_same(o, a, b, starts, stops, i, k - 1);
    }
}

pub proof fn lemma_state_returns_tail(
    b: Seq<ATNState>,
    starts: Seq<usize>,
    stops: Seq<usize>,
    i: int,
    k0: nat,
    k: nat,
)
    requires
        k0 <= k,
        forall|j: int| k0 <= j < k ==> !(b[i].base().transitions@[j] is Rule),
    ensures
        state_returns(b, starts, stops, i, k) == state_returns(b, starts, stops, i, k0),
    decreases k,
{
    if k > k0 {
        lemma_state_returns_tail(b, starts, stops, i, k0, (k - 1) as nat);
    }
}

/// Adding transitions that are no rule calls after each state's own keeps
/// the return edges asked for.
pub proof fn lemma_all_returns_same(
    o: Seq<ATNState>,
    a: Seq<ATNState>,
    b: Seq<ATNState>,
    starts: Seq<usize>,
    stops: Seq<usize>,
    n: nat,
)
    requires
        skeleton_kept(o, a),
        skeleton_kept(o, b),
        back_refs_kept(o, a),
        back_refs_kept(o, b),
        n <= a.len(),
        forall|i: int|
            0 <= i < n ==> a[i].base().transitions@.len() <= (#[trigger] b[i]).base().transitions@.len(),
        forall|i: int, j: int|
            0 <= i < n && 0 <= j < a[i].base().transitions@.len()
                ==> #[trigger] b[i].base().transitions@[j] == a[i].base().transitions@[j],
        forall|i: int, j: int|
            0 <= i < n && a[i].base().transitions@.len() <= j < b[i].base().transitions@.len()
                ==> !(#[trigger] b[i].base().transitions@[j] is Rule),
    ensures
        all_returns(a, starts, stops, n) == all_returns(b, starts, stops, n),
    decreases n,
{
    if n > 0 {
        let i = n - 1;
        lemma_all_returns_same(o, a, b, starts, stops, (n - 1) as nat);
        let la = a[i].base().transitions@.len();
        assert(la <= b[i].base().transitions@.len());
        lemma_state_returns_same(o, a, b, starts, stops, i, la);
        lemma_state_returns_tail(b, starts, stops, i, la, b[i].base().transitions@.len());
    }
}

pub proof fn lemma_returns_to_epsilon(es: Seq<(usize, usize, isize)>, q: int)
    ensures
        forall|j: int| 0 <= j < returns_to(es, q).len() ==> #[trigger] returns_to(es, q)[j] is Epsilon,
    decreases es.len(),
{
    if es.len() > 0 {
        lemma_returns_to_epsilon(es.drop_last(), q);
    }
}

pub proof fn lemma_decision_code(s: ATNState)
    ensures
        s.is_decision_kind() == decision_kind_code(s.kind()),
        (s is RuleStart) == (s.kind() == ATN_STATE_RULE_START),
{
}

/// Where the interval-set section starts (it follows the modes).
pub open spec fn sets_section(d: Seq<i32>) -> int {
    modes_section(d) + 1 + d[modes_section(d)]
}

/// Every count that the reader reads is non-negative and every section,
/// count and records, lies inside the data: a cut encoding is no such
/// encoding.
pub open spec fn encoding_in_data(d: Seq<i32>) -> bool {
    let rs = rules_section(d);
    let ms = modes_section(d);
    let ss = sets_section(d);
    let es = edges_section(d);
    let ds = decisions_section(d);
    let as_ = actions_section(d);
    &&& states_section_ok(d, 3)
    &&& 0 <= rs < d.len() && d[rs] >= 0 && rule_record_pos(rs, d[1] == 0, d[rs] as int) <= d.len()
    &&& 0 <= ms < d.len() && d[ms] >= 0 && ms + 1 + d[ms] <= d.len()
    &&& 0 <= ss < d.len() && d[ss] >= 0 && sets_fit(d, ss + 1, d[ss] as nat)
    &&& 0 <= es < d.len() && d[es] >= 0 && es + 1 + 6 * d[es] <= d.len()
    &&& 0 <= ds < d.len() && d[ds] >= 0 && ds + 1 + d[ds] <= d.len()
    &&& d[1] == 0 ==> 0 <= as_ < d.len() && d[as_] >= 0 && as_ + 1 + 3 * d[as_] <= d.len()
}

} // verus!
