use vstd::prelude::*;
use crate::Nth;
use crate::transition::Transition;

verus! {

pub type ATNStateType = i32;

pub const ATN_STATE_BASIC: ATNStateType = 1;

/// The entry of a rule.
pub const ATN_STATE_RULE_START: ATNStateType = 2;

/// The start of a plain `(...)` block.
pub const ATN_STATE_BLOCK_START: ATNStateType = 3;

/// The start of a `(A|B|...)+` loop.
pub const ATN_STATE_PLUS_BLOCK_START: ATNStateType = 4;

/// The block that begins a `(A|B|...)*` loop.
pub const ATN_STATE_STAR_BLOCK_START: ATNStateType = 5;

/// The start of a lexer mode, linking to each lexer rule start state.
pub const ATN_STATE_TOKEN_START: ATNStateType = 6;

/// The last state of a rule.
pub const ATN_STATE_RULE_STOP: ATNStateType = 7;

/// The end of a `(a|b|c)` block.
pub const ATN_STATE_BLOCK_END: ATNStateType = 8;

/// The state that goes back to the entry of a `*` loop.
pub const ATN_STATE_STAR_LOOPBACK: ATNStateType = 9;

/// The decision of a `*` loop: enter the block again or leave.
pub const ATN_STATE_STAR_LOOP_ENTRY: ATNStateType = 10;

/// The decision of a `+` loop: back to the start of the block, or leave.
pub const ATN_STATE_PLUS_LOOPBACK: ATNStateType = 11;

/// The end of a `*` or `+` loop.
pub const ATN_STATE_LOOP_END: ATNStateType = 12;

/// Whether `t` is the tag of a state kind.
pub open spec fn valid_state_type(t: ATNStateType) -> bool {
    ATN_STATE_BASIC <= t <= ATN_STATE_LOOP_END
}

/// What every state has: its position, its kind, its rule, its outgoing
/// transitions in order, and whether all of them move without input.
#[derive(Debug)]
pub struct BaseATNState {
    pub state_nth: Nth,
    pub state_type: ATNStateType,
    pub rule_idx: usize,
    pub transitions: Vec<Transition>,
    pub epsilon_only_trans: bool,
}

impl BaseATNState {
    /// The state has no transition yet, or its flag says whether all of its
    /// transitions are epsilon-like.
    pub open spec fn epsilon_flag_ok(&self) -> bool {
        self.epsilon_only_trans == (self.transitions@.len() > 0 && forall|i: int|
            0 <= i < self.transitions@.len() ==> #[trigger] self.transitions@[i].epsilon_like())
    }

    pub open spec fn fresh(&self, state_type: ATNStateType, rule_idx: usize, state_nth: Nth) -> bool {
        &&& self.state_type == state_type
        &&& self.rule_idx == rule_idx
        &&& self.state_nth == state_nth
        &&& self.transitions@.len() == 0
        &&& !self.epsilon_only_trans
    }

    pub fn new(state_type: ATNStateType, rule_idx: usize, state_nth: Nth) -> (r: Self)
        ensures
            r.fresh(state_type, rule_idx, state_nth),
    {
        Self { state_type, rule_idx, state_nth, transitions: Vec::new(), epsilon_only_trans: false }
    }
}

/// One state of the automaton. The variants that stand for a pair (block
/// start and end, loop entry and loopback, rule start and stop) hold the
/// position of their partner.
#[derive(Debug)]
pub enum ATNState {
    Basic(BaseATNState),
    RuleStart(RuleStartState),
    BlockStart(BlockStartState),
    PlusBlockStart(PlusBlockStartState),
    StarBlockStart(StarBlockStartState),
    TokenStart(TokenStartState),
    RuleStop(RuleStopState),
    BlockEnd(BlockEndState),
    StarLoopback(StarLoopbackState),
    StarLoopEntry(StarLoopEntryState),
    PlusLoopback(PlusLoopbackState),
    LoopEnd(LoopEndState),
}

impl ATNState {
    pub open spec fn kind(&self) -> ATNStateType {
        match self {
            ATNState::Basic(_) => ATN_STATE_BASIC,
            ATNState::RuleStart(_) => ATN_STATE_RULE_START,
            ATNState::BlockStart(_) => ATN_STATE_BLOCK_START,
            ATNState::PlusBlockStart(_) => ATN_STATE_PLUS_BLOCK_START,
            ATNState::StarBlockStart(_) => ATN_STATE_STAR_BLOCK_START,
            ATNState::TokenStart(_) => ATN_STATE_TOKEN_START,
            ATNState::RuleStop(_) => ATN_STATE_RULE_STOP,
            ATNState::BlockEnd(_) => ATN_STATE_BLOCK_END,
            ATNState::StarLoopback(_) => ATN_STATE_STAR_LOOPBACK,
            ATNState::StarLoopEntry(_) => ATN_STATE_STAR_LOOP_ENTRY,
            ATNState::PlusLoopback(_) => ATN_STATE_PLUS_LOOPBACK,
            ATNState::LoopEnd(_) => ATN_STATE_LOOP_END,
        }
    }

    pub open spec fn base(&self) -> BaseATNState {
        match self {
            ATNState::Basic(b) => *b,
            ATNState::RuleStart(rs) => rs.base,
            ATNState::BlockStart(bs) => bs.base.base,
            ATNState::PlusBlockStart(pbs) => pbs.base.base.base,
            ATNState::StarBlockStart(sbs) => sbs.base.base.base,
            ATNState::TokenStart(ts) => ts.base.base,
            ATNState::RuleStop(rs) => rs.base,
            ATNState::BlockEnd(be) => be.base,
            ATNState::StarLoopback(slb) => slb.base,
            ATNState::StarLoopEntry(sle) => sle.base.base,
            ATNState::PlusLoopback(plb) => plb.base.base,
            ATNState::LoopEnd(le) => le.base,
        }
    }

    /// The same state with its common part replaced by `b`.
    pub open spec fn with_base(self, b: BaseATNState) -> ATNState {
        match self {
            ATNState::Basic(_) => ATNState::Basic(b),
            ATNState::RuleStart(rs) => ATNState::RuleStart(RuleStartState { base: b, ..rs }),
            ATNState::BlockStart(bs) => ATNState::BlockStart(
                BlockStartState { base: DecisionState { base: b, ..bs.base }, ..bs },
            ),
            ATNState::PlusBlockStart(pbs) => ATNState::PlusBlockStart(
                PlusBlockStartState {
                    base: BlockStartState {
                        base: DecisionState { base: b, ..pbs.base.base },
                        ..pbs.base
                    },
                    ..pbs
                },
            ),
            ATNState::StarBlockStart(sbs) => ATNState::StarBlockStart(
                StarBlockStartState {
                    base: BlockStartState {
                        base: DecisionState { base: b, ..sbs.base.base },
                        ..sbs.base
                    },
                },
            ),
            ATNState::TokenStart(ts) => ATNState::TokenStart(
                TokenStartState { base: DecisionState { base: b, ..ts.base } },
            ),
            ATNState::RuleStop(_) => ATNState::RuleStop(RuleStopState { base: b }),
            ATNState::BlockEnd(be) => ATNState::BlockEnd(BlockEndState { base: b, ..be }),
            ATNState::StarLoopback(_) => ATNState::StarLoopback(StarLoopbackState { base: b }),
            ATNState::StarLoopEntry(sle) => ATNState::StarLoopEntry(
                StarLoopEntryState { base: DecisionState { base: b, ..sle.base }, ..sle },
            ),
            ATNState::PlusLoopback(plb) => ATNState::PlusLoopback(
                PlusLoopbackState { base: DecisionState { base: b, ..plb.base } },
            ),
            ATNState::LoopEnd(le) => ATNState::LoopEnd(LoopEndState { base: b, ..le }),
        }
    }

    /// Block start, plus-block start and star-block start.
    pub open spec fn is_block_start_kind(&self) -> bool {
        self is BlockStart || self is PlusBlockStart || self is StarBlockStart
    }

    pub open spec fn block_start_part(&self) -> BlockStartState
        recommends
            self.is_block_start_kind(),
    {
        match self {
            ATNState::PlusBlockStart(pbs) => pbs.base,
            ATNState::StarBlockStart(sbs) => sbs.base,
            _ => self->BlockStart_0,
        }
    }

    pub open spec fn with_block_start(self, bs: BlockStartState) -> ATNState {
        match self {
            ATNState::BlockStart(_) => ATNState::BlockStart(bs),
            ATNState::PlusBlockStart(pbs) => ATNState::PlusBlockStart(
                PlusBlockStartState { base: bs, ..pbs },
            ),
            ATNState::StarBlockStart(_) => ATNState::StarBlockStart(StarBlockStartState { base: bs }),
            _ => self,
        }
    }

    /// The kinds at which a choice between alternatives is made.
    pub open spec fn is_decision_kind(&self) -> bool {
        self.is_block_start_kind() || self is TokenStart || self is StarLoopEntry
            || self is PlusLoopback
    }

    pub open spec fn decision_part(&self) -> DecisionState
        recommends
            self.is_decision_kind(),
    {
        match self {
            ATNState::TokenStart(t) => t.base,
            ATNState::StarLoopEntry(s) => s.base,
            ATNState::PlusLoopback(p) => p.base,
            _ => self.block_start_part().base,
        }
    }

    pub open spec fn with_decision(self, d: DecisionState) -> ATNState {
        match self {
            ATNState::BlockStart(b) => ATNState::BlockStart(BlockStartState { base: d, ..b }),
            ATNState::PlusBlockStart(p) => ATNState::PlusBlockStart(
                PlusBlockStartState { base: BlockStartState { base: d, ..p.base }, ..p },
            ),
            ATNState::StarBlockStart(s) => ATNState::StarBlockStart(
                StarBlockStartState { base: BlockStartState { base: d, ..s.base } },
            ),
            ATNState::TokenStart(_) => ATNState::TokenStart(TokenStartState { base: d }),
            ATNState::StarLoopEntry(s) => ATNState::StarLoopEntry(
                StarLoopEntryState { base: d, ..s },
            ),
            ATNState::PlusLoopback(_) => ATNState::PlusLoopback(PlusLoopbackState { base: d }),
            _ => self,
        }
    }

    /// What a state of kind `state_type` is when just built: no transition,
    /// no partner recorded, no decision assigned, no flag set.
    pub open spec fn fresh(&self, state_type: ATNStateType, rule_idx: usize, state_nth: Nth) -> bool {
        &&& self.kind() == state_type
        &&& self.base().fresh(state_type, rule_idx, state_nth)
        &&& self.is_decision_kind() ==> self.decision_part().decision == -1
            && !self.decision_part().non_greedy
        &&& self.is_block_start_kind() ==> self.block_start_part().block_end_state_nth == 0
            && !self.block_start_part().contrast_set
        &&& self is RuleStart ==> self->RuleStart_0.rule_stop_state_nth == 0
            && !self->RuleStart_0.contrast_set && !self->RuleStart_0.left_recursive
        &&& self is PlusBlockStart ==> self->PlusBlockStart_0.plus_loopback_state_nth == 0
            && !self->PlusBlockStart_0.contrast_set
        &&& self is BlockEnd ==> self->BlockEnd_0.block_start_state_nth == 0
            && !self->BlockEnd_0.contrast_set
        &&& self is StarLoopEntry ==> self->StarLoopEntry_0.star_loopback_state_nth == 0
            && !self->StarLoopEntry_0.contrast_set && !self->StarLoopEntry_0.precedence_decision
        &&& self is LoopEnd ==> self->LoopEnd_0.loopback_state_nth == 0
            && !self->LoopEnd_0.contrast_set
    }

    /// Whether `state_type` names a kind of state.
    pub fn check_type(state_type: ATNStateType) -> (r: bool)
        ensures
            r == valid_state_type(state_type),
    {
        ATN_STATE_BASIC <= state_type && state_type <= ATN_STATE_LOOP_END
    }

    /// A new state of the kind `state_type`.
    pub fn new(state_type: ATNStateType, rule_idx: usize, state_nth: Nth) -> (r: Self)
        requires
            valid_state_type(state_type),
        ensures
            r.fresh(state_type, rule_idx, state_nth),
    {
        match state_type {
            ATN_STATE_BASIC => Self::new_basic(rule_idx, state_nth),
            ATN_STATE_RULE_START => Self::new_rule_start(rule_idx, state_nth),
            ATN_STATE_BLOCK_START => Self::new_block_start(rule_idx, state_nth),
            ATN_STATE_PLUS_BLOCK_START => Self::new_plus_block_start(rule_idx, state_nth),
            ATN_STATE_STAR_BLOCK_START => Self::new_star_block_start(rule_idx, state_nth),
            ATN_STATE_TOKEN_START => Self::new_token_start(rule_idx, state_nth),
            ATN_STATE_RULE_STOP => Self::new_rule_stop(rule_idx, state_nth),
            ATN_STATE_BLOCK_END => Self::new_block_end(rule_idx, state_nth),
            ATN_STATE_STAR_LOOPBACK => Self::new_star_loopback(rule_idx, state_nth),
            ATN_STATE_STAR_LOOP_ENTRY => Self::new_star_loop_entry(rule_idx, state_nth),
            ATN_STATE_PLUS_LOOPBACK => Self::new_plus_loopback(rule_idx, state_nth),
            _ => Self::new_loop_end(rule_idx, state_nth),
        }
    }

    pub fn base_atn_state(&self) -> (r: &BaseATNState)
        ensures
            *r == self.base(),
    {
        match self {
            ATNState::Basic(b) => b,
            ATNState::RuleStart(rs) => &rs.base,
            ATNState::BlockStart(bs) => &bs.base.base,
            ATNState::PlusBlockStart(pbs) => &pbs.base.base.base,
            ATNState::StarBlockStart(sbs) => &sbs.base.base.base,
            ATNState::TokenStart(ts) => &ts.base.base,
            ATNState::RuleStop(rs) => &rs.base,
            ATNState::BlockEnd(be) => &be.base,
            ATNState::StarLoopback(slb) => &slb.base,
            ATNState::StarLoopEntry(sle) => &sle.base.base,
            ATNState::PlusLoopback(plb) => &plb.base.base,
            ATNState::LoopEnd(le) => &le.base,
        }
    }

    pub fn base_atn_state_mut(&mut self) -> (r: &mut BaseATNState)
        ensures
            *r == old(self).base(),
            *final(self) == old(self).with_base(*final(r)),
    {
        match self {
            ATNState::Basic(b) => b,
            ATNState::RuleStart(rs) => &mut rs.base,
            ATNState::BlockStart(bs) => &mut bs.base.base,
            ATNState::PlusBlockStart(pbs) => &mut pbs.base.base.base,
            ATNState::StarBlockStart(sbs) => &mut sbs.base.base.base,
            ATNState::TokenStart(ts) => &mut ts.base.base,
            ATNState::RuleStop(rs) => &mut rs.base,
            ATNState::BlockEnd(be) => &mut be.base,
            ATNState::StarLoopback(slb) => &mut slb.base,
            ATNState::StarLoopEntry(sle) => &mut sle.base.base,
            ATNState::PlusLoopback(plb) => &mut plb.base.base,
            ATNState::LoopEnd(le) => &mut le.base,
        }
    }

    /// Adds `transition` at the end (`idx == -1`) or at position `idx`, and
    /// keeps the epsilon-only flag: it holds when the first transition is
    /// epsilon-like, and falls as soon as one that is not comes in.
    pub fn add_transition(&mut self, transition: Transition, idx: isize)
        requires
            idx == -1 || 0 <= idx <= old(self).base().transitions@.len(),
        ensures
            *final(self) == old(self).with_base(final(self).base()),
            final(self).base().state_nth == old(self).base().state_nth,
            final(self).base().state_type == old(self).base().state_type,
            final(self).base().rule_idx == old(self).base().rule_idx,
            final(self).base().transitions@ == if idx == -1 {
                old(self).base().transitions@.push(transition)
            } else {
                old(self).base().transitions@.insert(idx as int, transition)
            },
            final(self).base().epsilon_only_trans == if old(self).base().transitions@.len() == 0 {
                transition.epsilon_like()
            } else {
                old(self).base().epsilon_only_trans && transition.epsilon_like()
            },
            old(self).base().epsilon_flag_ok() ==> final(self).base().epsilon_flag_ok(),
    {
        let ghost old_base = self.base();
        let base = self.base_atn_state_mut();
        if base.transitions.len() == 0 {
            base.epsilon_only_trans = transition.is_epsilon();
        } else if !transition.is_epsilon() {
            base.epsilon_only_trans = false;
        }
        if idx == -1 {
            base.transitions.push(transition);
        } else {
            base.transitions.insert(idx as usize, transition);
        }
        proof {
            let nb = base.transitions@;
            if old_base.epsilon_flag_ok() && base.epsilon_only_trans {
                assert forall|i: int| 0 <= i < nb.len() implies #[trigger] nb[i].epsilon_like() by {
                    if idx == -1 {
                        if i < old_base.transitions@.len() {
                            assert(old_base.transitions@[i].epsilon_like());
                        }
                    } else {
                        if i < idx {
                            assert(old_base.transitions@[i].epsilon_like());
                        } else if i > idx {
                            assert(old_base.transitions@[i - 1].epsilon_like());
                        }
                    }
                }
            }
            if old_base.epsilon_flag_ok() && !base.epsilon_only_trans && nb.len() > 0 {
                if old_base.transitions@.len() > 0 && !old_base.epsilon_only_trans {
                    let k = choose|k: int| 0 <= k < old_base.transitions@.len()
                        && !#[trigger] old_base.transitions@[k].epsilon_like();
                    if idx == -1 || k < idx {
                        assert(!nb[k].epsilon_like());
                    } else {
                        assert(!nb[k + 1].epsilon_like());
                    }
                } else {
                    let j: int = if idx
                        == -1 { old_base.transitions@.len() as int } else { idx as int };
                    assert(!nb[j].epsilon_like());
                }
            }
        }
    }

    pub fn rule_index(&self) -> (r: usize)
        ensures
            r == self.base().rule_idx,
    {
        self.base_atn_state().rule_idx
    }

    pub fn transitions(&self) -> (r: &Vec<Transition>)
        ensures
            r@ == self.base().transitions@,
    {
        &self.base_atn_state().transitions
    }

    pub fn instance_of_block_start(&self) -> (r: bool)
        ensures
            r == self.is_block_start_kind(),
    {
        match self {
            ATNState::BlockStart(_) | ATNState::PlusBlockStart(_) | ATNState::StarBlockStart(_) => true,
            _ => false,
        }
    }

    pub fn to_block_start_mut(&mut self) -> (r: Option<&mut BlockStartState>)
        ensures
            r is Some == old(self).is_block_start_kind(),
            r is None ==> *final(self) == *old(self),
            r is Some ==> *r.unwrap() == old(self).block_start_part() && *final(self) == old(
                self,
            ).with_block_start(*final(r.unwrap())),
    {
        match self {
            ATNState::BlockStart(bs) => Some(bs),
            ATNState::PlusBlockStart(pbs) => Some(&mut pbs.base),
            ATNState::StarBlockStart(sbs) => Some(&mut sbs.base),
            _ => None,
        }
    }

    pub fn to_block_start(&self) -> (r: Option<&BlockStartState>)
        ensures
            r is Some == self.is_block_start_kind(),
            r is Some ==> *r.unwrap() == self.block_start_part(),
    {
        match self {
            ATNState::BlockStart(bs) => Some(bs),
            ATNState::PlusBlockStart(pbs) => Some(&pbs.base),
            ATNState::StarBlockStart(sbs) => Some(&sbs.base),
            _ => None,
        }
    }

    pub fn to_block_end_mut(&mut self) -> (r: Option<&mut BlockEndState>)
        ensures
            r is Some == (*old(self) is BlockEnd),
            r is None ==> *final(self) == *old(self),
            r is Some ==> *r.unwrap() == old(self)->BlockEnd_0 && *final(self)
                == ATNState::BlockEnd(
                *final(r.unwrap()),
            ),
    {
        match self {
            ATNState::BlockEnd(be) => Some(be),
            _ => None,
        }
    }

    pub fn to_block_end(&self) -> (r: Option<&BlockEndState>)
        ensures
            r is Some == self is BlockEnd,
            r is Some ==> *r.unwrap() == self->BlockEnd_0,
    {
        match self {
            ATNState::BlockEnd(be) => Some(be),
            _ => None,
        }
    }

    pub fn to_star_loop_entry_mut(&mut self) -> (r: Option<&mut StarLoopEntryState>)
        ensures
            r is Some == (*old(self) is StarLoopEntry),
            r is None ==> *final(self) == *old(self),
            r is Some ==> *r.unwrap() == old(self)->StarLoopEntry_0 && *final(self)
                == ATNState::StarLoopEntry(*final(r.unwrap())),
    {
        match self {
            ATNState::StarLoopEntry(sle) => Some(sle),
            _ => None,
        }
    }

    pub fn to_star_loop_entry(&self) -> (r: Option<&StarLoopEntryState>)
        ensures
            r is Some == self is StarLoopEntry,
            r is Some ==> *r.unwrap() == self->StarLoopEntry_0,
    {
        match self {
            ATNState::StarLoopEntry(sle) => Some(sle),
            _ => None,
        }
    }

    pub fn to_plus_block_start_mut(&mut self) -> (r: Option<&mut PlusBlockStartState>)
        ensures
            r is Some == (*old(self) is PlusBlockStart),
            r is None ==> *final(self) == *old(self),
            r is Some ==> *r.unwrap() == old(self)->PlusBlockStart_0 && *final(self)
                == ATNState::PlusBlockStart(*final(r.unwrap())),
    {
        match self {
            ATNState::PlusBlockStart(pbs) => Some(pbs),
            _ => None,
        }
    }

    pub fn to_plus_block_start(&self) -> (r: Option<&PlusBlockStartState>)
        ensures
            r is Some == self is PlusBlockStart,
            r is Some ==> *r.unwrap() == self->PlusBlockStart_0,
    {
        match self {
            ATNState::PlusBlockStart(pbs) => Some(pbs),
            _ => None,
        }
    }

    pub fn to_decision_state(&self) -> (r: Option<&DecisionState>)
        ensures
            r is Some == self.is_decision_kind(),
            r is Some ==> *r.unwrap() == self.decision_part(),
    {
        match self {
            ATNState::BlockStart(b) => Some(&b.base),
            ATNState::PlusBlockStart(p) => Some(&p.base.base),
            ATNState::StarBlockStart(s) => Some(&s.base.base),
            ATNState::TokenStart(t) => Some(&t.base),
            ATNState::StarLoopEntry(s) => Some(&s.base),
            ATNState::PlusLoopback(p) => Some(&p.base),
            _ => None,
        }
    }

    pub fn to_decision_state_mut(&mut self) -> (r: Option<&mut DecisionState>)
        ensures
            r is Some == old(self).is_decision_kind(),
            r is None ==> *final(self) == *old(self),
            r is Some ==> *r.unwrap() == old(self).decision_part() && *final(self) == old(
                self,
            ).with_decision(*final(r.unwrap())),
    {
        match self {
            ATNState::BlockStart(b) => Some(&mut b.base),
            ATNState::PlusBlockStart(p) => Some(&mut p.base.base),
            ATNState::StarBlockStart(s) => Some(&mut s.base.base),
            ATNState::TokenStart(t) => Some(&mut t.base),
            ATNState::StarLoopEntry(s) => Some(&mut s.base),
            ATNState::PlusLoopback(p) => Some(&mut p.base),
            _ => None,
        }
    }

    pub fn to_rule_start_state_mut(&mut self) -> (r: Option<&mut RuleStartState>)
        ensures
            r is Some == (*old(self) is RuleStart),
            r is None ==> *final(self) == *old(self),
            r is Some ==> *r.unwrap() == old(self)->RuleStart_0 && *final(self)
                == ATNState::RuleStart(
                *final(r.unwrap()),
            ),
    {
        match self {
            ATNState::RuleStart(r) => Some(r),
            _ => None,
        }
    }

    pub fn to_rule_start_state(&self) -> (r: Option<&RuleStartState>)
        ensures
            r is Some == self is RuleStart,
            r is Some ==> *r.unwrap() == self->RuleStart_0,
    {
        match self {
            ATNState::RuleStart(r) => Some(r),
            _ => None,
        }
    }

    fn new_basic(rule_idx: usize, state_nth: Nth) -> (r: Self)
        ensures
            r.fresh(ATN_STATE_BASIC, rule_idx, state_nth),
    {
        ATNState::Basic(BaseATNState::new(ATN_STATE_BASIC, rule_idx, state_nth))
    }

    fn new_rule_start(rule_idx: usize, state_nth: Nth) -> (r: Self)
        ensures
            r.fresh(ATN_STATE_RULE_START, rule_idx, state_nth),
    {
        let base = BaseATNState::new(ATN_STATE_RULE_START, rule_idx, state_nth);
        ATNState::RuleStart(
            RuleStartState { base, rule_stop_state_nth: 0, contrast_set: false, left_recursive: false },
        )
    }

    fn new_block_start(rule_idx: usize, state_nth: Nth) -> (r: Self)
        ensures
            r.fresh(ATN_STATE_BLOCK_START, rule_idx, state_nth),
    {
        let base = DecisionState::new(ATN_STATE_BLOCK_START, rule_idx, state_nth);
        ATNState::BlockStart(BlockStartState { base, block_end_state_nth: 0, contrast_set: false })
    }

    fn new_plus_block_start(rule_idx: usize, state_nth: Nth) -> (r: Self)
        ensures
            r.fresh(ATN_STATE_PLUS_BLOCK_START, rule_idx, state_nth),
    {
        let base = BlockStartState::new(ATN_STATE_PLUS_BLOCK_START, rule_idx, state_nth);
        ATNState::PlusBlockStart(
            PlusBlockStartState { base, plus_loopback_state_nth: 0, contrast_set: false },
        )
    }

    fn new_star_block_start(rule_idx: usize, state_nth: Nth) -> (r: Self)
        ensures
            r.fresh(ATN_STATE_STAR_BLOCK_START, rule_idx, state_nth),
    {
        let base = BlockStartState::new(ATN_STATE_STAR_BLOCK_START, rule_idx, state_nth);
        ATNState::StarBlockStart(StarBlockStartState { base })
    }

    fn new_token_start(rule_idx: usize, state_nth: Nth) -> (r: Self)
        ensures
            r.fresh(ATN_STATE_TOKEN_START, rule_idx, state_nth),
    {
        let base = DecisionState::new(ATN_STATE_TOKEN_START, rule_idx, state_nth);
        ATNState::TokenStart(TokenStartState { base })
    }

    fn new_rule_stop(rule_idx: usize, state_nth: Nth) -> (r: Self)
        ensures
            r.fresh(ATN_STATE_RULE_STOP, rule_idx, state_nth),
    {
        let base = BaseATNState::new(ATN_STATE_RULE_STOP, rule_idx, state_nth);
        ATNState::RuleStop(RuleStopState { base })
    }

    fn new_block_end(rule_idx: usize, state_nth: Nth) -> (r: Self)
        ensures
            r.fresh(ATN_STATE_BLOCK_END, rule_idx, state_nth),
    {
        let base = BaseATNState::new(ATN_STATE_BLOCK_END, rule_idx, state_nth);
        ATNState::BlockEnd(BlockEndState { base, block_start_state_nth: 0, contrast_set: false })
    }

    fn new_star_loopback(rule_idx: usize, state_nth: Nth) -> (r: Self)
        ensures
            r.fresh(ATN_STATE_STAR_LOOPBACK, rule_idx, state_nth),
    {
        let base = BaseATNState::new(ATN_STATE_STAR_LOOPBACK, rule_idx, state_nth);
        ATNState::StarLoopback(StarLoopbackState { base })
    }

    fn new_star_loop_entry(rule_idx: usize, state_nth: Nth) -> (r: Self)
        ensures
            r.fresh(ATN_STATE_STAR_LOOP_ENTRY, rule_idx, state_nth),
    {
        let base = DecisionState::new(ATN_STATE_STAR_LOOP_ENTRY, rule_idx, state_nth);
        ATNState::StarLoopEntry(
            StarLoopEntryState {
                base,
                star_loopback_state_nth: 0,
                contrast_set: false,
                precedence_decision: false,
            },
        )
    }

    fn new_plus_loopback(rule_idx: usize, state_nth: Nth) -> (r: Self)
        ensures
            r.fresh(ATN_STATE_PLUS_LOOPBACK, rule_idx, state_nth),
    {
        let base = DecisionState::new(ATN_STATE_PLUS_LOOPBACK, rule_idx, state_nth);
        ATNState::PlusLoopback(PlusLoopbackState { base })
    }

    fn new_loop_end(rule_idx: usize, state_nth: Nth) -> (r: Self)
        ensures
            r.fresh(ATN_STATE_LOOP_END, rule_idx, state_nth),
    {
        let base = BaseATNState::new(ATN_STATE_LOOP_END, rule_idx, state_nth);
        ATNState::LoopEnd(LoopEndState { base, loopback_state_nth: 0, contrast_set: false })
    }
}

/// A state at which the automaton picks an alternative; `decision` is its
/// ordinal, -1 until one is assigned.
#[derive(Debug)]
pub struct DecisionState {
    pub base: BaseATNState,
    pub decision: isize,
    pub non_greedy: bool,
}

impl DecisionState {
    fn new(state_type: ATNStateType, rule_idx: usize, state_nth: Nth) -> (r: Self)
        ensures
            r.base.fresh(state_type, rule_idx, state_nth),
            r.decision == -1,
            !r.non_greedy,
    {
        let base = BaseATNState::new(state_type, rule_idx, state_nth);
        Self { base, decision: -1, non_greedy: false }
    }
}

/// The start of a block; `block_end_state_nth` is its end, valid once
/// `contrast_set` holds.
#[derive(Debug)]
pub struct BlockStartState {
    pub base: DecisionState,
    pub block_end_state_nth: Nth,
    pub contrast_set: bool,
}

impl BlockStartState {
    fn new(state_type: ATNStateType, rule_idx: usize, state_nth: Nth) -> (r: Self)
        ensures
            r.base.base.fresh(state_type, rule_idx, state_nth),
            r.base.decision == -1,
            !r.base.non_greedy,
            r.block_end_state_nth == 0,
            !r.contrast_set,
    {
        let base = DecisionState::new(state_type, rule_idx, state_nth);
        Self { base, block_end_state_nth: 0, contrast_set: false }
    }
}

/// The end of a block; `block_start_state_nth` is its start, valid once
/// `contrast_set` holds.
#[derive(Debug)]
pub struct BlockEndState {
    pub base: BaseATNState,
    pub block_start_state_nth: Nth,
    pub contrast_set: bool,
}

/// The entry of a rule; `rule_stop_state_nth` is the rule's stop state, valid
/// once `contrast_set` holds.
#[derive(Debug)]
pub struct RuleStartState {
    pub base: BaseATNState,
    pub rule_stop_state_nth: Nth,
    pub contrast_set: bool,
    pub left_recursive: bool,
}

#[derive(Debug)]
pub struct RuleStopState {
    pub base: BaseATNState,
}

/// The start of a `+` loop; `plus_loopback_state_nth` is its loopback, valid
/// once `contrast_set` holds.
#[derive(Debug)]
pub struct PlusBlockStartState {
    pub base: BlockStartState,
    pub plus_loopback_state_nth: Nth,
    pub contrast_set: bool,
}

#[derive(Debug)]
pub struct StarBlockStartState {
    pub base: BlockStartState,
}

#[derive(Debug)]
pub struct TokenStartState {
    pub base: DecisionState,
}

#[derive(Debug)]
pub struct StarLoopbackState {
    pub base: BaseATNState,
}

/// The entry of a `*` loop; `star_loopback_state_nth` is its loopback, valid
/// once `contrast_set` holds.
#[derive(Debug)]
pub struct StarLoopEntryState {
    pub base: DecisionState,
    pub star_loopback_state_nth: Nth,
    pub contrast_set: bool,
    pub precedence_decision: bool,
}

#[derive(Debug)]
pub struct PlusLoopbackState {
    pub base: DecisionState,
}

/// The end of a loop; `loopback_state_nth` is its loopback, valid once
/// `contrast_set` holds.
#[derive(Debug)]
pub struct LoopEndState {
    pub base: BaseATNState,
    pub loopback_state_nth: Nth,
    pub contrast_set: bool,
}

} // verus!
