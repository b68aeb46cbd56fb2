use vstd::prelude::*;
use crate::atn_state::ATNState;
use crate::atn_type::ATNType;
use crate::lexer_action::LexerAction;
use crate::transition::Transition;

verus! {

/// The alternative number that stands for "none".
pub const ATN_INVALID_ALT_NUMBER: isize = 0;

/// The automaton: an arena of states addressed by position, with the tables
/// that map rules, modes and decisions to their states.
#[derive(Debug)]
pub struct ATN {
    pub grammar_type: ATNType,
    pub decision2state_nth: Vec<usize>,
    pub lexer_actions: Vec<LexerAction>,
    pub max_token_type: isize,
    pub mode2start_state_nths: Vec<usize>,
    pub rule2start_state_nths: Vec<usize>,
    pub rule2stop_state_nths: Vec<usize>,
    pub rule2token_type: Vec<usize>,
    pub states: Vec<ATNState>,
}

impl ATN {
    pub open spec fn valid_state(&self, i: int) -> bool {
        0 <= i < self.states@.len()
    }

    /// The transition leads to a state of the automaton, and so does the
    /// follow state of a rule call.
    pub open spec fn transition_ok(&self, t: Transition) -> bool {
        &&& self.valid_state(t.target() as int)
        &&& t is Rule ==> self.valid_state(t->Rule_0.follow_state_nth as int)
    }

    /// The state at `i` knows its position, its transitions lead into the
    /// automaton, and a state that is one half of a pair has its partner
    /// recorded: a state of the right kind that, for blocks, points back.
    pub open spec fn state_linked(&self, i: int) -> bool {
        let s = self.states@[i];
        let ts = s.base().transitions@;
        &&& s.base().state_nth == i
        &&& forall|k: int| 0 <= k < ts.len() ==> self.transition_ok(#[trigger] ts[k])
        &&& s.is_block_start_kind() ==> {
            let bs = s.block_start_part();
            &&& bs.contrast_set
            &&& self.valid_state(bs.block_end_state_nth as int)
            &&& self.states@[bs.block_end_state_nth as int] is BlockEnd
            &&& self.states@[bs.block_end_state_nth as int]->BlockEnd_0.block_start_state_nth == i
        }
        &&& s is BlockEnd ==> {
            let be = s->BlockEnd_0;
            &&& be.contrast_set
            &&& self.valid_state(be.block_start_state_nth as int)
            &&& self.states@[be.block_start_state_nth as int].is_block_start_kind()
            &&& self.states@[be.block_start_state_nth as int].block_start_part().block_end_state_nth
                == i
        }
        &&& s is RuleStart ==> {
            let rs = s->RuleStart_0;
            &&& rs.contrast_set
            &&& self.valid_state(rs.rule_stop_state_nth as int)
            &&& self.states@[rs.rule_stop_state_nth as int] is RuleStop
        }
        &&& s is PlusBlockStart ==> {
            let pbs = s->PlusBlockStart_0;
            &&& pbs.contrast_set
            &&& self.valid_state(pbs.plus_loopback_state_nth as int)
            &&& self.states@[pbs.plus_loopback_state_nth as int] is PlusLoopback
        }
        &&& s is StarLoopEntry ==> {
            let sle = s->StarLoopEntry_0;
            &&& sle.contrast_set
            &&& self.valid_state(sle.star_loopback_state_nth as int)
            &&& self.states@[sle.star_loopback_state_nth as int] is StarLoopback
        }
        &&& s is LoopEnd ==> {
            let le = s->LoopEnd_0;
            &&& le.contrast_set
            &&& self.valid_state(le.loopback_state_nth as int)
        }
    }

    /// Rule `r` starts at a rule-start state and stops at a rule-stop state.
    pub open spec fn rule_ok(&self, r: int) -> bool {
        let start = self.rule2start_state_nths@[r] as int;
        let stop = self.rule2stop_state_nths@[r] as int;
        &&& self.valid_state(start)
        &&& self.states@[start] is RuleStart
        &&& self.valid_state(stop)
        &&& self.states@[stop] is RuleStop
    }

    /// Decision `d` is a decision state whose ordinal is `d`.
    pub open spec fn decision_ok(&self, d: int) -> bool {
        let s = self.decision2state_nth@[d] as int;
        &&& self.valid_state(s)
        &&& self.states@[s].is_decision_kind()
        &&& self.states@[s].decision_part().decision == d
    }

    /// Every index that the automaton holds is in range and every pair is
    /// linked.
    pub open spec fn wf(&self) -> bool {
        &&& forall|i: int| 0 <= i < self.states@.len() ==> #[trigger] self.state_linked(i)
        &&& self.rule2start_state_nths@.len() == self.rule2stop_state_nths@.len()
        &&& forall|r: int| 0 <= r < self.rule2start_state_nths@.len() ==> #[trigger] self.rule_ok(r)
        &&& forall|m: int|
            0 <= m < self.mode2start_state_nths@.len() ==> self.valid_state(
                #[trigger] self.mode2start_state_nths@[m] as int,
            ) && self.states@[self.mode2start_state_nths@[m] as int] is TokenStart
        &&& forall|d: int| 0 <= d < self.decision2state_nth@.len()
            ==> #[trigger] self.decision_ok(d)
    }

    /// The shape that the verification pass asks of the state at `i`.
    pub open spec fn state_shaped(&self, i: int) -> bool {
        let s = self.states@[i];
        let ts = s.base().transitions@;
        &&& s.base().epsilon_only_trans || ts.len() <= 1
        &&& s.is_decision_kind() && ts.len() > 1 ==> s.decision_part().decision >= 0
        &&& s is StarLoopback ==> ts.len() == 1
            && self.states@[ts[0].target() as int] is StarLoopEntry
        &&& s is StarLoopEntry ==> ts.len() == 2 && {
            let a = self.states@[ts[0].target() as int];
            let b = self.states@[ts[1].target() as int];
            ||| a is StarBlockStart && b is LoopEnd && !s.decision_part().non_greedy
            ||| a is LoopEnd && b is StarBlockStart && s.decision_part().non_greedy
        }
    }

    /// Every state has the shape that the verification pass asks.
    pub open spec fn shaped(&self) -> bool {
        forall|i: int| 0 <= i < self.states@.len() ==> #[trigger] self.state_shaped(i)
    }

    /// An automaton of the given type with no states and empty tables.
    pub fn new(grammar_type: ATNType, max_token_type: isize) -> (r: Self)
        ensures
            r.grammar_type == grammar_type,
            r.max_token_type == max_token_type,
            r.states@.len() == 0,
            r.decision2state_nth@.len() == 0,
            r.lexer_actions@.len() == 0,
            r.mode2start_state_nths@.len() == 0,
            r.rule2start_state_nths@.len() == 0,
            r.rule2stop_state_nths@.len() == 0,
            r.rule2token_type@.len() == 0,
            r.wf(),
    {
        Self {
            grammar_type,
            decision2state_nth: Vec::new(),
            lexer_actions: Vec::new(),
            max_token_type,
            mode2start_state_nths: Vec::new(),
            rule2start_state_nths: Vec::new(),
            rule2stop_state_nths: Vec::new(),
            rule2token_type: Vec::new(),
            states: Vec::new(),
        }
    }
}

} // verus!
