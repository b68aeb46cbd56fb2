use vstd::prelude::*;
use crate::Nth;
use crate::atn::ATN;
use crate::atn_config_set::ATNConfigSet;
use crate::atn_state::ATNState;
use crate::dfa_state::DFAState;

verus! {

/// The state at `nth` is the entry of a left-recursive rule's loop, marked
/// as a precedence decision.
pub open spec fn is_precedence_decision(atn: &ATN, nth: int) -> bool {
    atn.states@[nth] is StarLoopEntry && atn.states@[nth]->StarLoopEntry_0.precedence_decision
}

/// The cached automaton of one decision, grown lazily by the simulator.
#[derive(Debug)]
pub struct DFA {
    /// The automaton state that the decision starts from.
    pub atn_start_state: Nth,
    pub decision: usize,
    pub states: Vec<DFAState>,
    /// The start state, absent until first use.
    pub s0: Option<DFAState>,
    pub precedence_dfa: bool,
}

impl DFA {
    /// The cached automaton of decision `decision`, which starts at
    /// `atn_start_state`. It has no state, except that for a precedence
    /// decision `s0` is there at once: an empty, SLL, non-accepting state.
    pub fn new(atn: &ATN, atn_start_state: usize, decision: usize) -> (r: Self)
        requires
            atn_start_state < atn.states@.len(),
        ensures
            r.atn_start_state == atn_start_state,
            r.decision == decision,
            r.states@.len() == 0,
            r.precedence_dfa == is_precedence_decision(atn, atn_start_state as int),
            r.s0 is Some == is_precedence_decision(atn, atn_start_state as int),
            r.s0 is Some ==> {
                let s0 = r.s0->Some_0;
                &&& !s0.accept_state
                &&& !s0.requires_full_context
                &&& s0.configs.configs@.len() == 0
                &&& !s0.configs.full_ctx
            },
    {
        let mut dfa = Self {
            atn_start_state,
            decision,
            s0: None,
            precedence_dfa: false,
            states: Vec::new(),
        };
        if let ATNState::StarLoopEntry(sle) = &atn.states[atn_start_state] {
            if sle.precedence_decision {
                dfa.precedence_dfa = true;
                let mut ds = DFAState::new(0, Box::new(ATNConfigSet::new(false)));
                ds.accept_state = false;
                ds.requires_full_context = false;
                dfa.s0 = Some(ds);
            }
        }
        dfa
    }
}

} // verus!
