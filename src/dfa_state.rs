use vstd::prelude::*;
use crate::Nth;
use crate::atn::ATN_INVALID_ALT_NUMBER;
use crate::atn_config_set::ATNConfigSet;
use crate::semantic_context::SemanticContext;

verus! {

/// A state of a decision's cached automaton: the configuration set it stands
/// for, its edges (positions of other states, by input symbol), and what it
/// predicts when it accepts.
#[derive(Debug)]
pub struct DFAState {
    pub state_nth: Nth,
    pub configs: Box<ATNConfigSet>,
    pub edges: Vec<Nth>,
    pub accept_state: bool,
    /// The alternative predicted on acceptance; `ATN_INVALID_ALT_NUMBER` when
    /// predicates decide or full context is required.
    pub prediction: isize,
    pub requires_full_context: bool,
    pub predicates: Vec<PredPrediction>,
}

/// A predicate and the alternative that it selects.
#[derive(Debug)]
pub struct PredPrediction {
    pub pred: SemanticContext,
    pub alt: isize,
}

impl PredPrediction {
    pub fn new(pred: SemanticContext, alt: isize) -> (r: Self)
        ensures
            r.pred == pred,
            r.alt == alt,
    {
        Self { pred, alt }
    }
}

impl DFAState {
    /// A state for `configs` with no edge, not accepting, predicting nothing.
    pub fn new(state_nth: Nth, configs: Box<ATNConfigSet>) -> (r: Self)
        ensures
            r.state_nth == state_nth,
            r.configs == configs,
            r.edges@.len() == 0,
            !r.accept_state,
            r.prediction == ATN_INVALID_ALT_NUMBER,
            !r.requires_full_context,
            r.predicates@.len() == 0,
    {
        Self {
            state_nth,
            configs,
            edges: Vec::new(),
            accept_state: false,
            prediction: ATN_INVALID_ALT_NUMBER,
            requires_full_context: false,
            predicates: Vec::new(),
        }
    }
}

} // verus!
