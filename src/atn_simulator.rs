use std::sync::{Arc, RwLock};
use vstd::prelude::*;
use crate::atn::ATN;
use crate::dfa::DFA;
use crate::prediction_context::PredictionContextCache;

verus! {

/// std's reader-writer lock, carried here as an opaque value: the library
/// hands it out and never locks it itself.
#[verifier::external_type_specification]
#[verifier::external_body]
#[verifier::reject_recursive_types(T)]
pub struct ExRwLock<T: ?Sized>(RwLock<T>);

/// What the lexer and parser loops see of a simulator: the automaton, the
/// shared prediction context cache, and the cached automaton of each decision.
pub trait ATNSimulator {
    spec fn atn_spec(&self) -> ATN;

    spec fn cache_spec(&self) -> RwLock<PredictionContextCache>;

    spec fn decisions_spec(&self) -> Seq<RwLock<DFA>>;

    fn shared_context_cache(&self) -> (r: &RwLock<PredictionContextCache>)
        ensures
            *r == self.cache_spec(),
    ;

    fn atn(&self) -> (r: &ATN)
        ensures
            *r == self.atn_spec(),
    ;

    fn decision_to_dfa(&self) -> (r: &Vec<RwLock<DFA>>)
        ensures
            r@ == self.decisions_spec(),
    ;
}

/// Holds shared references to the automaton, the context cache and the
/// decisions' automata, so that many parses of one grammar share them.
#[derive(Debug)]
pub struct BaseATNSimulator {
    atn: Arc<ATN>,
    shared_ctx_cache: Arc<RwLock<PredictionContextCache>>,
    decision_to_dfa: Arc<Vec<RwLock<DFA>>>,
}

impl BaseATNSimulator {
    pub fn new(
        atn: Arc<ATN>,
        shared_ctx_cache: Arc<RwLock<PredictionContextCache>>,
        decision_to_dfa: Arc<Vec<RwLock<DFA>>>,
    ) -> (r: Self)
        ensures
            r.atn_spec() == *atn,
            r.cache_spec() == *shared_ctx_cache,
            r.decisions_spec() == decision_to_dfa@,
    {
        Self { atn, shared_ctx_cache, decision_to_dfa }
    }
}

impl ATNSimulator for BaseATNSimulator {
    closed spec fn atn_spec(&self) -> ATN {
        *self.atn
    }

    closed spec fn cache_spec(&self) -> RwLock<PredictionContextCache> {
        *self.shared_ctx_cache
    }

    closed spec fn decisions_spec(&self) -> Seq<RwLock<DFA>> {
        self.decision_to_dfa@
    }

    fn shared_context_cache(&self) -> &RwLock<PredictionContextCache> {
        &self.shared_ctx_cache
    }

    fn atn(&self) -> &ATN {
        &self.atn
    }

    fn decision_to_dfa(&self) -> &Vec<RwLock<DFA>> {
        &self.decision_to_dfa
    }
}

} // verus!
