use vstd::prelude::*;

verus! {

/// A condition on semantic predicates under which a configuration is viable:
/// none, one predicate, a precedence bound, or a conjunction or disjunction.
#[derive(Debug)]
pub enum SemanticContext {
    NoPredicate,
    Predicate(PredicateSemanticContext),
    Precedence(PrecedenceSemanticContext),
    AND(ANDSemanticContext),
    OR(ORSemanticContext),
}

pub type PrecedenceSemanticContext = isize;

pub type ANDSemanticContext = Vec<SemanticContext>;

pub type ORSemanticContext = Vec<SemanticContext>;

/// The predicate `pred_index` of rule `rule_index`.
#[derive(Debug)]
pub struct PredicateSemanticContext {
    pub rule_index: usize,
    pub pred_index: usize,
    pub ctx_dependent: bool,
}

impl PredicateSemanticContext {
    pub fn new(rule_index: usize, pred_index: usize, ctx_dependent: bool) -> (r: Self)
        ensures
            r.rule_index == rule_index,
            r.pred_index == pred_index,
            r.ctx_dependent == ctx_dependent,
    {
        Self { rule_index, pred_index, ctx_dependent }
    }
}

impl SemanticContext {
    /// Whether no predicate applies.
    pub fn is_no_predicate(&self) -> (r: bool)
        ensures
            r == (self is NoPredicate),
    {
        matches!(self, SemanticContext::NoPredicate)
    }
}

} // verus!
