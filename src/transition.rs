use std::rc::Rc;
use vstd::prelude::*;
use crate::interval_set::IntervalSet;
use crate::token::TOKEN_EOF;

verus! {

pub type TransitionType = i32;

pub const TRANSITION_EPSILON: TransitionType = 1;

pub const TRANSITION_RANGE: TransitionType = 2;

pub const TRANSITION_RULE: TransitionType = 3;

pub const TRANSITION_PREDICATE: TransitionType = 4;

pub const TRANSITION_ATOM: TransitionType = 5;

pub const TRANSITION_ACTION: TransitionType = 6;

pub const TRANSITION_SET: TransitionType = 7;

pub const TRANSITION_NOT_SET: TransitionType = 8;

pub const TRANSITION_WILDCARD: TransitionType = 9;

pub const TRANSITION_PRECEDENCE: TransitionType = 10;

/// Whether `t` is the tag of a transition kind.
pub open spec fn valid_transition_type(t: TransitionType) -> bool {
    TRANSITION_EPSILON <= t <= TRANSITION_PRECEDENCE
}

/// What every transition has: the position of the state it leads to, and its
/// kind tag.
#[derive(Debug)]
pub struct BaseTransition {
    pub target_nth: usize,
    pub trans_type: TransitionType,
}

impl BaseTransition {
    pub fn new(atn_state_nth: usize, trans_type: TransitionType) -> (r: Self)
        ensures
            r.target_nth == atn_state_nth,
            r.trans_type == trans_type,
    {
        Self { target_nth: atn_state_nth, trans_type }
    }
}

/// One outgoing edge of an automaton state.
#[derive(Debug)]
pub enum Transition {
    Epsilon(EpsilonTransition),
    Range(RangeTransition),
    Rule(RuleTransition),
    Predicate(PredicateTransition),
    Atom(AtomTransition),
    Action(ActionTransition),
    InSet(SetTransition),
    NotSet(NotSetTransition),
    Wildcard(WildcardTransition),
    Precedence(PrecedenceTransition),
}

impl Transition {
    pub open spec fn base(&self) -> BaseTransition {
        match self {
            Transition::Epsilon(t) => t.base,
            Transition::Range(t) => t.base,
            Transition::Rule(t) => t.base,
            Transition::Predicate(t) => t.base,
            Transition::Atom(t) => t.base,
            Transition::Action(t) => t.base,
            Transition::InSet(t) => t.base,
            Transition::NotSet(t) => t.base,
            Transition::Wildcard(t) => t.base,
            Transition::Precedence(t) => t.base,
        }
    }

    /// The state that the transition leads to.
    pub open spec fn target(&self) -> nat {
        self.base().target_nth as nat
    }

    /// The kinds that move without consuming a symbol.
    pub open spec fn epsilon_like(&self) -> bool {
        match self {
            Transition::Epsilon(_)
            | Transition::Rule(_)
            | Transition::Predicate(_)
            | Transition::Action(_)
            | Transition::Precedence(_) => true,
            _ => false,
        }
    }

    /// The kind tag that matches the variant.
    pub open spec fn kind(&self) -> TransitionType {
        match self {
            Transition::Epsilon(_) => TRANSITION_EPSILON,
            Transition::Range(_) => TRANSITION_RANGE,
            Transition::Rule(_) => TRANSITION_RULE,
            Transition::Predicate(_) => TRANSITION_PREDICATE,
            Transition::Atom(_) => TRANSITION_ATOM,
            Transition::Action(_) => TRANSITION_ACTION,
            Transition::InSet(_) => TRANSITION_SET,
            Transition::NotSet(_) => TRANSITION_NOT_SET,
            Transition::Wildcard(_) => TRANSITION_WILDCARD,
            Transition::Precedence(_) => TRANSITION_PRECEDENCE,
        }
    }

    /// The transition is the one that the edge record `(_, trg, ttype, arg1,
    /// arg2, arg3)` describes, with set arguments read from `sets`.
    pub open spec fn built_from(
        &self,
        ttype: TransitionType,
        trg: usize,
        arg1: isize,
        arg2: isize,
        arg3: isize,
        sets: Seq<Rc<IntervalSet>>,
    ) -> bool {
        &&& self.kind() == ttype
        &&& self.base().trans_type == ttype
        &&& self.target() == if ttype == TRANSITION_RULE { arg1 as nat } else { trg as nat }
        &&& ttype == TRANSITION_EPSILON ==> self->Epsilon_0.outermost_precedence_return == -1
        &&& ttype == TRANSITION_RANGE ==> self->Range_0.start
            == (if arg3 != 0 { TOKEN_EOF } else { arg1 })
            && self->Range_0.stop == arg2
        &&& ttype == TRANSITION_RULE ==> self->Rule_0.follow_state_nth == trg
            && self->Rule_0.rule_idx
            == arg2 && self->Rule_0.precedence == arg3
        &&& ttype == TRANSITION_PREDICATE ==> self->Predicate_0.rule_idx == arg1
            && self->Predicate_0.pre_idx == arg2 && self->Predicate_0.is_ctx_dependent
                == (arg3 != 0)
        &&& ttype == TRANSITION_ATOM ==> self->Atom_0.label
            == (if arg3 != 0 { TOKEN_EOF } else { arg1 })
        &&& ttype == TRANSITION_ACTION ==> self->Action_0.rule_idx == arg1
            && self->Action_0.action_idx
            == arg2 && self->Action_0.is_ctx_dependent == (arg3 != 0)
        &&& ttype == TRANSITION_SET ==> self->InSet_0.interval_set == sets[arg1 as int]
        &&& ttype == TRANSITION_NOT_SET ==> self->NotSet_0.interval_set == sets[arg1 as int]
        &&& ttype == TRANSITION_PRECEDENCE ==> self->Precedence_0.precedence == arg1
    }

    /// Builds the transition that an edge record `(src, trg, ttype, arg1, arg2,
    /// arg3)` describes. A set or not-set transition shares `sets[arg1]`; a rule
    /// transition leads to the rule's start state `arg1` and resumes at `trg`.
    pub fn new(
        ttype: TransitionType,
        trg: usize,
        arg1: isize,
        arg2: isize,
        arg3: isize,
        sets: &Vec<Rc<IntervalSet>>,
    ) -> (r: Self)
        requires
            valid_transition_type(ttype),
            ttype == TRANSITION_RULE ==> arg1 >= 0,
            ttype == TRANSITION_SET || ttype == TRANSITION_NOT_SET ==> 0 <= arg1 < sets.len(),
        ensures
            r.built_from(ttype, trg, arg1, arg2, arg3, sets@),
            r.kind() == ttype,
            r.base().trans_type == ttype,
            r.target() == if ttype == TRANSITION_RULE { arg1 as nat } else { trg as nat },
            ttype == TRANSITION_EPSILON ==> r->Epsilon_0.outermost_precedence_return == -1,
            ttype == TRANSITION_RANGE ==> r->Range_0.start
                == (if arg3 != 0 { TOKEN_EOF } else { arg1 })
                && r->Range_0.stop == arg2,
            ttype == TRANSITION_RULE ==> r->Rule_0.follow_state_nth == trg && r->Rule_0.rule_idx
                == arg2 && r->Rule_0.precedence == arg3,
            ttype == TRANSITION_PREDICATE ==> r->Predicate_0.rule_idx == arg1
                && r->Predicate_0.pre_idx == arg2 && r->Predicate_0.is_ctx_dependent == (arg3
                != 0),
            ttype == TRANSITION_ATOM ==> r->Atom_0.label
                == (if arg3 != 0 { TOKEN_EOF } else { arg1 }),
            ttype == TRANSITION_ACTION ==> r->Action_0.rule_idx == arg1 && r->Action_0.action_idx
                == arg2 && r->Action_0.is_ctx_dependent == (arg3 != 0),
            ttype == TRANSITION_SET ==> r->InSet_0.interval_set == sets@[arg1 as int],
            ttype == TRANSITION_NOT_SET ==> r->NotSet_0.interval_set == sets@[arg1 as int],
            ttype == TRANSITION_PRECEDENCE ==> r->Precedence_0.precedence == arg1,
    {
        match ttype {
            TRANSITION_EPSILON => Self::new_epsilon(trg, -1),
            TRANSITION_RANGE => {
                if arg3 != 0 {
                    Self::new_range(trg, TOKEN_EOF, arg2)
                } else {
                    Self::new_range(trg, arg1, arg2)
                }
            },
            TRANSITION_RULE => Self::new_rule(arg1 as usize, arg2, arg3, trg),
            TRANSITION_PREDICATE => Self::new_predicate(trg, arg1, arg2, arg3 != 0),
            TRANSITION_ATOM => {
                if arg3 != 0 {
                    Self::new_atom(trg, TOKEN_EOF)
                } else {
                    Self::new_atom(trg, arg1)
                }
            },
            TRANSITION_ACTION => Self::new_action(trg, arg1, arg2, arg3 != 0),
            TRANSITION_SET => Self::new_set(trg, Rc::clone(&sets[arg1 as usize])),
            TRANSITION_NOT_SET => Self::new_not_set(trg, Rc::clone(&sets[arg1 as usize])),
            TRANSITION_WILDCARD => Self::new_wildcard(trg),
            _ => Self::new_precedence(trg, arg1),
        }
    }

    pub fn target_nth(&self) -> (r: usize)
        ensures
            r == self.target(),
    {
        match self {
            Transition::Epsilon(e) => e.base.target_nth,
            Transition::Range(r) => r.base.target_nth,
            Transition::Rule(r) => r.base.target_nth,
            Transition::Predicate(p) => p.base.target_nth,
            Transition::Atom(a) => a.base.target_nth,
            Transition::Action(a) => a.base.target_nth,
            Transition::InSet(s) => s.base.target_nth,
            Transition::NotSet(ns) => ns.base.target_nth,
            Transition::Wildcard(w) => w.base.target_nth,
            Transition::Precedence(p) => p.base.target_nth,
        }
    }

    /// Whether the transition moves without consuming a symbol.
    pub fn is_epsilon(&self) -> (r: bool)
        ensures
            r == self.epsilon_like(),
    {
        match self {
            Transition::Epsilon(_)
            | Transition::Rule(_)
            | Transition::Predicate(_)
            | Transition::Action(_)
            | Transition::Precedence(_) => true,
            _ => false,
        }
    }

    /// An epsilon transition; `opr` is the left-recursive rule whose outermost
    /// call it returns from, or -1.
    pub fn new_epsilon(trg: usize, opr: isize) -> (r: Self)
        ensures
            r.kind() == TRANSITION_EPSILON,
            r.base().trans_type == TRANSITION_EPSILON,
            r.target() == trg,
            r->Epsilon_0.outermost_precedence_return == opr,
    {
        let base = BaseTransition::new(trg, TRANSITION_EPSILON);
        Transition::Epsilon(EpsilonTransition { base, outermost_precedence_return: opr })
    }

    fn new_range(trg: usize, start: isize, stop: isize) -> (r: Self)
        ensures
            r == Transition::Range(
                RangeTransition {
                    base: BaseTransition { target_nth: trg, trans_type: TRANSITION_RANGE },
                    start,
                    stop,
                },
            ),
    {
        let base = BaseTransition::new(trg, TRANSITION_RANGE);
        Transition::Range(RangeTransition { base, start, stop })
    }

    fn new_rule(trg: usize, rule_idx: isize, precedence: isize, follow_state_nth: usize) -> (r: Self)
        ensures
            r == Transition::Rule(
                RuleTransition {
                    base: BaseTransition { target_nth: trg, trans_type: TRANSITION_RULE },
                    follow_state_nth,
                    rule_idx,
                    precedence,
                },
            ),
    {
        let base = BaseTransition::new(trg, TRANSITION_RULE);
        Transition::Rule(RuleTransition { base, follow_state_nth, rule_idx, precedence })
    }

    fn new_predicate(trg: usize, rule_idx: isize, pre_idx: isize, is_ctx_dependent: bool) -> (r:
        Self)
        ensures
            r == Transition::Predicate(
                PredicateTransition {
                    base: BaseTransition { target_nth: trg, trans_type: TRANSITION_PREDICATE },
                    is_ctx_dependent,
                    rule_idx,
                    pre_idx,
                },
            ),
    {
        let base = BaseTransition::new(trg, TRANSITION_PREDICATE);
        Transition::Predicate(PredicateTransition { base, rule_idx, pre_idx, is_ctx_dependent })
    }

    fn new_atom(trg: usize, label: isize) -> (r: Self)
        ensures
            r == Transition::Atom(
                AtomTransition {
                    base: BaseTransition { target_nth: trg, trans_type: TRANSITION_ATOM },
                    label,
                },
            ),
    {
        let base = BaseTransition::new(trg, TRANSITION_ATOM);
        Transition::Atom(AtomTransition { base, label })
    }

    fn new_action(trg: usize, rule_idx: isize, action_idx: isize, is_ctx_dependent: bool) -> (r:
        Self)
        ensures
            r == Transition::Action(
                ActionTransition {
                    base: BaseTransition { target_nth: trg, trans_type: TRANSITION_ACTION },
                    is_ctx_dependent,
                    rule_idx,
                    action_idx,
                },
            ),
    {
        let base = BaseTransition::new(trg, TRANSITION_ACTION);
        Transition::Action(ActionTransition { base, rule_idx, action_idx, is_ctx_dependent })
    }

    fn new_set(trg: usize, interval_set: Rc<IntervalSet>) -> (r: Self)
        ensures
            r == Transition::InSet(
                SetTransition {
                    base: BaseTransition { target_nth: trg, trans_type: TRANSITION_SET },
                    interval_set,
                },
            ),
    {
        let base = BaseTransition::new(trg, TRANSITION_SET);
        Transition::InSet(SetTransition { base, interval_set })
    }

    fn new_not_set(trg: usize, interval_set: Rc<IntervalSet>) -> (r: Self)
        ensures
            r == Transition::NotSet(
                NotSetTransition {
                    base: BaseTransition { target_nth: trg, trans_type: TRANSITION_NOT_SET },
                    interval_set,
                },
            ),
    {
        let base = BaseTransition::new(trg, TRANSITION_NOT_SET);
        Transition::NotSet(NotSetTransition { base, interval_set })
    }

    fn new_wildcard(trg: usize) -> (r: Self)
        ensures
            r == Transition::Wildcard(
                WildcardTransition {
                    base: BaseTransition { target_nth: trg, trans_type: TRANSITION_WILDCARD },
                },
            ),
    {
        let base = BaseTransition::new(trg, TRANSITION_WILDCARD);
        Transition::Wildcard(WildcardTransition { base })
    }

    fn new_precedence(trg: usize, precedence: isize) -> (r: Self)
        ensures
            r == Transition::Precedence(
                PrecedenceTransition {
                    base: BaseTransition { target_nth: trg, trans_type: TRANSITION_PRECEDENCE },
                    precedence,
                },
            ),
    {
        let base = BaseTransition::new(trg, TRANSITION_PRECEDENCE);
        Transition::Precedence(PrecedenceTransition { base, precedence })
    }
}

/// A move without input; synthetic returns from a rule's stop state carry the
/// left-recursive rule that they leave, others -1.
#[derive(Debug)]
pub struct EpsilonTransition {
    pub base: BaseTransition,
    pub outermost_precedence_return: isize,
}

/// Matches any symbol of `start..=stop`.
#[derive(Debug)]
pub struct RangeTransition {
    pub base: BaseTransition,
    pub start: isize,
    pub stop: isize,
}

/// A call of a rule: it enters the rule's start state and resumes at
/// `follow_state_nth` once the rule is done.
#[derive(Debug)]
pub struct RuleTransition {
    pub base: BaseTransition,
    pub follow_state_nth: usize,
    pub rule_idx: isize,
    pub precedence: isize,
}

#[derive(Debug)]
pub struct PredicateTransition {
    pub base: BaseTransition,
    pub is_ctx_dependent: bool,
    pub rule_idx: isize,
    pub pre_idx: isize,
}

/// Matches the one symbol `label`.
#[derive(Debug)]
pub struct AtomTransition {
    pub base: BaseTransition,
    pub label: isize,
}

#[derive(Debug)]
pub struct ActionTransition {
    pub base: BaseTransition,
    pub is_ctx_dependent: bool,
    pub rule_idx: isize,
    pub action_idx: isize,
}

/// Matches any symbol of a shared interval set.
#[derive(Debug)]
pub struct SetTransition {
    pub base: BaseTransition,
    pub interval_set: Rc<IntervalSet>,
}

/// Matches any symbol outside a shared interval set.
#[derive(Debug)]
pub struct NotSetTransition {
    pub base: BaseTransition,
    pub interval_set: Rc<IntervalSet>,
}

#[derive(Debug)]
pub struct WildcardTransition {
    pub base: BaseTransition,
}

#[derive(Debug)]
pub struct PrecedenceTransition {
    pub base: BaseTransition,
    pub precedence: isize,
}

} // verus!
