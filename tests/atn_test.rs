use std::rc::Rc;

use antlr4rs::atn::ATN;
use antlr4rs::atn_deserialize_option::ATNDeserializeOption;
use antlr4rs::atn_deserializer::{ATNDeserializeError, ATNDeserializer};
use antlr4rs::atn_state::{ATNState, ATN_STATE_BLOCK_START, ATN_STATE_STAR_LOOP_ENTRY};
use antlr4rs::atn_type::ATNType;
use antlr4rs::dfa::DFA;
use antlr4rs::error_listener::ErrorListener;
use antlr4rs::errors::{ANTLRError, NoViableError};
use antlr4rs::recognizer::{BaseRecognizer, Recognizer};
use antlr4rs::interval_set::{Interval, IntervalSet};
use antlr4rs::lexer_action::LexerAction;
use antlr4rs::murmur3::{murmur_finish, murmur_init, murmur_update};
use antlr4rs::prediction_context::{PredictionContext, PredictionContextCache};
use antlr4rs::transition::{Transition, TRANSITION_ATOM, TRANSITION_RANGE, TRANSITION_RULE, TRANSITION_SET};

fn iv(start: isize, stop: isize) -> Interval {
    Interval { start, stop }
}

struct MyANTLRErrorListener {
    seen: usize,
}

impl ErrorListener for MyANTLRErrorListener {
    fn syntax_error<R: Recognizer>(&mut self, _recognizer: &R, _line: isize, _column: isize, _msg: &str, _err: Option<&ANTLRError>) {
        self.seen += 1;
    }
}

#[test]
fn test_antlr_workaround() {
    let recognizer = BaseRecognizer::new(&["rule1", "rule2"], &["literal1", "literal2"], &["symbolic1", "symbolic2"], "grammar.g4");
    let atn = ATN::new(ATNType::Lexer, 0);
    let cache = PredictionContextCache::new();
    assert_eq!(atn.states.len(), 0);
    assert_eq!(cache.len(), 0);
    let mut listener = MyANTLRErrorListener { seen: 0 };
    listener.syntax_error(&recognizer, 1, 0, "no viable alternative", Some(&ANTLRError::NoViableErr(NoViableError {})));
    assert_eq!(listener.seen, 1);
}

#[test]
fn interval_set_merges_three_runs_into_one() {
    let mut set = IntervalSet::new();
    set.add_range(5, 5);
    set.add_range(10, 12);
    set.add_range(6, 9);
    assert_eq!(set.intervals(), &vec![iv(5, 12)]);
}

#[test]
fn interval_set_bridge_cascades_both_neighbours() {
    let mut set = IntervalSet::new();
    set.add_range(1, 3);
    set.add_range(10, 12);
    set.add_range(4, 9);
    assert_eq!(set.intervals(), &vec![iv(1, 12)]);
}

#[test]
fn interval_set_stays_sorted_and_apart() {
    let mut set = IntervalSet::new();
    let ranges: [(isize, isize); 9] = [(20, 25), (1, 2), (8, 8), (4, 5), (3, 3), (30, 40), (26, 28), (9, 7), (35, 50)];
    for (l, r) in ranges {
        set.add_range(l, r);
        let ivs = set.intervals();
        for k in 0..ivs.len() {
            assert!(ivs[k].start <= ivs[k].stop);
            if k + 1 < ivs.len() {
                assert!(ivs[k].stop + 1 < ivs[k + 1].start);
            }
        }
    }
    assert_eq!(set.intervals(), &vec![iv(1, 5), iv(8, 8), iv(20, 28), iv(30, 50)]);
}

#[test]
fn interval_set_edges() {
    let mut set = IntervalSet::new();
    set.add_range(5, 4);
    assert!(set.intervals().is_empty());
    set.add_one(-1);
    set.add_one(-1);
    set.add_range(isize::MAX - 1, isize::MAX);
    set.add_range(isize::MIN, isize::MIN + 1);
    set.add_range(0, 10);
    set.add_range(2, 3);
    assert_eq!(set.intervals(), &vec![iv(isize::MIN, isize::MIN + 1), iv(-1, 10), iv(isize::MAX - 1, isize::MAX)]);
}

/// A parser automaton with one rule: a rule-start state and its rule-stop state.
fn one_rule_parser() -> Vec<i32> {
    vec![4, 1, 0, 2, 2, 0, 7, 0, 0, 0, 1, 0, 0, 0, 0, 0]
}

#[test]
fn deserialize_minimal_automaton() {
    let atn = ATNDeserializer::new(None).deserialize(&one_rule_parser()).unwrap();
    assert_eq!(atn.rule2start_state_nths, vec![0]);
    assert_eq!(atn.rule2stop_state_nths, vec![1]);
    assert_eq!(atn.states.len(), 2);
    assert_eq!(atn.grammar_type, ATNType::Parser);
    match &atn.states[0] {
        ATNState::RuleStart(rs) => {
            assert!(rs.contrast_set);
            assert_eq!(rs.rule_stop_state_nth, 1);
        }
        _ => panic!("state 0 is not a rule start"),
    }
}

#[test]
fn deserialize_rule_start_without_stop_fails() {
    // one rule-start state, one rule, no mode, set, edge or decision: the
    // rule's stop state is missing
    let data = vec![4, 1, 0, 1, 2, 0, 0, 0, 1, 0, 0, 0, 0, 0];
    let r = ATNDeserializer::new(None).deserialize(&data);
    assert_eq!(r.err(), Some(ATNDeserializeError::MissingBackReference));
}

#[test]
fn deserialize_block_start_without_end_fails() {
    // a block start whose block-end reference is cut off
    let data = vec![4, 1, 0, 1, ATN_STATE_BLOCK_START, 0];
    let r = ATNDeserializer::new(None).deserialize(&data);
    assert_eq!(r.err(), Some(ATNDeserializeError::Truncated));
    // a block start whose block-end reference names a state that is no block end
    let data = vec![4, 1, 0, 2, ATN_STATE_BLOCK_START, 0, 1, 1, 0, 0, 0, 0, 0, 0, 0, 0];
    let r = ATNDeserializer::new(None).deserialize(&data);
    assert_eq!(r.err(), Some(ATNDeserializeError::WrongStateKind));
}

#[test]
fn deserialize_empty_automata() {
    let parser = ATNDeserializer::new(None).deserialize(&[4, 1, 7, 0, 0, 0, 0, 0, 0, 0, 0]).unwrap();
    assert_eq!(parser.grammar_type, ATNType::Parser);
    assert_eq!(parser.max_token_type, 7);
    assert!(parser.states.is_empty() && parser.rule2start_state_nths.is_empty());
    let lexer = ATNDeserializer::new(None).deserialize(&[4, 0, 2, 0, 0, 0, 0, 0, 0, 0, 0, 0]).unwrap();
    assert_eq!(lexer.grammar_type, ATNType::Lexer);
    assert!(lexer.lexer_actions.is_empty() && lexer.mode2start_state_nths.is_empty());
    let cut = ATNDeserializer::new(None).deserialize(&[4, 0, 2, 0, 0, 0, 0, 0, 0, 0, 0]);
    assert_eq!(cut.err(), Some(ATNDeserializeError::Truncated));
}

#[test]
fn deserialize_structural_errors() {
    let d = ATNDeserializer::new(None);
    // two block starts claim one block end
    let shared_end = [4, 1, 0, 3, 3, 0, 2, 3, 0, 2, 8, 0, 0, 0, 0, 0, 0, 0, 0];
    assert_eq!(d.deserialize(&shared_end).err(), Some(ATNDeserializeError::DuplicateBackReference));
    // a basic state with two transitions that consume input
    let two_atoms = [4, 1, 0, 2, 1, 0, 1, 0, 0, 0, 0, 0, 0, 2, 0, 1, 5, 65, 0, 0, 0, 1, 5, 66, 0, 0, 0];
    assert_eq!(d.deserialize(&two_atoms).err(), Some(ATNDeserializeError::BadShape));
    let lenient = ATNDeserializer::new(Some(ATNDeserializeOption {
        read_only: true,
        verify_atn: false,
        gen_rule_bypass_transitions: false,
    }));
    let atn = lenient.deserialize(&two_atoms).unwrap();
    assert_eq!(atn.states[0].transitions().len(), 2);
    // a lexer action of no known kind
    let bad_action = [4, 0, 0, 0, 0, 0, 0, 0, 0, 0, 0, 1, 9, 0, 0];
    assert_eq!(d.deserialize(&bad_action).err(), Some(ATNDeserializeError::InvalidLexerActionType));
    // a decision that names a state which decides nothing
    let not_decision = [4, 1, 0, 1, 1, 0, 0, 0, 0, 0, 0, 0, 1, 0];
    assert_eq!(d.deserialize(&not_decision).err(), Some(ATNDeserializeError::WrongStateKind));
}

#[test]
fn deserialize_errors() {
    let d = ATNDeserializer::new(None);
    assert_eq!(d.deserialize(&[]).err(), Some(ATNDeserializeError::Truncated));
    assert_eq!(d.deserialize(&[3, 1, 0, 0]).err(), Some(ATNDeserializeError::VersionMismatch));
    assert_eq!(d.deserialize(&[4, 2, 0, 0]).err(), Some(ATNDeserializeError::InvalidGrammarType));
    assert_eq!(d.deserialize(&[4, 1, 0, 1, 13, 0]).err(), Some(ATNDeserializeError::InvalidStateType));
    assert_eq!(d.deserialize(&[4, 1, 0, -1]).err(), Some(ATNDeserializeError::IndexOutOfRange));
    let mut bad_edge = one_rule_parser();
    bad_edge[14] = 1;
    bad_edge.truncate(15);
    bad_edge.extend_from_slice(&[0, 1, 11, 0, 0, 0, 0]);
    assert_eq!(d.deserialize(&bad_edge).err(), Some(ATNDeserializeError::InvalidTransitionType));
    let bypass = ATNDeserializer::new(Some(ATNDeserializeOption {
        read_only: true,
        verify_atn: true,
        gen_rule_bypass_transitions: true,
    }));
    assert_eq!(bypass.deserialize(&one_rule_parser()).err(), Some(ATNDeserializeError::BypassUnsupported));
}

/// A lexer automaton: mode start, rule start and stop, a set transition and a
/// lexer action.
#[test]
fn deserialize_lexer_with_edges_and_actions() {
    let data = vec![
        4, 0, 3, // version, lexer, max token type
        4, // states
        6, 0, // token start
        2, 0, // rule start
        1, 0, // basic
        7, 0, // rule stop
        0, 0, // non-greedy, precedence
        1, 1, 1, // one rule: start 1, token type 1
        1, 0, // one mode starting at 0
        1, 1, 0, 97, 99, // one set: [97, 99], no EOF
        3, // edges
        0, 1, 1, 0, 0, 0, // token start -> rule start, epsilon
        1, 2, 7, 0, 0, 0, // rule start -> basic, set 0
        2, 3, 1, 0, 0, 0, // basic -> rule stop, epsilon
        1, 0, // one decision: state 0
        1, 6, 0, 0, // one lexer action: skip
    ];
    let atn = ATNDeserializer::new(None).deserialize(&data).unwrap();
    assert_eq!(atn.grammar_type, ATNType::Lexer);
    assert_eq!(atn.max_token_type, 3);
    assert_eq!(atn.mode2start_state_nths, vec![0]);
    assert_eq!(atn.rule2token_type, vec![1]);
    assert_eq!(atn.decision2state_nth, vec![0]);
    assert_eq!(atn.lexer_actions.len(), 1);
    assert!(matches!(atn.lexer_actions[0], LexerAction::Skip(_)));
    match &atn.states[1].transitions()[0] {
        Transition::InSet(s) => assert_eq!(s.interval_set.intervals(), &vec![iv(97, 99)]),
        _ => panic!("expected a set transition"),
    }
    assert!(atn.states[0].base_atn_state().epsilon_only_trans);
    assert!(!atn.states[1].base_atn_state().epsilon_only_trans);
}

/// A rule with a star loop whose loop end leads to the rule's stop state;
/// when the rule is left-recursive the loop entry is a precedence decision.
fn star_loop_parser(left_recursive: bool) -> Vec<i32> {
    let mut data = vec![
        4, 1, 1, // version, parser, max token type
        7, // states
        2, 0, // 0 rule start
        ATN_STATE_STAR_LOOP_ENTRY, 0, // 1 star loop entry
        5, 0, 3, // 2 star block start, ends at 3
        8, 0, // 3 block end
        9, 0, // 4 star loopback
        12, 0, 4, // 5 loop end, loopback 4
        7, 0, // 6 rule stop
        0, // non-greedy
        if left_recursive { 1 } else { 0 }, // precedence states
    ];
    if left_recursive {
        data.push(0); // rule start 0
    }
    data.extend_from_slice(&[
        1, 0, // one rule starting at 0
        0, // modes
        0, // sets
        7, // edges
        0, 1, 1, 0, 0, 0, // rule start -> entry
        1, 2, 1, 0, 0, 0, // entry -> star block start
        1, 5, 1, 0, 0, 0, // entry -> loop end
        2, 3, 5, 1, 0, 0, // star block start -> block end, atom 1
        3, 4, 1, 0, 0, 0, // block end -> loopback
        4, 1, 1, 0, 0, 0, // loopback -> entry
        5, 6, 1, 0, 0, 0, // loop end -> rule stop
        1, 1, // one decision: state 1
    ]);
    data
}

#[test]
fn precedence_decision_seeds_start_state() {
    let atn = ATNDeserializer::new(None).deserialize(&star_loop_parser(true)).unwrap();
    match &atn.states[1] {
        ATNState::StarLoopEntry(sle) => {
            assert!(sle.precedence_decision);
            assert_eq!(sle.star_loopback_state_nth, 4);
        }
        _ => panic!("state 1 is not a star loop entry"),
    }
    let dfa = DFA::new(&atn, 1, 0);
    assert!(dfa.precedence_dfa);
    let s0 = dfa.s0.as_ref().unwrap();
    assert!(!s0.accept_state);
    assert!(!s0.requires_full_context);
    assert!(s0.configs.configs.is_empty());
    let plain = DFA::new(&atn, 0, 0);
    assert!(plain.s0.is_none());
    assert!(!plain.precedence_dfa);
    let atn = ATNDeserializer::new(None).deserialize(&star_loop_parser(false)).unwrap();
    assert!(matches!(&atn.states[1], ATNState::StarLoopEntry(sle) if !sle.precedence_decision));
    let dfa = DFA::new(&atn, 1, 0);
    assert!(dfa.s0.is_none());
}

#[test]
fn equal_contexts_are_one_instance() {
    let mut cache = PredictionContextCache::new();
    let empty = cache.add(PredictionContext::new_empty());
    let a = cache.add(PredictionContext::new_singleton(empty, 7));
    let other = cache.add(PredictionContext::new_singleton(empty, 8));
    let b = cache.add(PredictionContext::new_singleton(empty, 7));
    assert_eq!(a, b);
    assert_ne!(a, other);
    assert_eq!(cache.len(), 3);
    let x = cache.add(PredictionContext::new_array(vec![a, other], vec![3, 4]));
    let y = cache.add(PredictionContext::new_array(vec![a, other], vec![3, 4]));
    let z = cache.add(PredictionContext::new_array(vec![a, other], vec![4, 3]));
    assert_eq!(x, y);
    assert_ne!(x, z);
    assert_eq!(cache.len(), 5);
    assert!(cache.get(empty).is_empty());
}

#[test]
fn murmur_known_values() {
    // MurmurHash3 x86_32 of the empty input with seed 0 is 0, and of the
    // single word 0 with seed 0 is 0x2362f9de
    assert_eq!(murmur_finish(murmur_init(0), 0), 0);
    assert_eq!(murmur_finish(murmur_update(murmur_init(0), 0), 1), 0x2362f9de);
    assert_ne!(murmur_update(1, 2), murmur_update(1, 3));
}

#[test]
fn transitions_from_edge_records() {
    let sets = vec![Rc::new(IntervalSet::new())];
    let t = Transition::new(TRANSITION_RANGE, 3, 10, 20, 1, &sets);
    match &t {
        Transition::Range(r) => {
            assert_eq!((r.start, r.stop), (-1, 20));
        }
        _ => panic!("expected a range"),
    }
    assert_eq!(t.target_nth(), 3);
    assert!(!t.is_epsilon());
    let t = Transition::new(TRANSITION_RULE, 3, 5, 2, 0, &sets);
    assert_eq!(t.target_nth(), 5);
    assert!(t.is_epsilon());
    match &t {
        Transition::Rule(r) => assert_eq!((r.follow_state_nth, r.rule_idx, r.precedence), (3, 2, 0)),
        _ => panic!("expected a rule transition"),
    }
    let t = Transition::new(TRANSITION_ATOM, 1, 65, 0, 0, &sets);
    assert!(matches!(t, Transition::Atom(ref a) if a.label == 65));
    let t = Transition::new(TRANSITION_SET, 1, 0, 0, 0, &sets);
    assert!(matches!(t, Transition::InSet(_)));
}

#[test]
fn add_transition_tracks_epsilon_only() {
    let sets: Vec<Rc<IntervalSet>> = vec![];
    let mut s = ATNState::new(1, 0, 0);
    assert!(!s.base_atn_state().epsilon_only_trans);
    s.add_transition(Transition::new_epsilon(1, -1), -1);
    assert!(s.base_atn_state().epsilon_only_trans);
    s.add_transition(Transition::new(TRANSITION_ATOM, 2, 65, 0, 0, &sets), 0);
    assert!(!s.base_atn_state().epsilon_only_trans);
    assert_eq!(s.transitions()[0].target_nth(), 2);
    assert_eq!(s.transitions()[1].target_nth(), 1);
    assert!(s.to_block_start().is_none());
    let mut b = ATNState::new(ATN_STATE_BLOCK_START, 0, 5);
    b.to_block_start_mut().unwrap().block_end_state_nth = 9;
    assert_eq!(b.to_block_start().unwrap().block_end_state_nth, 9);
    assert_eq!(b.to_decision_state().unwrap().decision, -1);
    assert_eq!(b.rule_index(), 0);
}

#[test]
fn lexer_actions_from_records() {
    assert!(matches!(LexerAction::new(0, 2, 0), LexerAction::Channel(ref c) if c.channel == 2));
    assert!(matches!(LexerAction::new(1, 3, 4), LexerAction::Custom(ref c) if c.rule_idx == 3 && c.action_idx == 4));
    assert!(matches!(LexerAction::new(5, 1, 0), LexerAction::PushMode(ref m) if m.mode == 1));
    assert!(matches!(LexerAction::new(7, 9, 0), LexerAction::Type(ref t) if t.the_type == 9));
    assert!(matches!(LexerAction::new(4, 0, 0), LexerAction::PopMode(_)));
}

#[test]
fn read_sets_closed_pairs_and_eof() {
    let data = vec![
        4, 0, 3, // version, lexer, max token type
        2, 6, 0, 1, 0, // token start, basic
        0, 0, // non-greedy, precedence
        0, // rules
        1, 0, // one mode starting at 0
        2, 1, 0, 97, 122, 2, 1, 48, 57, 65, 70, // two sets
        2, // edges
        0, 1, 7, 0, 0, 0, // token start -> rule stop, set 0
        0, 1, 8, 1, 0, 0, // token start -> rule stop, not set 1
        0, // decisions
        0, // lexer actions
    ];
    let lenient = ATNDeserializer::new(Some(ATNDeserializeOption {
        read_only: true,
        verify_atn: false,
        gen_rule_bypass_transitions: false,
    }));
    let atn = lenient.deserialize(&data).unwrap();
    match &atn.states[0].transitions()[0] {
        Transition::InSet(s) => assert_eq!(s.interval_set.intervals(), &vec![iv(97, 122)]),
        _ => panic!("expected a set transition"),
    }
    match &atn.states[0].transitions()[1] {
        Transition::NotSet(s) => assert_eq!(s.interval_set.intervals(), &vec![iv(-1, -1), iv(48, 57), iv(65, 70)]),
        _ => panic!("expected a not-set transition"),
    }
}
