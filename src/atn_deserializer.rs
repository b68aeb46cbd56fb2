use std::rc::Rc;
use vstd::prelude::*;
use crate::atn::ATN;
use crate::atn_deserialize_option::ATNDeserializeOption;
use crate::atn_encoding::{
    actions_section, after_states, encoding_in_data, sets_section, decision_kind_code, lemma_decision_code, all_returns, lemma_all_returns_same, lemma_returns_to_epsilon,
    return_edge, return_transition, returns_to, state_returns, back_refs_kept, lemma_refs_step, only_mark_changed, lemma_loop_edge_frame, lemma_recorded_kept, links_frame,
    loop_edge, loopback_of, loopback_recorded, loopbacks_recorded, block_sealed, encoding_end, edge_count, edges_attached, entry_markable, lemma_edges_kept,
    lemma_attach_step, lemma_extend_step, transitions_extend, rules_section_ok, states_section_ok, state_record_ok, no_later_stop, stop_recorded, lemma_listed_step, listed, state_read, states_read, last_position, lemma_same_kind, lemma_sets_fit_prefix, pairs_hold, set_holds, sets_fit, decisions_section, edges_section, empty_encoding, frame_kept,
    is_left_recursion_loop, lemma_left_recursion_loop_kept, lemma_no_marks_kept, lemma_sealed_kept,
    lemma_skeleton_step, lemma_skeleton_trans, lemma_states_match_kept, marked_upto, marks_kept,
    modes_section, no_precedence_marks, rule_record_pos, rules_section, set_record_pos, shape_kept,
    skeleton_kept, state_record_len, state_record_pos, states_match, tables_kept, zero_at,
};
use crate::atn_state::{valid_state_type, ATNState, ATN_STATE_LOOP_END, ATN_STATE_RULE_START};
use crate::atn_type::ATNType;
use crate::interval_set::{canonical, covers, IntervalSet};
use crate::lexer_action::{
    valid_lexer_action_type, LexerAction, LEXER_ACTION_CHANNEL, LEXER_ACTION_TYPE,
};
use crate::transition::{
    Transition, TRANSITION_EPSILON, TRANSITION_NOT_SET, TRANSITION_PRECEDENCE, TRANSITION_RULE,
    TRANSITION_SET,
};

verus! {

/// The only encoding version that this runtime reads.
pub const SERIALIZED_VERSION: isize = 4;

/// Why an encoded automaton was refused. Each one means the encoding is
/// corrupt; nothing is built.
#[derive(Debug, Clone, Copy, PartialEq, Eq, Structural)]
pub enum ATNDeserializeError {
    /// The first integer is not `SERIALIZED_VERSION`.
    VersionMismatch,
    /// The data ends inside a section.
    Truncated,
    /// The grammar type is neither lexer (0) nor parser (1).
    InvalidGrammarType,
    InvalidStateType,
    InvalidTransitionType,
    InvalidLexerActionType,
    /// A count or an index is negative, or an index lies outside its table.
    IndexOutOfRange,
    /// An index names a state of another kind than the one required there.
    WrongStateKind,
    /// One half of a pair has no partner recorded.
    MissingBackReference,
    /// A block end is claimed by two block starts.
    DuplicateBackReference,
    /// A state fails the structural verification pass.
    BadShape,
    /// Rule-bypass transitions were asked for; they are not available.
    BypassUnsupported,
}

/// Reads the integer at `*pos` and moves past it.
fn next_int(data: &[i32], pos: &mut usize) -> (r: Result<i32, ATNDeserializeError>)
    ensures
        *old(pos) < data@.len() ==> r == Ok::<i32, ATNDeserializeError>(data@[*old(pos) as int])
            && *final(pos) == *old(pos) + 1,
        *old(pos) >= data@.len() ==> r == Err::<i32, ATNDeserializeError>(
            ATNDeserializeError::Truncated,
        ) && *final(pos) == *old(pos),
{
    if *pos < data.len() {
        let v = data[*pos];
        *pos = *pos + 1;
        Ok(v)
    } else {
        Err(ATNDeserializeError::Truncated)
    }
}

/// Reads a count or an index, which may not be negative.
fn next_index(data: &[i32], pos: &mut usize) -> (r: Result<usize, ATNDeserializeError>)
    ensures
        r is Ok ==> *old(pos) < data@.len() && data@[*old(pos) as int] >= 0 && r->Ok_0
            == data@[*old(pos) as int] && *final(pos) == *old(pos) + 1,
        *old(pos) < data@.len() && data@[*old(pos) as int] >= 0 ==> r is Ok,
{
    let v = next_int(data, pos)?;
    if v < 0 {
        return Err(ATNDeserializeError::IndexOutOfRange);
    }
    Ok(v as usize)
}

/// Reads an encoded automaton.
#[derive(Debug)]
pub struct ATNDeserializer {
    pub des_opt: ATNDeserializeOption,
}

impl ATNDeserializer {
    /// A deserializer with `options`, or the default ones.
    pub fn new(options: Option<ATNDeserializeOption>) -> (r: Self)
        ensures
            options is Some ==> r.des_opt == options->Some_0,
            options is None ==> r.des_opt.verify_atn && !r.des_opt.gen_rule_bypass_transitions
                && r.des_opt.read_only,
    {
        let des_opt = match options {
            Some(o) => o,
            None => ATNDeserializeOption::default(),
        };
        Self { des_opt }
    }

    fn check_version(&self, data: &[i32], pos: &mut usize) -> (r: Result<(), ATNDeserializeError>)
        requires
            *old(pos) == 0,
        ensures
            data@.len() == 0 ==> r
                == Err::<(), ATNDeserializeError>(ATNDeserializeError::Truncated),
            data@.len() > 0 && data@[0] != SERIALIZED_VERSION ==> r
                == Err::<(), ATNDeserializeError>(
                ATNDeserializeError::VersionMismatch,
            ),
            data@.len() > 0 && data@[0] == SERIALIZED_VERSION ==> r is Ok && *final(pos) == 1,
    {
        let ver = next_int(data, pos)?;
        if ver as isize != SERIALIZED_VERSION {
            return Err(ATNDeserializeError::VersionMismatch);
        }
        Ok(())
    }

    fn read_atn(&self, data: &[i32], pos: &mut usize) -> (r: Result<ATN, ATNDeserializeError>)
        ensures
            r is Ok ==> *old(pos) + 2 <= data@.len() && *final(pos) == *old(pos) + 2 && (
            r->Ok_0.grammar_type == if data@[*old(pos) as int] == 0 {
                ATNType::Lexer
            } else {
                ATNType::Parser
            }) && (data@[*old(pos) as int] == 0 || data@[*old(pos) as int] == 1)
                && r->Ok_0.max_token_type == data@[*old(pos) + 1] && r->Ok_0.states@.len() == 0
                && r->Ok_0.rule2start_state_nths@.len() == 0 && r->Ok_0.rule2stop_state_nths@.len()
                == 0 && r->Ok_0.mode2start_state_nths@.len() == 0
                && r->Ok_0.decision2state_nth@.len() == 0 && r->Ok_0.lexer_actions@.len() == 0
                && r->Ok_0.rule2token_type@.len() == 0,
            *old(pos) + 2 <= data@.len() && (data@[*old(pos) as int] == 0 || data@[*old(pos) as int]
                == 1) ==> r is Ok,
            *old(pos) >= data@.len() ==> r == Err::<ATN, ATNDeserializeError>(
                ATNDeserializeError::Truncated,
            ),
            *old(pos) < data@.len() && !(data@[*old(pos) as int] == 0 || data@[*old(pos) as int]
                == 1)
                ==> r == Err::<ATN, ATNDeserializeError>(ATNDeserializeError::InvalidGrammarType),
            *old(pos) + 1 == data@.len() && (data@[*old(pos) as int] == 0 || data@[*old(pos) as int]
                == 1) ==> r == Err::<ATN, ATNDeserializeError>(ATNDeserializeError::Truncated),
    {
        let grammar_type = match next_int(data, pos)? {
            0 => ATNType::Lexer,
            1 => ATNType::Parser,
            _ => return Err(ATNDeserializeError::InvalidGrammarType),
        };
        let max_token_type = next_int(data, pos)?;
        Ok(ATN::new(grammar_type, max_token_type as isize))
    }

    /// Reads the states, each with its partner when it is a loop end or a
    /// block start, then marks the non-greedy decisions and the left-recursive
    /// rules.
    fn read_states(&self, data: &[i32], pos: &mut usize, atn: &mut ATN) -> (r: Result<
        (),
        ATNDeserializeError,
    >)
        requires
            old(atn).states@.len() == 0,
        ensures
            final(atn).grammar_type == old(atn).grammar_type,
            final(atn).max_token_type == old(atn).max_token_type,
            r is Ok ==> *old(pos) < data@.len() && final(atn).states@.len()
                == data@[*old(pos) as int]
                && states_match(final(atn).states@, data@, *old(pos) + 1) && *final(pos)
                    == after_states(
                data@,
                *old(pos) as int,
            ),
            zero_at(data@, *old(pos) as int) && zero_at(data@, *old(pos) + 1) && zero_at(
                data@,
                *old(pos) + 2,
            ) ==> r is Ok && *final(pos) == *old(pos) + 3,
            r is Ok ==> no_precedence_marks(final(atn).states@),
            r is Ok ==> states_read(final(atn).states@, data@, *old(pos) + 1),
            r is Ok ==> {
                let q0 = state_record_pos(data@, *old(pos) + 1, data@[*old(pos) as int] as nat);
                let q1 = q0 + 1 + data@[q0];
                &&& forall|j: int|
                    0 <= j < data@[q0] ==> 0 <= #[trigger] data@[q0 + 1 + j] < final(atn).states@.len()
                        && final(atn).states@[data@[q0 + 1 + j] as int].is_decision_kind()
                &&& forall|j: int|
                    0 <= j < data@[q1] ==> 0 <= #[trigger] data@[q1 + 1 + j] < final(atn).states@.len()
                        && final(atn).states@[data@[q1 + 1 + j] as int] is RuleStart
            },
            states_section_ok(data@, *old(pos) as int) ==> r is Ok,
            r is Ok ==> states_section_ok(data@, *old(pos) as int),
            r is Ok ==> forall|i: int|
                0 <= i < final(atn).states@.len() ==> valid_state_type(
                    #[trigger] data@[state_record_pos(data@, *old(pos) + 1, i as nat)],
                ),
            r is Ok ==> {
                let q0 = state_record_pos(data@, *old(pos) + 1, data@[*old(pos) as int] as nat);
                let q1 = q0 + 1 + data@[q0];
                &&& forall|i: int|
                    0 <= i < final(atn).states@.len()
                        && (#[trigger] final(atn).states@[i]).is_decision_kind()
                        ==> (final(atn).states@[i].decision_part().non_greedy
                        <==> listed(data@, q0, data@[q0] as int, i))
                &&& forall|i: int|
                    0 <= i < final(atn).states@.len()
                        && (#[trigger] final(atn).states@[i]) is RuleStart
                        ==> (final(atn).states@[i]->RuleStart_0.left_recursive <==> listed(
                        data@,
                        q1,
                        data@[q1] as int,
                        i,
                    ))
            },
            tables_kept(old(atn), final(atn)),
    {
        let ghost ok = states_section_ok(data@, *pos as int);
        let ghost states_num_at = *pos;
        let states_num = next_index(data, pos)?;
        let ghost states_num_end = *pos;
        let mut states: Vec<ATNState> = Vec::new();
        let mut nth: usize = 0;
        while nth < states_num
            invariant
                states_num_at == *old(pos),
                *pos == state_record_pos(data@, *old(pos) + 1, nth as nat),
                states_match(states@, data@, *old(pos) + 1),
                no_precedence_marks(states@),
                states_read(states@, data@, *old(pos) + 1),
                ok == states_section_ok(data@, *old(pos) as int),
                states_num == data@[*old(pos) as int],
                *pos <= data@.len(),
                forall|i: nat| i < nth ==> #[trigger] state_record_ok(data@, *old(pos) + 1, i),
                forall|i: int|
                    0 <= i < states@.len() && (#[trigger] states@[i]).is_decision_kind()
                        ==> !states@[i].decision_part().non_greedy,
                forall|i: int|
                    0 <= i < states@.len() && (#[trigger] states@[i]) is RuleStart
                        ==> !states@[i]->RuleStart_0.left_recursive,
                zero_at(data@, states_num_at as int) ==> states_num == 0 && *pos == states_num_end,
                states@.len() == nth,
                nth <= states_num,
            decreases states_num - nth,
        {
            let ghost q = *pos;
            proof {
                if ok {
                    assert(state_record_ok(data@, *old(pos) + 1, nth as nat));
                }
            }
            let state_type = next_int(data, pos)?;
            if !ATNState::check_type(state_type) {
                return Err(ATNDeserializeError::InvalidStateType);
            }
            let rule_idx = next_int(data, pos)?;
            let mut atn_state = ATNState::new(state_type, #[verifier::truncate] (rule_idx as usize), nth);
            if state_type == ATN_STATE_LOOP_END {
                let loopback = next_index(data, pos)?;
                if let ATNState::LoopEnd(le) = &mut atn_state {
                    le.loopback_state_nth = loopback;
                    le.contrast_set = true;
                }
            } else if atn_state.instance_of_block_start() {
                let block_end = next_index(data, pos)?;
                if let Some(bs) = atn_state.to_block_start_mut() {
                    bs.block_end_state_nth = block_end;
                    bs.contrast_set = true;
                }
            }
            proof {
                assert(atn_state.kind() == data@[q as int] && atn_state.base().rule_idx
                    == data@[q + 1] as usize);
                assert(*pos == q + state_record_len(data@[q as int]));
            }
            let ghost prev_states = states@;
            proof {
                assert(state_record_ok(data@, *old(pos) + 1, nth as nat));
            }
            states.push(atn_state);
            proof {
                assert(states@[nth as int] == atn_state);
                assert forall|i: int| 0 <= i < states@.len() implies {
                    let q2 = state_record_pos(data@, *old(pos) + 1, i as nat);
                    &&& #[trigger] states@[i].kind() == data@[q2]
                    &&& states@[i].base().rule_idx == data@[q2 + 1] as usize
                } by {
                    if i < nth {
                        assert(states@[i] == prev_states[i]);
                    }
                }
                assert forall|i: int| 0 <= i < states@.len() implies state_read(
                    #[trigger] states@[i],
                    data@,
                    state_record_pos(data@, *old(pos) + 1, i as nat),
                ) by {
                    if i < nth {
                        assert(states@[i] == prev_states[i]);
                    }
                }
                assert(atn_state is StarLoopEntry
                    ==> !atn_state->StarLoopEntry_0.precedence_decision);
            }
            nth += 1;
        }
        atn.states = states;
        let len = atn.states.len();

        let ghost non_greedy_states_num_at = *pos;
        let non_greedy_states_num = next_index(data, pos)?;
        let ghost non_greedy_states_num_end = *pos;
        let mut k: usize = 0;
        while k < non_greedy_states_num
            invariant
                zero_at(data@, *old(pos) as int) && zero_at(data@, *old(pos) + 1)
                    && zero_at(data@, *old(pos) + 2) ==> non_greedy_states_num_at == *old(pos) + 1,
                zero_at(data@, non_greedy_states_num_at as int) ==> non_greedy_states_num == 0
                    && *pos == non_greedy_states_num_end,
                *pos == non_greedy_states_num_end + k,
                *pos <= data@.len(),
                k <= non_greedy_states_num,
                non_greedy_states_num_end == non_greedy_states_num_at + 1,
                forall|j: int|
                    0 <= j < k ==> 0 <= #[trigger] data@[non_greedy_states_num_at + 1 + j] < len
                        && atn.states@[data@[non_greedy_states_num_at + 1 + j] as int].is_decision_kind(),
                ok == states_section_ok(data@, *old(pos) as int),
                ok ==> non_greedy_states_num_at
                    == state_record_pos(data@, *old(pos) + 1, len as nat),
                non_greedy_states_num == data@[non_greedy_states_num_at as int],
                states_read(atn.states@, data@, *old(pos) + 1),
                forall|i: int|
                    0 <= i < len && (#[trigger] atn.states@[i]).is_decision_kind()
                        ==> (atn.states@[i].decision_part().non_greedy <==> listed(
                        data@,
                        non_greedy_states_num_at as int,
                        k as int,
                        i,
                    )),
                forall|i: int|
                    0 <= i < len && (#[trigger] atn.states@[i]) is RuleStart
                        ==> !atn.states@[i]->RuleStart_0.left_recursive,
                states_match(atn.states@, data@, *old(pos) + 1),
                no_precedence_marks(atn.states@),
                len == data@[*old(pos) as int],
                atn.states@.len() == len,
                atn.grammar_type == old(atn).grammar_type,
                atn.max_token_type == old(atn).max_token_type,
                tables_kept(old(atn), atn),
            decreases non_greedy_states_num - k,
        {
            proof {
                if ok {
                    let x = data@[non_greedy_states_num_at + 1 + k];
                    assert(0 <= x < len);
                    assert(atn.states@[x as int].kind()
                        == data@[state_record_pos(data@, *old(pos) + 1, x as nat)]);
                }
            }
            let nth = next_index(data, pos)?;
            if nth >= atn.states.len() {
                return Err(ATNDeserializeError::IndexOutOfRange);
            }
            let ghost before = atn.states@;
            match atn.states[nth].to_decision_state_mut() {
                Some(d) => {
                    d.non_greedy = true;
                },
                None => {
                    return Err(ATNDeserializeError::WrongStateKind);
                },
            }
            proof {
                assert(nth as i32 == data@[non_greedy_states_num_at + 1 + k]);
                assert forall|j: int|
                    0 <= j < k + 1 implies 0 <= #[trigger] data@[non_greedy_states_num_at + 1 + j] < len
                        && atn.states@[data@[non_greedy_states_num_at + 1 + j] as int].is_decision_kind() by {
                    let x = data@[non_greedy_states_num_at + 1 + j] as int;
                    if x != nth {
                        assert(atn.states@[x] == before[x]);
                    }
                }
                assert forall|i: int|
                    0 <= i < len && (#[trigger] atn.states@[i]).is_decision_kind() implies (
                    atn.states@[i].decision_part().non_greedy <==> listed(
                        data@,
                        non_greedy_states_num_at as int,
                        k + 1,
                        i,
                    )) by {
                    lemma_listed_step(data@, non_greedy_states_num_at as int, k as int, i);
                    if i != nth {
                        assert(atn.states@[i] == before[i]);
                    }
                }
                assert forall|i: int| 0 <= i < len implies state_read(
                    #[trigger] atn.states@[i],
                    data@,
                    state_record_pos(data@, *old(pos) + 1, i as nat),
                ) by {
                    assert(state_read(before[i], data@, state_record_pos(data@, *old(pos) + 1, i as nat)));
                    if i != nth {
                        assert(atn.states@[i] == before[i]);
                    }
                }
                assert forall|i: int|
                    0 <= i < len && (#[trigger] atn.states@[i]) is RuleStart
                        implies !atn.states@[i]->RuleStart_0.left_recursive by {
                    if i != nth {
                        assert(atn.states@[i] == before[i]);
                    }
                }
                lemma_skeleton_step(before, atn.states@, nth as int);
                lemma_states_match_kept(before, atn.states@, data@, *old(pos) + 1);
                lemma_no_marks_kept(before, atn.states@);
            }
            k += 1;
        }

        let ghost precedence_states_num_at = *pos;
        let precedence_states_num = next_index(data, pos)?;
        let ghost precedence_states_num_end = *pos;
        let mut k: usize = 0;
        while k < precedence_states_num
            invariant
                zero_at(data@, *old(pos) as int) && zero_at(data@, *old(pos) + 1)
                    && zero_at(data@, *old(pos) + 2) ==> precedence_states_num_at == *old(pos) + 2,
                zero_at(data@, precedence_states_num_at as int) ==> precedence_states_num == 0
                    && *pos == precedence_states_num_end,
                *pos == precedence_states_num_end + k,
                *pos <= data@.len(),
                k <= precedence_states_num,
                precedence_states_num_end == precedence_states_num_at + 1,
                forall|j: int|
                    0 <= j < non_greedy_states_num ==> 0 <= #[trigger] data@[non_greedy_states_num_at + 1 + j] < len
                        && atn.states@[data@[non_greedy_states_num_at + 1 + j] as int].is_decision_kind(),
                forall|j: int|
                    0 <= j < k ==> 0 <= #[trigger] data@[precedence_states_num_at + 1 + j] < len
                        && atn.states@[data@[precedence_states_num_at + 1 + j] as int] is RuleStart,
                ok == states_section_ok(data@, *old(pos) as int),
                ok ==> precedence_states_num_at
                    == state_record_pos(data@, *old(pos) + 1, len as nat) + 1 + data@[state_record_pos(data@, *old(pos) + 1, len as nat)],
                precedence_states_num == data@[precedence_states_num_at as int],
                states_read(atn.states@, data@, *old(pos) + 1),
                forall|i: int|
                    0 <= i < len && (#[trigger] atn.states@[i]).is_decision_kind()
                        ==> (atn.states@[i].decision_part().non_greedy <==> listed(
                        data@,
                        non_greedy_states_num_at as int,
                        non_greedy_states_num as int,
                        i,
                    )),
                forall|i: int|
                    0 <= i < len && (#[trigger] atn.states@[i]) is RuleStart
                        ==> (atn.states@[i]->RuleStart_0.left_recursive <==> listed(
                        data@,
                        precedence_states_num_at as int,
                        k as int,
                        i,
                    )),
                states_match(atn.states@, data@, *old(pos) + 1),
                no_precedence_marks(atn.states@),
                len == data@[*old(pos) as int],
                atn.states@.len() == len,
                atn.grammar_type == old(atn).grammar_type,
                atn.max_token_type == old(atn).max_token_type,
                tables_kept(old(atn), atn),
            decreases precedence_states_num - k,
        {
            proof {
                if ok {
                    let x = data@[precedence_states_num_at + 1 + k];
                    assert(0 <= x < len);
                    assert(atn.states@[x as int].kind()
                        == data@[state_record_pos(data@, *old(pos) + 1, x as nat)]);
                }
            }
            let nth = next_index(data, pos)?;
            if nth >= atn.states.len() {
                return Err(ATNDeserializeError::IndexOutOfRange);
            }
            let ghost before = atn.states@;
            match atn.states[nth].to_rule_start_state_mut() {
                Some(rs) => {
                    rs.left_recursive = true;
                },
                None => {
                    return Err(ATNDeserializeError::WrongStateKind);
                },
            }
            proof {
                assert(nth as i32 == data@[precedence_states_num_at + 1 + k]);
                assert forall|j: int|
                    0 <= j < k + 1 implies 0 <= #[trigger] data@[precedence_states_num_at + 1 + j] < len
                        && atn.states@[data@[precedence_states_num_at + 1 + j] as int] is RuleStart by {
                    let x = data@[precedence_states_num_at + 1 + j] as int;
                    if x != nth {
                        assert(atn.states@[x] == before[x]);
                    }
                }
                assert forall|j: int|
                    0 <= j < non_greedy_states_num implies 0 <= #[trigger] data@[non_greedy_states_num_at + 1 + j] < len
                        && atn.states@[data@[non_greedy_states_num_at + 1 + j] as int].is_decision_kind() by {
                    let x = data@[non_greedy_states_num_at + 1 + j] as int;
                    if x != nth {
                        assert(atn.states@[x] == before[x]);
                    }
                }
                assert forall|i: int|
                    0 <= i < len && (#[trigger] atn.states@[i]) is RuleStart implies (
                    atn.states@[i]->RuleStart_0.left_recursive <==> listed(
                        data@,
                        precedence_states_num_at as int,
                        k + 1,
                        i,
                    )) by {
                    lemma_listed_step(data@, precedence_states_num_at as int, k as int, i);
                    if i != nth {
                        assert(atn.states@[i] == before[i]);
                    }
                }
                assert forall|i: int| 0 <= i < len implies state_read(
                    #[trigger] atn.states@[i],
                    data@,
                    state_record_pos(data@, *old(pos) + 1, i as nat),
                ) by {
                    assert(state_read(before[i], data@, state_record_pos(data@, *old(pos) + 1, i as nat)));
                    if i != nth {
                        assert(atn.states@[i] == before[i]);
                    }
                }
                assert forall|i: int|
                    0 <= i < len && (#[trigger] atn.states@[i]).is_decision_kind() implies (
                    atn.states@[i].decision_part().non_greedy <==> listed(
                        data@,
                        non_greedy_states_num_at as int,
                        non_greedy_states_num as int,
                        i,
                    )) by {
                    if i != nth {
                        assert(atn.states@[i] == before[i]);
                    }
                }
                lemma_skeleton_step(before, atn.states@, nth as int);
                lemma_states_match_kept(before, atn.states@, data@, *old(pos) + 1);
                lemma_no_marks_kept(before, atn.states@);
            }
            k += 1;
        }
        proof {
            let q0 = state_record_pos(data@, *old(pos) + 1, data@[*old(pos) as int] as nat);
            assert(states_num == data@[*old(pos) as int]);
            assert(non_greedy_states_num_at == q0);
            assert(non_greedy_states_num == data@[q0]);
            assert(precedence_states_num_at == q0 + 1 + data@[q0]);
            assert(precedence_states_num == data@[precedence_states_num_at as int]);
        }
        proof {
            assert forall|i: int| 0 <= i < atn.states@.len() implies valid_state_type(
                #[trigger] data@[state_record_pos(data@, *old(pos) + 1, i as nat)],
            ) by {
                assert(atn.states@[i].kind()
                    == data@[state_record_pos(data@, *old(pos) + 1, i as nat)]);
            }
        }
        proof {
            let p0 = *old(pos) as int;
            let n = data@[p0];
            let q0 = state_record_pos(data@, p0 + 1, n as nat);
            let q1 = q0 + 1 + data@[q0];
            assert forall|j: int|
                0 <= j < data@[q0] implies {
                    let x = #[trigger] data@[q0 + 1 + j];
                    let t = data@[state_record_pos(data@, p0 + 1, x as nat)];
                    &&& 0 <= x < n
                    &&& if true {
                        decision_kind_code(t)
                    } else {
                        t == 0
                    }
                } by {
                let x = data@[q0 + 1 + j];
                assert(atn.states@[x as int].is_decision_kind());
                assert(atn.states@[x as int].kind() == data@[state_record_pos(data@, p0 + 1, x as nat)]);
                lemma_decision_code(atn.states@[x as int]);
            }
            assert forall|j: int|
                0 <= j < data@[q1] implies {
                    let x = #[trigger] data@[q1 + 1 + j];
                    let t = data@[state_record_pos(data@, p0 + 1, x as nat)];
                    &&& 0 <= x < n
                    &&& if false {
                        decision_kind_code(t)
                    } else {
                        t == ATN_STATE_RULE_START
                    }
                } by {
                let x = data@[q1 + 1 + j];
                assert(atn.states@[x as int] is RuleStart);
                assert(atn.states@[x as int].kind() == data@[state_record_pos(data@, p0 + 1, x as nat)]);
                lemma_decision_code(atn.states@[x as int]);
            }
        }
        Ok(())
    }

    /// Reads each rule's start state (and, for a lexer, its token type), then
    /// derives each rule's stop state from the rule-stop states and records it
    /// on the rule's start state.
    fn read_rules(&self, data: &[i32], pos: &mut usize, atn: &mut ATN) -> (r: Result<
        (),
        ATNDeserializeError,
    >)
        ensures
            final(atn).grammar_type == old(atn).grammar_type,
            final(atn).max_token_type == old(atn).max_token_type,
            final(atn).states@.len() == old(atn).states@.len(),
            skeleton_kept(old(atn).states@, final(atn).states@),
            marks_kept(old(atn).states@, final(atn).states@),
            final(atn).mode2start_state_nths@ == old(atn).mode2start_state_nths@,
            final(atn).decision2state_nth@ == old(atn).decision2state_nth@,
            zero_at(data@, *old(pos) as int) && old(atn).states@.len() == 0 ==> r is Ok
                && *final(pos)
                == *old(pos) + 1 && final(atn).rule2start_state_nths@.len() == 0
                && final(atn).rule2stop_state_nths@.len() == 0,
            rules_section_ok(
                data@,
                *old(pos) as int,
                old(atn).grammar_type == ATNType::Lexer,
                old(atn).states@,
            ) ==> r is Ok,
            r is Ok ==> {
                let lexer = old(atn).grammar_type == ATNType::Lexer;
                &&& data@[*old(pos) as int] >= 0
                &&& *final(pos) <= data@.len()
                &&& *old(pos) < data@.len()
                &&& final(atn).rule2start_state_nths@.len() == data@[*old(pos) as int]
                &&& forall|k: int|
                    0 <= k < final(atn).rule2start_state_nths@.len()
                        ==> #[trigger] final(atn).rule2start_state_nths@[k]
                        == data@[rule_record_pos(*old(pos) as int, lexer, k)]
                &&& *final(pos)
                    == rule_record_pos(*old(pos) as int, lexer, data@[*old(pos) as int] as int)
                &&& lexer ==> final(atn).rule2token_type@.len() == data@[*old(pos) as int]
                &&& lexer ==> forall|k: int|
                    0 <= k < data@[*old(pos) as int] ==> #[trigger] final(atn).rule2token_type@[k]
                        == data@[rule_record_pos(*old(pos) as int, true, k) + 1] as usize
                &&& !lexer ==> final(atn).rule2token_type@ == old(atn).rule2token_type@
                &&& final(atn).rule2stop_state_nths@.len() == data@[*old(pos) as int]
                &&& forall|q: int|
                    0 <= q < final(atn).states@.len() ==> #[trigger] stop_recorded(
                        final(atn).states@,
                        final(atn).rule2start_state_nths@,
                        final(atn).rule2stop_state_nths@,
                        q,
                        final(atn).states@.len() as int,
                    )
            },
    {
        let ghost ok = rules_section_ok(
            data@,
            *pos as int,
            atn.grammar_type == ATNType::Lexer,
            atn.states@,
        );
        let ghost rules_num_at = *pos;
        let rules_num = next_index(data, pos)?;
        let ghost rules_num_end = *pos;
        let is_lexer = atn.grammar_type == ATNType::Lexer;
        let mut starts: Vec<usize> = Vec::new();
        let mut token_types: Vec<usize> = Vec::new();
        let mut stops: Vec<usize> = Vec::new();
        let mut r: usize = 0;
        while r < rules_num
            invariant
                rules_num_at == *old(pos),
                zero_at(data@, rules_num_at as int) ==> rules_num == 0 && *pos == rules_num_end,
                starts@.len() == r,
                stops@.len() == r,
                r <= rules_num,
                is_lexer == (atn.grammar_type == ATNType::Lexer),
                atn.grammar_type == old(atn).grammar_type,
                *pos == rule_record_pos(rules_num_at as int, is_lexer, r as int),
                is_lexer ==> token_types@.len() == r,
                *pos <= data@.len(),
                ok == rules_section_ok(data@, *old(pos) as int, is_lexer, old(atn).states@),
                rules_num == data@[*old(pos) as int],
                is_lexer ==> forall|k: int|
                    0 <= k < r ==> #[trigger] token_types@[k] == data@[rule_record_pos(
                        rules_num_at as int,
                        true,
                        k,
                    ) + 1] as usize,
                forall|k: int|
                    0 <= k < r ==> #[trigger] starts@[k] == data@[rule_record_pos(
                        rules_num_at as int,
                        is_lexer,
                        k,
                    )],
            decreases rules_num - r,
        {
            let rs_nth = next_index(data, pos)?;
            starts.push(rs_nth);
            stops.push(0);
            if is_lexer {
                let token_type = next_int(data, pos)?;
                token_types.push(#[verifier::truncate] (token_type as usize));
            }
            r += 1;
        }
        let len = atn.states.len();
        let mut nth: usize = 0;
        while nth < len
            invariant
                atn.states@.len() == len,
                len == old(atn).states@.len(),
                skeleton_kept(old(atn).states@, atn.states@),
                marks_kept(old(atn).states@, atn.states@),
                starts@.len() == rules_num,
                stops@.len() == rules_num,
                atn.grammar_type == old(atn).grammar_type,
                atn.max_token_type == old(atn).max_token_type,
                tables_kept(old(atn), atn),
                nth <= len,
                atn.rule2token_type@ == old(atn).rule2token_type@,
                ok == rules_section_ok(data@, *old(pos) as int, is_lexer, old(atn).states@),
                rules_num == data@[*old(pos) as int],
                rules_num_at == *old(pos),
                is_lexer == (old(atn).grammar_type == ATNType::Lexer),
                forall|k: int|
                    0 <= k < rules_num ==> #[trigger] starts@[k] == data@[rule_record_pos(
                        rules_num_at as int,
                        is_lexer,
                        k,
                    )],
                forall|q: int|
                    0 <= q < nth ==> #[trigger] stop_recorded(
                        atn.states@,
                        starts@,
                        stops@,
                        q,
                        nth as int,
                    ),
            decreases len - nth,
        {
            proof {
                if ok {
                    assert(atn.states@[nth as int].kind() == old(atn).states@[nth as int].kind());
                    lemma_same_kind(atn.states@[nth as int], old(atn).states@[nth as int]);
                    if old(atn).states@[nth as int] is RuleStop {
                        let r = old(atn).states@[nth as int].base().rule_idx as int;
                        assert(atn.states@[nth as int].base().rule_idx as int == r);
                        let st = data@[rule_record_pos(rules_num_at as int, is_lexer, r)] as int;
                        assert(r < rules_num);
                        assert(starts@[r] as int == st);
                        assert(old(atn).states@[st] is RuleStart);
                        assert(atn.states@[st].kind() == old(atn).states@[st].kind());
                        lemma_same_kind(atn.states@[st], old(atn).states@[st]);
                    }
                }
            }
            let mut stop_rule: Option<usize> = None;
            if let ATNState::RuleStop(rs) = &atn.states[nth] {
                stop_rule = Some(rs.base.rule_idx);
            }
            if let Some(trg_rule_idx) = stop_rule {
                if trg_rule_idx >= rules_num {
                    return Err(ATNDeserializeError::IndexOutOfRange);
                }
                let ghost prev_stops = stops@;
                stops[trg_rule_idx] = nth;
                let start_nth = starts[trg_rule_idx];
                if start_nth >= len {
                    return Err(ATNDeserializeError::IndexOutOfRange);
                }
                let ghost before = atn.states@;
                match atn.states[start_nth].to_rule_start_state_mut() {
                    Some(rule_start) => {
                        rule_start.rule_stop_state_nth = nth;
                        rule_start.contrast_set = true;
                    },
                    None => {
                        return Err(ATNDeserializeError::WrongStateKind);
                    },
                }
                proof {
                    lemma_skeleton_step(before, atn.states@, start_nth as int);
                    lemma_skeleton_trans(old(atn).states@, before, atn.states@);
                    let r0 = trg_rule_idx as int;
                    let s0 = start_nth as int;
                    assert(atn.states@[nth as int] == before[nth as int]);
                    assert forall|q: int| 0 <= q < nth + 1 implies #[trigger] stop_recorded(
                        atn.states@,
                        starts@,
                        stops@,
                        q,
                        nth + 1,
                    ) by {
                        assert(before[q].kind() == atn.states@[q].kind());
                        if q < nth {
                            assert(stop_recorded(before, starts@, prev_stops, q, nth as int));
                            if before[q] is RuleStop {
                                assert(atn.states@[q] == before[q]);
                                let r = before[q].base().rule_idx as int;
                                let st = starts@[r] as int;
                                if st != s0 {
                                    assert(atn.states@[st] == before[st]);
                                    let t = before[st]->RuleStart_0.rule_stop_state_nth as int;
                                    assert(before[t].kind() == atn.states@[t].kind());
                                    assert(atn.states@[t] == before[t]);
                                }
                                if r == r0 {
                                    assert(!no_later_stop(atn.states@, r, q, nth + 1));
                                } else {
                                    if no_later_stop(atn.states@, r, q, nth + 1) {
                                        assert forall|q2: int| q < q2 < nth implies !(
                                        #[trigger] before[q2] is RuleStop
                                            && before[q2].base().rule_idx
                                            == r) by {
                                            assert(before[q2].kind() == atn.states@[q2].kind());
                                            if q2 != s0 {
                                                assert(atn.states@[q2] == before[q2]);
                                            }
                                        }
                                    }
                                }
                            }
                        }
                    }
                }
            } else {
                proof {
                    assert forall|q: int| 0 <= q < nth + 1 implies #[trigger] stop_recorded(
                        atn.states@,
                        starts@,
                        stops@,
                        q,
                        nth + 1,
                    ) by {
                        if q < nth {
                            assert(stop_recorded(atn.states@, starts@, stops@, q, nth as int));
                        }
                    }
                }
            }
            nth += 1;
        }
        atn.rule2start_state_nths = starts;
        atn.rule2stop_state_nths = stops;
        if is_lexer {
            atn.rule2token_type = token_types;
        }
        Ok(())
    }

    /// Reads the start state of each lexer mode.
    fn read_modes(&self, data: &[i32], pos: &mut usize, atn: &mut ATN) -> (r: Result<
        (),
        ATNDeserializeError,
    >)
        ensures
            final(atn).grammar_type == old(atn).grammar_type,
            final(atn).max_token_type == old(atn).max_token_type,
            final(atn).states@ == old(atn).states@,
            final(atn).rule2start_state_nths@ == old(atn).rule2start_state_nths@,
            final(atn).rule2stop_state_nths@ == old(atn).rule2stop_state_nths@,
            final(atn).decision2state_nth@ == old(atn).decision2state_nth@,
            zero_at(data@, *old(pos) as int) ==> r is Ok && *final(pos) == *old(pos) + 1
                && final(atn).mode2start_state_nths@.len() == 0,
            r is Ok ==> data@[*old(pos) as int] >= 0 && *final(pos) <= data@.len(),
            r is Ok ==> *old(pos) < data@.len() && final(atn).mode2start_state_nths@.len()
                == data@[*old(pos) as int] && (forall|k: int|
                0 <= k < final(atn).mode2start_state_nths@.len()
                    ==> #[trigger] final(atn).mode2start_state_nths@[k]
                    == data@[*old(pos) + 1 + k]) && *final(pos) == *old(pos)
                + 1 + data@[*old(pos) as int],
    {
        let ghost modes_num_at = *pos;
        let modes_num = next_index(data, pos)?;
        let ghost modes_num_end = *pos;
        let mut modes: Vec<usize> = Vec::new();
        let mut m: usize = 0;
        while m < modes_num
            invariant
                modes@.len() == m,
                m <= modes_num,
                *pos == modes_num_end + m,
                *pos <= data@.len(),
                forall|k: int| 0 <= k < m ==> #[trigger] modes@[k] == data@[modes_num_end + k],
                modes_num_at == *old(pos),
                zero_at(data@, modes_num_at as int) ==> modes_num == 0 && *pos == modes_num_end,
                m <= modes_num,
            decreases modes_num - m,
        {
            let token_start_state_nth = next_index(data, pos)?;
            modes.push(token_start_state_nth);
            m += 1;
        }
        atn.mode2start_state_nths = modes;
        Ok(())
    }

    /// Reads the interval sets: each may hold the end-of-input symbol, then
    /// lists closed ranges `[l, r]`.
    fn read_sets(&self, data: &[i32], pos: &mut usize) -> (r: Result<
        Vec<Rc<IntervalSet>>,
        ATNDeserializeError,
    >)
        ensures
            r is Ok ==> forall|i: int| 0 <= i < r->Ok_0@.len()
                ==> canonical(#[trigger] r->Ok_0@[i]@),
            zero_at(data@, *old(pos) as int) ==> r is Ok && *final(pos) == *old(pos) + 1,
            r is Ok ==> *old(pos) < data@.len() && *final(pos) == set_record_pos(
                data@,
                *old(pos) + 1,
                data@[*old(pos) as int] as nat,
            ),
            r is Ok ==> r->Ok_0@.len() == data@[*old(pos) as int],
            r is Ok ==> data@[*old(pos) as int] >= 0 && sets_fit(
                data@,
                *old(pos) + 1,
                data@[*old(pos) as int] as nat,
            ),
            r is Ok ==> forall|i: int, x: int|
                0 <= i < r->Ok_0@.len() ==> (#[trigger] covers(r->Ok_0@[i]@, x) == set_holds(
                    data@,
                    set_record_pos(data@, *old(pos) + 1, i as nat),
                    x,
                )),
            *old(pos) < data@.len() && data@[*old(pos) as int] >= 0 && sets_fit(
                data@,
                *old(pos) + 1,
                data@[*old(pos) as int] as nat,
            ) ==> r is Ok,
    {
        let ghost p0 = *pos;
        let ghost sets_num_at = *pos;
        let sets_num = next_index(data, pos)?;
        let ghost sets_num_end = *pos;
        let ghost fits = sets_fit(data@, p0 + 1, sets_num as nat);
        let mut sets: Vec<Rc<IntervalSet>> = Vec::new();
        let mut k: usize = 0;
        while k < sets_num
            invariant
                p0 == *old(pos),
                sets_num_at == *old(pos),
                sets_num == data@[*old(pos) as int],
                fits == sets_fit(data@, p0 + 1, sets_num as nat),
                *pos == set_record_pos(data@, *old(pos) + 1, k as nat),
                *pos <= data@.len(),
                sets_fit(data@, p0 + 1, k as nat),
                zero_at(data@, sets_num_at as int) ==> sets_num == 0 && *pos == sets_num_end,
                k <= sets_num,
                sets@.len() == k,
                forall|i: int| 0 <= i < sets@.len() ==> canonical(#[trigger] sets@[i]@),
                forall|i: int, x: int|
                    0 <= i < k ==> (#[trigger] covers(sets@[i]@, x) == set_holds(
                        data@,
                        set_record_pos(data@, p0 + 1, i as nat),
                        x,
                    )),
            decreases sets_num - k,
        {
            let mut set = IntervalSet::new();
            let ghost rec = *pos;
            proof {
                if fits {
                    lemma_sets_fit_prefix(data@, p0 + 1, sets_num as nat, (k + 1) as nat);
                }
            }
            let n = next_index(data, pos)?;
            let contains_eof = next_int(data, pos)?;
            if contains_eof != 0 {
                set.add_one(-1);
            }
            let mut j: usize = 0;
            while j < n
                invariant
                    !zero_at(data@, *old(pos) as int),
                    *pos == rec + 2 + 2 * j,
                    *pos <= data@.len(),
                    rec + 1 < data@.len(),
                    n == data@[rec as int],
                    contains_eof == data@[rec + 1],
                    rec == set_record_pos(data@, *old(pos) + 1, k as nat),
                    fits ==> rec + 2 + 2 * n <= data@.len(),
                    fits == sets_fit(data@, p0 + 1, sets_num as nat),
                    sets_num == data@[*old(pos) as int],
                    p0 == *old(pos),
                    j <= n,
                    canonical(set@),
                    !set.is_read_only(),
                    forall|x: int| #[trigger] covers(set@, x) == ((contains_eof != 0 && x == -1)
                        || pairs_hold(data@, rec as int, j as nat, x)),
                decreases n - j,
            {
                let l = next_int(data, pos)?;
                let h = next_int(data, pos)?;
                set.add_range(l as isize, h as isize);
                j += 1;
            }
            if self.des_opt.read_only {
                set.set_read_only();
            }
            sets.push(Rc::new(set));
            proof {
                assert forall|i: int, x: int| 0 <= i < k + 1 implies (#[trigger] covers(
                    sets@[i]@,
                    x,
                ) == set_holds(data@, set_record_pos(data@, p0 + 1, i as nat), x)) by {
                    if i == k {
                        assert(covers(set@, x) == ((contains_eof != 0 && x == -1) || pairs_hold(
                            data@,
                            rec as int,
                            n as nat,
                            x,
                        )));
                    }
                }
            }
            k += 1;
        }
        Ok(sets)
    }

    /// Reads the edges and attaches each transition to its source state. Then
    /// derives the edges out of rule-stop states (one epsilon back to the
    /// follow state of every call of the rule), seals each block end to its
    /// block start, and records each loopback on its loop's entry.
    #[verifier::rlimit(100)]
    fn read_edges(
        &self,
        data: &[i32],
        pos: &mut usize,
        atn: &mut ATN,
        sets: Vec<Rc<IntervalSet>>,
    ) -> (r: Result<(), ATNDeserializeError>)
        ensures
            frame_kept(old(atn), final(atn)),
            tables_kept(old(atn), final(atn)),
            zero_at(data@, *old(pos) as int) && old(atn).states@.len() == 0 ==> r is Ok
                && *final(pos)
                == *old(pos) + 1,
            r is Ok ==> *old(pos) < data@.len() && *final(pos) == *old(pos) + 1 + 6 * data@[*old(
                pos,
            ) as int],
            r is Ok ==> data@[*old(pos) as int] >= 0 && *final(pos) <= data@.len(),
            r is Ok ==> forall|j: int|
                0 <= j < final(atn).states@.len()
                    ==> #[trigger] block_sealed(final(atn).states@, j),
            r is Ok ==> transitions_extend(old(atn).states@, final(atn).states@),
            r is Ok ==> back_refs_kept(old(atn).states@, final(atn).states@),
            r is Ok ==> forall|q: int|
                0 <= q < final(atn).states@.len() ==> {
                    let t = (#[trigger] final(atn).states@[q]).base().transitions@;
                    let n0 = (old(atn).states@[q].base().transitions@.len() + edge_count(
                        data@,
                        *old(pos) + 1,
                        q,
                        data@[*old(pos) as int] as nat,
                    )) as int;
                    &&& n0 <= t.len()
                    &&& t.subrange(n0, t.len() as int) == returns_to(
                        all_returns(
                            final(atn).states@,
                            final(atn).rule2start_state_nths@,
                            final(atn).rule2stop_state_nths@,
                            final(atn).states@.len(),
                        ),
                        q,
                    )
                },
            r is Ok ==> loopbacks_recorded(final(atn).states@, true),
            r is Ok ==> loopbacks_recorded(final(atn).states@, false),
            r is Ok ==> edges_attached(
                final(atn).states@,
                old(atn).states@,
                data@,
                *old(pos) + 1,
                data@[*old(pos) as int] as nat,
                sets@,
            ),
    {
        let len = atn.states.len();
        let ghost edges_num_at = *pos;
        let edges_num = next_index(data, pos)?;
        let ghost edges_num_end = *pos;
        let mut e: usize = 0;
        while e < edges_num
            invariant
                edges_num_at == *old(pos),
                edges_num == data@[*old(pos) as int],
                e <= edges_num,
                *pos == edges_num_end + 6 * e,
                *pos <= data@.len(),
                zero_at(data@, edges_num_at as int) ==> edges_num == 0 && *pos == edges_num_end,
                edges_num_end == edges_num_at + 1,
                transitions_extend(old(atn).states@, atn.states@),
                edges_attached(atn.states@, old(atn).states@, data@, edges_num_end as int, e as nat, sets@),
                forall|s: int|
                    0 <= s < len ==> (#[trigger] atn.states@[s]).base().transitions@.len()
                        == old(atn).states@[s].base().transitions@.len() + edge_count(
                        data@,
                        edges_num_end as int,
                        s,
                        e as nat,
                    ),
                frame_kept(old(atn), atn),
                back_refs_kept(old(atn).states@, atn.states@),
                tables_kept(old(atn), atn),
                len == atn.states@.len(),
            decreases edges_num - e,
        {
            let src = next_index(data, pos)?;
            let trg = next_index(data, pos)?;
            let ttype = next_int(data, pos)?;
            let arg1 = next_int(data, pos)?;
            let arg2 = next_int(data, pos)?;
            let arg3 = next_int(data, pos)?;
            if src >= len || trg >= len {
                return Err(ATNDeserializeError::IndexOutOfRange);
            }
            if !(TRANSITION_EPSILON <= ttype && ttype <= TRANSITION_PRECEDENCE) {
                return Err(ATNDeserializeError::InvalidTransitionType);
            }
            if ttype == TRANSITION_RULE && (arg1 < 0 || arg1 as usize >= len) {
                return Err(ATNDeserializeError::IndexOutOfRange);
            }
            if (ttype == TRANSITION_SET || ttype == TRANSITION_NOT_SET) && (arg1 < 0
                || arg1 as usize
                >= sets.len()) {
                return Err(ATNDeserializeError::IndexOutOfRange);
            }
            let transition = Transition::new(
                ttype,
                trg,
                arg1 as isize,
                arg2 as isize,
                arg3 as isize,
                &sets,
            );
            let ghost before = atn.states@;
            let ghost t0 = transition;
            atn.states[src].add_transition(transition, -1);
            proof {
                lemma_skeleton_step(before, atn.states@, src as int);
                lemma_refs_step(old(atn).states@, before, atn.states@, src as int);
                lemma_skeleton_trans(old(atn).states@, before, atn.states@);
                let bb = edges_num_end as int;
                lemma_attach_step(
                    before,
                    atn.states@,
                    old(atn).states@,
                    data@,
                    bb,
                    e as nat,
                    sets@,
                    src as int,
                    t0,
                );
            }
            e += 1;
        }

        // (rule-stop state, follow state, outermost precedence return)
        let mut stop_edges: Vec<(usize, usize, isize)> = Vec::new();
        let ghost mid = atn.states@;
        let ghost starts = atn.rule2start_state_nths@;
        let ghost stops = atn.rule2stop_state_nths@;
        proof {
            assert(skeleton_kept(old(atn).states@, mid));
            assert(back_refs_kept(old(atn).states@, mid));
            assert(starts == old(atn).rule2start_state_nths@ && stops == old(atn).rule2stop_state_nths@);
            assert forall|q: int| 0 <= q < len implies (#[trigger] mid[q]).base().transitions@.len()
                == old(atn).states@[q].base().transitions@.len() + edge_count(
                data@,
                *old(pos) + 1,
                q,
                data@[*old(pos) as int] as nat,
            ) by {
                assert(atn.states@[q] == mid[q]);
            }
        }
        let mut nth: usize = 0;
        while nth < len
            invariant
                len == 0 ==> stop_edges@.len() == 0,
                atn.states@ == mid,
                atn.rule2start_state_nths@ == starts,
                atn.rule2stop_state_nths@ == stops,
                nth <= len,
                stop_edges@ == all_returns(mid, starts, stops, nth as nat),
                frame_kept(old(atn), atn),
                back_refs_kept(old(atn).states@, atn.states@),
                transitions_extend(old(atn).states@, atn.states@),
                edges_attached(
                    atn.states@,
                    old(atn).states@,
                    data@,
                    *old(pos) + 1,
                    data@[*old(pos) as int] as nat,
                    sets@,
                ),
                tables_kept(old(atn), atn),
                len == atn.states@.len(),
            decreases len - nth,
        {
            let transitions = atn.states[nth].transitions();
            let mut k: usize = 0;
            while k < transitions.len()
                invariant
                    len == 0 ==> stop_edges@.len() == 0,
                    nth < len,
                    atn.states@ == mid,
                    atn.rule2start_state_nths@ == starts,
                    atn.rule2stop_state_nths@ == stops,
                    k <= transitions@.len(),
                    stop_edges@ == all_returns(mid, starts, stops, nth as nat) + state_returns(
                        mid,
                        starts,
                        stops,
                        nth as int,
                        k as nat,
                    ),
                    frame_kept(old(atn), atn),
                    back_refs_kept(old(atn).states@, atn.states@),
                    transitions_extend(old(atn).states@, atn.states@),
                    edges_attached(
                        atn.states@,
                        old(atn).states@,
                        data@,
                        *old(pos) + 1,
                        data@[*old(pos) as int] as nat,
                        sets@,
                    ),
                    tables_kept(old(atn), atn),
                    len == atn.states@.len(),
                    nth < len,
                    transitions@ == atn.states@[nth as int].base().transitions@,
                decreases transitions.len() - k,
            {
                if let Transition::Rule(rt) = &transitions[k] {
                    let target = rt.base.target_nth;
                    if target >= len {
                        return Err(ATNDeserializeError::IndexOutOfRange);
                    }
                    let trg_rule_idx = atn.states[target].rule_index();
                    if trg_rule_idx >= atn.rule2start_state_nths.len() || trg_rule_idx
                        >= atn.rule2stop_state_nths.len() {
                        return Err(ATNDeserializeError::IndexOutOfRange);
                    }
                    let rule_start_nth = atn.rule2start_state_nths[trg_rule_idx];
                    if rule_start_nth >= len {
                        return Err(ATNDeserializeError::IndexOutOfRange);
                    }
                    let left_recursive = match atn.states[rule_start_nth].to_rule_start_state() {
                        Some(rs) => rs.left_recursive,
                        None => {
                            return Err(ATNDeserializeError::WrongStateKind);
                        },
                    };
                    let outermost_precedence_return: isize = if left_recursive && rt.precedence
                        == 0 {
                        #[verifier::truncate]
                        (trg_rule_idx as isize)
                    } else {
                        -1
                    };
                    let ghost prev = stop_edges@;
                    stop_edges.push(
                        (
                            atn.rule2stop_state_nths[trg_rule_idx],
                            rt.follow_state_nth,
                            outermost_precedence_return,
                        ),
                    );
                    proof {
                        assert(stop_edges@.last() == return_edge(mid, starts, stops, nth as int, k as int));
                        assert(stop_edges@ =~= all_returns(mid, starts, stops, nth as nat) + state_returns(
                            mid,
                            starts,
                            stops,
                            nth as int,
                            (k + 1) as nat,
                        ));
                    }
                }
                k += 1;
            }
            proof {
                assert(all_returns(mid, starts, stops, (nth + 1) as nat) == all_returns(
                    mid,
                    starts,
                    stops,
                    nth as nat,
                ) + state_returns(mid, starts, stops, nth as int, mid[nth as int].base().transitions@.len()));
            }
            nth += 1;
        }
        proof {
            assert forall|q: int| 0 <= q < len implies (#[trigger] atn.states@[q]).base().transitions@
                == mid[q].base().transitions@ + returns_to(stop_edges@.take(0), q) by {
                assert(stop_edges@.take(0) =~= Seq::<(usize, usize, isize)>::empty());
                assert(mid[q].base().transitions@ + Seq::<Transition>::empty() =~= mid[q].base().transitions@);
            }
        }
        let mut k: usize = 0;
        while k < stop_edges.len()
            invariant
                len == 0 ==> stop_edges@.len() == 0,
                atn.rule2start_state_nths@ == starts,
                atn.rule2stop_state_nths@ == stops,
                stop_edges@ == all_returns(mid, starts, stops, len as nat),
                mid.len() == len,
                k <= stop_edges@.len(),
                forall|q: int|
                    0 <= q < len ==> (#[trigger] atn.states@[q]).base().transitions@
                        == mid[q].base().transitions@ + returns_to(stop_edges@.take(k as int), q),
                frame_kept(old(atn), atn),
                back_refs_kept(old(atn).states@, atn.states@),
                transitions_extend(old(atn).states@, atn.states@),
                edges_attached(
                    atn.states@,
                    old(atn).states@,
                    data@,
                    *old(pos) + 1,
                    data@[*old(pos) as int] as nat,
                    sets@,
                ),
                tables_kept(old(atn), atn),
                len == atn.states@.len(),
            decreases stop_edges.len() - k,
        {
            let (stop_nth, follow_nth, opr) = stop_edges[k];
            if stop_nth >= len {
                return Err(ATNDeserializeError::IndexOutOfRange);
            }
            let ghost before = atn.states@;
            let eps = Transition::new_epsilon(follow_nth, opr);
            proof {
                assert(eps == return_transition(follow_nth, opr));
                assert(stop_edges@.take(k + 1).drop_last() =~= stop_edges@.take(k as int));
                assert(stop_edges@.take(k + 1).last() == stop_edges@[k as int]);
            }
            atn.states[stop_nth].add_transition(eps, -1);
            proof {
                assert forall|q: int| 0 <= q < len implies (#[trigger] atn.states@[q]).base().transitions@
                    == mid[q].base().transitions@ + returns_to(stop_edges@.take(k + 1), q) by {
                    if q == stop_nth {
                        assert(atn.states@[q].base().transitions@ =~= mid[q].base().transitions@
                            + returns_to(stop_edges@.take(k + 1), q));
                    } else {
                        assert(atn.states@[q] == before[q]);
                    }
                }
            }
            proof {
                lemma_skeleton_step(before, atn.states@, stop_nth as int);
                lemma_refs_step(old(atn).states@, before, atn.states@, stop_nth as int);
                lemma_skeleton_trans(old(atn).states@, before, atn.states@);
                lemma_extend_step(before, atn.states@, stop_nth as int);
                lemma_edges_kept(
                    before,
                    atn.states@,
                    old(atn).states@,
                    data@,
                    *old(pos) + 1,
                    data@[*old(pos) as int] as nat,
                    sets@,
                );
            }
            k += 1;
        }

        // (loop start or entry, its loopback)
        let mut plus_block_start_modifies: Vec<(usize, usize)> = Vec::new();
        let mut star_loop_entry_modifies: Vec<(usize, usize)> = Vec::new();
        let ghost synth = atn.states@;
        proof {
            assert(stop_edges@.take(stop_edges@.len() as int) =~= stop_edges@);
            assert forall|q: int| 0 <= q < len implies (#[trigger] synth[q]).base().transitions@
                == mid[q].base().transitions@ + returns_to(stop_edges@, q) by {
                assert(atn.states@[q] == synth[q]);
            }
        }
        let ghost mut pks: Seq<int> = Seq::empty();
        let ghost mut sks: Seq<int> = Seq::empty();
        let mut nth: usize = 0;
        while nth < len
            invariant
                frame_kept(old(atn), atn),
                back_refs_kept(old(atn).states@, atn.states@),
                transitions_extend(old(atn).states@, atn.states@),
                edges_attached(
                    atn.states@,
                    old(atn).states@,
                    data@,
                    *old(pos) + 1,
                    data@[*old(pos) as int] as nat,
                    sets@,
                ),
                tables_kept(old(atn), atn),
                len == atn.states@.len(),
                forall|j: int|
                    0 <= j < plus_block_start_modifies@.len()
                        ==> #[trigger] plus_block_start_modifies@[j].0
                        < len,
                forall|j: int|
                    0 <= j < star_loop_entry_modifies@.len()
                        ==> #[trigger] star_loop_entry_modifies@[j].0
                        < len,
                nth <= len,
                forall|j: int| 0 <= j < nth ==> #[trigger] block_sealed(atn.states@, j),
                links_frame(synth, atn.states@),
                pks.len() == plus_block_start_modifies@.len(),
                sks.len() == star_loop_entry_modifies@.len(),
                forall|j: int|
                    0 <= j < plus_block_start_modifies@.len() ==> loop_edge(
                        synth,
                        (#[trigger] plus_block_start_modifies@[j]).1 as int,
                        pks[j],
                        true,
                    ) && synth[plus_block_start_modifies@[j].1 as int].base().transitions@[pks[j]].target()
                        == plus_block_start_modifies@[j].0,
                forall|j: int|
                    0 <= j < star_loop_entry_modifies@.len() ==> loop_edge(
                        synth,
                        (#[trigger] star_loop_entry_modifies@[j]).1 as int,
                        sks[j],
                        false,
                    ) && synth[star_loop_entry_modifies@[j].1 as int].base().transitions@[sks[j]].target()
                        == star_loop_entry_modifies@[j].0,
                forall|p: int, k: int|
                    0 <= p < nth && #[trigger] loop_edge(synth, p, k, true)
                        ==> plus_block_start_modifies@.contains(
                        (synth[p].base().transitions@[k].base().target_nth, p as usize),
                    ),
                forall|p: int, k: int|
                    0 <= p < nth && #[trigger] loop_edge(synth, p, k, false)
                        ==> star_loop_entry_modifies@.contains(
                        (synth[p].base().transitions@[k].base().target_nth, p as usize),
                    ),
            decreases len - nth,
        {
            if atn.states[nth].instance_of_block_start() {
                let block_end_state_nth = match atn.states[nth].to_block_start() {
                    Some(bs) => {
                        if !bs.contrast_set {
                            return Err(ATNDeserializeError::MissingBackReference);
                        }
                        bs.block_end_state_nth
                    },
                    None => {
                        return Err(ATNDeserializeError::WrongStateKind);
                    },
                };
                if block_end_state_nth >= len {
                    return Err(ATNDeserializeError::IndexOutOfRange);
                }
                let ghost before = atn.states@;
                match atn.states[block_end_state_nth].to_block_end_mut() {
                    Some(be) => {
                        if be.contrast_set {
                            return Err(ATNDeserializeError::DuplicateBackReference);
                        }
                        be.block_start_state_nth = nth;
                        be.contrast_set = true;
                    },
                    None => {
                        return Err(ATNDeserializeError::WrongStateKind);
                    },
                }
                proof {
                    let e = block_end_state_nth as int;
                    lemma_skeleton_step(before, atn.states@, e);
                    lemma_refs_step(old(atn).states@, before, atn.states@, e);
                    lemma_skeleton_trans(old(atn).states@, before, atn.states@);
                lemma_extend_step(before, atn.states@, e);
                lemma_edges_kept(
                    before,
                    atn.states@,
                    old(atn).states@,
                    data@,
                    *old(pos) + 1,
                    data@[*old(pos) as int] as nat,
                    sets@,
                );
                    assert forall|j: int| 0 <= j <= nth implies #[trigger] block_sealed(
                        atn.states@,
                        j,
                    ) by {
                        if j < nth {
                            assert(block_sealed(before, j));
                            assert(before[j].kind() == atn.states@[j].kind());
                            if j != e {
                                assert(atn.states@[j] == before[j]);
                                if before[j].is_block_start_kind() {
                                    let f = before[j].block_start_part().block_end_state_nth as int;
                                    assert(f != e);
                                    assert(atn.states@[f] == before[f]);
                                }
                            }
                        } else {
                            assert(before[nth as int].kind() == atn.states@[nth as int].kind());
                            assert(atn.states@[nth as int] == before[nth as int]);
                        }
                    }
                    assert forall|i: int| 0 <= i < synth.len()
                        implies (#[trigger] atn.states@[i]).kind()
                        == synth[i].kind() && atn.states@[i].base().transitions@
                        == synth[i].base().transitions@ by {
                        assert(before[i].kind() == synth[i].kind());
                        assert(atn.states@[i].kind() == before[i].kind());
                        assert(atn.states@[i].base() == before[i].base());
                    }
                }
            } else {
                proof {
                    assert(block_sealed(atn.states@, nth as int));
                }
            }
            let is_plus_loopback = matches!(atn.states[nth], ATNState::PlusLoopback(_));
            let is_star_loopback = matches!(atn.states[nth], ATNState::StarLoopback(_));
            if is_plus_loopback || is_star_loopback {
                let transitions = atn.states[nth].transitions();
                let mut k: usize = 0;
                while k < transitions.len()
                    invariant
                        nth < len,
                        frame_kept(old(atn), atn),
                        back_refs_kept(old(atn).states@, atn.states@),
                        transitions_extend(old(atn).states@, atn.states@),
                        edges_attached(
                            atn.states@,
                            old(atn).states@,
                            data@,
                            *old(pos) + 1,
                            data@[*old(pos) as int] as nat,
                            sets@,
                        ),
                        tables_kept(old(atn), atn),
                        len == atn.states@.len(),
                        forall|j: int|
                            0 <= j < plus_block_start_modifies@.len()
                                ==> #[trigger] plus_block_start_modifies@[j].0
                                < len,
                        forall|j: int|
                            0 <= j < star_loop_entry_modifies@.len()
                                ==> #[trigger] star_loop_entry_modifies@[j].0
                                < len,
                        forall|j: int| 0 <= j <= nth ==> #[trigger] block_sealed(atn.states@, j),
                        links_frame(synth, atn.states@),
                        pks.len() == plus_block_start_modifies@.len(),
                        sks.len() == star_loop_entry_modifies@.len(),
                        forall|j: int|
                            0 <= j < plus_block_start_modifies@.len() ==> loop_edge(
                                synth,
                                (#[trigger] plus_block_start_modifies@[j]).1 as int,
                                pks[j],
                                true,
                            ) && synth[plus_block_start_modifies@[j].1 as int].base().transitions@[pks[j]].target()
                                == plus_block_start_modifies@[j].0,
                        forall|j: int|
                            0 <= j < star_loop_entry_modifies@.len() ==> loop_edge(
                                synth,
                                (#[trigger] star_loop_entry_modifies@[j]).1 as int,
                                sks[j],
                                false,
                            ) && synth[star_loop_entry_modifies@[j].1 as int].base().transitions@[sks[j]].target()
                                == star_loop_entry_modifies@[j].0,
                        forall|p: int, k2: int|
                            (0 <= p < nth || (p == nth && 0 <= k2 < k))
                                && #[trigger] loop_edge(synth, p, k2, true)
                                ==> plus_block_start_modifies@.contains(
                                (synth[p].base().transitions@[k2].base().target_nth, p as usize),
                            ),
                        forall|p: int, k2: int|
                            (0 <= p < nth || (p == nth && 0 <= k2 < k))
                                && #[trigger] loop_edge(synth, p, k2, false)
                                ==> star_loop_entry_modifies@.contains(
                                (synth[p].base().transitions@[k2].base().target_nth, p as usize),
                            ),
                        transitions@ == synth[nth as int].base().transitions@,
                        is_plus_loopback == (synth[nth as int] is PlusLoopback),
                        is_star_loopback == (synth[nth as int] is StarLoopback),
                    decreases transitions.len() - k,
                {
                    let trg_nth = transitions[k].target_nth();
                    if trg_nth >= len {
                        return Err(ATNDeserializeError::IndexOutOfRange);
                    }
                    let ghost pl = plus_block_start_modifies@;
                    let ghost sl = star_loop_entry_modifies@;
                    proof {
                        assert(atn.states@[trg_nth as int].kind() == synth[trg_nth as int].kind());
                        lemma_same_kind(atn.states@[trg_nth as int], synth[trg_nth as int]);
                    }
                    if is_plus_loopback
                        && matches!(atn.states[trg_nth], ATNState::PlusBlockStart(_)) {
                        plus_block_start_modifies.push((trg_nth, nth));
                        proof {
                            pks = pks.push(k as int);
                        }
                    } else if is_star_loopback
                        && matches!(atn.states[trg_nth], ATNState::StarLoopEntry(_)) {
                        star_loop_entry_modifies.push((trg_nth, nth));
                        proof {
                            sks = sks.push(k as int);
                        }
                    }
                    proof {
                        assert forall|j: int|
                            0 <= j < plus_block_start_modifies@.len() implies loop_edge(
                            synth,
                            (#[trigger] plus_block_start_modifies@[j]).1 as int,
                            pks[j],
                            true,
                        ) && synth[plus_block_start_modifies@[j].1 as int].base().transitions@[pks[j]].target()
                            == plus_block_start_modifies@[j].0 by {
                            if j < pl.len() {
                                assert(plus_block_start_modifies@[j] == pl[j]);
                            }
                        }
                        assert forall|j: int|
                            0 <= j < star_loop_entry_modifies@.len() implies loop_edge(
                            synth,
                            (#[trigger] star_loop_entry_modifies@[j]).1 as int,
                            sks[j],
                            false,
                        ) && synth[star_loop_entry_modifies@[j].1 as int].base().transitions@[sks[j]].target()
                            == star_loop_entry_modifies@[j].0 by {
                            if j < sl.len() {
                                assert(star_loop_entry_modifies@[j] == sl[j]);
                            }
                        }
                        assert forall|p: int, k2: int|
                            (0 <= p < nth || (p == nth && 0 <= k2 < k + 1)) && #[trigger] loop_edge(
                                synth,
                                p,
                                k2,
                                true,
                            ) implies plus_block_start_modifies@.contains(
                            (synth[p].base().transitions@[k2].base().target_nth, p as usize),
                        ) by {
                            let x = (synth[p].base().transitions@[k2].base().target_nth, p as usize);
                            if p == nth && k2 == k {
                                assert(plus_block_start_modifies@[pl.len() as int] == x);
                            } else {
                                assert(pl.contains(x));
                                let w = choose|w: int| 0 <= w < pl.len() && pl[w] == x;
                                assert(plus_block_start_modifies@[w] == x);
                            }
                        }
                        assert forall|p: int, k2: int|
                            (0 <= p < nth || (p == nth && 0 <= k2 < k + 1)) && #[trigger] loop_edge(
                                synth,
                                p,
                                k2,
                                false,
                            ) implies star_loop_entry_modifies@.contains(
                            (synth[p].base().transitions@[k2].base().target_nth, p as usize),
                        ) by {
                            let x = (synth[p].base().transitions@[k2].base().target_nth, p as usize);
                            if p == nth && k2 == k {
                                assert(star_loop_entry_modifies@[sl.len() as int] == x);
                            } else {
                                assert(sl.contains(x));
                                let w = choose|w: int| 0 <= w < sl.len() && sl[w] == x;
                                assert(star_loop_entry_modifies@[w] == x);
                            }
                        }
                    }
                    k += 1;
                }
            }
            proof {
                assert forall|p: int, k2: int|
                    0 <= p < nth + 1 && #[trigger] loop_edge(synth, p, k2, true)
                        implies plus_block_start_modifies@.contains(
                    (synth[p].base().transitions@[k2].base().target_nth, p as usize),
                ) by {
                    if p == nth {
                        assert(synth[p] is PlusLoopback);
                    }
                }
                assert forall|p: int, k2: int|
                    0 <= p < nth + 1 && #[trigger] loop_edge(synth, p, k2, false)
                        implies star_loop_entry_modifies@.contains(
                    (synth[p].base().transitions@[k2].base().target_nth, p as usize),
                ) by {
                    if p == nth {
                        assert(synth[p] is StarLoopback);
                    }
                }
            }
            nth += 1;
        }
        let mut k: usize = 0;
        while k < plus_block_start_modifies.len()
            invariant
                frame_kept(old(atn), atn),
                back_refs_kept(old(atn).states@, atn.states@),
                transitions_extend(old(atn).states@, atn.states@),
                edges_attached(
                    atn.states@,
                    old(atn).states@,
                    data@,
                    *old(pos) + 1,
                    data@[*old(pos) as int] as nat,
                    sets@,
                ),
                tables_kept(old(atn), atn),
                len == atn.states@.len(),
                forall|j: int|
                    0 <= j < plus_block_start_modifies@.len()
                        ==> #[trigger] plus_block_start_modifies@[j].0
                        < len,
                forall|j: int| 0 <= j < len ==> #[trigger] block_sealed(atn.states@, j),
                links_frame(synth, atn.states@),
                pks.len() == plus_block_start_modifies@.len(),
                sks.len() == star_loop_entry_modifies@.len(),
                forall|j: int|
                    0 <= j < plus_block_start_modifies@.len() ==> loop_edge(
                        synth,
                        (#[trigger] plus_block_start_modifies@[j]).1 as int,
                        pks[j],
                        true,
                    ) && synth[plus_block_start_modifies@[j].1 as int].base().transitions@[pks[j]].base().target_nth
                        == plus_block_start_modifies@[j].0,
                forall|j: int|
                    0 <= j < star_loop_entry_modifies@.len() ==> loop_edge(
                        synth,
                        (#[trigger] star_loop_entry_modifies@[j]).1 as int,
                        sks[j],
                        false,
                    ) && synth[star_loop_entry_modifies@[j].1 as int].base().transitions@[sks[j]].base().target_nth
                        == star_loop_entry_modifies@[j].0,
                forall|p: int, k2: int|
                    #[trigger] loop_edge(synth, p, k2, true)
                        ==> plus_block_start_modifies@.contains(
                        (synth[p].base().transitions@[k2].base().target_nth, p as usize),
                    ),
                forall|p: int, k2: int|
                    #[trigger] loop_edge(synth, p, k2, false)
                        ==> star_loop_entry_modifies@.contains(
                        (synth[p].base().transitions@[k2].base().target_nth, p as usize),
                    ),
                k <= plus_block_start_modifies@.len(),
                forall|j: int|
                    0 <= j < k ==> loopback_recorded(
                        atn.states@,
                        (#[trigger] plus_block_start_modifies@[j]).0 as int,
                        true,
                    ),
            decreases plus_block_start_modifies.len() - k,
        {
            let (state_nth, loopback_nth) = plus_block_start_modifies[k];
            let ghost before = atn.states@;
            if let Some(pbs) = atn.states[state_nth].to_plus_block_start_mut() {
                pbs.plus_loopback_state_nth = loopback_nth;
                pbs.contrast_set = true;
            }
            proof {
                lemma_skeleton_step(before, atn.states@, state_nth as int);
                lemma_refs_step(old(atn).states@, before, atn.states@, state_nth as int);
                lemma_skeleton_trans(old(atn).states@, before, atn.states@);
                lemma_extend_step(before, atn.states@, state_nth as int);
                lemma_edges_kept(
                    before,
                    atn.states@,
                    old(atn).states@,
                    data@,
                    *old(pos) + 1,
                    data@[*old(pos) as int] as nat,
                    sets@,
                );
                lemma_same_kind(before[state_nth as int], synth[state_nth as int]);
                assert(before[state_nth as int] is PlusBlockStart);
                lemma_sealed_kept(before, atn.states@, state_nth as int, len as int);
                {
                    let x = state_nth as int;
                    assert forall|i: int| 0 <= i < synth.len()
                        implies (#[trigger] atn.states@[i]).kind()
                        == synth[i].kind() && atn.states@[i].base().transitions@
                        == synth[i].base().transitions@ by {
                        assert(before[i].kind() == synth[i].kind());
                        assert(atn.states@[i].kind() == before[i].kind());
                        assert(atn.states@[i].base() == before[i].base());
                    }
                    assert(links_frame(before, atn.states@)) by {
                        assert forall|i: int| 0 <= i < before.len()
                            implies (#[trigger] atn.states@[i]).kind()
                            == before[i].kind() && atn.states@[i].base().transitions@
                            == before[i].base().transitions@ by {
                            assert(atn.states@[i].base() == before[i].base());
                        }
                    }
                    let l = plus_block_start_modifies@[k as int].1 as int;
                    lemma_loop_edge_frame(synth, atn.states@, l, pks[k as int], true);
                    assert(atn.states@[l].base().transitions@[pks[k as int]].target() == x);
                    assert(loopback_recorded(atn.states@, x, true));
                    assert forall|j: int| 0 <= j < k + 1 implies loopback_recorded(
                        atn.states@,
                        (#[trigger] plus_block_start_modifies@[j]).0 as int,
                        true,
                    ) by {
                        if plus_block_start_modifies@[j].0 as int != x {
                            lemma_recorded_kept(before, atn.states@, plus_block_start_modifies@[j].0 as int, true);
                        }
                    }
                    
                }
            }
            k += 1;
        }
        let mut k: usize = 0;
        while k < star_loop_entry_modifies.len()
            invariant
                frame_kept(old(atn), atn),
                back_refs_kept(old(atn).states@, atn.states@),
                transitions_extend(old(atn).states@, atn.states@),
                edges_attached(
                    atn.states@,
                    old(atn).states@,
                    data@,
                    *old(pos) + 1,
                    data@[*old(pos) as int] as nat,
                    sets@,
                ),
                tables_kept(old(atn), atn),
                len == atn.states@.len(),
                forall|j: int|
                    0 <= j < star_loop_entry_modifies@.len()
                        ==> #[trigger] star_loop_entry_modifies@[j].0
                        < len,
                forall|j: int| 0 <= j < len ==> #[trigger] block_sealed(atn.states@, j),
                links_frame(synth, atn.states@),
                pks.len() == plus_block_start_modifies@.len(),
                sks.len() == star_loop_entry_modifies@.len(),
                forall|j: int|
                    0 <= j < plus_block_start_modifies@.len() ==> loop_edge(
                        synth,
                        (#[trigger] plus_block_start_modifies@[j]).1 as int,
                        pks[j],
                        true,
                    ) && synth[plus_block_start_modifies@[j].1 as int].base().transitions@[pks[j]].base().target_nth
                        == plus_block_start_modifies@[j].0,
                forall|j: int|
                    0 <= j < star_loop_entry_modifies@.len() ==> loop_edge(
                        synth,
                        (#[trigger] star_loop_entry_modifies@[j]).1 as int,
                        sks[j],
                        false,
                    ) && synth[star_loop_entry_modifies@[j].1 as int].base().transitions@[sks[j]].base().target_nth
                        == star_loop_entry_modifies@[j].0,
                forall|p: int, k2: int|
                    #[trigger] loop_edge(synth, p, k2, true)
                        ==> plus_block_start_modifies@.contains(
                        (synth[p].base().transitions@[k2].base().target_nth, p as usize),
                    ),
                forall|p: int, k2: int|
                    #[trigger] loop_edge(synth, p, k2, false)
                        ==> star_loop_entry_modifies@.contains(
                        (synth[p].base().transitions@[k2].base().target_nth, p as usize),
                    ),
                k <= star_loop_entry_modifies@.len(),
                forall|j: int|
                    0 <= j < plus_block_start_modifies@.len() ==> loopback_recorded(
                        atn.states@,
                        (#[trigger] plus_block_start_modifies@[j]).0 as int,
                        true,
                    ),
                forall|j: int|
                    0 <= j < k ==> loopback_recorded(
                        atn.states@,
                        (#[trigger] star_loop_entry_modifies@[j]).0 as int,
                        false,
                    ),
            decreases star_loop_entry_modifies.len() - k,
        {
            let (state_nth, loopback_nth) = star_loop_entry_modifies[k];
            let ghost before = atn.states@;
            if let Some(sle) = atn.states[state_nth].to_star_loop_entry_mut() {
                sle.star_loopback_state_nth = loopback_nth;
                sle.contrast_set = true;
            }
            proof {
                lemma_skeleton_step(before, atn.states@, state_nth as int);
                lemma_refs_step(old(atn).states@, before, atn.states@, state_nth as int);
                lemma_skeleton_trans(old(atn).states@, before, atn.states@);
                lemma_extend_step(before, atn.states@, state_nth as int);
                lemma_edges_kept(
                    before,
                    atn.states@,
                    old(atn).states@,
                    data@,
                    *old(pos) + 1,
                    data@[*old(pos) as int] as nat,
                    sets@,
                );
                lemma_same_kind(before[state_nth as int], synth[state_nth as int]);
                assert(before[state_nth as int] is StarLoopEntry);
                lemma_sealed_kept(before, atn.states@, state_nth as int, len as int);
                {
                    let x = state_nth as int;
                    assert forall|i: int| 0 <= i < synth.len()
                        implies (#[trigger] atn.states@[i]).kind()
                        == synth[i].kind() && atn.states@[i].base().transitions@
                        == synth[i].base().transitions@ by {
                        assert(before[i].kind() == synth[i].kind());
                        assert(atn.states@[i].kind() == before[i].kind());
                        assert(atn.states@[i].base() == before[i].base());
                    }
                    assert(links_frame(before, atn.states@)) by {
                        assert forall|i: int| 0 <= i < before.len()
                            implies (#[trigger] atn.states@[i]).kind()
                            == before[i].kind() && atn.states@[i].base().transitions@
                            == before[i].base().transitions@ by {
                            assert(atn.states@[i].base() == before[i].base());
                        }
                    }
                    let l = star_loop_entry_modifies@[k as int].1 as int;
                    lemma_loop_edge_frame(synth, atn.states@, l, sks[k as int], false);
                    assert(atn.states@[l].base().transitions@[sks[k as int]].target() == x);
                    assert(loopback_recorded(atn.states@, x, false));
                    assert forall|j: int| 0 <= j < k + 1 implies loopback_recorded(
                        atn.states@,
                        (#[trigger] star_loop_entry_modifies@[j]).0 as int,
                        false,
                    ) by {
                        if star_loop_entry_modifies@[j].0 as int != x {
                            lemma_recorded_kept(before, atn.states@, star_loop_entry_modifies@[j].0 as int, false);
                        }
                    }
                    assert forall|j: int| 0 <= j < plus_block_start_modifies@.len()
                        implies loopback_recorded(
                        atn.states@,
                        (#[trigger] plus_block_start_modifies@[j]).0 as int,
                        true,
                    ) by {
                        let q = plus_block_start_modifies@[j].0 as int;
                        assert(before[q].kind() == atn.states@[q].kind());
                        if q != x {
                            assert(atn.states@[q] == before[q]);
                        } else {
                            lemma_same_kind(before[q], atn.states@[q]);
                        }
                        lemma_recorded_kept(before, atn.states@, q, true);
                    }
                }
            }
            k += 1;
        }
        proof {
            assert forall|p: int, k2: int| #[trigger] loop_edge(atn.states@, p, k2, true)
                implies loopback_recorded(
                atn.states@,
                atn.states@[p].base().transitions@[k2].target() as int,
                true,
            ) by {
                lemma_loop_edge_frame(synth, atn.states@, p, k2, true);
                let x = (synth[p].base().transitions@[k2].base().target_nth, p as usize);
                let w = choose|w: int| 0 <= w < plus_block_start_modifies@.len()
                    && plus_block_start_modifies@[w] == x;
                assert(loopback_recorded(atn.states@, plus_block_start_modifies@[w].0 as int, true));
            }
            assert forall|p: int, k2: int| #[trigger] loop_edge(atn.states@, p, k2, false)
                implies loopback_recorded(
                atn.states@,
                atn.states@[p].base().transitions@[k2].target() as int,
                false,
            ) by {
                lemma_loop_edge_frame(synth, atn.states@, p, k2, false);
                let x = (synth[p].base().transitions@[k2].base().target_nth, p as usize);
                let w = choose|w: int| 0 <= w < star_loop_entry_modifies@.len()
                    && star_loop_entry_modifies@[w] == x;
                assert(loopback_recorded(atn.states@, star_loop_entry_modifies@[w].0 as int, false));
            }
        }
        proof {
            let es = stop_edges@;
            let fin = atn.states@;
            assert forall|q: int| 0 <= q < len implies (#[trigger] fin[q]).base().transitions@
                == mid[q].base().transitions@ + returns_to(es, q) by {
                assert(fin[q].base().transitions@ == synth[q].base().transitions@);
            }
            assert forall|i: int, j: int|
                0 <= i < len && mid[i].base().transitions@.len() <= j < fin[i].base().transitions@.len()
                    implies !(#[trigger] fin[i].base().transitions@[j] is Rule) by {
                lemma_returns_to_epsilon(es, i);
                assert(fin[i].base().transitions@[j] == returns_to(es, i)[j - mid[i].base().transitions@.len()]);
            }
            assert forall|i: int, j: int|
                0 <= i < len && 0 <= j < mid[i].base().transitions@.len()
                    implies #[trigger] fin[i].base().transitions@[j] == mid[i].base().transitions@[j] by {
            }
            assert forall|i: int| 0 <= i < len implies mid[i].base().transitions@.len()
                <= (#[trigger] fin[i]).base().transitions@.len() by {
            }
            lemma_all_returns_same(old(atn).states@, mid, fin, starts, stops, len as nat);
            assert forall|q: int| 0 <= q < fin.len() implies {
                let t = (#[trigger] fin[q]).base().transitions@;
                let n0 = (old(atn).states@[q].base().transitions@.len() + edge_count(
                    data@,
                    *old(pos) + 1,
                    q,
                    data@[*old(pos) as int] as nat,
                )) as int;
                &&& n0 <= t.len()
                &&& t.subrange(n0, t.len() as int) == returns_to(
                    all_returns(fin, atn.rule2start_state_nths@, atn.rule2stop_state_nths@, fin.len()),
                    q,
                )
            } by {
                let t = fin[q].base().transitions@;
                assert(t.subrange(mid[q].base().transitions@.len() as int, t.len() as int) =~= returns_to(es, q));
            }
        }
        Ok(())
    }

    /// Reads the decision states; each gets its position in the list as its
    /// decision ordinal.
    fn read_decisions(&self, data: &[i32], pos: &mut usize, atn: &mut ATN) -> (r: Result<
        (),
        ATNDeserializeError,
    >)
        ensures
            frame_kept(old(atn), final(atn)),
            final(atn).rule2start_state_nths@ == old(atn).rule2start_state_nths@,
            final(atn).rule2stop_state_nths@ == old(atn).rule2stop_state_nths@,
            final(atn).mode2start_state_nths@ == old(atn).mode2start_state_nths@,
            zero_at(data@, *old(pos) as int) ==> r is Ok && *final(pos) == *old(pos) + 1
                && final(atn).decision2state_nth@.len() == 0,
            r is Ok ==> *final(pos) == *old(pos) + 1 + data@[*old(pos) as int] && *final(pos)
                <= data@.len(),
            r is Ok ==> *old(pos) < data@.len() && final(atn).decision2state_nth@.len()
                == data@[*old(pos) as int] && (forall|k: int|
                0 <= k < final(atn).decision2state_nth@.len()
                    ==> #[trigger] final(atn).decision2state_nth@[k]
                    == data@[*old(pos) + 1 + k]),
            r is Ok ==> forall|k: int|
                0 <= k < final(atn).decision2state_nth@.len() ==> {
                    let q = #[trigger] final(atn).decision2state_nth@[k];
                    &&& q < final(atn).states@.len()
                    &&& final(atn).states@[q as int].is_decision_kind()
                    &&& last_position(
                        final(atn).decision2state_nth@,
                        final(atn).states@[q as int].decision_part().decision as int,
                        q,
                    )
                },
            r is Ok ==> forall|q: int|
                0 <= q < old(atn).states@.len() && !final(atn).decision2state_nth@.contains(
                    q as usize,
                ) ==> #[trigger] final(atn).states@[q] == old(atn).states@[q],
            ({
                let p = *old(pos) as int;
                &&& p < data@.len()
                &&& data@[p] >= 0
                &&& p + 1 + data@[p] <= data@.len()
                &&& forall|k: int|
                    0 <= k < data@[p] ==> 0 <= #[trigger] data@[p + 1 + k] < old(atn).states@.len()
                        && old(atn).states@[data@[p + 1 + k] as int].is_decision_kind()
            }) ==> r is Ok,
    {
        let len = atn.states.len();
        let ghost p0 = *pos as int;
        let ghost listed = {
            &&& p0 < data@.len()
            &&& data@[p0] >= 0
            &&& p0 + 1 + data@[p0] <= data@.len()
            &&& forall|k: int|
                0 <= k < data@[p0] ==> 0 <= #[trigger] data@[p0 + 1 + k] < old(atn).states@.len()
                    && old(atn).states@[data@[p0 + 1 + k] as int].is_decision_kind()
        };
        let ghost decisions_num_at = *pos;
        let decisions_num = next_index(data, pos)?;
        let ghost decisions_num_end = *pos;
        let mut decisions: Vec<usize> = Vec::new();
        let mut i: usize = 0;
        while i < decisions_num
            invariant
                decisions_num_at == *old(pos),
                zero_at(data@, decisions_num_at as int) ==> decisions_num == 0 && *pos
                    == decisions_num_end,
                frame_kept(old(atn), atn),
                tables_kept(old(atn), atn),
                len == atn.states@.len(),
                decisions@.len() == i,
                i <= decisions_num,
                *pos == decisions_num_end + i,
                forall|k: int| 0 <= k < i ==> #[trigger] decisions@[k]
                    == data@[decisions_num_end + k],
                p0 == *old(pos),
                *pos <= data@.len(),
                decisions_num_end == p0 + 1,
                decisions_num == data@[p0],
                listed == {
                    &&& p0 < data@.len()
                    &&& data@[p0] >= 0
                    &&& p0 + 1 + data@[p0] <= data@.len()
                    &&& forall|k: int|
                        0 <= k < data@[p0]
                            ==> 0 <= #[trigger] data@[p0 + 1 + k] < old(atn).states@.len()
                            && old(atn).states@[data@[p0 + 1 + k] as int].is_decision_kind()
                },
                forall|k: int|
                    0 <= k < i ==> {
                        let q = #[trigger] decisions@[k];
                        &&& q < len
                        &&& atn.states@[q as int].is_decision_kind()
                        &&& last_position(
                            decisions@,
                            atn.states@[q as int].decision_part().decision as int,
                            q,
                        )
                    },
                forall|q: int|
                    0 <= q < len && !decisions@.contains(q as usize) ==> #[trigger] atn.states@[q]
                        == old(atn).states@[q],
            decreases decisions_num - i,
        {
            proof {
                if listed {
                    assert(0 <= data@[p0 + 1 + i] < old(atn).states@.len());
                    let q = data@[p0 + 1 + i] as int;
                    assert(old(atn).states@[q].is_decision_kind());
                    assert(atn.states@[q].kind() == old(atn).states@[q].kind());
                    lemma_same_kind(atn.states@[q], old(atn).states@[q]);
                }
            }
            let state_nth = next_index(data, pos)?;
            if state_nth >= len {
                return Err(ATNDeserializeError::IndexOutOfRange);
            }
            let ghost prev = decisions@;
            decisions.push(state_nth);
            let ghost before = atn.states@;
            match atn.states[state_nth].to_decision_state_mut() {
                Some(d) => {
                    d.decision = i as isize;
                },
                None => {
                    return Err(ATNDeserializeError::WrongStateKind);
                },
            }
            proof {
                lemma_skeleton_step(before, atn.states@, state_nth as int);
                lemma_skeleton_trans(old(atn).states@, before, atn.states@);
                let q = state_nth as int;
                assert(atn.states@[q].decision_part().decision == i as isize);
                assert forall|k: int| 0 <= k < i + 1 implies {
                    let q2 = #[trigger] decisions@[k];
                    &&& q2 < len
                    &&& atn.states@[q2 as int].is_decision_kind()
                    &&& last_position(
                        decisions@,
                        atn.states@[q2 as int].decision_part().decision as int,
                        q2,
                    )
                } by {
                    let q2 = decisions@[k];
                    if q2 != state_nth {
                        assert(prev[k] == q2);
                        assert(atn.states@[q2 as int] == before[q2 as int]);
                        let v = before[q2 as int].decision_part().decision as int;
                        assert(last_position(prev, v, q2));
                        assert forall|k2: int| v < k2 < decisions@.len() implies decisions@[k2]
                            != q2 by {
                            if k2 < prev.len() {
                                assert(prev[k2] == decisions@[k2]);
                            }
                        }
                    }
                }
                assert forall|q2: int|
                    0 <= q2 < len && !decisions@.contains(q2 as usize)
                        implies #[trigger] atn.states@[q2]
                        == old(atn).states@[q2] by {
                    assert(decisions@[i as int] == state_nth);
                    if prev.contains(q2 as usize) {
                        let w = choose|w: int| 0 <= w < prev.len() && prev[w] == q2 as usize;
                        assert(decisions@[w] == q2 as usize);
                    }
                    assert(q2 != q);
                    assert(atn.states@[q2] == before[q2]);
                }
            }
            i += 1;
        }
        atn.decision2state_nth = decisions;
        Ok(())
    }

    /// Reads the lexer actions; a parser has none.
    fn read_lexer_actions(&self, data: &[i32], pos: &mut usize, atn: &mut ATN) -> (r: Result<
        (),
        ATNDeserializeError,
    >)
        ensures
            frame_kept(old(atn), final(atn)),
            final(atn).states@ == old(atn).states@,
            tables_kept(old(atn), final(atn)),
            old(atn).grammar_type != ATNType::Lexer ==> r is Ok && *final(pos) == *old(pos)
                && final(atn).lexer_actions@ == old(atn).lexer_actions@,
            zero_at(data@, *old(pos) as int) ==> r is Ok,
            old(atn).grammar_type == ATNType::Lexer && r is Ok ==> {
                let p = *old(pos) as int;
                &&& p < data@.len()
                &&& *final(pos) == p + 1 + 3 * data@[p]
                &&& *final(pos) <= data@.len()
                &&& final(atn).lexer_actions@.len() == data@[p]
                &&& forall|i: int|
                    0 <= i < data@[p] ==> (#[trigger] final(atn).lexer_actions@[i]).built_from(
                        data@[p + 1 + 3 * i],
                        data@[p + 2 + 3 * i] as isize,
                        data@[p + 3 + 3 * i] as isize,
                    )
            },
            old(atn).grammar_type == ATNType::Lexer && ({
                let p = *old(pos) as int;
                &&& p < data@.len()
                &&& data@[p] >= 0
                &&& p + 1 + 3 * data@[p] <= data@.len()
                &&& forall|i: int|
                    0 <= i < data@[p] ==> valid_lexer_action_type(#[trigger] data@[p + 1 + 3 * i])
            }) ==> r is Ok,
    {
        if atn.grammar_type != ATNType::Lexer {
            return Ok(());
        }
        let ghost actions_num_at = *pos;
        let actions_num = next_index(data, pos)?;
        let ghost actions_num_end = *pos;
        let mut actions: Vec<LexerAction> = Vec::new();
        let mut i: usize = 0;
        while i < actions_num
            invariant
                old(atn).grammar_type == atn.grammar_type,
                atn.grammar_type == ATNType::Lexer,
                actions_num_at == *old(pos),
                zero_at(data@, actions_num_at as int) ==> actions_num == 0 && *pos
                    == actions_num_end,
                i <= actions_num,
                actions_num == data@[actions_num_at as int],
                *pos == actions_num_end + 3 * i,
                *pos <= data@.len(),
                actions_num_end == actions_num_at + 1,
                actions@.len() == i,
                forall|j: int|
                    0 <= j < i ==> (#[trigger] actions@[j]).built_from(
                        data@[actions_num_at + 1 + 3 * j],
                        data@[actions_num_at + 2 + 3 * j] as isize,
                        data@[actions_num_at + 3 + 3 * j] as isize,
                    ),
            decreases actions_num - i,
        {
            let action_type = next_int(data, pos)?;
            let data1 = next_int(data, pos)?;
            let data2 = next_int(data, pos)?;
            if !(LEXER_ACTION_CHANNEL <= action_type && action_type <= LEXER_ACTION_TYPE) {
                assert(!valid_lexer_action_type(data@[actions_num_at + 1 + 3 * i]));
                return Err(ATNDeserializeError::InvalidLexerActionType);
            }
            actions.push(LexerAction::new(action_type, data1 as isize, data2 as isize));
            i += 1;
        }
        atn.lexer_actions = actions;
        Ok(())
    }

    /// Marks as a precedence decision each star-loop entry of a left-recursive
    /// rule whose last transition leads to a loop end whose first transition
    /// leads to that rule's stop state: the loop that removes left recursion, as
    /// opposed to a `*` loop written in the grammar.
    fn mark_precedence_decisions(&self, atn: &mut ATN) -> (r: Result<(), ATNDeserializeError>)
        ensures
            shape_kept(old(atn), final(atn)),
            forall|i: int|
                0 <= i < old(atn).states@.len() ==> (#[trigger] final(atn).states@[i]).base()
                    == old(atn).states@[i].base() && (!(old(atn).states@[i] is StarLoopEntry)
                    ==> final(atn).states@[i] == old(atn).states@[i]),
            forall|i: int|
                0 <= i < old(atn).states@.len() ==> only_mark_changed(
                    old(atn).states@[i],
                    #[trigger] final(atn).states@[i],
                ),
            tables_kept(old(atn), final(atn)),
            r is Ok <==> forall|i: int|
                0 <= i < old(atn).states@.len() ==> #[trigger] entry_markable(old(atn), i),
            r is Ok ==> forall|i: int|
                0 <= i < final(atn).states@.len()
                    && (#[trigger] final(atn).states@[i]) is StarLoopEntry
                    ==> final(atn).states@[i]->StarLoopEntry_0.precedence_decision == (old(
                atn).states@[i]->StarLoopEntry_0.precedence_decision || is_left_recursion_loop(
                    old(atn),
                    i,
                )),
    {
        let len = atn.states.len();
        let mut marks: Vec<usize> = Vec::new();
        let mut nth: usize = 0;
        while nth < len
            invariant
                shape_kept(old(atn), atn),
                tables_kept(old(atn), atn),
                len == atn.states@.len(),
                forall|j: int| 0 <= j < marks@.len() ==> #[trigger] marks@[j] < len,
                *atn == *old(atn),
                nth <= len,
                forall|j: int| 0 <= j < len
                    ==> #[trigger] marked_upto(marks@, old(atn), nth as int, j),
                forall|j: int| 0 <= j < nth ==> #[trigger] entry_markable(old(atn), j),
            decreases len - nth,
        {
            let ghost before = marks@;
            if let ATNState::StarLoopEntry(sle) = &atn.states[nth] {
                let rule_idx = sle.base.base.rule_idx;
                if rule_idx >= atn.rule2start_state_nths.len() {
                    assert(!entry_markable(old(atn), nth as int));
                    return Err(ATNDeserializeError::IndexOutOfRange);
                }
                let rule_start_nth = atn.rule2start_state_nths[rule_idx];
                if rule_start_nth >= len {
                    assert(!entry_markable(old(atn), nth as int));
                    return Err(ATNDeserializeError::IndexOutOfRange);
                }
                let left_recursive = match atn.states[rule_start_nth].to_rule_start_state() {
                    Some(rs) => rs.left_recursive,
                    None => {
                        assert(!entry_markable(old(atn), nth as int));
                        return Err(ATNDeserializeError::WrongStateKind);
                    },
                };
                if left_recursive {
                    let transitions = &sle.base.base.transitions;
                    if transitions.len() == 0 {
                        assert(!entry_markable(old(atn), nth as int));
                        return Err(ATNDeserializeError::BadShape);
                    }
                    let maybe_loop_end_nth = transitions[transitions.len() - 1].target_nth();
                    if maybe_loop_end_nth >= len {
                        assert(!entry_markable(old(atn), nth as int));
                        return Err(ATNDeserializeError::IndexOutOfRange);
                    }
                    if let ATNState::LoopEnd(le) = &atn.states[maybe_loop_end_nth] {
                        if le.base.transitions.len() == 0 {
                            assert(!entry_markable(old(atn), nth as int));
                            return Err(ATNDeserializeError::BadShape);
                        }
                        let rs_nth = le.base.transitions[0].target_nth();
                        if rs_nth >= len || rule_idx >= atn.rule2stop_state_nths.len() {
                            assert(!entry_markable(old(atn), nth as int));
                            return Err(ATNDeserializeError::IndexOutOfRange);
                        }
                        if rs_nth == atn.rule2stop_state_nths[rule_idx] {
                            marks.push(nth);
                        }
                    }
                }
            }
            proof {
                assert(entry_markable(old(atn), nth as int));
                assert((marks@.len() > before.len()) == is_left_recursion_loop(atn, nth as int));
                assert forall|j: int| 0 <= j < len implies #[trigger] marked_upto(
                    marks@,
                    old(atn),
                    nth + 1,
                    j,
                ) by {
                    assert(marked_upto(before, old(atn), nth as int, j));
                    if marks@.len() > before.len() {
                        assert(marks@ == before.push(nth));
                        if j == nth {
                            assert(marks@[before.len() as int] == nth);
                        }
                        if before.contains(j as usize) {
                            let w = choose|w: int| 0 <= w < before.len() && before[w] == j as usize;
                            assert(marks@[w] == j as usize);
                        }
                        if marks@.contains(j as usize) && j != nth {
                            let w = choose|w: int| 0 <= w < marks@.len() && marks@[w] == j as usize;
                            assert(before[w] == j as usize);
                        }
                    } else {
                        assert(marks@ == before);
                    }
                }
            }
            nth += 1;
        }
        proof {
            assert forall|j: int| 0 <= j < len implies (marks@.contains(j as usize)
                <==> is_left_recursion_loop(old(atn), j)) by {
                assert(marked_upto(marks@, old(atn), len as int, j));
            }
        }
        let mut k: usize = 0;
        while k < marks.len()
            invariant
                shape_kept(old(atn), atn),
                tables_kept(old(atn), atn),
                len == atn.states@.len(),
                forall|j: int| 0 <= j < marks@.len() ==> #[trigger] marks@[j] < len,
                k <= marks@.len(),
                forall|i: int|
                    0 <= i < len ==> (#[trigger] atn.states@[i]).base()
                        == old(atn).states@[i].base()
                        && (!(old(atn).states@[i] is StarLoopEntry) ==> atn.states@[i]
                            == old(atn).states@[i]),
                forall|i: int|
                    0 <= i < len ==> only_mark_changed(old(atn).states@[i], #[trigger] atn.states@[i]),
                forall|j: int|
                    0 <= j < len ==> (marks@.contains(j as usize) <==> is_left_recursion_loop(
                        old(atn),
                        j,
                    )),
                forall|i: int|
                    0 <= i < len && (#[trigger] atn.states@[i]) is StarLoopEntry
                        ==> atn.states@[i]->StarLoopEntry_0.precedence_decision == (old(
                    atn).states@[i]->StarLoopEntry_0.precedence_decision || marks@.take(
                        k as int,
                    ).contains(i as usize)),
            decreases marks.len() - k,
        {
            let ghost before = atn.states@;
            if let Some(sle) = atn.states[marks[k]].to_star_loop_entry_mut() {
                sle.precedence_decision = true;
            }
            proof {
                let m = marks@[k as int] as int;
                lemma_skeleton_step(before, atn.states@, m);
                lemma_skeleton_trans(old(atn).states@, before, atn.states@);
                assert(marks@.take(k + 1) == marks@.take(k as int).push(marks@[k as int]));
                assert forall|i: int| 0 <= i < len implies (#[trigger] atn.states@[i]).base()
                    == old(atn).states@[i].base() && (!(old(atn).states@[i] is StarLoopEntry)
                    ==> atn.states@[i]
                    == old(atn).states@[i]) by {
                    assert(before[i].base() == old(atn).states@[i].base());
                    assert(atn.states@[i].kind() == old(atn).states@[i].kind());
                    if i != m {
                        assert(atn.states@[i] == before[i]);
                    }
                }
                assert forall|i: int| 0 <= i < len implies only_mark_changed(
                    old(atn).states@[i],
                    #[trigger] atn.states@[i],
                ) by {
                    assert(only_mark_changed(old(atn).states@[i], before[i]));
                    if i != m {
                        assert(atn.states@[i] == before[i]);
                    }
                }
                assert forall|i: int|
                    0 <= i < len && (#[trigger] atn.states@[i]) is StarLoopEntry
                        implies atn.states@[i]->StarLoopEntry_0.precedence_decision
                        == (old(atn).states@[i]->StarLoopEntry_0.precedence_decision || marks@.take(
                    k + 1,
                ).contains(i as usize)) by {
                    let t0 = marks@.take(k as int);
                    assert(before[i].kind() == old(atn).states@[i].kind());
                    let t1 = marks@.take(k + 1);
                    assert(atn.states@[i].kind() == before[i].kind());
                    if i != m {
                        assert(atn.states@[i] == before[i]);
                        if t1.contains(i as usize) {
                            let w = choose|w: int| 0 <= w < t1.len() && t1[w] == i as usize;
                            assert(w < t0.len());
                            assert(t0[w] == i as usize);
                        }
                        if t0.contains(i as usize) {
                            let w = choose|w: int| 0 <= w < t0.len() && t0[w] == i as usize;
                            assert(t1[w] == i as usize);
                        }
                    } else {
                        assert(t1[k as int] == i as usize);
                    }
                }
            }
            k += 1;
        }
        proof {
            assert(marks@.take(marks@.len() as int) == marks@);
        }
        Ok(())
    }

    /// Rule-bypass transitions are not available: asking for them fails.
    fn generate_rule_bypass_transition(&self, atn: &mut ATN) -> (r: Result<(), ATNDeserializeError>)
        ensures
            *final(atn) == *old(atn),
            r is Ok == !self.des_opt.gen_rule_bypass_transitions,
    {
        if self.des_opt.gen_rule_bypass_transitions {
            return Err(ATNDeserializeError::BypassUnsupported);
        }
        Ok(())
    }

    /// Runs the structural verification pass when the options ask for it:
    /// each state has one transition unless all of its transitions are
    /// epsilon-like, each decision with several transitions has an ordinal,
    /// and star loops have their fixed shape.
    fn verify_atn(&self, atn: &ATN) -> (r: Result<(), ATNDeserializeError>)
        requires
            atn.wf(),
        ensures
            !self.des_opt.verify_atn ==> r is Ok,
            atn.states@.len() == 0 ==> r is Ok,
            self.des_opt.verify_atn ==> (r is Ok <==> atn.shaped()),
    {
        if !self.des_opt.verify_atn {
            return Ok(());
        }
        let len = atn.states.len();
        let mut i: usize = 0;
        while i < len
            invariant
                atn.wf(),
                self.des_opt.verify_atn,
                len == atn.states@.len(),
                i <= len,
                forall|j: int| 0 <= j < i ==> #[trigger] atn.state_shaped(j),
            decreases len - i,
        {
            check_state_shape(atn, i)?;
            i += 1;
        }
        Ok(())
    }

    /// Builds the automaton that `data` encodes, or says why the encoding is
    /// corrupt. The sections come in a fixed order, each prefixed by its
    /// count: version, grammar type and largest token type, states, rules,
    /// modes, interval sets, edges, decisions, and (for a lexer) lexer
    /// actions.
    pub fn deserialize(&self, data: &[i32]) -> (r: Result<ATN, ATNDeserializeError>)
        ensures
            data@.len() == 0 ==> r
                == Err::<ATN, ATNDeserializeError>(ATNDeserializeError::Truncated),
            data@.len() > 0 && data@[0] != SERIALIZED_VERSION ==> r
                == Err::<ATN, ATNDeserializeError>(
                ATNDeserializeError::VersionMismatch,
            ),
            data@.len() > 1 && data@[0] == SERIALIZED_VERSION && !(data@[1] == 0 || data@[1] == 1)
                ==> r == Err::<ATN, ATNDeserializeError>(ATNDeserializeError::InvalidGrammarType),
            1 <= data@.len() <= 2 && data@[0] == SERIALIZED_VERSION && (data@.len() == 1 || data@[1]
                == 0 || data@[1] == 1) ==> r == Err::<ATN, ATNDeserializeError>(
                ATNDeserializeError::Truncated,
            ),
            r is Ok ==> {
                let atn = r->Ok_0;
                &&& data@.len() > 3
                &&& data@[0] == SERIALIZED_VERSION
                &&& data@[1] == 0 || data@[1] == 1
                &&& atn.grammar_type == if data@[1] == 0 {
                    ATNType::Lexer
                } else {
                    ATNType::Parser
                }
                &&& atn.max_token_type == data@[2]
                &&& atn.states@.len() == data@[3]
                &&& states_match(atn.states@, data@, 4)
                &&& forall|i: int|
                    0 <= i < atn.states@.len() && (#[trigger] atn.states@[i]) is StarLoopEntry ==> (
                    atn.states@[i]->StarLoopEntry_0.precedence_decision <==> is_left_recursion_loop(
                        &atn,
                        i,
                    ))
                &&& atn.rule2start_state_nths@.len() == data@[rules_section(data@)]
                &&& forall|k: int|
                    0 <= k < atn.rule2start_state_nths@.len()
                        ==> #[trigger] atn.rule2start_state_nths@[k]
                        == data@[rule_record_pos(rules_section(data@), data@[1] == 0, k)]
                &&& atn.mode2start_state_nths@.len() == data@[modes_section(data@)]
                &&& forall|k: int|
                    0 <= k < atn.mode2start_state_nths@.len()
                        ==> #[trigger] atn.mode2start_state_nths@[k]
                        == data@[modes_section(data@) + 1 + k]
                &&& encoding_end(data@) <= data@.len()
                &&& encoding_in_data(data@)
                &&& atn.decision2state_nth@.len() == data@[decisions_section(data@)]
                &&& forall|k: int|
                    0 <= k < atn.decision2state_nth@.len() ==> #[trigger] atn.decision2state_nth@[k]
                        == data@[decisions_section(data@) + 1 + k]
                &&& atn.wf()
                &&& self.des_opt.verify_atn ==> atn.shaped()
                &&& !self.des_opt.gen_rule_bypass_transitions
            },
            empty_encoding(data@) && !self.des_opt.gen_rule_bypass_transitions ==> r is Ok
                && r->Ok_0.states@.len() == 0,
    {
        proof {
            if empty_encoding(data@) {
                assert(zero_at(data@, 3) && zero_at(data@, 4) && zero_at(data@, 5)
                    && zero_at(data@, 6));
                assert(zero_at(data@, 7) && zero_at(data@, 8) && zero_at(data@, 9)
                    && zero_at(data@, 10));
            }
        }
        let mut pos: usize = 0;
        self.check_version(data, &mut pos)?;
        let mut atn = self.read_atn(data, &mut pos)?;
        self.read_states(data, &mut pos, &mut atn)?;
        let ghost s1 = atn.states@;
        let ghost rules_at = pos;
        self.read_rules(data, &mut pos, &mut atn)?;
        let ghost s2 = atn.states@;
        let ghost modes_at = pos;
        self.read_modes(data, &mut pos, &mut atn)?;
        proof {
            assert(rules_at == rules_section(data@));
            assert(modes_at == modes_section(data@));
        }
        let ghost sets_at = pos;
        let sets = self.read_sets(data, &mut pos)?;
        proof {
            assert(sets_at == sets_section(data@));
        }
        let ghost s3 = atn.states@;
        let ghost edges_at = pos;
        self.read_edges(data, &mut pos, &mut atn, sets)?;
        let ghost s4 = atn.states@;
        let ghost decisions_at = pos;
        self.read_decisions(data, &mut pos, &mut atn)?;
        proof {
            assert(edges_at == edges_section(data@));
            assert(decisions_at == decisions_section(data@));
        }
        let ghost s5 = atn.states@;
        let ghost actions_at = pos;
        self.read_lexer_actions(data, &mut pos, &mut atn)?;
        proof {
            assert(actions_at == actions_section(data@));
            assert(pos == encoding_end(data@));
        }
        let ghost s6 = atn.states@;
        let ghost unmarked = atn;
        self.mark_precedence_decisions(&mut atn)?;
        self.generate_rule_bypass_transition(&mut atn)?;
        proof {
            lemma_no_marks_kept(s1, s2);
            lemma_no_marks_kept(s3, s4);
            lemma_no_marks_kept(s4, s5);
            assert forall|i: int|
                0 <= i < atn.states@.len() && (#[trigger] atn.states@[i]) is StarLoopEntry implies (
            atn.states@[i]->StarLoopEntry_0.precedence_decision <==> is_left_recursion_loop(
                &atn,
                i,
            )) by {
                assert(unmarked.states@[i].kind() == atn.states@[i].kind());
                lemma_left_recursion_loop_kept(&unmarked, &atn, i);
            }
        }
        proof {
            lemma_states_match_kept(s1, s2, data@, 4);
            lemma_states_match_kept(s2, s3, data@, 4);
            lemma_states_match_kept(s3, s4, data@, 4);
            lemma_states_match_kept(s4, s5, data@, 4);
            lemma_states_match_kept(s5, s6, data@, 4);
            lemma_states_match_kept(s6, atn.states@, data@, 4);
        }
        check_links(&atn)?;
        self.verify_atn(&atn)?;
        Ok(atn)
    }
}


/// Checks that the state at `i` is linked as `ATN::state_linked` asks.
fn check_state_links(atn: &ATN, i: usize) -> (r: Result<(), ATNDeserializeError>)
    requires
        i < atn.states@.len(),
    ensures
        r is Ok <==> atn.state_linked(i as int),
{
    let len = atn.states.len();
    let state = &atn.states[i];
    let base = state.base_atn_state();
    if base.state_nth != i {
        return Err(ATNDeserializeError::IndexOutOfRange);
    }
    let mut k: usize = 0;
    while k < base.transitions.len()
        invariant
            len == atn.states@.len(),
            *base == atn.states@[i as int].base(),
            forall|j: int| 0 <= j < k ==> atn.transition_ok(#[trigger] base.transitions@[j]),
        decreases base.transitions.len() - k,
    {
        let t = &base.transitions[k];
        if t.target_nth() >= len {
            return Err(ATNDeserializeError::IndexOutOfRange);
        }
        if let Transition::Rule(rt) = t {
            if rt.follow_state_nth >= len {
                return Err(ATNDeserializeError::IndexOutOfRange);
            }
        }
        k += 1;
    }
    if let Some(bs) = state.to_block_start() {
        if !bs.contrast_set {
            return Err(ATNDeserializeError::MissingBackReference);
        }
        if bs.block_end_state_nth >= len {
            return Err(ATNDeserializeError::IndexOutOfRange);
        }
        match &atn.states[bs.block_end_state_nth] {
            ATNState::BlockEnd(be) => {
                if be.block_start_state_nth != i {
                    return Err(ATNDeserializeError::MissingBackReference);
                }
            },
            _ => {
                return Err(ATNDeserializeError::WrongStateKind);
            },
        }
    }
    match state {
        ATNState::BlockEnd(be) => {
            if !be.contrast_set {
                return Err(ATNDeserializeError::MissingBackReference);
            }
            if be.block_start_state_nth >= len {
                return Err(ATNDeserializeError::IndexOutOfRange);
            }
            match atn.states[be.block_start_state_nth].to_block_start() {
                Some(bs) => {
                    if bs.block_end_state_nth != i {
                        return Err(ATNDeserializeError::MissingBackReference);
                    }
                },
                None => {
                    return Err(ATNDeserializeError::WrongStateKind);
                },
            }
        },
        ATNState::RuleStart(rs) => {
            if !rs.contrast_set {
                return Err(ATNDeserializeError::MissingBackReference);
            }
            if rs.rule_stop_state_nth >= len {
                return Err(ATNDeserializeError::IndexOutOfRange);
            }
            if !matches!(atn.states[rs.rule_stop_state_nth], ATNState::RuleStop(_)) {
                return Err(ATNDeserializeError::WrongStateKind);
            }
        },
        ATNState::PlusBlockStart(pbs) => {
            if !pbs.contrast_set {
                return Err(ATNDeserializeError::MissingBackReference);
            }
            if pbs.plus_loopback_state_nth >= len {
                return Err(ATNDeserializeError::IndexOutOfRange);
            }
            if !matches!(atn.states[pbs.plus_loopback_state_nth], ATNState::PlusLoopback(_)) {
                return Err(ATNDeserializeError::WrongStateKind);
            }
        },
        ATNState::StarLoopEntry(sle) => {
            if !sle.contrast_set {
                return Err(ATNDeserializeError::MissingBackReference);
            }
            if sle.star_loopback_state_nth >= len {
                return Err(ATNDeserializeError::IndexOutOfRange);
            }
            if !matches!(atn.states[sle.star_loopback_state_nth], ATNState::StarLoopback(_)) {
                return Err(ATNDeserializeError::WrongStateKind);
            }
        },
        ATNState::LoopEnd(le) => {
            if !le.contrast_set {
                return Err(ATNDeserializeError::MissingBackReference);
            }
            if le.loopback_state_nth >= len {
                return Err(ATNDeserializeError::IndexOutOfRange);
            }
        },
        _ => {},
    }
    Ok(())
}

/// Checks every state, rule, mode and decision: on success the automaton is
/// well formed.
fn check_links(atn: &ATN) -> (r: Result<(), ATNDeserializeError>)
    ensures
        r is Ok <==> atn.wf(),
        atn.states@.len() == 0 && atn.rule2start_state_nths@.len() == 0
            && atn.rule2stop_state_nths@.len() == 0 && atn.mode2start_state_nths@.len() == 0
            && atn.decision2state_nth@.len() == 0 ==> r is Ok,
{
    let len = atn.states.len();
    let mut i: usize = 0;
    while i < len
        invariant
            len == atn.states@.len(),
            i <= len,
            forall|j: int| 0 <= j < i ==> #[trigger] atn.state_linked(j),
        decreases len - i,
    {
        check_state_links(atn, i)?;
        i += 1;
    }
    let rules_num = atn.rule2start_state_nths.len();
    if atn.rule2stop_state_nths.len() != rules_num {
        return Err(ATNDeserializeError::IndexOutOfRange);
    }
    let mut r: usize = 0;
    while r < rules_num
        invariant
            len == atn.states@.len(),
            rules_num == atn.rule2start_state_nths@.len(),
            rules_num == atn.rule2stop_state_nths@.len(),
            r <= rules_num,
            forall|j: int| 0 <= j < r ==> #[trigger] atn.rule_ok(j),
        decreases rules_num - r,
    {
        let start = atn.rule2start_state_nths[r];
        let stop = atn.rule2stop_state_nths[r];
        if start >= len || stop >= len {
            assert(!atn.rule_ok(r as int));
            return Err(ATNDeserializeError::IndexOutOfRange);
        }
        if !matches!(atn.states[start], ATNState::RuleStart(_)) || !matches!(
            atn.states[stop],
            ATNState::RuleStop(_),
        ) {
            assert(!atn.rule_ok(r as int));
            return Err(ATNDeserializeError::WrongStateKind);
        }
        r += 1;
    }
    let modes_num = atn.mode2start_state_nths.len();
    let mut m: usize = 0;
    while m < modes_num
        invariant
            len == atn.states@.len(),
            modes_num == atn.mode2start_state_nths@.len(),
            m <= modes_num,
            forall|j: int|
                0 <= j < m ==> atn.valid_state(#[trigger] atn.mode2start_state_nths@[j] as int)
                    && atn.states@[atn.mode2start_state_nths@[j] as int] is TokenStart,
        decreases modes_num - m,
    {
        let s = atn.mode2start_state_nths[m];
        if s >= len {
            return Err(ATNDeserializeError::IndexOutOfRange);
        }
        if !matches!(atn.states[s], ATNState::TokenStart(_)) {
            return Err(ATNDeserializeError::WrongStateKind);
        }
        m += 1;
    }
    let decisions_num = atn.decision2state_nth.len();
    let mut d: usize = 0;
    while d < decisions_num
        invariant
            len == atn.states@.len(),
            decisions_num == atn.decision2state_nth@.len(),
            d <= decisions_num,
            forall|j: int| 0 <= j < d ==> #[trigger] atn.decision_ok(j),
        decreases decisions_num - d,
    {
        let s = atn.decision2state_nth[d];
        if s >= len {
            assert(!atn.decision_ok(d as int));
            return Err(ATNDeserializeError::IndexOutOfRange);
        }
        match atn.states[s].to_decision_state() {
            Some(ds) => {
                if ds.decision < 0 || ds.decision as usize != d {
                    assert(!atn.decision_ok(d as int));
                    return Err(ATNDeserializeError::WrongStateKind);
                }
            },
            None => {
                assert(!atn.decision_ok(d as int));
                return Err(ATNDeserializeError::WrongStateKind);
            },
        }
        d += 1;
    }
    Ok(())
}

/// Checks that the state at `i` has the shape that `ATN::state_shaped` asks.
fn check_state_shape(atn: &ATN, i: usize) -> (r: Result<(), ATNDeserializeError>)
    requires
        atn.wf(),
        i < atn.states@.len(),
    ensures
        r is Ok <==> atn.state_shaped(i as int),
{
    let state = &atn.states[i];
    let base = state.base_atn_state();
    let n = base.transitions.len();
    proof {
        assert(atn.state_linked(i as int));
        assert(forall|k: int| 0 <= k < n ==> atn.transition_ok(#[trigger] base.transitions@[k]));
    }
    if !base.epsilon_only_trans && n > 1 {
        return Err(ATNDeserializeError::BadShape);
    }
    if let Some(d) = state.to_decision_state() {
        if n > 1 && d.decision < 0 {
            return Err(ATNDeserializeError::BadShape);
        }
    }
    match state {
        ATNState::StarLoopback(_) => {
            if n != 1 {
                return Err(ATNDeserializeError::BadShape);
            }
            if !matches!(atn.states[base.transitions[0].target_nth()], ATNState::StarLoopEntry(_)) {
                return Err(ATNDeserializeError::BadShape);
            }
        },
        ATNState::StarLoopEntry(sle) => {
            if n != 2 {
                return Err(ATNDeserializeError::BadShape);
            }
            let a = &atn.states[base.transitions[0].target_nth()];
            let b = &atn.states[base.transitions[1].target_nth()];
            let forward = matches!(a, ATNState::StarBlockStart(_))
                && matches!(b, ATNState::LoopEnd(_));
            let backward = matches!(a, ATNState::LoopEnd(_))
                && matches!(b, ATNState::StarBlockStart(_));
            if forward {
                if sle.base.non_greedy {
                    return Err(ATNDeserializeError::BadShape);
                }
            } else if backward {
                if !sle.base.non_greedy {
                    return Err(ATNDeserializeError::BadShape);
                }
            } else {
                return Err(ATNDeserializeError::BadShape);
            }
        },
        _ => {},
    }
    Ok(())
}
} // verus!
