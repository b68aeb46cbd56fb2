use std::sync::{Arc, RwLock};
use vstd::prelude::*;
use crate::atn::ATN;
use crate::atn_simulator::{ATNSimulator, BaseATNSimulator};
use crate::char_stream::CharStream;
use crate::dfa::DFA;
use crate::int_stream::{lookahead, IntStream};
use crate::lexer::LEXER_DEFAULT_MODE;
use crate::prediction_context::PredictionContextCache;

verus! {

/// The code of the line feed character.
pub const LINE_FEED: isize = 10;

/// The simulator that a lexer drives: it tracks the line and the column of
/// the input it consumes.
pub trait LexerATNSimulator: ATNSimulator {
    spec fn line_spec(&self) -> isize;

    spec fn column_spec(&self) -> isize;

    spec fn mode_spec(&self) -> isize;

    /// Back to the default mode, with no accept state remembered.
    fn reset(&mut self)
        ensures
            final(self).mode_spec() == LEXER_DEFAULT_MODE,
            final(self).line_spec() == old(self).line_spec(),
            final(self).column_spec() == old(self).column_spec(),
    ;

    fn char_position_in_line(&self) -> (r: isize)
        ensures
            r == self.column_spec(),
    ;

    fn line(&self) -> (r: isize)
        ensures
            r == self.line_spec(),
    ;

    /// Consumes the current character: after a line feed the line grows and
    /// the column is 0, after any other character the column grows.
    fn consume<S: CharStream>(&mut self, input: &mut S)
        requires
            old(input).stream_wf(),
            old(input).stream_index() < old(input).stream_size(),
            old(self).line_spec() < isize::MAX,
            old(self).column_spec() < isize::MAX,
        ensures
            final(input).stream_wf(),
            final(input).stream_index() == old(input).stream_index() + 1,
            final(input).stream_size() == old(input).stream_size(),
            ({
                let c = lookahead(
                    old(input).stream_index(),
                    old(input).stream_size(),
                    |k: int| old(input).symbol(k),
                    1,
                );
                if c == LINE_FEED {
                    final(self).line_spec() == old(self).line_spec() + 1
                        && final(self).column_spec()
                        == 0
                } else {
                    final(self).line_spec() == old(self).line_spec() && final(self).column_spec()
                        == old(self).column_spec() + 1
                }
            }),
    ;
}

/// The lexer's last accepting position: input index, line, column and
/// cached state, if any.
#[derive(Debug)]
pub struct SimState {
    pub index: isize,
    pub line: isize,
    pub column: isize,
    pub dfa_state: Option<usize>,
}

impl SimState {
    pub fn new() -> (r: Self)
        ensures
            r.index == -1,
            r.line == 0,
            r.column == 0,
            r.dfa_state is None,
    {
        Self { index: -1, line: 0, column: 0, dfa_state: None }
    }

    pub fn reset(&mut self)
        ensures
            final(self).dfa_state is None,
            final(self).index == old(self).index,
            final(self).line == old(self).line,
            final(self).column == old(self).column,
    {
        self.dfa_state = None
    }
}

pub struct BaseLexerATNSimulator {
    pub base: BaseATNSimulator,
    pub mode: isize,
    pub prev_accept: SimState,
    pub line: isize,
    pub char_position_in_line: isize,
}

impl BaseLexerATNSimulator {
    /// A simulator over the shared automaton, cache and decisions, at line 1,
    /// column 0, in the default mode.
    pub fn new(
        atn: Arc<ATN>,
        shared_ctx_cache: Arc<RwLock<PredictionContextCache>>,
        decision_to_dfa: Arc<Vec<RwLock<DFA>>>,
    ) -> (r: Self)
        ensures
            r.mode == LEXER_DEFAULT_MODE,
            r.line_spec() == 1,
            r.column_spec() == 0,
            r.atn_spec() == *atn,
    {
        Self {
            base: BaseATNSimulator::new(atn, shared_ctx_cache, decision_to_dfa),
            mode: LEXER_DEFAULT_MODE,
            prev_accept: SimState::new(),
            line: 1,
            char_position_in_line: 0,
        }
    }
}

impl ATNSimulator for BaseLexerATNSimulator {
    closed spec fn atn_spec(&self) -> ATN {
        self.base.atn_spec()
    }

    closed spec fn cache_spec(&self) -> RwLock<PredictionContextCache> {
        self.base.cache_spec()
    }

    closed spec fn decisions_spec(&self) -> Seq<RwLock<DFA>> {
        self.base.decisions_spec()
    }

    fn shared_context_cache(&self) -> (r: &RwLock<PredictionContextCache>) {
        self.base.shared_context_cache()
    }

    fn atn(&self) -> (r: &ATN) {
        self.base.atn()
    }

    fn decision_to_dfa(&self) -> (r: &Vec<RwLock<DFA>>) {
        self.base.decision_to_dfa()
    }
}

impl LexerATNSimulator for BaseLexerATNSimulator {
    closed spec fn line_spec(&self) -> isize {
        self.line
    }

    closed spec fn column_spec(&self) -> isize {
        self.char_position_in_line
    }

    closed spec fn mode_spec(&self) -> isize {
        self.mode
    }

    fn reset(&mut self) {
        self.prev_accept.reset();
        self.mode = LEXER_DEFAULT_MODE;
    }

    fn char_position_in_line(&self) -> (r: isize) {
        self.char_position_in_line
    }

    fn line(&self) -> (r: isize) {
        self.line
    }

    fn consume<S: CharStream>(&mut self, input: &mut S) {
        if input.la(1) == LINE_FEED {
            self.line = self.line + 1;
            self.char_position_in_line = 0;
        } else {
            self.char_position_in_line = self.char_position_in_line + 1;
        }
        input.consume();
    }
}

} // verus!
