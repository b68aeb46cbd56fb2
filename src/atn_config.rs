use vstd::prelude::*;
use crate::Nth;
use crate::murmur3::{
    murmur_finish, murmur_finish_spec, murmur_init, murmur_update, murmur_update_spec, MurmurHash,
};
use crate::semantic_context::SemanticContext;

verus! {

/// Whether a configuration belongs to a lexer or to a parser.
#[derive(Debug, Clone, Copy, PartialEq, Eq, Structural)]
pub enum ATNConfigType {
    LexerConfig,
    ParserConfig,
}

/// One way to read the lookahead: an automaton state, the alternative it
/// predicts, the call stack (a handle in the prediction context cache) and
/// the semantic condition.
#[derive(Debug)]
pub struct ATNConfig {
    pub state_nth: Nth,
    pub alt: isize,
    pub context: usize,
    pub semantic_context: SemanticContext,
    pub reaches_into_outer_context: isize,
}

impl ATNConfig {
    pub fn new(state_nth: Nth, alt: isize, context: usize, semantic_context: SemanticContext) -> (r:
        Self)
        ensures
            r.state_nth == state_nth,
            r.alt == alt,
            r.context == context,
            r.semantic_context == semantic_context,
            r.reaches_into_outer_context == 0,
    {
        Self { state_nth, alt, context, semantic_context, reaches_into_outer_context: 0 }
    }
}

impl MurmurHash for ATNConfig {
    open spec fn murmur_spec(&self) -> u32 {
        murmur_finish_spec(
            murmur_update_spec(
                murmur_update_spec(murmur_update_spec(7, self.state_nth as u32), self.alt as u32),
                self.context as u32,
            ),
            3,
        )
    }

    fn murmur(&self) -> (r: u32) {
        let mut h = murmur_init(7);
        h = murmur_update(h, #[verifier::truncate] (self.state_nth as u32));
        h = murmur_update(h, #[verifier::truncate] (self.alt as u32));
        h = murmur_update(h, #[verifier::truncate] (self.context as u32));
        murmur_finish(h, 3)
    }
}

} // verus!
