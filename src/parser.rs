use vstd::prelude::*;
use crate::parser_atn_simulator::ParserATNSimulator;
use crate::recognizer::Recognizer;

verus! {

/// A parser: a recognizer with a current precedence level.
pub trait Parser: Recognizer {
    fn precedence(&self) -> isize;
}

pub struct BaseParser<R, PAS, TS> where R: Recognizer, PAS: ParserATNSimulator {
    pub recognizer: R,
    pub interpreter: PAS,
    pub token_stream: TS,
}

} // verus!
