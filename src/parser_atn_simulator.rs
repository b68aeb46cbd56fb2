use vstd::prelude::*;
use crate::atn_simulator::{ATNSimulator, BaseATNSimulator};

verus! {

/// The simulator that a parser drives.
pub trait ParserATNSimulator: ATNSimulator {

}

pub struct BaseParserATNSimulator {
    pub base: BaseATNSimulator,
}

} // verus!
