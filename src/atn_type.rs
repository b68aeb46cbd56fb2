use vstd::prelude::*;

verus! {

/// Whether an automaton recognizes characters (a lexer) or tokens (a parser).
#[derive(Debug, Clone, Copy, PartialEq, Eq, Structural)]
pub enum ATNType {
    Lexer,
    Parser,
}

} // verus!
