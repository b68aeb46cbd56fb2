use std::rc::Rc;
use vstd::prelude::*;
use crate::token_source::TokenSource;

verus! {

/// Buffers the tokens of a token source, loaded on demand, so that any
/// earlier token can be reached by index.
pub struct CommonTokenStream<TS: TokenSource> {
    pub token_source: TS,
    pub channel: isize,
    pub tokens: Vec<Rc<<TS as TokenSource>::TK>>,
}

impl<TS: TokenSource> CommonTokenStream<TS> {
    /// A stream over `lexer`'s tokens on `channel`, with none loaded yet.
    pub fn new(lexer: TS, channel: isize) -> (r: Self)
        ensures
            r.token_source == lexer,
            r.channel == channel,
            r.tokens@.len() == 0,
    {
        Self { channel, tokens: Vec::new(), token_source: lexer }
    }
}

} // verus!
