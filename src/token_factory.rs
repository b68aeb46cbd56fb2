use vstd::prelude::*;
use crate::char_stream::CharStream;
use crate::code_point::{codes, range_text};
use crate::token::{BaseToken, Token};

verus! {

/// Makes the tokens that a lexer emits.
pub trait TokenFactory {
    type TK: Token;

    /// A token of type `token_type` over characters `start..=stop`; its text
    /// is `text`, or else that of the range in `stream`.
    fn create<S: CharStream>(
        &self,
        stream: &S,
        token_type: isize,
        text: Option<String>,
        channel: isize,
        start: isize,
        stop: isize,
        line: isize,
        column: isize,
    ) -> (r: Self::TK)
        requires
            stream.stream_wf(),
        ensures
            r.info().token_type == token_type,
            r.info().channel == channel,
            r.info().start == start,
            r.info().stop == stop,
            r.info().line == line,
            r.info().column == column,
            r.info().token_index == -1,
            text is Some ==> r.info().text == text->Some_0@,
            text is None ==> codes(r.info().text) == range_text(
                stream.text_points(),
                start as usize as int,
                stop as usize as int,
            ),
    ;
}

/// The factory of `BaseToken`s.
pub struct CommonTokenFactory;

impl Default for CommonTokenFactory {
    fn default() -> (r: Self) {
        Self {  }
    }
}

impl CommonTokenFactory {
    pub fn new() -> (r: Self) {
        Self {  }
    }
}

impl TokenFactory for CommonTokenFactory {
    type TK = BaseToken;

    fn create<S: CharStream>(
        &self,
        stream: &S,
        token_type: isize,
        text: Option<String>,
        channel: isize,
        start: isize,
        stop: isize,
        line: isize,
        column: isize,
    ) -> (r: Self::TK) {
        let t = match text {
            Some(t) => t,
            None => stream.text(
                #[verifier::truncate]
                (start as usize),
                #[verifier::truncate]
                (stop as usize),
            ),
        };
        BaseToken::new(token_type, channel, start, stop, -1, line, column, t, false)
    }
}

} // verus!
