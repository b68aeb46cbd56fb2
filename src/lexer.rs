use vstd::prelude::*;
use crate::char_stream::CharStream;
use crate::code_point::{codes, range_text};
use crate::int_stream::IntStream;
use crate::lexer_atn_simulator::LexerATNSimulator;
use crate::errors::ANTLRError;
use crate::recognizer::Recognizer;
use crate::token::{Token, TokenInfo, TOKEN_DEFAULT_CHANNEL, TOKEN_EOF, TOKEN_INVALID_TYPE};
use crate::token_factory::TokenFactory;

verus! {

pub const LEXER_DEFAULT_MODE: isize = 0;

pub const LEXER_MORE: isize = -2;

pub const LEXER_SKIP: isize = -3;

/// A lexer: a recognizer that emits tokens.
pub trait Lexer: Recognizer {
    type TK: Token;

    /// The lexer's input can be read.
    spec fn lexer_wf(&self) -> bool;

    /// `t` is the token that the lexer in this state emits.
    spec fn emitted(&self, t: TokenInfo) -> bool;

    fn emit(&mut self) -> (r: Self::TK)
        requires
            old(self).lexer_wf(),
        ensures
            old(self).emitted(r.info()),
    ;
}

/// The state of a lexer run: the grammar's recognizer, the simulator, the
/// token factory and the input, with the token being built.
pub struct BaseLexer<R, LAS, TF, CS> where
    R: Recognizer,
    LAS: LexerATNSimulator,
    TF: TokenFactory,
    CS: CharStream,
 {
    pub recognizer: R,
    pub interpreter: LAS,
    pub factory: TF,
    pub input: CS,
    pub token_start_idx: isize,
    pub token_start_line: isize,
    pub token_start_column: isize,
    pub token: Option<TF::TK>,
    pub hit_eof: bool,
    pub channel: isize,
    pub this_type: isize,
    pub mode_stack: Vec<isize>,
    pub mode: isize,
    pub text: Option<String>,
}

impl<R, LAS, TF, CS> BaseLexer<R, LAS, TF, CS> where
    R: Recognizer,
    LAS: LexerATNSimulator,
    TF: TokenFactory,
    CS: CharStream,
 {
    /// A lexer at the start of `cs`, in the default mode, with no token yet.
    pub fn new(r: R, las: LAS, tf: TF, cs: CS) -> (l: Self)
        ensures
            l.recognizer == r,
            l.interpreter == las,
            l.factory == tf,
            l.input == cs,
            l.token_start_idx == -1,
            l.token_start_line == -1,
            l.token_start_column == -1,
            l.token is None,
            !l.hit_eof,
            l.channel == TOKEN_DEFAULT_CHANNEL,
            l.this_type == TOKEN_INVALID_TYPE,
            l.mode_stack@.len() == 0,
            l.mode == LEXER_DEFAULT_MODE,
            l.text is None,
    {
        Self {
            recognizer: r,
            interpreter: las,
            factory: tf,
            input: cs,
            token_start_idx: -1,
            token_start_line: -1,
            token_start_column: -1,
            token: None,
            hit_eof: false,
            channel: TOKEN_DEFAULT_CHANNEL,
            this_type: TOKEN_INVALID_TYPE,
            mode_stack: Vec::new(),
            mode: LEXER_DEFAULT_MODE,
            text: None,
        }
    }

    /// Makes `tk` the token to hand out.
    pub fn emit_token(&mut self, tk: TF::TK)
        ensures
            final(self).token == Some(tk),
            final(self).input == old(self).input,
            final(self).text == old(self).text,
    {
        self.token = Some(tk)
    }

    /// Emits the end-of-input token: it sits at the current input index,
    /// on the default channel, at the simulator's line and column.
    pub fn emit_eof(&mut self)
        requires
            old(self).input.stream_wf(),
            old(self).input.stream_index() > isize::MIN,
        ensures
            final(self).text is None,
            final(self).token is Some,
            ({
                let t = final(self).token->Some_0.info();
                let i = old(self).input.stream_index();
                &&& t.token_type == TOKEN_EOF
                &&& t.channel == TOKEN_DEFAULT_CHANNEL
                &&& t.start == i
                &&& t.stop == i - 1
                &&& t.line == old(self).interpreter.line_spec()
                &&& t.column == old(self).interpreter.column_spec()
                &&& t.token_index == -1
                &&& old(self).text is Some ==> t.text == old(self).text->Some_0@
                &&& old(self).text is None ==> codes(t.text) == range_text(
                    old(self).input.text_points(),
                    i as usize as int,
                    (i - 1) as usize as int,
                )
            }),
    {
        let text = self.text.take();
        let index = self.input.index();
        let line = self.interpreter.line();
        let column = self.interpreter.char_position_in_line();
        let eof = self.factory.create(
            &self.input,
            TOKEN_EOF,
            text,
            TOKEN_DEFAULT_CHANNEL,
            index,
            index - 1,
            line,
            column,
        );
        self.emit_token(eof)
    }
}

impl<R, LAS, TF, CS> Lexer for BaseLexer<R, LAS, TF, CS> where
    R: Recognizer,
    LAS: LexerATNSimulator,
    TF: TokenFactory,
    CS: CharStream,
 {
    type TK = TF::TK;

    open spec fn lexer_wf(&self) -> bool {
        self.input.stream_wf()
    }

    open spec fn emitted(&self, t: TokenInfo) -> bool {
        let i = self.input.stream_index();
        let stop = if i > isize::MIN { i - 1 } else { i };
        &&& t.token_type == self.this_type
        &&& t.channel == self.channel
        &&& t.start == self.token_start_idx
        &&& t.stop == stop
        &&& t.line == self.token_start_line
        &&& t.column == self.token_start_column
        &&& t.token_index == -1
        &&& self.text is Some ==> t.text == self.text->Some_0@
        &&& self.text is None ==> codes(t.text) == range_text(
            self.input.text_points(),
            self.token_start_idx as usize as int,
            stop as usize as int,
        )
    }

    /// Emits the token matched since the token start: of the current type, on
    /// the current channel, up to the character before the input index.
    fn emit(&mut self) -> (r: Self::TK) {
        let text = self.text.take();
        let index = self.input.index();
        let stop = if index > isize::MIN { index - 1 } else { index };
        let tk = self.factory.create(
            &self.input,
            self.this_type,
            text,
            self.channel,
            self.token_start_idx,
            stop,
            self.token_start_line,
            self.token_start_column,
        );
        tk
    }
}

impl<R, LAS, TF, CS> Recognizer for BaseLexer<R, LAS, TF, CS> where
    R: Recognizer,
    LAS: LexerATNSimulator,
    TF: TokenFactory,
    CS: CharStream,
 {
    open spec fn recognizer_state(&self) -> isize {
        self.recognizer.recognizer_state()
    }

    open spec fn recognizer_error(&self) -> Option<ANTLRError> {
        self.recognizer.recognizer_error()
    }

    fn literal_names(&self) -> &[&'static str] {
        self.recognizer.literal_names()
    }

    fn symbolic_names(&self) -> &[&'static str] {
        self.recognizer.symbolic_names()
    }

    fn rule_names(&self) -> &[&'static str] {
        self.recognizer.rule_names()
    }

    fn state(&self) -> (r: isize) {
        self.recognizer.state()
    }

    fn set_state(&mut self, state: isize) {
        self.recognizer.set_state(state)
    }

    fn has_error(&self) -> (r: bool) {
        self.recognizer.has_error()
    }

    fn error(&self) -> (r: Option<&ANTLRError>) {
        self.recognizer.error()
    }

    fn set_error(&mut self, e: ANTLRError) {
        self.recognizer.set_error(e)
    }
}

} // verus!
