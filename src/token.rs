use vstd::prelude::*;

verus! {

pub const TOKEN_INVALID_TYPE: isize = 0;

pub const TOKEN_EPSILON: isize = -2;

pub const TOKEN_MIN_USER_TOKEN_TYPE: isize = 1;

pub const TOKEN_EOF: isize = crate::int_stream::EOF;

pub const TOKEN_DEFAULT_CHANNEL: isize = 0;

pub const TOKEN_HIDDEN_CHANNEL: isize = 1;

pub const TOKEN_MIN_USER_CHANNEL_VALUE: isize = 2;

/// The text that an end-of-input token reads as.
pub const TEXT_EOF: &'static str = "<EOF>";

/// What a token holds: its type, channel, character range, position in the
/// token stream, line, column and text.
pub struct TokenInfo {
    pub token_type: isize,
    pub channel: isize,
    pub start: isize,
    pub stop: isize,
    pub token_index: isize,
    pub line: isize,
    pub column: isize,
    pub text: Seq<char>,
}

/// A token that the lexer hands to the parser.
pub trait Token {
    spec fn info(&self) -> TokenInfo;

    fn token_type(&self) -> (r: isize)
        ensures
            r == self.info().token_type,
    ;

    /// The channel; the parser only reads the default one.
    fn channel(&self) -> (r: isize)
        ensures
            r == self.info().channel,
    ;

    /// The index of the first character.
    fn start(&self) -> (r: isize)
        ensures
            r == self.info().start,
    ;

    /// The index of the last character.
    fn stop(&self) -> (r: isize)
        ensures
            r == self.info().stop,
    ;

    fn line(&self) -> (r: isize)
        ensures
            r == self.info().line,
    ;

    fn column(&self) -> (r: isize)
        ensures
            r == self.info().column,
    ;

    /// The text; `<EOF>` for the end-of-input token.
    fn text(&self) -> (r: String)
        ensures
            r@ == if self.info().token_type == TOKEN_EOF {
                TEXT_EOF@
            } else {
                self.info().text
            },
    ;

    /// The position in the token stream, -1 when the token has none.
    fn token_index(&self) -> (r: isize)
        ensures
            r == self.info().token_index,
    ;

    fn set_token_index(&mut self, idx: isize)
        ensures
            final(self).info() == (TokenInfo { token_index: idx, ..old(self).info() }),
    ;
}

#[derive(Debug, Clone)]
pub struct BaseToken {
    token_type: isize,
    channel: isize,
    start: isize,
    stop: isize,
    token_index: isize,
    line: isize,
    column: isize,
    text: String,
    read_only: bool,
}

impl BaseToken {
    pub fn new(
        token_type: isize,
        channel: isize,
        start: isize,
        stop: isize,
        token_index: isize,
        line: isize,
        column: isize,
        text: String,
        read_only: bool,
    ) -> (r: Self)
        ensures
            r.info() == (TokenInfo {
                token_type,
                channel,
                start,
                stop,
                token_index,
                line,
                column,
                text: text@,
            }),
    {
        Self { token_type, channel, start, stop, token_index, line, column, text, read_only }
    }
}

impl Token for BaseToken {
    closed spec fn info(&self) -> TokenInfo {
        TokenInfo {
            token_type: self.token_type,
            channel: self.channel,
            start: self.start,
            stop: self.stop,
            token_index: self.token_index,
            line: self.line,
            column: self.column,
            text: self.text@,
        }
    }

    fn token_type(&self) -> (r: isize) {
        self.token_type
    }

    fn channel(&self) -> (r: isize) {
        self.channel
    }

    fn start(&self) -> (r: isize) {
        self.start
    }

    fn stop(&self) -> (r: isize) {
        self.stop
    }

    fn line(&self) -> (r: isize) {
        self.line
    }

    fn column(&self) -> (r: isize) {
        self.column
    }

    fn text(&self) -> (r: String) {
        if self.token_type == TOKEN_EOF {
            TEXT_EOF.to_owned()
        } else {
            self.text.clone()
        }
    }

    fn token_index(&self) -> (r: isize) {
        self.token_index
    }

    fn set_token_index(&mut self, idx: isize) {
        self.token_index = idx;
    }
}

} // verus!
