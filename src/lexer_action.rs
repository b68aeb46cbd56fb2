use vstd::prelude::*;

verus! {

pub type LexerActionType = i32;

pub const LEXER_ACTION_CHANNEL: LexerActionType = 0;

pub const LEXER_ACTION_CUSTOM: LexerActionType = 1;

pub const LEXER_ACTION_MODE: LexerActionType = 2;

pub const LEXER_ACTION_MORE: LexerActionType = 3;

pub const LEXER_ACTION_POP_MODE: LexerActionType = 4;

pub const LEXER_ACTION_PUSH_MODE: LexerActionType = 5;

pub const LEXER_ACTION_SKIP: LexerActionType = 6;

pub const LEXER_ACTION_TYPE: LexerActionType = 7;

/// Whether `t` is the tag of a lexer action kind.
pub open spec fn valid_lexer_action_type(t: LexerActionType) -> bool {
    LEXER_ACTION_CHANNEL <= t <= LEXER_ACTION_TYPE
}

/// An action that a lexer rule runs when it matches.
#[derive(Debug)]
pub enum LexerAction {
    Channel(ChannelLexerAction),
    Custom(CustomLexerAction),
    Mode(ModeLexerAction),
    More(MoreLexerAction),
    PopMode(PopModeLexerAction),
    PushMode(PushModeLexerAction),
    Skip(SkipLexerAction),
    Type(TypeLexerAction),
    IndexedCustom(IndexedCustomLexerAction),
}

impl LexerAction {
    /// The kind tag that matches the variant.
    pub open spec fn kind(&self) -> LexerActionType {
        match self {
            LexerAction::Channel(a) => a.base.action_type,
            LexerAction::Custom(a) => a.base.action_type,
            LexerAction::Mode(a) => a.base.action_type,
            LexerAction::More(a) => a.action_type,
            LexerAction::PopMode(a) => a.action_type,
            LexerAction::PushMode(a) => a.base.action_type,
            LexerAction::Skip(a) => a.action_type,
            LexerAction::Type(a) => a.base.action_type,
            LexerAction::IndexedCustom(a) => a.base.action_type,
        }
    }

    /// The action is the one that the record `(action_type, data1, data2)`
    /// describes.
    pub open spec fn built_from(&self, action_type: LexerActionType, data1: isize, data2: isize) -> bool {
        &&& self.kind() == action_type
        &&& action_type == LEXER_ACTION_CHANNEL ==> self is Channel && self->Channel_0.channel
            == data1
        &&& action_type == LEXER_ACTION_CUSTOM ==> self is Custom && self->Custom_0.rule_idx
            == data1
            && self->Custom_0.action_idx == data2
        &&& action_type == LEXER_ACTION_MODE ==> self is Mode && self->Mode_0.mode == data1
        &&& action_type == LEXER_ACTION_MORE ==> self is More
        &&& action_type == LEXER_ACTION_POP_MODE ==> self is PopMode
        &&& action_type == LEXER_ACTION_PUSH_MODE ==> self is PushMode && self->PushMode_0.mode
            == data1
        &&& action_type == LEXER_ACTION_SKIP ==> self is Skip
        &&& action_type == LEXER_ACTION_TYPE ==> self is Type && self->Type_0.the_type == data1
    }

    /// Builds the action that a record `(action_type, data1, data2)` describes.
    pub fn new(action_type: LexerActionType, data1: isize, data2: isize) -> (r: Self)
        requires
            valid_lexer_action_type(action_type),
        ensures
            r.built_from(action_type, data1, data2),
            r.kind() == action_type,
            action_type == LEXER_ACTION_CHANNEL ==> r is Channel && r->Channel_0.channel == data1,
            action_type == LEXER_ACTION_CUSTOM ==> r is Custom && r->Custom_0.rule_idx == data1
                && r->Custom_0.action_idx == data2,
            action_type == LEXER_ACTION_MODE ==> r is Mode && r->Mode_0.mode == data1,
            action_type == LEXER_ACTION_MORE ==> r is More,
            action_type == LEXER_ACTION_POP_MODE ==> r is PopMode,
            action_type == LEXER_ACTION_PUSH_MODE ==> r is PushMode && r->PushMode_0.mode == data1,
            action_type == LEXER_ACTION_SKIP ==> r is Skip,
            action_type == LEXER_ACTION_TYPE ==> r is Type && r->Type_0.the_type == data1,
    {
        match action_type {
            LEXER_ACTION_CHANNEL => LexerAction::Channel(
                ChannelLexerAction { base: BaseLexerAction::new(LEXER_ACTION_CHANNEL), channel: data1 },
            ),
            LEXER_ACTION_CUSTOM => LexerAction::Custom(
                CustomLexerAction {
                    base: BaseLexerAction::new(LEXER_ACTION_CUSTOM),
                    rule_idx: data1,
                    action_idx: data2,
                },
            ),
            LEXER_ACTION_MODE => LexerAction::Mode(
                ModeLexerAction { base: BaseLexerAction::new(LEXER_ACTION_MODE), mode: data1 },
            ),
            LEXER_ACTION_MORE => LexerAction::More(MoreLexerAction::new(LEXER_ACTION_MORE)),
            LEXER_ACTION_POP_MODE => LexerAction::PopMode(
                PopModeLexerAction::new(LEXER_ACTION_POP_MODE),
            ),
            LEXER_ACTION_PUSH_MODE => LexerAction::PushMode(
                PushModeLexerAction { base: BaseLexerAction::new(LEXER_ACTION_PUSH_MODE), mode: data1 },
            ),
            LEXER_ACTION_SKIP => LexerAction::Skip(SkipLexerAction::new(LEXER_ACTION_SKIP)),
            _ => LexerAction::Type(
                TypeLexerAction { base: BaseLexerAction::new(LEXER_ACTION_TYPE), the_type: data1 },
            ),
        }
    }
}

#[derive(Debug)]
pub struct BaseLexerAction {
    pub action_type: LexerActionType,
}

impl BaseLexerAction {
    pub fn new(action_type: LexerActionType) -> (r: Self)
        ensures
            r.action_type == action_type,
    {
        Self { action_type }
    }
}

/// Sends the token to channel `channel`.
#[derive(Debug)]
pub struct ChannelLexerAction {
    pub base: BaseLexerAction,
    pub channel: isize,
}

/// Runs the grammar's own action `action_idx` of rule `rule_idx`.
#[derive(Debug)]
pub struct CustomLexerAction {
    pub base: BaseLexerAction,
    pub rule_idx: isize,
    pub action_idx: isize,
}

/// Switches to mode `mode`.
#[derive(Debug)]
pub struct ModeLexerAction {
    pub base: BaseLexerAction,
    pub mode: isize,
}

pub type MoreLexerAction = BaseLexerAction;

pub type PopModeLexerAction = BaseLexerAction;

/// Pushes mode `mode` on the mode stack.
#[derive(Debug)]
pub struct PushModeLexerAction {
    pub base: BaseLexerAction,
    pub mode: isize,
}

pub type SkipLexerAction = BaseLexerAction;

/// Sets the token's type to `the_type`.
#[derive(Debug)]
pub struct TypeLexerAction {
    pub base: BaseLexerAction,
    pub the_type: isize,
}

/// A custom action that runs at `offset` within the token rather than at its
/// end; `lexer_action_nth` is the action in the automaton's table.
#[derive(Debug)]
pub struct IndexedCustomLexerAction {
    pub base: BaseLexerAction,
    pub offset: isize,
    pub lexer_action_nth: usize,
    pub contrast_set: bool,
}

impl IndexedCustomLexerAction {
    pub fn new(offset: isize, la_type: LexerActionType, la_nth: usize) -> (r: Self)
        ensures
            r.base.action_type == la_type,
            r.offset == offset,
            r.lexer_action_nth == la_nth,
            r.contrast_set,
    {
        Self { base: BaseLexerAction::new(la_type), offset, lexer_action_nth: la_nth, contrast_set: true }
    }
}

} // verus!
