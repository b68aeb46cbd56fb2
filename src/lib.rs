use vstd::prelude::*;

pub mod antlr_error_listener;
pub mod atn;
pub mod atn_config;
pub mod atn_config_set;
pub mod atn_deserialize_option;
pub mod atn_deserializer;
pub mod atn_encoding;
pub mod atn_simulator;
pub mod atn_state;
pub mod atn_type;
pub mod char_stream;
pub mod code_point;
pub mod common_token_stream;
pub mod dfa;
pub mod dfa_state;
pub mod error_listener;
pub mod errors;
pub mod input_stream;
pub mod int_stream;
pub mod interval_set;
pub mod lexer;
pub mod lexer_action;
pub mod lexer_atn_simulator;
pub mod murmur3;
pub mod parser;
pub mod parser_atn_simulator;
pub mod prediction_context;
pub mod recognition_exception;
pub mod recognizer;
pub mod semantic_context;
pub mod token;
pub mod token_factory;
pub mod token_source;
pub mod token_stream;
pub mod transition;

verus! {

/// Position of an item (a state, a rule, a decision) in the table that owns it.
pub type Nth = usize;

} // verus!
