use std::sync::{Arc, RwLock};

use antlr4rs::atn::ATN;
use antlr4rs::atn_simulator::ATNSimulator;
use antlr4rs::atn_type::ATNType;
use antlr4rs::errors::ANTLRError;
use antlr4rs::input_stream::StringStream;
use antlr4rs::int_stream::IntStream;
use antlr4rs::lexer::{BaseLexer, Lexer, LEXER_DEFAULT_MODE};
use antlr4rs::lexer_atn_simulator::{BaseLexerATNSimulator, LexerATNSimulator, SimState};
use antlr4rs::prediction_context::PredictionContextCache;
use antlr4rs::recognizer::{BaseRecognizer, Recognizer};
use antlr4rs::token::{Token, TOKEN_EOF};
use antlr4rs::token_factory::CommonTokenFactory;

const RULE_NAMES: &'static [&'static str] = &["rule1", "rule2"];
const LITERAL_NAMES: &'static [&'static str] = &["literal1", "literal2"];
const SYMBOLIC_NAMES: &'static [&'static str] = &["symbolic1", "symbolic2"];

const GRAMMAR_FILE_NAME: &'static str = "grammar.g4";

fn simulator() -> BaseLexerATNSimulator {
    BaseLexerATNSimulator::new(
        Arc::new(ATN::new(ATNType::Lexer, 0)),
        Arc::new(RwLock::new(PredictionContextCache::new())),
        Arc::new(vec![]),
    )
}

#[test]
fn test_new_lexer() {
    let recognizer = BaseRecognizer::new(
        RULE_NAMES,
        LITERAL_NAMES,
        SYMBOLIC_NAMES,
        GRAMMAR_FILE_NAME,
    );
    let lexer = BaseLexer::new(
        recognizer,
        simulator(),
        CommonTokenFactory::new(),
        StringStream::new("this is char stream".to_string()),
    );
    assert_eq!(lexer.mode, LEXER_DEFAULT_MODE);
    assert!(lexer.token.is_none());
    assert_eq!(lexer.recognizer.rule_names(), RULE_NAMES);
    let mut lexer = lexer;
    lexer.set_state(5);
    assert_eq!(lexer.state(), 5);
    assert_eq!(lexer.rule_names(), RULE_NAMES);
    assert!(!lexer.has_error());
}

#[test]
fn lexer_emits_eof_and_tokens() {
    let recognizer = BaseRecognizer::new(RULE_NAMES, LITERAL_NAMES, SYMBOLIC_NAMES, GRAMMAR_FILE_NAME);
    let mut lexer = BaseLexer::new(
        recognizer,
        simulator(),
        CommonTokenFactory::new(),
        StringStream::new("ab\ncd".to_string()),
    );
    lexer.interpreter.consume(&mut lexer.input);
    lexer.interpreter.consume(&mut lexer.input);
    assert_eq!((lexer.interpreter.line(), lexer.interpreter.char_position_in_line()), (1, 2));
    lexer.interpreter.consume(&mut lexer.input);
    assert_eq!((lexer.interpreter.line(), lexer.interpreter.char_position_in_line()), (2, 0));
    assert_eq!(lexer.input.index(), 3);

    lexer.token_start_idx = 0;
    lexer.this_type = 4;
    let t = lexer.emit();
    assert_eq!(t.text(), "ab\n");
    assert_eq!((t.token_type(), t.start(), t.stop()), (4, 0, 2));

    lexer.emit_eof();
    let eof = lexer.token.as_ref().unwrap();
    assert_eq!(eof.token_type(), TOKEN_EOF);
    assert_eq!(eof.text(), "<EOF>");
    assert_eq!((eof.start(), eof.stop(), eof.line(), eof.column()), (3, 2, 2, 0));
    assert!(lexer.interpreter.decision_to_dfa().is_empty());
}

#[test]
fn recognizer_state_and_error() {
    let mut r = BaseRecognizer::new(RULE_NAMES, LITERAL_NAMES, SYMBOLIC_NAMES, GRAMMAR_FILE_NAME);
    assert_eq!(r.state(), -1);
    assert!(!r.has_error());
    r.set_state(12);
    r.set_error(ANTLRError::LexerNoAltErr { start_index: 3 });
    assert_eq!(r.state(), 12);
    assert!(r.has_error());
    assert!(matches!(r.error(), Some(ANTLRError::LexerNoAltErr { start_index: 3 })));
    assert_eq!(r.symbolic_names(), SYMBOLIC_NAMES);
    assert_eq!(r.literal_names(), LITERAL_NAMES);
    assert_eq!(r.grammar_file_name(), GRAMMAR_FILE_NAME);
}

#[test]
fn sim_state_reset_keeps_position() {
    let mut s = SimState::new();
    assert_eq!((s.index, s.line, s.column), (-1, 0, 0));
    s.dfa_state = Some(4);
    s.index = 7;
    s.reset();
    assert!(s.dfa_state.is_none());
    assert_eq!(s.index, 7);
    let mut sim = simulator();
    sim.mode = 3;
    sim.reset();
    assert_eq!(sim.mode, LEXER_DEFAULT_MODE);
}
