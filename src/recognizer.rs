use vstd::prelude::*;
use crate::errors::ANTLRError;

verus! {

/// What lexers and parsers share: the grammar's names, the current automaton
/// state and the last recognition error.
pub trait Recognizer {
    spec fn recognizer_state(&self) -> isize;

    spec fn recognizer_error(&self) -> Option<ANTLRError>;

    fn literal_names(&self) -> &[&'static str];

    fn symbolic_names(&self) -> &[&'static str];

    fn rule_names(&self) -> &[&'static str];

    fn state(&self) -> (r: isize)
        ensures
            r == self.recognizer_state(),
    ;

    fn set_state(&mut self, state: isize)
        ensures
            final(self).recognizer_state() == state,
            final(self).recognizer_error() == old(self).recognizer_error(),
    ;

    fn has_error(&self) -> (r: bool)
        ensures
            r == self.recognizer_error() is Some,
    ;

    fn error(&self) -> (r: Option<&ANTLRError>)
        ensures
            r is Some == self.recognizer_error() is Some,
            r is Some ==> *r->Some_0 == self.recognizer_error()->Some_0,
    ;

    fn set_error(&mut self, e: ANTLRError)
        ensures
            final(self).recognizer_error() == Some(e),
            final(self).recognizer_state() == old(self).recognizer_state(),
    ;
}

pub struct BaseRecognizer {
    state: isize,
    rule_names: &'static [&'static str],
    literal_names: &'static [&'static str],
    symbolic_names: &'static [&'static str],
    grammar_file_name: &'static str,
    syn_err: Option<ANTLRError>,
}

impl BaseRecognizer {
    /// A recognizer for the grammar with these names, in no state (-1) and
    /// with no error.
    pub fn new(
        rule_names: &'static [&'static str],
        literal_names: &'static [&'static str],
        symbolic_names: &'static [&'static str],
        grammar_file_name: &'static str,
    ) -> (r: Self)
        ensures
            r.recognizer_state() == -1,
            r.recognizer_error() is None,
    {
        Self { state: -1, rule_names, literal_names, symbolic_names, grammar_file_name, syn_err: None }
    }

    pub fn grammar_file_name(&self) -> &'static str {
        self.grammar_file_name
    }
}

impl Recognizer for BaseRecognizer {
    closed spec fn recognizer_state(&self) -> isize {
        self.state
    }

    closed spec fn recognizer_error(&self) -> Option<ANTLRError> {
        self.syn_err
    }

    fn literal_names(&self) -> &[&'static str] {
        self.literal_names
    }

    fn symbolic_names(&self) -> &[&'static str] {
        self.symbolic_names
    }

    fn rule_names(&self) -> &[&'static str] {
        self.rule_names
    }

    fn state(&self) -> (r: isize) {
        self.state
    }

    fn set_state(&mut self, state: isize) {
        self.state = state;
    }

    fn has_error(&self) -> (r: bool) {
        self.syn_err.is_some()
    }

    fn error(&self) -> (r: Option<&ANTLRError>) {
        self.syn_err.as_ref()
    }

    fn set_error(&mut self, e: ANTLRError) {
        self.syn_err = Some(e);
    }
}

} // verus!
