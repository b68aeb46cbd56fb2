use vstd::prelude::*;

verus! {

/// Switches of the deserializer.
#[derive(Debug, Clone, Copy)]
pub struct ATNDeserializeOption {
    pub read_only: bool,
    /// Run the structural verification pass after building.
    pub verify_atn: bool,
    /// Generate rule-bypass transitions (not available).
    pub gen_rule_bypass_transitions: bool,
}

impl Default for ATNDeserializeOption {
    fn default() -> (r: Self)
        ensures
            r.read_only,
            r.verify_atn,
            !r.gen_rule_bypass_transitions,
    {
        Self { read_only: true, verify_atn: true, gen_rule_bypass_transitions: false }
    }
}

} // verus!
