use vstd::prelude::*;
use crate::atn_config::ATNConfig;
use crate::murmur3::MurmurHash;

verus! {

/// `31 * h + x` over the hashes of `s`, first to last, from 1.
pub open spec fn config_hash_fold(s: Seq<ATNConfig>) -> u32
    decreases s.len(),
{
    if s.len() == 0 {
        1
    } else {
        config_hash_fold(s.drop_last()).wrapping_mul(31).wrapping_add(s.last().murmur_spec())
    }
}

/// A set of configurations. `full_ctx` tells a full-context (LL) set, in
/// which the empty context is the bottom of the stack, from an SLL one, in
/// which it stands for any stack.
#[derive(Debug)]
pub struct ATNConfigSet {
    pub configs: Vec<ATNConfig>,
    pub full_ctx: bool,
}

impl ATNConfigSet {
    pub fn new(full_ctx: bool) -> (r: Self)
        ensures
            r.configs@.len() == 0,
            r.full_ctx == full_ctx,
    {
        Self { configs: Vec::new(), full_ctx }
    }
}

impl MurmurHash for ATNConfigSet {
    open spec fn murmur_spec(&self) -> u32 {
        config_hash_fold(self.configs@)
    }

    fn murmur(&self) -> (r: u32) {
        let mut h: u32 = 1;
        let mut i: usize = 0;
        while i < self.configs.len()
            invariant
                i <= self.configs@.len(),
                h == config_hash_fold(self.configs@.take(i as int)),
            decreases self.configs.len() - i,
        {
            proof {
                assert(self.configs@.take(i + 1).drop_last() =~= self.configs@.take(i as int));
            }
            h = h.wrapping_mul(31).wrapping_add(self.configs[i].murmur());
            i += 1;
        }
        proof {
            assert(self.configs@.take(i as int) =~= self.configs@);
        }
        h
    }
}

} // verus!
