use vstd::prelude::*;

verus! {

/// A 32-bit MurmurHash3 of a value's structure.
pub trait MurmurHash {
    spec fn murmur_spec(&self) -> u32;

    fn murmur(&self) -> (r: u32)
        ensures
            r == self.murmur_spec(),
    ;
}

pub open spec fn rotl32(x: u32, r: u32) -> u32 {
    x.wrapping_shl(r) | x.wrapping_shr((32 - r) as u32)
}

/// One mixing round of MurmurHash3 over the word `v`.
pub open spec fn murmur_update_spec(h: u32, v: u32) -> u32 {
    let k = rotl32(v.wrapping_mul(0xcc9e2d51u32), 15).wrapping_mul(0x1b873593u32);
    rotl32(h ^ k, 13).wrapping_mul(5).wrapping_add(0xe6546b64u32)
}

/// The final avalanche of MurmurHash3 after `num` words.
pub open spec fn murmur_finish_spec(h: u32, num: u32) -> u32 {
    let h1 = h ^ num.wrapping_shl(2);
    let h2 = h1 ^ h1.wrapping_shr(16);
    let h3 = h2.wrapping_mul(0x85ebca6bu32);
    let h4 = h3 ^ h3.wrapping_shr(13);
    let h5 = h4.wrapping_mul(0xc2b2ae35u32);
    h5 ^ h5.wrapping_shr(16)
}

/// Mixes the words of `s` into `h`, first to last.
pub open spec fn murmur_fold(h: u32, s: Seq<u32>) -> u32
    decreases s.len(),
{
    if s.len() == 0 {
        h
    } else {
        murmur_update_spec(murmur_fold(h, s.drop_last()), s.last())
    }
}

pub fn murmur_init(seed: u32) -> (r: u32)
    ensures
        r == seed,
{
    seed
}

pub fn murmur_update(h: u32, v: u32) -> (r: u32)
    ensures
        r == murmur_update_spec(h, v),
{
    let c1: u32 = 0xcc9e2d51;
    let c2: u32 = 0x1b873593;
    let r1: u32 = 15;
    let r2: u32 = 13;
    let m: u32 = 5;
    let n: u32 = 0xe6546b64;

    let mut k = v;
    k = k.wrapping_mul(c1);
    k = k.wrapping_shl(r1) | k.wrapping_shr(32 - r1);
    k = k.wrapping_mul(c2);

    let mut hash = h ^ k;
    hash = hash.wrapping_shl(r2) | hash.wrapping_shr(32 - r2);
    hash = hash.wrapping_mul(m).wrapping_add(n);
    hash
}

pub fn murmur_finish(h: u32, num: u32) -> (r: u32)
    ensures
        r == murmur_finish_spec(h, num),
{
    let mut hash = h;
    hash = hash ^ num.wrapping_shl(2);
    hash = hash ^ hash.wrapping_shr(16);
    hash = hash.wrapping_mul(0x85ebca6b);
    hash = hash ^ hash.wrapping_shr(13);
    hash = hash.wrapping_mul(0xc2b2ae35);
    hash = hash ^ hash.wrapping_shr(16);
    hash
}

} // verus!
