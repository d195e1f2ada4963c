//! The cache key: a 64-bit fingerprint derived deterministically from the
//! normalized source URL string (FNV-1a over the characters). Collisions are
//! accepted as the cache's only consistency risk and are not guarded against.

use vstd::prelude::*;

verus! {

pub const FNV_OFFSET: u64 = 0xcbf2_9ce4_8422_2325;

pub const FNV_PRIME: u64 = 0x0000_0100_0000_01b3;

/// One FNV-1a step: fold one character into the accumulator.
pub open spec fn fingerprint_step(acc: u64, c: char) -> u64 {
    (acc ^ (c as u64)).wrapping_mul(FNV_PRIME)
}

/// The fingerprint of the first `n` characters of `s`.
pub open spec fn fingerprint_prefix(s: Seq<char>, n: int) -> u64
    decreases n,
{
    if n <= 0 {
        FNV_OFFSET
    } else {
        fingerprint_step(fingerprint_prefix(s, n - 1), s[n - 1])
    }
}

/// The 64-bit fingerprint of a URL string: the cache key it resolves to.
pub open spec fn fingerprint_of(s: Seq<char>) -> u64 {
    fingerprint_prefix(s, s.len() as int)
}

/// Computes the cache key for a (already percent-decoded) source URL.
pub fn cache_key_of(url: &str) -> (k: u64)
    ensures
        k == fingerprint_of(url@),
{
    let n = url.unicode_len();
    let mut acc: u64 = FNV_OFFSET;
    let mut i: usize = 0;
    while i < n
        invariant
            n == url@.len(),
            0 <= i <= n,
            acc == fingerprint_prefix(url@, i as int),
        decreases n - i,
    {
        let c = url.get_char(i);
        acc = (acc ^ (c as u64)).wrapping_mul(FNV_PRIME);
        i = i + 1;
    }
    acc
}

} // verus!
