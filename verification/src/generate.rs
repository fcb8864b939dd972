//! Deterministic pseudo-random password text.
//!
//! Characters are drawn from a fixed 73-character alphabet by a seeded
//! linear-congruential recurrence over `u64`: the seed becomes
//! `seed + seed * 1103515245 + 12345` wrapped to 64 bits and reduced modulo
//! the alphabet size, and each step's seed picks the next character. The
//! same seed always yields the same text, so the generator is not
//! cryptographically secure; the hosting layer seeds it with the current
//! time.

use vstd::prelude::*;
use vstd::string::StrSliceExecFns;

verus! {

/// The fixed 73-character alphabet: uppercase and lowercase letters, digits,
/// and a handful of special characters.
pub open spec fn alphabet() -> Seq<char> {
    "ABCDEFGHIJKLMNOPQRSTUVWXYZabcdefghijklmnopqrstuvwxyz0123456789)(*&^%$#@!~"@
}

/// The alphabet has exactly 73 characters.
pub proof fn lemma_alphabet_len()
    ensures
        alphabet().len() == 73,
{
    reveal_strlit("ABCDEFGHIJKLMNOPQRSTUVWXYZabcdefghijklmnopqrstuvwxyz0123456789)(*&^%$#@!~");
}

/// One step of the recurrence: wrap `seed + seed * 1103515245 + 12345` to 64
/// bits, then reduce modulo the alphabet size.
pub open spec fn next_seed(seed: u64) -> u64 {
    seed.wrapping_add(seed.wrapping_mul(1103515245).wrapping_add(12345)) % 73
}

/// The seed after `i` steps of the recurrence from `seed0`.
pub open spec fn seed_at(seed0: u64, i: nat) -> u64
    decreases i,
{
    if i == 0 {
        seed0
    } else {
        next_seed(seed_at(seed0, (i - 1) as nat))
    }
}

/// The text of `len` characters the recurrence yields from `seed0`: the
/// character at position `i` is the alphabet entry the seed after `i + 1`
/// steps selects.
pub open spec fn generated_value(seed0: u64, len: nat) -> Seq<char> {
    Seq::new(len, |i: int| alphabet()[(seed_at(seed0, (i + 1) as nat) % 73) as int])
}

/// Relies on String::push: appends the given character to the end of the
/// string.
#[verifier::external_body]
fn push_char(s: &mut String, c: char)
    ensures
        final(s)@ == old(s)@.push(c),
{
    s.push(c)
}

/// Builds the text of `length` characters that the recurrence yields from
/// `seed0`. Every character comes from the fixed alphabet; a length of 0
/// yields the empty text.
pub fn generate_value(seed0: u64, length: u64) -> (r: String)
    ensures
        r@ == generated_value(seed0, length as nat),
        r@.len() == length,
        forall|i: int| 0 <= i < length ==> alphabet().contains(#[trigger] r@[i]),
{
    let cs = "ABCDEFGHIJKLMNOPQRSTUVWXYZabcdefghijklmnopqrstuvwxyz0123456789)(*&^%$#@!~";
    proof {
        reveal_strlit("ABCDEFGHIJKLMNOPQRSTUVWXYZabcdefghijklmnopqrstuvwxyz0123456789)(*&^%$#@!~");
        assert(cs@ == alphabet());
        assert(cs@.len() == 73);
    }
    let mut out = String::new();
    let mut seed = seed0;
    let mut k: u64 = 0;
    while k < length
        invariant
            cs@ == alphabet(),
            cs@.len() == 73,
            k <= length,
            seed == seed_at(seed0, k as nat),
            out@ == generated_value(seed0, k as nat),
        decreases length - k,
    {
        seed = seed.wrapping_add(seed.wrapping_mul(1103515245).wrapping_add(12345)) % 73;
        proof {
            assert(seed == seed_at(seed0, (k + 1) as nat));
        }
        let idx = seed % 73;
        let c = cs.get_char(idx as usize);
        push_char(&mut out, c);
        k = k + 1;
        proof {
            assert(out@ =~= generated_value(seed0, k as nat));
        }
    }
    proof {
        assert forall|i: int| 0 <= i < length implies alphabet().contains(#[trigger] out@[i]) by {
            let j = seed_at(seed0, (i + 1) as nat) % 73;
            assert(out@[i] == alphabet()[j as int]);
            assert(0 <= j < alphabet().len());
        }
    }
    out
}

} // verus!
