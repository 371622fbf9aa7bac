//! Outcome derivation: a verified signature is hashed into a roll in
//! `1..=100`, and the roll decides the wager.
use vstd::prelude::*;

use crate::bytes::{be_value, read_u128_be};

verus! {

/// The SHA-256 digest of `data`.
pub uninterp spec fn sha256_digest(data: Seq<u8>) -> Seq<u8>;

/// Relies on `solana_program::hash::hash`: the 32-byte SHA-256 digest of
/// `data`, which depends on the bytes alone.
#[verifier::external_body]
fn sha256(data: &[u8]) -> (r: [u8; 32])
    ensures
        r@ == sha256_digest(data@),
{
    solana_program::hash::hash(data).to_bytes()
}

/// `2^128`, the modulus of `u128` arithmetic.
pub open spec fn u128_modulus() -> int {
    u128::MAX + 1
}

/// The roll that a 32-byte digest gives: its two big-endian halves are added
/// modulo `2^128`, reduced modulo 100, and shifted into `1..=100`.
pub open spec fn outcome_of_digest(d: Seq<u8>) -> int {
    let lower: int = be_value(d.subrange(0, 16)) as int;
    let upper: int = be_value(d.subrange(16, 32)) as int;
    ((lower + upper) % u128_modulus()) % 100 + 1
}

/// The roll that the signature bytes `sig` give.
pub open spec fn roll_of(sig: Seq<u8>) -> int {
    outcome_of_digest(sha256_digest(sig))
}

/// The player wins exactly when the threshold is strictly above the roll.
pub open spec fn is_win(threshold: int, outcome: int) -> bool {
    threshold > outcome
}

/// The roll encoded by a 32-byte digest.
pub fn outcome_from_digest(digest: &[u8; 32]) -> (r: u8)
    ensures
        r == outcome_of_digest(digest@),
        1 <= r <= 100,
{
    let bytes: &[u8] = digest.as_slice();
    let lower = read_u128_be(bytes, 0);
    let upper = read_u128_be(bytes, 16);
    let sum = lower.wrapping_add(upper);
    proof {
        let total: int = lower + upper;
        let m: int = u128_modulus();
        if total >= m {
            vstd::arithmetic::div_mod::lemma_fundamental_div_mod_converse(total, m, 1, total - m);
        } else {
            vstd::arithmetic::div_mod::lemma_fundamental_div_mod_converse(total, m, 0, total);
        }
    }
    (sum % 100) as u8 + 1
}

/// Hashes the signature bytes and derives the roll from the digest.
pub fn derive_outcome(sig: &[u8]) -> (r: u8)
    ensures
        r == roll_of(sig@),
        1 <= r <= 100,
{
    let digest = sha256(sig);
    outcome_from_digest(&digest)
}

/// Decides a wager: a win when `threshold` is strictly above `outcome`.
pub fn wins(threshold: u8, outcome: u8) -> (r: bool)
    ensures
        r == is_win(threshold as int, outcome as int),
{
    threshold > outcome
}

/// The roll is a function of the signature bytes alone, and always lies in
/// `1..=100`.
pub proof fn lemma_outcome_deterministic(a: Seq<u8>, b: Seq<u8>)
    requires
        a == b,
    ensures
        roll_of(a) == roll_of(b),
        1 <= roll_of(a) <= 100,
{
}

/// A threshold equal to the roll loses; one just above it wins.
pub proof fn lemma_win_boundary(outcome: int)
    ensures
        !is_win(outcome, outcome),
        is_win(outcome + 1, outcome),
{
}

} // verus!
