//! The wager record and its canonical byte encoding.
use vstd::prelude::*;

use crate::bytes::{le_bytes, lemma_le_bytes_injective, lemma_le_bytes_len, pow256, push_le_bytes};

verus! {

broadcast use vstd::array::group_array_axioms;

/// A placed, not yet resolved wager.
#[derive(Clone, Copy, Debug)]
pub struct Wager {
    /// The staking player's public key.
    pub player: [u8; 32],
    /// The player's nonce that tells concurrent wagers apart.
    pub seed: u128,
    /// The ledger slot at which the wager was placed.
    pub commit_marker: u64,
    /// The stake, in lamports.
    pub amount: u64,
    /// The player wins when the roll is strictly below this value.
    pub threshold: u8,
    /// The bump seed of the wager's derived address.
    pub bump: u8,
}

impl Wager {
    /// The canonical bytes that the house signs: player key, seed, stake,
    /// threshold and commit slot, integers little-endian.
    pub open spec fn message(self) -> Seq<u8> {
        self.player@ + le_bytes(self.seed as nat, 16) + le_bytes(self.amount as nat, 8) + seq![
            self.threshold,
        ] + le_bytes(self.commit_marker as nat, 8)
    }

    /// Whether this wager belongs to `player` under `seed`.
    pub open spec fn has_key(self, player: [u8; 32], seed: u128) -> bool {
        self.player == player && self.seed == seed
    }

    /// The canonical signed bytes of the wager.
    pub fn to_slice(&self) -> (r: Vec<u8>)
        ensures
            r@ == self.message(),
    {
        let mut out: Vec<u8> = Vec::new();
        let mut i: usize = 0;
        while i < 32
            invariant
                i <= 32,
                out@ == self.player@.subrange(0, i as int),
            decreases 32 - i,
        {
            out.push(self.player[i]);
            i = i + 1;
            proof {
                assert(out@ =~= self.player@.subrange(0, i as int));
            }
        }
        proof {
            assert(out@ =~= self.player@);
        }
        push_le_bytes(&mut out, self.seed, 16);
        push_le_bytes(&mut out, self.amount as u128, 8);
        out.push(self.threshold);
        push_le_bytes(&mut out, self.commit_marker as u128, 8);
        proof {
            assert(out@ =~= self.message());
        }
        out
    }
}

/// Two wagers whose canonical bytes agree have the same player and seed.
pub proof fn lemma_message_determines_key(a: Wager, b: Wager)
    requires
        a.message() == b.message(),
    ensures
        a.player == b.player,
        a.seed == b.seed,
{
    lemma_le_bytes_len(a.seed as nat, 16);
    lemma_le_bytes_len(b.seed as nat, 16);
    assert(a.player@ =~= a.message().subrange(0, 32));
    assert(b.player@ =~= b.message().subrange(0, 32));
    assert(le_bytes(a.seed as nat, 16) =~= a.message().subrange(32, 48));
    assert(le_bytes(b.seed as nat, 16) =~= b.message().subrange(32, 48));
    reveal_with_fuel(pow256, 17);
    lemma_le_bytes_injective(a.seed as nat, b.seed as nat, 16);
    assert(a.player =~= b.player);
}

} // verus!
