//! The settlement coordinator: a house's custody balance and its pending
//! wagers, with the place and resolve operations as all-or-nothing steps.
use vstd::prelude::*;

use crate::attest::{attests, verify_ed25519_signature, VerifyInstruction};
use crate::bytes::bytes_equal;
use crate::errors::DiceError;
use crate::outcome::{derive_outcome, is_win, roll_of, wins};
use crate::payout::{payout_for, payout_result, HOUSE_EDGE_BPS};
use crate::wager::{lemma_message_determines_key, Wager};

verus! {

broadcast use vstd::array::group_array_axioms;

/// What a successful resolution decided.
#[derive(Clone, Copy, Debug, PartialEq, Eq, Structural)]
pub struct Settlement {
    /// The roll drawn from the signature, in `1..=100`.
    pub outcome: u8,
    /// Whether the player won.
    pub won: bool,
    /// The lamports paid from custody to the player; zero on a loss.
    pub payout: u64,
}

/// No two wagers of `s` share a player and seed.
pub open spec fn unique_keys(s: Seq<Wager>) -> bool {
    forall|i: int, j: int|
        0 <= i < s.len() && 0 <= j < s.len() && i != j ==> !s[i].has_key(s[j].player, s[j].seed)
}

/// The abstract state of a table: the house's key, the custody balance and
/// the pending wagers.
pub struct TableState {
    pub house: [u8; 32],
    pub vault: u64,
    pub wagers: Seq<Wager>,
}

impl TableState {
    /// No two pending wagers share a player and seed.
    pub open spec fn wf(self) -> bool {
        unique_keys(self.wagers)
    }

    /// A wager of `player` under `seed` is pending.
    pub open spec fn contains(self, player: [u8; 32], seed: u128) -> bool {
        exists|i: int| 0 <= i < self.wagers.len() && self.wagers[i].has_key(player, seed)
    }

    /// The position of the pending wager of `player` under `seed`.
    pub open spec fn index_of(self, player: [u8; 32], seed: u128) -> int {
        choose|i: int| 0 <= i < self.wagers.len() && self.wagers[i].has_key(player, seed)
    }

    /// The pending wager of `player` under `seed`.
    pub open spec fn wager(self, player: [u8; 32], seed: u128) -> Wager {
        self.wagers[self.index_of(player, seed)]
    }

    /// Placing a wager: the stake moves from the player into custody and the
    /// record is added, or nothing changes and an error says why.
    pub open spec fn place(
        self,
        player: [u8; 32],
        available: u64,
        seed: u128,
        threshold: u8,
        amount: u64,
        slot: u64,
        bump: u8,
    ) -> (TableState, Result<(), DiceError>) {
        if amount == 0 {
            (self, Err(DiceError::InvalidAmount))
        } else if threshold < 2 || threshold > 100 {
            (self, Err(DiceError::InvalidThreshold))
        } else if available < amount {
            (self, Err(DiceError::InsufficientFunds))
        } else if self.contains(player, seed) {
            (self, Err(DiceError::DuplicateWager))
        } else if self.vault + amount > u64::MAX {
            (self, Err(DiceError::ArithmeticError))
        } else {
            let w = Wager { player, seed, commit_marker: slot, amount, threshold, bump };
            (
                TableState { house: self.house, vault: (self.vault + amount) as u64, wagers: self.wagers.push(w) },
                Ok(()),
            )
        }
    }

    /// Resolving a wager: the signature instruction is checked against the
    /// record's canonical bytes, the roll is drawn from the signature, a win
    /// is paid from custody, and the record is removed; or nothing changes
    /// and an error says why.
    pub open spec fn resolve(
        self,
        player: [u8; 32],
        seed: u128,
        ix: VerifyInstruction,
        sig: Seq<u8>,
    ) -> (TableState, Result<Settlement, DiceError>) {
        if !self.contains(player, seed) {
            (self, Err(DiceError::WagerNotFound))
        } else {
            let w = self.wager(player, seed);
            let rest = self.wagers.remove(self.index_of(player, seed));
            let outcome = roll_of(sig);
            if !attests(ix, self.house@, w.message(), sig) {
                (self, Err(DiceError::SignatureVerificationError))
            } else if !is_win(w.threshold as int, outcome) {
                (
                    TableState { house: self.house, vault: self.vault, wagers: rest },
                    Ok(Settlement { outcome: outcome as u8, won: false, payout: 0 }),
                )
            } else {
                match payout_result(w.amount, w.threshold, HOUSE_EDGE_BPS) {
                    Err(e) => (self, Err(e)),
                    Ok(p) => if p > self.vault {
                        (self, Err(DiceError::InsufficientFunds))
                    } else {
                        (
                            TableState { house: self.house, vault: (self.vault - p) as u64, wagers: rest },
                            Ok(Settlement { outcome: outcome as u8, won: true, payout: p }),
                        )
                    },
                }
            }
        }
    }
}

/// One house's custody cell and its pending wagers.
pub struct DiceTable {
    house: [u8; 32],
    vault_balance: u64,
    wagers: Vec<Wager>,
}

impl View for DiceTable {
    type V = TableState;

    closed spec fn view(&self) -> TableState {
        TableState { house: self.house, vault: self.vault_balance, wagers: self.wagers@ }
    }
}

impl DiceTable {
    /// A table for `house` whose custody cell holds `vault_balance`, with no
    /// pending wager.
    pub fn new(house: [u8; 32], vault_balance: u64) -> (r: DiceTable)
        ensures
            r@.wf(),
            r@.house == house,
            r@.vault == vault_balance,
            r@.wagers.len() == 0,
    {
        DiceTable { house, vault_balance, wagers: Vec::new() }
    }

    /// The house's public key.
    pub fn house(&self) -> (r: [u8; 32])
        ensures
            r == self@.house,
    {
        self.house
    }

    /// The custody balance.
    pub fn vault_balance(&self) -> (r: u64)
        ensures
            r == self@.vault,
    {
        self.vault_balance
    }

    /// How many wagers are pending.
    pub fn pending_count(&self) -> (r: usize)
        ensures
            r == self@.wagers.len(),
    {
        self.wagers.len()
    }

    fn position(&self, player: &[u8; 32], seed: u128) -> (r: Option<usize>)
        requires
            self@.wf(),
        ensures
            r matches Some(i) ==> i < self@.wagers.len() && self@.wagers[i as int].has_key(*player, seed)
                && i == self@.index_of(*player, seed),
            r is None ==> !self@.contains(*player, seed),
    {
        let mut i: usize = 0;
        while i < self.wagers.len()
            invariant
                i <= self.wagers@.len(),
                forall|j: int| 0 <= j < i ==> !self.wagers@[j].has_key(*player, seed),
                self@.wf(),
            decreases self.wagers@.len() - i,
        {
            let w = &self.wagers[i];
            if w.seed == seed && bytes_equal(w.player.as_slice(), player.as_slice()) {
                proof {
                    assert(w.player =~= *player);
                    assert(self@.wagers[i as int].has_key(*player, seed));
                }
                return Some(i);
            }
            i = i + 1;
        }
        None
    }

    /// The pending wager of `player` under `seed`, if any.
    pub fn find_wager(&self, player: &[u8; 32], seed: u128) -> (r: Option<Wager>)
        requires
            self@.wf(),
        ensures
            r == (if self@.contains(*player, seed) {
                Some(self@.wager(*player, seed))
            } else {
                None::<Wager>
            }),
    {
        match self.position(player, seed) {
            Some(i) => Some(self.wagers[i]),
            None => None,
        }
    }

    /// Places a wager of `amount` lamports at `threshold` for `player`, who
    /// holds `available` lamports, at ledger slot `slot`.
    pub fn place_bet(
        &mut self,
        player: [u8; 32],
        available: u64,
        seed: u128,
        threshold: u8,
        amount: u64,
        slot: u64,
        bump: u8,
    ) -> (r: Result<(), DiceError>)
        requires
            old(self)@.wf(),
        ensures
            final(self)@.wf(),
            (final(self)@, r) == old(self)@.place(player, available, seed, threshold, amount, slot, bump),
    {
        if amount == 0 {
            return Err(DiceError::InvalidAmount);
        }
        if threshold < 2 || threshold > 100 {
            return Err(DiceError::InvalidThreshold);
        }
        if available < amount {
            return Err(DiceError::InsufficientFunds);
        }
        if self.position(&player, seed).is_some() {
            return Err(DiceError::DuplicateWager);
        }
        let balance = match self.vault_balance.checked_add(amount) {
            Some(b) => b,
            None => return Err(DiceError::ArithmeticError),
        };
        let w = Wager { player, seed, commit_marker: slot, amount, threshold, bump };
        proof {
            assert forall|i: int|
                0 <= i < self.wagers@.len() implies !self.wagers@[i].has_key(player, seed) by {
                if self.wagers@[i].has_key(player, seed) {
                    assert(self@.contains(player, seed));
                }
            }
        }
        self.vault_balance = balance;
        self.wagers.push(w);
        Ok(())
    }

    /// Resolves the wager of `player` under `seed` with the signature bytes
    /// `sig`, which `ix`, the preceding Ed25519 instruction, must attest.
    pub fn resolve_bet(
        &mut self,
        player: [u8; 32],
        seed: u128,
        ix: &VerifyInstruction,
        sig: &[u8],
    ) -> (r: Result<Settlement, DiceError>)
        requires
            old(self)@.wf(),
        ensures
            final(self)@.wf(),
            (final(self)@, r) == old(self)@.resolve(player, seed, *ix, sig@),
    {
        let i = match self.position(&player, seed) {
            Some(i) => i,
            None => return Err(DiceError::WagerNotFound),
        };
        let w = self.wagers[i];
        let message = w.to_slice();
        match verify_ed25519_signature(ix, &self.house, message.as_slice(), sig) {
            Ok(()) => {},
            Err(e) => return Err(e),
        }
        let outcome = derive_outcome(sig);
        let mut payout: u64 = 0;
        let won = wins(w.threshold, outcome);
        if won {
            payout = match payout_for(w.amount, w.threshold) {
                Ok(p) => p,
                Err(e) => return Err(e),
            };
            if payout > self.vault_balance {
                return Err(DiceError::InsufficientFunds);
            }
        }
        proof {
            lemma_removal_keeps_wf(self@.wagers, i as int);
        }
        self.vault_balance = self.vault_balance - payout;
        self.wagers.remove(i);
        Ok(Settlement { outcome, won, payout })
    }
}

proof fn lemma_removal_keeps_wf(s: Seq<Wager>, k: int)
    requires
        0 <= k < s.len(),
        unique_keys(s),
    ensures
        unique_keys(s.remove(k)),
        forall|j: int|
            0 <= j < s.remove(k).len() ==> !s.remove(k)[j].has_key(s[k].player, s[k].seed),
{
    let r = s.remove(k);
    assert forall|i: int, j: int|
        0 <= i < r.len() && 0 <= j < r.len() && i != j implies !r[i].has_key(r[j].player, r[j].seed) by {
        let a = if i < k { i } else { i + 1 };
        let b = if j < k { j } else { j + 1 };
        assert(r[i] == s[a] && r[j] == s[b]);
        assert(a != b);
        assert(!s[a].has_key(s[b].player, s[b].seed));
    }
    assert forall|j: int| 0 <= j < r.len() implies !r[j].has_key(s[k].player, s[k].seed) by {
        let b = if j < k { j } else { j + 1 };
        assert(r[j] == s[b]);
        assert(b != k);
        assert(!s[b].has_key(s[k].player, s[k].seed));
    }
}



proof fn lemma_index_of_matches(s: TableState, player: [u8; 32], seed: u128)
    requires
        s.contains(player, seed),
    ensures
        0 <= s.index_of(player, seed) < s.wagers.len(),
        s.wagers[s.index_of(player, seed)].has_key(player, seed),
        s.wager(player, seed).player == player,
        s.wager(player, seed).seed == seed,
{
}

/// A place or resolve attempt that fails leaves the table exactly as it
/// was: no balance moves and every pending wager stays pending.
pub proof fn lemma_failed_operations_change_nothing(
    s: TableState,
    player: [u8; 32],
    available: u64,
    seed: u128,
    threshold: u8,
    amount: u64,
    slot: u64,
    bump: u8,
    ix: VerifyInstruction,
    sig: Seq<u8>,
)
    requires
        s.wf(),
    ensures
        s.place(player, available, seed, threshold, amount, slot, bump).1 is Err ==> s.place(
            player,
            available,
            seed,
            threshold,
            amount,
            slot,
            bump,
        ).0 == s,
        s.resolve(player, seed, ix, sig).1 is Err ==> s.resolve(player, seed, ix, sig).0 == s,
{
}

/// A resolution whose instruction does not attest the pending wager's own
/// canonical bytes under the given signature aborts: the table is unchanged
/// and the wager is still pending.
pub proof fn lemma_unattested_resolution_aborts(
    s: TableState,
    player: [u8; 32],
    seed: u128,
    ix: VerifyInstruction,
    sig: Seq<u8>,
)
    requires
        s.wf(),
        s.contains(player, seed),
        !attests(ix, s.house@, s.wager(player, seed).message(), sig),
    ensures
        s.resolve(player, seed, ix, sig) == (s, Err::<Settlement, DiceError>(
            DiceError::SignatureVerificationError,
        )),
        s.resolve(player, seed, ix, sig).0.contains(player, seed),
{
}

/// Once an instruction attests a wager under the signature `sig`, resolving
/// with any other signature bytes (a single flipped bit, say) aborts and
/// changes nothing.
pub proof fn lemma_tampered_signature_aborts(
    s: TableState,
    player: [u8; 32],
    seed: u128,
    ix: VerifyInstruction,
    sig: Seq<u8>,
    tampered: Seq<u8>,
)
    requires
        s.wf(),
        s.contains(player, seed),
        attests(ix, s.house@, s.wager(player, seed).message(), sig),
        tampered != sig,
    ensures
        s.resolve(player, seed, ix, tampered) == (s, Err::<Settlement, DiceError>(
            DiceError::SignatureVerificationError,
        )),
{
}

/// An instruction that attests another pending wager's bytes cannot resolve
/// this one: the attempt aborts and changes nothing.
pub proof fn lemma_substituted_message_aborts(
    s: TableState,
    player: [u8; 32],
    seed: u128,
    other_player: [u8; 32],
    other_seed: u128,
    ix: VerifyInstruction,
    sig: Seq<u8>,
)
    requires
        s.wf(),
        s.contains(player, seed),
        s.contains(other_player, other_seed),
        player != other_player || seed != other_seed,
        attests(ix, s.house@, s.wager(other_player, other_seed).message(), sig),
    ensures
        s.resolve(player, seed, ix, sig) == (s, Err::<Settlement, DiceError>(
            DiceError::SignatureVerificationError,
        )),
{
    lemma_index_of_matches(s, player, seed);
    lemma_index_of_matches(s, other_player, other_seed);
    if attests(ix, s.house@, s.wager(player, seed).message(), sig) {
        lemma_message_determines_key(s.wager(player, seed), s.wager(other_player, other_seed));
    }
}

/// A successful resolution removes the wager, so every later attempt on the
/// same player and seed fails with `WagerNotFound`, whatever it carries.
pub proof fn lemma_no_double_resolution(
    s: TableState,
    player: [u8; 32],
    seed: u128,
    ix: VerifyInstruction,
    sig: Seq<u8>,
    ix2: VerifyInstruction,
    sig2: Seq<u8>,
)
    requires
        s.wf(),
        s.resolve(player, seed, ix, sig).1 is Ok,
    ensures
        s.resolve(player, seed, ix, sig).0.wf(),
        !s.resolve(player, seed, ix, sig).0.contains(player, seed),
        s.resolve(player, seed, ix, sig).0.resolve(player, seed, ix2, sig2) == (
            s.resolve(player, seed, ix, sig).0,
            Err::<Settlement, DiceError>(DiceError::WagerNotFound),
        ),
{
    lemma_index_of_matches(s, player, seed);
    let k = s.index_of(player, seed);
    lemma_removal_keeps_wf(s.wagers, k);
    let t = s.resolve(player, seed, ix, sig).0;
    assert(t.wagers == s.wagers.remove(k));
    if t.contains(player, seed) {
        let j = choose|j: int| 0 <= j < t.wagers.len() && t.wagers[j].has_key(player, seed);
        assert(!t.wagers[j].has_key(s.wagers[k].player, s.wagers[k].seed));
    }
}

/// Placing a valid wager moves exactly the stake into custody and records
/// the wager with the given player, seed, threshold and stake.
pub proof fn lemma_place_escrows_stake(
    s: TableState,
    player: [u8; 32],
    available: u64,
    seed: u128,
    threshold: u8,
    amount: u64,
    slot: u64,
    bump: u8,
)
    requires
        s.wf(),
        amount > 0,
        2 <= threshold <= 100,
        available >= amount,
        !s.contains(player, seed),
        s.vault + amount <= u64::MAX,
    ensures
        ({
            let (t, r) = s.place(player, available, seed, threshold, amount, slot, bump);
            &&& r is Ok
            &&& t.wf()
            &&& t.house == s.house
            &&& t.vault == s.vault + amount
            &&& t.contains(player, seed)
            &&& t.wager(player, seed) == Wager {
                player,
                seed,
                commit_marker: slot,
                amount,
                threshold,
                bump,
            }
        }),
{
    let t = s.place(player, available, seed, threshold, amount, slot, bump).0;
    let n = s.wagers.len() as int;
    assert(t.wagers[n].has_key(player, seed));
    assert forall|i: int, j: int|
        0 <= i < t.wagers.len() && 0 <= j < t.wagers.len() && i != j implies !t.wagers[i].has_key(
            t.wagers[j].player,
            t.wagers[j].seed,
        ) by {
        if i < n && j < n {
            assert(t.wagers[i] == s.wagers[i] && t.wagers[j] == s.wagers[j]);
        } else if i < n {
            assert(t.wagers[i] == s.wagers[i]);
            if t.wagers[i].has_key(player, seed) {
                assert(s.contains(player, seed));
            }
        } else {
            assert(t.wagers[j] == s.wagers[j]);
            if t.wagers[j].has_key(player, seed) {
                assert(s.contains(player, seed));
            }
        }
    }
    lemma_index_of_matches(t, player, seed);
    let k = t.index_of(player, seed);
    if k != n {
        assert(t.wagers[k] == s.wagers[k]);
        assert(s.contains(player, seed));
    }
}

} // verus!
