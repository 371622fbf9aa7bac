//! Checks that the instruction preceding a resolution is an Ed25519
//! verification of exactly the wager being resolved, signed by the house.
use vstd::prelude::*;

use crate::bytes::bytes_equal;
use crate::errors::DiceError;

verus! {

/// One signature entry of an Ed25519 verification instruction, as unpacked
/// from the instruction's data.
#[derive(Clone, Debug)]
pub struct SignatureEntry {
    /// Whether every offset of the entry points into the instruction itself.
    pub is_verifiable: bool,
    /// The signer's public key.
    pub public_key: Option<[u8; 32]>,
    /// The 64 signature bytes.
    pub signature: Option<Vec<u8>>,
    /// The signed message.
    pub message: Option<Vec<u8>>,
}

/// The instruction that precedes a resolution in its transaction.
#[derive(Clone, Debug)]
pub struct VerifyInstruction {
    /// The program that the instruction invokes.
    pub program_id: [u8; 32],
    /// How many accounts the instruction references.
    pub account_count: usize,
    /// The signature entries unpacked from the instruction's data.
    pub signatures: Vec<SignatureEntry>,
}

/// The address of the native Ed25519 program,
/// `Ed25519SigVerify111111111111111111111111111`, as bytes.
pub open spec fn ed25519_program_bytes() -> Seq<u8> {
    seq![
        3u8, 125, 70, 214, 124, 147, 251, 190, 18, 249, 66, 143, 131, 141, 64, 255,
        5, 112, 116, 73, 39, 244, 138, 100, 252, 202, 112, 68, 128, 0, 0, 0,
    ]
}

/// Relies on `solana_program::ed25519_program::ID`: the address of the native
/// Ed25519 signature verification program.
#[verifier::external_body]
fn ed25519_program_id() -> (r: [u8; 32])
    ensures
        r@ == ed25519_program_bytes(),
{
    solana_program::ed25519_program::ID.to_bytes()
}

/// The entry is self-contained and says that `house` signed `message` with
/// the signature bytes `sig`.
pub open spec fn entry_attests(e: SignatureEntry, house: Seq<u8>, message: Seq<u8>, sig: Seq<u8>) -> bool {
    &&& e.is_verifiable
    &&& e.public_key matches Some(k) && k@ == house
    &&& e.signature matches Some(s) && s@ == sig
    &&& e.message matches Some(m) && m@ == message
}

/// The instruction is a call of the Ed25519 program, with no accounts and a
/// single entry, which attests that `house` signed `message` as `sig`.
pub open spec fn attests(ix: VerifyInstruction, house: Seq<u8>, message: Seq<u8>, sig: Seq<u8>) -> bool {
    &&& ix.program_id@ == ed25519_program_bytes()
    &&& ix.account_count == 0
    &&& ix.signatures@.len() == 1
    &&& entry_attests(ix.signatures@[0], house, message, sig)
}

fn entry_matches(e: &SignatureEntry, house: &[u8; 32], message: &[u8], sig: &[u8]) -> (r: bool)
    ensures
        r == entry_attests(*e, house@, message@, sig@),
{
    if !e.is_verifiable {
        return false;
    }
    let key_ok = match &e.public_key {
        Some(k) => bytes_equal(k.as_slice(), house.as_slice()),
        None => false,
    };
    if !key_ok {
        return false;
    }
    let sig_ok = match &e.signature {
        Some(s) => bytes_equal(s.as_slice(), sig),
        None => false,
    };
    if !sig_ok {
        return false;
    }
    match &e.message {
        Some(m) => bytes_equal(m.as_slice(), message),
        None => false,
    }
}

/// Accepts the instruction exactly when it attests that `house` signed
/// `message` with the signature bytes `sig`.
pub fn verify_ed25519_signature(
    ix: &VerifyInstruction,
    house: &[u8; 32],
    message: &[u8],
    sig: &[u8],
) -> (r: Result<(), DiceError>)
    ensures
        r is Ok <==> attests(*ix, house@, message@, sig@),
        r is Err ==> r == Err::<(), DiceError>(DiceError::SignatureVerificationError),
{
    let ed25519 = ed25519_program_id();
    if !bytes_equal(ix.program_id.as_slice(), ed25519.as_slice()) {
        return Err(DiceError::SignatureVerificationError);
    }
    if ix.account_count != 0 {
        return Err(DiceError::SignatureVerificationError);
    }
    if ix.signatures.len() != 1 {
        return Err(DiceError::SignatureVerificationError);
    }
    if !entry_matches(&ix.signatures[0], house, message, sig) {
        return Err(DiceError::SignatureVerificationError);
    }
    Ok(())
}

} // verus!
