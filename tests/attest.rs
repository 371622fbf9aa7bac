use dice_settle::attest::{verify_ed25519_signature, SignatureEntry, VerifyInstruction};
use dice_settle::DiceError;

fn house() -> [u8; 32] {
    [7u8; 32]
}

fn good_instruction(message: &[u8], sig: &[u8]) -> VerifyInstruction {
    VerifyInstruction {
        program_id: solana_program::ed25519_program::ID.to_bytes(),
        account_count: 0,
        signatures: vec![SignatureEntry {
            is_verifiable: true,
            public_key: Some(house()),
            signature: Some(sig.to_vec()),
            message: Some(message.to_vec()),
        }],
    }
}

const MSG: &[u8] = b"wager bytes";
const SIG: [u8; 64] = [9u8; 64];

#[test]
fn attested_instruction_is_accepted() {
    let ix = good_instruction(MSG, &SIG);
    assert_eq!(verify_ed25519_signature(&ix, &house(), MSG, &SIG), Ok(()));
}

#[test]
fn other_program_is_rejected() {
    let mut ix = good_instruction(MSG, &SIG);
    ix.program_id = [0u8; 32];
    assert_eq!(
        verify_ed25519_signature(&ix, &house(), MSG, &SIG),
        Err(DiceError::SignatureVerificationError)
    );
}

#[test]
fn referenced_accounts_are_rejected() {
    let mut ix = good_instruction(MSG, &SIG);
    ix.account_count = 1;
    assert_eq!(
        verify_ed25519_signature(&ix, &house(), MSG, &SIG),
        Err(DiceError::SignatureVerificationError)
    );
}

#[test]
fn entry_count_other_than_one_is_rejected() {
    let mut ix = good_instruction(MSG, &SIG);
    let entry = ix.signatures[0].clone();
    ix.signatures.push(entry);
    assert_eq!(
        verify_ed25519_signature(&ix, &house(), MSG, &SIG),
        Err(DiceError::SignatureVerificationError)
    );
    ix.signatures.clear();
    assert_eq!(
        verify_ed25519_signature(&ix, &house(), MSG, &SIG),
        Err(DiceError::SignatureVerificationError)
    );
}

#[test]
fn unverifiable_entry_is_rejected() {
    let mut ix = good_instruction(MSG, &SIG);
    ix.signatures[0].is_verifiable = false;
    assert_eq!(
        verify_ed25519_signature(&ix, &house(), MSG, &SIG),
        Err(DiceError::SignatureVerificationError)
    );
}

#[test]
fn other_signer_is_rejected() {
    let mut ix = good_instruction(MSG, &SIG);
    ix.signatures[0].public_key = Some([8u8; 32]);
    assert_eq!(
        verify_ed25519_signature(&ix, &house(), MSG, &SIG),
        Err(DiceError::SignatureVerificationError)
    );
    ix.signatures[0].public_key = None;
    assert_eq!(
        verify_ed25519_signature(&ix, &house(), MSG, &SIG),
        Err(DiceError::SignatureVerificationError)
    );
}

#[test]
fn flipped_signature_bit_is_rejected() {
    let ix = good_instruction(MSG, &SIG);
    let mut tampered = SIG;
    tampered[10] ^= 1;
    assert_eq!(
        verify_ed25519_signature(&ix, &house(), MSG, &tampered),
        Err(DiceError::SignatureVerificationError)
    );
}

#[test]
fn other_message_is_rejected() {
    let ix = good_instruction(b"another wager", &SIG);
    assert_eq!(
        verify_ed25519_signature(&ix, &house(), MSG, &SIG),
        Err(DiceError::SignatureVerificationError)
    );
    let mut ix = good_instruction(MSG, &SIG);
    ix.signatures[0].message = None;
    assert_eq!(
        verify_ed25519_signature(&ix, &house(), MSG, &SIG),
        Err(DiceError::SignatureVerificationError)
    );
}
