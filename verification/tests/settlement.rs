use anchor_lang::prelude::Pubkey;
use native_settlement::amounts::denormalize;
use native_settlement::bytes::{be_bytes_u16, be_bytes_u64, be_value_u128};
use native_settlement::errors::SettlementError;
use native_settlement::guard::{acquire, ClaimStore};
use native_settlement::messages::MessageKey;
use native_settlement::registry::EmitterRegistry;
use native_settlement::settle::{settle, SettleAccounts, LOCAL_CHAIN_ID};

fn be32(v: u128) -> [u8; 32] {
    let mut b = [0u8; 32];
    b[16..].copy_from_slice(&v.to_be_bytes());
    b
}

fn transfer_payload(
    amount: u128,
    token_address: [u8; 32],
    token_chain: u16,
    recipient: [u8; 32],
    relayer_fee: u128,
) -> Vec<u8> {
    let mut p = vec![1u8];
    p.extend_from_slice(&be32(amount));
    p.extend_from_slice(&token_address);
    p.extend_from_slice(&token_chain.to_be_bytes());
    p.extend_from_slice(&recipient);
    p.extend_from_slice(&21u16.to_be_bytes());
    p.extend_from_slice(&be32(relayer_fee));
    p
}

fn derive_authority(program_id: &[u8; 32]) -> ([u8; 32], u8) {
    let (addr, bump) = Pubkey::find_program_address(
        &[b"custody_signer"],
        &Pubkey::new_from_array(*program_id),
    );
    (addr.to_bytes(), bump)
}

fn derive_claim(key: &MessageKey, program_id: &[u8; 32]) -> ([u8; 32], u8) {
    let (addr, bump) = Pubkey::find_program_address(
        &[
            &key.emitter_address,
            &key.emitter_chain.to_be_bytes(),
            &key.sequence.to_be_bytes(),
        ],
        &Pubkey::new_from_array(*program_id),
    );
    (addr.to_bytes(), bump)
}

fn test_key() -> MessageKey {
    MessageKey {
        emitter_address: [7u8; 32],
        emitter_chain: 2,
        sequence: 900,
    }
}

fn test_setup(
    amount: u128,
    relayer_fee: u128,
    token_chain: u16,
) -> (ClaimStore, EmitterRegistry, [u8; 32], MessageKey, Vec<u8>, SettleAccounts) {
    let program_id = [3u8; 32];
    let key = test_key();
    let mint = [9u8; 32];
    let (claim, _bump) = derive_claim(&key, &program_id);
    let payload = transfer_payload(amount, mint, token_chain, [11u8; 32], relayer_fee);
    let mut registry = EmitterRegistry::new();
    registry.register(key.emitter_chain, key.emitter_address);
    let (custody_authority, _) = derive_authority(&program_id);
    let accounts = SettleAccounts {
        payer: [1u8; 32],
        claim,
        recipient_token: [11u8; 32],
        payer_token: [12u8; 32],
        custody_token: [13u8; 32],
        custody_authority,
        mint,
    };
    (ClaimStore::new(), registry, program_id, key, payload, accounts)
}

#[test]
fn denorm_six_decimals() {
    assert_eq!(denormalize(1_000_000, 6), Some(10_000));
}

#[test]
fn denorm_nine_decimals() {
    assert_eq!(denormalize(1_000_000, 9), Some(10_000_000));
}

#[test]
fn denorm_eight_decimals_identity() {
    assert_eq!(denormalize(12_345, 8), Some(12_345));
}

#[test]
fn denorm_floor_division() {
    assert_eq!(denormalize(199, 6), Some(1));
    assert_eq!(denormalize(99, 6), Some(0));
}

#[test]
fn denorm_overflow_fails() {
    assert_eq!(denormalize(u128::MAX, 9), None);
    assert_eq!(denormalize(u64::MAX as u128 + 1, 8), None);
    assert_eq!(denormalize(1, 60), None);
    assert_eq!(denormalize(0, 60), Some(0));
}

#[test]
fn be_encodings() {
    assert_eq!(be_bytes_u16(0x1234), vec![0x12, 0x34]);
    assert_eq!(be_bytes_u16(2), vec![0, 2]);
    assert_eq!(
        be_bytes_u64(0x0102030405060708),
        vec![1, 2, 3, 4, 5, 6, 7, 8]
    );
    assert_eq!(be_bytes_u64(900), vec![0, 0, 0, 0, 0, 0, 3, 0x84]);
}

#[test]
fn be_value_reads_32_bytes() {
    assert_eq!(be_value_u128(&[0u8; 32]), Some(0));
    assert_eq!(be_value_u128(&be32(123_456_789)), Some(123_456_789));
    let mut huge = [0u8; 32];
    huge[15] = 1;
    assert_eq!(be_value_u128(&huge), None);
}

#[test]
fn fee_split_distinct_accounts() {
    let (mut store, registry, program_id, key, payload, accounts) = test_setup(1000, 100, 1);
    let s = settle(
        &mut store,
        &registry,
        &program_id,
        &key,
        &payload,
        8,
        &accounts,
    )
    .unwrap();
    assert_eq!(s.transfers.len(), 2);
    assert_eq!(s.transfers[0].from, accounts.custody_token);
    assert_eq!(s.transfers[0].to, accounts.payer_token);
    assert_eq!(s.transfers[0].amount, 100);
    assert_eq!(s.transfers[1].from, accounts.custody_token);
    assert_eq!(s.transfers[1].to, accounts.recipient_token);
    assert_eq!(s.transfers[1].amount, 900);
    for t in &s.transfers {
        assert_eq!(t.authority, accounts.custody_authority);
    }
}

#[test]
fn fee_split_same_account_single_transfer() {
    let (mut store, registry, program_id, key, payload, mut accounts) = test_setup(1000, 100, 1);
    accounts.payer_token = accounts.recipient_token;
    let s = settle(
        &mut store,
        &registry,
        &program_id,
        &key,
        &payload,
        8,
        &accounts,
    )
    .unwrap();
    assert_eq!(s.transfers.len(), 1);
    assert_eq!(s.transfers[0].to, accounts.recipient_token);
    assert_eq!(s.transfers[0].amount, 1000);
}

#[test]
fn no_fee_single_transfer() {
    let (mut store, registry, program_id, key, payload, accounts) = test_setup(1000, 0, 1);
    let s = settle(
        &mut store,
        &registry,
        &program_id,
        &key,
        &payload,
        8,
        &accounts,
    )
    .unwrap();
    assert_eq!(s.transfers.len(), 1);
    assert_eq!(s.transfers[0].amount, 1000);
}

#[test]
fn settle_denormalizes_amounts() {
    let (mut store, registry, program_id, key, payload, accounts) = test_setup(1_000_000, 0, 1);
    let s = settle(
        &mut store,
        &registry,
        &program_id,
        &key,
        &payload,
        6,
        &accounts,
    )
    .unwrap();
    assert_eq!(s.transfers[0].amount, 10_000);
}

#[test]
fn settle_returns_guard_details() {
    let (mut store, registry, program_id, key, payload, accounts) = test_setup(5, 0, 1);
    let (claim, bump) = derive_claim(&key, &program_id);
    let s = settle(
        &mut store,
        &registry,
        &program_id,
        &key,
        &payload,
        8,
        &accounts,
    )
    .unwrap();
    assert_eq!(s.guard.claim_address, claim);
    assert_eq!(s.guard.bump, bump);
    assert_eq!(s.guard.payer, accounts.payer);
    let (authority, authority_bump) = derive_authority(&program_id);
    assert_eq!(accounts.custody_authority, authority);
    assert_eq!(s.authority_bump, authority_bump);
}

#[test]
fn wrong_settlement_path_rejected() {
    let (mut store, registry, program_id, key, payload, accounts) = test_setup(1000, 0, 4);
    assert_ne!(4, LOCAL_CHAIN_ID);
    let r = settle(
        &mut store,
        &registry,
        &program_id,
        &key,
        &payload,
        8,
        &accounts,
    );
    assert_eq!(r.unwrap_err(), SettlementError::WrongSettlementPath);
    // The failed attempt consumed nothing: a corrected message still settles.
    let fixed = transfer_payload(1000, accounts.mint, LOCAL_CHAIN_ID, [11u8; 32], 0);
    let s = settle(
        &mut store,
        &registry,
        &program_id,
        &key,
        &fixed,
        8,
        &accounts,
    );
    assert!(s.is_ok());
}

#[test]
fn address_mismatch_rejected() {
    let (mut store, registry, program_id, key, payload, mut accounts) = test_setup(1000, 0, 1);
    accounts.claim = [42u8; 32];
    let r = settle(
        &mut store,
        &registry,
        &program_id,
        &key,
        &payload,
        8,
        &accounts,
    );
    assert_eq!(r.unwrap_err(), SettlementError::AddressMismatch);
}

#[test]
fn second_settlement_already_claimed() {
    let (mut store, registry, program_id, key, payload, accounts) = test_setup(1000, 0, 1);
    assert!(settle(
        &mut store,
        &registry,
        &program_id,
        &key,
        &payload,
        8,
        &accounts,
    )
    .is_ok());
    let again = settle(
        &mut store,
        &registry,
        &program_id,
        &key,
        &payload,
        8,
        &accounts,
    );
    assert_eq!(again.unwrap_err(), SettlementError::AlreadyClaimed);
    // A different sequence is a different message and still settles.
    let key2 = MessageKey {
        sequence: key.sequence + 1,
        ..key
    };
    let (claim2, _) = derive_claim(&key2, &program_id);
    let accounts2 = SettleAccounts {
        claim: claim2,
        ..accounts
    };
    assert!(settle(
        &mut store,
        &registry,
        &program_id,
        &key2,
        &payload,
        8,
        &accounts2,
    )
    .is_ok());
}

#[test]
fn untrusted_emitter_rejected() {
    let (mut store, _registry, program_id, key, payload, accounts) = test_setup(1000, 0, 1);
    let empty = EmitterRegistry::new();
    let r = settle(
        &mut store,
        &empty,
        &program_id,
        &key,
        &payload,
        8,
        &accounts,
    );
    assert_eq!(r.unwrap_err(), SettlementError::UntrustedEmitter);
    let mut other = EmitterRegistry::new();
    other.register(key.emitter_chain, [8u8; 32]);
    let r2 = settle(&mut store, &other, &program_id, &key, &payload, 8, &accounts);
    assert_eq!(r2.unwrap_err(), SettlementError::UntrustedEmitter);
}

#[test]
fn invalid_mint_rejected() {
    let (mut store, registry, program_id, key, _payload, accounts) = test_setup(1000, 0, 1);
    let payload = transfer_payload(1000, [10u8; 32], 1, [11u8; 32], 0);
    let r = settle(
        &mut store,
        &registry,
        &program_id,
        &key,
        &payload,
        8,
        &accounts,
    );
    assert_eq!(r.unwrap_err(), SettlementError::InvalidMint);
}

#[test]
fn amount_overflow_rejected() {
    // Denormalizing to 9 decimals multiplies by 10: past the 64-bit range.
    let (mut store, registry, program_id, key, payload, accounts) =
        test_setup(u64::MAX as u128, 0, 1);
    let r = settle(
        &mut store,
        &registry,
        &program_id,
        &key,
        &payload,
        9,
        &accounts,
    );
    assert_eq!(r.unwrap_err(), SettlementError::AmountOverflow);
    // A 32-byte amount too large even for 128 bits overflows as well.
    let mut p2 = transfer_payload(0, accounts.mint, 1, [11u8; 32], 0);
    p2[1] = 1;
    let r2 = settle(&mut store, &registry, &program_id, &key, &p2, 8, &accounts);
    assert_eq!(r2.unwrap_err(), SettlementError::AmountOverflow);
}

#[test]
fn acquire_unsalted_and_prefixed_are_independent() {
    let program_id = [3u8; 32];
    let key = test_key();
    let payer = [1u8; 32];
    let mut store = ClaimStore::new();
    let (plain_addr, plain_bump) = derive_claim(&key, &program_id);
    let h = acquire(&mut store, &plain_addr, None, &key, &program_id, &payer).unwrap();
    assert_eq!(h.claim_address, plain_addr);
    assert_eq!(h.bump, plain_bump);
    // The namespace-salted variant of the same key still acquires: the two
    // variants occupy non-interfering address spaces.
    let prefix = b"example-namespace".to_vec();
    let (salted, _) = Pubkey::find_program_address(
        &[
            &prefix,
            &key.emitter_address,
            &key.emitter_chain.to_be_bytes(),
            &key.sequence.to_be_bytes(),
        ],
        &Pubkey::new_from_array(program_id),
    );
    let salted = salted.to_bytes();
    assert_ne!(salted, plain_addr);
    assert!(acquire(&mut store, &salted, Some(&prefix), &key, &program_id, &payer).is_ok());
    // Both variants now refuse a repeat.
    assert_eq!(
        acquire(&mut store, &plain_addr, None, &key, &program_id, &payer).unwrap_err(),
        SettlementError::AlreadyClaimed
    );
    assert_eq!(
        acquire(&mut store, &salted, Some(&prefix), &key, &program_id, &payer).unwrap_err(),
        SettlementError::AlreadyClaimed
    );
}

#[test]
fn acquire_checks_supplied_address() {
    let program_id = [3u8; 32];
    let key = test_key();
    let mut store = ClaimStore::new();
    let wrong = [0u8; 32];
    let r = acquire(&mut store, &wrong, None, &key, &program_id, &[1u8; 32]);
    assert_eq!(r.unwrap_err(), SettlementError::AddressMismatch);
    // Distinct programs derive distinct claim addresses from the same key.
    let other_program = [4u8; 32];
    let (addr_a, _) = derive_claim(&key, &program_id);
    let (addr_b, _) = derive_claim(&key, &other_program);
    assert_ne!(addr_a, addr_b);
}

#[test]
fn recipient_mismatch_rejected() {
    let (mut store, registry, program_id, key, _payload, accounts) = test_setup(1000, 0, 1);
    // The payload names a recipient other than the supplied token account.
    let payload = transfer_payload(1000, accounts.mint, 1, [99u8; 32], 0);
    let r = settle(
        &mut store,
        &registry,
        &program_id,
        &key,
        &payload,
        8,
        &accounts,
    );
    assert_eq!(r.unwrap_err(), SettlementError::InvalidRecipient);
}

#[test]
fn wrong_escrow_authority_rejected() {
    let (mut store, registry, program_id, key, payload, mut accounts) = test_setup(1000, 0, 1);
    accounts.custody_authority = [77u8; 32];
    let r = settle(
        &mut store,
        &registry,
        &program_id,
        &key,
        &payload,
        8,
        &accounts,
    );
    assert_eq!(r.unwrap_err(), SettlementError::AddressMismatch);
}

#[test]
fn escrow_authority_is_program_scoped() {
    // Distinct program identities derive distinct escrow authorities from
    // the same fixed label.
    let (a, _) = derive_authority(&[3u8; 32]);
    let (b, _) = derive_authority(&[4u8; 32]);
    assert_ne!(a, b);
}
