//! Native settlement: releases previously escrowed tokens to a recipient on
//! the local chain, splitting an optional relayer incentive out of the
//! escrowed balance.
//!
//! `settle` consumes a trusted, parsed transfer message under the replay
//! guard and computes the exact escrow debits to execute. Every check gates
//! the next one, in the spec's order; an attempt that fails at any step
//! leaves the claim store untouched, so the message stays un-settled and a
//! corrected retry remains possible. Only a successful attempt occupies the
//! claim address, and the planned transfers it returns debit the escrow by
//! exactly the denormalized transfer amount.

use vstd::prelude::*;
use crate::amounts::{denorm, denormalize, lemma_denorm_huge, lemma_denorm_monotone};
use crate::bytes::{arrays_equal, be_value, be_value_u128};
use crate::derivation::{
    claim_seeds, derive_escrow_authority, derived_for, escrow_authority_for, find_derived_address,
};
use crate::errors::SettlementError;
use crate::guard::{
    acquire, acquire_claimed, acquire_mismatch, acquire_next, acquire_ok, lemma_at_most_once,
    occupied, store_contents, ClaimStore, GuardHandle,
};
use crate::messages::{
    is_transfer_payload, spec_amount, spec_recipient, spec_relayer_fee, spec_token_address,
    spec_token_chain, MessageKey, parse_transfer_payload,
};
use crate::registry::{registered, registry_contents, EmitterRegistry};

verus! {

/// The wire identifier of the local chain: only transfers of assets native
/// to it travel the escrowed-settlement path this core implements.
pub const LOCAL_CHAIN_ID: u16 = 1;

/// Relies on `wormhole_solana_consts::SOLANA_CHAIN`: the local chain's wire
/// identifier is 1.
#[verifier::external_body]
fn local_chain_id() -> (r: u16)
    ensures
        r == LOCAL_CHAIN_ID,
{
    wormhole_solana_consts::SOLANA_CHAIN
}

/// One escrow debit for the value-transfer collaborator to execute.
#[derive(Debug)]
pub struct TransferAction {
    pub from: [u8; 32],
    pub to: [u8; 32],
    /// The program-controlled escrow authority that authorizes the debit.
    pub authority: [u8; 32],
    pub amount: u64,
}

/// The resolved accounts one settlement works over.
pub struct SettleAccounts {
    /// Funds the claim cell's creation.
    pub payer: [u8; 32],
    /// The claim account address the caller intends to use; it must equal
    /// the derived address.
    pub claim: [u8; 32],
    /// The recipient's token account.
    pub recipient_token: [u8; 32],
    /// The relayer's (transaction payer's) token account.
    pub payer_token: [u8; 32],
    /// The escrow holding the previously deposited balance.
    pub custody_token: [u8; 32],
    /// The escrow authority: the program-controlled identity, derived from a
    /// fixed label, that alone may move tokens out of the escrow. It must
    /// equal the derived authority.
    pub custody_authority: [u8; 32],
    /// The local asset's identifier.
    pub mint: [u8; 32],
}

/// A settled plan: the claim cell to create and the escrow debits to
/// execute, all parts of one indivisible unit of execution.
#[derive(Debug)]
pub struct Settlement {
    pub guard: GuardHandle,
    /// The bump disambiguator of the escrow authority's derivation, with
    /// which the caller signs the transfers.
    pub authority_bump: u8,
    pub transfers: Vec<TransferAction>,
}

/// The message's emitter is a recognized counterpart for its chain.
pub open spec fn emitter_ok(entries: Seq<(u16, Seq<u8>)>, key: MessageKey) -> bool {
    registered(entries, key.emitter_chain, key.emitter_address@)
}

/// The supplied escrow-authority account is exactly the identity derived
/// from the fixed label under this program.
pub open spec fn authority_ok(accounts: SettleAccounts, program_id: Seq<u8>) -> bool {
    match escrow_authority_for(program_id) {
        Some(ab) => ab.0 == accounts.custody_authority@,
        None => false,
    }
}

/// The payload's encoded recipient agrees with the recipient token account
/// supplied for settlement.
pub open spec fn recipient_ok(p: Seq<u8>, accounts: SettleAccounts) -> bool {
    spec_recipient(p) == accounts.recipient_token@
}

/// The transferred asset is native to the local chain: anything else is a
/// wrapped-asset mint path, outside this core.
pub open spec fn path_ok(p: Seq<u8>) -> bool {
    spec_token_chain(p) == LOCAL_CHAIN_ID
}

/// The encoded token address decodes to exactly the local asset supplied.
pub open spec fn mint_ok(p: Seq<u8>, mint: [u8; 32]) -> bool {
    spec_token_address(p) == mint@
}

/// The denormalized transfer amount fits the 64-bit native range.
pub open spec fn amount_ok(p: Seq<u8>, d: nat) -> bool {
    denorm(spec_amount(p), d) <= u64::MAX
}

/// The escrow debits a settlement executes: when a relayer incentive is owed
/// and the relayer's account differs from the recipient's, the fee goes to
/// the relayer and the remainder to the recipient; otherwise the recipient
/// receives the full amount in a single transfer.
pub open spec fn planned_transfers(p: Seq<u8>, d: nat, accounts: SettleAccounts) -> Seq<
    TransferAction,
> {
    let na = denorm(spec_amount(p), d);
    let nf = denorm(spec_relayer_fee(p), d);
    if nf > 0 && accounts.payer_token@ != accounts.recipient_token@ {
        seq![
            (TransferAction {
                from: accounts.custody_token,
                to: accounts.payer_token,
                authority: accounts.custody_authority,
                amount: nf as u64,
            }),
            (TransferAction {
                from: accounts.custody_token,
                to: accounts.recipient_token,
                authority: accounts.custody_authority,
                amount: (na - nf) as u64,
            }),
        ]
    } else {
        seq![
            (TransferAction {
                from: accounts.custody_token,
                to: accounts.recipient_token,
                authority: accounts.custody_authority,
                amount: na as u64,
            }),
        ]
    }
}

/// The total a list of transfers debits from the escrow.
pub open spec fn total_debit(ts: Seq<TransferAction>) -> int
    decreases ts.len(),
{
    if ts.len() == 0 {
        0
    } else {
        total_debit(ts.drop_last()) + ts.last().amount
    }
}

proof fn lemma_total_debit_singleton(t: TransferAction)
    ensures
        total_debit(seq![t]) == t.amount,
{
    assert(seq![t].drop_last() =~= Seq::<TransferAction>::empty());
    assert(total_debit(Seq::<TransferAction>::empty()) == 0);
}

proof fn lemma_total_debit_pair(t1: TransferAction, t2: TransferAction)
    ensures
        total_debit(seq![t1, t2]) == t1.amount + t2.amount,
{
    assert(seq![t1, t2].drop_last() =~= seq![t1]);
    lemma_total_debit_singleton(t1);
}

/// At-most-once at the settlement level: on the store a successful
/// settlement leaves, the same message can never settle again — the claim
/// address it occupied makes every further attempt for the same key end in
/// `AlreadyClaimed`, which `settle`'s contract ties to exactly that error.
pub proof fn lemma_settlement_at_most_once(
    cells: Seq<(Seq<u8>, u8)>,
    claim: Seq<u8>,
    key: MessageKey,
    program_id: Seq<u8>,
)
    requires
        acquire_ok(cells, claim, None, key, program_id),
    ensures
        acquire_claimed(acquire_next(cells, None, key, program_id), claim, None, key, program_id),
        !acquire_ok(acquire_next(cells, None, key, program_id), claim, None, key, program_id),
{
    lemma_at_most_once(cells, claim, claim, None, key, program_id);
}

/// Settles one trusted transfer message: acquires the replay guard, checks
/// the escrow authority against its derivation, authorizes the source, the
/// named recipient and the asset class, denormalizes the amounts, and plans
/// the escrow debits. Each error comes exactly on the stated inputs,
/// in the stated order of precedence; every failure leaves the claim store
/// unchanged. The relayer fee never exceeds the amount (an origin-side
/// invariant of the normalized values), so the remainder to the recipient
/// never underflows.
pub fn settle(
    store: &mut ClaimStore,
    registry: &EmitterRegistry,
    program_id: &[u8; 32],
    key: &MessageKey,
    payload: &[u8],
    mint_decimals: u8,
    accounts: &SettleAccounts,
) -> (r: Result<Settlement, SettlementError>)
    requires
        is_transfer_payload(payload@),
        spec_relayer_fee(payload@) <= spec_amount(payload@),
    ensures
        r is Err ==> store_contents(final(store)) == store_contents(old(store)),
        r is Ok <==> {
            &&& acquire_ok(
                store_contents(old(store)),
                accounts.claim@,
                None,
                *key,
                program_id@,
            )
            &&& authority_ok(*accounts, program_id@)
            &&& emitter_ok(registry_contents(registry), *key)
            &&& recipient_ok(payload@, *accounts)
            &&& path_ok(payload@)
            &&& mint_ok(payload@, accounts.mint)
            &&& amount_ok(payload@, mint_decimals as nat)
        },
        (r matches Err(SettlementError::AddressMismatch)) <==> {
            ||| acquire_mismatch(accounts.claim@, None, *key, program_id@)
            ||| !authority_ok(*accounts, program_id@)
        },
        (r matches Err(SettlementError::AlreadyClaimed)) <==> {
            &&& acquire_claimed(
                store_contents(old(store)),
                accounts.claim@,
                None,
                *key,
                program_id@,
            )
            &&& authority_ok(*accounts, program_id@)
        },
        (r matches Err(SettlementError::UntrustedEmitter)) <==> {
            &&& acquire_ok(store_contents(old(store)), accounts.claim@, None, *key, program_id@)
            &&& authority_ok(*accounts, program_id@)
            &&& !emitter_ok(registry_contents(registry), *key)
        },
        (r matches Err(SettlementError::InvalidRecipient)) <==> {
            &&& acquire_ok(store_contents(old(store)), accounts.claim@, None, *key, program_id@)
            &&& authority_ok(*accounts, program_id@)
            &&& emitter_ok(registry_contents(registry), *key)
            &&& !recipient_ok(payload@, *accounts)
        },
        (r matches Err(SettlementError::WrongSettlementPath)) <==> {
            &&& acquire_ok(store_contents(old(store)), accounts.claim@, None, *key, program_id@)
            &&& authority_ok(*accounts, program_id@)
            &&& emitter_ok(registry_contents(registry), *key)
            &&& recipient_ok(payload@, *accounts)
            &&& !path_ok(payload@)
        },
        (r matches Err(SettlementError::InvalidMint)) <==> {
            &&& acquire_ok(store_contents(old(store)), accounts.claim@, None, *key, program_id@)
            &&& authority_ok(*accounts, program_id@)
            &&& emitter_ok(registry_contents(registry), *key)
            &&& recipient_ok(payload@, *accounts)
            &&& path_ok(payload@)
            &&& !mint_ok(payload@, accounts.mint)
        },
        (r matches Err(SettlementError::AmountOverflow)) <==> {
            &&& acquire_ok(store_contents(old(store)), accounts.claim@, None, *key, program_id@)
            &&& authority_ok(*accounts, program_id@)
            &&& emitter_ok(registry_contents(registry), *key)
            &&& recipient_ok(payload@, *accounts)
            &&& path_ok(payload@)
            &&& mint_ok(payload@, accounts.mint)
            &&& !amount_ok(payload@, mint_decimals as nat)
        },
        r matches Ok(s) ==> {
            &&& store_contents(final(store)) == acquire_next(
                store_contents(old(store)),
                None,
                *key,
                program_id@,
            )
            &&& Some((s.guard.claim_address@, s.guard.bump)) == derived_for(
                None,
                *key,
                program_id@,
            )
            &&& s.guard.claim_address@ == accounts.claim@
            &&& s.guard.payer == accounts.payer
            &&& occupied(final(store), accounts.claim@)
            &&& Some((accounts.custody_authority@, s.authority_bump)) == escrow_authority_for(
                program_id@,
            )
            &&& s.transfers@ == planned_transfers(payload@, mint_decimals as nat, *accounts)
            &&& forall|i: int|
                0 <= i < s.transfers@.len() ==> (s.transfers@[i].from == accounts.custody_token
                    && s.transfers@[i].authority == accounts.custody_authority)
            &&& total_debit(s.transfers@) == denorm(spec_amount(payload@), mint_decimals as nat)
        },
{
    let transfer = match parse_transfer_payload(payload) {
        Some(t) => t,
        None => {
            // The precondition says the payload is a well-formed transfer.
            proof {
                assert(false);
            }
            return Err(SettlementError::AmountOverflow);
        },
    };
    // Step 1, checks first: the caller must have supplied exactly the derived
    // claim address, and that address must still be free. The cell itself is
    // created last, once every later check has passed, so a failed attempt
    // leaves no partial state.
    let seeds = claim_seeds(None, key);
    let derived = match find_derived_address(&seeds, program_id) {
        Some(ab) => ab,
        None => {
            return Err(SettlementError::AddressMismatch);
        },
    };
    if !arrays_equal(&accounts.claim, &derived.0) {
        return Err(SettlementError::AddressMismatch);
    }
    // The escrow authority must be the identity derived from the fixed
    // label: nothing else may move tokens out of the escrow.
    let authority = match derive_escrow_authority(program_id) {
        Some(ab) => ab,
        None => {
            return Err(SettlementError::AddressMismatch);
        },
    };
    if !arrays_equal(&accounts.custody_authority, &authority.0) {
        return Err(SettlementError::AddressMismatch);
    }
    if store.contains(&derived.0) {
        return Err(SettlementError::AlreadyClaimed);
    }
    // Step 2: authorize the source, and the destination the message names.
    if !registry.is_registered(key.emitter_chain, &key.emitter_address) {
        return Err(SettlementError::UntrustedEmitter);
    }
    if !arrays_equal(&transfer.recipient, &accounts.recipient_token) {
        return Err(SettlementError::InvalidRecipient);
    }
    // Step 3: authorize the asset class.
    if transfer.token_chain != local_chain_id() {
        return Err(SettlementError::WrongSettlementPath);
    }
    if !arrays_equal(&transfer.token_address, &accounts.mint) {
        return Err(SettlementError::InvalidMint);
    }
    // Step 4: denormalize both amounts.
    let amount_value = match be_value_u128(&transfer.amount) {
        Some(v) => v,
        None => {
            proof {
                lemma_denorm_huge(be_value(transfer.amount@), mint_decimals as nat);
            }
            return Err(SettlementError::AmountOverflow);
        },
    };
    let native_amount = match denormalize(amount_value, mint_decimals) {
        Some(n) => n,
        None => {
            return Err(SettlementError::AmountOverflow);
        },
    };
    let fee_value = match be_value_u128(&transfer.relayer_fee) {
        Some(v) => v,
        None => {
            // The fee is at most the amount, which fit 128 bits above.
            proof {
                assert(false);
            }
            return Err(SettlementError::AmountOverflow);
        },
    };
    proof {
        lemma_denorm_monotone(fee_value as nat, amount_value as nat, mint_decimals as nat);
    }
    let native_fee = match denormalize(fee_value, mint_decimals) {
        Some(n) => n,
        None => {
            // Monotonicity: the fee denormalizes below the amount, which fit.
            proof {
                assert(false);
            }
            return Err(SettlementError::AmountOverflow);
        },
    };
    // Step 5: the fee split. The relayer incentive never exceeds the amount,
    // proved above from monotonicity of denormalization.
    let mut transfers: Vec<TransferAction> = Vec::new();
    if native_fee > 0 && !arrays_equal(&accounts.payer_token, &accounts.recipient_token) {
        let t1 = TransferAction {
            from: accounts.custody_token,
            to: accounts.payer_token,
            authority: accounts.custody_authority,
            amount: native_fee,
        };
        let t2 = TransferAction {
            from: accounts.custody_token,
            to: accounts.recipient_token,
            authority: accounts.custody_authority,
            amount: native_amount - native_fee,
        };
        transfers.push(t1);
        transfers.push(t2);
        proof {
            assert(transfers@ =~= seq![t1, t2]);
            lemma_total_debit_pair(t1, t2);
        }
    } else {
        let t = TransferAction {
            from: accounts.custody_token,
            to: accounts.recipient_token,
            authority: accounts.custody_authority,
            amount: native_amount,
        };
        transfers.push(t);
        proof {
            assert(transfers@ =~= seq![t]);
            lemma_total_debit_singleton(t);
        }
    }
    // Step 6: every check passed; occupy the claim address for good.
    let guard = match acquire(store, &accounts.claim, None, key, program_id, &accounts.payer) {
        Ok(h) => h,
        Err(_) => {
            // The address matched and was free: the acquire cannot fail.
            proof {
                assert(false);
            }
            return Err(SettlementError::AmountOverflow);
        },
    };
    proof {
        assert(transfers@ =~= planned_transfers(payload@, mint_decimals as nat, *accounts));
    }
    Ok(Settlement { guard, authority_bump: authority.1, transfers })
}

} // verus!
