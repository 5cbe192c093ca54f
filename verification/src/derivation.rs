//! Deterministic claim-address derivation.
//!
//! The claim's storage address is a pure function of the derivation seeds —
//! an optional caller-chosen namespace prefix, then the emitter address, the
//! big-endian emitter chain and the big-endian sequence — and of the
//! settlement program's own identity, which salts the derivation so that two
//! programs deriving from the same message key can never collide. The
//! derivation itself is the host ledger's; this module names its result and
//! builds the seeds it is applied to.

use vstd::prelude::*;
use crate::bytes::{be_bytes, be_bytes_u16, be_bytes_u64};
use crate::messages::MessageKey;

verus! {

/// The host ledger's deterministic address derivation: for given seeds and
/// program identity it yields one fixed address and bump disambiguator, or
/// nothing in the statistically improbable event that no bump works.
pub uninterp spec fn derived_address(seeds: Seq<Seq<u8>>, program_id: Seq<u8>) -> Option<(
    Seq<u8>,
    u8,
)>;

/// The view of an optional namespace prefix.
pub open spec fn prefix_view(prefix: Option<&Vec<u8>>) -> Option<Seq<u8>> {
    match prefix {
        Some(p) => Some(p@),
        None => None,
    }
}

/// The derivation seeds of a claim: the namespace prefix when one is chosen,
/// then the emitter address, the big-endian emitter chain and the big-endian
/// sequence. The two variants occupy non-interfering address spaces because
/// their seed sequences differ.
pub open spec fn claim_seeds_spec(prefix: Option<Seq<u8>>, key: MessageKey) -> Seq<Seq<u8>> {
    let base = seq![
        key.emitter_address@,
        be_bytes(key.emitter_chain as nat, 2),
        be_bytes(key.sequence as nat, 8),
    ];
    match prefix {
        Some(p) => seq![p] + base,
        None => base,
    }
}

/// The claim address and bump a key derives to under a program identity.
pub open spec fn derived_for(
    prefix: Option<Seq<u8>>,
    key: MessageKey,
    program_id: Seq<u8>,
) -> Option<(Seq<u8>, u8)> {
    derived_address(claim_seeds_spec(prefix, key), program_id)
}

/// Builds the derivation seeds of `key` under the chosen namespace variant.
pub fn claim_seeds(prefix: Option<&Vec<u8>>, key: &MessageKey) -> (r: Vec<Vec<u8>>)
    ensures
        r.deep_view() == claim_seeds_spec(prefix_view(prefix), *key),
{
    let mut r: Vec<Vec<u8>> = Vec::new();
    match prefix {
        Some(p) => r.push(p.clone()),
        None => {},
    }
    r.push(vstd::slice::slice_to_vec(key.emitter_address.as_slice()));
    r.push(be_bytes_u16(key.emitter_chain));
    r.push(be_bytes_u64(key.sequence));
    proof {
        assert(r.deep_view() =~~= claim_seeds_spec(prefix_view(prefix), *key));
    }
    r
}

/// Relies on `Pubkey::try_find_program_address` (solana-program, through
/// anchor_lang's prelude): off-chain it is a pure function of the seeds and
/// the program identity — a search over bump candidates through a fixed
/// hash — returning one address and the bump found, or nothing when no bump
/// yields a valid address.
#[verifier::external_body]
pub(crate) fn find_derived_address(seeds: &Vec<Vec<u8>>, program_id: &[u8; 32]) -> (r: Option<
    ([u8; 32], u8),
>)
    ensures
        r matches Some(ab) ==> derived_address(seeds.deep_view(), program_id@) == Some(
            (ab.0@, ab.1),
        ),
        r is None ==> derived_address(seeds.deep_view(), program_id@) is None,
{
    let refs: Vec<&[u8]> = seeds.iter().map(|s| s.as_slice()).collect();
    let pid = anchor_lang::prelude::Pubkey::new_from_array(*program_id);
    anchor_lang::prelude::Pubkey::try_find_program_address(&refs, &pid)
        .map(|(addr, bump)| (addr.to_bytes(), bump))
}

/// The fixed label ("custody_signer") from which the program-controlled
/// escrow authority is derived.
pub open spec fn escrow_authority_seed() -> Seq<u8> {
    seq![
        99u8,
        117u8,
        115u8,
        116u8,
        111u8,
        100u8,
        121u8,
        95u8,
        115u8,
        105u8,
        103u8,
        110u8,
        101u8,
        114u8,
    ]
}

/// The escrow authority a program identity derives to: the capability that
/// authorizes every debit of the escrow, computed from the fixed label alone
/// and requiring no private key.
pub open spec fn escrow_authority_for(program_id: Seq<u8>) -> Option<(Seq<u8>, u8)> {
    derived_address(seq![escrow_authority_seed()], program_id)
}

/// Derives the escrow authority for this program identity. Any module that
/// needs escrow-debit authority recomputes it from the fixed label rather
/// than holding a secret.
pub fn derive_escrow_authority(program_id: &[u8; 32]) -> (r: Option<([u8; 32], u8)>)
    ensures
        r matches Some(ab) ==> escrow_authority_for(program_id@) == Some((ab.0@, ab.1)),
        r is None ==> escrow_authority_for(program_id@) is None,
{
    let label: [u8; 14] = [99, 117, 115, 116, 111, 100, 121, 95, 115, 105, 103, 110, 101, 114];
    let mut seeds: Vec<Vec<u8>> = Vec::new();
    seeds.push(vstd::slice::slice_to_vec(label.as_slice()));
    proof {
        assert(label@ =~= escrow_authority_seed());
        assert(seeds.deep_view() =~~= seq![escrow_authority_seed()]);
    }
    find_derived_address(&seeds, program_id)
}

} // verus!
