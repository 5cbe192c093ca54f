//! The replay guard: write-once storage as a distributed at-most-once guard.
//!
//! A claim is a one-byte storage cell whose address is derived
//! deterministically from the message key (and an optional namespace
//! prefix). Creating the cell is the authorization to proceed; an occupied
//! address means the message was settled before. The store models the host
//! ledger's cells with an atomic insert-if-absent; its cells are never
//! deleted and never mutated again.

use vstd::prelude::*;
use crate::bytes::arrays_equal;
use crate::derivation::{claim_seeds, derived_for, find_derived_address, prefix_view};
use crate::errors::SettlementError;
use crate::messages::MessageKey;

verus! {

/// One write-once claim cell: the derived address and the stored bump
/// disambiguator (kept for reference, not for correctness).
#[derive(Debug)]
pub struct ClaimCell {
    pub address: [u8; 32],
    pub bump: u8,
}

/// The claim cells the ledger holds, in order of creation.
#[derive(Debug)]
pub struct ClaimStore {
    pub cells: Vec<ClaimCell>,
}

/// Authorization to go on with a settlement, with everything the
/// account-creation collaborator needs: the derived address, the bump byte
/// the one-byte cell stores, and the payer funding the cell.
#[derive(Debug)]
pub struct GuardHandle {
    pub claim_address: [u8; 32],
    pub bump: u8,
    pub payer: [u8; 32],
}

/// The mathematical content of a store: its cells as (address, bump) pairs.
pub open spec fn store_contents(s: &ClaimStore) -> Seq<(Seq<u8>, u8)> {
    s.cells@.map(|i: int, c: ClaimCell| (c.address@, c.bump))
}

/// Whether some cell occupies `addr`.
pub open spec fn contains_addr(cells: Seq<(Seq<u8>, u8)>, addr: Seq<u8>) -> bool {
    exists|i: int| 0 <= i < cells.len() && cells[i].0 == addr
}

/// Whether `addr` is occupied in the store.
pub open spec fn occupied(s: &ClaimStore, addr: Seq<u8>) -> bool {
    contains_addr(store_contents(s), addr)
}

/// An acquire attempt succeeds: the supplied address is the derived one and
/// it is still free.
pub open spec fn acquire_ok(
    cells: Seq<(Seq<u8>, u8)>,
    supplied: Seq<u8>,
    prefix: Option<Seq<u8>>,
    key: MessageKey,
    program_id: Seq<u8>,
) -> bool {
    match derived_for(prefix, key, program_id) {
        Some(ab) => ab.0 == supplied && !contains_addr(cells, ab.0),
        None => false,
    }
}

/// An acquire attempt fails on the explicit precondition check: the supplied
/// address is not the derived one (or nothing is derivable).
pub open spec fn acquire_mismatch(
    supplied: Seq<u8>,
    prefix: Option<Seq<u8>>,
    key: MessageKey,
    program_id: Seq<u8>,
) -> bool {
    match derived_for(prefix, key, program_id) {
        Some(ab) => ab.0 != supplied,
        None => true,
    }
}

/// An acquire attempt finds the derived address already occupied: the
/// message was settled before.
pub open spec fn acquire_claimed(
    cells: Seq<(Seq<u8>, u8)>,
    supplied: Seq<u8>,
    prefix: Option<Seq<u8>>,
    key: MessageKey,
    program_id: Seq<u8>,
) -> bool {
    match derived_for(prefix, key, program_id) {
        Some(ab) => ab.0 == supplied && contains_addr(cells, ab.0),
        None => false,
    }
}

/// The store a successful acquire leaves: the derived cell appended.
pub open spec fn acquire_next(
    cells: Seq<(Seq<u8>, u8)>,
    prefix: Option<Seq<u8>>,
    key: MessageKey,
    program_id: Seq<u8>,
) -> Seq<(Seq<u8>, u8)> {
    cells.push(derived_for(prefix, key, program_id)->Some_0)
}

impl ClaimStore {
    /// An empty ledger: no message settled yet.
    pub fn new() -> (r: ClaimStore)
        ensures
            store_contents(&r) == Seq::<(Seq<u8>, u8)>::empty(),
    {
        let r = ClaimStore { cells: Vec::new() };
        proof {
            assert(store_contents(&r) =~= Seq::<(Seq<u8>, u8)>::empty());
        }
        r
    }

    /// Whether `addr` is occupied.
    pub fn contains(&self, addr: &[u8; 32]) -> (r: bool)
        ensures
            r <==> occupied(self, addr@),
    {
        let mut i: usize = 0;
        while i < self.cells.len()
            invariant
                0 <= i <= self.cells@.len(),
                forall|k: int| 0 <= k < i ==> store_contents(self)[k].0 != addr@,
            decreases self.cells@.len() - i,
        {
            if arrays_equal(&self.cells[i].address, addr) {
                proof {
                    assert(store_contents(self)[i as int].0 == addr@);
                }
                return true;
            }
            i = i + 1;
        }
        false
    }
}

/// Derives the claim address for `key` under the chosen namespace variant,
/// checks that the caller supplied exactly that address, and occupies it if
/// it is still free. Success is the one authorization to settle the message;
/// it can happen at most once per (key, namespace) for the lifetime of the
/// store. When nothing is derivable from the seeds, the supplied address
/// cannot match and the attempt fails as a mismatch.
pub fn acquire(
    store: &mut ClaimStore,
    supplied: &[u8; 32],
    prefix: Option<&Vec<u8>>,
    key: &MessageKey,
    program_id: &[u8; 32],
    payer: &[u8; 32],
) -> (r: Result<GuardHandle, SettlementError>)
    ensures
        r is Ok <==> acquire_ok(
            store_contents(old(store)),
            supplied@,
            prefix_view(prefix),
            *key,
            program_id@,
        ),
        r matches Ok(h) ==> {
            &&& store_contents(final(store)) == acquire_next(
                store_contents(old(store)),
                prefix_view(prefix),
                *key,
                program_id@,
            )
            &&& Some((h.claim_address@, h.bump)) == derived_for(
                prefix_view(prefix),
                *key,
                program_id@,
            )
            &&& h.claim_address@ == supplied@
            &&& h.payer == *payer
            &&& occupied(final(store), h.claim_address@)
        },
        r is Err ==> store_contents(final(store)) == store_contents(old(store)),
        r == Result::<GuardHandle, SettlementError>::Err(SettlementError::AddressMismatch)
            <==> acquire_mismatch(supplied@, prefix_view(prefix), *key, program_id@),
        r == Result::<GuardHandle, SettlementError>::Err(SettlementError::AlreadyClaimed)
            <==> acquire_claimed(
            store_contents(old(store)),
            supplied@,
            prefix_view(prefix),
            *key,
            program_id@,
        ),
{
    let seeds = claim_seeds(prefix, key);
    match find_derived_address(&seeds, program_id) {
        None => Err(SettlementError::AddressMismatch),
        Some((address, bump)) => {
            if !arrays_equal(supplied, &address) {
                return Err(SettlementError::AddressMismatch);
            }
            if store.contains(&address) {
                return Err(SettlementError::AlreadyClaimed);
            }
            let ghost before = store_contents(store);
            store.cells.push(ClaimCell { address, bump });
            proof {
                assert(store_contents(store) =~= before.push((address@, bump)));
                assert(store_contents(store)[before.len() as int].0 == address@);
            }
            Ok(GuardHandle { claim_address: address, bump, payer: *payer })
        },
    }
}

/// At-most-once: a successful acquire occupies the derived claim address, and
/// on the store it leaves, no acquire for the same key and namespace can
/// succeed again — whatever address a later caller supplies, the attempt ends
/// in `AlreadyClaimed` (or in `AddressMismatch`, for a wrong address).
pub proof fn lemma_at_most_once(
    cells: Seq<(Seq<u8>, u8)>,
    supplied: Seq<u8>,
    later: Seq<u8>,
    prefix: Option<Seq<u8>>,
    key: MessageKey,
    program_id: Seq<u8>,
)
    requires
        acquire_ok(cells, supplied, prefix, key, program_id),
    ensures
        !acquire_ok(acquire_next(cells, prefix, key, program_id), later, prefix, key, program_id),
        acquire_claimed(acquire_next(cells, prefix, key, program_id), supplied, prefix, key,
            program_id),
{
    let next = acquire_next(cells, prefix, key, program_id);
    let ab = derived_for(prefix, key, program_id)->Some_0;
    assert(next[cells.len() as int].0 == ab.0);
}

/// How many of `n` successive acquire attempts with the same arguments
/// succeed, each attempt running on the store the previous one left (a
/// failed attempt leaves the store as it was).
pub open spec fn successes(
    cells: Seq<(Seq<u8>, u8)>,
    supplied: Seq<u8>,
    prefix: Option<Seq<u8>>,
    key: MessageKey,
    program_id: Seq<u8>,
    n: nat,
) -> nat
    decreases n,
{
    if n == 0 {
        0
    } else if acquire_ok(cells, supplied, prefix, key, program_id) {
        1 + successes(
            acquire_next(cells, prefix, key, program_id),
            supplied,
            prefix,
            key,
            program_id,
            (n - 1) as nat,
        )
    } else {
        successes(cells, supplied, prefix, key, program_id, (n - 1) as nat)
    }
}

/// How many of those attempts find the address already claimed.
pub open spec fn already_claimed_count(
    cells: Seq<(Seq<u8>, u8)>,
    supplied: Seq<u8>,
    prefix: Option<Seq<u8>>,
    key: MessageKey,
    program_id: Seq<u8>,
    n: nat,
) -> nat
    decreases n,
{
    if n == 0 {
        0
    } else if acquire_ok(cells, supplied, prefix, key, program_id) {
        already_claimed_count(
            acquire_next(cells, prefix, key, program_id),
            supplied,
            prefix,
            key,
            program_id,
            (n - 1) as nat,
        )
    } else {
        (if acquire_claimed(cells, supplied, prefix, key, program_id) {
            1nat
        } else {
            0nat
        }) + already_claimed_count(cells, supplied, prefix, key, program_id, (n - 1) as nat)
    }
}

/// Once the derived address is claimed, every one of `n` further attempts
/// with the same arguments fails with `AlreadyClaimed`.
proof fn lemma_all_attempts_claimed(
    cells: Seq<(Seq<u8>, u8)>,
    supplied: Seq<u8>,
    prefix: Option<Seq<u8>>,
    key: MessageKey,
    program_id: Seq<u8>,
    n: nat,
)
    requires
        acquire_claimed(cells, supplied, prefix, key, program_id),
    ensures
        successes(cells, supplied, prefix, key, program_id, n) == 0,
        already_claimed_count(cells, supplied, prefix, key, program_id, n) == n,
    decreases n,
{
    if n > 0 {
        lemma_all_attempts_claimed(cells, supplied, prefix, key, program_id, (n - 1) as nat);
    }
}

/// At-most-once over any number of attempts: settling the same message `n`
/// times in a row, with the correct derived address supplied and the address
/// initially free, succeeds exactly once — the other `n - 1` attempts all
/// fail with `AlreadyClaimed`.
pub proof fn lemma_exactly_one_success(
    cells: Seq<(Seq<u8>, u8)>,
    supplied: Seq<u8>,
    prefix: Option<Seq<u8>>,
    key: MessageKey,
    program_id: Seq<u8>,
    n: nat,
)
    requires
        acquire_ok(cells, supplied, prefix, key, program_id),
        n >= 1,
    ensures
        successes(cells, supplied, prefix, key, program_id, n) == 1,
        already_claimed_count(cells, supplied, prefix, key, program_id, n) == n - 1,
{
    let next = acquire_next(cells, prefix, key, program_id);
    lemma_at_most_once(cells, supplied, supplied, prefix, key, program_id);
    lemma_all_attempts_claimed(next, supplied, prefix, key, program_id, (n - 1) as nat);
}

/// Occupancy is permanent: a cell an acquire created stays through every
/// later successful acquire, whatever its key or namespace.
pub proof fn lemma_occupancy_persists(
    cells: Seq<(Seq<u8>, u8)>,
    prefix: Option<Seq<u8>>,
    key: MessageKey,
    program_id: Seq<u8>,
    addr: Seq<u8>,
)
    requires
        contains_addr(cells, addr),
    ensures
        contains_addr(acquire_next(cells, prefix, key, program_id), addr),
{
    let i = choose|i: int| 0 <= i < cells.len() && cells[i].0 == addr;
    assert(acquire_next(cells, prefix, key, program_id)[i].0 == addr);
}

} // verus!
