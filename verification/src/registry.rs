//! The registered-emitter lookup: a trusted key-value table authorizing which
//! (chain, emitter address) pairs are recognized bridge counterparts. A chain
//! may carry several registered addresses; management of the table is outside
//! this core.

use vstd::prelude::*;
use crate::bytes::arrays_equal;

verus! {

/// One recognized bridge counterpart.
pub struct RegisteredEmitter {
    pub chain: u16,
    pub address: [u8; 32],
}

/// The registered emitters, in order of registration.
pub struct EmitterRegistry {
    pub entries: Vec<RegisteredEmitter>,
}

/// The mathematical content of a registry: (chain, address) pairs.
pub open spec fn registry_contents(r: &EmitterRegistry) -> Seq<(u16, Seq<u8>)> {
    r.entries@.map(|i: int, e: RegisteredEmitter| (e.chain, e.address@))
}

/// Whether the pair (chain, address) is registered.
pub open spec fn registered(entries: Seq<(u16, Seq<u8>)>, chain: u16, address: Seq<u8>) -> bool {
    exists|i: int| 0 <= i < entries.len() && entries[i] == (chain, address)
}

impl EmitterRegistry {
    /// An empty registry: no counterpart recognized.
    pub fn new() -> (r: EmitterRegistry)
        ensures
            registry_contents(&r) == Seq::<(u16, Seq<u8>)>::empty(),
    {
        let r = EmitterRegistry { entries: Vec::new() };
        proof {
            assert(registry_contents(&r) =~= Seq::<(u16, Seq<u8>)>::empty());
        }
        r
    }

    /// Recognizes one more (chain, address) pair.
    pub fn register(&mut self, chain: u16, address: [u8; 32])
        ensures
            registry_contents(final(self)) == registry_contents(old(self)).push(
                (chain, address@),
            ),
    {
        let ghost before = registry_contents(self);
        self.entries.push(RegisteredEmitter { chain, address });
        proof {
            assert(registry_contents(self) =~= before.push((chain, address@)));
        }
    }

    /// Whether the pair (chain, address) is registered.
    pub fn is_registered(&self, chain: u16, address: &[u8; 32]) -> (r: bool)
        ensures
            r <==> registered(registry_contents(self), chain, address@),
    {
        let mut i: usize = 0;
        while i < self.entries.len()
            invariant
                0 <= i <= self.entries@.len(),
                forall|k: int| 0 <= k < i ==> registry_contents(self)[k] != (chain, address@),
            decreases self.entries@.len() - i,
        {
            if self.entries[i].chain == chain && arrays_equal(&self.entries[i].address, address) {
                proof {
                    assert(registry_contents(self)[i as int] == (chain, address@));
                }
                return true;
            }
            i = i + 1;
        }
        false
    }
}

} // verus!
