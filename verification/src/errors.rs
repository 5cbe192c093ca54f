//! Error taxonomy of the settlement core. Every failure is terminal for the
//! current settlement attempt; none is retried internally.

use vstd::prelude::*;

verus! {

/// The distinct, stable diagnostic codes a settlement attempt can surface.
#[derive(Clone, Copy, Debug, PartialEq, Eq, Structural)]
pub enum SettlementError {
    /// The claim address was already occupied: the message was settled before.
    AlreadyClaimed,
    /// A supplied account address does not equal its derived address (or no
    /// address is derivable): the claim account against the message key's
    /// derivation, or the escrow authority against its fixed label.
    AddressMismatch,
    /// The message's emitter is not registered for its chain.
    UntrustedEmitter,
    /// The payload's encoded recipient does not agree with the recipient
    /// token account supplied for settlement.
    InvalidRecipient,
    /// The message describes a wrapped-asset mint path, not a native transfer.
    WrongSettlementPath,
    /// The encoded token address does not decode to the local asset supplied.
    InvalidMint,
    /// A denormalized amount does not fit the 64-bit native range.
    AmountOverflow,
    /// The value-transfer collaborator failed; propagated by the caller that
    /// executes the transfer plan, never produced by the planning logic.
    TransferFailed,
}

} // verus!
