//! The attestation's identity and its transfer record.
//!
//! The message reaching this core is already authenticated upstream; the core
//! only interprets field values. Its identity is the globally unique triple
//! (emitter address, emitter chain, sequence); its payload is a fixed-layout
//! transfer record whose fields the spec functions below read off the raw
//! bytes, so every contract can speak about the wire content directly.

use vstd::prelude::*;
use crate::bytes::be_value;

verus! {

/// The globally unique identity of an attested message: `sequence` is
/// assigned monotonically per (chain, address) pair on the origin side.
#[derive(Clone, Copy, Debug)]
pub struct MessageKey {
    pub emitter_address: [u8; 32],
    pub emitter_chain: u16,
    pub sequence: u64,
}

/// The parsed view of a transfer record: plain field values read off the
/// payload bytes.
#[derive(Clone, Copy, Debug)]
pub struct RawTransfer {
    /// Normalized amount, 32-byte big-endian.
    pub amount: [u8; 32],
    /// Chain-agnostic encoding of the asset.
    pub token_address: [u8; 32],
    /// Chain the asset is native to.
    pub token_chain: u16,
    /// Destination account for the settled amount.
    pub recipient: [u8; 32],
    /// Chain the recipient lives on.
    pub recipient_chain: u16,
    /// Normalized relayer incentive, 32-byte big-endian.
    pub relayer_fee: [u8; 32],
}

/// Whether `p` is a well-formed transfer payload: the transfer tag followed
/// by the 132-byte record.
pub open spec fn is_transfer_payload(p: Seq<u8>) -> bool {
    p.len() >= 133 && p[0] == 1
}

/// The normalized amount encoded in a transfer payload.
pub open spec fn spec_amount(p: Seq<u8>) -> nat {
    be_value(p.subrange(1, 33))
}

/// The asset identity encoded in a transfer payload.
pub open spec fn spec_token_address(p: Seq<u8>) -> Seq<u8> {
    p.subrange(33, 65)
}

/// The chain the asset is native to, per the transfer payload.
pub open spec fn spec_token_chain(p: Seq<u8>) -> nat {
    be_value(p.subrange(65, 67))
}

/// The recipient encoded in a transfer payload.
pub open spec fn spec_recipient(p: Seq<u8>) -> Seq<u8> {
    p.subrange(67, 99)
}

/// The normalized relayer fee encoded in a transfer payload.
pub open spec fn spec_relayer_fee(p: Seq<u8>) -> nat {
    be_value(p.subrange(101, 133))
}

/// Relies on `wormhole_raw_vaas::token_bridge::TokenBridgeMessage::parse`
/// and the accessors of its `Transfer` variant: a payload parses as a
/// transfer exactly when it opens with tag 1 followed by at least 132 bytes,
/// and the accessors read the fixed-offset fields (the two chain fields as
/// big-endian 16-bit integers).
#[verifier::external_body]
pub(crate) fn parse_transfer_payload(payload: &[u8]) -> (r: Option<RawTransfer>)
    ensures
        r is Some <==> is_transfer_payload(payload@),
        r matches Some(t) ==> {
            &&& t.amount@ == payload@.subrange(1, 33)
            &&& t.token_address@ == spec_token_address(payload@)
            &&& t.token_chain == spec_token_chain(payload@)
            &&& t.recipient@ == spec_recipient(payload@)
            &&& t.recipient_chain == be_value(payload@.subrange(99, 101))
            &&& t.relayer_fee@ == payload@.subrange(101, 133)
        },
{
    match wormhole_raw_vaas::token_bridge::TokenBridgeMessage::parse(payload) {
        Ok(wormhole_raw_vaas::token_bridge::TokenBridgeMessage::Transfer(t)) => Some(RawTransfer {
            amount: t.amount(),
            token_address: t.token_address(),
            token_chain: t.token_chain(),
            recipient: t.recipient(),
            recipient_chain: t.recipient_chain(),
            relayer_fee: t.relayer_fee(),
        }),
        _ => None,
    }
}

} // verus!
