//! The omni-chain message: canonical wire encoding, decoding, and the
//! content-addressed identifier used as Merkle leaf and deduplication key.
//!
//! Wire layout, all integers big-endian, fixed-width fields first and the one
//! variable-length field last with no length prefix:
//! earliest timestamp (8) | latest timestamp (8) | relayer (20) |
//! destination (8) | origin (8) | nonce (4) | source tx hash (32) |
//! sender (20) | value (32) | message body (rest).

use vstd::prelude::*;
use crate::bytes_be::{
    be4,
    be8,
    u32_from_be,
    u64_from_be,
    lemma_be4_roundtrip,
    lemma_be8_roundtrip,
    push_be4,
    push_be8,
    push_bytes,
    copy_range,
    read_u32_be,
    read_u64_be,
    zero_bytes,
};
use crate::hash::{keccak_of, keccak256};

verus! {

/// Total width of the fixed-width prefix of the wire encoding.
pub const FIXED_WIDTH: usize = 140;

/// Why a byte string could not be decoded into a message.
#[derive(Debug, Clone, Copy, PartialEq, Eq, Structural)]
pub enum DecodeError {
    /// A fixed-width field ended before its full width was read.
    TruncatedInput,
}

/// The mathematical image of a message: every field as a plain value.
pub ghost struct MessageView {
    pub earlistarrivaltimestamp: u64,
    pub latestarrivaltimestamp: u64,
    pub relayer: Seq<u8>,
    pub destination: u64,
    pub origin: u64,
    pub nonce: u32,
    pub srctxhash: Seq<u8>,
    pub sender: Seq<u8>,
    pub value: Seq<u8>,
    pub message: Seq<u8>,
}

impl MessageView {
    /// Each fixed-width byte field has exactly its wire width.
    pub open spec fn wf(self) -> bool {
        &&& self.relayer.len() == 20
        &&& self.srctxhash.len() == 32
        &&& self.sender.len() == 20
        &&& self.value.len() == 32
    }
}

/// The canonical wire encoding of a message.
pub open spec fn encode_spec(v: MessageView) -> Seq<u8> {
    be8(v.earlistarrivaltimestamp) + be8(v.latestarrivaltimestamp) + v.relayer + be8(v.destination)
        + be8(v.origin) + be4(v.nonce) + v.srctxhash + v.sender + v.value + v.message
}

/// The message read back from an encoded byte string: fixed-width fields at
/// their fixed offsets, all remaining bytes as the message body.
pub open spec fn decode_spec(s: Seq<u8>) -> MessageView
    recommends
        s.len() >= FIXED_WIDTH,
{
    MessageView {
        earlistarrivaltimestamp: u64_from_be(s.subrange(0, 8)),
        latestarrivaltimestamp: u64_from_be(s.subrange(8, 16)),
        relayer: s.subrange(16, 36),
        destination: u64_from_be(s.subrange(36, 44)),
        origin: u64_from_be(s.subrange(44, 52)),
        nonce: u32_from_be(s.subrange(52, 56)),
        srctxhash: s.subrange(56, 88),
        sender: s.subrange(88, 108),
        value: s.subrange(108, 140),
        message: s.subrange(140, s.len() as int),
    }
}

/// The identity payload: the field subset, in canonical order, whose digest
/// is the message identifier. Routing metadata (timestamps, relayer,
/// destination) is deliberately not part of it.
pub open spec fn id_payload(v: MessageView) -> Seq<u8> {
    be8(v.origin) + be4(v.nonce) + v.srctxhash + v.sender + v.value + v.message
}

/// The content-addressed identifier of a message: the Keccak-256 digest of
/// its identity payload.
pub open spec fn id_spec(v: MessageView) -> Seq<u8> {
    keccak_of(id_payload(v))
}

/// Round trip: decoding the canonical encoding of any well-formed message
/// yields that message back, field for field.
pub proof fn lemma_decode_encode(v: MessageView)
    requires
        v.wf(),
    ensures
        decode_spec(encode_spec(v)) == v,
{
    let s = encode_spec(v);
    assert(s.len() == 140 + v.message.len());
    assert(s.subrange(0, 8) =~= be8(v.earlistarrivaltimestamp));
    assert(s.subrange(8, 16) =~= be8(v.latestarrivaltimestamp));
    assert(s.subrange(16, 36) =~= v.relayer);
    assert(s.subrange(36, 44) =~= be8(v.destination));
    assert(s.subrange(44, 52) =~= be8(v.origin));
    assert(s.subrange(52, 56) =~= be4(v.nonce));
    assert(s.subrange(56, 88) =~= v.srctxhash);
    assert(s.subrange(88, 108) =~= v.sender);
    assert(s.subrange(108, 140) =~= v.value);
    assert(s.subrange(140, s.len() as int) =~= v.message);
    lemma_be8_roundtrip(v.earlistarrivaltimestamp);
    lemma_be8_roundtrip(v.latestarrivaltimestamp);
    lemma_be8_roundtrip(v.destination);
    lemma_be8_roundtrip(v.origin);
    lemma_be4_roundtrip(v.nonce);
}

/// Identity stability: the identifier is a function of the identity-relevant
/// fields alone, so two messages that agree on them — however and wherever
/// each was constructed, and whatever their routing metadata says — have the
/// same identity payload and hence the same identifier.
pub proof fn lemma_id_identity(a: MessageView, b: MessageView)
    requires
        a.origin == b.origin,
        a.nonce == b.nonce,
        a.srctxhash == b.srctxhash,
        a.sender == b.sender,
        a.value == b.value,
        a.message == b.message,
    ensures
        id_payload(a) == id_payload(b),
        id_spec(a) == id_spec(b),
{
}

/// Omni-chain message.
pub struct VizingMessage {
    /// Earliest arrival timestamp.
    pub earlistarrivaltimestamp: u64,
    /// Latest arrival timestamp.
    pub latestarrivaltimestamp: u64,
    /// Relayer address, 20 bytes.
    pub relayer: Vec<u8>,
    /// Destination chain id.
    pub destination: u64,
    /// Source chain id.
    pub origin: u64,
    /// User nonce.
    pub nonce: u32,
    /// Source transaction hash, 32 bytes.
    pub srctxhash: Vec<u8>,
    /// Sender address, 20 bytes.
    pub sender: Vec<u8>,
    /// Value from the sender, a 256-bit integer as 32 big-endian bytes.
    pub value: Vec<u8>,
    /// Message contents.
    pub message: Vec<u8>,
}

impl View for VizingMessage {
    type V = MessageView;

    open spec fn view(&self) -> MessageView {
        MessageView {
            earlistarrivaltimestamp: self.earlistarrivaltimestamp,
            latestarrivaltimestamp: self.latestarrivaltimestamp,
            relayer: self.relayer@,
            destination: self.destination,
            origin: self.origin,
            nonce: self.nonce,
            srctxhash: self.srctxhash@,
            sender: self.sender@,
            value: self.value@,
            message: self.message@,
        }
    }
}

impl VizingMessage {
    /// Builds a message from the plain values of a decoded event log.
    pub fn build(
        earlistarrivaltimestamp: u64,
        latestarrivaltimestamp: u64,
        relayer: Vec<u8>,
        destination: u64,
        origin: u64,
        nonce: u32,
        srctxhash: Vec<u8>,
        sender: Vec<u8>,
        value: Vec<u8>,
        message: Vec<u8>,
    ) -> (r: Self)
        ensures
            r@ == (MessageView {
                earlistarrivaltimestamp,
                latestarrivaltimestamp,
                relayer: relayer@,
                destination,
                origin,
                nonce,
                srctxhash: srctxhash@,
                sender: sender@,
                value: value@,
                message: message@,
            }),
    {
        Self {
            earlistarrivaltimestamp,
            latestarrivaltimestamp,
            relayer,
            destination,
            origin,
            nonce,
            srctxhash,
            sender,
            value,
            message,
        }
    }

    /// The position of this message in its source domain's nonce sequence.
    pub fn sequence(&self) -> (r: u32)
        ensures
            r == self.nonce,
    {
        self.nonce
    }

    /// The canonical wire encoding of this message.
    pub fn encode(&self) -> (r: Vec<u8>)
        requires
            self@.wf(),
        ensures
            r@ == encode_spec(self@),
            r@.len() == FIXED_WIDTH + self@.message.len(),
    {
        let mut out: Vec<u8> = Vec::new();
        push_be8(&mut out, self.earlistarrivaltimestamp);
        push_be8(&mut out, self.latestarrivaltimestamp);
        push_bytes(&mut out, &self.relayer);
        push_be8(&mut out, self.destination);
        push_be8(&mut out, self.origin);
        push_be4(&mut out, self.nonce);
        push_bytes(&mut out, &self.srctxhash);
        push_bytes(&mut out, &self.sender);
        push_bytes(&mut out, &self.value);
        push_bytes(&mut out, &self.message);
        proof {
            assert(out@ =~= encode_spec(self@));
        }
        out
    }

    /// Decodes a wire encoding. Succeeds exactly on inputs long enough for
    /// every fixed-width field; all remaining bytes become the message body.
    pub fn decode(buf: &Vec<u8>) -> (r: Result<Self, DecodeError>)
        ensures
            buf@.len() >= FIXED_WIDTH <==> r is Ok,
            r matches Ok(m) ==> m@ == decode_spec(buf@) && m@.wf(),
            r matches Err(e) ==> e == DecodeError::TruncatedInput,
    {
        if buf.len() < FIXED_WIDTH {
            return Err(DecodeError::TruncatedInput);
        }
        let n: usize = buf.len();
        let earlistarrivaltimestamp = read_u64_be(buf, 0);
        let latestarrivaltimestamp = read_u64_be(buf, 8);
        let relayer = copy_range(buf, 16, 36);
        let destination = read_u64_be(buf, 36);
        let origin = read_u64_be(buf, 44);
        let nonce = read_u32_be(buf, 52);
        let srctxhash = copy_range(buf, 56, 88);
        let sender = copy_range(buf, 88, 108);
        let value = copy_range(buf, 108, 140);
        let message = copy_range(buf, 140, n);
        Ok(Self {
            earlistarrivaltimestamp,
            latestarrivaltimestamp,
            relayer,
            destination,
            origin,
            nonce,
            srctxhash,
            sender,
            value,
            message,
        })
    }

    /// The message identifier: the Keccak-256 digest of the identity payload.
    pub fn id(&self) -> (r: Vec<u8>)
        ensures
            r@ == id_spec(self@),
            r@.len() == 32,
    {
        let mut encoded: Vec<u8> = Vec::new();
        push_be8(&mut encoded, self.origin);
        push_be4(&mut encoded, self.nonce);
        push_bytes(&mut encoded, &self.srctxhash);
        push_bytes(&mut encoded, &self.sender);
        push_bytes(&mut encoded, &self.value);
        push_bytes(&mut encoded, &self.message);
        proof {
            assert(encoded@ =~= id_payload(self@));
        }
        keccak256(&encoded)
    }
}

impl Default for VizingMessage {
    /// The all-zero message: zero integers, zero-filled addresses and hashes,
    /// an empty body.
    fn default() -> (r: Self)
        ensures
            r@ == (MessageView {
                earlistarrivaltimestamp: 0,
                latestarrivaltimestamp: 0,
                relayer: Seq::new(20, |i: int| 0u8),
                destination: 0,
                origin: 0,
                nonce: 0,
                srctxhash: Seq::new(32, |i: int| 0u8),
                sender: Seq::new(20, |i: int| 0u8),
                value: Seq::new(32, |i: int| 0u8),
                message: Seq::<u8>::empty(),
            }),
            r@.wf(),
    {
        let r = Self {
            earlistarrivaltimestamp: 0,
            latestarrivaltimestamp: 0,
            relayer: zero_bytes(20),
            destination: 0,
            origin: 0,
            nonce: 0,
            srctxhash: zero_bytes(32),
            sender: zero_bytes(20),
            value: zero_bytes(32),
            message: Vec::new(),
        };
        proof {
            assert(r@.message =~= Seq::<u8>::empty());
        }
        r
    }
}

/// Landing data handed to the destination chain for one aggregated batch.
pub struct VizingLandingData {
    /// Merkle root of the message tree, 32 bytes.
    pub mpt_root_new: Vec<u8>,
    /// Earliest arrival timestamp over the batch.
    pub aggregated_earlist_arrival_timestamp: u64,
    /// Latest arrival timestamp over the batch.
    pub aggregated_latest_arrival_timestamp: u64,
    /// Per-message landing parameters.
    pub params: Vec<VizingLandingDataParams>,
}

/// Landing parameters of a single message within a batch.
pub struct VizingLandingDataParams {
    /// Message id, 32 bytes.
    pub message_id: Vec<u8>,
    /// Source chain id.
    pub src_chain_id: u64,
    /// Source chain nonce.
    pub src_chain_nonce: u32,
    /// Source chain tx hash, 32 bytes.
    pub src_tx_hash: Vec<u8>,
    /// Sender address, 20 bytes.
    pub sender: Vec<u8>,
    /// Value of native token, 32 big-endian bytes.
    pub value: Vec<u8>,
    /// Cross chain message contents.
    pub message: Vec<u8>,
}

} // verus!
