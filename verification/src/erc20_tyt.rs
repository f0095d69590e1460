//! The ERC-20 transfer record: a second, fixed-width instance of the wire
//! codec — two 32-byte fields, a 128-bit value and a 32-bit timestamp, all
//! big-endian, in that order.

use vstd::prelude::*;
use crate::bytes_be::{
    be4,
    be16,
    u32_from_be,
    u128_from_be,
    lemma_be4_roundtrip,
    lemma_be16_roundtrip,
    push_be4,
    push_be16,
    push_bytes,
    copy_range,
    read_u32_be,
    read_u128_be,
};
use crate::message::DecodeError;

verus! {

/// Total width of an encoded transfer record.
pub const TYT_WIDTH: usize = 84;

/// A raw transfer event as an ERC-20 contract emits it.
pub struct TransferEvent {
    /// Sending address, 20 bytes.
    pub from: Vec<u8>,
    /// Receiving address, 20 bytes.
    pub to: Vec<u8>,
    /// Amount transferred.
    pub value: u128,
}

/// A transfer event in the form the log stream delivers it.
pub type TransferEventLog = TransferEvent;

/// The mathematical image of a transfer record.
pub ghost struct Erc20TytView {
    pub from: Seq<u8>,
    pub to: Seq<u8>,
    pub value: u128,
    pub tx_timestamp: u32,
}

impl Erc20TytView {
    /// Both hash-widened addresses have their full wire width.
    pub open spec fn wf(self) -> bool {
        self.from.len() == 32 && self.to.len() == 32
    }
}

/// The wire encoding of a transfer record.
pub open spec fn tyt_encode_spec(v: Erc20TytView) -> Seq<u8> {
    v.from + v.to + be16(v.value) + be4(v.tx_timestamp)
}

/// The transfer record read back from its wire encoding.
pub open spec fn tyt_decode_spec(s: Seq<u8>) -> Erc20TytView
    recommends
        s.len() >= TYT_WIDTH,
{
    Erc20TytView {
        from: s.subrange(0, 32),
        to: s.subrange(32, 64),
        value: u128_from_be(s.subrange(64, 80)),
        tx_timestamp: u32_from_be(s.subrange(80, 84)),
    }
}

/// Round trip: decoding the encoding of any well-formed transfer record
/// yields the record back.
pub proof fn lemma_tyt_decode_encode(v: Erc20TytView)
    requires
        v.wf(),
    ensures
        tyt_decode_spec(tyt_encode_spec(v)) == v,
{
    let s = tyt_encode_spec(v);
    assert(s.subrange(0, 32) =~= v.from);
    assert(s.subrange(32, 64) =~= v.to);
    assert(s.subrange(64, 80) =~= be16(v.value));
    assert(s.subrange(80, 84) =~= be4(v.tx_timestamp));
    lemma_be16_roundtrip(v.value);
    lemma_be4_roundtrip(v.tx_timestamp);
}

/// An ERC-20 transfer, timestamped, with both addresses widened to 32 bytes.
pub struct Erc20Tyt {
    /// Sending address widened to 32 bytes.
    pub from: Vec<u8>,
    /// Receiving address widened to 32 bytes.
    pub to: Vec<u8>,
    /// Amount transferred.
    pub value: u128,
    /// Timestamp of the transaction; doubles as the record's sequence.
    pub tx_timestamp: u32,
}

impl View for Erc20Tyt {
    type V = Erc20TytView;

    open spec fn view(&self) -> Erc20TytView {
        Erc20TytView {
            from: self.from@,
            to: self.to@,
            value: self.value,
            tx_timestamp: self.tx_timestamp,
        }
    }
}

impl Erc20Tyt {
    /// The record's transaction timestamp.
    pub fn tx_timestamp(&self) -> (r: u32)
        ensures
            r == self.tx_timestamp,
    {
        self.tx_timestamp
    }

    /// The record's position in the stream it was observed in.
    pub fn sequence(&self) -> (r: u32)
        ensures
            r == self.tx_timestamp,
    {
        self.tx_timestamp
    }

    /// Builds a transfer record from its plain values.
    pub fn build(from: Vec<u8>, to: Vec<u8>, value: u128, nonce: u32) -> (r: Self)
        ensures
            r@ == (Erc20TytView { from: from@, to: to@, value, tx_timestamp: nonce }),
    {
        Self { from, to, value, tx_timestamp: nonce }
    }

    /// The wire encoding of this record.
    pub fn encode(&self) -> (r: Vec<u8>)
        requires
            self@.wf(),
        ensures
            r@ == tyt_encode_spec(self@),
            r@.len() == TYT_WIDTH,
    {
        let mut out: Vec<u8> = Vec::new();
        push_bytes(&mut out, &self.from);
        push_bytes(&mut out, &self.to);
        push_be16(&mut out, self.value);
        push_be4(&mut out, self.tx_timestamp);
        proof {
            assert(out@ =~= tyt_encode_spec(self@));
        }
        out
    }

    /// Decodes a wire encoding. Succeeds exactly on inputs long enough for
    /// all four fixed-width fields; trailing bytes are left untouched.
    pub fn decode(buf: &Vec<u8>) -> (r: Result<Self, DecodeError>)
        ensures
            buf@.len() >= TYT_WIDTH <==> r is Ok,
            r matches Ok(t) ==> t@ == tyt_decode_spec(buf@) && t@.wf(),
            r matches Err(e) ==> e == DecodeError::TruncatedInput,
    {
        if buf.len() < TYT_WIDTH {
            return Err(DecodeError::TruncatedInput);
        }
        let from = copy_range(buf, 0, 32);
        let to = copy_range(buf, 32, 64);
        let value = read_u128_be(buf, 64);
        let tx_timestamp = read_u32_be(buf, 80);
        Ok(Self { from, to, value, tx_timestamp })
    }
}

} // verus!
