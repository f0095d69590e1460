//! Indexing of source-chain message events: converting fetched raw logs into
//! messages best-effort, tracking the finalized tip under a reorg period, and
//! the per-domain index cursor.
//!
//! The chain itself is queried outside the library; these functions take the
//! fetched plain values (chain tip, raw event payloads, on-chain sequence
//! counts) and carry out every decision and conversion on them.

use vstd::prelude::*;
use crate::bytes_be::clone_bytes;
use crate::message::{VizingMessage, MessageView, decode_spec, FIXED_WIDTH};

verus! {

/// Provenance of a decoded message: where on the chain its event sat.
pub struct LogMeta {
    /// Block the event was emitted in.
    pub block_number: u64,
    /// Hash of the transaction that emitted it, 32 bytes.
    pub transaction_hash: Vec<u8>,
    /// Index of the log within the block.
    pub log_index: u64,
}

/// The mathematical image of a log's provenance.
pub ghost struct LogMetaView {
    pub block_number: u64,
    pub transaction_hash: Seq<u8>,
    pub log_index: u64,
}

impl View for LogMeta {
    type V = LogMetaView;

    open spec fn view(&self) -> LogMetaView {
        LogMetaView {
            block_number: self.block_number,
            transaction_hash: self.transaction_hash@,
            log_index: self.log_index,
        }
    }
}

impl Clone for LogMeta {
    fn clone(&self) -> (r: Self)
        ensures
            r@ == self@,
    {
        LogMeta {
            block_number: self.block_number,
            transaction_hash: clone_bytes(&self.transaction_hash),
            log_index: self.log_index,
        }
    }
}

/// One fetched event log, still in wire form.
pub struct RawLog {
    /// The event's payload bytes: a wire-encoded message.
    pub data: Vec<u8>,
    /// Where the event sat on the chain.
    pub meta: LogMeta,
}

/// The mathematical image of a raw log.
pub ghost struct RawLogView {
    pub data: Seq<u8>,
    pub meta: LogMetaView,
}

impl View for RawLog {
    type V = RawLogView;

    open spec fn view(&self) -> RawLogView {
        RawLogView { data: self.data@, meta: self.meta@ }
    }
}

/// A decoded message together with its provenance.
pub struct IndexedMessage {
    /// The decoded message.
    pub message: VizingMessage,
    /// Where its event sat on the chain.
    pub meta: LogMeta,
}

/// The mathematical image of an indexed message.
pub ghost struct IndexedMessageView {
    pub message: MessageView,
    pub meta: LogMetaView,
}

impl View for IndexedMessage {
    type V = IndexedMessageView;

    open spec fn view(&self) -> IndexedMessageView {
        IndexedMessageView { message: self.message@, meta: self.meta@ }
    }
}

/// The images of a sequence of raw logs.
pub open spec fn raw_views(s: Seq<RawLog>) -> Seq<RawLogView> {
    Seq::new(s.len(), |i: int| s[i]@)
}

/// The images of a sequence of indexed messages.
pub open spec fn indexed_views(s: Seq<IndexedMessage>) -> Seq<IndexedMessageView> {
    Seq::new(s.len(), |i: int| s[i]@)
}

/// The well-formed entries of a batch of raw logs, decoded, in order.
pub open spec fn decoded_entries(raw: Seq<RawLogView>) -> Seq<IndexedMessageView>
    decreases raw.len(),
{
    if raw.len() == 0 {
        Seq::<IndexedMessageView>::empty()
    } else {
        let rest = decoded_entries(raw.drop_last());
        if raw.last().data.len() >= FIXED_WIDTH {
            rest.push(IndexedMessageView { message: decode_spec(raw.last().data), meta: raw.last().meta })
        } else {
            rest
        }
    }
}

/// The positions of the entries of a batch that are too short to decode.
pub open spec fn failed_entries(raw: Seq<RawLogView>) -> Seq<u64>
    decreases raw.len(),
{
    if raw.len() == 0 {
        Seq::<u64>::empty()
    } else {
        let rest = failed_entries(raw.drop_last());
        if raw.last().data.len() >= FIXED_WIDTH {
            rest
        } else {
            rest.push((raw.len() - 1) as u64)
        }
    }
}

/// Per-source-domain indexing state.
pub struct IndexCursor {
    /// Last block whose logs were fetched, decoded and inserted.
    pub last_indexed_block: u32,
    /// Blocks subtracted from the chain tip before a block counts as final.
    pub reorg_period: u32,
    /// Highest on-chain sequence count observed so far.
    pub last_sequence_count: u32,
}

impl IndexCursor {
    /// A cursor that has indexed nothing past the given start block.
    pub fn new(reorg_period: u32, start_block: u32) -> (r: Self)
        ensures
            r.last_indexed_block == start_block,
            r.reorg_period == reorg_period,
            r.last_sequence_count == 0,
    {
        IndexCursor { last_indexed_block: start_block, reorg_period, last_sequence_count: 0 }
    }

    /// The next inclusive block range to fetch, if the finalized tip has
    /// moved past the cursor; nothing new to index otherwise.
    pub fn next_range(&self, finalized_tip: u32) -> (r: Option<(u32, u32)>)
        ensures
            r == (if finalized_tip > self.last_indexed_block {
                Some(((self.last_indexed_block + 1) as u32, finalized_tip))
            } else {
                Option::<(u32, u32)>::None
            }),
    {
        if finalized_tip > self.last_indexed_block {
            Some((self.last_indexed_block + 1, finalized_tip))
        } else {
            None
        }
    }

    /// Moves the cursor forward, only ever after a fetch and insert cycle
    /// completed; the cursor never moves backwards.
    pub fn advance(&mut self, block: u32, sequence_count: u32)
        requires
            block >= old(self).last_indexed_block,
        ensures
            final(self).last_indexed_block == block,
            final(self).reorg_period == old(self).reorg_period,
            final(self).last_sequence_count == sequence_count,
    {
        self.last_indexed_block = block;
        self.last_sequence_count = sequence_count;
    }
}

/// Indexer of launch-message events of one station contract on one source
/// chain. Chain queries happen outside; every decision on their results is
/// made here.
pub struct VizingLaunchMessageIndexer {
    /// Domain identifier of the indexed source chain.
    pub origin_domain: u64,
    /// Address of the station contract, 20 bytes.
    pub address: Vec<u8>,
    /// Confirmations required before a block is treated as irreversible.
    pub reorg_period: u32,
}

impl VizingLaunchMessageIndexer {
    /// An indexer for the station contract at the given address.
    pub fn new(origin_domain: u64, address: Vec<u8>, reorg_period: u32) -> (r: Self)
        ensures
            r.origin_domain == origin_domain,
            r.address@ == address@,
            r.reorg_period == reorg_period,
    {
        VizingLaunchMessageIndexer { origin_domain, address, reorg_period }
    }

    /// The finalized block at the given chain tip: the tip less the reorg
    /// period, floored at zero. Whenever the tip covers the reorg period, the
    /// result never exceeds the tip minus that period.
    pub fn get_finalized_block_number(&self, chain_tip: u32) -> (r: u32)
        ensures
            r == (if chain_tip >= self.reorg_period {
                (chain_tip - self.reorg_period) as u32
            } else {
                0u32
            }),
            chain_tip >= self.reorg_period ==> r as int <= chain_tip - self.reorg_period,
            r <= chain_tip,
    {
        if chain_tip >= self.reorg_period {
            chain_tip - self.reorg_period
        } else {
            0
        }
    }

    /// Decodes a fetched batch of raw logs, best-effort: well-formed entries
    /// come back as messages with their provenance, in order; the positions
    /// of entries with truncated fixed-width fields are reported separately
    /// and abort nothing else. The result may still hold duplicates — the
    /// accumulator deduplicates by message identifier on insertion.
    pub fn decode_logs(&self, raw: &Vec<RawLog>) -> (r: (Vec<IndexedMessage>, Vec<u64>))
        ensures
            indexed_views(r.0@) == decoded_entries(raw_views(raw@)),
            r.1@ == failed_entries(raw_views(raw@)),
    {
        let ghost all = raw_views(raw@);
        let mut out: Vec<IndexedMessage> = Vec::new();
        let mut failed: Vec<u64> = Vec::new();
        let mut i: usize = 0;
        while i < raw.len()
            invariant
                i <= raw@.len(),
                all == raw_views(raw@),
                indexed_views(out@) == decoded_entries(all.take(i as int)),
                failed@ == failed_entries(all.take(i as int)),
            decreases raw@.len() - i,
        {
            let ghost prefix = all.take(i as int);
            let ghost next = all.take(i as int + 1);
            proof {
                assert(next.drop_last() =~= prefix);
                assert(next.last() == all[i as int]);
            }
            let entry = &raw[i];
            match VizingMessage::decode(&entry.data) {
                Ok(m) => {
                    let ghost out_views = indexed_views(out@);
                    out.push(IndexedMessage { message: m, meta: entry.meta.clone() });
                    proof {
                        assert(indexed_views(out@) =~= out_views.push(
                            IndexedMessageView {
                                message: decode_spec(all[i as int].data),
                                meta: all[i as int].meta,
                            },
                        ));
                    }
                },
                Err(_) => {
                    failed.push(i as u64);
                },
            }
            i = i + 1;
        }
        proof {
            assert(all.take(all.len() as int) =~= all);
        }
        (out, failed)
    }

    /// The highest on-chain nonce observed at the finalized tip — none if no
    /// message was ever emitted there — together with that tip, for callers
    /// that detect "nothing new to index" without re-fetching logs. The
    /// station contract's sequence count at the tip says how many messages
    /// were emitted; nonces start at zero, so with a count of c > 0 the
    /// highest observed nonce is c - 1.
    pub fn latest_sequence_count_and_tip(&self, sequence_count_at_tip: u32, finalized_tip: u32) -> (r: (
        Option<u32>,
        u32,
    ))
        ensures
            r.0 == (if sequence_count_at_tip == 0 {
                Option::<u32>::None
            } else {
                Some((sequence_count_at_tip - 1) as u32)
            }),
            r.1 == finalized_tip,
    {
        if sequence_count_at_tip == 0 {
            (None, finalized_tip)
        } else {
            (Some(sequence_count_at_tip - 1), finalized_tip)
        }
    }
}

/// Builder of a station indexer from its configured reorg period.
pub struct VizingMessageStationBuilder {
    /// Confirmations required before a block is treated as irreversible.
    pub reorg_period: u32,
}

impl VizingMessageStationBuilder {
    /// Builds the indexer for one station contract; the chain connection
    /// itself is wired up outside the library.
    pub fn build(&self, origin_domain: u64, address: Vec<u8>) -> (r: VizingLaunchMessageIndexer)
        ensures
            r.origin_domain == origin_domain,
            r.address@ == address@,
            r.reorg_period == self.reorg_period,
    {
        VizingLaunchMessageIndexer::new(origin_domain, address, self.reorg_period)
    }
}

} // verus!
