//! Orchestration of one source-to-destination link: each tick takes the
//! freshly fetched and decoded batch, inserts every new message identifier
//! into the accumulator — deduplicating by identifier — and only then
//! advances the index cursor.

use vstd::prelude::*;
use crate::indexer::{IndexCursor, IndexedMessage, IndexedMessageView, LogMetaView, indexed_views};
use crate::merkle::{MerkleAccumulator, lemma_push_parts};
use crate::message::id_spec;

verus! {

/// Provenance order: by block number, ties by log index.
pub open spec fn meta_le(a: LogMetaView, b: LogMetaView) -> bool {
    a.block_number < b.block_number || (a.block_number == b.block_number && a.log_index
        <= b.log_index)
}

/// Whether a batch arrives in ascending provenance order — the order in which
/// its messages were observed on the chain, which fixes their leaf positions.
pub open spec fn batch_sorted(logs: Seq<IndexedMessageView>) -> bool {
    forall|i: int, j: int|
        0 <= i < j < logs.len() ==> meta_le(#[trigger] logs[i].meta, #[trigger] logs[j].meta)
}

/// Provenance order is carried along adjacent pairs.
proof fn lemma_le_chain(logs: Seq<IndexedMessageView>, i: int, j: int)
    requires
        forall|k: int|
            0 <= k < logs.len() - 1 ==> meta_le(
                #[trigger] logs[k].meta,
                logs[k + 1].meta,
            ),
        0 <= i < j < logs.len(),
    ensures
        meta_le(logs[i].meta, logs[j].meta),
    decreases j - i,
{
    if j > i + 1 {
        lemma_le_chain(logs, i, j - 1);
    }
}

/// Whether the batch is in ascending provenance order.
pub fn batch_is_ordered(logs: &Vec<IndexedMessage>) -> (r: bool)
    ensures
        r == batch_sorted(indexed_views(logs@)),
{
    let ghost views = indexed_views(logs@);
    let n = logs.len();
    if n == 0 {
        return true;
    }
    let mut i: usize = 0;
    while i + 1 < n
        invariant
            i < n,
            n == logs@.len(),
            views == indexed_views(logs@),
            forall|k: int| 0 <= k < i ==> meta_le(#[trigger] views[k].meta, views[k + 1].meta),
        decreases n - i,
    {
        let a = &logs[i].meta;
        let b = &logs[i + 1].meta;
        let le = a.block_number < b.block_number || (a.block_number == b.block_number
            && a.log_index <= b.log_index);
        if !le {
            proof {
                assert(!meta_le(views[i as int].meta, views[i as int + 1].meta));
                assert(!batch_sorted(views));
            }
            return false;
        }
        i = i + 1;
    }
    proof {
        lemma_le_chain_all(views);
    }
    true
}

/// Adjacent provenance order gives the whole batch's order.
proof fn lemma_le_chain_all(logs: Seq<IndexedMessageView>)
    requires
        forall|k: int|
            0 <= k < logs.len() - 1 ==> meta_le(
                #[trigger] logs[k].meta,
                logs[k + 1].meta,
            ),
    ensures
        batch_sorted(logs),
{
    assert forall|i: int, j: int|
        0 <= i < j < logs.len() implies meta_le(#[trigger] logs[i].meta, #[trigger] logs[j].meta) by {
        lemma_le_chain(logs, i, j);
    }
}

/// The Merkle leaf each message of a batch stands for: its identifier.
pub open spec fn batch_leaf_ids(logs: Seq<IndexedMessageView>) -> Seq<Seq<u8>> {
    Seq::new(logs.len(), |i: int| id_spec(logs[i].message))
}

/// The leaf sequence after ingesting the given identifiers in order, each
/// appended only if not already present.
pub open spec fn ingest_leaves(acc: Seq<Seq<u8>>, ids: Seq<Seq<u8>>) -> Seq<Seq<u8>>
    decreases ids.len(),
{
    if ids.len() == 0 {
        acc
    } else {
        let rest = ingest_leaves(acc, ids.drop_last());
        if rest.contains(ids.last()) {
            rest
        } else {
            rest.push(ids.last())
        }
    }
}

/// How many entries of a sequence hold the given bytes.
pub open spec fn count_of(s: Seq<Seq<u8>>, x: Seq<u8>) -> nat
    decreases s.len(),
{
    if s.len() == 0 {
        0
    } else {
        count_of(s.drop_last(), x) + if s.last() == x {
            1nat
        } else {
            0nat
        }
    }
}

/// Membership distributes over push.
proof fn lemma_contains_push(s: Seq<Seq<u8>>, e: Seq<u8>, x: Seq<u8>)
    ensures
        s.push(e).contains(x) <==> (s.contains(x) || e == x),
{
    if s.contains(x) {
        let i = choose|i: int| 0 <= i < s.len() && s[i] == x;
        assert(s.push(e)[i] == x);
    }
    if e == x {
        assert(s.push(e)[s.len() as int] == x);
    }
    if s.push(e).contains(x) {
        let i = choose|i: int| 0 <= i < s.push(e).len() && s.push(e)[i] == x;
        if i < s.len() {
            assert(s[i] == x);
        }
    }
}

/// Membership splits into the prefix and the last element.
proof fn lemma_contains_last(s: Seq<Seq<u8>>, x: Seq<u8>)
    requires
        s.len() > 0,
    ensures
        s.contains(x) <==> (s.drop_last().contains(x) || s.last() == x),
{
    assert(s =~= s.drop_last().push(s.last()));
    lemma_contains_push(s.drop_last(), s.last(), x);
}

/// A value is absent exactly when it is counted zero times.
proof fn lemma_count_absent(s: Seq<Seq<u8>>, x: Seq<u8>)
    ensures
        (count_of(s, x) == 0) <==> !s.contains(x),
    decreases s.len(),
{
    if s.len() > 0 {
        lemma_count_absent(s.drop_last(), x);
        lemma_contains_last(s, x);
    }
}

/// Counting distributes over push.
proof fn lemma_count_push(s: Seq<Seq<u8>>, e: Seq<u8>, x: Seq<u8>)
    ensures
        count_of(s.push(e), x) == count_of(s, x) + if e == x {
            1nat
        } else {
            0nat
        },
{
    lemma_push_parts(s, e);
}

/// Ingesting reaches exactly what the tree already held or the batch names.
proof fn lemma_ingest_contains(acc: Seq<Seq<u8>>, ids: Seq<Seq<u8>>, x: Seq<u8>)
    ensures
        ingest_leaves(acc, ids).contains(x) <==> (acc.contains(x) || ids.contains(x)),
    decreases ids.len(),
{
    if ids.len() == 0 {
        assert(!ids.contains(x));
    } else {
        let rest = ingest_leaves(acc, ids.drop_last());
        lemma_ingest_contains(acc, ids.drop_last(), x);
        lemma_contains_last(ids, x);
        if !rest.contains(ids.last()) {
            lemma_contains_push(rest, ids.last(), x);
        } else {
            lemma_ingest_contains(acc, ids.drop_last(), ids.last());
        }
    }
}

/// Indexer dedup: however often a batch repeats an identifier, ingesting the
/// batch into a tree that does not hold it yet leaves exactly one leaf for it
/// — and none if the batch never names it.
pub proof fn lemma_ingest_dedup(acc: Seq<Seq<u8>>, ids: Seq<Seq<u8>>, x: Seq<u8>)
    requires
        !acc.contains(x),
    ensures
        count_of(ingest_leaves(acc, ids), x) == if ids.contains(x) {
            1nat
        } else {
            0nat
        },
    decreases ids.len(),
{
    if ids.len() == 0 {
        assert(!ids.contains(x));
        lemma_count_absent(acc, x);
    } else {
        let rest = ingest_leaves(acc, ids.drop_last());
        let e = ids.last();
        lemma_ingest_dedup(acc, ids.drop_last(), x);
        lemma_ingest_contains(acc, ids.drop_last(), x);
        lemma_contains_last(ids, x);
        if rest.contains(e) {
            lemma_ingest_contains(acc, ids.drop_last(), e);
        } else {
            lemma_count_push(rest, e, x);
        }
    }
}

/// One source-to-destination relay link: its cursor and its accumulator.
pub struct Relayer {
    /// Index progress on the source chain.
    pub cursor: IndexCursor,
    /// The Merkle accumulator over all message identifiers observed so far.
    pub accumulator: MerkleAccumulator,
}

impl Relayer {
    /// A fresh link: nothing indexed past the start block, an empty tree.
    pub fn new(reorg_period: u32, start_block: u32) -> (r: Self)
        ensures
            r.accumulator.wf(),
            r.accumulator@ == Seq::<Seq<u8>>::empty(),
            r.cursor.last_indexed_block == start_block,
            r.cursor.reorg_period == reorg_period,
            r.cursor.last_sequence_count == 0,
    {
        Relayer {
            cursor: IndexCursor::new(reorg_period, start_block),
            accumulator: MerkleAccumulator::new(),
        }
    }

    /// One indexing tick: inserts the identifier of every message of the
    /// decoded batch — taken in the ascending provenance order that fixes
    /// leaf positions — skipping identifiers the tree already holds, and only
    /// after the whole batch is in advances the cursor to the finalized tip.
    pub fn tick(&mut self, finalized_tip: u32, sequence_count: u32, logs: &Vec<IndexedMessage>)
        requires
            old(self).accumulator.wf(),
            old(self).accumulator@.len() + logs@.len() <= u32::MAX,
            finalized_tip >= old(self).cursor.last_indexed_block,
            batch_sorted(indexed_views(logs@)),
        ensures
            final(self).accumulator.wf(),
            final(self).accumulator@ == ingest_leaves(
                old(self).accumulator@,
                batch_leaf_ids(indexed_views(logs@)),
            ),
            final(self).cursor.last_indexed_block == finalized_tip,
            final(self).cursor.reorg_period == old(self).cursor.reorg_period,
            final(self).cursor.last_sequence_count == sequence_count,
    {
        let ghost ids = batch_leaf_ids(indexed_views(logs@));
        let ghost acc0 = self.accumulator@;
        let mut i: usize = 0;
        while i < logs.len()
            invariant
                i <= logs@.len(),
                ids == batch_leaf_ids(indexed_views(logs@)),
                acc0 == old(self).accumulator@,
                acc0.len() + logs@.len() <= u32::MAX,
                self.accumulator.wf(),
                self.accumulator@ == ingest_leaves(acc0, ids.take(i as int)),
                self.accumulator@.len() <= acc0.len() + i,
                self.cursor == old(self).cursor,
            decreases logs@.len() - i,
        {
            proof {
                assert(ids.take(i as int + 1).drop_last() =~= ids.take(i as int));
                assert(ids.take(i as int + 1).last() == ids[i as int]);
            }
            let id = logs[i].message.id();
            match self.accumulator.insert(id) {
                Ok(_) => {},
                Err(_) => {},
            }
            i = i + 1;
        }
        proof {
            assert(ids.take(ids.len() as int) =~= ids);
        }
        self.cursor.advance(finalized_tip, sequence_count);
    }
}

} // verus!
