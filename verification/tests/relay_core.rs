use vizing_relay::erc20_tyt::Erc20Tyt;
use vizing_relay::indexer::{IndexCursor, IndexedMessage, LogMeta, RawLog, VizingLaunchMessageIndexer, VizingMessageStationBuilder};
use vizing_relay::merkle::{verify_proof, MerkleAccumulator, MerkleError};
use vizing_relay::message::{DecodeError, VizingMessage};
use vizing_relay::processor::{backoff_delay_ms, build_landing_data, MessageStatus, RelayTask, SubmissionOutcome};
use vizing_relay::relayer::Relayer;

fn sample_message(nonce: u32, body: Vec<u8>) -> VizingMessage {
    VizingMessage::build(
        1_000,
        2_000,
        vec![0xAAu8; 20],
        42,
        7,
        nonce,
        vec![0xBBu8; 32],
        vec![0xCCu8; 20],
        vec![0x01u8; 32],
        body,
    )
}

fn meta(block: u64, log_index: u64) -> LogMeta {
    LogMeta { block_number: block, transaction_hash: vec![0xDDu8; 32], log_index }
}

#[test]
fn message_encode_decode_roundtrip() {
    let m = sample_message(5, vec![1, 2, 3, 4, 5]);
    let encoded = m.encode();
    assert_eq!(encoded.len(), 140 + 5);
    let decoded = VizingMessage::decode(&encoded).unwrap();
    assert_eq!(decoded.earlistarrivaltimestamp, m.earlistarrivaltimestamp);
    assert_eq!(decoded.latestarrivaltimestamp, m.latestarrivaltimestamp);
    assert_eq!(decoded.relayer, m.relayer);
    assert_eq!(decoded.destination, m.destination);
    assert_eq!(decoded.origin, m.origin);
    assert_eq!(decoded.nonce, m.nonce);
    assert_eq!(decoded.srctxhash, m.srctxhash);
    assert_eq!(decoded.sender, m.sender);
    assert_eq!(decoded.value, m.value);
    assert_eq!(decoded.message, m.message);
}

#[test]
fn message_encoding_layout_is_big_endian_and_fixed() {
    let m = sample_message(0x01020304, vec![0xFE]);
    let encoded = m.encode();
    // earliest timestamp 1000 at bytes 0..8
    assert_eq!(&encoded[0..8], &1_000u64.to_be_bytes());
    // latest timestamp at 8..16
    assert_eq!(&encoded[8..16], &2_000u64.to_be_bytes());
    // relayer at 16..36
    assert_eq!(&encoded[16..36], &[0xAAu8; 20]);
    // destination at 36..44, origin at 44..52
    assert_eq!(&encoded[36..44], &42u64.to_be_bytes());
    assert_eq!(&encoded[44..52], &7u64.to_be_bytes());
    // nonce at 52..56, big-endian
    assert_eq!(&encoded[52..56], &[0x01, 0x02, 0x03, 0x04]);
    // source tx hash, sender, value
    assert_eq!(&encoded[56..88], &[0xBBu8; 32]);
    assert_eq!(&encoded[88..108], &[0xCCu8; 20]);
    assert_eq!(&encoded[108..140], &[0x01u8; 32]);
    // the body is everything after the fixed-width prefix
    assert_eq!(&encoded[140..], &[0xFE]);
}

#[test]
fn default_message_encodes_to_zero_bytes() {
    let m = VizingMessage::default();
    let encoded = m.encode();
    assert_eq!(encoded, vec![0u8; 140]);
}

#[test]
fn decode_rejects_truncated_fixed_width_fields() {
    let short = vec![0u8; 139];
    assert!(matches!(VizingMessage::decode(&short), Err(DecodeError::TruncatedInput)));
    let three = vec![0u8; 3];
    assert!(matches!(VizingMessage::decode(&three), Err(DecodeError::TruncatedInput)));
    let exact = vec![0u8; 140];
    let decoded = VizingMessage::decode(&exact).unwrap();
    assert!(decoded.message.is_empty());
}

#[test]
fn id_is_stable_across_calls_and_constructions() {
    let a = sample_message(9, vec![8, 8, 8]);
    let b = sample_message(9, vec![8, 8, 8]);
    assert_eq!(a.id(), a.id());
    assert_eq!(a.id(), b.id());
}

#[test]
fn id_ignores_routing_metadata() {
    let a = sample_message(9, vec![8]);
    let mut b = sample_message(9, vec![8]);
    b.earlistarrivaltimestamp = 999_999;
    b.latestarrivaltimestamp = 1_999_999;
    b.relayer = vec![0x11u8; 20];
    b.destination = 777;
    assert_eq!(a.id(), b.id());
}

#[test]
fn id_differs_when_identity_fields_differ() {
    let a = sample_message(9, vec![8]);
    let b = sample_message(10, vec![8]);
    assert_ne!(a.id(), b.id());
}

#[test]
fn id_matches_reference_digest() {
    let m = sample_message(3, vec![0x10, 0x20]);
    let mut payload: Vec<u8> = Vec::new();
    payload.extend_from_slice(&7u64.to_be_bytes());
    payload.extend_from_slice(&3u32.to_be_bytes());
    payload.extend_from_slice(&[0xBBu8; 32]);
    payload.extend_from_slice(&[0xCCu8; 20]);
    payload.extend_from_slice(&[0x01u8; 32]);
    payload.extend_from_slice(&[0x10, 0x20]);
    let expected = ethers_core::utils::keccak256(&payload).to_vec();
    assert_eq!(m.id(), expected);
    assert_ne!(m.id(), payload);
}

fn reference_single_leaf_root(leaf: &[u8]) -> Vec<u8> {
    // A one-leaf tree: at every level the running node is hashed with the
    // zero subtree of that level.
    let mut zero = vec![0u8; 32];
    let mut node = leaf.to_vec();
    for _ in 0..32 {
        let mut cat = node.clone();
        cat.extend_from_slice(&zero);
        node = ethers_core::utils::keccak256(&cat).to_vec();
        let mut zz = zero.clone();
        zz.extend_from_slice(&zero);
        zero = ethers_core::utils::keccak256(&zz).to_vec();
    }
    node
}

#[test]
fn single_leaf_root_matches_reference() {
    let mut acc = MerkleAccumulator::new();
    let leaf = sample_message(0, vec![]).id();
    acc.insert(leaf.clone()).unwrap();
    let cp = acc.checkpoint();
    assert_eq!(cp.leaf_count, 1);
    assert_eq!(cp.root, reference_single_leaf_root(&leaf));
}

#[test]
fn empty_checkpoint_differs_from_one_leaf() {
    let acc = MerkleAccumulator::new();
    let cp0 = acc.checkpoint();
    assert_eq!(cp0.leaf_count, 0);
    let mut acc2 = MerkleAccumulator::new();
    acc2.insert(sample_message(0, vec![]).id()).unwrap();
    assert_ne!(cp0.root, acc2.checkpoint().root);
}

#[test]
fn checkpoint_is_pure_between_inserts() {
    let mut acc = MerkleAccumulator::new();
    acc.insert(sample_message(0, vec![]).id()).unwrap();
    let a = acc.checkpoint();
    let b = acc.checkpoint();
    assert_eq!(a.root, b.root);
    assert_eq!(a.leaf_count, b.leaf_count);
}

#[test]
fn duplicate_leaf_is_refused() {
    let mut acc = MerkleAccumulator::new();
    let id = sample_message(0, vec![]).id();
    assert_eq!(acc.insert(id.clone()), Ok(0));
    assert_eq!(acc.insert(id), Err(MerkleError::DuplicateLeaf));
    assert_eq!(acc.leaf_count(), 1);
}

#[test]
fn prove_unknown_index_is_refused() {
    let mut acc = MerkleAccumulator::new();
    acc.insert(sample_message(0, vec![]).id()).unwrap();
    assert!(matches!(acc.prove(1), Err(MerkleError::LeafNotFound)));
    assert!(matches!(acc.prove(7), Err(MerkleError::LeafNotFound)));
}

#[test]
fn proofs_stay_valid_against_their_checkpoint() {
    // Messages with nonces 0, 1, 2 for one domain; checkpoint after each
    // insert; the proof for nonce 1's leaf verifies against the 2-leaf
    // checkpoint and a fresh proof verifies against the 3-leaf checkpoint.
    let mut acc = MerkleAccumulator::new();
    let leaves: Vec<Vec<u8>> = (0..3).map(|n| sample_message(n, vec![]).id()).collect();

    acc.insert(leaves[0].clone()).unwrap();
    let cp1 = acc.checkpoint();
    acc.insert(leaves[1].clone()).unwrap();
    let cp2 = acc.checkpoint();
    let proof_at_2 = acc.prove(1).unwrap();
    assert!(verify_proof(&leaves[1], &proof_at_2, &cp2.root));

    acc.insert(leaves[2].clone()).unwrap();
    let cp3 = acc.checkpoint();
    let proof_at_3 = acc.prove(1).unwrap();

    // The historical proof still matches the historical root after appending.
    assert!(verify_proof(&leaves[1], &proof_at_2, &cp2.root));
    // The fresh proof matches the new root; roots and paths differ, the leaf
    // value is identical.
    assert!(verify_proof(&leaves[1], &proof_at_3, &cp3.root));
    assert_ne!(cp2.root, cp3.root);
    assert_ne!(proof_at_2.path, proof_at_3.path);
    // Mixing them up verifies nothing.
    assert!(!verify_proof(&leaves[1], &proof_at_2, &cp3.root));
    assert!(!verify_proof(&leaves[1], &proof_at_3, &cp2.root));
    assert!(!verify_proof(&leaves[0], &proof_at_2, &cp2.root));
    assert!(!verify_proof(&leaves[1], &proof_at_2, &cp1.root));
}

#[test]
fn finalized_block_number_respects_reorg_period() {
    let indexer = VizingLaunchMessageIndexer::new(7, vec![0x22u8; 20], 10);
    assert_eq!(indexer.get_finalized_block_number(100), 90);
    assert_eq!(indexer.get_finalized_block_number(10), 0);
    assert_eq!(indexer.get_finalized_block_number(5), 0);
    assert_eq!(indexer.get_finalized_block_number(0), 0);
}

#[test]
fn builder_passes_reorg_period_through() {
    let builder = VizingMessageStationBuilder { reorg_period: 12 };
    let indexer = builder.build(5, vec![0x33u8; 20]);
    assert_eq!(indexer.reorg_period, 12);
    assert_eq!(indexer.origin_domain, 5);
    assert_eq!(indexer.address, vec![0x33u8; 20]);
}

#[test]
fn decode_logs_is_best_effort() {
    let indexer = VizingLaunchMessageIndexer::new(7, vec![0x22u8; 20], 10);
    let good_a = sample_message(0, vec![1]).encode();
    let truncated = vec![0u8; 3];
    let good_b = sample_message(1, vec![2]).encode();
    let raw = vec![
        RawLog { data: good_a, meta: meta(100, 0) },
        RawLog { data: truncated, meta: meta(100, 1) },
        RawLog { data: good_b, meta: meta(101, 0) },
    ];
    let (decoded, failed) = indexer.decode_logs(&raw);
    // The one truncated entry fails alone; the others decode in order.
    assert_eq!(failed, vec![1]);
    assert_eq!(decoded.len(), 2);
    assert_eq!(decoded[0].message.nonce, 0);
    assert_eq!(decoded[0].meta.block_number, 100);
    assert_eq!(decoded[1].message.nonce, 1);
    assert_eq!(decoded[1].meta.block_number, 101);
}

#[test]
fn latest_sequence_count_and_tip_reports_highest_nonce() {
    let indexer = VizingLaunchMessageIndexer::new(7, vec![0x22u8; 20], 10);
    // With c messages emitted the highest observed nonce is c - 1.
    assert_eq!(indexer.latest_sequence_count_and_tip(17, 90), (Some(16), 90));
    assert_eq!(indexer.latest_sequence_count_and_tip(1, 90), (Some(0), 90));
    // No messages ever emitted at the tip: no nonce to report.
    assert_eq!(indexer.latest_sequence_count_and_tip(0, 90), (None, 90));
}

#[test]
fn cursor_ranges_and_advances() {
    let mut cursor = IndexCursor::new(10, 50);
    assert_eq!(cursor.next_range(50), None);
    assert_eq!(cursor.next_range(49), None);
    assert_eq!(cursor.next_range(60), Some((51, 60)));
    cursor.advance(60, 3);
    assert_eq!(cursor.last_indexed_block, 60);
    assert_eq!(cursor.last_sequence_count, 3);
    assert_eq!(cursor.next_range(60), None);
}

#[test]
fn tick_deduplicates_by_message_id() {
    // The same (message, meta) pair twice in one fetch result ends up as
    // exactly one leaf.
    let mut relayer = Relayer::new(10, 0);
    let m = sample_message(0, vec![5]);
    let logs = vec![
        IndexedMessage { message: sample_message(0, vec![5]), meta: meta(100, 0) },
        IndexedMessage { message: sample_message(0, vec![5]), meta: meta(100, 0) },
    ];
    relayer.tick(100, 1, &logs);
    assert_eq!(relayer.accumulator.leaf_count(), 1);
    assert_eq!(relayer.cursor.last_indexed_block, 100);
    let cp = relayer.accumulator.checkpoint();
    let proof = relayer.accumulator.prove(0).unwrap();
    assert!(verify_proof(&m.id(), &proof, &cp.root));
}

#[test]
fn tick_skips_known_ids_across_batches() {
    let mut relayer = Relayer::new(10, 0);
    let logs1 = vec![IndexedMessage { message: sample_message(0, vec![]), meta: meta(100, 0) }];
    relayer.tick(100, 1, &logs1);
    // The provider may redeliver old logs; known identifiers stay single.
    let logs2 = vec![
        IndexedMessage { message: sample_message(0, vec![]), meta: meta(100, 0) },
        IndexedMessage { message: sample_message(1, vec![]), meta: meta(105, 0) },
    ];
    relayer.tick(110, 2, &logs2);
    assert_eq!(relayer.accumulator.leaf_count(), 2);
    assert_eq!(relayer.cursor.last_indexed_block, 110);
    assert_eq!(relayer.cursor.last_sequence_count, 2);
}

#[test]
fn transient_failures_then_success_delivers() {
    // Three transient failures, then success on the fourth attempt, under a
    // ceiling of five.
    let mut task = RelayTask::new(0, 5);
    assert_eq!(task.status, MessageStatus::AwaitingCheckpoint);
    task.on_checkpoint(0);
    assert_eq!(task.status, MessageStatus::AwaitingCheckpoint);
    for _ in 0..3 {
        task.on_checkpoint(1);
        assert_eq!(task.status, MessageStatus::ProvenReady);
        task.on_submit();
        assert_eq!(task.status, MessageStatus::Submitted);
        task.on_outcome(SubmissionOutcome::TransientError);
        assert_eq!(task.status, MessageStatus::AwaitingCheckpoint);
    }
    assert_eq!(task.attempts, 3);
    task.on_checkpoint(1);
    task.on_submit();
    task.on_outcome(SubmissionOutcome::Confirmed);
    assert_eq!(task.status, MessageStatus::Delivered);
    // Terminal: nothing moves it any more.
    task.on_checkpoint(9);
    task.on_submit();
    task.on_outcome(SubmissionOutcome::PermanentError);
    assert_eq!(task.status, MessageStatus::Delivered);
}

#[test]
fn transient_failures_at_ceiling_fail_terminally() {
    let mut task = RelayTask::new(0, 4);
    for _ in 0..4 {
        task.on_checkpoint(1);
        task.on_submit();
        task.on_outcome(SubmissionOutcome::TransientError);
    }
    assert_eq!(task.attempts, 4);
    assert_eq!(task.status, MessageStatus::Failed);
    // Failed is terminal: no further checkpoint or outcome retries it.
    task.on_checkpoint(10);
    assert_eq!(task.status, MessageStatus::Failed);
    task.on_submit();
    task.on_outcome(SubmissionOutcome::Confirmed);
    assert_eq!(task.status, MessageStatus::Failed);
}

#[test]
fn permanent_error_fails_without_retry() {
    let mut task = RelayTask::new(2, 5);
    task.on_checkpoint(3);
    task.on_submit();
    task.on_outcome(SubmissionOutcome::PermanentError);
    assert_eq!(task.status, MessageStatus::Failed);
    assert_eq!(task.attempts, 0);
}

#[test]
fn checkpoint_must_cover_the_leaf() {
    let mut task = RelayTask::new(5, 3);
    task.on_checkpoint(5);
    assert_eq!(task.status, MessageStatus::AwaitingCheckpoint);
    task.on_checkpoint(6);
    assert_eq!(task.status, MessageStatus::ProvenReady);
}

#[test]
fn backoff_doubles_and_saturates() {
    assert_eq!(backoff_delay_ms(100, 0), 100);
    assert_eq!(backoff_delay_ms(100, 1), 200);
    assert_eq!(backoff_delay_ms(100, 3), 800);
    assert_eq!(backoff_delay_ms(u64::MAX / 2 + 1, 1), u64::MAX);
    assert_eq!(backoff_delay_ms(1, 63), 1u64 << 63);
    assert_eq!(backoff_delay_ms(1, 64), u64::MAX);
    assert_eq!(backoff_delay_ms(0, 17), 0);
}

#[test]
fn landing_data_aggregates_the_batch() {
    let mut a = sample_message(0, vec![1]);
    a.earlistarrivaltimestamp = 500;
    a.latestarrivaltimestamp = 1_500;
    let mut b = sample_message(1, vec![2]);
    b.earlistarrivaltimestamp = 700;
    b.latestarrivaltimestamp = 2_500;
    let batch = vec![a, b];
    let root = vec![0x42u8; 32];
    let landing = build_landing_data(root.clone(), &batch);
    assert_eq!(landing.mpt_root_new, root);
    assert_eq!(landing.aggregated_earlist_arrival_timestamp, 500);
    assert_eq!(landing.aggregated_latest_arrival_timestamp, 2_500);
    assert_eq!(landing.params.len(), 2);
    assert_eq!(landing.params[0].message_id, batch[0].id());
    assert_eq!(landing.params[0].src_chain_id, 7);
    assert_eq!(landing.params[0].src_chain_nonce, 0);
    assert_eq!(landing.params[0].src_tx_hash, batch[0].srctxhash);
    assert_eq!(landing.params[0].sender, batch[0].sender);
    assert_eq!(landing.params[0].value, batch[0].value);
    assert_eq!(landing.params[0].message, batch[0].message);
    assert_eq!(landing.params[1].message_id, batch[1].id());
    assert_eq!(landing.params[1].src_chain_nonce, 1);
}

#[test]
fn erc20_tyt_roundtrip_and_accessors() {
    let t = Erc20Tyt::build(vec![0x01u8; 32], vec![0x02u8; 32], 123_456_789_012_345_678_901u128, 77);
    assert_eq!(t.tx_timestamp(), 77);
    assert_eq!(t.sequence(), 77);
    let encoded = t.encode();
    assert_eq!(encoded.len(), 84);
    assert_eq!(&encoded[0..32], &[0x01u8; 32]);
    assert_eq!(&encoded[32..64], &[0x02u8; 32]);
    assert_eq!(&encoded[64..80], &123_456_789_012_345_678_901u128.to_be_bytes());
    assert_eq!(&encoded[80..84], &77u32.to_be_bytes());
    let back = Erc20Tyt::decode(&encoded).unwrap();
    assert_eq!(back.from, t.from);
    assert_eq!(back.to, t.to);
    assert_eq!(back.value, t.value);
    assert_eq!(back.tx_timestamp, t.tx_timestamp);
}

#[test]
fn erc20_tyt_decode_rejects_truncation() {
    let short = vec![0u8; 83];
    assert!(matches!(Erc20Tyt::decode(&short), Err(DecodeError::TruncatedInput)));
}

#[test]
fn batch_order_check_accepts_sorted_and_refuses_unsorted() {
    let sorted = vec![
        IndexedMessage { message: sample_message(0, vec![]), meta: meta(100, 0) },
        IndexedMessage { message: sample_message(1, vec![]), meta: meta(100, 0) },
        IndexedMessage { message: sample_message(2, vec![]), meta: meta(100, 1) },
        IndexedMessage { message: sample_message(3, vec![]), meta: meta(102, 0) },
    ];
    assert!(vizing_relay::relayer::batch_is_ordered(&sorted));
    let unsorted = vec![
        IndexedMessage { message: sample_message(0, vec![]), meta: meta(101, 0) },
        IndexedMessage { message: sample_message(1, vec![]), meta: meta(100, 0) },
    ];
    assert!(!vizing_relay::relayer::batch_is_ordered(&unsorted));
    let tie_unsorted = vec![
        IndexedMessage { message: sample_message(0, vec![]), meta: meta(100, 5) },
        IndexedMessage { message: sample_message(1, vec![]), meta: meta(100, 4) },
    ];
    assert!(!vizing_relay::relayer::batch_is_ordered(&tie_unsorted));
    assert!(vizing_relay::relayer::batch_is_ordered(&Vec::new()));
}
