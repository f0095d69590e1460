//! The relay state machine: per message, from indexed to delivered.
//!
//! Every transition is a pure function of the current state and the event the
//! outside collaborators report (a new checkpoint, a submission outcome);
//! performing the submission itself happens outside the library.

use vstd::prelude::*;
use vstd::arithmetic::power2::{pow2, lemma_pow2_unfold};
use crate::bytes_be::clone_bytes;
use crate::message::{
    VizingMessage,
    MessageView,
    VizingLandingData,
    VizingLandingDataParams,
    id_spec,
};

verus! {

/// Where a message stands on its way to the destination chain.
#[derive(Debug, Clone, Copy, PartialEq, Eq, Structural)]
pub enum MessageStatus {
    /// Inserted into the accumulator; no checkpoint covers it yet.
    AwaitingCheckpoint,
    /// A checkpoint covers its leaf; an inclusion proof can be built.
    ProvenReady,
    /// Handed to the submission collaborator; outcome pending.
    Submitted,
    /// Acknowledged by the destination chain. Terminal.
    Delivered,
    /// Rejected permanently or retried past the ceiling. Terminal.
    Failed,
}

/// What the submission collaborator reports back.
#[derive(Debug, Clone, Copy, PartialEq, Eq, Structural)]
pub enum SubmissionOutcome {
    /// The transaction confirmed.
    Confirmed,
    /// A transient failure — network, nonce race, underpriced gas — worth
    /// retrying.
    TransientError,
    /// A permanent rejection — already delivered, proof refused — never
    /// retried.
    PermanentError,
}

/// The attempt counter after one more try, saturating.
pub open spec fn next_attempts(a: u32) -> u32 {
    if a < u32::MAX {
        (a + 1) as u32
    } else {
        a
    }
}

/// The relay progress of one message.
pub struct RelayTask {
    /// The message's append position in the accumulator.
    pub leaf_index: u32,
    /// Submission attempts made so far.
    pub attempts: u32,
    /// Attempt ceiling: one more transient failure at or past it is terminal.
    pub max_attempts: u32,
    /// Where the message stands.
    pub status: MessageStatus,
}

impl RelayTask {
    /// A task for a freshly inserted message: it waits for a checkpoint.
    pub fn new(leaf_index: u32, max_attempts: u32) -> (r: Self)
        ensures
            r.leaf_index == leaf_index,
            r.attempts == 0,
            r.max_attempts == max_attempts,
            r.status == MessageStatus::AwaitingCheckpoint,
    {
        RelayTask { leaf_index, attempts: 0, max_attempts, status: MessageStatus::AwaitingCheckpoint }
    }

    /// A published checkpoint covering the task's leaf makes it provable; a
    /// checkpoint that stops short of the leaf, or a task in any other state,
    /// changes nothing.
    pub fn on_checkpoint(&mut self, checkpoint_leaf_count: u32)
        ensures
            final(self).leaf_index == old(self).leaf_index,
            final(self).attempts == old(self).attempts,
            final(self).max_attempts == old(self).max_attempts,
            final(self).status == (if old(self).status is AwaitingCheckpoint
                && checkpoint_leaf_count > old(self).leaf_index {
                MessageStatus::ProvenReady
            } else {
                old(self).status
            }),
    {
        if matches!(self.status, MessageStatus::AwaitingCheckpoint) && checkpoint_leaf_count
            > self.leaf_index {
            self.status = MessageStatus::ProvenReady;
        }
    }

    /// Handing a provable message to the submission collaborator.
    pub fn on_submit(&mut self)
        ensures
            final(self).leaf_index == old(self).leaf_index,
            final(self).attempts == old(self).attempts,
            final(self).max_attempts == old(self).max_attempts,
            final(self).status == (if old(self).status is ProvenReady {
                MessageStatus::Submitted
            } else {
                old(self).status
            }),
    {
        if matches!(self.status, MessageStatus::ProvenReady) {
            self.status = MessageStatus::Submitted;
        }
    }

    /// The collaborator's verdict on a submitted message: confirmation
    /// delivers it; a permanent rejection fails it; a transient failure
    /// counts one more attempt and either queues a retry or, at the ceiling,
    /// fails it. Any state but submitted changes nothing.
    pub fn on_outcome(&mut self, outcome: SubmissionOutcome)
        ensures
            final(self).leaf_index == old(self).leaf_index,
            final(self).max_attempts == old(self).max_attempts,
            final(self).attempts == (if old(self).status is Submitted && outcome
                is TransientError {
                next_attempts(old(self).attempts)
            } else {
                old(self).attempts
            }),
            final(self).status == (if old(self).status is Submitted {
                match outcome {
                    SubmissionOutcome::Confirmed => MessageStatus::Delivered,
                    SubmissionOutcome::PermanentError => MessageStatus::Failed,
                    SubmissionOutcome::TransientError => {
                        if next_attempts(old(self).attempts) >= old(self).max_attempts {
                            MessageStatus::Failed
                        } else {
                            MessageStatus::AwaitingCheckpoint
                        }
                    },
                }
            } else {
                old(self).status
            }),
    {
        if matches!(self.status, MessageStatus::Submitted) {
            match outcome {
                SubmissionOutcome::Confirmed => {
                    self.status = MessageStatus::Delivered;
                },
                SubmissionOutcome::PermanentError => {
                    self.status = MessageStatus::Failed;
                },
                SubmissionOutcome::TransientError => {
                    let next = if self.attempts < u32::MAX {
                        self.attempts + 1
                    } else {
                        self.attempts
                    };
                    self.attempts = next;
                    if next >= self.max_attempts {
                        self.status = MessageStatus::Failed;
                    } else {
                        self.status = MessageStatus::AwaitingCheckpoint;
                    }
                },
            }
        }
    }
}

/// The delay before the given retry attempt: the base doubled per attempt,
/// saturating at the largest representable delay.
pub fn backoff_delay_ms(base_ms: u64, attempt: u32) -> (r: u64)
    ensures
        r == (if base_ms * pow2(attempt as nat) <= u64::MAX {
            (base_ms * pow2(attempt as nat)) as u64
        } else {
            u64::MAX
        }),
{
    proof {
        vstd::arithmetic::power2::lemma2_to64();
    }
    let mut d: u64 = base_ms;
    let mut i: u32 = 0;
    while i < attempt
        invariant
            i <= attempt,
            base_ms * pow2(i as nat) <= u64::MAX ==> d == base_ms * pow2(i as nat),
            base_ms * pow2(i as nat) > u64::MAX ==> d == u64::MAX,
        decreases attempt - i,
    {
        proof {
            lemma_pow2_unfold((i + 1) as nat);
            assert(base_ms * pow2(i as nat + 1) == 2 * (base_ms * pow2(i as nat)))
                by (nonlinear_arith)
                requires
                    pow2(i as nat + 1) == 2 * pow2(i as nat),
            ;
        }
        if d > u64::MAX / 2 {
            d = u64::MAX;
        } else {
            d = d * 2;
        }
        i = i + 1;
    }
    d
}

/// The landing parameters of one message: its identifier and the identity
/// fields the destination contract checks.
pub open spec fn landing_params_of(m: MessageView) -> LandingParamsView {
    LandingParamsView {
        message_id: id_spec(m),
        src_chain_id: m.origin,
        src_chain_nonce: m.nonce,
        src_tx_hash: m.srctxhash,
        sender: m.sender,
        value: m.value,
        message: m.message,
    }
}

/// The mathematical image of one message's landing parameters.
pub ghost struct LandingParamsView {
    pub message_id: Seq<u8>,
    pub src_chain_id: u64,
    pub src_chain_nonce: u32,
    pub src_tx_hash: Seq<u8>,
    pub sender: Seq<u8>,
    pub value: Seq<u8>,
    pub message: Seq<u8>,
}

impl View for VizingLandingDataParams {
    type V = LandingParamsView;

    open spec fn view(&self) -> LandingParamsView {
        LandingParamsView {
            message_id: self.message_id@,
            src_chain_id: self.src_chain_id,
            src_chain_nonce: self.src_chain_nonce,
            src_tx_hash: self.src_tx_hash@,
            sender: self.sender@,
            value: self.value@,
            message: self.message@,
        }
    }
}

/// The smallest earliest-arrival timestamp over a batch.
pub open spec fn min_earliest(batch: Seq<MessageView>) -> u64
    recommends
        batch.len() > 0,
    decreases batch.len(),
{
    if batch.len() <= 1 {
        batch[0].earlistarrivaltimestamp
    } else {
        let rest = min_earliest(batch.drop_last());
        if batch.last().earlistarrivaltimestamp < rest {
            batch.last().earlistarrivaltimestamp
        } else {
            rest
        }
    }
}

/// The largest latest-arrival timestamp over a batch.
pub open spec fn max_latest(batch: Seq<MessageView>) -> u64
    recommends
        batch.len() > 0,
    decreases batch.len(),
{
    if batch.len() <= 1 {
        batch[0].latestarrivaltimestamp
    } else {
        let rest = max_latest(batch.drop_last());
        if batch.last().latestarrivaltimestamp > rest {
            batch.last().latestarrivaltimestamp
        } else {
            rest
        }
    }
}

/// The views of a batch of messages.
pub open spec fn message_views(batch: Seq<VizingMessage>) -> Seq<MessageView> {
    Seq::new(batch.len(), |i: int| batch[i]@)
}

/// Builds the landing data submitted to the destination chain for a batch
/// proven under the given root: the root, the batch's aggregated arrival
/// window, and each message's landing parameters in batch order.
pub fn build_landing_data(root: Vec<u8>, batch: &Vec<VizingMessage>) -> (r: VizingLandingData)
    requires
        batch@.len() > 0,
    ensures
        r.mpt_root_new@ == root@,
        r.aggregated_earlist_arrival_timestamp == min_earliest(message_views(batch@)),
        r.aggregated_latest_arrival_timestamp == max_latest(message_views(batch@)),
        r.params@.len() == batch@.len(),
        forall|j: int|
            0 <= j < batch@.len() ==> (#[trigger] r.params@[j])@ == landing_params_of(batch@[j]@),
{
    let ghost views = message_views(batch@);
    let mut earliest = batch[0].earlistarrivaltimestamp;
    let mut latest = batch[0].latestarrivaltimestamp;
    let mut params: Vec<VizingLandingDataParams> = Vec::new();
    let first_id = batch[0].id();
    params.push(VizingLandingDataParams {
        message_id: first_id,
        src_chain_id: batch[0].origin,
        src_chain_nonce: batch[0].nonce,
        src_tx_hash: clone_bytes(&batch[0].srctxhash),
        sender: clone_bytes(&batch[0].sender),
        value: clone_bytes(&batch[0].value),
        message: clone_bytes(&batch[0].message),
    });
    let mut i: usize = 1;
    while i < batch.len()
        invariant
            1 <= i <= batch@.len(),
            views == message_views(batch@),
            earliest == min_earliest(views.take(i as int)),
            latest == max_latest(views.take(i as int)),
            params@.len() == i,
            forall|j: int|
                0 <= j < i ==> (#[trigger] params@[j])@ == landing_params_of(batch@[j]@),
        decreases batch@.len() - i,
    {
        proof {
            assert(views.take(i as int + 1).drop_last() =~= views.take(i as int));
            assert(views.take(i as int + 1).last() == views[i as int]);
        }
        if batch[i].earlistarrivaltimestamp < earliest {
            earliest = batch[i].earlistarrivaltimestamp;
        }
        if batch[i].latestarrivaltimestamp > latest {
            latest = batch[i].latestarrivaltimestamp;
        }
        let mid = batch[i].id();
        params.push(VizingLandingDataParams {
            message_id: mid,
            src_chain_id: batch[i].origin,
            src_chain_nonce: batch[i].nonce,
            src_tx_hash: clone_bytes(&batch[i].srctxhash),
            sender: clone_bytes(&batch[i].sender),
            value: clone_bytes(&batch[i].value),
            message: clone_bytes(&batch[i].message),
        });
        i = i + 1;
    }
    proof {
        assert(views.take(views.len() as int) =~= views);
    }
    VizingLandingData {
        mpt_root_new: root,
        aggregated_earlist_arrival_timestamp: earliest,
        aggregated_latest_arrival_timestamp: latest,
        params,
    }
}

} // verus!
