//! The pipeline orchestrator: ties the segmenter, the FIFO handoff of
//! finalized segment identifiers, the model of on-disk segment storage, and
//! the driver's translate-then-speak-then-delete state machine together.
//!
//! The capture side calls `on_batch` for every sample batch; the driver loop
//! calls `next_segment` to dequeue the oldest finalized segment, performs
//! the translate call for it, and hands the raw response to
//! `on_translate_response`, which decides whether to speak the text and
//! delete the consumed segment, to shut the whole pipeline down, or to halt
//! on a malformed response.

use vstd::prelude::*;
use std::collections::VecDeque;
use crate::segmenter::{FinalizedSegment, Segmenter};
use crate::phrase::contains_subseq;
use crate::translate::{classify_response, string_field_of, termination_phrase, TranslateOutcome};

verus! {

/// Whether the pipeline still accepts and dispatches work.
#[derive(Clone, Copy, PartialEq, Eq, Structural, Debug)]
pub enum Status {
    /// Accepting batches and dispatching segments.
    Running,
    /// The termination phrase was detected: graceful shutdown, storage purged.
    Terminated,
    /// A remote-service error (malformed translation response) halted the run.
    Failed,
}

/// What the driver is to do after one translation response.
pub enum DriverAction {
    /// Launch synthesize-and-play with this text (detached), then delete the
    /// consumed segment's storage.
    Speak { text: Vec<u8>, delete: u64 },
    /// Remove all remaining segment storage and exit with status zero.
    Purge,
    /// Report a remote-service error and halt the pipeline.
    Halt,
}

/// The orchestrator state. Segment identifiers run 0, 1, ...; those below
/// `completed` have been translated and their storage deleted, the one at
/// `completed` is in flight when `dispatched == completed + 1`, those from
/// `dispatched` up to the segmenter's open identifier are finalized and wait
/// in the FIFO `pending` queue, and `storage` lists the identifiers whose
/// storage currently exists, oldest first.
pub struct Pipeline {
    pub seg: Segmenter,
    pub pending: VecDeque<u64>,
    pub dispatched: u64,
    pub completed: u64,
    pub storage: Vec<u64>,
    pub status: Status,
}

impl Pipeline {
    /// Invariant of every reachable pipeline state.
    pub open spec fn inv(self) -> bool {
        &&& self.seg.wf()
        &&& self.completed <= self.dispatched <= self.seg.open_id
        &&& self.dispatched <= self.completed + 1
        &&& self.status is Running ==> {
            &&& self.pending@ === Seq::new(
                (self.seg.open_id - self.dispatched) as nat,
                |k: int| (self.dispatched + k) as u64,
            )
            &&& self.storage@ === Seq::new(
                (self.seg.open_id + 1 - self.completed) as nat,
                |k: int| (self.completed + k) as u64,
            )
        }
        &&& self.status is Terminated ==> self.storage@.len() == 0 && self.pending@.len() == 0
    }

    /// Opens segment 0 and starts running; only that segment's storage
    /// exists, nothing is pending, dispatched or completed.
    pub fn new(threshold_ms: u64) -> (p: Pipeline)
        requires
            threshold_ms >= 1,
        ensures
            p.inv(),
            p.status is Running,
            p.seg.threshold_ms == threshold_ms,
            p.seg.open_id == 0,
            p.seg.open_elapsed_ms == 0,
            p.seg.open_samples == 0,
            p.seg.history@ === Seq::<FinalizedSegment>::empty(),
            p.dispatched == 0,
            p.completed == 0,
            p.pending@ === Seq::<u64>::empty(),
            p.storage@ === seq![0u64],
    {
        let mut storage: Vec<u64> = Vec::new();
        storage.push(0);
        let p = Pipeline {
            seg: Segmenter::new(threshold_ms),
            pending: VecDeque::new(),
            dispatched: 0,
            completed: 0,
            storage,
            status: Status::Running,
        };
        proof {
            assert(p.storage@ =~= seq![0u64]);
            assert(p.pending@ =~= Seq::new(0nat, |k: int| (0 + k) as u64));
            assert(p.storage@ =~= Seq::new(1nat, |k: int| (0 + k) as u64));
        }
        p
    }

    /// Capture side: accepts one sample batch. While running, the batch is
    /// appended to the open segment; if that segment's time budget has
    /// elapsed it is finalized, its identifier is queued for the driver and
    /// returned, and storage for the next segment is created. Once the
    /// pipeline is no longer running, batches are ignored: no further
    /// segments are accepted.
    pub fn on_batch(&mut self, batch_len: usize, batch_ms: u64) -> (r: Option<u64>)
        requires
            old(self).inv(),
            old(self).status is Running ==> {
                &&& old(self).seg.open_elapsed_ms + batch_ms <= u64::MAX
                &&& old(self).seg.open_samples + batch_len <= u64::MAX
                &&& old(self).seg.open_id < u64::MAX
            },
        ensures
            final(self).inv(),
            final(self).status == old(self).status,
            final(self).dispatched == old(self).dispatched,
            final(self).completed == old(self).completed,
            !(old(self).status is Running) ==> *final(self) == *old(self) && r is None,
            old(self).status is Running ==> {
                if old(self).seg.open_elapsed_ms + batch_ms >= old(self).seg.threshold_ms {
                    &&& r == Some(old(self).seg.open_id)
                    &&& final(self).seg.open_id == old(self).seg.open_id + 1
                    &&& final(self).seg.open_elapsed_ms == 0
                    &&& final(self).seg.open_samples == 0
                    &&& final(self).seg.history@ === old(self).seg.history@.push(
                        FinalizedSegment {
                            id: old(self).seg.open_id,
                            duration_ms: (old(self).seg.open_elapsed_ms + batch_ms) as u64,
                            samples: (old(self).seg.open_samples + batch_len) as u64,
                        },
                    )
                    &&& final(self).pending@ === old(self).pending@.push(old(self).seg.open_id)
                    &&& final(self).storage@ === old(self).storage@.push(
                        (old(self).seg.open_id + 1) as u64,
                    )
                } else {
                    &&& r is None
                    &&& final(self).seg.open_id == old(self).seg.open_id
                    &&& final(self).seg.open_elapsed_ms == old(self).seg.open_elapsed_ms + batch_ms
                    &&& final(self).seg.open_samples == old(self).seg.open_samples + batch_len
                    &&& final(self).seg.history@ === old(self).seg.history@
                    &&& final(self).pending@ === old(self).pending@
                    &&& final(self).storage@ === old(self).storage@
                }
            },
    {
        match self.status {
            Status::Running => {},
            _ => {
                return None;
            },
        }
        let finalized = self.seg.on_batch(batch_len, batch_ms);
        match finalized {
            Some(fid) => {
                self.pending.push_back(fid);
                self.storage.push(fid + 1);
                proof {
                    assert(self.pending@ =~= Seq::new(
                        (self.seg.open_id - self.dispatched) as nat,
                        |k: int| (self.dispatched + k) as u64,
                    ));
                    assert(self.storage@ =~= Seq::new(
                        (self.seg.open_id + 1 - self.completed) as nat,
                        |k: int| (self.completed + k) as u64,
                    ));
                }
                Some(fid)
            },
            None => None,
        }
    }

    /// Driver side: dequeues the next finalized segment to translate, in
    /// exactly finalization order. Returns nothing, changing nothing, when
    /// the pipeline is no longer running (no further segments are dispatched
    /// after termination) or when no finalized segment waits. Must not be
    /// called while a translation is in flight: translations are never
    /// overlapped.
    pub fn next_segment(&mut self) -> (r: Option<u64>)
        requires
            old(self).inv(),
            old(self).status is Running ==> old(self).dispatched == old(self).completed,
        ensures
            final(self).inv(),
            !(old(self).status is Running) ==> *final(self) == *old(self) && r is None,
            old(self).status is Running && old(self).pending@.len() == 0 ==> {
                &&& r is None
                &&& final(self).pending@ === old(self).pending@
                &&& final(self).dispatched == old(self).dispatched
                &&& final(self).completed == old(self).completed
                &&& final(self).seg == old(self).seg
                &&& final(self).storage@ === old(self).storage@
                &&& final(self).status == old(self).status
            },
            old(self).status is Running && old(self).pending@.len() > 0 ==> {
                &&& r == Some(old(self).pending@[0])
                &&& old(self).pending@[0] == old(self).dispatched
                &&& final(self).pending@ === old(self).pending@.subrange(
                    1,
                    old(self).pending@.len() as int,
                )
                &&& final(self).dispatched == old(self).dispatched + 1
                &&& final(self).completed == old(self).completed
                &&& final(self).seg == old(self).seg
                &&& final(self).storage@ === old(self).storage@
                &&& final(self).status == old(self).status
            },
    {
        match self.status {
            Status::Running => {},
            _ => {
                return None;
            },
        }
        match self.pending.pop_front() {
            Some(id) => {
                self.dispatched = self.dispatched + 1;
                proof {
                    assert(self.pending@ =~= Seq::new(
                        (self.seg.open_id - self.dispatched) as nat,
                        |k: int| (self.dispatched + k) as u64,
                    ));
                }
                Some(id)
            },
            None => None,
        }
    }

    /// Driver side: consumes the raw translation response for the one
    /// in-flight segment. A response that is not a JSON object with a string
    /// `text` member fails the pipeline; a text containing the termination
    /// phrase terminates it, purging all remaining segment storage; any
    /// other text is handed back for synthesis and the consumed segment's
    /// storage is deleted — and only then, after its translation returned
    /// successfully.
    pub fn on_translate_response(&mut self, resp: &str) -> (r: DriverAction)
        requires
            old(self).inv(),
            old(self).status is Running,
            old(self).dispatched == old(self).completed + 1,
        ensures
            final(self).inv(),
            final(self).seg == old(self).seg,
            final(self).dispatched == old(self).dispatched,
            match string_field_of(resp@, "text"@) {
                Option::None => {
                    &&& r is Halt
                    &&& final(self).status is Failed
                    &&& final(self).storage@ === old(self).storage@
                    &&& final(self).pending@ === old(self).pending@
                    &&& final(self).completed == old(self).completed
                },
                Option::Some(t) => {
                    if contains_subseq(t, termination_phrase()) {
                        &&& r is Purge
                        &&& final(self).status is Terminated
                        &&& final(self).storage@.len() == 0
                        &&& final(self).pending@.len() == 0
                        &&& final(self).completed == old(self).completed
                    } else {
                        &&& (r matches DriverAction::Speak { text, delete } ==> text@ === t
                            && delete == old(self).completed)
                        &&& r is Speak
                        &&& final(self).status is Running
                        &&& final(self).completed == old(self).completed + 1
                        &&& final(self).storage@ === old(self).storage@.subrange(
                            1,
                            old(self).storage@.len() as int,
                        )
                        &&& old(self).storage@[0] == old(self).completed
                        &&& final(self).pending@ === old(self).pending@
                    }
                },
            },
    {
        match classify_response(resp) {
            TranslateOutcome::Malformed => {
                self.status = Status::Failed;
                DriverAction::Halt
            },
            TranslateOutcome::Terminate => {
                self.status = Status::Terminated;
                self.storage.clear();
                self.pending.clear();
                DriverAction::Purge
            },
            TranslateOutcome::Speak(text) => {
                let id = self.completed;
                let _removed = self.storage.remove(0);
                self.completed = id + 1;
                proof {
                    assert(self.storage@ =~= Seq::new(
                        (self.seg.open_id + 1 - self.completed) as nat,
                        |k: int| (self.completed + k) as u64,
                    ));
                }
                DriverAction::Speak { text, delete: id }
            },
        }
    }

    /// The process exit status owed in each pipeline state: none while
    /// running, zero after a graceful termination, nonzero after a failure.
    pub fn exit_code(&self) -> (r: Option<u8>)
        ensures
            self.status is Terminated ==> r == Some(0u8),
            self.status is Failed ==> r == Some(1u8),
            self.status is Running ==> r is None,
    {
        match self.status {
            Status::Running => None,
            Status::Terminated => Some(0),
            Status::Failed => Some(1),
        }
    }

    /// Law: handoff records reach the driver in exactly the order their
    /// segments were finalized. The pending queue holds, oldest first,
    /// precisely the finalized identifiers not yet dispatched, in strictly
    /// increasing order, so each dequeue yields the oldest of them.
    pub proof fn lemma_fifo_handoff(self)
        requires
            self.inv(),
            self.status is Running,
        ensures
            forall|k: int|
                0 <= k < self.pending@.len() ==> #[trigger] self.pending@[k] == self.dispatched
                    + k,
            forall|k1: int, k2: int|
                0 <= k1 < k2 < self.pending@.len() ==> self.pending@[k1] < self.pending@[k2],
    {
    }

    /// Law: a segment's storage is never deleted before its translation has
    /// returned successfully. While the pipeline runs, any segment absent
    /// from storage is one whose translation completed.
    pub proof fn lemma_delete_only_after_translate(self, id: u64)
        requires
            self.inv(),
            self.status is Running,
            id <= self.seg.open_id,
            !self.storage@.contains(id),
        ensures
            id < self.completed,
    {
        if id >= self.completed {
            assert(self.storage@[id - self.completed] == id);
        }
    }

    /// Law: once the pipeline has terminated, no segment storage remains and
    /// nothing is left pending.
    pub proof fn lemma_terminated_purged(self)
        requires
            self.inv(),
            self.status is Terminated,
        ensures
            self.storage@.len() == 0,
            self.pending@.len() == 0,
    {
    }
}

} // verus!
