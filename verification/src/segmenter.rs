//! Partitions an unbounded stream of sample batches into fixed-duration
//! segments, finalizing the open segment once its time budget has elapsed
//! and opening the next one under the next sequential identifier.

use vstd::prelude::*;

verus! {

/// Record of one finalized segment: its identifier, the elapsed time it
/// covers, and the number of samples written to it.
pub struct FinalizedSegment {
    pub id: u64,
    pub duration_ms: u64,
    pub samples: u64,
}

/// The segmentation state machine. Exactly one segment is open at any time
/// (the one with identifier `open_id`); all earlier identifiers are
/// finalized, in order, each with a duration at or above the threshold.
pub struct Segmenter {
    /// Configured segment duration budget, in milliseconds.
    pub threshold_ms: u64,
    /// Identifier of the one currently open segment.
    pub open_id: u64,
    /// Time elapsed since the open segment was opened, in milliseconds.
    pub open_elapsed_ms: u64,
    /// Samples written to the open segment so far.
    pub open_samples: u64,
    /// History of finalized segments, in finalization order.
    pub history: Ghost<Seq<FinalizedSegment>>,
}

impl Segmenter {
    /// Well-formedness: finalized identifiers are exactly 0, 1, ... in
    /// order with no gaps, every finalized duration reached the threshold,
    /// and the open segment is the next identifier after the history.
    pub open spec fn wf(self) -> bool {
        &&& self.threshold_ms >= 1
        &&& self.open_id == self.history@.len()
        &&& self.open_elapsed_ms < self.threshold_ms
        &&& forall|i: int|
            0 <= i < self.history@.len() ==> {
                &&& (#[trigger] self.history@[i]).id == i
                &&& self.history@[i].duration_ms >= self.threshold_ms
            }
    }

    /// A segment identifier is open exactly when it is the one open segment.
    pub open spec fn seg_is_open(self, id: u64) -> bool {
        id == self.open_id
    }

    /// A segment identifier has been finalized exactly when it precedes the
    /// open one.
    pub open spec fn seg_is_finalized(self, id: u64) -> bool {
        id < self.open_id
    }

    /// Opens segment 0 with an empty history.
    pub fn new(threshold_ms: u64) -> (s: Segmenter)
        requires
            threshold_ms >= 1,
        ensures
            s.wf(),
            s.threshold_ms == threshold_ms,
            s.open_id == 0,
            s.open_elapsed_ms == 0,
            s.open_samples == 0,
            s.history@ === Seq::<FinalizedSegment>::empty(),
    {
        Segmenter {
            threshold_ms,
            open_id: 0,
            open_elapsed_ms: 0,
            open_samples: 0,
            history: Ghost(Seq::empty()),
        }
    }

    /// Accepts one sample batch: the batch is appended to the open segment,
    /// and if the open segment's elapsed time has reached the threshold the
    /// segment is finalized, the next one is opened, and the finalized
    /// identifier is returned.
    pub fn on_batch(&mut self, batch_len: usize, batch_ms: u64) -> (r: Option<u64>)
        requires
            old(self).wf(),
            old(self).open_elapsed_ms + batch_ms <= u64::MAX,
            old(self).open_samples + batch_len <= u64::MAX,
            old(self).open_id < u64::MAX,
        ensures
            final(self).wf(),
            final(self).threshold_ms == old(self).threshold_ms,
            if old(self).open_elapsed_ms + batch_ms >= old(self).threshold_ms {
                &&& r == Some(old(self).open_id)
                &&& final(self).history@ === old(self).history@.push(
                    FinalizedSegment {
                        id: old(self).open_id,
                        duration_ms: (old(self).open_elapsed_ms + batch_ms) as u64,
                        samples: (old(self).open_samples + batch_len) as u64,
                    },
                )
                &&& final(self).open_id == old(self).open_id + 1
                &&& final(self).open_elapsed_ms == 0
                &&& final(self).open_samples == 0
            } else {
                &&& r is None
                &&& final(self).history@ === old(self).history@
                &&& final(self).open_id == old(self).open_id
                &&& final(self).open_elapsed_ms == old(self).open_elapsed_ms + batch_ms
                &&& final(self).open_samples == old(self).open_samples + batch_len
            },
    {
        let elapsed = self.open_elapsed_ms + batch_ms;
        let samples = self.open_samples + batch_len as u64;
        if elapsed >= self.threshold_ms {
            let fid = self.open_id;
            self.history = Ghost(
                self.history@.push(FinalizedSegment { id: fid, duration_ms: elapsed, samples }),
            );
            self.open_id = fid + 1;
            self.open_elapsed_ms = 0;
            self.open_samples = 0;
            Some(fid)
        } else {
            self.open_elapsed_ms = elapsed;
            self.open_samples = samples;
            None
        }
    }

    /// Law: finalized segment identifiers are strictly increasing with no
    /// gaps (the identifier at position `i` of the history is `i`), and every
    /// finalized segment's duration is at least the configured threshold.
    pub proof fn lemma_finalization_order(self)
        requires
            self.wf(),
        ensures
            forall|i: int|
                0 <= i < self.history@.len() ==> (#[trigger] self.history@[i]).id == i,
            forall|i: int, j: int|
                0 <= i < j < self.history@.len() ==> self.history@[i].id < self.history@[j].id,
            forall|i: int|
                0 <= i < self.history@.len() ==> (#[trigger] self.history@[i]).duration_ms
                    >= self.threshold_ms,
    {
    }

    /// Law: at any instant exactly one segment is open for writing: some
    /// identifier is open, any two open identifiers coincide, and no open
    /// identifier is a finalized one.
    pub proof fn lemma_one_open_segment(self)
        requires
            self.wf(),
        ensures
            self.seg_is_open(self.open_id),
            forall|a: u64, b: u64| self.seg_is_open(a) && self.seg_is_open(b) ==> a == b,
            forall|id: u64| !(self.seg_is_open(id) && self.seg_is_finalized(id)),
    {
    }
}

/// The decimal digits of `n`, most significant first, as ASCII bytes.
pub open spec fn decimal_digits(n: nat) -> Seq<u8>
    decreases n,
{
    if n < 10 {
        seq![(48 + n) as u8]
    } else {
        decimal_digits(n / 10) + seq![(48 + n % 10) as u8]
    }
}

/// The bytes of `output`, preceding the identifier in a segment's file name.
pub open spec fn name_prefix() -> Seq<u8> {
    seq![111u8, 117u8, 116u8, 112u8, 117u8, 116u8]
}

/// The bytes of `.wav`, following the identifier in a segment's file name.
pub open spec fn name_suffix() -> Seq<u8> {
    seq![46u8, 119u8, 97u8, 118u8]
}

/// The file name under which a segment's storage lives: `output`, the
/// segment identifier in decimal, `.wav`.
pub open spec fn segment_storage_name(id: u64) -> Seq<u8> {
    name_prefix() + decimal_digits(id as nat) + name_suffix()
}

/// Renders `n` in decimal, most significant digit first.
pub fn u64_to_decimal(n: u64) -> (r: Vec<u8>)
    ensures
        r@ === decimal_digits(n as nat),
    decreases n,
{
    if n < 10 {
        let mut v: Vec<u8> = Vec::new();
        v.push(48 + n as u8);
        proof {
            assert(v@ =~= decimal_digits(n as nat));
        }
        v
    } else {
        let mut v = u64_to_decimal(n / 10);
        v.push(48 + (n % 10) as u8);
        proof {
            assert(v@ =~= decimal_digits((n / 10) as nat) + seq![(48 + n as nat % 10) as u8]);
        }
        v
    }
}

/// Builds the file name of the given segment's storage (ASCII bytes).
pub fn segment_file_name(id: u64) -> (r: Vec<u8>)
    ensures
        r@ === segment_storage_name(id),
{
    let mut v: Vec<u8> = Vec::new();
    v.push(111);
    v.push(117);
    v.push(116);
    v.push(112);
    v.push(117);
    v.push(116);
    proof {
        assert(v@ =~= name_prefix());
    }
    let mut digits = u64_to_decimal(id);
    v.append(&mut digits);
    v.push(46);
    v.push(119);
    v.push(97);
    v.push(118);
    proof {
        assert(v@ =~= segment_storage_name(id));
    }
    v
}

} // verus!
