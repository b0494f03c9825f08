//! The pipeline coordinator: the run's control state and its ledger.
//!
//! The coordinator drives one run as a state machine.  The caller
//! performs the outside work — reading files, running the model,
//! writing to the store, querying its count — and reports each
//! outcome; the coordinator makes every decision in between: which
//! batch is next, whether a batch is skipped, which records are
//! built, what identifier each gets, when the run is finished and
//! when it has failed.  Batches advance strictly in discovery order;
//! a batch's write is acknowledged before the next batch is touched.
//!
//! The ledger is the heart of it: identifiers are issued contiguously
//! from the store's pre-run count, only when a record is actually
//! queued, and the ghost log of issued identifiers carries the proofs
//! that the sequence has no gaps and respects discovery order.

use vstd::prelude::*;

use crate::errors::PipelineError;
use crate::imaging::DecodedImage;
use crate::records::{
    build_records, kept_count, kept_positions, lemma_kept_positions, spec_records, PointRecord,
};

verus! {

/// Where the coordinator stands in the current batch's round trip.
#[derive(Clone, Copy, Debug, PartialEq, Eq, Structural)]
pub enum Phase {
    /// Waiting for the current batch's decoded images.
    Loading,
    /// Waiting for the model's raw output on the current batch.
    Inferring,
    /// Waiting for the store to acknowledge the batch's write.
    Writing,
    /// Waiting for the store's record count after the write.
    Verifying,
    /// Every batch is done; the run succeeded.
    Finished,
    /// A fatal error ended the run; written batches stay in the store.
    Failed,
}

/// The outcome of the post-write count verification: a diagnostic,
/// never a correctness gate.
#[derive(Clone, Copy, Debug, PartialEq, Eq, Structural)]
pub enum CountCheck {
    /// The store's count matches the running expected total.
    Consistent,
    /// The store's count differs — logged and ignored, the run goes
    /// on.
    Warning,
}

/// The coordinator's state: configuration excerpts, the batch
/// cursor, the ledger counters, and the ghost log of issued
/// identifiers.
pub struct Coordinator {
    /// Length every stored vector must have.
    pub vector_dim: usize,
    /// Largest number of images per batch.
    pub batch_capacity: usize,
    /// How many batches the run has in total.
    pub total_chunks: usize,
    /// The store's record count observed before the run.
    pub initial_count: u64,
    /// The next identifier to issue.
    pub next_id: u64,
    /// The batch currently worked on.
    pub chunk_idx: usize,
    /// Images successfully decoded so far.
    pub decoded_total: u64,
    /// Records dropped so far for a dimension mismatch.
    pub mismatched_total: u64,
    /// Records acknowledged written so far.
    pub written_total: u64,
    /// Records of the in-flight batch, between build and write
    /// acknowledgement.
    pub batch_kept: usize,
    /// Where the coordinator stands.
    pub phase: Phase,
    /// File names of the current batch's survivors, between decode
    /// and record build.
    pub pending_names: Vec<String>,
    /// Discovery indices of the current batch's survivors.
    pub pending_indices: Ghost<Seq<int>>,
    /// Every record issued this run: its image's discovery index and
    /// its identifier, in issue order.
    pub log: Ghost<Seq<(int, int)>>,
    /// Strict upper bound on every discovery index in the log; later
    /// batches must stay at or above it.
    pub index_floor: Ghost<int>,
}

impl Coordinator {
    /// The coordinator's invariant.  The ledger balances — written
    /// records are exactly the decoded images minus the dimension
    /// mismatches, with the in-flight batch accounted for by phase —
    /// and the log's identifiers are contiguous from the pre-run
    /// count while its discovery indices strictly increase.
    pub open spec fn wf(&self) -> bool {
        &&& self.vector_dim >= 1
        &&& self.batch_capacity >= 1
        &&& self.chunk_idx <= self.total_chunks
        &&& self.next_id == self.initial_count + self.log@.len()
        &&& forall|k: int|
            0 <= k < self.log@.len() ==> (#[trigger] self.log@[k]).1 == self.initial_count + k
        &&& forall|k1: int, k2: int|
            0 <= k1 < k2 < self.log@.len() ==> (#[trigger] self.log@[k1]).0 < (
            #[trigger] self.log@[k2]).0
        &&& forall|k: int| 0 <= k < self.log@.len() ==> (#[trigger] self.log@[k]).0 < self.index_floor@
        &&& self.mismatched_total <= self.decoded_total
        &&& match self.phase {
            Phase::Loading | Phase::Finished => {
                &&& self.written_total == self.decoded_total - self.mismatched_total
                &&& self.log@.len() == self.written_total
                &&& self.pending_names@.len() == 0
                &&& (self.phase == Phase::Finished ==> self.chunk_idx == self.total_chunks)
                &&& (self.phase == Phase::Loading ==> self.chunk_idx < self.total_chunks)
            },
            Phase::Inferring => {
                &&& self.chunk_idx < self.total_chunks
                &&& self.pending_names@.len() >= 1
                &&& self.written_total + self.pending_names@.len() == self.decoded_total
                    - self.mismatched_total
                &&& self.log@.len() == self.written_total
                &&& self.next_id + self.pending_names@.len() <= u64::MAX
                &&& self.pending_indices@.len() == self.pending_names@.len()
                &&& forall|k1: int, k2: int|
                    0 <= k1 < k2 < self.pending_indices@.len()
                        ==> #[trigger] self.pending_indices@[k1]
                        < #[trigger] self.pending_indices@[k2]
                &&& forall|k: int|
                    0 <= k < self.pending_indices@.len() ==> #[trigger] self.pending_indices@[k]
                        >= self.index_floor@
            },
            Phase::Writing => {
                &&& self.chunk_idx < self.total_chunks
                &&& self.written_total + self.batch_kept == self.decoded_total
                    - self.mismatched_total
                &&& self.log@.len() == self.written_total + self.batch_kept
                &&& self.pending_names@.len() == 0
            },
            Phase::Verifying => {
                &&& self.chunk_idx < self.total_chunks
                &&& self.written_total == self.decoded_total - self.mismatched_total
                &&& self.log@.len() == self.written_total
                &&& self.pending_names@.len() == 0
            },
            Phase::Failed => true,
        }
    }

    /// Sets up a run: no identifier issued yet, the counter seeded
    /// with the store's pre-run count, the first batch up next — or
    /// the run already finished when there is none.
    pub fn new(
        vector_dim: usize,
        batch_capacity: usize,
        total_chunks: usize,
        initial_count: u64,
    ) -> (r: Coordinator)
        requires
            vector_dim >= 1,
            batch_capacity >= 1,
        ensures
            r.wf(),
            r.vector_dim == vector_dim,
            r.batch_capacity == batch_capacity,
            r.total_chunks == total_chunks,
            r.initial_count == initial_count,
            r.next_id == initial_count,
            r.chunk_idx == 0,
            r.decoded_total == 0,
            r.mismatched_total == 0,
            r.written_total == 0,
            r.log@.len() == 0,
            r.phase == (if total_chunks == 0 {
                Phase::Finished
            } else {
                Phase::Loading
            }),
            r.index_floor@ == 0,
    {
        let phase = if total_chunks == 0 {
            Phase::Finished
        } else {
            Phase::Loading
        };
        Coordinator {
            vector_dim,
            batch_capacity,
            total_chunks,
            initial_count,
            next_id: initial_count,
            chunk_idx: 0,
            decoded_total: 0,
            mismatched_total: 0,
            written_total: 0,
            batch_kept: 0,
            phase,
            pending_names: Vec::new(),
            pending_indices: Ghost(Seq::empty()),
            log: Ghost(Seq::empty()),
            index_floor: Ghost(0),
        }
    }

    /// Takes the current batch's decoded survivors.  An empty batch
    /// — everything in it failed to read or decode — is valid and is
    /// skipped without error and without consuming an identifier; a
    /// nonempty batch moves the run to inference.  The survivors
    /// must arrive in discovery order, at or above every index seen
    /// before.
    pub fn on_batch(&mut self, batch: &Vec<DecodedImage>)
        requires
            old(self).wf(),
            old(self).phase == Phase::Loading,
            batch@.len() <= old(self).batch_capacity,
            forall|k1: int, k2: int|
                0 <= k1 < k2 < batch@.len() ==> (#[trigger] batch@[k1]).index < (
                #[trigger] batch@[k2]).index,
            forall|k: int|
                0 <= k < batch@.len() ==> (#[trigger] batch@[k]).index as int >= old(
                    self,
                ).index_floor@,
            old(self).next_id + batch@.len() <= u64::MAX,
            old(self).decoded_total + batch@.len() <= u64::MAX,
        ensures
            final(self).wf(),
            final(self).vector_dim == old(self).vector_dim,
            final(self).batch_capacity == old(self).batch_capacity,
            final(self).total_chunks == old(self).total_chunks,
            final(self).initial_count == old(self).initial_count,
            final(self).next_id == old(self).next_id,
            final(self).decoded_total == old(self).decoded_total + batch@.len(),
            final(self).mismatched_total == old(self).mismatched_total,
            final(self).written_total == old(self).written_total,
            final(self).log == old(self).log,
            final(self).index_floor == old(self).index_floor,
            batch@.len() == 0 ==> {
                &&& final(self).chunk_idx == old(self).chunk_idx + 1
                &&& final(self).phase == (if old(self).chunk_idx + 1 == old(self).total_chunks {
                    Phase::Finished
                } else {
                    Phase::Loading
                })
            },
            batch@.len() > 0 ==> {
                &&& final(self).chunk_idx == old(self).chunk_idx
                &&& final(self).phase == Phase::Inferring
                &&& final(self).pending_names@.map_values(|s: String| s@) == batch@.map_values(
                    |d: DecodedImage| d.name@,
                )
                &&& final(self).pending_indices@ == batch@.map_values(
                    |d: DecodedImage| d.index as int,
                )
            },
    {
        let n: usize = batch.len();
        self.decoded_total = self.decoded_total + (n as u64);
        if n == 0 {
            self.chunk_idx = self.chunk_idx + 1;
            if self.chunk_idx == self.total_chunks {
                self.phase = Phase::Finished;
            } else {
                self.phase = Phase::Loading;
            }
            return ;
        }
        let mut names: Vec<String> = Vec::new();
        let mut i: usize = 0;
        while i < n
            invariant
                n == batch@.len(),
                i <= n,
                names@.len() == i,
                forall|j: int| 0 <= j < i ==> (#[trigger] names@[j])@ == batch@[j].name@,
            decreases n - i,
        {
            names.push(batch[i].name.clone());
            i += 1;
        }
        self.pending_names = names;
        self.pending_indices = Ghost(batch@.map_values(|d: DecodedImage| d.index as int));
        self.phase = Phase::Inferring;
        proof {
            assert(self.pending_names@.map_values(|s: String| s@) =~= batch@.map_values(
                |d: DecodedImage| d.name@,
            ));
        }
    }

    /// Takes one embedding per pending survivor and builds the
    /// batch's records.  A row count that differs from the batch is
    /// malformed model output: fatal, nothing issued.  Otherwise a
    /// record is built per embedding of the right length — each
    /// consuming the next identifier — and mismatched embeddings are
    /// dropped and counted, never fatal.
    pub fn on_embeddings(&mut self, embeddings: &Vec<Vec<u32>>) -> (r: Result<
        Vec<PointRecord>,
        PipelineError,
    >)
        requires
            old(self).wf(),
            old(self).phase == Phase::Inferring,
        ensures
            final(self).wf(),
            final(self).vector_dim == old(self).vector_dim,
            final(self).batch_capacity == old(self).batch_capacity,
            final(self).total_chunks == old(self).total_chunks,
            final(self).initial_count == old(self).initial_count,
            final(self).chunk_idx == old(self).chunk_idx,
            final(self).decoded_total == old(self).decoded_total,
            final(self).written_total == old(self).written_total,
            match r {
                Ok(recs) => {
                    &&& embeddings@.len() == old(self).pending_names@.len()
                    &&& final(self).phase == Phase::Writing
                    &&& recs@.map_values(|p: PointRecord| p.content()) == spec_records(
                        old(self).pending_names@.map_values(|s: String| s@),
                        embeddings@.map_values(|v: Vec<u32>| v@),
                        old(self).next_id as int,
                        old(self).vector_dim as int,
                    )
                    &&& final(self).next_id == old(self).next_id + kept_count(
                        embeddings@.map_values(|v: Vec<u32>| v@),
                        old(self).vector_dim as int,
                    )
                    &&& final(self).batch_kept == kept_count(
                        embeddings@.map_values(|v: Vec<u32>| v@),
                        old(self).vector_dim as int,
                    )
                    &&& final(self).mismatched_total == old(self).mismatched_total + (
                    embeddings@.len() - kept_count(
                        embeddings@.map_values(|v: Vec<u32>| v@),
                        old(self).vector_dim as int,
                    ))
                    &&& final(self).log@.len() == old(self).log@.len() + kept_count(
                        embeddings@.map_values(|v: Vec<u32>| v@),
                        old(self).vector_dim as int,
                    )
                    &&& final(self).index_floor@ == old(self).pending_indices@[old(
                        self,
                    ).pending_indices@.len() - 1] + 1
                },
                Err(e) => {
                    &&& e == PipelineError::Inference
                    &&& embeddings@.len() != old(self).pending_names@.len()
                    &&& final(self).phase == Phase::Failed
                    &&& final(self).next_id == old(self).next_id
                    &&& final(self).mismatched_total == old(self).mismatched_total
                    &&& final(self).log == old(self).log
                    &&& final(self).index_floor == old(self).index_floor
                },
            },
    {
        let pend_len: usize = self.pending_names.len();
        if embeddings.len() != pend_len {
            self.phase = Phase::Failed;
            return Err(PipelineError::Inference);
        }
        let ghost names_v = self.pending_names@.map_values(|s: String| s@);
        let ghost embs_v = embeddings@.map_values(|v: Vec<u32>| v@);
        let ghost old_log = self.log@;
        let ghost pend_idx = self.pending_indices@;
        let ghost old_next = self.next_id as int;
        let ghost dim = self.vector_dim as int;
        let mut nid: u64 = self.next_id;
        let mut recs: Vec<PointRecord> = Vec::new();
        let appended: usize = build_records(
            &self.pending_names,
            embeddings,
            &mut nid,
            &mut recs,
            self.vector_dim,
        );
        self.next_id = nid;
        self.mismatched_total = self.mismatched_total + ((pend_len - appended) as u64);
        self.batch_kept = appended;
        self.pending_names = Vec::new();
        proof {
            lemma_kept_positions(embs_v, dim);
        }
        let ghost new_log = old_log + Seq::new(
            appended as nat,
            |k: int| (pend_idx[kept_positions(embs_v, dim)[k]], old_next + k),
        );
        self.log = Ghost(new_log);
        self.index_floor = Ghost(pend_idx[pend_idx.len() - 1] + 1);
        self.pending_indices = Ghost(Seq::empty());
        self.phase = Phase::Writing;
        proof {
            let added = Seq::new(
                appended as nat,
                |k: int| (pend_idx[kept_positions(embs_v, dim)[k]], old_next + k),
            );
            assert(new_log.len() == old_log.len() + appended);
            assert forall|k: int| 0 <= k < new_log.len() implies (#[trigger] new_log[k]).1
                == self.initial_count + k by {
                if k < old_log.len() {
                    assert(new_log[k] == old_log[k]);
                } else {
                    assert(new_log[k] == added[k - old_log.len()]);
                }
            };
            assert forall|k1: int, k2: int| 0 <= k1 < k2 < new_log.len() implies (
            #[trigger] new_log[k1]).0 < (#[trigger] new_log[k2]).0 by {
                let floor = old(self).index_floor@;
                if k1 < old_log.len() && k2 < old_log.len() {
                    assert(new_log[k1] == old_log[k1] && new_log[k2] == old_log[k2]);
                } else if k1 < old_log.len() {
                    assert(new_log[k1] == old_log[k1]);
                    assert(new_log[k2] == added[k2 - old_log.len()]);
                    let p2 = kept_positions(embs_v, dim)[k2 - old_log.len()];
                    assert(0 <= p2 < pend_idx.len());
                    assert(pend_idx[p2] >= floor);
                    assert(old_log[k1].0 < floor);
                } else {
                    assert(new_log[k1] == added[k1 - old_log.len()]);
                    assert(new_log[k2] == added[k2 - old_log.len()]);
                    let p1 = kept_positions(embs_v, dim)[k1 - old_log.len()];
                    let p2 = kept_positions(embs_v, dim)[k2 - old_log.len()];
                    assert(p1 < p2);
                    assert(pend_idx[p1] < pend_idx[p2]);
                }
            };
            assert forall|k: int| 0 <= k < new_log.len() implies (#[trigger] new_log[k]).0
                < self.index_floor@ by {
                let floor = old(self).index_floor@;
                let last_idx = pend_idx[pend_idx.len() - 1];
                if k < old_log.len() {
                    assert(new_log[k] == old_log[k]);
                    assert(old_log[k].0 < floor);
                    assert(pend_idx[pend_idx.len() - 1] >= floor);
                } else {
                    assert(new_log[k] == added[k - old_log.len()]);
                    let p = kept_positions(embs_v, dim)[k - old_log.len()];
                    assert(0 <= p < pend_idx.len());
                    if p < pend_idx.len() - 1 {
                        assert(pend_idx[p] < pend_idx[pend_idx.len() - 1]);
                    }
                }
            };
        }
        Ok(recs)
    }

    /// The model call itself failed: fatal for the whole run, since
    /// one batched call covers many images.
    pub fn on_inference_error(&mut self) -> (e: PipelineError)
        requires
            old(self).wf(),
        ensures
            final(self).wf(),
            final(self).phase == Phase::Failed,
            e == PipelineError::Inference,
    {
        self.phase = Phase::Failed;
        PipelineError::Inference
    }

    /// The store acknowledged the batch's write: the ledger moves the
    /// batch's records from in-flight to written.
    pub fn on_write_ok(&mut self)
        requires
            old(self).wf(),
            old(self).phase == Phase::Writing,
        ensures
            final(self).wf(),
            final(self).phase == Phase::Verifying,
            final(self).written_total == old(self).written_total + old(self).batch_kept,
            final(self).next_id == old(self).next_id,
            final(self).decoded_total == old(self).decoded_total,
            final(self).mismatched_total == old(self).mismatched_total,
            final(self).chunk_idx == old(self).chunk_idx,
            final(self).total_chunks == old(self).total_chunks,
            final(self).initial_count == old(self).initial_count,
            final(self).log == old(self).log,
            final(self).vector_dim == old(self).vector_dim,
            final(self).batch_capacity == old(self).batch_capacity,
            final(self).index_floor == old(self).index_floor,
    {
        self.written_total = self.written_total + (self.batch_kept as u64);
        self.batch_kept = 0;
        self.phase = Phase::Verifying;
    }

    /// The store rejected the batch's write: fatal, no partial-batch
    /// retry; batches already written stay.
    pub fn on_write_error(&mut self) -> (e: PipelineError)
        requires
            old(self).wf(),
        ensures
            final(self).wf(),
            final(self).phase == Phase::Failed,
            e == PipelineError::Write,
    {
        self.phase = Phase::Failed;
        PipelineError::Write
    }

    /// Takes the store's record count observed after the write and
    /// compares it with the running expected total.  A mismatch is a
    /// diagnostic warning, never fatal and never a rollback: the run
    /// advances to the next batch either way, or finishes.
    pub fn on_count_observed(&mut self, observed: u64) -> (c: CountCheck)
        requires
            old(self).wf(),
            old(self).phase == Phase::Verifying,
        ensures
            final(self).wf(),
            c == (if observed == old(self).next_id {
                CountCheck::Consistent
            } else {
                CountCheck::Warning
            }),
            final(self).chunk_idx == old(self).chunk_idx + 1,
            final(self).phase == (if old(self).chunk_idx + 1 == old(self).total_chunks {
                Phase::Finished
            } else {
                Phase::Loading
            }),
            final(self).next_id == old(self).next_id,
            final(self).decoded_total == old(self).decoded_total,
            final(self).mismatched_total == old(self).mismatched_total,
            final(self).written_total == old(self).written_total,
            final(self).log == old(self).log,
            final(self).initial_count == old(self).initial_count,
            final(self).total_chunks == old(self).total_chunks,
            final(self).vector_dim == old(self).vector_dim,
            final(self).batch_capacity == old(self).batch_capacity,
            final(self).index_floor == old(self).index_floor,
    {
        let c = if observed == self.next_id {
            CountCheck::Consistent
        } else {
            CountCheck::Warning
        };
        self.chunk_idx = self.chunk_idx + 1;
        if self.chunk_idx == self.total_chunks {
            self.phase = Phase::Finished;
        } else {
            self.phase = Phase::Loading;
        }
        c
    }
}

/// Conservation of records: once no batch is in flight, the records
/// written are exactly the images successfully decoded minus the
/// records dropped for a dimension mismatch — and the store's
/// expected count, the next identifier, is the pre-run count plus
/// the records written.
pub proof fn lemma_written_count(c: &Coordinator)
    requires
        c.wf(),
        c.phase == Phase::Finished || c.phase == Phase::Loading,
    ensures
        c.written_total == c.decoded_total - c.mismatched_total,
        c.next_id == c.initial_count + c.written_total,
{
}

/// Identifiers of one run are contiguous and increasing: the k-th
/// record issued carries identifier `initial_count + k`, with no
/// reuse and no gaps, however many images were skipped for decode or
/// dimension reasons.
pub proof fn lemma_ids_contiguous(c: &Coordinator)
    requires
        c.wf(),
    ensures
        c.next_id == c.initial_count + c.log@.len(),
        forall|k: int|
            0 <= k < c.log@.len() ==> (#[trigger] c.log@[k]).1 == c.initial_count + k,
{
}

/// Discovery order is kept: of two surviving images of one run, the
/// one discovered earlier carries the smaller record identifier.
pub proof fn lemma_discovery_order(c: &Coordinator, k1: int, k2: int)
    requires
        c.wf(),
        0 <= k1 < c.log@.len(),
        0 <= k2 < c.log@.len(),
        c.log@[k1].0 < c.log@[k2].0,
    ensures
        c.log@[k1].1 < c.log@[k2].1,
{
    if k1 == k2 {
        assert(false);
    } else if k2 < k1 {
        assert(c.log@[k2].0 < c.log@[k1].0);
        assert(false);
    }
}

} // verus!
