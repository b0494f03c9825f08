//! Point records and identifier assignment.
//!
//! One record is built per surviving embedding whose length matches
//! the configured vector dimension; a mismatched embedding is dropped
//! — a per-record event that never aborts the batch.  Identifiers
//! come from a single monotonically advancing counter: one is
//! consumed exactly when a record is queued, never for a dropped
//! embedding, so the identifiers of a run form a contiguous
//! increasing sequence.

use vstd::prelude::*;

verus! {

/// The unit written to the vector store: an identifier, an embedding
/// vector as 32-bit float bit patterns, and the source file's name
/// as metadata.
#[derive(Debug)]
pub struct PointRecord {
    /// The record's identifier in the store.
    pub id: u64,
    /// The embedding vector's bit patterns.
    pub vector: Vec<u32>,
    /// The source image's file name, kept in the record payload.
    pub filename: String,
}

impl PointRecord {
    /// The record's content as plain values.
    pub open spec fn content(&self) -> (int, Seq<u32>, Seq<char>) {
        (self.id as int, self.vector@, self.filename@)
    }
}

/// How many embeddings of a batch match the expected dimension.
pub open spec fn kept_count(embs: Seq<Seq<u32>>, dim: int) -> int
    decreases embs.len(),
{
    if embs.len() == 0 {
        0
    } else {
        kept_count(embs.drop_last(), dim) + if embs.last().len() == dim {
            1int
        } else {
            0int
        }
    }
}

/// The positions of the embeddings that match the expected
/// dimension, in order.
pub open spec fn kept_positions(embs: Seq<Seq<u32>>, dim: int) -> Seq<int>
    decreases embs.len(),
{
    if embs.len() == 0 {
        Seq::empty()
    } else {
        let rest = kept_positions(embs.drop_last(), dim);
        if embs.last().len() == dim {
            rest.push(embs.len() - 1)
        } else {
            rest
        }
    }
}

/// The records a batch yields: one per matching embedding, paired
/// with its file name, in batch order, with identifiers counted off
/// from `start` — the k-th record built gets identifier `start + k`.
pub open spec fn spec_records(
    names: Seq<Seq<char>>,
    embs: Seq<Seq<u32>>,
    start: int,
    dim: int,
) -> Seq<(int, Seq<u32>, Seq<char>)>
    recommends
        names.len() == embs.len(),
    decreases embs.len(),
{
    if embs.len() == 0 || names.len() != embs.len() {
        Seq::empty()
    } else {
        let rest = spec_records(names.drop_last(), embs.drop_last(), start, dim);
        if embs.last().len() == dim {
            rest.push((start + rest.len(), embs.last(), names.last()))
        } else {
            rest
        }
    }
}

/// The kept positions are as many as the kept count, lie within the
/// batch, and are strictly increasing: dropping a mismatched
/// embedding never reorders the survivors.
pub proof fn lemma_kept_positions(embs: Seq<Seq<u32>>, dim: int)
    ensures
        kept_positions(embs, dim).len() == kept_count(embs, dim),
        forall|k: int|
            0 <= k < kept_positions(embs, dim).len() ==> 0 <= #[trigger] kept_positions(
                embs,
                dim,
            )[k] < embs.len(),
        forall|k1: int, k2: int|
            0 <= k1 < k2 < kept_positions(embs, dim).len() ==> #[trigger] kept_positions(
                embs,
                dim,
            )[k1] < #[trigger] kept_positions(embs, dim)[k2],
    decreases embs.len(),
{
    if embs.len() != 0 {
        lemma_kept_positions(embs.drop_last(), dim);
        let rest = kept_positions(embs.drop_last(), dim);
        let whole = kept_positions(embs, dim);
        if embs.last().len() == dim {
            assert(whole == rest.push(embs.len() - 1));
            assert forall|k1: int, k2: int|
                0 <= k1 < k2 < whole.len() implies #[trigger] whole[k1] < #[trigger] whole[k2] by {
                if k2 < rest.len() {
                    assert(whole[k1] == rest[k1] && whole[k2] == rest[k2]);
                } else {
                    assert(whole[k2] == embs.len() - 1);
                    assert(whole[k1] == rest[k1]);
                }
            };
        } else {
            assert(whole == rest);
        }
    }
}

/// As many records come out as embeddings match the dimension.
pub proof fn lemma_records_len(names: Seq<Seq<char>>, embs: Seq<Seq<u32>>, start: int, dim: int)
    requires
        names.len() == embs.len(),
    ensures
        spec_records(names, embs, start, dim).len() == kept_count(embs, dim),
        0 <= kept_count(embs, dim) <= embs.len(),
    decreases embs.len(),
{
    if embs.len() != 0 {
        lemma_records_len(names.drop_last(), embs.drop_last(), start, dim);
    }
}

/// Identifier assignment is contiguous: the k-th record of a batch
/// carries identifier `start + k`, whatever was dropped around it.
pub proof fn lemma_record_ids_contiguous(
    names: Seq<Seq<char>>,
    embs: Seq<Seq<u32>>,
    start: int,
    dim: int,
)
    requires
        names.len() == embs.len(),
    ensures
        forall|k: int|
            0 <= k < spec_records(names, embs, start, dim).len() ==> (#[trigger] spec_records(
                names,
                embs,
                start,
                dim,
            )[k]).0 == start + k,
    decreases embs.len(),
{
    if embs.len() != 0 {
        lemma_record_ids_contiguous(names.drop_last(), embs.drop_last(), start, dim);
        let rest = spec_records(names.drop_last(), embs.drop_last(), start, dim);
        let whole = spec_records(names, embs, start, dim);
        if embs.last().len() == dim {
            assert(whole == rest.push((start + rest.len(), embs.last(), names.last())));
            assert forall|k: int| 0 <= k < whole.len() implies (#[trigger] whole[k]).0 == start
                + k by {
                if k < rest.len() {
                    assert(whole[k] == rest[k]);
                }
            };
        } else {
            assert(whole == rest);
        }
    }
}

/// Within a batch, records keep the surviving embeddings' relative
/// order, so an earlier surviving embedding gets the smaller
/// identifier.
pub proof fn lemma_record_order(names: Seq<Seq<char>>, embs: Seq<Seq<u32>>, start: int, dim: int)
    requires
        names.len() == embs.len(),
    ensures
        forall|k1: int, k2: int|
            0 <= k1 < k2 < spec_records(names, embs, start, dim).len() ==> (
            #[trigger] spec_records(names, embs, start, dim)[k1]).0 < (#[trigger] spec_records(
                names,
                embs,
                start,
                dim,
            )[k2]).0,
{
    lemma_record_ids_contiguous(names, embs, start, dim);
}

/// Copies a vector of bit patterns.
fn copy_bits(v: &Vec<u32>) -> (r: Vec<u32>)
    ensures
        r@ == v@,
{
    let mut r: Vec<u32> = Vec::new();
    let n: usize = v.len();
    let mut i: usize = 0;
    while i < n
        invariant
            n == v@.len(),
            i <= n,
            r@ == v@.take(i as int),
        decreases n - i,
    {
        let x: u32 = v[i];
        r.push(x);
        proof {
            assert(v@.take(i + 1) =~= v@.take(i as int).push(v@[i as int]));
        }
        i += 1;
    }
    proof {
        assert(v@.take(n as int) =~= v@);
    }
    r
}

/// Builds one batch's records.  Embedding `i` is paired with file
/// name `i`; an embedding whose length is not `dim` is dropped and
/// consumes no identifier.  The counter advances by exactly the
/// number of records appended.
pub fn build_records(
    names: &Vec<String>,
    embeddings: &Vec<Vec<u32>>,
    next_id: &mut u64,
    records: &mut Vec<PointRecord>,
    dim: usize,
) -> (appended: usize)
    requires
        names@.len() == embeddings@.len(),
        *old(next_id) + embeddings@.len() <= u64::MAX,
    ensures
        final(records)@.map_values(|p: PointRecord| p.content()) == old(records)@.map_values(
            |p: PointRecord| p.content(),
        ) + spec_records(
            names@.map_values(|s: String| s@),
            embeddings@.map_values(|v: Vec<u32>| v@),
            *old(next_id) as int,
            dim as int,
        ),
        appended == kept_count(embeddings@.map_values(|v: Vec<u32>| v@), dim as int),
        *final(next_id) == *old(next_id) + appended,
        appended <= embeddings@.len(),
{
    let ghost names_v = names@.map_values(|s: String| s@);
    let ghost embs_v = embeddings@.map_values(|v: Vec<u32>| v@);
    let ghost base = old(records)@.map_values(|p: PointRecord| p.content());
    let n: usize = embeddings.len();
    let start: u64 = *next_id;
    let mut appended: usize = 0;
    let mut i: usize = 0;
    proof {
        lemma_records_len(names_v.take(0), embs_v.take(0), start as int, dim as int);
    }
    while i < n
        invariant
            n == embeddings@.len(),
            names@.len() == embeddings@.len(),
            names_v == names@.map_values(|s: String| s@),
            embs_v == embeddings@.map_values(|v: Vec<u32>| v@),
            i <= n,
            start + n <= u64::MAX,
            appended <= i,
            appended == kept_count(embs_v.take(i as int), dim as int),
            *next_id == start + appended,
            records@.map_values(|p: PointRecord| p.content()) == base + spec_records(
                names_v.take(i as int),
                embs_v.take(i as int),
                start as int,
                dim as int,
            ),
        decreases n - i,
    {
        proof {
            lemma_records_len(
                names_v.take(i as int),
                embs_v.take(i as int),
                start as int,
                dim as int,
            );
            assert(names_v.take(i + 1).drop_last() =~= names_v.take(i as int));
            assert(embs_v.take(i + 1).drop_last() =~= embs_v.take(i as int));
            assert(names_v.take(i + 1).last() == names@[i as int]@);
            assert(embs_v.take(i + 1).last() == embeddings@[i as int]@);
        }
        let ghost prev = records@.map_values(|p: PointRecord| p.content());
        if embeddings[i].len() == dim {
            let rec = PointRecord {
                id: *next_id,
                vector: copy_bits(&embeddings[i]),
                filename: names[i].clone(),
            };
            records.push(rec);
            *next_id = *next_id + 1;
            appended += 1;
            proof {
                assert(records@.map_values(|p: PointRecord| p.content()) =~= prev.push(
                    (start + (appended - 1), embeddings@[i as int]@, names@[i as int]@),
                ));
                assert(spec_records(
                    names_v.take(i + 1),
                    embs_v.take(i + 1),
                    start as int,
                    dim as int,
                ) =~= spec_records(
                    names_v.take(i as int),
                    embs_v.take(i as int),
                    start as int,
                    dim as int,
                ).push((start + (appended - 1), embeddings@[i as int]@, names@[i as int]@)));
                assert(records@.map_values(|p: PointRecord| p.content()) =~= base + spec_records(
                    names_v.take(i + 1),
                    embs_v.take(i + 1),
                    start as int,
                    dim as int,
                ));
            }
        } else {
            proof {
                assert(records@.map_values(|p: PointRecord| p.content()) =~= base + spec_records(
                    names_v.take(i + 1),
                    embs_v.take(i + 1),
                    start as int,
                    dim as int,
                ));
            }
        }
        i += 1;
    }
    proof {
        assert(names_v.take(n as int) =~= names_v);
        assert(embs_v.take(n as int) =~= embs_v);
    }
    appended
}

} // verus!
