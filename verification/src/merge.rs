//! Output merger.
//!
//! Combines the per-chunk mapped outputs into one final artifact, always in
//! ascending chunk-index order, whatever order the chunks completed in. A
//! per-chunk output that is missing at merge time is a `MergeError` naming
//! the first missing chunk, distinct from any chunk-scoped failure. The
//! per-chunk unmapped outputs are deliberately left unmerged.

use vstd::prelude::*;

use crate::errors::MergeError;
use crate::worker::AlignedRecord;

verus! {

/// The record sequences of the per-chunk mapped outputs, in chunk-index
/// order. Meaningful only when every output is present.
pub open spec fn mapped_views(outputs: Seq<Option<Vec<AlignedRecord>>>) -> Seq<Seq<AlignedRecord>> {
    outputs.map_values(|output: Option<Vec<AlignedRecord>>| output->Some_0@)
}

/// Appends clones of all records of `src` to `dst`.
fn append_records(dst: &mut Vec<AlignedRecord>, src: &Vec<AlignedRecord>)
    ensures
        final(dst)@ == old(dst)@ + src@,
{
    let mut i: usize = 0;
    proof {
        assert(dst@ =~= old(dst)@ + src@.subrange(0, 0));
    }
    while i < src.len()
        invariant
            i <= src@.len(),
            dst@ == old(dst)@ + src@.subrange(0, i as int),
        decreases src@.len() - i,
    {
        dst.push(src[i].clone());
        proof {
            assert(old(dst)@ + src@.subrange(0, i as int + 1) =~= (old(dst)@ + src@.subrange(
                0,
                i as int,
            )).push(src@[i as int]));
        }
        i = i + 1;
    }
    proof {
        assert(src@.subrange(0, src@.len() as int) =~= src@);
    }
}

/// Merges the per-chunk mapped outputs (position `i` holding chunk `i`'s
/// output, or `None` when that output is missing) into the final mapped
/// artifact: the concatenation of all per-chunk outputs in ascending chunk
/// index. Fails with `MergeError::MissingChunk` naming the first missing
/// chunk when any expected output is absent, and succeeds exactly when all
/// are present.
#[verifier::loop_isolation(false)]
pub fn merge_mapped(outputs: &Vec<Option<Vec<AlignedRecord>>>) -> (result: Result<
    Vec<AlignedRecord>,
    MergeError,
>)
    ensures
        result is Ok <==> (forall|i: int| 0 <= i < outputs@.len() ==> outputs@[i] is Some),
        result is Ok ==> result->Ok_0@ == mapped_views(outputs@).flatten(),
        result matches Err(MergeError::MissingChunk(missing)) ==> 0 <= missing < outputs@.len()
            && outputs@[missing as int] is None && (forall|j: int|
            0 <= j < missing ==> outputs@[j] is Some),
{
    let mut merged: Vec<AlignedRecord> = Vec::new();
    let mut i: usize = 0;
    proof {
        assert(mapped_views(outputs@.subrange(0, 0)).flatten() =~= Seq::<AlignedRecord>::empty());
    }
    while i < outputs.len()
        invariant
            i <= outputs@.len(),
            forall|j: int| 0 <= j < i ==> outputs@[j] is Some,
            merged@ == mapped_views(outputs@.subrange(0, i as int)).flatten(),
        decreases outputs@.len() - i,
    {
        match &outputs[i] {
            None => {
                return Err(MergeError::MissingChunk(i));
            },
            Some(chunk) => {
                append_records(&mut merged, chunk);
                proof {
                    broadcast use Seq::<_>::lemma_flatten_push;

                    let prefix = mapped_views(outputs@.subrange(0, i as int));
                    let next = mapped_views(outputs@.subrange(0, i as int + 1));
                    assert(next =~= prefix.push(chunk@));
                }
            },
        }
        i = i + 1;
    }
    proof {
        assert(outputs@.subrange(0, outputs@.len() as int) =~= outputs@);
    }
    Ok(merged)
}

} // verus!
