//! Chunk partitioner.
//!
//! Splits an input record stream into `chunk_count` chunks. A record is a
//! fixed-size group of consecutive lines, so a chunk boundary is always
//! rounded to a whole record: every chunk holds a whole number of records,
//! and the concatenation of the chunks in index order is exactly the input.
//! Every chunk but the last holds `total_records / chunk_count` records; the
//! last chunk absorbs the remainder. When there are fewer records than
//! chunks, the early chunks are empty rather than the split failing.

use vstd::prelude::*;

use vstd::arithmetic::div_mod::lemma_fundamental_div_mod;

verus! {

/// Number of records assigned to chunk `i` out of `chunk_count` when there
/// are `total_records` records in all: every chunk but the last gets the
/// floored even share, the last absorbs the remainder.
pub open spec fn chunk_record_count(total_records: int, chunk_count: int, i: int) -> int {
    if i < chunk_count - 1 {
        total_records / chunk_count
    } else {
        total_records - (chunk_count - 1) * (total_records / chunk_count)
    }
}

/// Index of the first record assigned to chunk `i`.
pub open spec fn chunk_record_start(total_records: int, chunk_count: int, i: int) -> int {
    i * (total_records / chunk_count)
}

/// The lines of the input that belong to chunk `i`: the lines of its
/// records, contiguous in the input.
pub open spec fn chunk_lines(
    lines: Seq<String>,
    lines_per_record: int,
    chunk_count: int,
    i: int,
) -> Seq<String> {
    let total_records = lines.len() as int / lines_per_record;
    let start = chunk_record_start(total_records, chunk_count, i);
    let count = chunk_record_count(total_records, chunk_count, i);
    lines.subrange(start * lines_per_record, (start + count) * lines_per_record)
}

/// The views of a sequence of chunks.
pub open spec fn chunk_views(chunks: Seq<Vec<String>>) -> Seq<Seq<String>> {
    chunks.map_values(|chunk: Vec<String>| chunk@)
}

/// The chunk record ranges tile `0..total_records`: each chunk's range ends
/// where the next begins, the first begins at zero, and the last ends at
/// `total_records`; no chunk is assigned a negative share, and when there
/// are at least as many records as chunks, no chunk is empty.
pub proof fn lemma_chunk_ranges_tile(total_records: int, chunk_count: int)
    requires
        total_records >= 0,
        chunk_count >= 1,
    ensures
        chunk_record_start(total_records, chunk_count, 0) == 0,
        forall|i: int|
            0 <= i < chunk_count ==> #[trigger] chunk_record_count(total_records, chunk_count, i)
                >= 0,
        forall|i: int|
            0 <= i < chunk_count - 1 ==> chunk_record_start(total_records, chunk_count, i)
                + chunk_record_count(total_records, chunk_count, i) == #[trigger] chunk_record_start(
                total_records,
                chunk_count,
                i + 1,
            ),
        chunk_record_start(total_records, chunk_count, chunk_count - 1) + chunk_record_count(
            total_records,
            chunk_count,
            chunk_count - 1,
        ) == total_records,
        chunk_count <= total_records ==> forall|i: int|
            0 <= i < chunk_count ==> #[trigger] chunk_record_count(total_records, chunk_count, i)
                >= 1,
{
    let base = total_records / chunk_count;
    lemma_fundamental_div_mod(total_records, chunk_count);
    assert(total_records % chunk_count >= 0) by (nonlinear_arith)
        requires
            total_records >= 0,
            chunk_count >= 1,
    ;
    assert(base >= 0) by (nonlinear_arith)
        requires
            total_records >= 0,
            chunk_count >= 1,
            base == total_records / chunk_count,
    ;
    assert((chunk_count - 1) * base + base == chunk_count * base) by (nonlinear_arith);
    assert forall|i: int| 0 <= i < chunk_count - 1 implies chunk_record_start(
        total_records,
        chunk_count,
        i,
    ) + chunk_record_count(total_records, chunk_count, i) == #[trigger] chunk_record_start(
        total_records,
        chunk_count,
        i + 1,
    ) by {
        assert(i * base + base == (i + 1) * base) by (nonlinear_arith);
    }
    if chunk_count <= total_records {
        assert(base >= 1) by (nonlinear_arith)
            requires
                chunk_count >= 1,
                chunk_count <= total_records,
                total_records == chunk_count * base + total_records % chunk_count,
                total_records % chunk_count < chunk_count,
        ;
    }
}

/// Partitions `lines` (a whole number of records, `lines_per_record` lines
/// each) into exactly `chunk_count` chunks on whole-record boundaries: chunk
/// `i` holds exactly the lines of its record range, every chunk but the
/// last holds the floored even share of records, the last absorbs the
/// remainder, and the concatenation of all chunks in index order is exactly
/// the input.
#[verifier::loop_isolation(false)]
pub fn partition_records(lines: &Vec<String>, lines_per_record: usize, chunk_count: usize) -> (chunks: Vec<
    Vec<String>,
>)
    requires
        lines_per_record >= 1,
        chunk_count >= 1,
        lines@.len() as int % (lines_per_record as int) == 0,
    ensures
        chunks@.len() == chunk_count,
        forall|i: int|
            0 <= i < chunk_count ==> #[trigger] chunks@[i]@ == chunk_lines(
                lines@,
                lines_per_record as int,
                chunk_count as int,
                i,
            ),
        forall|i: int|
            0 <= i < chunk_count ==> #[trigger] chunks@[i]@.len() == chunk_record_count(
                lines@.len() as int / lines_per_record as int,
                chunk_count as int,
                i,
            ) * lines_per_record,
        chunk_views(chunks@).flatten() == lines@,
{
    let ghost total_lines = lines@.len() as int;
    let ghost k = lines_per_record as int;
    let ghost n = chunk_count as int;
    let total_records: usize = lines.len() / lines_per_record;
    let ghost r = total_records as int;
    proof {
        lemma_fundamental_div_mod(total_lines, k);
        assert(total_lines == r * k) by (nonlinear_arith)
            requires
                total_lines == k * r + total_lines % k,
                total_lines % k == 0,
        ;
        lemma_chunk_ranges_tile(r, n);
    }
    let base: usize = total_records / chunk_count;
    let ghost b = base as int;
    proof {
        lemma_fundamental_div_mod(r, n);
        assert(n * b <= r) by (nonlinear_arith)
            requires
                r == n * b + r % n,
                r % n >= 0,
        ;
        assert(b <= n * b && b * (n - 1) <= n * b) by (nonlinear_arith)
            requires
                b >= 0,
                n >= 1,
        ;
    }
    let mut chunks: Vec<Vec<String>> = Vec::new();
    let mut pos: usize = 0;
    let mut i: usize = 0;
    while i < chunk_count
        invariant
            i <= chunk_count,
            chunks@.len() == i,
            pos as int == if i < chunk_count {
                chunk_record_start(r, n, i as int) * k
            } else {
                total_lines
            },
            pos <= lines@.len(),
            forall|j: int|
                0 <= j < i ==> #[trigger] chunks@[j]@ == chunk_lines(lines@, k, n, j),
            forall|j: int|
                0 <= j < i ==> #[trigger] chunks@[j]@.len() == chunk_record_count(r, n, j) * k,
            chunk_views(chunks@).flatten() == lines@.subrange(0, pos as int),
        decreases chunk_count - i,
    {
        let record_count: usize = if i + 1 == chunk_count {
            proof {
                assert(b * (n - 1) == (n - 1) * b) by (nonlinear_arith);
            }
            total_records - base * (chunk_count - 1)
        } else {
            base
        };
        let ghost cnt = chunk_record_count(r, n, i as int);
        let ghost start = chunk_record_start(r, n, i as int);
        proof {
            assert(record_count as int == cnt);
            assert(cnt <= r) by {
                if i + 1 < chunk_count {
                    assert(cnt == b);
                }
            }
            assert(cnt * k <= r * k) by (nonlinear_arith)
                requires
                    cnt <= r,
                    k >= 1,
            ;
            assert((start + cnt) * k == start * k + cnt * k) by (nonlinear_arith);
            assert((start + cnt) * k <= r * k) by {
                if i + 1 == chunk_count {
                    assert(start + cnt == r);
                } else {
                    assert(start + cnt == chunk_record_start(r, n, i as int + 1));
                    assert(start + cnt == (i + 1) * b);
                    assert((i + 1) * b <= n * b) by (nonlinear_arith)
                        requires
                            0 <= i + 1 <= n,
                            b >= 0,
                    ;
                    assert(n * b <= r) by {
                        lemma_fundamental_div_mod(r, n);
                        assert(n * b <= r) by (nonlinear_arith)
                            requires
                                r == n * b + r % n,
                                r % n >= 0,
                        ;
                    }
                    assert((start + cnt) * k <= r * k) by (nonlinear_arith)
                        requires
                            start + cnt <= r,
                            k >= 1,
                    ;
                }
            }
        }
        let line_count: usize = record_count * lines_per_record;
        let mut chunk: Vec<String> = Vec::new();
        let mut j: usize = 0;
        while j < line_count
            invariant
                j <= line_count,
                pos + line_count <= lines@.len(),
                chunk@ == lines@.subrange(pos as int, pos as int + j as int),
            decreases line_count - j,
        {
            chunk.push(lines[pos + j].clone());
            proof {
                assert(chunk@ =~= lines@.subrange(pos as int, pos as int + j as int + 1));
            }
            j = j + 1;
        }
        proof {
            broadcast use Seq::<_>::lemma_flatten_push;

            let old_views = chunk_views(chunks@);
            assert(chunk_views(chunks@.push(chunk)) =~= old_views.push(chunk@));
            assert(old_views.flatten() + chunk@ =~= lines@.subrange(
                0,
                pos as int + line_count as int,
            ));
        }
        chunks.push(chunk);
        pos = pos + line_count;
        i = i + 1;
        proof {
            if i < chunk_count {
                assert(start * k + cnt * k == (start + cnt) * k) by (nonlinear_arith);
                assert(start + cnt == chunk_record_start(r, n, i as int));
            } else {
                assert(start + cnt == r);
                assert((start + cnt) * k == r * k) by (nonlinear_arith)
                    requires
                        start + cnt == r,
                ;
            }
        }
    }
    proof {
        assert(chunk_views(chunks@).flatten() =~= lines@);
        assert forall|ii: int| 0 <= ii < chunk_count implies #[trigger] chunks@[ii]@.len()
            == chunk_record_count(r, n, ii) * k by {
            let s = chunk_record_start(r, n, ii);
            let c = chunk_record_count(r, n, ii);
            assert((s + c) * k - s * k == c * k) by (nonlinear_arith);
        }
    }
    chunks
}

} // verus!
