//! Splitting a download into byte ranges, and naming what each chunk
//! fetches and writes.

use vstd::prelude::*;
use crate::headers::{ascii_bytes, lemma_content_length_reads_decimal, parsed_i64};
use crate::ids::{is_uuid_text, new_id};
use crate::models::Chunk;
use crate::text::{decimal, decimal_text, join_path, joined_path, Platform};

verus! {

/// How many ranges a file is split into when the server accepts ranges
/// and the file has at least that many bytes.
pub const SEGMENTS: i64 = 4;

/// How many ranges a file of `total` bytes is split into: `SEGMENTS`, or
/// one per byte for a smaller file, so that no range is empty.
pub open spec fn segment_count(total: int) -> int {
    if total < SEGMENTS {
        total
    } else {
        SEGMENTS as int
    }
}

/// The inclusive byte ranges of a download. A file of known positive size
/// on a server that accepts ranges is split into `segment_count(total)`
/// ranges: each but the last gets `total / segment_count(total)` bytes and
/// the last gets the rest. Otherwise a single chunk `(0, -1)` stands for
/// the whole file.
pub open spec fn planned_ranges(total: int, accepts_ranges: bool) -> Seq<(int, int)> {
    if accepts_ranges && total > 0 {
        let n = segment_count(total);
        let size = total / n;
        Seq::new(
            n as nat,
            |i: int| (i * size, if i == n - 1 { total - 1 } else { (i + 1) * size - 1 }),
        )
    } else {
        seq![(0, -1)]
    }
}

/// Whether ranged requests are used at all.
pub open spec fn uses_ranges(total: int, accepts_ranges: bool) -> bool {
    accepts_ranges && total > 0
}

/// Law: when a file of known positive size is split, there are at most
/// `SEGMENTS` ranges and no more than there are bytes; every range is
/// non-empty, the first starts at byte 0, the last ends at the last byte,
/// and each begins right after the one before it ends, so together they
/// cover every byte of the file exactly once.
pub proof fn lemma_ranges_tile_file(total: int)
    requires
        total > 0,
    ensures
        planned_ranges(total, true).len() == segment_count(total),
        1 <= planned_ranges(total, true).len() <= SEGMENTS,
        planned_ranges(total, true).len() <= total,
        planned_ranges(total, true)[0].0 == 0,
        planned_ranges(total, true)[planned_ranges(total, true).len() - 1].1 == total - 1,
        forall|i: int|
            0 <= i < planned_ranges(total, true).len() - 1 ==> #[trigger] planned_ranges(
                total,
                true,
            )[i + 1].0 == planned_ranges(total, true)[i].1 + 1,
        forall|i: int|
            0 <= i < planned_ranges(total, true).len() ==> #[trigger] planned_ranges(
                total,
                true,
            )[i].0 <= planned_ranges(total, true)[i].1,
{
    let r = planned_ranges(total, true);
    let n = segment_count(total);
    let size = total / n;
    assert(1 <= n <= total);
    assert(n * size <= total) by (nonlinear_arith)
        requires
            n >= 1,
            size == total / n,
    ;
    assert(size >= 1) by (nonlinear_arith)
        requires
            1 <= n <= total,
            size == total / n,
    ;
    assert forall|i: int| 0 <= i < n - 1 implies #[trigger] r[i + 1].0 == r[i].1 + 1 by {
        assert((i + 1) * size == i * size + size) by (nonlinear_arith);
    }
    assert forall|i: int| 0 <= i < n implies #[trigger] r[i].0 <= r[i].1 by {
        assert((i + 1) * size == i * size + size) by (nonlinear_arith);
        assert(i * size + size <= n * size) by (nonlinear_arith)
            requires
                0 <= i < n,
                size >= 1,
        ;
    }
}

/// Law: a file of at least four bytes on a server that accepts ranges is
/// split into exactly four ranges; each of the first three holds
/// `total / 4` bytes and the last holds the rest, from byte 0 to the last
/// byte with no gap or overlap.
pub proof fn lemma_four_ranges_of_a_quarter(total: int)
    requires
        total >= 4,
    ensures
        planned_ranges(total, true).len() == 4,
        planned_ranges(total, true)[0].0 == 0,
        planned_ranges(total, true)[3].1 == total - 1,
        forall|i: int|
            0 <= i < 3 ==> #[trigger] planned_ranges(total, true)[i].1 - planned_ranges(
                total,
                true,
            )[i].0 + 1 == total / 4,
        forall|i: int|
            0 <= i < 3 ==> #[trigger] planned_ranges(total, true)[i + 1].0
                == planned_ranges(total, true)[i].1 + 1,
{
    let size = total / 4;
    let r = planned_ranges(total, true);
    assert forall|i: int| 0 <= i < 3 implies #[trigger] r[i].1 - r[i].0 + 1 == size by {
        assert((i + 1) * size == i * size + size) by (nonlinear_arith);
    }
    assert forall|i: int| 0 <= i < 3 implies #[trigger] r[i + 1].0 == r[i].1 + 1 by {
        assert((i + 1) * size == i * size + size) by (nonlinear_arith);
    }
}

/// Law: a file of one to three bytes on a server that accepts ranges is
/// fetched one byte per range: range `i` is exactly byte `i`.
pub proof fn lemma_small_file_one_byte_per_range(total: int)
    requires
        1 <= total < 4,
    ensures
        planned_ranges(total, true).len() == total,
        forall|i: int| 0 <= i < total ==> #[trigger] planned_ranges(total, true)[i] == (i, i),
{
    let r = planned_ranges(total, true);
    assert(total / total == 1) by (nonlinear_arith)
        requires
            total >= 1,
    ;
    assert forall|i: int| 0 <= i < total implies #[trigger] r[i] == (i, i) by {
        assert(i * 1 == i);
    }
}

/// Law: without ranges the download is one chunk over the whole file.
pub proof fn lemma_single_chunk_without_ranges(total: int, accepts_ranges: bool)
    requires
        !uses_ranges(total, accepts_ranges),
    ensures
        planned_ranges(total, accepts_ranges) == seq![(0int, -1int)],
{
}

/// Computes `planned_ranges` on machine integers.
pub fn plan_ranges(total: i64, accepts_ranges: bool) -> (r: Vec<(i64, i64)>)
    ensures
        r@.len() == planned_ranges(total as int, accepts_ranges).len(),
        forall|i: int|
            0 <= i < r@.len() ==> (#[trigger] r@[i].0 as int, r@[i].1 as int)
                == planned_ranges(total as int, accepts_ranges)[i],
{
    let mut r: Vec<(i64, i64)> = Vec::new();
    if accepts_ranges && total > 0 {
        let n: i64 = if total < SEGMENTS { total } else { SEGMENTS };
        let size: i64 = total / n;
        let ghost spec_ranges = planned_ranges(total as int, accepts_ranges);
        assert(n * size <= total) by (nonlinear_arith)
            requires
                n >= 1,
                size == total / n,
        ;
        let mut i: i64 = 0;
        while i < n
            invariant
                1 <= n <= 4,
                n == segment_count(total as int),
                0 <= i <= n,
                total > 0,
                accepts_ranges,
                size == total / n,
                size >= 0,
                n * size <= total,
                spec_ranges == planned_ranges(total as int, accepts_ranges),
                r@.len() == i,
                forall|j: int|
                    0 <= j < i ==> (#[trigger] r@[j].0 as int, r@[j].1 as int) == spec_ranges[j],
            decreases n - i,
        {
            assert((i + 1) * size <= n * size) by (nonlinear_arith)
                requires
                    0 <= i < n,
                    size >= 0,
            ;
            assert(i * size <= (i + 1) * size) by (nonlinear_arith)
                requires
                    0 <= i,
                    size >= 0,
            ;
            let start: i64 = i * size;
            let end: i64 = if i == n - 1 { total - 1 } else { (i + 1) * size - 1 };
            r.push((start, end));
            i = i + 1;
        }
    } else {
        r.push((0, -1));
    }
    r
}

/// What `plan_chunks` promises of each chunk it makes, given the range the
/// chunk must cover.
pub open spec fn is_planned_chunk(c: Chunk, download_id: Seq<char>, range: (int, int)) -> bool {
    &&& c.download_id@ == download_id
    &&& c.start_byte as int == range.0
    &&& c.end_byte as int == range.1
    &&& c.downloaded_bytes == 0
    &&& c.status@ == "pending"@
    &&& is_uuid_text(c.id@)
}

/// The pending chunks of a download, one per planned range, each with a
/// fresh random id.
pub fn plan_chunks(download_id: &str, total: i64, accepts_ranges: bool) -> (chunks: Vec<Chunk>)
    ensures
        chunks@.len() == planned_ranges(total as int, accepts_ranges).len(),
        forall|i: int|
            0 <= i < chunks@.len() ==> is_planned_chunk(
                #[trigger] chunks@[i],
                download_id@,
                planned_ranges(total as int, accepts_ranges)[i],
            ),
{
    let ranges = plan_ranges(total, accepts_ranges);
    let mut chunks: Vec<Chunk> = Vec::new();
    let n = ranges.len();
    let mut i: usize = 0;
    while i < n
        invariant
            n == ranges@.len(),
            ranges@.len() == planned_ranges(total as int, accepts_ranges).len(),
            forall|j: int|
                0 <= j < ranges@.len() ==> (#[trigger] ranges@[j].0 as int, ranges@[j].1 as int)
                    == planned_ranges(total as int, accepts_ranges)[j],
            i <= n,
            chunks@.len() == i,
            forall|j: int|
                0 <= j < i ==> is_planned_chunk(
                    #[trigger] chunks@[j],
                    download_id@,
                    planned_ranges(total as int, accepts_ranges)[j],
                ),
        decreases n - i,
    {
        let (start, end) = ranges[i];
        assert((ranges@[i as int].0 as int, ranges@[i as int].1 as int) == planned_ranges(
            total as int,
            accepts_ranges,
        )[i as int]);
        let chunk = Chunk {
            id: new_id(),
            download_id: String::from_str(download_id),
            start_byte: start,
            end_byte: end,
            downloaded_bytes: 0,
            status: String::from_str("pending"),
        };
        chunks.push(chunk);
        i = i + 1;
    }
    chunks
}

/// The `Range` header value of a chunk: `bytes=START-END` when the chunk
/// has an end, none when it stands for the whole file.
pub open spec fn range_header_of(start: int, end: int) -> Option<Seq<char>> {
    if end >= 0 {
        Some("bytes="@ + decimal(start) + "-"@ + decimal(end))
    } else {
        None
    }
}

/// Law: for chunk bounds that are byte offsets, the `Range` header reads
/// `bytes=`, then the start in decimal, a `-`, and the end in decimal, and
/// reading the two numbers back gives exactly the chunk's first and last
/// byte: the request asks for the chunk's bytes and no others.
pub proof fn lemma_range_header_names_the_chunk(start: int, end: int)
    requires
        0 <= start <= i64::MAX,
        0 <= end <= i64::MAX,
    ensures
        range_header_of(start, end) matches Some(h) && {
            let k = 6 + decimal(start).len() as int;
            &&& h.subrange(0, 6) == "bytes="@
            &&& h[k] == '-'
            &&& parsed_i64(ascii_bytes(h.subrange(6, k))) == Some(start)
            &&& parsed_i64(ascii_bytes(h.subrange(k + 1, h.len() as int))) == Some(end)
        },
{
    reveal_strlit("bytes=");
    reveal_strlit("-");
    lemma_content_length_reads_decimal(start);
    lemma_content_length_reads_decimal(end);
    let h = "bytes="@ + decimal(start) + "-"@ + decimal(end);
    let k = 6 + decimal(start).len() as int;
    assert(h.subrange(0, 6) =~= "bytes="@);
    assert(h.subrange(6, k) =~= decimal(start));
    assert(h.subrange(k + 1, h.len() as int) =~= decimal(end));
    assert(h[k] == '-');
}

/// Law: a chunk with a negative end stands for the whole file and is
/// requested without a `Range` header.
pub proof fn lemma_whole_file_has_no_range(start: int, end: int)
    requires
        end < 0,
    ensures
        range_header_of(start, end) is None,
{
}

/// Law: every planned chunk belongs to its download, covers exactly its
/// planned range, has no byte yet and is `pending`.
pub proof fn lemma_planned_chunk_is_pending(c: Chunk, download_id: Seq<char>, range: (int, int))
    requires
        is_planned_chunk(c, download_id, range),
    ensures
        c.download_id@ == download_id,
        c.start_byte == range.0,
        c.end_byte == range.1,
        c.downloaded_bytes == 0,
        c.status@ == "pending"@,
        c.id@.len() == 36,
{
}

/// The `Range` header value that a chunk's request carries, if any.
pub fn range_header(chunk: &Chunk) -> (r: Option<String>)
    ensures
        match r {
            Some(s) => range_header_of(chunk.start_byte as int, chunk.end_byte as int) == Some(s@),
            None => range_header_of(chunk.start_byte as int, chunk.end_byte as int) is None,
        },
{
    if chunk.end_byte >= 0 {
        let mut s = String::from_str("bytes=");
        let start = decimal_text(chunk.start_byte);
        let end = decimal_text(chunk.end_byte);
        s.append(start.as_str());
        s.append("-");
        s.append(end.as_str());
        Some(s)
    } else {
        None
    }
}

/// The name of the temporary file a chunk writes: `FILENAME.part_CHUNKID`.
pub open spec fn part_file_name_of(filename: Seq<char>, chunk_id: Seq<char>) -> Seq<char> {
    filename + ".part_"@ + chunk_id
}

/// The path of the temporary file a chunk writes inside the save directory.
pub open spec fn part_path_of(
    platform: Platform,
    save_dir: Seq<char>,
    filename: Seq<char>,
    chunk_id: Seq<char>,
) -> Seq<char> {
    joined_path(platform, save_dir, part_file_name_of(filename, chunk_id))
}

/// Where a chunk's bytes are written before the parts are stitched.
pub fn part_path(platform: Platform, save_dir: &str, filename: &str, chunk_id: &str) -> (r: String)
    ensures
        r@ == part_path_of(platform, save_dir@, filename@, chunk_id@),
{
    let mut name = String::from_str(filename);
    name.append(".part_");
    name.append(chunk_id);
    join_path(platform, save_dir, name.as_str())
}

} // verus!
