//! Counting a chunk's bytes and throttling what is reported about them.
//!
//! A chunk task feeds every piece of the response body it writes to a
//! `ChunkProgress`, with the time since the last progress report and since
//! the last database update. The tracker says when to report and when to
//! persist; the task does both and measures time.

use vstd::prelude::*;
use crate::status::empty_response_text;

verus! {

/// Milliseconds that must pass between two progress reports.
pub const REPORT_INTERVAL_MS: u128 = 100;

/// Milliseconds that must pass between two database updates of a chunk.
pub const PERSIST_INTERVAL_MS: u128 = 1000;

/// The counts `(downloaded, since_report)` after one more piece of `len`
/// bytes arrives `ms_since_report` milliseconds after the last report.
pub open spec fn after_piece(counts: (int, int), len: int, ms_since_report: int) -> (int, int) {
    if ms_since_report >= REPORT_INTERVAL_MS {
        (counts.0 + len, 0)
    } else {
        (counts.0 + len, counts.1 + len)
    }
}

/// The counts after a stream of pieces, each given as its length, the
/// milliseconds since the last report and since the last database update.
pub open spec fn counts_after(pieces: Seq<(nat, int, int)>) -> (int, int)
    decreases pieces.len(),
{
    if pieces.len() == 0 {
        (0, 0)
    } else {
        after_piece(counts_after(pieces.drop_last()), pieces.last().0 as int, pieces.last().1)
    }
}

/// The reports `(downloaded_bytes, bytes_since_last_report)` that a stream
/// of pieces produces, in order.
pub open spec fn reports_of(pieces: Seq<(nat, int, int)>) -> Seq<(int, int)>
    decreases pieces.len(),
{
    if pieces.len() == 0 {
        seq![]
    } else {
        let before = counts_after(pieces.drop_last());
        let len = pieces.last().0 as int;
        if pieces.last().1 >= REPORT_INTERVAL_MS {
            reports_of(pieces.drop_last()).push((before.0 + len, before.1 + len))
        } else {
            reports_of(pieces.drop_last())
        }
    }
}

/// The byte counts that a stream of pieces stores, in order.
pub open spec fn persists_of(pieces: Seq<(nat, int, int)>) -> Seq<int>
    decreases pieces.len(),
{
    if pieces.len() == 0 {
        seq![]
    } else {
        let before = counts_after(pieces.drop_last());
        let len = pieces.last().0 as int;
        if pieces.last().2 >= PERSIST_INTERVAL_MS {
            persists_of(pieces.drop_last()).push(before.0 + len)
        } else {
            persists_of(pieces.drop_last())
        }
    }
}

/// How many pieces arrived late enough for a report (`reports`) or for a
/// database update (otherwise).
pub open spec fn due_count(pieces: Seq<(nat, int, int)>, reports: bool) -> nat
    decreases pieces.len(),
{
    if pieces.len() == 0 {
        0
    } else {
        let due = if reports {
            pieces.last().1 >= REPORT_INTERVAL_MS
        } else {
            pieces.last().2 >= PERSIST_INTERVAL_MS
        };
        due_count(pieces.drop_last(), reports) + if due { 1nat } else { 0nat }
    }
}

/// The bytes of all pieces.
pub open spec fn total_len(pieces: Seq<(nat, int, int)>) -> int
    decreases pieces.len(),
{
    if pieces.len() == 0 {
        0
    } else {
        total_len(pieces.drop_last()) + pieces.last().0
    }
}

/// The bytes that a sequence of reports accounts for.
pub open spec fn reported_bytes(reports: Seq<(int, int)>) -> int
    decreases reports.len(),
{
    if reports.len() == 0 {
        0
    } else {
        reported_bytes(reports.drop_last()) + reports.last().1
    }
}

/// Law, over a whole stream of pieces fed to `ChunkProgress::on_bytes`
/// from `ChunkProgress::new`: the count is the number of bytes received;
/// the reports account for every byte, each exactly once, apart from those
/// received since the last report; reported and stored counts never
/// decrease and never exceed the bytes received; and there is one report
/// (one store) for each piece that arrived at least `REPORT_INTERVAL_MS`
/// after the last report (`PERSIST_INTERVAL_MS` after the last store).
pub proof fn lemma_progress_over_stream(pieces: Seq<(nat, int, int)>)
    ensures
        counts_after(pieces).0 == total_len(pieces),
        0 <= counts_after(pieces).1 <= counts_after(pieces).0,
        reported_bytes(reports_of(pieces)) + counts_after(pieces).1 == total_len(pieces),
        forall|i: int, j: int|
            0 <= i <= j < reports_of(pieces).len() ==> #[trigger] reports_of(pieces)[i].0
                <= #[trigger] reports_of(pieces)[j].0,
        forall|i: int|
            0 <= i < reports_of(pieces).len() ==> #[trigger] reports_of(pieces)[i].0 <= total_len(
                pieces,
            ),
        forall|i: int, j: int|
            0 <= i <= j < persists_of(pieces).len() ==> #[trigger] persists_of(pieces)[i]
                <= #[trigger] persists_of(pieces)[j],
        forall|i: int|
            0 <= i < persists_of(pieces).len() ==> #[trigger] persists_of(pieces)[i] <= total_len(
                pieces,
            ),
        reports_of(pieces).len() == due_count(pieces, true),
        persists_of(pieces).len() == due_count(pieces, false),
    decreases pieces.len(),
{
    if pieces.len() > 0 {
        let q = pieces.drop_last();
        lemma_progress_over_stream(q);
        let r = reports_of(pieces);
        let rq = reports_of(q);
        if pieces.last().1 >= REPORT_INTERVAL_MS {
            assert(r.drop_last() =~= rq);
            assert forall|i: int, j: int| 0 <= i <= j < r.len() implies #[trigger] r[i].0
                <= #[trigger] r[j].0 by {
                if j < rq.len() {
                    assert(r[i] == rq[i] && r[j] == rq[j]);
                } else if i < rq.len() {
                    assert(r[i] == rq[i]);
                }
            }
        }
        let ps = persists_of(pieces);
        let pq = persists_of(q);
        if pieces.last().2 >= PERSIST_INTERVAL_MS {
            assert(ps.drop_last() =~= pq);
            assert forall|i: int, j: int| 0 <= i <= j < ps.len() implies #[trigger] ps[i]
                <= #[trigger] ps[j] by {
                if j < pq.len() {
                    assert(ps[i] == pq[i] && ps[j] == pq[j]);
                } else if i < pq.len() {
                    assert(ps[i] == pq[i]);
                }
            }
        }
    }
}

/// The byte counts of one chunk while its body streams in.
pub struct ChunkProgress {
    /// Bytes written so far.
    pub downloaded: i64,
    /// Bytes written since the last progress report.
    pub since_report: i64,
}

/// What a progress report carries besides the ids and the speed.
pub struct ProgressReport {
    pub downloaded_bytes: i64,
    pub bytes_since_last_report: i64,
}

/// What to do after a piece of the body was written.
pub struct ProgressStep {
    /// A progress report to emit, if one is due.
    pub report: Option<ProgressReport>,
    /// A byte count to store for the chunk, if an update is due.
    pub persist: Option<i64>,
}

/// How a chunk task ended.
pub enum ChunkOutcome {
    /// All bytes were written to `part_path`.
    Finished { part_path: String, bytes: i64 },
    /// The task returned an error.
    Failed { error: String },
    /// The task panicked or was cancelled.
    Panicked,
}

impl ChunkProgress {
    pub open spec fn wf(&self) -> bool {
        0 <= self.since_report <= self.downloaded
    }

    /// Nothing written yet.
    pub fn new() -> (p: ChunkProgress)
        ensures
            p.downloaded == 0,
            p.since_report == 0,
            p.wf(),
    {
        ChunkProgress { downloaded: 0, since_report: 0 }
    }

    /// Whether `len` more bytes can be counted without overflow.
    pub fn can_count(&self, len: usize) -> (r: bool)
        ensures
            r == (self.downloaded + len <= i64::MAX),
    {
        (len as i128) + (self.downloaded as i128) <= (i64::MAX as i128)
    }

    /// Counts `len` more bytes. A report is due once `REPORT_INTERVAL_MS`
    /// have passed since the last one and carries the bytes written since
    /// then; an update is due once `PERSIST_INTERVAL_MS` have passed since
    /// the last one.
    pub fn on_bytes(&mut self, len: usize, ms_since_report: u128, ms_since_persist: u128) -> (step:
        ProgressStep)
        requires
            old(self).wf(),
            old(self).downloaded + len <= i64::MAX,
        ensures
            final(self).wf(),
            final(self).downloaded == old(self).downloaded + len,
            (final(self).downloaded as int, final(self).since_report as int) == after_piece(
                (old(self).downloaded as int, old(self).since_report as int),
                len as int,
                ms_since_report as int,
            ),
            ms_since_report >= REPORT_INTERVAL_MS ==> {
                &&& step.report matches Some(report)
                &&& report.downloaded_bytes == final(self).downloaded
                &&& report.bytes_since_last_report == old(self).since_report + len
                &&& final(self).since_report == 0
            },
            ms_since_report < REPORT_INTERVAL_MS ==> {
                &&& step.report is None
                &&& final(self).since_report == old(self).since_report + len
            },
            ms_since_persist >= PERSIST_INTERVAL_MS ==> step.persist == Some(final(self).downloaded),
            ms_since_persist < PERSIST_INTERVAL_MS ==> step.persist is None,
    {
        let add = len as i64;
        self.downloaded = self.downloaded + add;
        self.since_report = self.since_report + add;
        let report = if ms_since_report >= REPORT_INTERVAL_MS {
            let r = ProgressReport {
                downloaded_bytes: self.downloaded,
                bytes_since_last_report: self.since_report,
            };
            self.since_report = 0;
            Some(r)
        } else {
            None
        };
        let persist = if ms_since_persist >= PERSIST_INTERVAL_MS {
            Some(self.downloaded)
        } else {
            None
        };
        ProgressStep { report, persist }
    }

    /// How the chunk ends once its body is fully written to `part_path`:
    /// with the byte count, or with an error when no byte arrived.
    pub fn outcome(&self, part_path: String) -> (r: ChunkOutcome)
        ensures
            self.downloaded == 0 ==> (r matches ChunkOutcome::Failed { error } && error@
                == "Server returned empty response"@),
            self.downloaded != 0 ==> (r matches ChunkOutcome::Finished { part_path: p, bytes } && p
                == part_path && bytes == self.downloaded),
    {
        if self.downloaded == 0 {
            ChunkOutcome::Failed { error: empty_response_text() }
        } else {
            ChunkOutcome::Finished { part_path, bytes: self.downloaded }
        }
    }
}

} // verus!
