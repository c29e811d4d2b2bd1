//! A whole download as a state machine.
//!
//! The runtime starts a `DownloadJob`, performs each `Action` it is handed
//! (creating the directory, probing the server, writing records, fetching
//! the chunks in parallel, stitching the parts, cleaning up), and reports
//! how it went as an `Event`. The job decides what comes next, which error
//! a download ends with, and which files and records each step touches.

use vstd::prelude::*;
use crate::config::{MAX_REDIRECTS, USER_AGENT};
use crate::headers::{accepts_ranges, content_length, content_length_of, ranges_accepted};
use crate::models::Chunk;
use crate::plan::{
    is_planned_chunk, part_path, part_path_of, plan_chunks, planned_ranges, range_header,
    range_header_of,
};
use crate::progress::ChunkOutcome;
use crate::status::{
    head_failed_message, head_failed_text, head_rejected_message, head_rejected_text,
    is_success, is_success_code, worker_panicked_text,
};
use crate::text::{join_path, joined_path, Platform};
use crate::urls::{file_name_for_path, file_name_from_url, url_parse_error_of, url_path_of};

verus! {

/// What the probe of a download established.
pub struct Probe {
    /// The URL after redirects; the chunks are fetched from it.
    pub final_url: String,
    /// The name of the saved file.
    pub filename: String,
    /// Where the file is saved.
    pub save_path: String,
    /// The announced size, 0 where none was announced.
    pub total_bytes: i64,
    /// Whether the server takes ranged requests.
    pub accepts_ranges: bool,
}

/// Where a download stands.
pub enum Stage {
    CreatingDir,
    BuildingClient,
    Probing,
    Recording { probe: Probe },
    StoringChunks { probe: Probe, chunks: Vec<Chunk> },
    MarkingActive { probe: Probe, chunks: Vec<Chunk> },
    Fetching { probe: Probe, chunks: Vec<Chunk> },
    Stitching { probe: Probe, downloaded: i64 },
    Finalizing,
    Finished,
}

/// One download: the platform, its id, the URL it was asked for, the directory it saves
/// into, and its stage.
pub struct DownloadJob {
    /// The system whose path rules name the files.
    pub platform: Platform,
    pub download_id: String,
    pub url: String,
    pub save_dir: String,
    pub stage: Stage,
}

/// What the answer to the probe carried.
pub struct HeadResponse {
    pub status: u16,
    /// The URL after redirects, as text.
    pub final_url: String,
    /// The raw `Content-Length` value, if any.
    pub content_length: Option<Vec<u8>>,
    /// The raw `Accept-Ranges` value, if any.
    pub accept_ranges: Option<Vec<u8>>,
}

/// How the last action went.
pub enum Event {
    /// The action succeeded.
    Succeeded,
    /// The action failed with this error text.
    Failed(String),
    /// The probe was answered.
    Probed(HeadResponse),
    /// The chunk tasks, awaited in chunk order: every one of them, or those
    /// up to and including the first that did not finish.
    ChunksDone(Vec<ChunkOutcome>),
}

/// The request of one chunk and the file it writes.
pub struct ChunkTask {
    pub chunk: Chunk,
    /// The temporary file of the chunk.
    pub part_path: String,
    /// The `Range` header value, none for the whole file.
    pub range: Option<String>,
}

/// What the runtime must do next.
pub enum Action {
    /// Create the save directory and its parents.
    CreateDir { path: String },
    /// Build the HTTP client.
    BuildClient { user_agent: String, max_redirects: usize },
    /// Send a `HEAD` request.
    SendHead { url: String },
    /// Store the download record with status `pending`.
    InsertDownload { id: String, url: String, filename: String, save_path: String, total_bytes: i64 },
    /// Store the chunk records in one transaction.
    InsertChunks { chunks: Vec<Chunk> },
    /// Set the download's status to `downloading`.
    MarkDownloading { id: String },
    /// Run one task per chunk and wait for all of them, in order.
    FetchChunks { url: String, tasks: Vec<ChunkTask> },
    /// Remove the part files (ignoring errors), set the status to `failed`
    /// (ignoring errors), and end the download with `error`.
    Abandon { id: String, part_paths: Vec<String>, error: String },
    /// Append the parts in order to `final_path`, removing each after it is
    /// copied.
    Stitch { final_path: String, part_paths: Vec<String> },
    /// Set the status to `completed` with these byte counts.
    MarkCompleted { id: String, total_bytes: i64, downloaded_bytes: i64 },
    /// End the download with this result.
    Finish { result: Result<(), String> },
}

/// How the chunk tasks ended, taken in chunk order as their handles are
/// awaited: the first task that did not finish decides.
pub enum Collected {
    Complete { part_paths: Seq<Seq<char>>, downloaded: int },
    ChunkFailed { error: Seq<char> },
    WorkerPanicked,
}

/// The result of awaiting the chunk tasks one after the other.
pub open spec fn collect(outcomes: Seq<ChunkOutcome>) -> Collected
    decreases outcomes.len(),
{
    if outcomes.len() == 0 {
        Collected::Complete { part_paths: seq![], downloaded: 0 }
    } else {
        match collect(outcomes.drop_last()) {
            Collected::Complete { part_paths, downloaded } => match outcomes.last() {
                ChunkOutcome::Finished { part_path, bytes } => Collected::Complete {
                    part_paths: part_paths.push(part_path@),
                    downloaded: downloaded + bytes,
                },
                ChunkOutcome::Failed { error } => Collected::ChunkFailed { error: error@ },
                ChunkOutcome::Panicked => Collected::WorkerPanicked,
            },
            other => other,
        }
    }
}

/// A finished chunk reports the part file `path` as the one it wrote.
pub open spec fn names_part(outcome: ChunkOutcome, path: Seq<char>) -> bool {
    outcome matches ChunkOutcome::Finished { part_path, .. } ==> part_path@ == path
}

/// When every chunk finished, the part paths are theirs, in order.
proof fn lemma_complete_paths(outcomes: Seq<ChunkOutcome>)
    ensures
        collect(outcomes) matches Collected::Complete { part_paths, .. } ==> {
            &&& part_paths.len() == outcomes.len()
            &&& forall|i: int|
                0 <= i < outcomes.len() ==> (#[trigger] outcomes[i] matches ChunkOutcome::Finished {
                    part_path,
                    ..
                } && part_paths[i] == part_path@)
        },
    decreases outcomes.len(),
{
    if outcomes.len() > 0 {
        let q = outcomes.drop_last();
        lemma_complete_paths(q);
        if collect(outcomes) is Complete {
            assert(collect(q) is Complete);
            assert forall|i: int| 0 <= i < outcomes.len() implies (#[trigger] outcomes[i] matches ChunkOutcome::Finished {
                part_path,
                ..
            } && collect(outcomes)->Complete_part_paths[i] == part_path@) by {
                if i < q.len() {
                    assert(outcomes[i] == q[i]);
                }
            }
        }
    }
}

/// The running byte total stays within `i64` while the finished chunks
/// are added up.
pub open spec fn totals_fit(outcomes: Seq<ChunkOutcome>) -> bool {
    forall|k: int|
        0 <= k <= outcomes.len() ==> (#[trigger] collect(outcomes.take(k)) matches Collected::Complete {
            downloaded,
            ..
        } ==> i64::MIN <= downloaded <= i64::MAX)
}

/// The texts of a sequence of strings.
pub open spec fn strings_view(v: Seq<String>) -> Seq<Seq<char>> {
    v.map_values(|s: String| s@)
}

pub open spec fn bytes_view(o: Option<Vec<u8>>) -> Option<Seq<u8>> {
    match o {
        Some(v) => Some(v@),
        None => None,
    }
}

/// The probe that an answered `HEAD` gives, for a final URL whose path is
/// `path`.
pub open spec fn is_probe_of(
    p: Probe,
    platform: Platform,
    save_dir: Seq<char>,
    head: HeadResponse,
    path: Seq<char>,
) -> bool {
    &&& p.final_url@ == head.final_url@
    &&& p.filename@ == file_name_for_path(path)
    &&& p.save_path@ == joined_path(platform, save_dir, p.filename@)
    &&& p.total_bytes == content_length_of(bytes_view(head.content_length))
    &&& p.accepts_ranges == ranges_accepted(bytes_view(head.accept_ranges))
}

/// The chunks of a download are the planned ones for its probe.
pub open spec fn chunks_planned(chunks: Seq<Chunk>, download_id: Seq<char>, p: Probe) -> bool {
    &&& chunks.len() == planned_ranges(p.total_bytes as int, p.accepts_ranges).len()
    &&& forall|i: int|
        0 <= i < chunks.len() ==> is_planned_chunk(
            #[trigger] chunks[i],
            download_id,
            planned_ranges(p.total_bytes as int, p.accepts_ranges)[i],
        )
}

/// The task that fetches chunk `c` of a file named `filename`.
pub open spec fn is_task_for(
    t: ChunkTask,
    c: Chunk,
    platform: Platform,
    save_dir: Seq<char>,
    filename: Seq<char>,
) -> bool {
    &&& t.chunk == c
    &&& t.part_path@ == part_path_of(platform, save_dir, filename, c.id@)
    &&& match t.range {
        Some(r) => range_header_of(c.start_byte as int, c.end_byte as int) == Some(r@),
        None => range_header_of(c.start_byte as int, c.end_byte as int) is None,
    }
}

/// The download ends here with the error `message`.
pub open spec fn ends_with_error(after: DownloadJob, action: Action, message: Seq<char>) -> bool {
    &&& after.stage is Finished
    &&& action matches Action::Finish { result: Err(m) } && m@ == message
}

/// What a step keeps: the platform, the id, the URL and the save directory.
pub open spec fn same_download(before: DownloadJob, after: DownloadJob) -> bool {
    &&& after.platform == before.platform
    &&& after.download_id == before.download_id
    &&& after.url == before.url
    &&& after.save_dir == before.save_dir
}

/// How a download goes on from `before` on `event`.
pub open spec fn steps_to(before: DownloadJob, event: Event, after: DownloadJob, action: Action) -> bool {
    match before.stage {
        Stage::CreatingDir => match event {
            Event::Succeeded => {
                &&& after.stage is BuildingClient
                &&& action matches Action::BuildClient { user_agent, max_redirects }
                &&& user_agent@ == USER_AGENT@
                &&& max_redirects == MAX_REDIRECTS
            },
            Event::Failed(e) => ends_with_error(after, action, e@),
            _ => false,
        },
        Stage::BuildingClient => match event {
            Event::Succeeded => {
                &&& after.stage is Probing
                &&& action matches Action::SendHead { url }
                &&& url@ == before.url@
            },
            Event::Failed(e) => ends_with_error(after, action, e@),
            _ => false,
        },
        Stage::Probing => match event {
            Event::Failed(e) => ends_with_error(after, action, head_failed_message(e@)),
            Event::Probed(head) => if !is_success_code(head.status as int) {
                ends_with_error(after, action, head_rejected_message(head.status))
            } else {
                match url_path_of(head.final_url@) {
                    None => ends_with_error(after, action, url_parse_error_of(head.final_url@)),
                    Some(path) => {
                        &&& after.stage matches Stage::Recording { probe }
                        &&& is_probe_of(probe, before.platform, before.save_dir@, head, path)
                        &&& action matches Action::InsertDownload {
                            id,
                            url,
                            filename,
                            save_path,
                            total_bytes,
                        }
                        &&& id@ == before.download_id@
                        &&& url@ == before.url@
                        &&& filename@ == probe.filename@
                        &&& save_path@ == probe.save_path@
                        &&& total_bytes == probe.total_bytes
                    },
                }
            },
            _ => false,
        },
        Stage::Recording { probe } => match event {
            Event::Succeeded => {
                &&& after.stage matches Stage::StoringChunks { probe: p, chunks }
                &&& p == probe
                &&& chunks_planned(chunks@, before.download_id@, probe)
                &&& action matches Action::InsertChunks { chunks: stored }
                &&& stored@ == chunks@
            },
            Event::Failed(e) => ends_with_error(after, action, e@),
            _ => false,
        },
        Stage::StoringChunks { probe, chunks } => match event {
            Event::Succeeded => {
                &&& after.stage matches Stage::MarkingActive { probe: p, chunks: c }
                &&& p == probe
                &&& c@ == chunks@
                &&& action matches Action::MarkDownloading { id }
                &&& id@ == before.download_id@
            },
            Event::Failed(e) => ends_with_error(after, action, e@),
            _ => false,
        },
        Stage::MarkingActive { probe, chunks } => match event {
            Event::Succeeded => {
                &&& after.stage matches Stage::Fetching { probe: p, chunks: c }
                &&& p == probe
                &&& c@ == chunks@
                &&& action matches Action::FetchChunks { url, tasks }
                &&& url@ == probe.final_url@
                &&& tasks@.len() == chunks@.len()
                &&& forall|i: int|
                    0 <= i < tasks@.len() ==> is_task_for(
                        #[trigger] tasks@[i],
                        chunks@[i],
                        before.platform,
                        before.save_dir@,
                        probe.filename@,
                    )
            },
            Event::Failed(e) => ends_with_error(after, action, e@),
            _ => false,
        },
        Stage::Fetching { probe, chunks } => match event {
            Event::ChunksDone(outcomes) => match collect(outcomes@) {
                Collected::WorkerPanicked => ends_with_error(
                    after,
                    action,
                    "Worker thread panicked"@,
                ),
                Collected::ChunkFailed { error } => {
                    &&& after.stage is Finished
                    &&& action matches Action::Abandon { id, part_paths, error: e }
                    &&& id@ == before.download_id@
                    &&& e@ == error
                    &&& part_paths@.len() == chunks@.len()
                    &&& forall|i: int|
                        0 <= i < part_paths@.len() ==> (#[trigger] part_paths@[i])@ == part_path_of(
                            before.platform,
                            before.save_dir@,
                            probe.filename@,
                            chunks@[i].id@,
                        )
                },
                Collected::Complete { part_paths, downloaded } => {
                    &&& after.stage matches Stage::Stitching { probe: p, downloaded: d }
                    &&& p == probe
                    &&& d == downloaded
                    &&& action matches Action::Stitch { final_path, part_paths: parts }
                    &&& final_path@ == joined_path(before.platform, before.save_dir@, probe.filename@)
                    &&& strings_view(parts@) == part_paths
                    &&& parts@.len() == chunks@.len()
                    &&& forall|i: int|
                        0 <= i < parts@.len() ==> (#[trigger] parts@[i])@ == part_path_of(
                            before.platform,
                            before.save_dir@,
                            probe.filename@,
                            chunks@[i].id@,
                        )
                },
            },
            _ => false,
        },
        Stage::Stitching { probe, downloaded } => match event {
            Event::Succeeded => {
                &&& after.stage is Finalizing
                &&& action matches Action::MarkCompleted { id, total_bytes, downloaded_bytes }
                &&& id@ == before.download_id@
                &&& total_bytes == (if probe.total_bytes > 0 {
                    probe.total_bytes
                } else {
                    downloaded
                })
                &&& downloaded_bytes == downloaded
            },
            Event::Failed(e) => ends_with_error(after, action, e@),
            _ => false,
        },
        Stage::Finalizing => match event {
            Event::Succeeded => {
                &&& after.stage is Finished
                &&& action matches Action::Finish { result: Ok(_) }
            },
            Event::Failed(e) => ends_with_error(after, action, e@),
            _ => false,
        },
        Stage::Finished => false,
    }
}

impl DownloadJob {
    /// What each stage holds: the probe's save path is the file name joined
    /// onto the save directory, and the chunks are those planned for it.
    pub open spec fn wf(&self) -> bool {
        match self.stage {
            Stage::Recording { probe } => probe.save_path@ == joined_path(self.platform, self.save_dir@, probe.filename@),
            Stage::StoringChunks { probe, chunks } => {
                &&& probe.save_path@ == joined_path(self.platform, self.save_dir@, probe.filename@)
                &&& chunks_planned(chunks@, self.download_id@, probe)
            },
            Stage::MarkingActive { probe, chunks } => {
                &&& probe.save_path@ == joined_path(self.platform, self.save_dir@, probe.filename@)
                &&& chunks_planned(chunks@, self.download_id@, probe)
            },
            Stage::Fetching { probe, chunks } => {
                &&& probe.save_path@ == joined_path(self.platform, self.save_dir@, probe.filename@)
                &&& chunks_planned(chunks@, self.download_id@, probe)
            },
            Stage::Stitching { probe, .. } => probe.save_path@ == joined_path(
                self.platform,
                self.save_dir@,
                probe.filename@,
            ),
            _ => true,
        }
    }

    /// The events that the current stage waits for.
    pub open spec fn accepts(&self, event: Event) -> bool {
        match self.stage {
            Stage::Finished => false,
            Stage::Probing => event is Probed || event is Failed,
            Stage::Fetching { probe, chunks } => {
                &&& event matches Event::ChunksDone(outcomes)
                &&& outcomes@.len() <= chunks@.len()
                &&& totals_fit(outcomes@)
                &&& (collect(outcomes@) is Complete ==> outcomes@.len() == chunks@.len())
                &&& forall|i: int|
                    0 <= i < outcomes@.len() ==> names_part(
                        #[trigger] outcomes@[i],
                        part_path_of(self.platform, self.save_dir@, probe.filename@, chunks@[i].id@),
                    )
            },
            _ => event is Succeeded || event is Failed,
        }
    }
}

/// Law: once the server answered the probe with success and its final URL
/// parses, the download record that is stored carries the size announced
/// by `Content-Length` (whatever `Accept-Ranges` says), the name taken from
/// the final URL's path, the path of that name inside the save directory,
/// the download's id and the URL that was asked for.
pub proof fn lemma_probe_records_announced_size(
    before: DownloadJob,
    head: HeadResponse,
    after: DownloadJob,
    action: Action,
)
    requires
        before.stage is Probing,
        is_success_code(head.status as int),
        url_path_of(head.final_url@) is Some,
        steps_to(before, Event::Probed(head), after, action),
    ensures
        action matches Action::InsertDownload { id, url, filename, save_path, total_bytes } && {
            &&& total_bytes == content_length_of(bytes_view(head.content_length))
            &&& filename@ == file_name_for_path(url_path_of(head.final_url@)->0)
            &&& save_path@ == joined_path(before.platform, before.save_dir@, filename@)
            &&& id@ == before.download_id@
            &&& url@ == before.url@
        },
{
}

/// Law: once the parts are stitched, the record is completed with the
/// announced size where it was positive and with the bytes downloaded
/// otherwise, and with the bytes downloaded as its progress.
pub proof fn lemma_completed_record_totals(before: DownloadJob, after: DownloadJob, action: Action)
    requires
        before.stage is Stitching,
        steps_to(before, Event::Succeeded, after, action),
    ensures
        action matches Action::MarkCompleted { id, total_bytes, downloaded_bytes } && {
            let announced = before.stage->Stitching_probe.total_bytes;
            let downloaded = before.stage->Stitching_downloaded;
            &&& id@ == before.download_id@
            &&& downloaded_bytes == downloaded
            &&& (announced > 0 ==> total_bytes == announced)
            &&& (announced <= 0 ==> total_bytes == downloaded)
        },
{
}

/// Law: a step ends the download exactly when its action is `Finish` or
/// `Abandon`; every other action leaves more to do.
pub proof fn lemma_ends_exactly_on_terminal_action(
    before: DownloadJob,
    event: Event,
    after: DownloadJob,
    action: Action,
)
    requires
        steps_to(before, event, after, action),
    ensures
        after.stage is Finished <==> (action is Finish || action is Abandon),
{
}

/// Law: a finished download waits for no event.
pub proof fn lemma_finished_accepts_nothing(job: DownloadJob, event: Event)
    requires
        job.stage is Finished,
    ensures
        !job.accepts(event),
{
}

/// Law: when a chunk fails, the download ends by removing the part file of
/// every planned chunk, not only of those that finished.
pub proof fn lemma_chunk_failure_cleans_every_part(
    before: DownloadJob,
    outcomes: Vec<ChunkOutcome>,
    after: DownloadJob,
    action: Action,
)
    requires
        before.stage is Fetching,
        collect(outcomes@) is ChunkFailed,
        steps_to(before, Event::ChunksDone(outcomes), after, action),
    ensures
        action matches Action::Abandon { part_paths, .. } && part_paths@.len()
            == before.stage->Fetching_chunks@.len(),
{
}

/// How the chunk tasks ended, as the runtime can act on it.
pub enum Summary {
    Complete { part_paths: Vec<String>, downloaded: i64 },
    ChunkFailed { error: String },
    WorkerPanicked,
}

proof fn lemma_collect_settles(s: Seq<ChunkOutcome>, k: int)
    requires
        0 <= k <= s.len(),
        !(collect(s.take(k)) is Complete),
    ensures
        collect(s) == collect(s.take(k)),
    decreases s.len() - k,
{
    if k < s.len() {
        assert(s.drop_last().take(k) =~= s.take(k));
        lemma_collect_settles(s.drop_last(), k);
    } else {
        assert(s.take(k) =~= s);
    }
}

proof fn lemma_collect_prefix_step(s: Seq<ChunkOutcome>, i: int)
    requires
        0 <= i < s.len(),
    ensures
        s.take(i + 1).drop_last() == s.take(i),
        s.take(i + 1).last() == s[i],
{
    assert(s.take(i + 1).drop_last() =~= s.take(i));
}

/// Awaits the chunk outcomes in order, as the download does: the first
/// chunk that failed or panicked decides; otherwise the part paths are
/// kept in order and the byte counts added up.
pub fn summarize(outcomes: &Vec<ChunkOutcome>) -> (r: Summary)
    requires
        totals_fit(outcomes@),
    ensures
        match collect(outcomes@) {
            Collected::Complete { part_paths, downloaded } => r matches Summary::Complete {
                part_paths: p,
                downloaded: d,
            } && strings_view(p@) == part_paths && d == downloaded,
            Collected::ChunkFailed { error } => r matches Summary::ChunkFailed { error: e } && e@
                == error,
            Collected::WorkerPanicked => r is WorkerPanicked,
        },
{
    let n = outcomes.len();
    let mut paths: Vec<String> = Vec::new();
    let mut total: i64 = 0;
    let mut i: usize = 0;
    assert(outcomes@.take(0) =~= Seq::<ChunkOutcome>::empty());
    assert(strings_view(paths@) =~= Seq::<Seq<char>>::empty());
    while i < n
        invariant
            n == outcomes@.len(),
            i <= n,
            totals_fit(outcomes@),
            collect(outcomes@.take(i as int)) == (Collected::Complete {
                part_paths: strings_view(paths@),
                downloaded: total as int,
            }),
        decreases n - i,
    {
        proof {
            lemma_collect_prefix_step(outcomes@, i as int);
        }
        let ghost next = collect(outcomes@.take(i + 1));
        match &outcomes[i] {
            ChunkOutcome::Finished { part_path, bytes } => {
                assert(next matches Collected::Complete { downloaded, .. } ==> i64::MIN <= downloaded
                    <= i64::MAX);
                let ghost old_paths = paths@;
                total = total + *bytes;
                paths.push(part_path.clone());
                assert(strings_view(paths@) =~= strings_view(old_paths).push(part_path@));
            },
            ChunkOutcome::Failed { error } => {
                proof {
                    lemma_collect_settles(outcomes@, i + 1);
                }
                return Summary::ChunkFailed { error: error.clone() };
            },
            ChunkOutcome::Panicked => {
                proof {
                    lemma_collect_settles(outcomes@, i + 1);
                }
                return Summary::WorkerPanicked;
            },
        }
        i = i + 1;
    }
    assert(outcomes@.take(n as int) =~= outcomes@);
    Summary::Complete { part_paths: paths, downloaded: total }
}

/// Whether the running byte total of the outcomes stays within `i64`.
pub fn totals_stay_in_range(outcomes: &Vec<ChunkOutcome>) -> (r: bool)
    ensures
        r == totals_fit(outcomes@),
{
    let n = outcomes.len();
    let mut total: i64 = 0;
    let mut i: usize = 0;
    assert(outcomes@.take(0) =~= Seq::<ChunkOutcome>::empty());
    while i < n
        invariant
            n == outcomes@.len(),
            i <= n,
            collect(outcomes@.take(i as int)) matches Collected::Complete { downloaded, .. }
                && downloaded == total,
            forall|k: int|
                0 <= k <= i ==> (#[trigger] collect(outcomes@.take(k)) matches Collected::Complete {
                    downloaded,
                    ..
                } ==> i64::MIN <= downloaded <= i64::MAX),
        decreases n - i,
    {
        proof {
            lemma_collect_prefix_step(outcomes@, i as int);
        }
        match &outcomes[i] {
            ChunkOutcome::Finished { bytes, .. } => {
                let next: i128 = total as i128 + *bytes as i128;
                if next < i64::MIN as i128 || next > i64::MAX as i128 {
                    assert(!(collect(outcomes@.take(i + 1)) matches Collected::Complete {
                        downloaded,
                        ..
                    } ==> i64::MIN <= downloaded <= i64::MAX));
                    return false;
                }
                total = next as i64;
            },
            _ => {
                assert forall|k: int|
                    0 <= k <= outcomes@.len() implies (#[trigger] collect(outcomes@.take(k)) matches Collected::Complete {
                    downloaded,
                    ..
                } ==> i64::MIN <= downloaded <= i64::MAX) by {
                    if k > i {
                        assert(outcomes@.take(k).take(i + 1) =~= outcomes@.take(i + 1));
                        lemma_collect_settles(outcomes@.take(k), i + 1);
                    }
                }
                return true;
            },
        }
        i = i + 1;
    }
    assert(outcomes@.take(n as int) =~= outcomes@);
    true
}

fn copy_chunk(c: &Chunk) -> (r: Chunk)
    ensures
        r == *c,
{
    Chunk {
        id: c.id.clone(),
        download_id: c.download_id.clone(),
        start_byte: c.start_byte,
        end_byte: c.end_byte,
        downloaded_bytes: c.downloaded_bytes,
        status: c.status.clone(),
    }
}

fn copy_chunks(v: &Vec<Chunk>) -> (r: Vec<Chunk>)
    ensures
        r@ == v@,
{
    let mut r: Vec<Chunk> = Vec::new();
    let n = v.len();
    let mut i: usize = 0;
    while i < n
        invariant
            n == v@.len(),
            i <= n,
            r@ == v@.take(i as int),
        decreases n - i,
    {
        r.push(copy_chunk(&v[i]));
        assert(v@.take(i + 1) =~= v@.take(i as int).push(v@[i as int]));
        i = i + 1;
    }
    assert(v@.take(n as int) =~= v@);
    r
}

fn bytes_of<'a>(o: &'a Option<Vec<u8>>) -> (r: Option<&'a [u8]>)
    ensures
        match r {
            Some(s) => bytes_view(*o) == Some(s@),
            None => bytes_view(*o) is None,
        },
{
    match o {
        Some(v) => Some(v.as_slice()),
        None => None,
    }
}

fn part_paths_of(platform: Platform, save_dir: &String, filename: &String, chunks: &Vec<Chunk>) -> (r: Vec<String>)
    ensures
        r@.len() == chunks@.len(),
        forall|i: int|
            0 <= i < r@.len() ==> (#[trigger] r@[i])@ == part_path_of(
                platform,
                save_dir@,
                filename@,
                chunks@[i].id@,
            ),
{
    let mut r: Vec<String> = Vec::new();
    let n = chunks.len();
    let mut i: usize = 0;
    while i < n
        invariant
            n == chunks@.len(),
            i <= n,
            r@.len() == i,
            forall|j: int|
                0 <= j < i ==> (#[trigger] r@[j])@ == part_path_of(
                    platform,
                    save_dir@,
                    filename@,
                    chunks@[j].id@,
                ),
        decreases n - i,
    {
        r.push(part_path(platform, save_dir.as_str(), filename.as_str(), chunks[i].id.as_str()));
        i = i + 1;
    }
    r
}

fn tasks_for(platform: Platform, save_dir: &String, filename: &String, chunks: &Vec<Chunk>) -> (r: Vec<ChunkTask>)
    ensures
        r@.len() == chunks@.len(),
        forall|i: int|
            0 <= i < r@.len() ==> is_task_for(#[trigger] r@[i], chunks@[i], platform, save_dir@, filename@),
{
    let mut r: Vec<ChunkTask> = Vec::new();
    let n = chunks.len();
    let mut i: usize = 0;
    while i < n
        invariant
            n == chunks@.len(),
            i <= n,
            r@.len() == i,
            forall|j: int|
                0 <= j < i ==> is_task_for(#[trigger] r@[j], chunks@[j], platform, save_dir@, filename@),
        decreases n - i,
    {
        let chunk = &chunks[i];
        let task = ChunkTask {
            chunk: copy_chunk(chunk),
            part_path: part_path(platform, save_dir.as_str(), filename.as_str(), chunk.id.as_str()),
            range: range_header(chunk),
        };
        r.push(task);
        i = i + 1;
    }
    r
}

fn ended(platform: Platform, download_id: String, url: String, save_dir: String, error: String) -> (r: (DownloadJob, Action))
    ensures
        r.0.platform == platform,
        r.0.download_id == download_id,
        r.0.url == url,
        r.0.save_dir == save_dir,
        ends_with_error(r.0, r.1, error@),
{
    (
        DownloadJob { platform, download_id, url, save_dir, stage: Stage::Finished },
        Action::Finish { result: Err(error) },
    )
}

impl DownloadJob {
    /// A new download of `url` into `save_dir`; its first action creates
    /// the directory.
    pub fn start(platform: Platform, download_id: String, url: String, save_dir: String) -> (r: (
        DownloadJob,
        Action,
    ))
        ensures
            r.0.platform == platform,
            r.0.download_id == download_id,
            r.0.url == url,
            r.0.save_dir == save_dir,
            r.0.stage is CreatingDir,
            r.0.wf(),
            r.1 matches Action::CreateDir { path } && path == save_dir,
    {
        let path = save_dir.clone();
        (DownloadJob { platform, download_id, url, save_dir, stage: Stage::CreatingDir }, Action::CreateDir { path })
    }

    /// Whether the download is over.
    pub fn is_finished(&self) -> (r: bool)
        ensures
            r == self.stage is Finished,
    {
        match self.stage {
            Stage::Finished => true,
            _ => false,
        }
    }

    /// Whether the current stage waits for `event`.
    pub fn accepts_event(&self, event: &Event) -> (r: bool)
        ensures
            r == self.accepts(*event),
    {
        match &self.stage {
            Stage::Finished => false,
            Stage::Probing => match event {
                Event::Probed(_) => true,
                Event::Failed(_) => true,
                _ => false,
            },
            Stage::Fetching { probe, chunks } => match event {
                Event::ChunksDone(outcomes) => {
                    if outcomes.len() > chunks.len() || !totals_stay_in_range(outcomes) {
                        return false;
                    }
                    let n = outcomes.len();
                    let mut i: usize = 0;
                    while i < n
                        invariant
                            self.stage matches Stage::Fetching { probe: p2, chunks: c2 } && p2
                                == *probe && c2 == *chunks,
                            *event matches Event::ChunksDone(o2) && o2 == *outcomes,
                            n == outcomes@.len(),
                            n <= chunks@.len(),
                            i <= n,
                            forall|j: int|
                                0 <= j < i ==> names_part(
                                    #[trigger] outcomes@[j],
                                    part_path_of(
                                        self.platform,
                                        self.save_dir@,
                                        probe.filename@,
                                        chunks@[j].id@,
                                    ),
                                ),
                        decreases n - i,
                    {
                        match &outcomes[i] {
                            ChunkOutcome::Finished { part_path: reported, .. } => {
                                let expected = part_path(
                                    self.platform,
                                    self.save_dir.as_str(),
                                    probe.filename.as_str(),
                                    chunks[i].id.as_str(),
                                );
                                if !(*reported == expected) {
                                    assert(!names_part(
                                        outcomes@[i as int],
                                        part_path_of(
                                            self.platform,
                                            self.save_dir@,
                                            probe.filename@,
                                            chunks@[i as int].id@,
                                        ),
                                    ));
                                    return false;
                                }
                            },
                            _ => {},
                        }
                        i = i + 1;
                    }
                    match summarize(outcomes) {
                        Summary::Complete { .. } => outcomes.len() == chunks.len(),
                        _ => true,
                    }
                },
                _ => false,
            },
            _ => match event {
                Event::Succeeded => true,
                Event::Failed(_) => true,
                _ => false,
            },
        }
    }

    /// Goes on from the outcome of the last action to the next action.
    pub fn step(self, event: Event) -> (r: (DownloadJob, Action))
        requires
            self.wf(),
            self.accepts(event),
        ensures
            same_download(self, r.0),
            r.0.wf(),
            steps_to(self, event, r.0, r.1),
    {
        let ghost before = self;
        let DownloadJob { platform, download_id, url, save_dir, stage } = self;
        match stage {
            Stage::CreatingDir => match event {
                Event::Succeeded => (
                    DownloadJob { platform, download_id, url, save_dir, stage: Stage::BuildingClient },
                    Action::BuildClient {
                        user_agent: String::from_str(USER_AGENT),
                        max_redirects: MAX_REDIRECTS,
                    },
                ),
                Event::Failed(e) => ended(platform, download_id, url, save_dir, e),
                _ => unreached(),
            },
            Stage::BuildingClient => match event {
                Event::Succeeded => {
                    let target = url.clone();
                    (
                        DownloadJob { platform, download_id, url, save_dir, stage: Stage::Probing },
                        Action::SendHead { url: target },
                    )
                },
                Event::Failed(e) => ended(platform, download_id, url, save_dir, e),
                _ => unreached(),
            },
            Stage::Probing => match event {
                Event::Failed(e) => {
                    let message = head_failed_text(e.as_str());
                    ended(platform, download_id, url, save_dir, message)
                },
                Event::Probed(head) => {
                    if !is_success(head.status) {
                        let message = head_rejected_text(head.status);
                        return ended(platform, download_id, url, save_dir, message);
                    }
                    match file_name_from_url(head.final_url.as_str()) {
                        Err(message) => ended(platform, download_id, url, save_dir, message),
                        Ok(filename) => {
                            let save_path = join_path(platform, save_dir.as_str(), filename.as_str());
                            let total = content_length(bytes_of(&head.content_length));
                            let ranges = accepts_ranges(bytes_of(&head.accept_ranges));
                            let action = Action::InsertDownload {
                                id: download_id.clone(),
                                url: url.clone(),
                                filename: filename.clone(),
                                save_path: save_path.clone(),
                                total_bytes: total,
                            };
                            let probe = Probe {
                                final_url: head.final_url,
                                filename,
                                save_path,
                                total_bytes: total,
                                accepts_ranges: ranges,
                            };
                            (
                                DownloadJob {
                                    platform,
                                    download_id,
                                    url,
                                    save_dir,
                                    stage: Stage::Recording { probe },
                                },
                                action,
                            )
                        },
                    }
                },
                _ => unreached(),
            },
            Stage::Recording { probe } => match event {
                Event::Succeeded => {
                    let chunks = plan_chunks(
                        download_id.as_str(),
                        probe.total_bytes,
                        probe.accepts_ranges,
                    );
                    let stored = copy_chunks(&chunks);
                    (
                        DownloadJob {
                            platform,
                            download_id,
                            url,
                            save_dir,
                            stage: Stage::StoringChunks { probe, chunks },
                        },
                        Action::InsertChunks { chunks: stored },
                    )
                },
                Event::Failed(e) => ended(platform, download_id, url, save_dir, e),
                _ => unreached(),
            },
            Stage::StoringChunks { probe, chunks } => match event {
                Event::Succeeded => {
                    let id = download_id.clone();
                    (
                        DownloadJob {
                            platform,
                            download_id,
                            url,
                            save_dir,
                            stage: Stage::MarkingActive { probe, chunks },
                        },
                        Action::MarkDownloading { id },
                    )
                },
                Event::Failed(e) => ended(platform, download_id, url, save_dir, e),
                _ => unreached(),
            },
            Stage::MarkingActive { probe, chunks } => match event {
                Event::Succeeded => {
                    let tasks = tasks_for(platform, &save_dir, &probe.filename, &chunks);
                    let source = probe.final_url.clone();
                    (
                        DownloadJob {
                            platform,
                            download_id,
                            url,
                            save_dir,
                            stage: Stage::Fetching { probe, chunks },
                        },
                        Action::FetchChunks { url: source, tasks },
                    )
                },
                Event::Failed(e) => ended(platform, download_id, url, save_dir, e),
                _ => unreached(),
            },
            Stage::Fetching { probe, chunks } => match event {
                Event::ChunksDone(outcomes) => match summarize(&outcomes) {
                    Summary::WorkerPanicked => {
                        let message = worker_panicked_text();
                        ended(platform, download_id, url, save_dir, message)
                    },
                    Summary::ChunkFailed { error } => {
                        let part_paths = part_paths_of(platform, &save_dir, &probe.filename, &chunks);
                        let id = download_id.clone();
                        (
                            DownloadJob { platform, download_id, url, save_dir, stage: Stage::Finished },
                            Action::Abandon { id, part_paths, error },
                        )
                    },
                    Summary::Complete { part_paths, downloaded } => {
                        proof {
                            lemma_complete_paths(outcomes@);
                            assert forall|i: int| 0 <= i < part_paths@.len() implies (
                            #[trigger] part_paths@[i])@ == part_path_of(
                                platform,
                                save_dir@,
                                probe.filename@,
                                chunks@[i].id@,
                            ) by {
                                assert(strings_view(part_paths@)[i] == part_paths@[i]@);
                                assert(names_part(
                                    outcomes@[i],
                                    part_path_of(platform, save_dir@, probe.filename@, chunks@[i].id@),
                                ));
                            }
                        }
                        let final_path = join_path(platform, save_dir.as_str(), probe.filename.as_str());
                        (
                            DownloadJob {
                                platform,
                                download_id,
                                url,
                                save_dir,
                                stage: Stage::Stitching { probe, downloaded },
                            },
                            Action::Stitch { final_path, part_paths },
                        )
                    },
                },
                _ => unreached(),
            },
            Stage::Stitching { probe, downloaded } => match event {
                Event::Succeeded => {
                    let total = if probe.total_bytes > 0 {
                        probe.total_bytes
                    } else {
                        downloaded
                    };
                    let id = download_id.clone();
                    (
                        DownloadJob { platform, download_id, url, save_dir, stage: Stage::Finalizing },
                        Action::MarkCompleted { id, total_bytes: total, downloaded_bytes: downloaded },
                    )
                },
                Event::Failed(e) => ended(platform, download_id, url, save_dir, e),
                _ => unreached(),
            },
            Stage::Finalizing => match event {
                Event::Succeeded => (
                    DownloadJob { platform, download_id, url, save_dir, stage: Stage::Finished },
                    Action::Finish { result: Ok(()) },
                ),
                Event::Failed(e) => ended(platform, download_id, url, save_dir, e),
                _ => unreached(),
            },
            Stage::Finished => unreached(),
        }
    }
}

} // verus!
