//! The decisions of a resumable download.
//!
//! A transfer goes through two stages. A [`DownloadRequest`] says how to ask
//! for the resource; once the response's head is known it becomes a
//! [`DownloadTask`], which says how to open the destination and accounts for
//! every chunk that was written to it.
//!
//! The caller does the work in between:
//!
//! 1. It takes a request from [`DownloadManager::download_file`] or
//!    [`DownloadManager::resume_download`] and sends a GET, with the `Range`
//!    header that [`DownloadRequest::range_header`] gives, if any.
//! 2. It hands the status and the declared length of the response to
//!    [`DownloadRequest::on_response`], and on success opens the destination
//!    as [`DownloadTask::open_mode`] says.
//! 3. It writes each chunk of the body to the destination, hands it to
//!    [`DownloadTask::on_chunk`], and reports the sample that comes back.
//!
//! When the stream breaks, nothing is undone: the destination keeps what
//! was written, and [`DownloadTask::downloaded_bytes`] is the offset from
//! which a later transfer resumes.
//!
//! The laws at the end of this module say what this amounts to for the
//! destination, which [`TransferView::destination`] models.

use vstd::prelude::*;
use crate::text::{decimal, u64_to_decimal};
use crate::types::DownloadProgress;

verus! {

/// The length of the window over which the transfer rate is measured.
pub const RATE_WINDOW_MS: u64 = 1000;

/// How the destination is opened before the first chunk is written.
#[derive(Debug, Clone, Copy, PartialEq, Eq, Structural)]
pub enum OpenMode {
    /// Create the file, or empty it if it exists.
    Truncate,
    /// Keep what the file holds and write after it.
    Append,
}

/// The server answered with a status that is no success.
#[derive(Debug, Clone, Copy, PartialEq, Eq, Structural)]
pub struct RemoteRejection {
    pub status: u16,
}

/// What a rejection says to the user: the status, and what the server sent
/// with it.
pub open spec fn rejection_message(status: u16, body: Seq<char>) -> Seq<char> {
    "Download rejected ("@ + decimal(status as nat) + "): "@ + body
}

impl RemoteRejection {
    /// The message for this rejection, with the body of the response.
    pub fn message(&self, body: &str) -> (text: String)
        ensures
            text@ == rejection_message(self.status, body@),
    {
        let status = u64_to_decimal(self.status as u64);
        String::from_str("Download rejected (").concat(status.as_str()).concat("): ").concat(body)
    }
}

/// Whether a response status stands for success.
pub open spec fn accepted(status: u16) -> bool {
    200 <= status <= 299
}

/// Whether a response continues a partial file: a range was asked for and
/// the server answered with partial content.
pub open spec fn range_honored(resume_offset: u64, status: u16) -> bool {
    resume_offset > 0 && status == 206
}

/// The value of the `Range` header that asks for everything from `offset` on.
pub open spec fn range_from(offset: nat) -> Seq<char> {
    "bytes="@ + decimal(offset) + "-"@
}

/// One chunk of the response body, with the clock reading at which it was
/// written to the destination.
pub ghost struct ChunkEvent {
    pub bytes: Seq<u8>,
    pub at_ms: nat,
}

/// All the bytes of a run of chunks, in order.
pub open spec fn streamed(events: Seq<ChunkEvent>) -> Seq<u8>
    decreases events.len(),
{
    if events.len() == 0 {
        Seq::empty()
    } else {
        streamed(events.drop_last()) + events.last().bytes
    }
}

/// The state of a transfer whose response has been accepted.
pub ghost struct TransferView {
    /// The length of the destination when streaming began: the resume offset
    /// when the partial file is continued, 0 when the file starts over.
    pub start_offset: nat,
    /// The expected size of the complete file, 0 if unknown.
    pub total: nat,
    /// The bytes written to the destination since streaming began.
    pub written: Seq<u8>,
    /// The clock reading at which the current rate window began.
    pub window_start: nat,
    /// The bytes written during the current rate window.
    pub window_bytes: nat,
    /// The rate of the last full window, in bytes per second.
    pub rate: nat,
}

impl TransferView {
    /// The state right after the head of an accepted response.
    pub open spec fn begin(
        resume_offset: u64,
        status: u16,
        content_length: Option<u64>,
        now_ms: u64,
    ) -> TransferView {
        let start: nat = if range_honored(resume_offset, status) {
            resume_offset as nat
        } else {
            0
        };
        TransferView {
            start_offset: start,
            total: match content_length {
                Some(length) => length as nat + start,
                None => 0,
            },
            written: Seq::empty(),
            window_start: now_ms as nat,
            window_bytes: 0,
            rate: 0,
        }
    }

    /// The bytes on disk so far.
    pub open spec fn downloaded(self) -> nat {
        self.start_offset + self.written.len()
    }

    /// How the destination has to be opened.
    pub open spec fn open_mode(self) -> OpenMode {
        if self.start_offset > 0 {
            OpenMode::Append
        } else {
            OpenMode::Truncate
        }
    }

    /// What the destination holds, given what it held before the transfer.
    pub open spec fn destination(self, before: Seq<u8>) -> Seq<u8> {
        match self.open_mode() {
            OpenMode::Truncate => self.written,
            OpenMode::Append => before + self.written,
        }
    }

    /// The state after one more chunk was written at `now_ms`.
    ///
    /// The rate is renewed when the window has lasted `RATE_WINDOW_MS` or
    /// longer, and stays as it was otherwise, so that a short or empty
    /// interval never decides it.
    pub open spec fn after_chunk(self, chunk: Seq<u8>, now_ms: nat) -> TransferView {
        let bytes: nat = self.window_bytes + chunk.len();
        let elapsed: int = if now_ms >= self.window_start {
            now_ms - self.window_start
        } else {
            0
        };
        if elapsed >= RATE_WINDOW_MS {
            TransferView {
                written: self.written + chunk,
                window_start: now_ms,
                window_bytes: 0,
                rate: ((bytes * 1000) as int / elapsed) as nat,
                ..self
            }
        } else {
            TransferView { written: self.written + chunk, window_bytes: bytes, ..self }
        }
    }

    /// The state after a run of chunks.
    pub open spec fn after_chunks(self, events: Seq<ChunkEvent>) -> TransferView
        decreases events.len(),
    {
        if events.len() == 0 {
            self
        } else {
            self.after_chunks(events.drop_last()).after_chunk(
                events.last().bytes,
                events.last().at_ms,
            )
        }
    }

    /// Whether a progress sample reports this state.
    pub open spec fn reported_by(self, progress: DownloadProgress) -> bool {
        &&& progress.downloaded_bytes == self.downloaded()
        &&& progress.total_bytes == self.total
        &&& progress.bytes_per_second == self.rate
    }
}

/// A download that has not been asked for yet.
#[derive(Debug, Clone, Copy, PartialEq, Eq, Structural)]
pub struct DownloadRequest {
    /// The bytes of the resource that the destination already holds.
    pub resume_offset: u64,
}

impl DownloadRequest {
    /// The value of the `Range` header to send, if the request needs one.
    pub fn range_header(&self) -> (header: Option<String>)
        ensures
            match header {
                Some(value) => self.resume_offset > 0 && value@ == range_from(
                    self.resume_offset as nat,
                ),
                None => self.resume_offset == 0,
            },
    {
        if self.resume_offset == 0 {
            None
        } else {
            let digits = u64_to_decimal(self.resume_offset);
            let value = String::from_str("bytes=").concat(digits.as_str()).concat("-");
            Some(value)
        }
    }

    /// Takes the head of the response: its status, the content length it
    /// declares, and the clock reading in milliseconds.
    ///
    /// A status outside 200..=299 rejects the transfer. With status 206 on a
    /// request that asked for a range, the partial file is continued; any
    /// other success starts the file over, since the body then holds the
    /// resource from its first byte.
    pub fn on_response(self, status: u16, content_length: Option<u64>, now_ms: u64) -> (outcome:
        Result<DownloadTask, RemoteRejection>)
        requires
            range_honored(self.resume_offset, status) ==> (content_length matches Some(length)
                ==> length + self.resume_offset <= u64::MAX),
        ensures
            match outcome {
                Ok(task) => accepted(status) && task@ == TransferView::begin(
                    self.resume_offset,
                    status,
                    content_length,
                    now_ms,
                ),
                Err(rejection) => !accepted(status) && rejection.status == status,
            },
    {
        if status < 200 || status > 299 {
            return Err(RemoteRejection { status });
        }
        let start_offset: u64 = if self.resume_offset > 0 && status == 206 {
            self.resume_offset
        } else {
            0
        };
        let total_bytes: u64 = match content_length {
            Some(length) => length + start_offset,
            None => 0,
        };
        Ok(
            DownloadTask {
                start_offset,
                total_bytes,
                downloaded: start_offset,
                window_start_ms: now_ms,
                window_bytes: 0,
                bytes_per_second: 0,
                written: Ghost(Seq::empty()),
            },
        )
    }
}

/// A download whose response was accepted and whose body is being written
/// to the destination.
pub struct DownloadTask {
    start_offset: u64,
    total_bytes: u64,
    downloaded: u64,
    window_start_ms: u64,
    window_bytes: u64,
    bytes_per_second: u64,
    written: Ghost<Seq<u8>>,
}

impl View for DownloadTask {
    type V = TransferView;

    closed spec fn view(&self) -> TransferView {
        TransferView {
            start_offset: self.start_offset as nat,
            total: self.total_bytes as nat,
            written: self.written@,
            window_start: self.window_start_ms as nat,
            window_bytes: self.window_bytes as nat,
            rate: self.bytes_per_second as nat,
        }
    }
}

impl DownloadTask {
    #[verifier::type_invariant]
    spec fn consistent(self) -> bool {
        &&& self.downloaded == self.start_offset + self.written@.len()
        &&& self.window_bytes <= self.written@.len()
    }

    /// How the destination has to be opened before the first chunk is
    /// written.
    pub fn open_mode(&self) -> (mode: OpenMode)
        ensures
            mode == self@.open_mode(),
    {
        if self.start_offset > 0 {
            OpenMode::Append
        } else {
            OpenMode::Truncate
        }
    }

    /// The bytes on disk so far: where a later attempt resumes.
    pub fn downloaded_bytes(&self) -> (bytes: u64)
        ensures
            bytes == self@.downloaded(),
    {
        proof {
            use_type_invariant(self);
        }
        self.downloaded
    }

    /// The expected size of the complete file, 0 if unknown.
    pub fn total_bytes(&self) -> (bytes: u64)
        ensures
            bytes == self@.total,
    {
        self.total_bytes
    }

    /// The progress as it stands.
    pub fn progress(&self) -> (progress: DownloadProgress)
        ensures
            self@.reported_by(progress),
    {
        proof {
            use_type_invariant(self);
        }
        DownloadProgress {
            downloaded_bytes: self.downloaded,
            total_bytes: self.total_bytes,
            bytes_per_second: self.bytes_per_second,
        }
    }

    /// Accounts for a chunk that was written to the destination at
    /// `now_ms`, and gives the sample to report.
    pub fn on_chunk(&mut self, chunk: &[u8], now_ms: u64) -> (progress: DownloadProgress)
        requires
            old(self)@.downloaded() + chunk@.len() <= u64::MAX,
        ensures
            final(self)@ == old(self)@.after_chunk(chunk@, now_ms as nat),
            final(self)@.reported_by(progress),
            progress.downloaded_bytes == old(self)@.downloaded() + chunk@.len(),
    {
        proof {
            use_type_invariant(&*self);
        }
        let length: u64 = chunk.len() as u64;
        let downloaded: u64 = self.downloaded + length;
        let bytes: u64 = self.window_bytes + length;
        let elapsed: u64 = if now_ms >= self.window_start_ms {
            now_ms - self.window_start_ms
        } else {
            0
        };
        let written: Ghost<Seq<u8>> = Ghost(self.written@ + chunk@);
        if elapsed >= RATE_WINDOW_MS {
            let scaled: u128 = bytes as u128 * 1000;
            let rate: u128 = scaled / elapsed as u128;
            assert(rate <= bytes) by (nonlinear_arith)
                requires
                    rate == (bytes * 1000) / (elapsed as int),
                    elapsed >= 1000,
            ;
            *self = DownloadTask {
                start_offset: self.start_offset,
                total_bytes: self.total_bytes,
                downloaded,
                window_start_ms: now_ms,
                window_bytes: 0,
                bytes_per_second: rate as u64,
                written,
            };
        } else {
            *self = DownloadTask {
                start_offset: self.start_offset,
                total_bytes: self.total_bytes,
                downloaded,
                window_start_ms: self.window_start_ms,
                window_bytes: bytes,
                bytes_per_second: self.bytes_per_second,
                written,
            };
        }
        DownloadProgress {
            downloaded_bytes: downloaded,
            total_bytes: self.total_bytes,
            bytes_per_second: self.bytes_per_second,
        }
    }
}

/// The entry points of the transfer engine.
pub struct DownloadManager;

impl DownloadManager {
    /// A download from the first byte.
    pub fn download_file() -> (request: DownloadRequest)
        ensures
            request.resume_offset == 0,
    {
        DownloadRequest { resume_offset: 0 }
    }

    /// A download that continues a destination which already holds
    /// `existing_size` bytes of the resource.
    pub fn resume_download(existing_size: u64) -> (request: DownloadRequest)
        ensures
            request.resume_offset == existing_size,
    {
        DownloadRequest { resume_offset: existing_size }
    }
}

/// A run of chunks adds its bytes to what was written, in order, and leaves
/// the start offset, the expected total and the way the destination is
/// opened as they were.
pub proof fn lemma_chunks_accumulate(task: TransferView, events: Seq<ChunkEvent>)
    ensures
        task.after_chunks(events).written == task.written + streamed(events),
        task.after_chunks(events).start_offset == task.start_offset,
        task.after_chunks(events).total == task.total,
        task.after_chunks(events).open_mode() == task.open_mode(),
        task.after_chunks(events).downloaded() == task.downloaded() + streamed(events).len(),
    decreases events.len(),
{
    if events.len() > 0 {
        lemma_chunks_accumulate(task, events.drop_last());
        assert(task.after_chunks(events).written =~= task.written + streamed(events));
    } else {
        assert(task.written + streamed(events) =~= task.written);
    }
}

/// The bytes of two runs of chunks, one after the other, are the bytes of
/// the first followed by those of the second.
pub proof fn lemma_streamed_concat(first: Seq<ChunkEvent>, second: Seq<ChunkEvent>)
    ensures
        streamed(first + second) == streamed(first) + streamed(second),
    decreases second.len(),
{
    if second.len() == 0 {
        assert(first + second =~= first);
        assert(streamed(first) + streamed(second) =~= streamed(first));
    } else {
        assert((first + second).drop_last() =~= first + second.drop_last());
        assert((first + second).last() == second.last());
        lemma_streamed_concat(first, second.drop_last());
        assert(streamed(first + second) =~= streamed(first) + streamed(second));
    }
}

/// Progress never goes back: of two samples of one transfer, the later one
/// reports at least as many bytes as the earlier one.
pub proof fn law_progress_never_decreases(
    task: TransferView,
    events: Seq<ChunkEvent>,
    earlier: int,
    later: int,
)
    requires
        0 <= earlier <= later <= events.len(),
    ensures
        task.after_chunks(events.take(earlier)).downloaded() <= task.after_chunks(
            events.take(later),
        ).downloaded(),
{
    lemma_chunks_accumulate(task, events.take(earlier));
    lemma_chunks_accumulate(task, events.take(later));
    assert(events.take(later) =~= events.take(earlier) + events.subrange(earlier, later));
    lemma_streamed_concat(events.take(earlier), events.subrange(earlier, later));
}

/// The last sample of a transfer reports the resume offset plus every byte
/// that was streamed, when the transfer starts from zero or the server
/// continues the partial file.
pub proof fn law_final_progress_counts_every_byte(
    resume_offset: u64,
    status: u16,
    content_length: Option<u64>,
    now_ms: u64,
    events: Seq<ChunkEvent>,
)
    requires
        resume_offset == 0 || status == 206,
    ensures
        TransferView::begin(resume_offset, status, content_length, now_ms).after_chunks(
            events,
        ).downloaded() == resume_offset + streamed(events).len(),
{
    lemma_chunks_accumulate(
        TransferView::begin(resume_offset, status, content_length, now_ms),
        events,
    );
}

/// When the server answers a range request with the whole resource, the
/// count starts over: the last sample reports the streamed bytes alone, and
/// the destination holds them and nothing of the partial file.
pub proof fn law_restart_discards_partial_file(
    resume_offset: u64,
    status: u16,
    content_length: Option<u64>,
    now_ms: u64,
    events: Seq<ChunkEvent>,
    before: Seq<u8>,
)
    requires
        status != 206,
    ensures
        TransferView::begin(resume_offset, status, content_length, now_ms).after_chunks(
            events,
        ).downloaded() == streamed(events).len(),
        TransferView::begin(resume_offset, status, content_length, now_ms).after_chunks(
            events,
        ).destination(before) == streamed(events),
{
    let task = TransferView::begin(resume_offset, status, content_length, now_ms);
    lemma_chunks_accumulate(task, events);
    assert(task.written + streamed(events) =~= streamed(events));
}

/// A transfer that is cut after some chunks leaves the destination with what
/// it held when streaming began followed by exactly the bytes of those
/// chunks: a beginning of what the whole transfer would have left.  If the
/// file starts over, or the resume offset was the length of the file, the
/// count of downloaded bytes is the length of what is on disk.
pub proof fn law_interruption_keeps_received_bytes(
    task: TransferView,
    before: Seq<u8>,
    events: Seq<ChunkEvent>,
    cut: int,
)
    requires
        0 <= cut <= events.len(),
    ensures
        task.after_chunks(events.take(cut)).destination(before) == task.destination(before)
            + streamed(events.take(cut)),
        task.after_chunks(events.take(cut)).destination(before).is_prefix_of(
            task.after_chunks(events).destination(before),
        ),
        task.start_offset == 0 || before.len() == task.start_offset ==> task.after_chunks(
            events.take(cut),
        ).destination(before).len() == task.after_chunks(events.take(cut)).downloaded(),
{
    let part = events.take(cut);
    let rest = events.subrange(cut, events.len() as int);
    lemma_chunks_accumulate(task, part);
    lemma_chunks_accumulate(task, events);
    assert(events =~= part + rest);
    lemma_streamed_concat(part, rest);
    assert(task.after_chunks(part).destination(before) =~= task.destination(before) + streamed(
        part,
    ));
    assert(task.after_chunks(events).destination(before) =~= task.after_chunks(
        part,
    ).destination(before) + streamed(rest));
}

/// A download in two attempts leaves the same file as a download in one.
///
/// The first attempt starts from zero and is cut after the chunks `first`.
/// The second resumes with the length of what is on disk as its offset, the
/// server continues from there, and the chunks `second` arrive.  The
/// destination then holds what one attempt that received `first` and then
/// `second` would have left: the bytes of both, in order.
pub proof fn law_resume_equals_single_pass(
    before: Seq<u8>,
    first: Seq<ChunkEvent>,
    second: Seq<ChunkEvent>,
    first_status: u16,
    first_length: Option<u64>,
    first_ms: u64,
    second_status: u16,
    second_length: Option<u64>,
    second_ms: u64,
)
    requires
        streamed(first).len() <= u64::MAX,
        streamed(first).len() > 0 ==> second_status == 206,
    ensures
        ({
            let fresh = TransferView::begin(0, first_status, first_length, first_ms);
            let partial = fresh.after_chunks(first).destination(before);
            let resumed = TransferView::begin(
                partial.len() as u64,
                second_status,
                second_length,
                second_ms,
            ).after_chunks(second).destination(partial);
            let single = fresh.after_chunks(first + second).destination(before);
            &&& partial == streamed(first)
            &&& resumed == single
            &&& single == streamed(first) + streamed(second)
        }),
{
    let fresh = TransferView::begin(0, first_status, first_length, first_ms);
    lemma_chunks_accumulate(fresh, first);
    lemma_chunks_accumulate(fresh, first + second);
    lemma_streamed_concat(first, second);
    let partial = fresh.after_chunks(first).destination(before);
    assert(partial =~= streamed(first));
    let again = TransferView::begin(partial.len() as u64, second_status, second_length, second_ms);
    lemma_chunks_accumulate(again, second);
    assert(again.after_chunks(second).destination(partial) =~= streamed(first) + streamed(second));
    assert(fresh.after_chunks(first + second).destination(before) =~= streamed(first) + streamed(
        second,
    ));
}

} // verus!
