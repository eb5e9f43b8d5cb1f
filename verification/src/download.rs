//! The course of a download: what to do next, given what has happened so far.

use crate::snapshot::{has_segments, last_segment, snapshot_file_name};
use vstd::prelude::*;
use vstd::wrapping::u64_specs::wrapping_add;

verus! {

/// What a download has to do next, or how it ended.
#[derive(Debug, Clone, Copy, PartialEq, Eq, Structural)]
pub enum DownloadStep {
    /// Create the directory and all its parents.
    CreateDirectory,
    /// Send the request and follow redirects.
    SendRequest,
    /// Create a temporary file in the directory.
    CreateTemporary,
    /// Wait for the next chunk of the response.
    ReadChunk,
    /// Append the chunk at hand to the temporary file.
    WriteChunk,
    /// Write out what is still buffered.
    Flush,
    /// Give the temporary file its final name.
    Persist,
    /// The file is in place.
    Finished,
    /// The URL names no file.
    NoFileName,
    /// Something went wrong, and the temporary file is dropped.
    Failed,
}

/// What has become of a step.
#[derive(Debug)]
pub enum DownloadEvent {
    DirectoryCreated,
    /// A response has come from the URL with this path. Its status says whether
    /// the request was successful.
    Responded { path: String, success: bool },
    TemporaryCreated,
    /// A chunk with these bytes has come.
    ChunkRead(Vec<u8>),
    /// The response is at its end.
    BodyEnded,
    ChunkWritten,
    Flushed,
    Persisted,
    /// The step could not be done.
    StepFailed,
}

/// A download: its next step, the name of the file, the chunk that is to be
/// written next and the number of bytes written.
#[derive(Debug)]
pub struct Download {
    step: DownloadStep,
    file_name: String,
    chunk: Vec<u8>,
    position: u64,
}

/// What a [`Download`] holds.
pub struct DownloadView {
    pub step: DownloadStep,
    pub file_name: Seq<char>,
    pub chunk: Seq<u8>,
    pub position: u64,
}

impl View for Download {
    type V = DownloadView;

    closed spec fn view(&self) -> DownloadView {
        DownloadView {
            step: self.step,
            file_name: self.file_name@,
            chunk: self.chunk@,
            position: self.position,
        }
    }
}

/// A download that has not begun.
pub open spec fn fresh_download() -> DownloadView {
    DownloadView {
        step: DownloadStep::CreateDirectory,
        file_name: Seq::empty(),
        chunk: Seq::empty(),
        position: 0,
    }
}

/// Whether a download is over.
pub open spec fn is_over(step: DownloadStep) -> bool {
    step is Finished || step is NoFileName || step is Failed
}

/// The download after an event. Every step has one event by which it succeeds, or
/// two where a chunk may come or none; anything else fails the download, and so
/// does a response to a request that was not successful. A download that is over
/// stays as it is.
pub open spec fn after(download: DownloadView, event: DownloadEvent) -> DownloadView {
    if is_over(download.step) {
        download
    } else {
        match (download.step, event) {
            (DownloadStep::CreateDirectory, DownloadEvent::DirectoryCreated) => DownloadView {
                step: DownloadStep::SendRequest,
                ..download
            },
            (DownloadStep::SendRequest, DownloadEvent::Responded { path, success }) => if !success {
                DownloadView { step: DownloadStep::Failed, ..download }
            } else if has_segments(path@) {
                DownloadView {
                    step: DownloadStep::CreateTemporary,
                    file_name: last_segment(path@),
                    ..download
                }
            } else {
                DownloadView { step: DownloadStep::NoFileName, ..download }
            },
            (DownloadStep::CreateTemporary, DownloadEvent::TemporaryCreated) => DownloadView {
                step: DownloadStep::ReadChunk,
                ..download
            },
            (DownloadStep::ReadChunk, DownloadEvent::ChunkRead(bytes)) => DownloadView {
                step: DownloadStep::WriteChunk,
                chunk: bytes@,
                ..download
            },
            (DownloadStep::ReadChunk, DownloadEvent::BodyEnded) => DownloadView {
                step: DownloadStep::Flush,
                ..download
            },
            (DownloadStep::WriteChunk, DownloadEvent::ChunkWritten) => DownloadView {
                step: DownloadStep::ReadChunk,
                chunk: Seq::empty(),
                position: wrapping_add(download.position, download.chunk.len() as u64),
                ..download
            },
            (DownloadStep::Flush, DownloadEvent::Flushed) => DownloadView {
                step: DownloadStep::Persist,
                ..download
            },
            (DownloadStep::Persist, DownloadEvent::Persisted) => DownloadView {
                step: DownloadStep::Finished,
                ..download
            },
            _ => DownloadView { step: DownloadStep::Failed, ..download },
        }
    }
}

impl Download {
    /// A download that has not begun.
    pub fn new() -> (download: Download)
        ensures
            download@ == fresh_download(),
    {
        let file_name: String = String::new();
        assert(file_name@ =~= Seq::empty());
        Download { step: DownloadStep::CreateDirectory, file_name, chunk: Vec::new(), position: 0 }
    }

    /// What to do next, or how the download ended.
    pub fn step(&self) -> (step: DownloadStep)
        ensures
            step == self@.step,
    {
        self.step
    }

    /// The name of the file, once there has been a response.
    pub fn file_name(&self) -> (name: &str)
        ensures
            name@ == self@.file_name,
    {
        self.file_name.as_str()
    }

    /// The chunk that has come and is not yet written.
    pub fn chunk(&self) -> (chunk: &Vec<u8>)
        ensures
            chunk@ == self@.chunk,
    {
        &self.chunk
    }

    /// The number of bytes written so far.
    pub fn position(&self) -> (position: u64)
        ensures
            position == self@.position,
    {
        self.position
    }

    /// Takes note of what has become of the step.
    pub fn record(&mut self, event: DownloadEvent)
        ensures
            final(self)@ == after(old(self)@, event),
    {
        match (self.step, event) {
            (DownloadStep::Finished, _) => {},
            (DownloadStep::NoFileName, _) => {},
            (DownloadStep::Failed, _) => {},
            (DownloadStep::CreateDirectory, DownloadEvent::DirectoryCreated) => {
                self.step = DownloadStep::SendRequest;
            },
            (DownloadStep::SendRequest, DownloadEvent::Responded { path, success }) => {
                if success {
                    match snapshot_file_name(path.as_str()) {
                        Some(file_name) => {
                            self.file_name = file_name;
                            self.step = DownloadStep::CreateTemporary;
                        },
                        None => {
                            self.step = DownloadStep::NoFileName;
                        },
                    }
                } else {
                    self.step = DownloadStep::Failed;
                }
            },
            (DownloadStep::CreateTemporary, DownloadEvent::TemporaryCreated) => {
                self.step = DownloadStep::ReadChunk;
            },
            (DownloadStep::ReadChunk, DownloadEvent::ChunkRead(bytes)) => {
                self.chunk = bytes;
                self.step = DownloadStep::WriteChunk;
            },
            (DownloadStep::ReadChunk, DownloadEvent::BodyEnded) => {
                self.step = DownloadStep::Flush;
            },
            (DownloadStep::WriteChunk, DownloadEvent::ChunkWritten) => {
                self.position = self.position.wrapping_add(self.chunk.len() as u64);
                self.chunk = Vec::new();
                self.step = DownloadStep::ReadChunk;
            },
            (DownloadStep::Flush, DownloadEvent::Flushed) => {
                self.step = DownloadStep::Persist;
            },
            (DownloadStep::Persist, DownloadEvent::Persisted) => {
                self.step = DownloadStep::Finished;
            },
            _ => {
                self.step = DownloadStep::Failed;
            },
        }
    }
}

/// A download after a course of events.
pub open spec fn after_all(events: Seq<DownloadEvent>) -> DownloadView
    decreases events.len(),
{
    if events.len() == 0 {
        fresh_download()
    } else {
        after(after_all(events.drop_last()), events.last())
    }
}

/// The bytes that have come, chunk after chunk.
pub open spec fn received(events: Seq<DownloadEvent>) -> Seq<u8>
    decreases events.len(),
{
    if events.len() == 0 {
        Seq::empty()
    } else {
        match events.last() {
            DownloadEvent::ChunkRead(bytes) => received(events.drop_last()) + bytes@,
            _ => received(events.drop_last()),
        }
    }
}

/// The bytes in the temporary file: each time that a chunk was to be written and
/// was written, that chunk.
pub open spec fn written(events: Seq<DownloadEvent>) -> Seq<u8>
    decreases events.len(),
{
    if events.len() == 0 {
        Seq::empty()
    } else {
        let rest = events.drop_last();
        match (after_all(rest).step, events.last()) {
            (DownloadStep::WriteChunk, DownloadEvent::ChunkWritten) => written(rest) + after_all(
                rest,
            ).chunk,
            _ => written(rest),
        }
    }
}

/// What holds while a download goes on.
spec fn on_course(events: Seq<DownloadEvent>) -> bool {
    let download = after_all(events);
    let step = download.step;
    &&& forall|i: int| 0 <= i < events.len() ==> !(#[trigger] events[i] is StepFailed)
    &&& step is WriteChunk ==> events.len() > 0 && (events.last() matches DownloadEvent::ChunkRead(
        bytes,
    ) && bytes@ == download.chunk)
    &&& !(step is WriteChunk) ==> download.chunk == Seq::<u8>::empty()
    &&& received(events) == written(events) + download.chunk
    &&& written(events).len() <= u64::MAX ==> download.position == written(events).len()
    &&& step is Flush ==> events.len() > 0 && events.last() is BodyEnded
    &&& step is Persist ==> events.len() > 1 && events.last() is Flushed && events[events.len() - 2]
        is BodyEnded
    &&& step is CreateDirectory ==> events.len() == 0
    &&& step is SendRequest ==> events.len() == 1
}

proof fn stays_on_course(events: Seq<DownloadEvent>)
    requires
        !is_over(after_all(events).step),
    ensures
        on_course(events),
    decreases events.len(),
{
    if events.len() == 0 {
        assert(received(events) =~= written(events) + after_all(events).chunk);
    } else {
        let rest = events.drop_last();
        let before = after_all(rest);
        assert(!is_over(before.step));
        stays_on_course(rest);
        assert forall|i: int| 0 <= i < events.len() implies !(#[trigger] events[i] is StepFailed) by {
            if i < rest.len() {
                assert(events[i] == rest[i]);
            }
        }
        assert(received(events) =~= written(events) + after_all(events).chunk);
    }
}

/// The chunks are written as they come: while one is to be written, it is the one
/// that has just been read, and all before it is in the file; at any other time
/// all that has come is in the file. So no chunk is read before the last one is
/// written.
pub proof fn chunks_are_written_as_they_come(events: Seq<DownloadEvent>)
    requires
        !is_over(after_all(events).step),
    ensures
        after_all(events).step is WriteChunk ==> {
            &&& events.len() > 0
            &&& events.last() matches DownloadEvent::ChunkRead(bytes)
            &&& after_all(events).chunk == bytes@
            &&& written(events) == received(events.drop_last())
        },
        !(after_all(events).step is WriteChunk) ==> written(events) == received(events),
        written(events).len() <= u64::MAX ==> after_all(events).position == written(events).len(),
{
    stays_on_course(events);
    if after_all(events).step is WriteChunk {
        let rest = events.drop_last();
        stays_on_course(rest);
        assert(written(rest) + after_all(rest).chunk =~= written(rest));
    } else {
        assert(written(events) + after_all(events).chunk =~= written(events));
    }
}

/// The file is only put in its place once the request was successful, the response
/// has come to its end and every chunk of it has been written and flushed, with no
/// failure before. The file then holds just the bytes that came.
pub proof fn only_complete_downloads_are_persisted(events: Seq<DownloadEvent>)
    requires
        after_all(events).step is Persist,
    ensures
        forall|i: int| 0 <= i < events.len() ==> !(#[trigger] events[i] is StepFailed),
        events.len() > 1 && events.last() is Flushed && events[events.len() - 2] is BodyEnded,
        events[1] matches DownloadEvent::Responded { path, success } && success,
        written(events) == received(events),
        received(events).len() <= u64::MAX ==> after_all(events).position == received(events).len(),
{
    stays_on_course(events);
    chunks_are_written_as_they_come(events);
    files_are_named_by_the_response(events);
}

/// A download that is over stays as it is, whatever is reported.
pub proof fn what_is_over_stays_over(events: Seq<DownloadEvent>, n: int)
    requires
        0 <= n <= events.len(),
        is_over(after_all(events.take(n)).step),
    ensures
        after_all(events) == after_all(events.take(n)),
    decreases events.len() - n,
{
    if n < events.len() {
        assert(events.take(n + 1).drop_last() =~= events.take(n));
        what_is_over_stays_over(events, n + 1);
    } else {
        assert(events.take(n) =~= events);
    }
}

/// A failure on the way ends the download for good, so the file is not put in its
/// place.
pub proof fn failed_downloads_leave_no_file(events: Seq<DownloadEvent>, n: int)
    requires
        0 <= n < events.len(),
        events[n] is StepFailed,
        !is_over(after_all(events.take(n)).step),
    ensures
        after_all(events).step is Failed,
{
    assert(events.take(n + 1).drop_last() =~= events.take(n));
    assert(events.take(n + 1).last() == events[n]);
    what_is_over_stays_over(events, n + 1);
}

/// A request that was not successful leaves no file, whatever comes with the
/// response.
pub proof fn refused_requests_leave_no_file(events: Seq<DownloadEvent>)
    requires
        events.len() > 1,
        events[1] matches DownloadEvent::Responded { path, success } && !success,
    ensures
        after_all(events).step is Failed,
{
    assert(events.take(1).drop_last() =~= Seq::empty());
    assert(events.take(2).drop_last() =~= events.take(1));
    assert(after_all(events.take(1).drop_last()) == fresh_download());
    let begun = after_all(events.take(1)).step;
    assert(begun is SendRequest || begun is Failed);
    assert(after_all(events.take(2)).step is Failed);
    what_is_over_stays_over(events, 2);
}

/// A download is finished only by putting in place a file that was complete.
pub proof fn finished_downloads_were_persisted(events: Seq<DownloadEvent>)
    requires
        after_all(events).step is Finished,
    ensures
        exists|n: int|
            0 <= n < events.len() && events[n] is Persisted && #[trigger] after_all(
                events.take(n),
            ).step is Persist,
    decreases events.len(),
{
    let last = events.len() - 1;
    let rest = events.drop_last();
    assert(rest =~= events.take(last));
    if after_all(rest).step is Finished {
        finished_downloads_were_persisted(rest);
        let n = choose|n: int|
            0 <= n < rest.len() && rest[n] is Persisted && #[trigger] after_all(
                rest.take(n),
            ).step is Persist;
        assert(rest.take(n) =~= events.take(n));
        assert(events[n] == rest[n]);
        assert(after_all(events.take(n)).step is Persist);
    } else {
        assert(after_all(events.take(last)).step is Persist);
        assert(events[last] is Persisted);
    }
}

/// The file gets the name that the URL of the response ends in, and the request
/// was successful.
pub proof fn files_are_named_by_the_response(events: Seq<DownloadEvent>)
    requires
        ({
            let step = after_all(events).step;
            &&& !(step is CreateDirectory || step is SendRequest)
            &&& !(step is NoFileName || step is Failed)
        }),
    ensures
        events.len() > 1,
        events[1] matches DownloadEvent::Responded { path, success } && success && has_segments(
            path@,
        ) && after_all(events).file_name == last_segment(path@),
    decreases events.len(),
{
    assert(events.len() > 0);
    let rest = events.drop_last();
    let before = after_all(rest).step;
    if before is SendRequest {
        assert(rest.len() == 1) by {
            stays_on_course(rest);
        }
    } else {
        files_are_named_by_the_response(rest);
        assert(rest[1] == events[1]);
    }
}

/// The directory is created before anything else is done.
pub proof fn the_directory_comes_first(events: Seq<DownloadEvent>)
    requires
        events.len() > 0,
        !(events[0] is DirectoryCreated),
    ensures
        after_all(events).step is Failed,
{
    assert(events.take(1).drop_last() =~= Seq::empty());
    assert(after_all(events.take(1).drop_last()) == fresh_download());
    what_is_over_stays_over(events, 1);
}

/// Each step that succeeds leads on to the next: the directory to the request, a
/// successful response that names a file to the temporary file, that to the first
/// chunk, a chunk of any length to its writing and a written chunk to the next, the
/// end of the response to the flush, and that to the file's place. Nothing is
/// changed on the way but what the step is about.
pub proof fn steps_that_succeed_lead_on(
    download: DownloadView,
    path: String,
    bytes: Vec<u8>,
)
    ensures
        download.step is CreateDirectory ==> after(download, DownloadEvent::DirectoryCreated) == (
        DownloadView { step: DownloadStep::SendRequest, ..download }),
        download.step is SendRequest && path@.len() > 0 && path@[0] == '/' ==> ({
            let next = after(download, DownloadEvent::Responded { path, success: true });
            &&& next.step is CreateTemporary
            &&& next.file_name == last_segment(path@)
            &&& next.chunk == download.chunk
            &&& next.position == download.position
        }),
        download.step is CreateTemporary ==> after(download, DownloadEvent::TemporaryCreated) == (
        DownloadView { step: DownloadStep::ReadChunk, ..download }),
        download.step is ReadChunk ==> after(download, DownloadEvent::ChunkRead(bytes)) == (
        DownloadView { step: DownloadStep::WriteChunk, chunk: bytes@, ..download }),
        download.step is WriteChunk ==> ({
            let next = after(download, DownloadEvent::ChunkWritten);
            &&& next.step is ReadChunk
            &&& next.file_name == download.file_name
            &&& next.chunk.len() == 0
            &&& download.position + download.chunk.len() <= u64::MAX ==> next.position
                == download.position + download.chunk.len()
        }),
        download.step is ReadChunk ==> after(download, DownloadEvent::BodyEnded) == (DownloadView {
            step: DownloadStep::Flush,
            ..download
        }),
        download.step is Flush ==> after(download, DownloadEvent::Flushed) == (DownloadView {
            step: DownloadStep::Persist,
            ..download
        }),
        download.step is Persist ==> after(download, DownloadEvent::Persisted) == (DownloadView {
            step: DownloadStep::Finished,
            ..download
        }),
{
}

/// A download is over only when it is finished, has no file name or has failed; and
/// it has no file name only by a successful response from a path that names none.
pub proof fn downloads_end_in_three_ways(download: DownloadView, event: DownloadEvent)
    ensures
        is_over(download.step) <==> download.step is Finished || download.step is NoFileName
            || download.step is Failed,
        is_over(download.step) ==> after(download, event) == download,
        !is_over(download.step) ==> (after(download, event).step is NoFileName <==> (
        download.step is SendRequest && (event matches DownloadEvent::Responded { path, success }
            && success && !(path@.len() > 0 && path@[0] == '/')))),
        !is_over(download.step) ==> (after(download, event).step is Finished <==> (
        download.step is Persist && event is Persisted)),
        !is_over(download.step) && event is StepFailed ==> after(download, event).step is Failed,
{
}

/// An event fails a download that goes on exactly when it is not what the step
/// waits for, or is a response to a request that was not successful.
pub proof fn only_what_was_waited_for_succeeds(download: DownloadView, event: DownloadEvent)
    requires
        !is_over(download.step),
    ensures
        after(download, event).step is Failed <==> !match download.step {
            DownloadStep::CreateDirectory => event is DirectoryCreated,
            DownloadStep::SendRequest => event matches DownloadEvent::Responded { path, success }
                && success,
            DownloadStep::CreateTemporary => event is TemporaryCreated,
            DownloadStep::ReadChunk => event is ChunkRead || event is BodyEnded,
            DownloadStep::WriteChunk => event is ChunkWritten,
            DownloadStep::Flush => event is Flushed,
            _ => event is Persisted,
        },
{
}

/// Whether the events report that the directory was created, that a file at `path`
/// was answered for and a temporary file made, and that the first `n` chunks were
/// read and written.
pub open spec fn reports_chunks(
    events: Seq<DownloadEvent>,
    path: String,
    chunks: Seq<Vec<u8>>,
    n: int,
) -> bool {
    &&& 0 <= n <= chunks.len()
    &&& events.len() >= 3 + 2 * n
    &&& events[0] is DirectoryCreated
    &&& events[1] == (DownloadEvent::Responded { path, success: true })
    &&& events[2] is TemporaryCreated
    &&& forall|k: int|
        0 <= k < n ==> events[3 + 2 * k] == DownloadEvent::ChunkRead(#[trigger] chunks[k])
            && events[4 + 2 * k] is ChunkWritten
}

/// The bytes of chunks, one after another.
pub open spec fn bytes_of(chunks: Seq<Vec<u8>>) -> Seq<u8>
    decreases chunks.len(),
{
    if chunks.len() == 0 {
        Seq::empty()
    } else {
        bytes_of(chunks.drop_last()) + chunks.last()@
    }
}

proof fn chunks_go_into_the_file(
    events: Seq<DownloadEvent>,
    path: String,
    chunks: Seq<Vec<u8>>,
    n: int,
)
    requires
        reports_chunks(events, path, chunks, n),
        path@.len() > 0 && path@[0] == '/',
    ensures
        ({
            let upto = events.take(3 + 2 * n);
            &&& after_all(upto).step is ReadChunk
            &&& after_all(upto).file_name == last_segment(path@)
            &&& written(upto) == bytes_of(chunks.take(n))
        }),
    decreases n,
{
    let upto = events.take(3 + 2 * n);
    if n == 0 {
        let two = upto.drop_last();
        let one = two.drop_last();
        assert(two =~= events.take(2) && one =~= events.take(1));
        assert(one.drop_last() =~= Seq::empty());
        assert(one.last() == events[0] && two.last() == events[1] && upto.last() == events[2]);
        assert(after_all(one.drop_last()) == fresh_download());
        assert(after_all(one).step is SendRequest);
        assert(after_all(two).step is CreateTemporary);
        assert(written(one.drop_last()) == Seq::<u8>::empty());
        assert(written(one) == Seq::<u8>::empty());
        assert(written(two) == Seq::<u8>::empty());
        assert(chunks.take(0) =~= Seq::empty());
    } else {
        let k = n - 1;
        let chunk = chunks[k];
        let read = upto.drop_last();
        let rest = read.drop_last();
        assert(rest =~= events.take(3 + 2 * k));
        chunks_go_into_the_file(events, path, chunks, k);
        assert(read.last() == events[3 + 2 * k] && upto.last() == events[4 + 2 * k]);
        assert(after_all(read).step is WriteChunk && after_all(read).chunk == chunk@);
        assert(written(read) == written(rest));
        assert(chunks.take(n).drop_last() =~= chunks.take(k));
        assert(chunks.take(n).last() == chunk);
    }
}

/// A download of which every step succeeds is finished, whatever number of chunks
/// comes and however long they are: the file then holds all of them, in the order in
/// which they came, under the name that the path ends in.
pub proof fn undisturbed_downloads_are_finished(
    events: Seq<DownloadEvent>,
    path: String,
    chunks: Seq<Vec<u8>>,
)
    requires
        events.len() == 6 + 2 * chunks.len(),
        events[0] is DirectoryCreated,
        events[1] == (DownloadEvent::Responded { path, success: true }),
        path@.len() > 0 && path@[0] == '/',
        events[2] is TemporaryCreated,
        forall|k: int|
            0 <= k < chunks.len() ==> events[3 + 2 * k] == DownloadEvent::ChunkRead(
                #[trigger] chunks[k],
            ) && events[4 + 2 * k] is ChunkWritten,
        events[events.len() - 3] is BodyEnded,
        events[events.len() - 2] is Flushed,
        events[events.len() - 1] is Persisted,
    ensures
        after_all(events).step is Finished,
        after_all(events).file_name == last_segment(path@),
        written(events) == bytes_of(chunks),
        bytes_of(chunks).len() <= u64::MAX ==> after_all(events).position == bytes_of(chunks).len(),
{
    let n = chunks.len() as int;
    chunks_go_into_the_file(events, path, chunks, n);
    assert(chunks.take(n) =~= chunks);
    let flushed = events.drop_last();
    let ended = flushed.drop_last();
    let body = ended.drop_last();
    assert(body =~= events.take(3 + 2 * n));
    assert(ended.last() == events[events.len() - 3]);
    assert(flushed.last() == events[events.len() - 2]);
    assert(after_all(ended).step is Flush);
    assert(after_all(flushed).step is Persist);
    assert(written(ended) == written(body) && written(flushed) == written(ended));
    chunks_are_written_as_they_come(flushed);
}

/// The bytes of two runs of chunks are those of the first, then those of the second,
/// and those of a single chunk are its own.
pub proof fn bytes_of_chunks_join(a: Seq<Vec<u8>>, b: Seq<Vec<u8>>, chunk: Vec<u8>)
    ensures
        bytes_of(a + b) == bytes_of(a) + bytes_of(b),
        bytes_of(seq![chunk]) == chunk@,
    decreases b.len(),
{
    assert(seq![chunk].drop_last() =~= Seq::empty());
    assert(bytes_of(seq![chunk].drop_last()) == Seq::<u8>::empty());
    assert(bytes_of(seq![chunk]) =~= chunk@);
    if b.len() == 0 {
        assert(a + b =~= a);
        assert(bytes_of(a) + bytes_of(b) =~= bytes_of(a));
    } else {
        bytes_of_chunks_join(a, b.drop_last(), chunk);
        assert((a + b).drop_last() =~= a + b.drop_last());
        assert(bytes_of(a + b) =~= bytes_of(a) + bytes_of(b));
    }
}

} // verus!
