//! The progress of downloading and unpacking a java install, as a state
//! machine fed with what the download and the unpacker report.
//!
//! While running, the download delivers chunks and the unpacker reports how
//! many bytes it has read so far; once the download has ended only the
//! unpacker reports, until it is done. Every report yields the progress so
//! far; the unpacker being done ends the process. A failed response
//! stream, or an unpacker that failed, ends it early with that error.
//!
//! The unpacker reads the downloaded chunks through a [`ChunkReader`],
//! which hands them out in pieces of whatever size the unpacker asks for
//! and counts the bytes read.

use vstd::prelude::*;

verus! {

/// How far a download and its unpacking are, in bytes.
#[derive(Debug, Clone, Copy, PartialEq, Eq)]
pub struct Progress {
    pub total: u64,
    pub downloaded: u64,
    pub decoded: u64,
}

impl Progress {
    /// The progress at the start of a download of `total` bytes.
    pub fn starting(total: u64) -> (r: Progress)
        ensures
            r == (Progress { total, downloaded: 0, decoded: 0 }),
    {
        Progress { total, downloaded: 0, decoded: 0 }
    }
}

/// Whether the download still runs or only the unpacking does.
#[derive(Debug, Clone, Copy, PartialEq, Eq, Structural)]
pub enum Phase {
    Running,
    DlDone,
}

/// A download in progress.
#[derive(Debug, Clone, Copy, PartialEq, Eq)]
pub struct Download {
    pub progress: Progress,
    pub phase: Phase,
}

/// Why downloading and unpacking stopped early, with the description of
/// the underlying error.
#[derive(Debug, PartialEq, Eq)]
pub enum DownloadError {
    /// The response stream failed.
    InvalidResponse(String),
    /// The unpacker failed.
    Unpacking(String),
}

/// What the download or the unpacker reports.
#[derive(Debug, PartialEq, Eq)]
pub enum DownloadEvent {
    /// The download delivered a chunk of this many bytes, and the unpacker
    /// took it.
    Chunk(u64),
    /// The download delivered a chunk of this many bytes, but the unpacker
    /// had already stopped with this error.
    ChunkNotTaken(u64, String),
    /// The response stream failed with this error.
    StreamError(String),
    /// The unpacker has read this many bytes in all.
    Decoded(u64),
    /// The download delivered its last chunk.
    StreamEnded,
    /// The unpacker finished without error.
    DecoderDone,
    /// The unpacker finished with this error.
    DecoderFailed(String),
}

/// What a step gives back.
#[derive(Debug, PartialEq, Eq)]
pub enum Step {
    /// The progress so far.
    Report(Progress),
    /// Downloading and unpacking are done.
    Finished,
    /// Downloading and unpacking stopped with this error.
    Failed(DownloadError),
}

/// Whether the event can come in the phase: chunks and the end of the
/// download only while it runs, the unpacker being done only afterwards.
pub open spec fn accepts(phase: Phase, event: DownloadEvent) -> bool {
    match event {
        DownloadEvent::Chunk(_) => phase == Phase::Running,
        DownloadEvent::ChunkNotTaken(_, _) => phase == Phase::Running,
        DownloadEvent::StreamError(_) => phase == Phase::Running,
        DownloadEvent::StreamEnded => phase == Phase::Running,
        DownloadEvent::Decoded(_) => true,
        DownloadEvent::DecoderDone => phase == Phase::DlDone,
        DownloadEvent::DecoderFailed(_) => phase == Phase::DlDone,
    }
}

/// The download after the event, and what the step gives back.
pub open spec fn next_download(d: Download, event: DownloadEvent) -> (Download, Step) {
    match event {
        DownloadEvent::Chunk(n) => {
            let p = Progress { downloaded: (d.progress.downloaded + n) as u64, ..d.progress };
            (Download { progress: p, ..d }, Step::Report(p))
        },
        DownloadEvent::Decoded(n) => {
            let p = Progress { decoded: n, ..d.progress };
            (Download { progress: p, ..d }, Step::Report(p))
        },
        DownloadEvent::ChunkNotTaken(n, e) => {
            let p = Progress { downloaded: (d.progress.downloaded + n) as u64, ..d.progress };
            (Download { progress: p, ..d }, Step::Failed(DownloadError::Unpacking(e)))
        },
        DownloadEvent::StreamError(e) => (d, Step::Failed(DownloadError::InvalidResponse(e))),
        DownloadEvent::StreamEnded => (Download { phase: Phase::DlDone, ..d }, Step::Report(d.progress)),
        DownloadEvent::DecoderDone => (d, Step::Finished),
        DownloadEvent::DecoderFailed(e) => (d, Step::Failed(DownloadError::Unpacking(e))),
    }
}

impl Download {
    /// A download of `total` bytes that has just started.
    pub fn new(total: u64) -> (r: Download)
        ensures
            r == (Download { progress: Progress { total, downloaded: 0, decoded: 0 }, phase: Phase::Running }),
    {
        Download { progress: Progress::starting(total), phase: Phase::Running }
    }

    /// Takes in one report of the download or the unpacker.
    pub fn step(&mut self, event: DownloadEvent) -> (r: Step)
        requires
            accepts(old(self).phase, event),
            event matches DownloadEvent::Chunk(n) ==> old(self).progress.downloaded + n <= u64::MAX,
            event matches DownloadEvent::ChunkNotTaken(n, _) ==> old(self).progress.downloaded + n <= u64::MAX,
        ensures
            (*final(self), r) == next_download(*old(self), event),
    {
        match event {
            DownloadEvent::Chunk(n) => {
                self.progress.downloaded = self.progress.downloaded + n;
                Step::Report(self.progress)
            },
            DownloadEvent::Decoded(n) => {
                self.progress.decoded = n;
                Step::Report(self.progress)
            },
            DownloadEvent::ChunkNotTaken(n, e) => {
                self.progress.downloaded = self.progress.downloaded + n;
                Step::Failed(DownloadError::Unpacking(e))
            },
            DownloadEvent::StreamError(e) => Step::Failed(DownloadError::InvalidResponse(e)),
            DownloadEvent::StreamEnded => {
                self.phase = Phase::DlDone;
                Step::Report(self.progress)
            },
            DownloadEvent::DecoderDone => Step::Finished,
            DownloadEvent::DecoderFailed(e) => Step::Failed(DownloadError::Unpacking(e)),
        }
    }
}

/// The download after a run of events.
pub open spec fn run(d: Download, events: Seq<DownloadEvent>) -> Download
    decreases events.len(),
{
    if events.len() == 0 {
        d
    } else {
        next_download(run(d, events.drop_last()), events.last()).0
    }
}

/// The bytes of all chunks among the events, taken by the unpacker or not.
pub open spec fn chunk_bytes(events: Seq<DownloadEvent>) -> int
    decreases events.len(),
{
    if events.len() == 0 {
        0
    } else {
        chunk_bytes(events.drop_last()) + match events.last() {
            DownloadEvent::Chunk(n) => n as int,
            DownloadEvent::ChunkNotTaken(n, _) => n as int,
            _ => 0,
        }
    }
}

/// Every byte the download delivers is counted once: after any run of
/// events from the start, the downloaded count is the sum of the chunks,
/// and the total never changes.
pub proof fn law_every_chunk_is_counted(total: u64, events: Seq<DownloadEvent>)
    requires
        chunk_bytes(events) <= u64::MAX,
    ensures
        run(Download { progress: Progress { total, downloaded: 0, decoded: 0 }, phase: Phase::Running }, events).progress.downloaded
            == chunk_bytes(events),
        run(Download { progress: Progress { total, downloaded: 0, decoded: 0 }, phase: Phase::Running }, events).progress.total
            == total,
    decreases events.len(),
{
    if events.len() > 0 {
        let prev = events.drop_last();
        assert(chunk_bytes(prev) <= chunk_bytes(events)) by {
            if events.last() is Chunk {
                assert(chunk_bytes(events) == chunk_bytes(prev) + events.last()->Chunk_0);
            }
            if events.last() is ChunkNotTaken {
                assert(chunk_bytes(events) == chunk_bytes(prev) + events.last()->ChunkNotTaken_0);
            }
        }
        law_every_chunk_is_counted(total, prev);
    }
}

/// Once the download has ended it never runs again.
pub proof fn law_download_ends_once(d: Download, events: Seq<DownloadEvent>)
    requires
        d.phase == Phase::DlDone,
    ensures
        run(d, events).phase == Phase::DlDone,
    decreases events.len(),
{
    if events.len() > 0 {
        law_download_ends_once(d, events.drop_last());
    }
}

/// Downloaded bytes that arrive in chunks and are read out in pieces of
/// any size, counting every byte read.
pub struct ChunkReader {
    current: Vec<u8>,
    pos: usize,
    read: u64,
    received: Ghost<Seq<u8>>,
    delivered: Ghost<Seq<u8>>,
}

impl ChunkReader {
    /// The position lies within the current chunk, and what was received
    /// is what was read out followed by the rest of the current chunk.
    #[verifier::type_invariant]
    closed spec fn wf(&self) -> bool {
        &&& self.pos <= self.current@.len()
        &&& self.received@ == self.delivered@ + self.current@.skip(self.pos as int)
    }

    /// Every byte of every chunk fed so far, in order.
    pub closed spec fn received(&self) -> Seq<u8> {
        self.received@
    }

    /// Every byte read out so far, in order.
    pub closed spec fn delivered(&self) -> Seq<u8> {
        self.delivered@
    }

    /// The bytes of the current chunk not read yet.
    pub closed spec fn remaining(&self) -> Seq<u8> {
        self.current@.skip(self.pos as int)
    }

    /// The number of bytes read so far, wrapping around at 2^64.
    pub closed spec fn total(&self) -> u64 {
        self.read
    }

    /// A reader that has received nothing.
    pub fn new() -> (r: ChunkReader)
        ensures
            r.remaining() == Seq::<u8>::empty(),
            r.received() == Seq::<u8>::empty(),
            r.delivered() == Seq::<u8>::empty(),
            r.total() == 0,
    {
        proof {
            assert(Seq::<u8>::empty() =~= Seq::<u8>::empty() + Seq::<u8>::empty().skip(0));
        }
        let r = ChunkReader {
            current: Vec::new(),
            pos: 0,
            read: 0,
            received: Ghost(Seq::empty()),
            delivered: Ghost(Seq::empty()),
        };
        assert(r.remaining() =~= Seq::<u8>::empty());
        r
    }

    /// Whether the current chunk is used up, so that the next one must be
    /// received before reading on.
    pub fn exhausted(&self) -> (r: bool)
        ensures
            r == (self.remaining().len() == 0),
    {
        proof { use_type_invariant(self); }
        self.pos == self.current.len()
    }

    /// Starts on the next chunk, once the current one is used up. Nothing
    /// is lost: what was read out, followed by the new chunk, is everything
    /// received.
    pub fn feed(&mut self, chunk: Vec<u8>)
        requires
            old(self).remaining().len() == 0,
        ensures
            final(self).remaining() == chunk@,
            final(self).received() == old(self).received() + chunk@,
            final(self).delivered() == old(self).delivered(),
            final(self).received() == final(self).delivered() + final(self).remaining(),
            final(self).total() == old(self).total(),
    {
        proof { use_type_invariant(&*self); }
        let ghost c = chunk@;
        let ghost rec = self.received@;
        let ghost del = self.delivered@;
        assert(rec =~= del);
        assert(c.skip(0) =~= c);
        let read = self.read;
        *self = ChunkReader { current: chunk, pos: 0, read, received: Ghost(rec + c), delivered: Ghost(del) };
    }

    /// The number of bytes read so far.
    pub fn total_read(&self) -> (r: u64)
        ensures
            r == self.total(),
    {
        self.read
    }

    /// Copies as many unread bytes of the current chunk as fit into the
    /// front of `buf`, and returns how many it copied; the rest of `buf`
    /// is left alone. Nothing is copied from a used up chunk. Nothing is
    /// lost, doubled or reordered: what was read out, followed by what is
    /// left of the chunk, is everything received.
    pub fn read_into(&mut self, buf: &mut [u8]) -> (n: usize)
        ensures
            n == (if old(buf)@.len() < old(self).remaining().len() { old(buf)@.len() } else { old(self).remaining().len() }),
            final(buf)@.len() == old(buf)@.len(),
            final(buf)@.take(n as int) == old(self).remaining().take(n as int),
            final(buf)@.skip(n as int) == old(buf)@.skip(n as int),
            final(self).remaining() == old(self).remaining().skip(n as int),
            final(self).received() == old(self).received(),
            final(self).delivered() == old(self).delivered() + old(self).remaining().take(n as int),
            final(self).received() == final(self).delivered() + final(self).remaining(),
            final(self).total() == vstd::wrapping::u64_specs::wrapping_add(old(self).total(), n as u64),
    {
        proof { use_type_invariant(&*self); }
        let mut taken = ChunkReader::new();
        std::mem::swap(&mut taken, self);
        let ChunkReader { current, pos, read, received, delivered } = taken;
        let clen = current.len();
        let left = clen - pos;
        let n = if buf.len() < left { buf.len() } else { left };
        let ghost b0 = buf@;
        let ghost rem = current@.skip(pos as int);
        let mut i: usize = 0;
        while i < n
            invariant
                n <= buf@.len(),
                buf@.len() == b0.len(),
                clen == current@.len(),
                pos + n <= clen,
                rem == current@.skip(pos as int),
                i <= n,
                forall|k: int| 0 <= k < i ==> buf@[k] == rem[k],
                forall|k: int| i <= k < buf@.len() ==> buf@[k] == b0[k],
            decreases n - i,
        {
            buf[i] = current[pos + i];
            i = i + 1;
        }
        assert(buf@.take(n as int) =~= rem.take(n as int));
        assert(buf@.skip(n as int) =~= b0.skip(n as int));
        assert(current@.skip(pos + n) =~= rem.skip(n as int));
        assert(rem =~= rem.take(n as int) + rem.skip(n as int));
        let ghost del = delivered@ + rem.take(n as int);
        assert(received@ =~= del + current@.skip(pos + n));
        *self = ChunkReader {
            current,
            pos: pos + n,
            read: read.wrapping_add(n as u64),
            received,
            delivered: Ghost(del),
        };
        n
    }
}

} // verus!
