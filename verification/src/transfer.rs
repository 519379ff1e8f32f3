//! Sending and receiving files: chunks out, chunks in, and what is done with
//! each message.

use crate::config::{joined, join_path, ConflictPolicy};
use crate::conflict::{
    directory, fresh_name, inside, is_absolute, is_inside, resolve_conflict, texts, TransferError,
};
use crate::digest::{absorbed, blake3_hash, hasher_finalize, hasher_new, hasher_update};
use crate::ids::same_bytes;
use crate::manifest::{all_walks, items, law_walk_is_ordered, walk_order, Found};
use crate::message::{
    ClipPayload, Clipboard, FileEntry, FileResume, FileXfer, Manifest, StreamPurpose, StreamTag,
};
use crate::progress::ProgressTracker;
use crate::text::chars_of;
use vstd::prelude::*;

verus! {

/// Bytes in a chunk.
pub const CHUNK: usize = 65_536;

// --- One file coming in ------------------------------------------------------

/// A file that is being received: how far it is, and the hash of what arrived.
pub struct FileSink {
    hasher: blake3::Hasher,
    written: u64,
}

/// The state of a file that is being received.
pub struct SinkState {
    /// The bytes that are there: those it was resumed after, and those that arrived.
    pub received: Seq<u8>,
    /// Where the next chunk belongs.
    pub written: int,
}

impl View for FileSink {
    type V = SinkState;

    closed spec fn view(&self) -> SinkState {
        SinkState { received: absorbed(self.hasher), written: self.written as int }
    }
}

impl SinkState {
    /// A chunk arrives: it continues the file, or it is refused.
    pub open spec fn after_chunk(self, offset: int, data: Seq<u8>) -> Option<SinkState> {
        if offset == self.written {
            Some(SinkState { received: self.received + data, written: self.written + data.len() })
        } else {
            None
        }
    }

    /// The contents are those that were announced, as far as anything was.
    pub open spec fn checks_out(self, expected: Option<[u8; 32]>) -> bool {
        expected matches Some(e) ==> e@ == blake3_hash(self.received)
    }
}

/// A file of which `prefix` is there already.
pub open spec fn begun(prefix: Seq<u8>) -> SinkState {
    SinkState { received: prefix, written: prefix.len() as int }
}

impl FileSink {
    /// A file of which `prefix` is there already: it is resumed after these bytes,
    /// and they count for the hash. A file that starts anew has an empty one.
    pub fn create(prefix: &[u8]) -> (s: Self)
        ensures
            s@ == begun(prefix@),
    {
        let mut hasher = hasher_new();
        hasher_update(&mut hasher, prefix);
        assert(Seq::<u8>::empty() + prefix@ =~= prefix@);
        FileSink { hasher, written: prefix.len() as u64 }
    }

    /// A file of which nothing is there.
    fn fresh() -> (s: Self)
        ensures
            s@ == begun(Seq::empty()),
    {
        FileSink { hasher: hasher_new(), written: 0 }
    }

    /// Where the next chunk belongs.
    pub fn written(&self) -> (n: u64)
        ensures
            n == self@.written,
    {
        self.written
    }

    /// Takes the next chunk. One that does not continue the file is refused, so
    /// that a gap shows at once.
    pub fn write_chunk(&mut self, offset: u64, bytes: &[u8]) -> (r: Result<(), TransferError>)
        requires
            old(self)@.written + bytes@.len() <= u64::MAX,
        ensures
            match old(self)@.after_chunk(offset as int, bytes@) {
                Some(next) => r is Ok && final(self)@ == next,
                None => {
                    &&& r matches Err(TransferError::WrongOffset { expected, got })
                    && expected == old(self)@.written && got == offset
                    &&& final(self)@ == old(self)@
                },
            },
    {
        if offset != self.written {
            return Err(TransferError::WrongOffset { expected: self.written, got: offset });
        }
        hasher_update(&mut self.hasher, bytes);
        self.written = self.written + bytes.len() as u64;
        Ok(())
    }

    /// Ends the file: what arrived must have the hash that was announced.
    pub fn finish(&self, expected: &Option<[u8; 32]>, name: &str) -> (r: Result<(), TransferError>)
        ensures
            if self@.checks_out(*expected) {
                r is Ok
            } else {
                r matches Err(TransferError::HashMismatch(n)) && n@ == name@
            },
    {
        if let Some(e) = expected {
            let got = hasher_finalize(&self.hasher);
            if !same_bytes(&got, e) {
                proof {
                    if got@ =~= e@ {
                        assert(got =~= *e);
                    }
                }
                return Err(TransferError::HashMismatch(name.to_owned()));
            }
        }
        Ok(())
    }
}

// --- A whole transfer coming in ----------------------------------------------

/// The offer that a transfer opens with.
pub fn read_offer(msg: Option<FileXfer>) -> (r: Result<(StreamTag, Manifest), TransferError>)
    ensures
        match msg {
            Some(FileXfer::Offer { tag, manifest }) => r == Ok::<
                (StreamTag, Manifest),
                TransferError,
            >((tag, manifest)),
            _ => r == Err::<(StreamTag, Manifest), TransferError>(TransferError::NoOffer),
        },
{
    match msg {
        Some(FileXfer::Offer { tag, manifest }) => Ok((tag, manifest)),
        _ => Err(TransferError::NoOffer),
    }
}

/// What becomes of one entry of a manifest.
#[derive(Debug)]
pub enum Placement {
    /// A directory to make.
    Directory(String),
    /// A file to write.
    File(String),
    /// A file that is left out.
    Skipped,
}

/// `rel` below `dir`; an absolute `rel` stands for itself.
pub open spec fn below(dir: Seq<char>, rel: Seq<char>) -> Seq<char> {
    if is_absolute(rel) {
        rel
    } else {
        joined(dir, rel)
    }
}

/// `rel` below `dir`; an absolute `rel` stands for itself.
pub fn intended_path(dir: &str, rel: &str) -> (p: String)
    ensures
        p@ == below(dir@, rel@),
{
    let chars = chars_of(rel);
    if chars.len() > 0 && chars[0] == '/' {
        rel.to_owned()
    } else {
        join_path(dir, rel)
    }
}

/// This becomes of an entry.
pub open spec fn is_placed(
    download_dir: Seq<char>,
    entry: FileEntry,
    occupied: bool,
    taken: Seq<Seq<char>>,
    policy: ConflictPolicy,
    r: Result<Placement, TransferError>,
) -> bool {
    let dest = below(download_dir, entry.rel_path@);
    if !inside(download_dir, dest) {
        r matches Err(TransferError::UnsafePath(p)) && p@ == dest
    } else if entry.is_dir {
        r matches Ok(Placement::Directory(p)) && p@ == dest
    } else if !occupied || policy == ConflictPolicy::Overwrite {
        r matches Ok(Placement::File(p)) && p@ == dest
    } else if policy == ConflictPolicy::Skip {
        r == Ok::<Placement, TransferError>(Placement::Skipped)
    } else {
        r matches Ok(Placement::File(p)) && p@ == directory(dest) + fresh_name(dest, taken)
    }
}

/// Decides what becomes of an entry: a directory is made, and a file goes where
/// the conflict policy allows. Neither may lead out of the download directory.
/// `occupied` says whether something is at its place
/// already, and `taken` holds the names beside it.
pub fn place_entry(
    download_dir: &str,
    entry: &FileEntry,
    occupied: bool,
    taken: &Vec<String>,
    policy: ConflictPolicy,
) -> (r: Result<Placement, TransferError>)
    ensures
        is_placed(download_dir@, *entry, occupied, texts(taken@), policy, r),
{
    let dest = intended_path(download_dir, entry.rel_path.as_str());
    if entry.is_dir {
        if !is_inside(download_dir, dest.as_str()) {
            return Err(TransferError::UnsafePath(dest));
        }
        return Ok(Placement::Directory(dest));
    }
    match resolve_conflict(download_dir, dest.as_str(), occupied, taken, policy) {
        Ok(Some(p)) => Ok(Placement::File(p)),
        Ok(None) => Ok(Placement::Skipped),
        Err(e) => Err(e),
    }
}

/// A transfer that is coming in.
pub struct Incoming {
    tag: StreamTag,
    files: Vec<FileEntry>,
    dests: Vec<Option<String>>,
    sinks: Vec<Option<FileSink>>,
    tracker: ProgressTracker,
}

/// The state of a transfer that is coming in.
pub struct IncomingState {
    pub tag: StreamTag,
    pub files: Seq<FileEntry>,
    /// Where each file goes; none for directories and for what is left out.
    pub dests: Seq<Option<String>>,
    /// The files of which something arrived.
    pub sinks: Seq<Option<SinkState>>,
    pub tracker: ProgressTracker,
}

/// The states of the files.
pub open spec fn sink_states(v: Seq<Option<FileSink>>) -> Seq<Option<SinkState>> {
    v.map_values(
        |s: Option<FileSink>|
            match s {
                Some(f) => Some(f@),
                None => None,
            },
    )
}

impl View for Incoming {
    type V = IncomingState;

    closed spec fn view(&self) -> IncomingState {
        IncomingState {
            tag: self.tag,
            files: self.files@,
            dests: self.dests@,
            sinks: sink_states(self.sinks@),
            tracker: self.tracker,
        }
    }
}

/// What to do after a message.
#[derive(Debug)]
pub enum Step {
    /// Nothing.
    Ignore,
    /// Write the bytes at the end of file `index`, which is opened first where
    /// `create` says so.
    Write { index: usize, create: bool, data: Vec<u8> },
    /// Everything has arrived. The files that were announced without bytes are still
    /// to be created: those at the places `empty`.
    Done { empty: Vec<usize> },
    Failed(TransferError),
}

impl IncomingState {
    /// There is a destination, or none, and a state for each file; only files that
    /// have a destination are written.
    pub open spec fn wf(self) -> bool {
        &&& self.dests.len() == self.files.len()
        &&& self.sinks.len() == self.files.len()
        &&& forall|i: int|
            0 <= i < self.sinks.len() && (#[trigger] self.sinks[i]) is Some ==> self.dests[i] is Some
    }

    /// The file that a chunk with this index belongs to: one that is written.
    pub open spec fn target(self, file_index: u32) -> Option<int> {
        if (file_index as int) < self.dests.len() && self.dests[file_index as int] is Some {
            Some(file_index as int)
        } else {
            None
        }
    }

    /// File `i` as far as it has come; a file of which nothing arrived is empty.
    pub open spec fn sink(self, i: int) -> SinkState {
        match self.sinks[i] {
            Some(s) => s,
            None => begun(Seq::empty()),
        }
    }

    /// The size of the file stays expressible.
    pub open spec fn accepts(self, msg: Option<FileXfer>) -> bool {
        msg matches Some(FileXfer::Chunk { file_index, data, .. }) ==> match self.target(
            file_index,
        ) {
            Some(i) => self.sink(i).written + data@.len() <= u64::MAX,
            None => true,
        }
    }

    /// A chunk for file `i` that was taken.
    pub open spec fn with_chunk(self, i: int, s: SinkState, n: int) -> IncomingState {
        IncomingState {
            sinks: self.sinks.update(i, Some(s)),
            tracker: ProgressTracker {
                done_bytes: crate::progress::least(
                    self.tracker.done_bytes + n,
                    self.tracker.total_bytes as int,
                ) as u64,
                ..self.tracker
            },
            ..self
        }
    }

    /// File `i` is received: it has a destination, and a chunk had it opened or it was
    /// announced without bytes. Of an announced file that never came nothing is made.
    pub open spec fn received(self, i: int) -> bool {
        self.dests[i] is Some && (self.sinks[i] is Some || self.files[i].size == 0)
    }

    /// The first file, from position `i` on, that is received and whose contents are not
    /// those that were announced.
    pub open spec fn first_corrupt(self, i: int) -> Option<int>
        decreases self.sinks.len() - i,
    {
        if i < 0 || i >= self.sinks.len() {
            None
        } else if self.received(i) && !self.sink(i).checks_out(self.files[i].hash) {
            Some(i)
        } else {
            self.first_corrupt(i + 1)
        }
    }

    /// Where those of the first `n` files go that are received.
    pub open spec fn written_paths(self, n: int) -> Seq<Seq<char>>
        decreases n,
    {
        if n <= 0 {
            Seq::empty()
        } else {
            let before = self.written_paths(n - 1);
            match self.dests[n - 1] {
                Some(d) if self.received(n - 1) => before.push(d@),
                _ => before,
            }
        }
    }

    /// Those of the first `n` files that are received and that no chunk had opened.
    pub open spec fn unopened(self, n: int) -> Seq<usize>
        decreases n,
    {
        if n <= 0 {
            Seq::empty()
        } else if self.received(n - 1) && self.sinks[n - 1] is None {
            self.unopened(n - 1).push((n - 1) as usize)
        } else {
            self.unopened(n - 1)
        }
    }

    /// This becomes of a message, and is done about it.
    pub open spec fn heard(self, after: IncomingState, msg: Option<FileXfer>, step: Step) -> bool {
        match msg {
            Some(FileXfer::Chunk { file_index, offset, data, .. }) => match self.target(
                file_index,
            ) {
                None => step is Ignore && after == self,
                Some(i) => match self.sink(i).after_chunk(offset as int, data@) {
                    Some(s) => {
                        &&& step matches Step::Write { index, create, data: out } && index == i
                        && create == (self.sinks[i] is None) && out@ == data@
                        &&& after == self.with_chunk(i, s, data@.len() as int)
                    },
                    None => {
                        &&& step matches Step::Failed(TransferError::WrongOffset { expected, got })
                        && expected == self.sink(i).written && got == offset
                        &&& after == (IncomingState {
                            sinks: self.sinks.update(i, Some(self.sink(i))),
                            ..self
                        })
                    },
                },
            },
            Some(FileXfer::Complete { .. }) => {
                &&& step matches Step::Done { empty } && empty@ == self.unopened(
                    self.files.len() as int,
                )
                &&& after == self
            },
            Some(FileXfer::Cancel { reason, .. }) => {
                &&& step matches Step::Failed(TransferError::Cancelled(why)) && why@ == reason@
                &&& after == self
            },
            Some(_) => step is Ignore && after == self,
            None => {
                &&& step == Step::Failed(TransferError::Closed)
                &&& after == self
            },
        }
    }

    /// This comes of the end of the transfer.
    pub open spec fn ended(self, after: IncomingState, r: Result<Vec<String>, TransferError>) -> bool {
        match self.first_corrupt(0) {
            Some(i) => {
                &&& r matches Err(TransferError::HashMismatch(n)) && n@ == self.files[i].rel_path@
                &&& after == (IncomingState {
                    tracker: self.progress_after(i),
                    ..self
                })
            },
            None => {
                &&& r matches Ok(paths) && texts(paths@) == self.written_paths(
                    self.files.len() as int,
                )
                &&& after == (IncomingState {
                    tracker: self.progress_after(self.files.len() as int),
                    ..self
                })
            },
        }
    }

    /// The progress once those of the first `n` files that are received are complete.
    pub open spec fn progress_after(self, n: int) -> ProgressTracker
        decreases n,
    {
        if n <= 0 {
            self.tracker
        } else {
            let before = self.progress_after(n - 1);
            if self.received(n - 1) {
                ProgressTracker {
                    files_done: crate::progress::least(
                        before.files_done + 1,
                        before.file_count as int,
                    ) as u32,
                    ..before
                }
            } else {
                before
            }
        }
    }
}

impl Incoming {
    /// A transfer of which nothing arrived yet. `dests` says where each file of
    /// the manifest goes.
    pub fn new(tag: StreamTag, manifest: Manifest, dests: Vec<Option<String>>) -> (t: Self)
        requires
            dests@.len() == manifest.files@.len(),
        ensures
            t@.wf(),
            t@.tag == tag,
            t@.files == manifest.files@,
            t@.dests == dests@,
            forall|i: int| 0 <= i < t@.sinks.len() ==> (#[trigger] t@.sinks[i]) is None,
            t@.tracker == (ProgressTracker {
                tag: 0,
                total_bytes: manifest.total_bytes,
                done_bytes: 0,
                file_count: manifest.files@.len() as u32,
                files_done: 0,
                bytes_per_sec: 0,
            }),
    {
        let n = manifest.files.len();
        let mut sinks: Vec<Option<FileSink>> = Vec::new();
        while sinks.len() < n
            invariant
                sinks@.len() <= n,
                forall|i: int| 0 <= i < sinks@.len() ==> (#[trigger] sinks@[i]) is None,
            decreases n - sinks.len(),
        {
            sinks.push(None);
        }
        let tracker = ProgressTracker::new(
            0,
            manifest.total_bytes,
            #[verifier::truncate] (n as u32),
        );
        Incoming { tag, files: manifest.files, dests, sinks, tracker }
    }

    /// How far the transfer is.
    pub fn progress(&self) -> (p: ProgressTracker)
        ensures
            p == self@.tracker,
    {
        self.tracker
    }

    /// Where file `i` goes.
    pub fn destination(&self, i: usize) -> (r: Option<&String>)
        requires
            i < self@.dests.len(),
        ensures
            r == match self@.dests[i as int] {
                Some(d) => Some(&d),
                None => None,
            },
    {
        match &self.dests[i] {
            Some(d) => Some(d),
            None => None,
        }
    }

    /// Takes one message of the peer.
    pub fn on_message(&mut self, msg: Option<FileXfer>) -> (step: Step)
        requires
            old(self)@.wf(),
            old(self)@.accepts(msg),
        ensures
            final(self)@.wf(),
            old(self)@.heard(final(self)@, msg, step),
    {
        match msg {
            Some(FileXfer::Chunk { file_index, offset, data, .. }) => {
                let i: usize = file_index as usize;
                if i >= self.dests.len() || self.dests[i].is_none() {
                    return Step::Ignore;
                }
                let ghost before = self@;
                let create = self.sinks[i].is_none();
                if create {
                    self.sinks.set(i, Some(FileSink::fresh()));
                }
                let mut sink = match self.sinks.remove(i) {
                    Some(s) => s,
                    None => {
                        return Step::Ignore;
                    },
                };
                let outcome = sink.write_chunk(offset, data.as_slice());
                let ghost now = sink@;
                self.sinks.insert(i, Some(sink));
                match outcome {
                    Ok(()) => {
                        self.tracker.advance(data.len() as u64);
                        assert(sink_states(self.sinks@) =~= before.sinks.update(
                            i as int,
                            Some(now),
                        ));
                        Step::Write { index: i, create, data }
                    },
                    Err(e) => {
                        assert(sink_states(self.sinks@) =~= before.sinks.update(
                            i as int,
                            Some(now),
                        ));
                        Step::Failed(e)
                    },
                }
            },
            Some(FileXfer::Complete { .. }) => Step::Done { empty: self.still_to_create() },
            Some(FileXfer::Cancel { reason, .. }) => Step::Failed(TransferError::Cancelled(reason)),
            Some(_) => Step::Ignore,
            None => Step::Failed(TransferError::Closed),
        }
    }

    /// The files that are received and that no chunk had opened.
    fn still_to_create(&self) -> (out: Vec<usize>)
        requires
            self@.wf(),
        ensures
            out@ == self@.unopened(self@.files.len() as int),
    {
        let mut out: Vec<usize> = Vec::new();
        let mut i: usize = 0;
        while i < self.sinks.len()
            invariant
                0 <= i <= self.sinks.len(),
                self@.wf(),
                out@ == self@.unopened(i as int),
            decreases self.sinks.len() - i,
        {
            assert(self@.sinks[i as int] is None == self.sinks@[i as int] is None);
            if self.dests[i].is_some() && self.sinks[i].is_none() && self.files[i].size == 0 {
                out.push(i);
            }
            i = i + 1;
        }
        out
    }

    /// Ends the transfer: checks every file that is received, and says where they went.
    pub fn finish(&mut self) -> (r: Result<Vec<String>, TransferError>)
        requires
            old(self)@.wf(),
        ensures
            old(self)@.ended(final(self)@, r),
    {
        let ghost st = self@;
        let mut written: Vec<String> = Vec::new();
        let mut i: usize = 0;
        assert(texts(written@) =~= st.written_paths(0));
        while i < self.sinks.len()
            invariant
                0 <= i <= self.sinks.len(),
                st == old(self)@,
                st.wf(),
                self@ == (IncomingState { tracker: st.progress_after(i as int), ..st }),
                st.first_corrupt(0) == st.first_corrupt(i as int),
                texts(written@) == st.written_paths(i as int),
            decreases self.sinks.len() - i,
        {
            let ghost before = texts(written@);
            assert(st.sinks[i as int] == match self.sinks@[i as int] {
                Some(f) => Some(f@),
                None => None,
            });
            let entry = &self.files[i];
            if let Some(dest) = &self.dests[i] {
                if self.sinks[i].is_some() || entry.size == 0 {
                    let outcome = match &self.sinks[i] {
                        Some(sink) => sink.finish(&entry.hash, entry.rel_path.as_str()),
                        None => FileSink::fresh().finish(&entry.hash, entry.rel_path.as_str()),
                    };
                    match outcome {
                        Ok(()) => {},
                        Err(e) => {
                            return Err(e);
                        },
                    }
                    let path = dest.clone();
                    written.push(path);
                    assert(texts(written@) =~= before.push(path@));
                    self.tracker.complete_file();
                }
            }
            i = i + 1;
        }
        Ok(written)
    }
}

// --- Sending -----------------------------------------------------------------

/// Where the chunk ends that starts at `offset`.
pub open spec fn chunk_end(len: int, offset: int) -> int {
    if offset + CHUNK <= len {
        offset + CHUNK
    } else {
        len
    }
}

/// The chunks of `bytes` from `offset` on, each with its place.
pub open spec fn chunks_from(bytes: Seq<u8>, offset: int) -> Seq<(int, Seq<u8>)>
    decreases bytes.len() - offset,
{
    if offset < 0 || offset >= bytes.len() {
        Seq::empty()
    } else {
        let end = chunk_end(bytes.len() as int, offset);
        seq![(offset, bytes.subrange(offset, end))] + chunks_from(bytes, end)
    }
}

/// The places and the bytes of a list of chunk messages of one file.
pub open spec fn chunk_views(msgs: Seq<FileXfer>) -> Seq<(int, Seq<u8>)> {
    msgs.map_values(
        |m: FileXfer|
            match m {
                FileXfer::Chunk { offset, data, .. } => (offset as int, data@),
                _ => (0int, Seq::<u8>::empty()),
            },
    )
}

/// Every message is a chunk of this file of this transfer.
pub open spec fn all_chunks_of(msgs: Seq<FileXfer>, t: StreamTag, index: u32) -> bool {
    forall|i: int|
        0 <= i < msgs.len() ==> (#[trigger] msgs[i] matches FileXfer::Chunk {
            tag,
            file_index,
            ..
        } && tag == t && file_index == index)
}

/// The messages that carry a file, from byte `start` on.
pub fn file_chunks(tag: StreamTag, file_index: u32, bytes: &[u8], start: u64) -> (msgs: Vec<FileXfer>)
    ensures
        all_chunks_of(msgs@, tag, file_index),
        chunk_views(msgs@) == chunks_from(bytes@, start as int),
{
    let mut msgs: Vec<FileXfer> = Vec::new();
    if start >= bytes.len() as u64 {
        assert(chunk_views(msgs@) =~= chunks_from(bytes@, start as int));
        return msgs;
    }
    let mut offset: usize = start as usize;
    assert(chunk_views(msgs@) + chunks_from(bytes@, offset as int) =~= chunks_from(
        bytes@,
        start as int,
    ));
    while offset < bytes.len()
        invariant
            0 <= offset <= bytes.len(),
            all_chunks_of(msgs@, tag, file_index),
            chunk_views(msgs@) + chunks_from(bytes@, offset as int) == chunks_from(
                bytes@,
                start as int,
            ),
        decreases bytes.len() - offset,
    {
        let end: usize = if bytes.len() - offset >= CHUNK {
            offset + CHUNK
        } else {
            bytes.len()
        };
        let ghost before = chunk_views(msgs@);
        let part = vstd::slice::slice_subrange(bytes, offset, end);
        let data = vstd::slice::slice_to_vec(part);
        let ghost this = (offset as int, data@);
        msgs.push(FileXfer::Chunk { tag, file_index, offset: offset as u64, data });
        proof {
            assert(chunk_views(msgs@) =~= before.push(this));
            assert(chunks_from(bytes@, offset as int) == seq![this] + chunks_from(
                bytes@,
                end as int,
            ));
            assert(chunk_views(msgs@) + chunks_from(bytes@, end as int) =~= before + (seq![this]
                + chunks_from(bytes@, end as int)));
        }
        offset = end;
    }
    assert(chunk_views(msgs@) =~= chunks_from(bytes@, start as int));
    msgs
}

/// The first wish of the receiver about this file, from position `i` on.
pub open spec fn resume_from(resume: Seq<FileResume>, index: int, i: int) -> int
    decreases resume.len() - i,
{
    if i < 0 || i >= resume.len() {
        0
    } else if resume[i].file_index == index {
        resume[i].offset as int
    } else {
        resume_from(resume, index, i + 1)
    }
}

/// Where the receiver wants file `index` to start: 0 where it says nothing.
pub fn resume_offset(resume: &Vec<FileResume>, index: usize) -> (r: u64)
    ensures
        r == resume_from(resume@, index as int, 0),
{
    let mut i: usize = 0;
    while i < resume.len()
        invariant
            0 <= i <= resume.len(),
            resume_from(resume@, index as int, 0) == resume_from(resume@, index as int, i as int),
        decreases resume.len() - i,
    {
        if resume[i].file_index as usize == index {
            return resume[i].offset;
        }
        i = i + 1;
    }
    0
}

/// A file to send: its number in the manifest, where it is read from, and where
/// in it to start.
#[derive(Debug)]
pub struct Outgoing {
    pub index: u32,
    pub path: String,
    pub start: u64,
}

/// An outgoing file, with its path as text.
pub open spec fn outgoing_view(o: Outgoing) -> (u32, Seq<char>, u64) {
    (o.index, o.path@, o.start)
}

/// A root that is sent: its path, the directory that holds it, if any, and how many
/// entries of the manifest it brought.
#[derive(Debug)]
pub struct SentRoot {
    pub path: String,
    pub parent: Option<String>,
    pub entries: usize,
}

/// The directory that the entries of a root are relative to: the one that holds the
/// root, or the root itself where none does.
pub open spec fn root_base(r: SentRoot) -> Seq<char> {
    match r.parent {
        Some(p) => p@,
        None => r.path@,
    }
}

/// How many entries the first `k` roots brought.
pub open spec fn entries_before(roots: Seq<SentRoot>, k: int) -> int
    decreases k,
{
    if k <= 0 {
        0
    } else {
        entries_before(roots, k - 1) + roots[k - 1].entries
    }
}

/// The directory that entry `i` is relative to, counted from the first entry of root
/// `k`; the current one for an entry that no root brought.
pub open spec fn base_at(roots: Seq<SentRoot>, k: int, i: int) -> Seq<char>
    decreases roots.len() - k,
{
    if k < 0 || k >= roots.len() {
        "."@
    } else if i < roots[k].entries {
        root_base(roots[k])
    } else {
        base_at(roots, k + 1, i - roots[k].entries)
    }
}

/// The files among the first `n` entries of a manifest, each below the directory of
/// its own root. Directories have nothing to send.
pub open spec fn outgoing_of(
    files: Seq<FileEntry>,
    roots: Seq<SentRoot>,
    resume: Seq<FileResume>,
    n: int,
) -> Seq<(u32, Seq<char>, u64)>
    decreases n,
{
    if n <= 0 {
        Seq::empty()
    } else {
        let before = outgoing_of(files, roots, resume, n - 1);
        if files[n - 1].is_dir {
            before
        } else {
            before.push(
                (
                    (n - 1) as u32,
                    below(base_at(roots, 0, n - 1), files[n - 1].rel_path@),
                    resume_from(resume, n - 1, 0) as u64,
                ),
            )
        }
    }
}

fn base_for(roots: &Vec<SentRoot>, index: usize) -> (s: String)
    ensures
        s@ == base_at(roots@, 0, index as int),
{
    let mut k: usize = 0;
    let mut i: usize = index;
    while k < roots.len()
        invariant
            0 <= k <= roots.len(),
            base_at(roots@, 0, index as int) == base_at(roots@, k as int, i as int),
        decreases roots.len() - k,
    {
        let r = &roots[k];
        if i < r.entries {
            return match &r.parent {
                Some(p) => p.clone(),
                None => r.path.clone(),
            };
        }
        i = i - r.entries;
        k = k + 1;
    }
    ".".to_owned()
}

/// The files to send, in the order of the manifest. `roots` says which root brought
/// which entries.
pub fn outgoing(roots: &Vec<SentRoot>, manifest: &Manifest, resume: &Vec<FileResume>) -> (out: Vec<
    Outgoing,
>)
    ensures
        out@.map_values(|o: Outgoing| outgoing_view(o)) == outgoing_of(
            manifest.files@,
            roots@,
            resume@,
            manifest.files@.len() as int,
        ),
{
    let mut out: Vec<Outgoing> = Vec::new();
    let mut i: usize = 0;
    assert(out@.map_values(|o: Outgoing| outgoing_view(o)) =~= outgoing_of(
        manifest.files@,
        roots@,
        resume@,
        0,
    ));
    while i < manifest.files.len()
        invariant
            0 <= i <= manifest.files.len(),
            out@.map_values(|o: Outgoing| outgoing_view(o)) == outgoing_of(
                manifest.files@,
                roots@,
                resume@,
                i as int,
            ),
        decreases manifest.files.len() - i,
    {
        let entry = &manifest.files[i];
        if !entry.is_dir {
            let ghost before = out@;
            let base = base_for(roots, i);
            out.push(
                Outgoing {
                    index: i as u32,
                    path: intended_path(base.as_str(), entry.rel_path.as_str()),
                    start: resume_offset(resume, i),
                },
            );
            assert(out@.map_values(|o: Outgoing| outgoing_view(o)) =~= before.map_values(
                |o: Outgoing| outgoing_view(o),
            ).push(outgoing_view(out@.last())));
        }
        i = i + 1;
    }
    out
}

/// Where files go that are received by command: where the command says, else
/// where the settings say, else below the directory for temporary files.
pub fn download_dir(dir: Option<String>, configured: Option<String>, temp: &str) -> (r: String)
    ensures
        r@ == match (dir, configured) {
            (Some(d), _) => d@,
            (None, Some(c)) => c@,
            (None, None) => joined(temp@, "deskoryn-received"@),
        },
{
    match (dir, configured) {
        (Some(d), _) => d,
        (None, Some(c)) => c,
        (None, None) => join_path(temp, "deskoryn-received"),
    }
}

/// Why a transfer that was offered does not start.
#[derive(Debug)]
pub enum OfferError {
    Rejected(String),
    /// Neither a yes nor a no came back.
    UnexpectedReply,
}

/// Reads the answer to an offer: from where on each file is wanted.
pub fn read_reply(msg: Option<FileXfer>) -> (r: Result<Vec<FileResume>, OfferError>)
    ensures
        match msg {
            Some(FileXfer::Accept { resume, .. }) => r == Ok::<Vec<FileResume>, OfferError>(resume),
            Some(FileXfer::Reject { reason, .. }) => r == Err::<Vec<FileResume>, OfferError>(
                OfferError::Rejected(reason),
            ),
            _ => r == Err::<Vec<FileResume>, OfferError>(OfferError::UnexpectedReply),
        },
{
    match msg {
        Some(FileXfer::Accept { resume, .. }) => Ok(resume),
        Some(FileXfer::Reject { reason, .. }) => Err(OfferError::Rejected(reason)),
        _ => Err(OfferError::UnexpectedReply),
    }
}

// --- Streams of their own ----------------------------------------------------

/// What is done with a stream that the peer opened.
#[derive(Clone, Copy, Debug, PartialEq, Eq, Structural)]
pub enum StreamRoute {
    Ignore,
    /// Receive files.
    Receive,
    /// Receive files, and put them on the clipboard.
    ReceiveAndPaste,
    /// Put the payload that follows on the clipboard.
    WriteClipboard,
}

/// What is done with a stream.
pub open spec fn route_of(
    purpose: Option<StreamPurpose>,
    downloads: bool,
    clipboard: bool,
) -> StreamRoute {
    match purpose {
        Some(StreamPurpose::FileTransfer) => if downloads {
            StreamRoute::Receive
        } else {
            StreamRoute::Ignore
        },
        Some(StreamPurpose::ClipboardFiles) => if downloads && clipboard {
            StreamRoute::ReceiveAndPaste
        } else {
            StreamRoute::Ignore
        },
        Some(StreamPurpose::ClipboardData { .. }) => if clipboard {
            StreamRoute::WriteClipboard
        } else {
            StreamRoute::Ignore
        },
        None => StreamRoute::Ignore,
    }
}

/// Decides what is done with a stream: files need a place to go, and the
/// clipboard has to be there.
pub fn route_stream(purpose: Option<StreamPurpose>, downloads: bool, clipboard: bool) -> (r: StreamRoute)
    ensures
        r == route_of(purpose, downloads, clipboard),
{
    match purpose {
        Some(StreamPurpose::FileTransfer) => if downloads {
            StreamRoute::Receive
        } else {
            StreamRoute::Ignore
        },
        Some(StreamPurpose::ClipboardFiles) => if downloads && clipboard {
            StreamRoute::ReceiveAndPaste
        } else {
            StreamRoute::Ignore
        },
        Some(StreamPurpose::ClipboardData { .. }) => if clipboard {
            StreamRoute::WriteClipboard
        } else {
            StreamRoute::Ignore
        },
        None => StreamRoute::Ignore,
    }
}

/// The payload to put on the clipboard, from the one message on a stream for it.
pub fn stream_payload(msg: Option<Clipboard>) -> (r: Option<ClipPayload>)
    ensures
        r == match msg {
            Some(Clipboard::Data { payload, .. }) => Some(payload),
            _ => None,
        },
{
    match msg {
        Some(Clipboard::Data { payload, .. }) => Some(payload),
        _ => None,
    }
}

/// How many streams are handled at the same time: at least one.
pub fn stream_limit(max_concurrent: usize) -> (n: usize)
    ensures
        n == if max_concurrent == 0 {
            1
        } else {
            max_concurrent
        },
{
    if max_concurrent == 0 {
        1
    } else {
        max_concurrent
    }
}

// --- Laws --------------------------------------------------------------------

/// A file that takes in a row of chunks; none where one of them is refused.
pub open spec fn fed(s: SinkState, chunks: Seq<(int, Seq<u8>)>) -> Option<SinkState>
    decreases chunks.len(),
{
    if chunks.len() == 0 {
        Some(s)
    } else {
        match s.after_chunk(chunks[0].0, chunks[0].1) {
            Some(next) => fed(next, chunks.subrange(1, chunks.len() as int)),
            None => None,
        }
    }
}

/// What is sent is what is received: a file that is resumed after its first `start`
/// bytes and takes in the chunks from there on has refused none of them, and is
/// whole.
pub proof fn law_chunks_carry_the_file(bytes: Seq<u8>, start: int)
    requires
        0 <= start <= bytes.len(),
    ensures
        fed(begun(bytes.subrange(0, start)), chunks_from(bytes, start)) == Some(begun(bytes)),
    decreases bytes.len() - start,
{
    if start < bytes.len() {
        let end = chunk_end(bytes.len() as int, start);
        let cs = chunks_from(bytes, start);
        assert(cs.subrange(1, cs.len() as int) =~= chunks_from(bytes, end));
        assert(bytes.subrange(0, start) + bytes.subrange(start, end) =~= bytes.subrange(0, end));
        law_chunks_carry_the_file(bytes, end);
    } else {
        assert(bytes.subrange(0, start) =~= bytes);
    }
}

/// A file that arrived whole, in one go or resumed after its first `start` bytes,
/// passes the check exactly where the hash that was announced, if any, is the hash of
/// the file.
pub proof fn law_whole_files_check_out(bytes: Seq<u8>, start: int, expected: Option<[u8; 32]>)
    requires
        0 <= start <= bytes.len(),
    ensures
        fed(begun(bytes.subrange(0, start)), chunks_from(bytes, start)) matches Some(s) && s.received
            == bytes && s.checks_out(expected) == (expected matches Some(e) ==> e@ == blake3_hash(
            bytes,
        )),
{
    law_chunks_carry_the_file(bytes, start);
}

/// Every file that is received is made, and is among those that are told of: a chunk
/// had it opened, or it is named to be created when everything has arrived. A file that
/// was announced with bytes and never came is not named.
pub proof fn law_every_file_is_made(s: IncomingState, i: usize)
    requires
        s.wf(),
        i < s.files.len() <= usize::MAX,
    ensures
        s.unopened(s.files.len() as int).contains(i) <==> s.received(i as int)
            && s.sinks[i as int] is None,
        s.received(i as int) ==> s.written_paths(s.files.len() as int).contains(
            s.dests[i as int]->0@,
        ),
        s.sinks[i as int] is None && s.files[i as int].size > 0 ==> !s.unopened(
            s.files.len() as int,
        ).contains(i),
{
    lemma_unopened(s, s.files.len() as int, i);
    if s.received(i as int) {
        lemma_written(s, s.files.len() as int, i as int);
    }
}

proof fn lemma_unopened(s: IncomingState, n: int, i: usize)
    requires
        0 <= n <= s.files.len() <= usize::MAX,
    ensures
        s.unopened(n).contains(i) <==> i < n && s.received(i as int) && s.sinks[i as int] is None,
    decreases n,
{
    if n > 0 {
        lemma_unopened(s, n - 1, i);
        let before = s.unopened(n - 1);
        let now = s.unopened(n);
        if now != before {
            assert(now[now.len() - 1] == (n - 1) as usize);
            if before.contains(i) {
                let k = choose|k: int| 0 <= k < before.len() && before[k] == i;
                assert(now[k] == i);
            }
            if now.contains(i) {
                let k = choose|k: int| 0 <= k < now.len() && now[k] == i;
                if k < before.len() {
                    assert(before[k] == i);
                }
            }
        }
    }
}

proof fn lemma_written(s: IncomingState, n: int, i: int)
    requires
        0 <= i < n <= s.dests.len(),
        s.received(i),
    ensures
        s.written_paths(n).contains(s.dests[i]->0@),
    decreases n,
{
    let before = s.written_paths(n - 1);
    let now = s.written_paths(n);
    if i == n - 1 {
        assert(now[now.len() - 1] == s.dests[i]->0@);
    } else {
        lemma_written(s, n - 1, i);
        let k = choose|k: int| 0 <= k < before.len() && before[k] == s.dests[i]->0@;
        assert(now[k] == s.dests[i]->0@);
    }
}

/// Every root is read where it lies: the entries that a root brought stand together
/// in the manifest, as the walk below it found them, and are read below the directory
/// of that root, whatever the other roots are.
pub proof fn law_roots_are_read_where_they_lie(
    roots: Seq<SentRoot>,
    walks: Seq<Vec<Found>>,
    k: int,
    j: int,
)
    requires
        roots.len() == walks.len(),
        forall|r: int| 0 <= r < roots.len() ==> (#[trigger] roots[r]).entries == walks[r]@.len(),
        0 <= k < roots.len(),
        0 <= j < roots[k].entries,
    ensures
        ({
            let all = all_walks(walks, walks.len() as int);
            let at = entries_before(roots, k) + j;
            &&& 0 <= at < all.len()
            &&& all[at] == walk_order(items(walks[k]@))[j]
            &&& base_at(roots, 0, at) == root_base(roots[k])
        }),
{
    lemma_walk_spans(roots, walks, walks.len() as int, k, j);
    lemma_base_at(roots, 0, k, j);
    assert(entries_before(roots, 0) == 0);
}

proof fn lemma_walk_spans(roots: Seq<SentRoot>, walks: Seq<Vec<Found>>, n: int, k: int, j: int)
    requires
        roots.len() == walks.len(),
        forall|r: int| 0 <= r < roots.len() ==> (#[trigger] roots[r]).entries == walks[r]@.len(),
        0 <= k < n <= roots.len(),
        0 <= j < roots[k].entries,
    ensures
        all_walks(walks, n).len() == entries_before(roots, n),
        0 <= entries_before(roots, k) + j < all_walks(walks, n).len(),
        all_walks(walks, n)[entries_before(roots, k) + j] == walk_order(items(walks[k]@))[j],
    decreases n,
{
    let row = items(walks[n - 1]@);
    law_walk_is_ordered(row);
    assert(roots[n - 1].entries == row.len());
    lemma_walks_len(roots, walks, n - 1);
    if k < n - 1 {
        lemma_walk_spans(roots, walks, n - 1, k, j);
    }
}

proof fn lemma_walks_len(roots: Seq<SentRoot>, walks: Seq<Vec<Found>>, n: int)
    requires
        roots.len() == walks.len(),
        forall|r: int| 0 <= r < roots.len() ==> (#[trigger] roots[r]).entries == walks[r]@.len(),
        0 <= n <= roots.len(),
    ensures
        all_walks(walks, n).len() == entries_before(roots, n),
    decreases n,
{
    if n > 0 {
        lemma_walks_len(roots, walks, n - 1);
        law_walk_is_ordered(items(walks[n - 1]@));
        assert(roots[n - 1].entries == items(walks[n - 1]@).len());
    }
}

proof fn lemma_base_at(roots: Seq<SentRoot>, from: int, k: int, j: int)
    requires
        0 <= from <= k < roots.len(),
        0 <= j < roots[k].entries,
    ensures
        entries_before(roots, from) <= entries_before(roots, k),
        base_at(roots, from, entries_before(roots, k) - entries_before(roots, from) + j)
            == root_base(roots[k]),
    decreases k - from,
{
    if from < k {
        lemma_base_at(roots, from + 1, k, j);
        assert(entries_before(roots, from + 1) == entries_before(roots, from)
            + roots[from].entries);
    }
}

/// Chunks come in order without a gap: a chunk that is taken begins where the
/// bytes that arrived end.
pub proof fn law_chunks_leave_no_gap(s: SinkState, offset: int, data: Seq<u8>)
    requires
        s.written == s.received.len(),
    ensures
        s.after_chunk(offset, data) matches Some(n) ==> {
            &&& offset == s.received.len()
            &&& n.written == n.received.len()
            &&& n.received.subrange(0, offset) == s.received
            &&& n.received.subrange(offset, n.received.len() as int) == data
        },
{
    if let Some(n) = s.after_chunk(offset, data) {
        assert(n.received.subrange(0, offset) =~= s.received);
        assert(n.received.subrange(offset, n.received.len() as int) =~= data);
    }
}

/// An entry of a manifest becomes what it is, where it belongs: a directory is made below
/// the download directory, whatever is there; a file is written to its own place where
/// that is free or may be replaced, is left out where the policy skips, and else goes
/// beside what is there. An entry that would lead out of the download directory becomes
/// nothing.
pub proof fn law_entries_go_where_they_belong(
    dir: Seq<char>,
    entry: FileEntry,
    occupied: bool,
    taken: Seq<Seq<char>>,
    policy: ConflictPolicy,
    r: Result<Placement, TransferError>,
)
    requires
        is_placed(dir, entry, occupied, taken, policy, r),
    ensures
        ({
            let dest = below(dir, entry.rel_path@);
            &&& r is Err <==> !inside(dir, dest)
            &&& r is Ok ==> (r->Ok_0 is Directory <==> entry.is_dir)
            &&& r matches Ok(Placement::Directory(p)) ==> p@ == dest
            &&& r matches Ok(Placement::File(p)) ==> {
                &&& !occupied || policy == ConflictPolicy::Overwrite ==> p@ == dest
                &&& occupied ==> policy != ConflictPolicy::Skip
                &&& occupied && policy != ConflictPolicy::Overwrite ==> p@ == directory(dest)
                    + fresh_name(dest, taken)
            }
            &&& r matches Ok(Placement::Skipped) ==> occupied && policy == ConflictPolicy::Skip
        }),
{
}

/// A relative path goes below the directory, and an absolute one stands for itself.
pub proof fn law_relative_paths_go_below(dir: Seq<char>, rel: Seq<char>)
    ensures
        rel.len() > 0 && rel[0] == '/' ==> below(dir, rel) == rel,
        rel.len() == 0 || rel[0] != '/' ==> below(dir, rel) == joined(dir, rel),
{
}

/// Chunks are full but for the last: each holds 64 KiB where as much is left, and else
/// what is left; the first begins at the start, and each begins where the one before it
/// ends.
pub proof fn law_chunks_are_full(bytes: Seq<u8>, start: int, i: int)
    requires
        0 <= start,
        0 <= i < chunks_from(bytes, start).len(),
    ensures
        ({
            let cs = chunks_from(bytes, start);
            let (offset, data) = cs[i];
            &&& cs[0].0 == start
            &&& 0 <= offset < bytes.len()
            &&& data.len() == if bytes.len() - offset >= 65_536 {
                65_536
            } else {
                bytes.len() - offset
            }
            &&& data == bytes.subrange(offset, offset + data.len())
            &&& i + 1 < cs.len() ==> cs[i + 1].0 == offset + data.len()
            &&& i + 1 == cs.len() ==> offset + data.len() == bytes.len()
        }),
    decreases bytes.len() - start,
{
    let end = chunk_end(bytes.len() as int, start);
    let cs = chunks_from(bytes, start);
    let rest = chunks_from(bytes, end);
    assert(cs == seq![(start, bytes.subrange(start, end))] + rest);
    if i > 0 {
        law_chunks_are_full(bytes, end, i - 1);
        assert(cs[i] == rest[i - 1]);
        if i + 1 < cs.len() {
            assert(cs[i + 1] == rest[i]);
        }
    } else if cs.len() > 1 {
        law_chunks_are_full(bytes, end, 0);
        assert(cs[1] == rest[0]);
    } else {
        assert(rest.len() == 0);
        reveal_with_fuel(chunks_from, 2);
    }
}

/// A file starts where the first wish about it says, and at its beginning where there is
/// none.
pub proof fn law_the_first_wish_counts(resume: Seq<FileResume>, index: int, k: int)
    requires
        0 <= k < resume.len(),
    ensures
        resume[k].file_index == index && (forall|j: int|
            0 <= j < k ==> (#[trigger] resume[j]).file_index != index) ==> resume_from(
            resume,
            index,
            0,
        ) == resume[k].offset,
        (forall|j: int| 0 <= j < resume.len() ==> (#[trigger] resume[j]).file_index != index)
            ==> resume_from(resume, index, 0) == 0,
{
    if resume[k].file_index == index && (forall|j: int|
        0 <= j < k ==> (#[trigger] resume[j]).file_index != index) {
        lemma_first_wish(resume, index, 0, k);
    }
    if forall|j: int| 0 <= j < resume.len() ==> (#[trigger] resume[j]).file_index != index {
        lemma_no_wish(resume, index, 0);
    }
}

proof fn lemma_first_wish(resume: Seq<FileResume>, index: int, i: int, k: int)
    requires
        0 <= i <= k < resume.len(),
        resume[k].file_index == index,
        forall|j: int| 0 <= j < k ==> (#[trigger] resume[j]).file_index != index,
    ensures
        resume_from(resume, index, i) == resume[k].offset,
    decreases k - i,
{
    if i < k {
        lemma_first_wish(resume, index, i + 1, k);
    }
}

proof fn lemma_no_wish(resume: Seq<FileResume>, index: int, i: int)
    requires
        0 <= i,
        forall|j: int| 0 <= j < resume.len() ==> (#[trigger] resume[j]).file_index != index,
    ensures
        resume_from(resume, index, i) == 0,
    decreases resume.len() - i,
{
    if i < resume.len() {
        lemma_no_wish(resume, index, i + 1);
    }
}

/// Each file of the manifest is sent once, under its own number, from its own place and
/// from where the receiver wants it; directories are not sent; and files are sent in the
/// order of the manifest.
pub proof fn law_every_file_is_sent_once(
    files: Seq<FileEntry>,
    roots: Seq<SentRoot>,
    resume: Seq<FileResume>,
    n: int,
)
    requires
        0 <= n < files.len() <= u32::MAX,
    ensures
        ({
            let before = outgoing_of(files, roots, resume, n);
            let after = outgoing_of(files, roots, resume, n + 1);
            &&& files[n].is_dir ==> after == before
            &&& !files[n].is_dir ==> {
                &&& after.len() == before.len() + 1
                &&& after.subrange(0, before.len() as int) == before
                &&& after.last().0 == n
                &&& after.last().1 == below(base_at(roots, 0, n), files[n].rel_path@)
                &&& after.last().2 == resume_from(resume, n, 0)
            }
            &&& outgoing_of(files, roots, resume, 0).len() == 0
        }),
{
    lemma_wish_fits(resume, n, 0);
    let before = outgoing_of(files, roots, resume, n);
    let after = outgoing_of(files, roots, resume, n + 1);
    if !files[n].is_dir {
        assert(after.subrange(0, before.len() as int) =~= before);
    }
}

proof fn lemma_wish_fits(resume: Seq<FileResume>, index: int, i: int)
    ensures
        0 <= resume_from(resume, index, i) <= u64::MAX,
    decreases resume.len() - i,
{
    if 0 <= i < resume.len() && resume[i].file_index != index {
        lemma_wish_fits(resume, index, i + 1);
    }
}

/// The check at the end finds the first file that came and has other contents than were
/// announced; where it finds none, every file that came is as announced, or nothing was
/// announced of it.
pub proof fn law_the_first_corrupt_file_is_found(s: IncomingState, i: int)
    requires
        s.wf(),
        0 <= i < s.files.len(),
    ensures
        ({
            let bytes = s.sink(i).received;
            let came = s.dests[i] is Some && (s.sinks[i] is Some || s.files[i].size == 0);
            let corrupt = came && s.files[i].hash is Some && s.files[i].hash->0@ != blake3_hash(bytes);
            &&& s.first_corrupt(0) is None ==> !corrupt
            &&& s.first_corrupt(0) == Some(i) ==> corrupt
            &&& s.first_corrupt(0) matches Some(k) ==> (i < k ==> !corrupt)
            &&& s.sinks[i] is None ==> bytes.len() == 0
            &&& s.sinks[i] matches Some(f) ==> bytes == f.received
        }),
{
    lemma_first_corrupt(s, 0);
    let came = s.dests[i] is Some && (s.sinks[i] is Some || s.files[i].size == 0);
    assert(s.received(i) == came);
    let announced = s.files[i].hash;
    assert(s.sink(i).checks_out(announced) <==> (announced is Some ==> announced->0@ == blake3_hash(
        s.sink(i).received,
    )));
    if s.first_corrupt(0) is None && came {
        assert(s.sink(i).checks_out(announced));
    }
}

proof fn lemma_first_corrupt(s: IncomingState, i: int)
    requires
        0 <= i,
    ensures
        match s.first_corrupt(i) {
            Some(k) => i <= k < s.sinks.len() && s.received(k) && !s.sink(k).checks_out(
                s.files[k].hash,
            ) && forall|j: int|
                i <= j < k ==> #[trigger] s.received(j) ==> s.sink(j).checks_out(s.files[j].hash),
            None => forall|j: int|
                i <= j < s.sinks.len() ==> #[trigger] s.received(j) ==> s.sink(j).checks_out(
                    s.files[j].hash,
                ),
        },
    decreases s.sinks.len() - i,
{
    if i < s.sinks.len() && !(s.received(i) && !s.sink(i).checks_out(s.files[i].hash)) {
        lemma_first_corrupt(s, i + 1);
    }
}

/// A chunk belongs to the file of its number, where that is written; it changes no other
/// file, and moves the progress by its bytes, as far as there are any to come.
pub proof fn law_chunks_count_for_their_file(s: IncomingState, i: int, f: SinkState, n: int, j: int)
    requires
        s.wf(),
        0 <= i < s.files.len(),
        0 <= j < s.files.len(),
        j != i,
        n >= 0,
        s.dests[i] is Some,
        i <= u32::MAX,
    ensures
        ({
            let t = s.with_chunk(i, f, n);
            &&& s.target(i as u32) == Some(i)
            &&& t.sinks[i] == Some(f) && t.sinks[j] == s.sinks[j]
            &&& t.files == s.files && t.dests == s.dests && t.tag == s.tag
            &&& t.tracker.total_bytes == s.tracker.total_bytes
            &&& t.tracker.files_done == s.tracker.files_done
            &&& s.tracker.done_bytes + n <= s.tracker.total_bytes ==> t.tracker.done_bytes
                == s.tracker.done_bytes + n
            &&& s.tracker.done_bytes + n > s.tracker.total_bytes ==> t.tracker.done_bytes
                == s.tracker.total_bytes
        }),
{
}

/// A stream goes where it is for: files to the downloads, files for the clipboard to the
/// downloads and onto the clipboard, and a payload onto the clipboard; and only where
/// all that it needs is there.
pub proof fn law_streams_go_where_they_are_for(downloads: bool, clipboard: bool, p: StreamPurpose)
    ensures
        route_of(Some(StreamPurpose::FileTransfer), downloads, clipboard) == StreamRoute::Receive
            <==> downloads,
        route_of(Some(StreamPurpose::ClipboardFiles), downloads, clipboard)
            == StreamRoute::ReceiveAndPaste <==> downloads && clipboard,
        p is ClipboardData ==> (route_of(Some(p), downloads, clipboard)
            == StreamRoute::WriteClipboard <==> clipboard),
        !downloads && !clipboard ==> route_of(Some(p), downloads, clipboard) == StreamRoute::Ignore,
        route_of(None, downloads, clipboard) == StreamRoute::Ignore,
        route_of(Some(StreamPurpose::FileTransfer), false, clipboard) == StreamRoute::Ignore,
        route_of(Some(StreamPurpose::ClipboardFiles), false, clipboard) == StreamRoute::Ignore,
{
}

/// A chunk belongs to the file of its number, where that file is taken.
pub proof fn law_chunks_belong_to_their_file(s: IncomingState, i: u32)
    ensures
        s.target(i) is Some <==> i < s.dests.len() && s.dests[i as int] is Some,
        s.target(i) matches Some(k) ==> k == i,
{
}

/// Every file that is received counts once as done, up to the number of files, and no
/// other counts.
pub proof fn law_received_files_are_done(s: IncomingState, n: int)
    requires
        0 <= n,
    ensures
        ({
            let a = s.progress_after(n);
            let b = s.progress_after(n + 1);
            &&& s.progress_after(0) == s.tracker
            &&& b.done_bytes == a.done_bytes && b.total_bytes == a.total_bytes && b.file_count
                == a.file_count
            &&& s.received(n) && a.files_done < a.file_count ==> b.files_done == a.files_done + 1
            &&& s.received(n) && a.files_done == a.file_count ==> b.files_done == a.files_done
            &&& !s.received(n) ==> b == a
        }),
{
}

/// A file is received where it is taken and something of it came, or nothing was to come.
pub proof fn law_files_are_received_when_taken(s: IncomingState, i: int)
    ensures
        s.dests[i] is None ==> !s.received(i),
        s.dests[i] is Some && s.files[i].size == 0 ==> s.received(i),
        s.dests[i] is Some && s.files[i].size > 0 ==> (s.received(i) <==> s.sinks[i] is Some),
{
}

/// A chunk is written to the file of its number, byte for byte, where it begins at the end
/// of what is there; the file is opened with its first chunk, and with no other. Anywhere
/// else it is refused, and nothing counts as arrived.
pub proof fn law_chunks_are_written_at_the_end(
    s: IncomingState,
    after: IncomingState,
    t: StreamTag,
    i: u32,
    offset: u64,
    data: Vec<u8>,
    step: Step,
)
    requires
        s.heard(after, Some(FileXfer::Chunk { tag: t, file_index: i, offset, data }), step),
        i < s.dests.len() == s.sinks.len(),
    ensures
        ({
            let there = match s.sinks[i as int] {
                Some(f) => f.written,
                None => 0,
            };
            &&& s.dests[i as int] is None ==> step is Ignore && after == s
            &&& s.dests[i as int] is Some && offset == there ==> {
                &&& step is Write
                &&& step->index == i
                &&& step->data@ == data@
                &&& step->create <==> s.sinks[i as int] is None
                &&& after.sinks[i as int] is Some
                &&& after.sinks[i as int]->0.written == there + data@.len()
            }
            &&& s.dests[i as int] is Some && offset != there ==> step is Failed && after.tracker
                == s.tracker
            &&& forall|j: int| 0 <= j < s.sinks.len() && j != i ==> after.sinks[j] == s.sinks[j]
        }),
{
}

/// A transfer is done when the peer says so, fails with the peer's reason when it is called
/// off, and fails when the stream ends before; none of them changes what has arrived.
pub proof fn law_transfers_end_as_the_peer_says(
    s: IncomingState,
    after: IncomingState,
    msg: Option<FileXfer>,
    step: Step,
)
    requires
        s.heard(after, msg, step),
    ensures
        !(msg is Some && msg->0 is Chunk) ==> after == s,
        step is Done <==> msg is Some && msg->0 is Complete,
        msg is Some && msg->0 is Cancel ==> step is Failed && step->0 is Cancelled,
        msg is None ==> step is Failed && step->0 is Closed,
        step is Write ==> msg is Some && msg->0 is Chunk,
{
}

/// At the end every file that came is where it was to go, or the first one that is not what
/// was announced is named.
pub proof fn law_transfers_succeed_unless_a_file_is_corrupt(
    s: IncomingState,
    after: IncomingState,
    r: Result<Vec<String>, TransferError>,
)
    requires
        s.ended(after, r),
    ensures
        r is Ok <==> s.first_corrupt(0) is None,
        r is Ok ==> texts(r->Ok_0@) == s.written_paths(s.files.len() as int),
        r is Err ==> r->Err_0 is HashMismatch,
        after.sinks == s.sinks && after.dests == s.dests && after.files == s.files,
        after.tracker.done_bytes == s.tracker.done_bytes,
{
    if let Some(i) = s.first_corrupt(0) {
        lemma_progress_keeps_bytes(s, i);
    }
    lemma_progress_keeps_bytes(s, s.files.len() as int);
}

proof fn lemma_progress_keeps_bytes(s: IncomingState, n: int)
    ensures
        s.progress_after(n).done_bytes == s.tracker.done_bytes,
    decreases n,
{
    if n > 0 {
        lemma_progress_keeps_bytes(s, n - 1);
    }
}

} // verus!
