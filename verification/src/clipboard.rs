//! The shared clipboard: what changed here, what the peer offers, and what is
//! sent, fetched or written in answer.

use crate::conflict::texts;
use crate::message::{ClipFormat, ClipPayload, Clipboard, StreamTag};
use crate::picture::{decode_png, pixels, png_decoded, Picture};
use std::collections::hash_map::DefaultHasher;
use std::collections::HashMap;
use std::hash::Hasher;
use vstd::bytes::{spec_u64_to_le_bytes, u64_to_le_bytes};
use vstd::prelude::*;
use vstd::std_specs::hash::DefaultHasherAdditionalSpecFns;
use vstd::utf8::encode_utf8;

verus! {

/// Why the clipboard cannot be had.
#[derive(Debug)]
pub enum ClipboardError {
    NoBackend,
    NoFormat(ClipFormat),
    Backend(String),
}

/// A change of the local clipboard.
#[derive(Debug)]
pub struct LocalClip {
    /// Counts the changes.
    pub seq: u64,
    pub formats: Vec<ClipFormat>,
}

/// Remembers which change was our own write, to tell its echo from a copy of the
/// user.
#[derive(Debug)]
pub struct EchoGuard {
    last_written_origin: Option<u64>,
}

impl Default for EchoGuard {
    fn default() -> (g: Self)
        ensures
            g.origin() is None,
    {
        EchoGuard { last_written_origin: None }
    }
}

impl EchoGuard {
    /// The number of the change that was written last.
    pub closed spec fn origin(self) -> Option<u64> {
        self.last_written_origin
    }

    /// Notes a write under the number of the change that it makes.
    pub fn note_written(&mut self, origin_seq: u64)
        ensures
            final(self).origin() == Some(origin_seq),
    {
        self.last_written_origin = Some(origin_seq);
    }

    /// Whether a local change was caused by the write that was noted last. Any other
    /// is a copy of the user, which is offered to the peer.
    pub fn is_echo(&self, local: &LocalClip) -> (b: bool)
        ensures
            b == (self.origin() == Some(local.seq)),
    {
        match self.last_written_origin {
            Some(seq) => seq == local.seq,
            None => false,
        }
    }
}

// --- Watching the system clipboard -------------------------------------------

/// The writes that the contents of a text come to in a hasher.
pub open spec fn text_writes(text: Seq<char>) -> Seq<Seq<u8>> {
    seq![seq![0u8], encode_utf8(text), seq![0xffu8]]
}

/// The writes that a picture comes to in a hasher.
pub open spec fn picture_writes(width: u32, height: u32, rgba: Seq<u8>) -> Seq<Seq<u8>> {
    seq![
        seq![1u8],
        spec_u64_to_le_bytes(width as u64),
        spec_u64_to_le_bytes(height as u64),
        spec_u64_to_le_bytes(rgba.len() as u64),
        rgba,
    ]
}

/// The writes that the first `n` paths of a list come to in a hasher.
pub open spec fn path_writes(paths: Seq<Seq<char>>, n: int) -> Seq<Seq<u8>>
    decreases n,
{
    if n <= 0 {
        seq![seq![2u8]]
    } else {
        path_writes(paths, n - 1).push(encode_utf8(paths[n - 1])).push(seq![0xffu8])
    }
}

/// The number of a text.
pub open spec fn text_number(text: Seq<char>) -> u64 {
    DefaultHasher::spec_finish(text_writes(text))
}

/// The number of a picture: its width, its height and its pixels.
pub open spec fn picture_number(p: (u32, u32, Seq<u8>)) -> u64 {
    DefaultHasher::spec_finish(picture_writes(p.0, p.1, p.2))
}

/// The number of a list of files.
pub open spec fn files_number(paths: Seq<Seq<char>>) -> u64 {
    DefaultHasher::spec_finish(path_writes(paths, paths.len() as int))
}

/// The number that tells a text from other contents of the clipboard.
pub fn text_hash(text: &str) -> (h: u64)
    ensures
        h == text_number(text@),
{
    let mut hasher = DefaultHasher::new();
    hasher.write(&[0u8]);
    hasher.write(text.as_bytes());
    hasher.write(&[0xffu8]);
    assert(hasher@ =~= text_writes(text@)) by {
        assert(hasher@[0] =~= seq![0u8]);
        assert(hasher@[2] =~= seq![0xffu8]);
    }
    hasher.finish()
}

/// The number that tells a picture from other contents of the clipboard. It goes
/// by the pixels: the bytes of an encoded picture may differ from one encoding to
/// the next.
pub fn image_hash(picture: &Picture) -> (h: u64)
    ensures
        h == picture_number(pixels(*picture)),
{
    let mut hasher = DefaultHasher::new();
    hasher.write(&[1u8]);
    hasher.write(u64_to_le_bytes(picture.width as u64).as_slice());
    hasher.write(u64_to_le_bytes(picture.height as u64).as_slice());
    hasher.write(u64_to_le_bytes(picture.rgba.len() as u64).as_slice());
    hasher.write(picture.rgba.as_slice());
    assert(hasher@ =~= picture_writes(picture.width, picture.height, picture.rgba@)) by {
        assert(hasher@[0] =~= seq![1u8]);
    }
    hasher.finish()
}

/// The number that tells a list of files from other contents of the clipboard.
pub fn files_hash(paths: &Vec<String>) -> (h: u64)
    ensures
        h == files_number(texts(paths@)),
{
    let mut hasher = DefaultHasher::new();
    hasher.write(&[2u8]);
    let mut i: usize = 0;
    assert(hasher@ =~= path_writes(texts(paths@), 0)) by {
        assert(hasher@[0] =~= seq![2u8]);
    }
    while i < paths.len()
        invariant
            0 <= i <= paths.len(),
            hasher@ == path_writes(texts(paths@), i as int),
        decreases paths.len() - i,
    {
        let ghost before = hasher@;
        hasher.write(paths[i].as_str().as_bytes());
        hasher.write(&[0xffu8]);
        assert(texts(paths@)[i as int] == paths@[i as int]@);
        assert(hasher@.last() =~= seq![0xffu8]);
        assert(hasher@ =~= path_writes(texts(paths@), i + 1));
        i = i + 1;
    }
    hasher.finish()
}

/// What is made out on the system clipboard, with its number.
pub open spec fn probed(
    text: Option<String>,
    picture: Option<Picture>,
    files: Option<Vec<String>>,
) -> Option<(ClipFormat, u64)> {
    match (text, picture, files) {
        (Some(t), _, _) if t@.len() > 0 => Some((ClipFormat::Utf8Text, text_number(t@))),
        (_, Some(p), _) => Some((ClipFormat::Png, picture_number(pixels(p)))),
        (_, _, Some(f)) if f@.len() > 0 => Some((ClipFormat::FileList, files_number(texts(f@)))),
        _ => None,
    }
}

/// What the system clipboard holds: text wins over a picture, and a picture over
/// files; empty text and an empty list do not count. It comes with the number
/// that tells it from other contents.
pub fn probe(text: Option<String>, picture: Option<Picture>, files: Option<Vec<String>>) -> (r:
    Option<(ClipFormat, u64)>)
    ensures
        r == probed(text, picture, files),
{
    if let Some(t) = text {
        if t.as_str().unicode_len() > 0 {
            return Some((ClipFormat::Utf8Text, text_hash(t.as_str())));
        }
    }
    if let Some(p) = picture {
        return Some((ClipFormat::Png, image_hash(&p)));
    }
    if let Some(f) = files {
        if f.len() > 0 {
            return Some((ClipFormat::FileList, files_hash(&f)));
        }
    }
    None
}

/// Tells changes of the system clipboard from repetitions and from echoes.
#[derive(Clone, Copy, Debug, PartialEq, Eq, Structural)]
pub struct Watcher {
    /// The contents seen last.
    pub last_seen: Option<u64>,
    /// The number of changes so far.
    pub seq: u64,
}

impl Watcher {
    /// The contents that are seen now are a change to tell the peer of: they
    /// differ from those seen last, and were not written here by us.
    pub open spec fn is_change(self, hash: u64, last_written: Option<u64>) -> bool {
        self.last_seen != Some(hash) && last_written != Some(hash)
    }

    /// The watcher after a look at the clipboard, and the format of the change that it
    /// tells of.
    pub open spec fn looked(self, seen: Option<(ClipFormat, u64)>, last_written: Option<u64>) -> (
        Watcher,
        Option<ClipFormat>,
    ) {
        match seen {
            None => (self, None),
            Some((format, hash)) => if self.is_change(hash, last_written) {
                (Watcher { last_seen: Some(hash), seq: (self.seq + 1) as u64 }, Some(format))
            } else {
                (Watcher { last_seen: Some(hash), ..self }, None)
            },
        }
    }

    pub fn new() -> (w: Self)
        ensures
            w == (Watcher { last_seen: None, seq: 0 }),
    {
        Watcher { last_seen: None, seq: 0 }
    }

    /// Looks at the clipboard. `last_written` is what was written here on behalf
    /// of the peer.
    pub fn look(&mut self, seen: Option<(ClipFormat, u64)>, last_written: Option<u64>) -> (r: Option<
        LocalClip,
    >)
        requires
            old(self).seq < u64::MAX,
        ensures
            match seen {
                None => r is None && *final(self) == *old(self),
                Some((format, hash)) => {
                    &&& final(self).last_seen == Some(hash)
                    &&& if old(self).is_change(hash, last_written) {
                        &&& final(self).seq == old(self).seq + 1
                        &&& r matches Some(c) && c.seq == final(self).seq && c.formats@ == seq![format]
                    } else {
                        r is None && final(self).seq == old(self).seq
                    }
                },
            },
            *final(self) == old(self).looked(seen, last_written).0,
            match old(self).looked(seen, last_written).1 {
                Some(format) => r matches Some(c) && c.seq == final(self).seq && c.formats@
                    == seq![format],
                None => r is None,
            },
    {
        if let Some((format, hash)) = seen {
            if let Some(h) = self.last_seen {
                if h == hash {
                    return None;
                }
            }
            self.last_seen = Some(hash);
            if let Some(h) = last_written {
                if h == hash {
                    return None;
                }
            }
            self.seq = self.seq + 1;
            return Some(LocalClip { seq: self.seq, formats: vec![format] });
        }
        None
    }
}

/// What a payload from the peer becomes on the system clipboard.
#[derive(Debug)]
pub enum ClipWrite {
    Text(String),
    Image(Picture),
    /// Nothing that can be put there.
    Nothing,
}

/// Decides what a payload becomes on the system clipboard: text as it is, and
/// bytes as the picture that they show. Anything else, and bytes that show none,
/// is left out.
pub fn plan_write(payload: ClipPayload) -> (w: ClipWrite)
    ensures
        match payload {
            ClipPayload::Text(t) => w == ClipWrite::Text(t),
            ClipPayload::Bytes(b) => match png_decoded(b@) {
                Some(img) => w matches ClipWrite::Image(p) && pixels(p) == img,
                None => w is Nothing,
            },
            _ => w is Nothing,
        },
{
    match payload {
        ClipPayload::Text(t) => ClipWrite::Text(t),
        ClipPayload::Bytes(b) => match decode_png(b.as_slice()) {
            Some(p) => ClipWrite::Image(p),
            None => ClipWrite::Nothing,
        },
        _ => ClipWrite::Nothing,
    }
}

/// The number that a write leaves behind, by which its contents are recognised;
/// none for what cannot be put on the clipboard.
pub open spec fn write_mark(w: ClipWrite) -> Option<u64> {
    match w {
        ClipWrite::Text(t) => Some(text_number(t@)),
        ClipWrite::Image(p) => Some(picture_number(pixels(p))),
        ClipWrite::Nothing => None,
    }
}

/// The number to remember before a write.
pub fn mark_of(w: &ClipWrite) -> (r: Option<u64>)
    ensures
        r == write_mark(*w),
{
    match w {
        ClipWrite::Text(t) => Some(text_hash(t.as_str())),
        ClipWrite::Image(p) => Some(image_hash(p)),
        ClipWrite::Nothing => None,
    }
}

/// A clipboard that is looked at after a write is not taken to have changed:
/// what was written is recognised, be it a text, a picture, a picture that was
/// encoded and decoded on its way, or a list of files.
pub proof fn law_writes_are_not_echoed(
    w: Watcher,
    text: String,
    written: Picture,
    png: Seq<u8>,
    paths: Seq<Seq<char>>,
)
    ensures
        !w.is_change(text_number(text@), write_mark(ClipWrite::Text(text))),
        !w.is_change(picture_number(pixels(written)), write_mark(ClipWrite::Image(written))),
        png_decoded(png) == Some(pixels(written)) ==> !w.is_change(
            picture_number(png_decoded(png)->0),
            write_mark(ClipWrite::Image(written)),
        ),
        !w.is_change(files_number(paths), Some(files_number(paths))),
{
}

/// Contents that stay the same are told once.
pub proof fn law_changes_are_told_once(hash: u64, seq: u64, last_written: Option<u64>)
    ensures
        !(Watcher { last_seen: Some(hash), seq }).is_change(hash, last_written),
{
}

// --- A clipboard in memory ---------------------------------------------------

/// The payload is in this format.
pub open spec fn is_format(format: ClipFormat, payload: ClipPayload) -> bool {
    match (format, payload) {
        (ClipFormat::Utf8Text, ClipPayload::Text(_)) => true,
        (ClipFormat::Html, ClipPayload::Html(_)) => true,
        (ClipFormat::Png, ClipPayload::Bytes(_)) => true,
        (ClipFormat::FileList, ClipPayload::Files(_)) => true,
        _ => false,
    }
}

/// Whether the payload is in this format.
pub fn payload_is(format: ClipFormat, payload: &ClipPayload) -> (b: bool)
    ensures
        b == is_format(format, *payload),
{
    match (format, payload) {
        (ClipFormat::Utf8Text, ClipPayload::Text(_)) => true,
        (ClipFormat::Html, ClipPayload::Html(_)) => true,
        (ClipFormat::Png, ClipPayload::Bytes(_)) => true,
        (ClipFormat::FileList, ClipPayload::Files(_)) => true,
        _ => false,
    }
}

/// A clipboard that lives in memory.
#[derive(Debug)]
pub struct MemClipboard {
    /// What is on it.
    pub content: Option<ClipPayload>,
    /// The files that were copied here.
    pub files: Option<Vec<String>>,
    /// Where files of the peer have landed.
    pub landed: Option<Vec<String>>,
}

/// An empty clipboard in memory, and the hand that copies to it.
pub fn memory() -> (r: (MemClipboard, ClipInjector))
    ensures
        r.0 == (MemClipboard { content: None, files: None, landed: None }),
        r.1.seq == 0,
{
    (MemClipboard { content: None, files: None, landed: None }, ClipInjector { seq: 0 })
}

impl MemClipboard {
    /// What is on the clipboard, where it is in this format.
    pub fn read(&self, format: ClipFormat) -> (r: Option<&ClipPayload>)
        ensures
            r == match self.content {
                Some(p) => if is_format(format, p) {
                    Some(&p)
                } else {
                    None
                },
                None => None,
            },
    {
        match &self.content {
            Some(p) => if payload_is(format, p) {
                Some(p)
            } else {
                None
            },
            None => None,
        }
    }

    pub fn write(&mut self, payload: ClipPayload)
        ensures
            *final(self) == (MemClipboard { content: Some(payload), ..*old(self) }),
    {
        self.content = Some(payload);
    }

    pub fn read_files(&self) -> (r: Option<&Vec<String>>)
        ensures
            r == match self.files {
                Some(p) => Some(&p),
                None => None,
            },
    {
        match &self.files {
            Some(p) => Some(p),
            None => None,
        }
    }

    pub fn write_files(&mut self, paths: Vec<String>)
        ensures
            *final(self) == (MemClipboard { landed: Some(paths), ..*old(self) }),
    {
        self.landed = Some(paths);
    }
}

/// Copies to a clipboard in memory, and counts the changes.
#[derive(Debug)]
pub struct ClipInjector {
    pub seq: u64,
}

impl ClipInjector {
    pub fn copy_text(&mut self, clip: &mut MemClipboard, text: String) -> (c: LocalClip)
        requires
            old(self).seq < u64::MAX,
        ensures
            final(self).seq == old(self).seq + 1,
            *final(clip) == (MemClipboard { content: Some(ClipPayload::Text(text)), ..*old(clip) }),
            c.seq == final(self).seq,
            c.formats@ == seq![ClipFormat::Utf8Text],
    {
        clip.content = Some(ClipPayload::Text(text));
        self.seq = self.seq + 1;
        LocalClip { seq: self.seq, formats: vec![ClipFormat::Utf8Text] }
    }

    pub fn copy_image(&mut self, clip: &mut MemClipboard, bytes: Vec<u8>) -> (c: LocalClip)
        requires
            old(self).seq < u64::MAX,
        ensures
            final(self).seq == old(self).seq + 1,
            *final(clip) == (MemClipboard { content: Some(ClipPayload::Bytes(bytes)), ..*old(clip) }),
            c.seq == final(self).seq,
            c.formats@ == seq![ClipFormat::Png],
    {
        clip.content = Some(ClipPayload::Bytes(bytes));
        self.seq = self.seq + 1;
        LocalClip { seq: self.seq, formats: vec![ClipFormat::Png] }
    }

    pub fn copy_files(&mut self, clip: &mut MemClipboard, paths: Vec<String>) -> (c: LocalClip)
        requires
            old(self).seq < u64::MAX,
        ensures
            final(self).seq == old(self).seq + 1,
            *final(clip) == (MemClipboard { files: Some(paths), ..*old(clip) }),
            c.seq == final(self).seq,
            c.formats@ == seq![ClipFormat::FileList],
    {
        clip.files = Some(paths);
        self.seq = self.seq + 1;
        LocalClip { seq: self.seq, formats: vec![ClipFormat::FileList] }
    }

    /// What is on the clipboard, in whatever format.
    pub fn current<'a>(&self, clip: &'a MemClipboard) -> (r: Option<&'a ClipPayload>)
        ensures
            r == match clip.content {
                Some(p) => Some(&p),
                None => None,
            },
    {
        match &clip.content {
            Some(p) => Some(p),
            None => None,
        }
    }

    /// Where files of the peer have landed.
    pub fn landed_files<'a>(&self, clip: &'a MemClipboard) -> (r: Option<&'a Vec<String>>)
        ensures
            r == match clip.landed {
                Some(p) => Some(&p),
                None => None,
            },
    {
        match &clip.landed {
            Some(p) => Some(p),
            None => None,
        }
    }
}

/// A clipboard of text that lives in memory.
#[derive(Debug)]
pub struct MemoryClipboard {
    pub seq: u64,
    pub text: Option<String>,
}

impl MemoryClipboard {
    pub fn new() -> (c: Self)
        ensures
            c.seq == 0,
            c.text is None,
    {
        MemoryClipboard { seq: 0, text: None }
    }

    /// Copies a text here, which is a change.
    pub fn set_text(&mut self, text: String) -> (c: LocalClip)
        requires
            old(self).seq < u64::MAX,
        ensures
            final(self).seq == old(self).seq + 1,
            final(self).text == Some(text),
            c.seq == final(self).seq,
            c.formats@ == seq![ClipFormat::Utf8Text],
    {
        self.seq = self.seq + 1;
        self.text = Some(text);
        LocalClip { seq: self.seq, formats: vec![ClipFormat::Utf8Text] }
    }

    /// Reads the clipboard, which holds nothing but text.
    pub fn read(&self, format: ClipFormat) -> (r: Result<ClipPayload, ClipboardError>)
        ensures
            match (format, self.text) {
                (ClipFormat::Utf8Text, Some(t)) => r == Ok::<ClipPayload, ClipboardError>(
                    ClipPayload::Text(t),
                ),
                _ => r == Err::<ClipPayload, ClipboardError>(ClipboardError::NoFormat(format)),
            },
    {
        match (format, &self.text) {
            (ClipFormat::Utf8Text, Some(t)) => Ok(ClipPayload::Text(t.clone())),
            _ => Err(ClipboardError::NoFormat(format)),
        }
    }

    /// Puts a payload of the peer here, as far as it is text. That is no change
    /// to tell of.
    pub fn write(&mut self, payload: ClipPayload)
        ensures
            final(self).seq == old(self).seq,
            final(self).text == match payload {
                ClipPayload::Text(t) => Some(t),
                _ => old(self).text,
            },
    {
        if let ClipPayload::Text(t) = payload {
            self.text = Some(t);
        }
    }
}

// --- The pump ----------------------------------------------------------------

/// How much a payload weighs; a list of files is heavier than anything.
pub open spec fn weight(p: ClipPayload) -> int {
    match p {
        ClipPayload::Text(s) => vstd::utf8::encode_utf8(s@).len() as int,
        ClipPayload::Html(s) => vstd::utf8::encode_utf8(s@).len() as int,
        ClipPayload::Bytes(b) => b@.len() as int,
        ClipPayload::Files(_) => usize::MAX as int,
    }
}

/// How much a payload weighs.
pub fn payload_len(p: &ClipPayload) -> (n: usize)
    ensures
        n == weight(*p),
{
    match p {
        ClipPayload::Text(s) => s.as_str().as_bytes().len(),
        ClipPayload::Html(s) => s.as_str().as_bytes().len(),
        ClipPayload::Bytes(b) => b.len(),
        ClipPayload::Files(_) => usize::MAX,
    }
}

/// Where the files of the peer's clipboard land.
pub struct FileSync {
    pub download_dir: String,
    pub policy: crate::config::ConflictPolicy,
}

/// What to read from the local clipboard after a change.
#[derive(Clone, Copy, Debug, PartialEq, Eq, Structural)]
pub enum ToRead {
    Nothing,
    Files,
    Format(ClipFormat),
}

/// What to do after a message of the peer.
#[derive(Debug)]
pub enum PumpAction {
    Nothing,
    /// Put the payload on the clipboard.
    Write(ClipPayload),
    /// Make ready to receive files, and then send the message.
    ReceiveFiles(Clipboard),
    Send(Clipboard),
    /// Stream these files to the peer.
    SendFiles { tag: StreamTag, paths: Vec<String> },
    /// Read this format, and send it under the tag.
    Render { format: ClipFormat, tag: StreamTag },
}

/// The clipboard side of a session: the files that were offered, by the number
/// of the change, and whether files are exchanged at all.
pub struct ClipboardPump {
    offered: HashMap<u64, Vec<String>>,
    files: bool,
    inline_max: u64,
}

/// The state of the clipboard side of a session.
pub struct PumpState {
    pub offered: Map<u64, Vec<String>>,
    pub files: bool,
    pub inline_max: u64,
}

impl PumpState {
    /// The offer of what was read of a change. What is small enough travels along;
    /// a list of files never does.
    pub open spec fn offer(self, change: LocalClip, payload: Option<ClipPayload>) -> Option<
        Clipboard,
    > {
        match payload {
            Some(p) => Some(
                Clipboard::Offer {
                    seq: change.seq,
                    formats: change.formats,
                    inline: if weight(p) <= self.inline_max && !(p is Files) {
                        Some(p)
                    } else {
                        None
                    },
                },
            ),
            None => None,
        }
    }

    /// The state after the files of a change were read, and their offer. An empty
    /// list is not offered.
    pub open spec fn files_offered(self, change: LocalClip, paths: Option<Vec<String>>) -> (
        PumpState,
        Option<Clipboard>,
    ) {
        match paths {
            Some(p) if p@.len() > 0 => (
                PumpState { offered: self.offered.insert(change.seq, p), ..self },
                Some(Clipboard::Offer { seq: change.seq, formats: change.formats, inline: None }),
            ),
            _ => (self, None),
        }
    }

    /// The state after a message of the peer, and what to do.
    pub open spec fn answered(self, msg: Clipboard) -> (PumpState, PumpAction) {
        match msg {
            Clipboard::Offer { seq, formats, inline } => (
                self,
                match inline {
                    Some(p) => PumpAction::Write(p),
                    None => self.wanted(seq, formats@),
                },
            ),
            Clipboard::Pull { seq, format, tag } => if format != ClipFormat::FileList {
                (self, PumpAction::Render { format, tag })
            } else if self.files && self.offered.dom().contains(seq) {
                (
                    PumpState { offered: self.offered.remove(seq), ..self },
                    PumpAction::SendFiles { tag, paths: self.offered[seq] },
                )
            } else {
                (self, PumpAction::Nothing)
            },
            Clipboard::Data { tag, payload } => (self, PumpAction::Write(payload)),
            Clipboard::DataStream { .. } => (self, PumpAction::Nothing),
        }
    }

    /// What to do about an offer that brings nothing along: its first format is
    /// asked for, under the number of the change.
    pub open spec fn wanted(self, seq: u64, formats: Seq<ClipFormat>) -> PumpAction {
        if formats.len() == 0 {
            PumpAction::Nothing
        } else if formats[0] != ClipFormat::FileList {
            PumpAction::Send(Clipboard::Pull { seq, format: formats[0], tag: seq })
        } else if self.files {
            PumpAction::ReceiveFiles(Clipboard::Pull { seq, format: formats[0], tag: seq })
        } else {
            PumpAction::Nothing
        }
    }
}

impl View for ClipboardPump {
    type V = PumpState;

    closed spec fn view(&self) -> PumpState {
        PumpState { offered: self.offered@, files: self.files, inline_max: self.inline_max }
    }
}

/// What a change in these formats asks to be read.
pub open spec fn to_read(formats: Seq<ClipFormat>, files: bool) -> ToRead {
    if formats.len() == 0 {
        ToRead::Nothing
    } else if formats[0] == ClipFormat::FileList {
        if files {
            ToRead::Files
        } else {
            ToRead::Nothing
        }
    } else {
        ToRead::Format(formats[0])
    }
}

impl ClipboardPump {
    pub fn new(files: bool, inline_max: u64) -> (p: Self)
        ensures
            p@ == (PumpState { offered: Map::empty(), files, inline_max }),
    {
        ClipboardPump { offered: HashMap::new(), files, inline_max }
    }

    /// What a local change asks to be read: the files themselves, where files
    /// are exchanged; else the first format.
    pub fn on_change(&self, change: &LocalClip) -> (r: ToRead)
        ensures
            r == to_read(change.formats@, self@.files),
    {
        if change.formats.len() == 0 {
            return ToRead::Nothing;
        }
        let first = change.formats[0];
        if first == ClipFormat::FileList {
            if self.files {
                ToRead::Files
            } else {
                ToRead::Nothing
            }
        } else {
            ToRead::Format(first)
        }
    }

    /// Offers the files of a change, and remembers them under its number. An
    /// empty list is not offered.
    pub fn offer_files(&mut self, change: LocalClip, paths: Option<Vec<String>>) -> (r: Option<
        Clipboard,
    >)
        ensures
            (final(self)@, r) == old(self)@.files_offered(change, paths),
    {
        broadcast use vstd::std_specs::hash::group_hash_axioms;

        match paths {
            Some(p) => {
                if p.len() == 0 {
                    return None;
                }
                self.offered.insert(change.seq, p);
                Some(Clipboard::Offer { seq: change.seq, formats: change.formats, inline: None })
            },
            None => None,
        }
    }

    /// Offers what was read of a change. A payload that is small enough travels
    /// along; a list of files never does.
    pub fn offer_payload(&self, change: LocalClip, payload: Option<ClipPayload>) -> (r: Option<
        Clipboard,
    >)
        ensures
            r == self@.offer(change, payload),
    {
        match payload {
            Some(p) => {
                let is_list = matches!(p, ClipPayload::Files(_));
                let inline = if payload_len(&p) as u64 <= self.inline_max && !is_list {
                    Some(p)
                } else {
                    None
                };
                Some(Clipboard::Offer { seq: change.seq, formats: change.formats, inline })
            },
            None => None,
        }
    }

    /// Takes one message of the peer.
    pub fn on_message(&mut self, msg: Clipboard) -> (a: PumpAction)
        ensures
            (final(self)@, a) == old(self)@.answered(msg),
    {
        broadcast use vstd::std_specs::hash::group_hash_axioms;

        match msg {
            Clipboard::Offer { seq, formats, inline } => {
                match inline {
                    Some(payload) => PumpAction::Write(payload),
                    None => {
                        if formats.len() == 0 {
                            return PumpAction::Nothing;
                        }
                        let first = formats[0];
                        if first == ClipFormat::FileList {
                            if self.files {
                                PumpAction::ReceiveFiles(
                                    Clipboard::Pull { seq, format: ClipFormat::FileList, tag: seq },
                                )
                            } else {
                                PumpAction::Nothing
                            }
                        } else {
                            PumpAction::Send(Clipboard::Pull { seq, format: first, tag: seq })
                        }
                    },
                }
            },
            Clipboard::Pull { seq, format, tag } => {
                if format == ClipFormat::FileList {
                    if self.files {
                        match self.offered.remove(&seq) {
                            Some(paths) => {
                                return PumpAction::SendFiles { tag, paths };
                            },
                            None => {
                                assert(self.offered@ =~= old(self).offered@);
                            },
                        }
                    }
                    PumpAction::Nothing
                } else {
                    PumpAction::Render { format, tag }
                }
            },
            Clipboard::Data { payload, .. } => PumpAction::Write(payload),
            Clipboard::DataStream { .. } => PumpAction::Nothing,
        }
    }
}

/// The answer to a pull: what was read, under the tag of the pull.
pub open spec fn reply(tag: StreamTag, payload: Option<ClipPayload>) -> Option<Clipboard> {
    match payload {
        Some(p) => Some(Clipboard::Data { tag, payload: p }),
        None => None,
    }
}

/// The answer to a pull: what was read, under the tag of the pull.
pub fn render_reply(tag: StreamTag, payload: Option<ClipPayload>) -> (r: Option<Clipboard>)
    ensures
        r == reply(tag, payload),
{
    match payload {
        Some(p) => Some(Clipboard::Data { tag, payload: p }),
        None => None,
    }
}

/// What is copied here reaches the clipboard of the peer as it is. A small payload
/// is written from the offer; any other is asked for by its format, read here, and
/// written from the answer.
pub proof fn law_copies_reach_the_peer(
    here: PumpState,
    peer: PumpState,
    change: LocalClip,
    payload: ClipPayload,
)
    requires
        change.formats@.len() > 0,
        change.formats@[0] != ClipFormat::FileList,
        !(payload is Files),
    ensures
        here.offer(change, Some(payload)) is Some,
        ({
            let offer = here.offer(change, Some(payload)).unwrap();
            if weight(payload) <= here.inline_max {
                peer.answered(offer).1 == PumpAction::Write(payload)
            } else {
                &&& peer.answered(offer).1 matches PumpAction::Send(pull)
                &&& here.answered(pull) == (
                    here,
                    PumpAction::Render { format: change.formats@[0], tag: change.seq },
                )
                &&& peer.answered(reply(change.seq, Some(payload)).unwrap()).1
                    == PumpAction::Write(payload)
            }
        }),
{
}

/// Files that were offered are sent when the peer asks for them, and only once.
pub proof fn law_offered_files_are_sent_once(
    here: PumpState,
    peer: PumpState,
    change: LocalClip,
    paths: Vec<String>,
)
    requires
        here.files,
        peer.files,
        paths@.len() > 0,
        change.formats@ == seq![ClipFormat::FileList],
    ensures
        ({
            let (offered, offer) = here.files_offered(change, Some(paths));
            &&& offer is Some
            &&& peer.answered(offer.unwrap()).1 matches PumpAction::ReceiveFiles(pull)
            &&& offered.answered(pull).1 == (PumpAction::SendFiles { tag: change.seq, paths })
            &&& offered.answered(pull).0.answered(pull).1 == PumpAction::Nothing
        }),
{
}

/// With files left out of the session, no message of the peer has files sent or
/// fetched.
pub proof fn law_files_stay_out(s: PumpState, msg: Clipboard)
    requires
        !s.files,
    ensures
        !(s.answered(msg).1 is SendFiles),
        !(s.answered(msg).1 is ReceiveFiles),
{
}

// --- What tells contents apart -----------------------------------------------

/// The bytes of all writes to a hasher, one after the other.
pub open spec fn stream(writes: Seq<Seq<u8>>) -> Seq<u8>
    decreases writes.len(),
{
    if writes.len() == 0 {
        Seq::empty()
    } else {
        stream(writes.drop_last()) + writes.last()
    }
}

proof fn lemma_stream_push(writes: Seq<Seq<u8>>, w: Seq<u8>)
    ensures
        stream(writes.push(w)) == stream(writes) + w,
{
    assert(writes.push(w).drop_last() =~= writes);
}

proof fn lemma_text_stream(t: Seq<char>)
    ensures
        stream(text_writes(t)) == seq![0u8] + encode_utf8(t) + seq![0xffu8],
{
    let none = Seq::<Seq<u8>>::empty();
    lemma_stream_push(none, seq![0u8]);
    lemma_stream_push(none.push(seq![0u8]), encode_utf8(t));
    lemma_stream_push(none.push(seq![0u8]).push(encode_utf8(t)), seq![0xffu8]);
    assert(text_writes(t) =~= none.push(seq![0u8]).push(encode_utf8(t)).push(seq![0xffu8]));
    assert(stream(text_writes(t)) =~= seq![0u8] + encode_utf8(t) + seq![0xffu8]);
}

proof fn lemma_picture_stream(w: u32, h: u32, rgba: Seq<u8>)
    ensures
        stream(picture_writes(w, h, rgba)) == seq![1u8] + spec_u64_to_le_bytes(w as u64)
            + spec_u64_to_le_bytes(h as u64) + spec_u64_to_le_bytes(rgba.len() as u64) + rgba,
{
    let a = Seq::<Seq<u8>>::empty();
    let b = a.push(seq![1u8]);
    let c = b.push(spec_u64_to_le_bytes(w as u64));
    let d = c.push(spec_u64_to_le_bytes(h as u64));
    let e = d.push(spec_u64_to_le_bytes(rgba.len() as u64));
    lemma_stream_push(a, seq![1u8]);
    lemma_stream_push(b, spec_u64_to_le_bytes(w as u64));
    lemma_stream_push(c, spec_u64_to_le_bytes(h as u64));
    lemma_stream_push(d, spec_u64_to_le_bytes(rgba.len() as u64));
    lemma_stream_push(e, rgba);
    assert(picture_writes(w, h, rgba) =~= e.push(rgba));
    assert(stream(picture_writes(w, h, rgba)) =~= seq![1u8] + spec_u64_to_le_bytes(w as u64)
        + spec_u64_to_le_bytes(h as u64) + spec_u64_to_le_bytes(rgba.len() as u64) + rgba);
}

proof fn lemma_path_stream(paths: Seq<Seq<char>>, n: int)
    requires
        0 < n,
    ensures
        stream(path_writes(paths, n)) == stream(path_writes(paths, n - 1)) + encode_utf8(paths[n - 1])
            + seq![0xffu8],
{
    let before = path_writes(paths, n - 1);
    lemma_stream_push(before, encode_utf8(paths[n - 1]));
    lemma_stream_push(before.push(encode_utf8(paths[n - 1])), seq![0xffu8]);
}

/// No byte of a text is the one that closes it.
proof fn lemma_no_closing_byte(bytes: Seq<u8>, i: int)
    requires
        vstd::utf8::valid_utf8(bytes),
        0 <= i < bytes.len(),
    ensures
        bytes[i] != 0xff,
    decreases bytes.len(),
{
    let n = vstd::utf8::length_of_first_scalar(bytes);
    if i >= n {
        let rest = vstd::utf8::pop_first_scalar(bytes);
        lemma_no_closing_byte(rest, i - n);
        assert(rest[i - n] == bytes[i]);
    }
}

proof fn lemma_path_stream_starts(paths: Seq<Seq<char>>, n: int)
    requires
        0 <= n,
    ensures
        stream(path_writes(paths, n)).len() >= 1,
        stream(path_writes(paths, n))[0] == 2,
        n == 0 ==> stream(path_writes(paths, n)).len() == 1,
        n > 0 ==> stream(path_writes(paths, n)).len() >= 2,
        n > 0 ==> stream(path_writes(paths, n)).last() == 0xff,
    decreases n,
{
    if n == 0 {
        lemma_stream_push(Seq::empty(), seq![2u8]);
        assert(path_writes(paths, 0) =~= Seq::<Seq<u8>>::empty().push(seq![2u8]));
        assert(stream(path_writes(paths, 0)) =~= seq![2u8]);
    } else {
        lemma_path_stream_starts(paths, n - 1);
        lemma_path_stream(paths, n);
    }
}

proof fn lemma_texts_apart(a: Seq<char>, b: Seq<char>)
    requires
        encode_utf8(a) == encode_utf8(b),
    ensures
        a == b,
{
    vstd::utf8::encode_utf8_decode_utf8(a);
    vstd::utf8::encode_utf8_decode_utf8(b);
}

proof fn lemma_paths_apart(a: Seq<Seq<char>>, m: int, b: Seq<Seq<char>>, n: int)
    requires
        0 <= m <= a.len(),
        0 <= n <= b.len(),
        stream(path_writes(a, m)) == stream(path_writes(b, n)),
    ensures
        m == n,
        forall|i: int| 0 <= i < m ==> a[i] == b[i],
    decreases m,
{
    lemma_path_stream_starts(a, m);
    lemma_path_stream_starts(b, n);
    if m > 0 && n > 0 {
        let (s, t) = (stream(path_writes(a, m - 1)), stream(path_writes(b, n - 1)));
        let (x, y) = (encode_utf8(a[m - 1]), encode_utf8(b[n - 1]));
        lemma_path_stream(a, m);
        lemma_path_stream(b, n);
        lemma_path_stream_starts(a, m - 1);
        lemma_path_stream_starts(b, n - 1);
        vstd::utf8::encode_utf8_valid_utf8(a[m - 1]);
        vstd::utf8::encode_utf8_valid_utf8(b[n - 1]);
        let whole = stream(path_writes(a, m));
        if s.len() < t.len() {
            let k = t.len() - 1;
            assert(whole[k] == t[k]);
            assert(whole[k] == (s + x + seq![0xffu8])[k]);
            assert(k - s.len() < x.len());
            lemma_no_closing_byte(x, k - s.len());
        }
        if t.len() < s.len() {
            let k = s.len() - 1;
            assert(whole[k] == s[k]);
            assert(whole[k] == (t + y + seq![0xffu8])[k]);
            assert(k - t.len() < y.len());
            lemma_no_closing_byte(y, k - t.len());
        }
        assert(s =~= whole.subrange(0, s.len() as int));
        assert(t =~= whole.subrange(0, t.len() as int));
        assert(x =~= whole.subrange(s.len() as int, whole.len() - 1));
        assert(y =~= whole.subrange(t.len() as int, whole.len() - 1));
        lemma_texts_apart(a[m - 1], b[n - 1]);
        lemma_paths_apart(a, m - 1, b, n - 1);
    }
}

/// The number of clipboard contents is taken from bytes that tell the contents: two
/// texts, two pictures or two lists of files that come to the same bytes are the same
/// text, the same size and pixels or the same paths, and contents of different kinds
/// never come to the same bytes.
pub proof fn law_contents_are_told_apart(
    s: Seq<char>,
    t: Seq<char>,
    p: Picture,
    q: Picture,
    f: Seq<Seq<char>>,
    g: Seq<Seq<char>>,
)
    ensures
        ({
            let of_text = |t: Seq<char>| text_writes(t);
            let of_picture = |p: Picture| picture_writes(p.width, p.height, p.rgba@);
            let of_files = |f: Seq<Seq<char>>| path_writes(f, f.len() as int);
            &&& text_number(s) == DefaultHasher::spec_finish(of_text(s))
            &&& picture_number(pixels(p)) == DefaultHasher::spec_finish(of_picture(p))
            &&& files_number(f) == DefaultHasher::spec_finish(of_files(f))
            &&& stream(of_text(s)) == stream(of_text(t)) ==> s == t
            &&& stream(of_picture(p)) == stream(of_picture(q)) ==> p.width == q.width && p.height
                == q.height && p.rgba@ == q.rgba@
            &&& stream(of_files(f)) == stream(of_files(g)) ==> f == g
            &&& stream(of_text(s)) != stream(of_picture(p))
            &&& stream(of_text(s)) != stream(of_files(f))
            &&& stream(of_picture(p)) != stream(of_files(f))
        }),
{
    vstd::bytes::lemma_auto_spec_u64_to_from_le_bytes();
    lemma_text_stream(s);
    lemma_text_stream(t);
    lemma_picture_stream(p.width, p.height, p.rgba@);
    lemma_picture_stream(q.width, q.height, q.rgba@);
    lemma_path_stream_starts(f, f.len() as int);
    let (ts, tt) = (stream(text_writes(s)), stream(text_writes(t)));
    let ps = stream(picture_writes(p.width, p.height, p.rgba@));
    let qs = stream(picture_writes(q.width, q.height, q.rgba@));
    assert(ts[0] == 0);
    assert(ps[0] == 1);
    if ts == tt {
        assert(encode_utf8(s) =~= ts.subrange(1, ts.len() - 1));
        assert(encode_utf8(t) =~= tt.subrange(1, tt.len() - 1));
        lemma_texts_apart(s, t);
    }
    if ps == qs {
        assert(spec_u64_to_le_bytes(p.width as u64) =~= ps.subrange(1, 9));
        assert(spec_u64_to_le_bytes(q.width as u64) =~= qs.subrange(1, 9));
        assert(spec_u64_to_le_bytes(p.height as u64) =~= ps.subrange(9, 17));
        assert(spec_u64_to_le_bytes(q.height as u64) =~= qs.subrange(9, 17));
        assert(p.rgba@ =~= ps.subrange(25, ps.len() as int));
        assert(q.rgba@ =~= qs.subrange(25, qs.len() as int));
    }
    if stream(path_writes(f, f.len() as int)) == stream(path_writes(g, g.len() as int)) {
        lemma_paths_apart(f, f.len() as int, g, g.len() as int);
        assert(f =~= g);
    }
}

/// Text that is not empty is made out whatever else there is; a picture where there is
/// no such text; files where there is neither. Contents are made out as what they are,
/// and an empty clipboard as nothing.
pub proof fn law_text_comes_before_pictures_and_pictures_before_files(
    text: Option<String>,
    picture: Option<Picture>,
    files: Option<Vec<String>>,
    t: String,
    p: Picture,
    f: Vec<String>,
)
    ensures
        t@.len() > 0 ==> probed(Some(t), picture, files) == Some(
            (ClipFormat::Utf8Text, text_number(t@)),
        ),
        probed(None, Some(p), files) == Some((ClipFormat::Png, picture_number(pixels(p)))),
        f@.len() > 0 ==> probed(None, None, Some(f)) == Some(
            (ClipFormat::FileList, files_number(texts(f@))),
        ),
        t@.len() == 0 ==> probed(Some(t), picture, files) == probed(None, picture, files),
        f@.len() == 0 ==> probed(text, picture, Some(f)) == probed(text, picture, None),
        probed(None, None, None) is None,
{
}

/// A copy is told of once and then not again, until other contents were seen; contents
/// that were written here for the peer are not told of, and count as seen.
pub proof fn law_copies_are_told_once(w: Watcher, a: (ClipFormat, u64), b: (ClipFormat, u64))
    requires
        w.seq < u64::MAX - 2,
        a.1 != b.1,
        w.last_seen != Some(a.1),
    ensures
        ({
            let (first, told) = w.looked(Some(a), None);
            let (second, again) = first.looked(Some(a), None);
            let (third, other) = second.looked(Some(b), None);
            let (fourth, back) = third.looked(Some(a), None);
            let (own, echo) = w.looked(Some(a), Some(a.1));
            &&& told == Some(a.0) && first.seq == w.seq + 1
            &&& again is None && second == first
            &&& other == Some(b.0) && third.seq == w.seq + 2
            &&& back == Some(a.0) && fourth.seq == w.seq + 3
            &&& echo is None && own.seq == w.seq
            &&& own.looked(Some(a), None).1 is None
            &&& own.looked(Some(b), Some(a.1)).1 == Some(b.0)
            &&& w.looked(None, None) == (w, None::<ClipFormat>)
        }),
{
}

/// What is read back from memory is what is there, in its own format and in no other.
pub proof fn law_payloads_have_one_format(format: ClipFormat, text: String, bytes: Vec<u8>, p: ClipPayload)
    ensures
        is_format(format, ClipPayload::Text(text)) <==> format == ClipFormat::Utf8Text,
        is_format(format, ClipPayload::Html(text)) <==> format == ClipFormat::Html,
        is_format(format, ClipPayload::Bytes(bytes)) <==> format == ClipFormat::Png,
        p is Files ==> (is_format(format, p) <==> format == ClipFormat::FileList),
{
}

/// A payload is weighed by the bytes that it takes on the wire, a text by those of its
/// encoding; so an offer brings along exactly what takes no more bytes than allowed,
/// and never a list of files.
pub proof fn law_small_payloads_travel_along(
    s: PumpState,
    change: LocalClip,
    text: String,
    bytes: Vec<u8>,
    p: ClipPayload,
)
    ensures
        s.offer(change, Some(ClipPayload::Text(text))) matches Some(Clipboard::Offer { inline, .. })
            && (inline is Some <==> encode_utf8(text@).len() <= s.inline_max),
        s.offer(change, Some(ClipPayload::Bytes(bytes))) matches Some(
            Clipboard::Offer { inline, .. },
        ) && (inline is Some <==> bytes@.len() <= s.inline_max),
        p is Files ==> (s.offer(change, Some(p)) matches Some(Clipboard::Offer { inline, .. })
            && inline is None),
        s.offer(change, Some(p)) matches Some(Clipboard::Offer { seq, formats, inline }) && seq
            == change.seq && formats == change.formats && (inline is Some ==> inline == Some(p)),
        s.offer(change, None) is None,
{
}

/// What the peer sends is written; what it asks for is answered in the format and under
/// the tag that it names; of what it offers without sending it, the first format is
/// asked for, under the number of the offer.
pub proof fn law_the_peer_is_answered_in_kind(
    s: PumpState,
    seq: u64,
    formats: Vec<ClipFormat>,
    format: ClipFormat,
    tag: StreamTag,
    p: ClipPayload,
)
    ensures
        s.answered(Clipboard::Offer { seq, formats, inline: Some(p) }) == (s, PumpAction::Write(p)),
        s.answered(Clipboard::Data { tag, payload: p }) == (s, PumpAction::Write(p)),
        format != ClipFormat::FileList ==> s.answered(Clipboard::Pull { seq, format, tag }) == (
            s,
            PumpAction::Render { format, tag },
        ),
        formats@.len() > 0 && formats@[0] != ClipFormat::FileList ==> s.answered(
            Clipboard::Offer { seq, formats, inline: None },
        ) == (s, PumpAction::Send(Clipboard::Pull { seq, format: formats@[0], tag: seq })),
        reply(tag, Some(p)) == Some(Clipboard::Data { tag, payload: p }),
        reply(tag, None) is None,
{
}

/// A write that was not possible leaves no mark; any other leaves the number of what it
/// puts on the clipboard, so that looking at the clipboard afterwards finds that number.
pub proof fn law_writes_leave_their_number(t: String, p: Picture)
    requires
        t@.len() > 0,
    ensures
        probed(Some(t), None, None) matches Some((_, n)) && write_mark(ClipWrite::Text(t)) == Some(
            n,
        ),
        probed(None, Some(p), None) matches Some((_, n)) && write_mark(ClipWrite::Image(p)) == Some(
            n,
        ),
        write_mark(ClipWrite::Nothing) is None,
{
}

/// A change is read in its first format; files only where files are exchanged.
pub proof fn law_changes_are_read_in_their_first_format(first: ClipFormat, rest: Seq<ClipFormat>, files: bool)
    ensures
        first != ClipFormat::FileList ==> to_read(seq![first] + rest, files) == ToRead::Format(first),
        first == ClipFormat::FileList && files ==> to_read(seq![first] + rest, files) is Files,
        first == ClipFormat::FileList && !files ==> to_read(seq![first] + rest, files) is Nothing,
        to_read(Seq::empty(), files) is Nothing,
{
    assert((seq![first] + rest)[0] == first);
}

} // verus!
