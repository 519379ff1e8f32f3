//! The messages that two daemons exchange, channel by channel.

use crate::config::AudioProfile;
use crate::geometry::Point;
use crate::ids::DeviceId;
use crate::input::{InputEvent, Modifiers};
use crate::layout::VirtualDesktop;
use vstd::prelude::*;

verus! {

/// The logical channels of one session.
#[derive(Clone, Copy, Debug, PartialEq, Eq, Structural)]
pub enum Channel {
    Control,
    Input,
    Clipboard,
    FileXfer,
    Audio,
}

#[derive(Clone, Copy, Debug, PartialEq, Eq, Structural)]
pub struct ProtocolVersion {
    pub major: u16,
    pub minor: u16,
}

impl ProtocolVersion {
    /// The version that this library speaks.
    pub fn current() -> (v: Self)
        ensures
            v == (ProtocolVersion { major: 1, minor: 0 }),
    {
        ProtocolVersion { major: 1, minor: 0 }
    }
}

/// Names one file transfer or one clipboard pull within a session.
pub type StreamTag = u64;

/// The control channel.
#[derive(Debug)]
pub enum Control {
    /// The first message, in both directions.
    Hello {
        version: ProtocolVersion,
        device: DeviceId,
        name: String,
        /// The monitors of the sender.
        monitors: VirtualDesktop,
        capabilities: Capabilities,
    },
    /// A probe; [`Control::Pong`] carries the nonce back.
    Ping { nonce: u64 },
    Pong { nonce: u64 },
    /// A new arrangement of the whole desktop.
    LayoutUpdate { layout: VirtualDesktop },
    /// The sender is about to close.
    Goodbye { reason: String },
    /// Something went wrong, and the session goes on.
    Error { code: ErrorCode, detail: String },
}

#[derive(Clone, Copy, Debug, PartialEq, Eq, Structural)]
pub struct Capabilities {
    pub clipboard_text: bool,
    pub clipboard_images: bool,
    pub clipboard_files: bool,
    pub file_transfer: bool,
    pub audio_forward: bool,
}

#[derive(Clone, Copy, Debug, PartialEq, Eq, Structural)]
pub enum ErrorCode {
    Protocol,
    Unauthorized,
    Busy,
    Internal,
}

/// The input channel.
#[derive(Debug)]
pub enum Input {
    /// The receiver takes the cursor at `entry`, with these modifiers held.
    Enter { entry: Point, mods: Modifiers },
    /// The receiver gives the cursor back.
    Leave,
    /// Events to inject.
    Events { seq: u32, events: Vec<InputEvent> },
    /// Everything up to `seq` was injected.
    Ack { seq: u32 },
}

/// The clipboard channel.
#[derive(Debug)]
pub enum Clipboard {
    /// The sender's clipboard changed and can be had in these formats. A small
    /// payload travels along.
    Offer { seq: u64, formats: Vec<ClipFormat>, inline: Option<ClipPayload> },
    /// Asks for one format of the latest offer.
    Pull { seq: u64, format: ClipFormat, tag: StreamTag },
    /// The answer to a pull.
    Data { tag: StreamTag, payload: ClipPayload },
    /// The answer to a pull follows on a stream of its own.
    DataStream { tag: StreamTag, format: ClipFormat, len: u64 },
}

#[derive(Clone, Copy, Debug, PartialEq, Eq, Structural)]
pub enum ClipFormat {
    Utf8Text,
    Html,
    Png,
    /// Files and folders; their bytes travel as a file transfer.
    FileList,
}

#[derive(Debug)]
pub enum ClipPayload {
    Text(String),
    Html(String),
    Bytes(Vec<u8>),
    /// What the files are; their bytes are fetched one by one.
    Files(Vec<FileEntry>),
}

/// The file-transfer channel.
#[derive(Debug)]
pub enum FileXfer {
    Offer { tag: StreamTag, manifest: Manifest },
    /// Accepts, each file from an offset on.
    Accept { tag: StreamTag, resume: Vec<FileResume> },
    Reject { tag: StreamTag, reason: String },
    /// Bytes of one file.
    Chunk { tag: StreamTag, file_index: u32, offset: u64, data: Vec<u8> },
    Progress { tag: StreamTag, file_index: u32, bytes_done: u64 },
    Complete { tag: StreamTag },
    Cancel { tag: StreamTag, reason: String },
}

/// What a stream of its own is for; its first frame.
#[derive(Clone, Copy, Debug, PartialEq, Eq, Structural)]
pub enum StreamPurpose {
    FileTransfer,
    /// Files for the receiver's clipboard.
    ClipboardFiles,
    /// One large clipboard payload.
    ClipboardData { tag: StreamTag },
}

/// What a transfer consists of.
#[derive(Debug)]
pub struct Manifest {
    pub files: Vec<FileEntry>,
    pub total_bytes: u64,
}

#[derive(Debug)]
pub struct FileEntry {
    /// The path below the root of the transfer, with forward slashes.
    pub rel_path: String,
    pub size: u64,
    pub is_dir: bool,
    /// Seconds since the epoch.
    pub mtime: Option<u64>,
    /// Permission bits.
    pub mode: Option<u32>,
    /// BLAKE3 of the contents.
    pub hash: Option<[u8; 32]>,
}

#[derive(Clone, Copy, Debug, PartialEq, Eq, Structural)]
pub struct FileResume {
    pub file_index: u32,
    pub offset: u64,
}

/// Control of an audio stream.
#[derive(Debug)]
pub enum AudioControl {
    /// Frames with this tag follow.
    Start {
        tag: StreamTag,
        profile: AudioProfile,
        sample_rate: u32,
        channels: u8,
        /// The duration of a frame in microseconds.
        frame_us: u32,
    },
    Stop { tag: StreamTag },
}

/// One encoded packet of audio.
#[derive(Debug)]
pub struct AudioFrame {
    pub tag: StreamTag,
    /// The place of the packet in its stream.
    pub seq: u32,
    pub opus: Vec<u8>,
}

} // verus!
