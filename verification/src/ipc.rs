//! The control channel between the daemon and the tray or the command line: what
//! is asked and answered, and how it is framed.

use crate::layout::VirtualDesktop;
use crate::message::StreamTag;
use crate::pairing::le32_value;
use vstd::prelude::*;

verus! {

/// What the tray asks of the daemon.
#[derive(Debug)]
pub enum UiRequest {
    Status,
    /// An empty address opens the window in which this device can be paired; any
    /// other is dialled.
    Pair { addr: String },
    /// Whether the two codes are the same.
    PairConfirm { accept: bool },
    PairStatus,
    /// Gives up pairing, closes the window, dismisses a result.
    PairCancel,
    /// The devices nearby that wait to be paired.
    DiscoveredPeers,
    /// Forgets a paired device, by its name.
    Forget { device: String },
    /// The monitors of both machines, and how they are arranged.
    Arrangement { peer: String },
    /// A new arrangement with a peer.
    SetLayout { peer: String, layout: VirtualDesktop },
    /// Switches a feature on or off while the daemon runs.
    SetFeature { feature: Feature, enabled: bool },
}

#[derive(Clone, Copy, Debug, PartialEq, Eq, Structural)]
pub enum Feature {
    ClipboardSync,
    AudioForward,
    InputSharing,
}

/// Which features are switched on.
#[derive(Clone, Copy, Debug, PartialEq, Eq, Structural)]
pub struct Features {
    pub input: bool,
    pub clipboard: bool,
    pub audio: bool,
}

impl Features {
    /// The feature is switched on.
    pub open spec fn on(self, f: Feature) -> bool {
        match f {
            Feature::InputSharing => self.input,
            Feature::ClipboardSync => self.clipboard,
            Feature::AudioForward => self.audio,
        }
    }

    /// With one feature switched on or off.
    pub open spec fn with(self, f: Feature, enabled: bool) -> Features {
        match f {
            Feature::InputSharing => Features { input: enabled, ..self },
            Feature::ClipboardSync => Features { clipboard: enabled, ..self },
            Feature::AudioForward => Features { audio: enabled, ..self },
        }
    }

    /// Whether the feature is switched on.
    pub fn allows(&self, f: Feature) -> (b: bool)
        ensures
            b == self.on(f),
    {
        match f {
            Feature::InputSharing => self.input,
            Feature::ClipboardSync => self.clipboard,
            Feature::AudioForward => self.audio,
        }
    }

    /// Switches one feature on or off.
    pub fn set(&mut self, f: Feature, enabled: bool)
        ensures
            *final(self) == old(self).with(f, enabled),
    {
        match f {
            Feature::InputSharing => {
                self.input = enabled;
            },
            Feature::ClipboardSync => {
                self.clipboard = enabled;
            },
            Feature::AudioForward => {
                self.audio = enabled;
            },
        }
    }
}

/// What the daemon answers.
#[allow(inconsistent_fields)]
#[derive(Debug)]
pub enum UiEvent {
    Status {
        device_name: String,
        device_id: String,
        peers: Vec<PeerStatus>,
        /// A session is running.
        active: bool,
        port: u16,
        /// Where this device can be dialled.
        addrs: Vec<String>,
        monitors: Vec<MonitorView>,
    },
    Pairing { phase: String, sas: String, peer: String },
    Discovered { peers: Vec<DiscoveredPeer> },
    Arrangement {
        peer: String,
        own: Vec<MonitorView>,
        theirs: Vec<MonitorView>,
        layout: VirtualDesktop,
    },
    /// How far a transfer is.
    TransferProgress { tag: StreamTag, name: String, done: u64, total: u64, bytes_per_sec: u64 },
    Notice { level: NoticeLevel, text: String },
}

#[derive(Clone, Copy, Debug, PartialEq, Eq, Structural)]
pub enum NoticeLevel {
    Info,
    Warning,
    Error,
}

/// A device nearby that waits to be paired.
#[derive(Debug)]
pub struct DiscoveredPeer {
    pub name: String,
    /// What to dial.
    pub addr: String,
    /// The short form of its id.
    pub device: String,
    /// It is paired already.
    pub trusted: bool,
}

/// A paired device.
#[derive(Debug)]
pub struct PeerStatus {
    pub name: String,
    pub device: String,
    pub connected: bool,
    pub address: Option<String>,
    pub latency_ms: Option<u32>,
}

/// A monitor as the arranger shows it.
#[derive(Debug)]
pub struct MonitorView {
    /// 0 is this machine, and 1 the peer.
    pub dev: u8,
    pub index: u16,
    pub label: String,
    pub x: i32,
    pub y: i32,
    pub w: i32,
    pub h: i32,
}

/// The longest message that the tray takes.
pub const MAX_CONTROL_LEN: usize = 16_777_216;

/// The four bytes of `n`, the least significant first.
pub open spec fn le32(n: nat) -> Seq<u8> {
    seq![
        (n % 0x100) as u8,
        (n / 0x100 % 0x100) as u8,
        (n / 0x1_0000 % 0x100) as u8,
        (n / 0x100_0000) as u8,
    ]
}

/// A message on the channel: its length, and its bytes.
pub open spec fn control_frame(body: Seq<u8>) -> Seq<u8> {
    le32(body.len()) + body
}

/// A message on the channel: its length, and its bytes.
pub fn write_msg(body: &[u8]) -> (out: Vec<u8>)
    requires
        body@.len() <= 0xffff_ffff,
    ensures
        out@ == control_frame(body@),
{
    let n: usize = body.len();
    let mut out: Vec<u8> = vec![
        (n % 0x100) as u8,
        (n / 0x100 % 0x100) as u8,
        (n / 0x1_0000 % 0x100) as u8,
        (n / 0x100_0000) as u8,
    ];
    let mut rest = vstd::slice::slice_to_vec(body);
    out.append(&mut rest);
    assert(out@ =~= control_frame(body@));
    out
}

/// The length that four bytes announce.
pub fn msg_len(header: &[u8]) -> (n: u32)
    requires
        header@.len() >= 4,
    ensures
        n == le32_value(header@),
{
    header[0] as u32 + header[1] as u32 * 0x100 + header[2] as u32 * 0x1_0000 + header[3] as u32
        * 0x100_0000
}

/// The length that four bytes announce, where it is taken.
pub open spec fn taken_len(header: Seq<u8>) -> Option<usize> {
    if le32_value(header) > MAX_CONTROL_LEN {
        None
    } else {
        Some(le32_value(header) as usize)
    }
}

/// The length that four bytes announce to the tray; none where it is too long to
/// be taken.
pub fn reply_len(header: &[u8]) -> (r: Option<usize>)
    requires
        header@.len() >= 4,
    ensures
        r == taken_len(header@),
{
    let n: u32 = msg_len(header);
    if n as usize > MAX_CONTROL_LEN {
        None
    } else {
        Some(n as usize)
    }
}

/// The name of the pipe that stands for a socket file of this name; there is a
/// name for a path without one.
pub fn pipe_name(file_name: Option<&str>) -> (s: String)
    ensures
        s@ == "\\\\.\\pipe\\"@ + match file_name {
            Some(f) => f@,
            None => "deskorynd.sock"@,
        },
{
    let mut s = "\\\\.\\pipe\\".to_owned();
    match file_name {
        Some(f) => {
            s.append(f);
        },
        None => {
            s.append("deskorynd.sock");
        },
    }
    s
}

/// Whether a client of the pipe tries once more: while every instance is busy, up
/// to forty times.
pub fn tries_again(busy: bool, tries: u32) -> (b: bool)
    ensures
        b == (busy && tries < 40),
{
    busy && tries < 40
}

/// A message that is written is read back: its length stands before it.
pub proof fn law_messages_read_back(body: Seq<u8>)
    requires
        body.len() <= 0xffff_ffff,
    ensures
        control_frame(body).len() == 4 + body.len(),
        le32_value(control_frame(body)) == body.len(),
        control_frame(body).subrange(4, 4 + body.len() as int) == body,
{
    let n = body.len();
    assert(n == n % 0x100 + n / 0x100 % 0x100 * 0x100 + n / 0x1_0000 % 0x100 * 0x1_0000 + n
        / 0x100_0000 * 0x100_0000);
    assert(control_frame(body).subrange(4, 4 + n as int) =~= body);
}

/// Switching a feature changes that one, and no other; each is told by its own switch.
pub proof fn law_features_are_switched_one_by_one(s: Features, f: Feature, g: Feature, enabled: bool)
    ensures
        s.with(f, enabled).on(f) == enabled,
        g != f ==> s.with(f, enabled).on(g) == s.on(g),
        s.on(Feature::InputSharing) == s.input,
        s.on(Feature::ClipboardSync) == s.clipboard,
        s.on(Feature::AudioForward) == s.audio,
{
}

/// The length of a message stands before it in four bytes, the least significant first.
pub proof fn law_lengths_begin_with_the_least_byte(n: nat, s: Seq<u8>)
    requires
        n <= 0xffff_ffff,
        s.len() >= 4,
    ensures
        le32(n).len() == 4,
        le32(n)[0] + 256 * le32(n)[1] + 65_536 * le32(n)[2] + 16_777_216 * le32(n)[3] == n,
        le32_value(s) == s[0] + 256 * s[1] + 65_536 * s[2] + 16_777_216 * s[3],
{
}

/// A message of up to 16 MiB is taken at its length, and a longer one is not.
pub proof fn law_long_messages_are_not_taken(header: Seq<u8>)
    requires
        header.len() >= 4,
    ensures
        ({
            let n = header[0] + 256 * header[1] + 65_536 * header[2] + 16_777_216 * header[3];
            &&& taken_len(header) is Some <==> n <= 16_777_216
            &&& taken_len(header) matches Some(m) ==> m == n
        }),
{
}

} // verus!
