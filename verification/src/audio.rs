//! Forwarding sound: which machine records and which one plays, and what travels
//! between them.
//!
//! A sample is the bit pattern of a single-precision number.

use crate::config::AudioProfile;
use crate::jitter::{depth, is_first, JitterBuffer, JitterState, Played, Pop};
use crate::message::{AudioControl, AudioFrame, StreamTag};
use crate::pairing::le32_value;
use crate::pump::next_seq;
use vstd::prelude::*;

verus! {

/// Why sound cannot be recorded, played or coded.
#[derive(Debug)]
pub enum AudioError {
    NoBackend,
    NoDevice(String),
    Codec(String),
    Backend(String),
}

/// A device to record from or to play on.
#[derive(Debug)]
pub struct AudioDevice {
    pub id: String,
    pub label: String,
    pub is_default: bool,
}

/// The list says that the name is that of a device, and whether it is the usual
/// one.
pub open spec fn describes(d: AudioDevice, name: Seq<char>, usual: Option<String>) -> bool {
    &&& d.id@ == name
    &&& d.label@ == name
    &&& d.is_default == (usual matches Some(u) && u@ == name)
}

/// The devices of these names.
pub fn named_devices(names: &Vec<String>, usual: &Option<String>) -> (ds: Vec<AudioDevice>)
    ensures
        ds@.len() == names@.len(),
        forall|i: int| 0 <= i < ds@.len() ==> describes(#[trigger] ds@[i], names@[i]@, *usual),
{
    let mut ds: Vec<AudioDevice> = Vec::new();
    let mut i: usize = 0;
    while i < names.len()
        invariant
            0 <= i <= names.len(),
            ds@.len() == i,
            forall|j: int| 0 <= j < i ==> describes(#[trigger] ds@[j], names@[j]@, *usual),
        decreases names.len() - i,
    {
        let is_default = match usual {
            Some(u) => *u == names[i],
            None => false,
        };
        ds.push(AudioDevice { id: names[i].clone(), label: names[i].clone(), is_default });
        i = i + 1;
    }
    ds
}

/// The devices to choose from: those that were found, or one that stands for the
/// usual device of the system.
pub fn or_default(found: Vec<AudioDevice>) -> (ds: Vec<AudioDevice>)
    ensures
        found@.len() > 0 ==> ds == found,
        found@.len() == 0 ==> {
            &&& ds@.len() == 1
            &&& ds@[0].id@ == "default"@
            &&& ds@[0].label@ == "System default"@
            &&& ds@[0].is_default
        },
{
    if found.len() > 0 {
        return found;
    }
    vec![
        AudioDevice {
            id: "default".to_owned(),
            label: "System default".to_owned(),
            is_default: true,
        },
    ]
}

/// The device that a configuration names; none is the usual one.
pub fn device_choice(name: &String) -> (r: Option<String>)
    ensures
        r == if name@ == "default"@ {
            None
        } else {
            Some(*name)
        },
{
    let usual = "default".to_owned();
    if *name == usual {
        None
    } else {
        Some(name.clone())
    }
}

/// The name is the `i`-th of the list, and of none before.
pub open spec fn is_first_name(names: Seq<Option<String>>, want: Seq<char>, i: int) -> bool {
    &&& 0 <= i < names.len()
    &&& names[i] matches Some(n) && n@ == want
    &&& forall|j: int|
        0 <= j < i ==> !(#[trigger] names[j] matches Some(n) && n@ == want)
}

/// The answer to the question which device to open.
pub open spec fn is_device_found(
    names: Seq<Option<String>>,
    has_usual: bool,
    want: Option<&String>,
    r: Result<Option<usize>, AudioError>,
) -> bool {
    match (want, r) {
        (Some(w), Ok(Some(i))) => is_first_name(names, w@, i as int),
        (Some(w), Err(AudioError::NoDevice(n))) => {
            &&& n@ == w@
            &&& forall|j: int|
                0 <= j < names.len() ==> !(#[trigger] names[j] matches Some(n) && n@ == w@)
        },
        (None, Ok(None)) => has_usual,
        (None, Err(AudioError::NoBackend)) => !has_usual,
        _ => false,
    }
}

/// Which device to open: the first of the name that was asked for, or the usual
/// one. A device whose name cannot be told is none that was asked for.
pub fn find_device(names: &Vec<Option<String>>, has_usual: bool, want: Option<&String>) -> (r:
    Result<Option<usize>, AudioError>)
    ensures
        is_device_found(names@, has_usual, want, r),
{
    match want {
        Some(w) => {
            let mut i: usize = 0;
            while i < names.len()
                invariant
                    0 <= i <= names.len(),
                    want == Some(w),
                    forall|j: int|
                        0 <= j < i ==> !(#[trigger] names@[j] matches Some(n) && n@ == w@),
                decreases names.len() - i,
            {
                if let Some(n) = &names[i] {
                    if *n == *w {
                        return Ok(Some(i));
                    }
                }
                i = i + 1;
            }
            Err(AudioError::NoDevice(w.clone()))
        },
        None => if has_usual {
            Ok(None)
        } else {
            Err(AudioError::NoBackend)
        },
    }
}

/// What a machine does with sound in a session.
#[derive(Clone, Copy, Debug, PartialEq, Eq, Structural)]
pub enum AudioRole {
    /// It records what it plays, and sends it.
    Source,
    /// It plays what the peer sends.
    Sink,
    Idle,
}

/// What a machine does with sound, by whether it and its peer forward theirs.
pub open spec fn role_of(forward: bool, peer_forwards: bool) -> AudioRole {
    if forward {
        AudioRole::Source
    } else if peer_forwards {
        AudioRole::Sink
    } else {
        AudioRole::Idle
    }
}

/// Sound goes one way: a machine that forwards its own does not play the peer's.
pub fn audio_role(forward: bool, peer_forwards: bool) -> (r: AudioRole)
    ensures
        r == role_of(forward, peer_forwards),
{
    if forward {
        AudioRole::Source
    } else if peer_forwards {
        AudioRole::Sink
    } else {
        AudioRole::Idle
    }
}

// --- Sending -----------------------------------------------------------------

/// A stream that is sent: its name, and the number of the next frame.
#[derive(Clone, Copy, Debug, PartialEq, Eq, Structural)]
pub struct AudioSource {
    pub tag: StreamTag,
    pub seq: u32,
}

impl AudioSource {
    pub fn new(tag: StreamTag) -> (s: Self)
        ensures
            s == (AudioSource { tag, seq: 0 }),
    {
        AudioSource { tag, seq: 0 }
    }

    /// Announces the stream.
    pub fn start(&self, profile: AudioProfile, sample_rate: u32, channels: u8, frame_us: u32) -> (m:
        AudioControl)
        ensures
            m == (AudioControl::Start { tag: self.tag, profile, sample_rate, channels, frame_us }),
    {
        AudioControl::Start { tag: self.tag, profile, sample_rate, channels, frame_us }
    }

    /// The frame of a packet; the number after the last is 0.
    pub fn frame(&mut self, opus: Vec<u8>) -> (f: AudioFrame)
        ensures
            f == (AudioFrame { tag: old(self).tag, seq: old(self).seq, opus }),
            *final(self) == (AudioSource { seq: next_seq(old(self).seq), ..*old(self) }),
    {
        let seq: u32 = self.seq;
        self.seq = if seq == u32::MAX {
            0
        } else {
            seq + 1
        };
        AudioFrame { tag: self.tag, seq, opus }
    }

    /// Announces the end of the stream.
    pub fn stop(&self) -> (m: AudioControl)
        ensures
            m == (AudioControl::Stop { tag: self.tag }),
    {
        AudioControl::Stop { tag: self.tag }
    }
}

// --- Receiving ---------------------------------------------------------------

/// A stream that is played.
pub struct AudioSink {
    pub jitter: JitterBuffer,
}

/// How a stream that is to be played begins.
pub enum Begin {
    /// The peer announced it, in this form.
    Ready { sink: AudioSink, sample_rate: u32, channels: u8, profile: AudioProfile },
    /// The peer said something else.
    Unexpected,
    /// The peer is gone.
    Ended,
}

/// Reads the announcement of a stream. The profile says how much to collect
/// before playing.
pub fn begin(msg: Option<AudioControl>) -> (b: Begin)
    ensures
        match msg {
            Some(AudioControl::Start { tag, profile, sample_rate, channels, frame_us }) => {
                &&& b matches Begin::Ready { sink, sample_rate: r, channels: c, profile: p }
                &&& r == sample_rate
                &&& c == channels
                &&& p == profile
                &&& sink.jitter.wf()
                &&& sink.jitter@ == (JitterState {
                    target: depth(profile),
                    next_seq: 0,
                    pending: Map::empty(),
                    started: false,
                })
            },
            Some(_) => b is Unexpected,
            None => b is Ended,
        },
{
    match msg {
        Some(AudioControl::Start { profile, sample_rate, channels, .. }) => {
            let jitter = JitterBuffer::new(JitterBuffer::depth_for(profile));
            Begin::Ready { sink: AudioSink { jitter }, sample_rate, channels, profile }
        },
        Some(_) => Begin::Unexpected,
        None => Begin::Ended,
    }
}

impl AudioSink {
    /// A frame has come: it is put in its place, and one frame is played.
    pub fn on_frame(&mut self, f: AudioFrame) -> (p: Pop)
        requires
            old(self).jitter.wf(),
        ensures
            final(self).jitter.wf(),
            (final(self).jitter@, p@) == old(self).jitter@.after_push(f.seq, f.opus@).after_pop(),
    {
        self.jitter.push(f.seq, f.opus);
        self.jitter.pop()
    }

    /// Whether a message ends the stream. The end of the channel does.
    pub fn ends(msg: &Option<AudioControl>) -> (b: bool)
        ensures
            b == !(*msg matches Some(AudioControl::Start { tag, profile, sample_rate, channels, frame_us })),
    {
        match msg {
            Some(AudioControl::Start { .. }) => false,
            _ => true,
        }
    }

    /// Plays what is left, a frame at a time; none once nothing waits, or where
    /// playing has not begun.
    pub fn drain(&mut self) -> (r: Option<Pop>)
        requires
            old(self).jitter.wf(),
        ensures
            final(self).jitter.wf(),
            ({
                let before = old(self).jitter@;
                let over = before.pending.dom().len() == 0 || before.after_pop().1 is Underrun;
                match r {
                    Some(p) => !over && (final(self).jitter@, p@) == before.after_pop(),
                    None => over && final(self).jitter@ == before,
                }
            }),
    {
        if self.jitter.buffered() == 0 {
            return None;
        }
        match self.jitter.pop() {
            Pop::Underrun => None,
            p => Some(p),
        }
    }
}

/// What is played, and the state after, when the first `n` frames of a stream come
/// in order.
pub open spec fn fed(s: JitterState, frames: Seq<Seq<u8>>, n: nat) -> (JitterState, Seq<Played>)
    decreases n,
{
    if n == 0 {
        (s, Seq::empty())
    } else {
        let (before, ps) = fed(s, frames, (n - 1) as nat);
        let (after, p) = before.after_push((n - 1) as u32, frames[n - 1]).after_pop();
        (after, ps.push(p))
    }
}

/// The frames from `lo` on, up to `n`, wait.
spec fn wait_from(m: Map<u32, Seq<u8>>, frames: Seq<Seq<u8>>, lo: int, n: int) -> bool {
    &&& m.dom().finite()
    &&& m.dom().len() == n - lo
    &&& forall|k: u32| #[trigger] m.dom().contains(k) == (lo <= k < n)
    &&& forall|k: u32| #[trigger] m.dom().contains(k) ==> m[k] == frames[k as int]
}

proof fn lemma_fed(s: JitterState, frames: Seq<Seq<u8>>, n: nat)
    requires
        !s.started,
        s.pending == Map::<u32, Seq<u8>>::empty(),
        s.target >= 1,
        n <= frames.len() <= u32::MAX,
    ensures
        ({
            let (t, ps) = fed(s, frames, n);
            &&& t.target == s.target
            &&& ps.len() == n
            &&& forall|i: int|
                0 <= i < n ==> #[trigger] ps[i] == if i + 1 < s.target {
                    Played::Underrun
                } else {
                    Played::Packet(frames[i + 1 - s.target])
                }
            &&& if n < s.target {
                !t.started && wait_from(t.pending, frames, 0, n as int)
            } else {
                t.started && t.next_seq == n + 1 - s.target && wait_from(
                    t.pending,
                    frames,
                    n + 1 - s.target,
                    n as int,
                )
            }
        }),
    decreases n,
{
    if n == 0 {
        assert(s.pending.dom() =~= Set::<u32>::empty());
    } else {
        let m = (n - 1) as nat;
        lemma_fed(s, frames, m);
        let (b, ps) = fed(s, frames, m);
        let lo = if m < s.target {
            0int
        } else {
            m + 1 - s.target
        };
        let seq = m as u32;
        let pushed = b.after_push(seq, frames[m as int]);
        assert(pushed.pending == b.pending.insert(seq, frames[m as int]));
        assert(!b.pending.dom().contains(seq));
        assert(pushed.pending.dom() =~= b.pending.dom().insert(seq));
        assert(wait_from(pushed.pending, frames, lo, n as int));
        let (after, p) = pushed.after_pop();
        if n >= s.target {
            let first = lo as u32;
            if !pushed.started {
                assert(pushed.pending.dom().contains(first));
                assert(is_first(pushed.pending, first));
                let c = choose|c: u32| is_first(pushed.pending, c);
                assert(is_first(pushed.pending, c));
                assert(c == first);
            }
            assert(pushed.due() == first);
            assert(pushed.pending.dom().contains(first));
            assert(after.pending.dom() =~= pushed.pending.dom().remove(first));
            assert(wait_from(after.pending, frames, lo + 1, n as int));
        }
    }
}

/// A stream whose frames come in order is played in order, without a gap: once
/// enough is collected, each frame that comes in has the one that is due played.
pub proof fn law_streams_in_order_play_in_order(s: JitterState, frames: Seq<Seq<u8>>, i: int)
    requires
        !s.started,
        s.pending == Map::<u32, Seq<u8>>::empty(),
        s.target >= 1,
        0 <= i < frames.len() <= u32::MAX,
    ensures
        fed(s, frames, frames.len()).1.len() == frames.len(),
        fed(s, frames, frames.len()).1[i] == if i + 1 < s.target {
            Played::Underrun
        } else {
            Played::Packet(frames[i + 1 - s.target])
        },
{
    lemma_fed(s, frames, frames.len());
}

// --- Coding ------------------------------------------------------------------

/// The codec that codes nothing: each sample as its four bytes, the least
/// significant first.
#[derive(Clone, Copy, Debug, PartialEq, Eq, Structural)]
pub struct PassthroughCodec;

/// The bytes of the first `n` samples.
pub open spec fn sample_bytes(pcm: Seq<u32>, n: int) -> Seq<u8>
    decreases n,
{
    if n <= 0 {
        Seq::empty()
    } else {
        sample_bytes(pcm, n - 1) + crate::ipc::le32(pcm[n - 1] as nat)
    }
}

/// The first `n` samples that the bytes spell.
pub open spec fn samples_of(b: Seq<u8>, n: int) -> Seq<u32>
    decreases n,
{
    if n <= 0 {
        Seq::empty()
    } else {
        samples_of(b, n - 1).push(le32_value(b.subrange(4 * (n - 1), 4 * n)) as u32)
    }
}

impl PassthroughCodec {
    pub fn encode(&self, pcm: &[u32]) -> (out: Vec<u8>)
        ensures
            out@ == sample_bytes(pcm@, pcm@.len() as int),
    {
        let mut out: Vec<u8> = Vec::new();
        let mut i: usize = 0;
        while i < pcm.len()
            invariant
                0 <= i <= pcm.len(),
                out@ == sample_bytes(pcm@, i as int),
            decreases pcm.len() - i,
        {
            let s: u32 = pcm[i];
            out.push((s % 0x100) as u8);
            out.push((s / 0x100 % 0x100) as u8);
            out.push((s / 0x1_0000 % 0x100) as u8);
            out.push((s / 0x100_0000) as u8);
            assert(out@ =~= sample_bytes(pcm@, i as int) + crate::ipc::le32(s as nat));
            i = i + 1;
        }
        out
    }

    /// The samples of a packet; up to three bytes at its end are left out.
    pub fn decode(&self, packet: &[u8]) -> (out: Vec<u32>)
        ensures
            out@ == samples_of(packet@, packet@.len() as int / 4),
    {
        let mut out: Vec<u32> = Vec::new();
        let n: usize = packet.len() / 4;
        let mut i: usize = 0;
        while i < n
            invariant
                0 <= i <= n,
                n == packet@.len() / 4,
                4 * n <= packet@.len(),
                packet@.len() == packet.len(),
                out@ == samples_of(packet@, i as int),
            decreases n - i,
        {
            let k: usize = i * 4;
            let s: u32 = packet[k] as u32 + packet[k + 1] as u32 * 0x100 + packet[k + 2] as u32
                * 0x1_0000 + packet[k + 3] as u32 * 0x100_0000;
            proof {
                let part = packet@.subrange(4 * i as int, 4 * (i + 1));
                assert(part[0] == packet@[k as int] && part[1] == packet@[k + 1] && part[2]
                    == packet@[k + 2] && part[3] == packet@[k + 3]);
                assert(s == le32_value(part));
            }
            out.push(s);
            i = i + 1;
        }
        out
    }

    /// Silence for a frame that is missing, as long as the one in `out`.
    pub fn conceal(&self, out: &mut Vec<u32>)
        ensures
            final(out)@.len() == old(out)@.len(),
            forall|i: int| 0 <= i < final(out)@.len() ==> final(out)@[i] == 0,
    {
        let mut i: usize = 0;
        while i < out.len()
            invariant
                0 <= i <= out.len(),
                out@.len() == old(out)@.len(),
                forall|j: int| 0 <= j < i ==> out@[j] == 0,
            decreases out.len() - i,
        {
            out.set(i, 0);
            i = i + 1;
        }
    }
}

proof fn lemma_sample_bytes(pcm: Seq<u32>, n: int)
    requires
        0 <= n <= pcm.len(),
    ensures
        sample_bytes(pcm, n).len() == 4 * n,
    decreases n,
{
    if n > 0 {
        lemma_sample_bytes(pcm, n - 1);
    }
}

proof fn lemma_samples_prefix(a: Seq<u8>, b: Seq<u8>, n: int)
    requires
        0 <= 4 * n <= a.len(),
        a.len() <= b.len(),
        b.subrange(0, a.len() as int) == a,
    ensures
        samples_of(a, n) == samples_of(b, n),
    decreases n,
{
    if n > 0 {
        lemma_samples_prefix(a, b, n - 1);
        assert(b.subrange(4 * (n - 1), 4 * n) =~= b.subrange(0, a.len() as int).subrange(
            4 * (n - 1),
            4 * n,
        ));
    }
}

proof fn lemma_samples_read_back(pcm: Seq<u32>, n: int)
    requires
        0 <= n <= pcm.len(),
    ensures
        samples_of(sample_bytes(pcm, n), n) == pcm.subrange(0, n),
    decreases n,
{
    if n > 0 {
        lemma_samples_read_back(pcm, n - 1);
        lemma_sample_bytes(pcm, n - 1);
        lemma_sample_bytes(pcm, n);
        let a = sample_bytes(pcm, n - 1);
        let b = sample_bytes(pcm, n);
        assert(b.subrange(0, a.len() as int) =~= a);
        lemma_samples_prefix(a, b, n - 1);
        let s = pcm[n - 1] as nat;
        let part = b.subrange(4 * (n - 1), 4 * n);
        assert(part =~= crate::ipc::le32(s));
        assert(s == s % 0x100 + s / 0x100 % 0x100 * 0x100 + s / 0x1_0000 % 0x100 * 0x1_0000 + s
            / 0x100_0000 * 0x100_0000);
        assert(le32_value(part) == s);
        assert(pcm.subrange(0, n) =~= pcm.subrange(0, n - 1).push(pcm[n - 1]));
    } else {
        assert(pcm.subrange(0, 0) =~= Seq::<u32>::empty());
    }
}

/// What passes through the codec that codes nothing comes out unchanged.
pub proof fn law_samples_pass_through(pcm: Seq<u32>)
    ensures
        ({
            let packet = sample_bytes(pcm, pcm.len() as int);
            samples_of(packet, packet.len() as int / 4) == pcm
        }),
{
    let n = pcm.len() as int;
    lemma_sample_bytes(pcm, n);
    lemma_samples_read_back(pcm, n);
    assert(pcm.subrange(0, n) =~= pcm);
}

/// How the coder is set up.
#[derive(Clone, Copy, Debug, PartialEq, Eq, Structural)]
pub struct CoderSetup {
    /// A rate that the coder knows.
    pub rate_hz: u32,
    pub channels: u8,
    /// Made for speech rather than for music.
    pub speech: bool,
    /// The most samples that a frame can hold, for each channel: 120 ms.
    pub max_frame: u32,
}

/// The rate at which the coder runs.
pub open spec fn coder_rate(hz: u32) -> u32 {
    if hz == 8000 || hz == 12000 || hz == 16000 || hz == 24000 {
        hz
    } else {
        48000
    }
}

/// The set-up of the coder for a stream.
pub open spec fn set_up(sample_rate: u32, channels: u8, profile: AudioProfile) -> CoderSetup {
    CoderSetup {
        rate_hz: coder_rate(sample_rate),
        channels: if channels <= 1 {
            1
        } else {
            2
        },
        speech: profile == AudioProfile::LowLatency,
        max_frame: (sample_rate / 1000 * 120) as u32,
    }
}

/// Sets the coder up for a stream.
pub fn coder_setup(sample_rate: u32, channels: u8, profile: AudioProfile) -> (c: CoderSetup)
    ensures
        c == set_up(sample_rate, channels, profile),
{
    let rate_hz: u32 = if sample_rate == 8000 || sample_rate == 12000 || sample_rate == 16000
        || sample_rate == 24000 {
        sample_rate
    } else {
        48000
    };
    let ch: u8 = if channels <= 1 {
        1
    } else {
        2
    };
    CoderSetup {
        rate_hz,
        channels: ch,
        speech: profile == AudioProfile::LowLatency,
        max_frame: sample_rate / 1000 * 120,
    }
}

/// The most samples that wait to be played: a second of stereo.
pub const MAX_QUEUED: usize = 96_000;

/// How many samples are too many.
pub open spec fn excess(queued: int) -> int {
    if queued > MAX_QUEUED {
        queued - MAX_QUEUED
    } else {
        0
    }
}

/// How many of the oldest samples are dropped before more are queued.
pub fn overflow(queued: usize) -> (n: usize)
    ensures
        n == excess(queued as int),
{
    if queued > MAX_QUEUED {
        queued - MAX_QUEUED
    } else {
        0
    }
}

/// How the samples of a recorded packet are to be read.
#[derive(Clone, Copy, Debug, PartialEq, Eq, Structural)]
pub enum PacketForm {
    Silence,
    Float32,
    Int16,
    /// In no form that is known: the packet is left out.
    Unknown,
}

/// The form of a recorded packet.
pub open spec fn form_of(silent: bool, bits: u16, has_data: bool) -> PacketForm {
    if silent {
        PacketForm::Silence
    } else if bits == 32 && has_data {
        PacketForm::Float32
    } else if bits == 16 && has_data {
        PacketForm::Int16
    } else {
        PacketForm::Unknown
    }
}

/// How the samples of a recorded packet are to be read, by its flag for silence,
/// the bits of a sample, and whether there is data at all.
pub fn packet_form(silent: bool, bits: u16, has_data: bool) -> (f: PacketForm)
    ensures
        f == form_of(silent, bits, has_data),
{
    if silent {
        PacketForm::Silence
    } else if bits == 32 && has_data {
        PacketForm::Float32
    } else if bits == 16 && has_data {
        PacketForm::Int16
    } else {
        PacketForm::Unknown
    }
}

/// The roles of the two machines go together: of two that forward, neither plays; where
/// one forwards, it sends and the other plays; and where none does, both are idle.
pub proof fn law_roles_go_together(a: bool, b: bool)
    ensures
        a ==> role_of(a, b) == AudioRole::Source,
        role_of(a, b) == AudioRole::Sink <==> !a && b,
        role_of(a, b) == AudioRole::Sink ==> role_of(b, a) == AudioRole::Source,
        role_of(a, b) == AudioRole::Idle <==> !a && !b,
{
}

/// The coder runs at the rate of the stream where it knows that rate, and else at the
/// highest; in mono for one channel and in stereo for more; made for speech exactly for
/// low latency; and a frame holds up to 120 ms.
pub proof fn law_the_coder_suits_the_stream(rate: u32, channels: u8, profile: AudioProfile)
    ensures
        ({
            let c = set_up(rate, channels, profile);
            &&& c.rate_hz == 8000 || c.rate_hz == 12000 || c.rate_hz == 16000 || c.rate_hz == 24000
                || c.rate_hz == 48000
            &&& rate == 8000 || rate == 12000 || rate == 16000 || rate == 24000 || rate == 48000
                ==> c.rate_hz == rate
            &&& c.rate_hz != rate ==> c.rate_hz == 48000
            &&& c.channels == 1 <==> channels <= 1
            &&& c.channels == 2 <==> channels >= 2
            &&& c.speech <==> profile == AudioProfile::LowLatency
            &&& rate % 1000 == 0 && rate <= 192_000 ==> c.max_frame * 1000 == rate * 120
        }),
{
}

/// After the oldest samples are dropped no more than a second of stereo is left, and
/// nothing is dropped that could stay.
pub proof fn law_the_queue_holds_a_second(queued: int)
    requires
        queued >= 0,
    ensures
        0 <= excess(queued) <= queued,
        queued - excess(queued) <= 2 * 48_000,
        excess(queued) > 0 ==> queued - excess(queued) == 2 * 48_000,
{
}

/// Silence is told by the flag alone; anything else is read by the bits of its samples,
/// as whole numbers of 16 or broken ones of 32, and only where there is data.
pub proof fn law_packets_are_read_by_their_bits(silent: bool, bits: u16, has_data: bool)
    ensures
        form_of(silent, bits, has_data) == PacketForm::Silence <==> silent,
        form_of(silent, bits, has_data) == PacketForm::Float32 <==> !silent && has_data && bits
            == 32,
        form_of(silent, bits, has_data) == PacketForm::Int16 <==> !silent && has_data && bits == 16,
{
}

/// The device that was asked for is opened, the first of its name; where none has it, none
/// is, not even the usual one. Where none was asked for, the usual one is, if there is one.
pub proof fn law_the_device_asked_for_is_opened(
    names: Seq<Option<String>>,
    has_usual: bool,
    want: Option<&String>,
    r: Result<Option<usize>, AudioError>,
    k: int,
)
    requires
        is_device_found(names, has_usual, want, r),
        0 <= k < names.len() <= usize::MAX,
        forall|j: int|
            0 <= j < k && want is Some ==> match #[trigger] names[j] {
                Some(n) => n@ != want->0@,
                None => true,
            },
    ensures
        want is Some && names[k] is Some && names[k]->0@ == want->0@ ==> r == Ok::<
            Option<usize>,
            AudioError,
        >(Some(k as usize)),
        want is Some ==> r != Ok::<Option<usize>, AudioError>(None),
        want is None ==> (r == Ok::<Option<usize>, AudioError>(None) <==> has_usual),
        want is None ==> (r is Err <==> !has_usual),
{
    if want is Some && names[k] is Some && names[k]->0@ == want->0@ {
        let w = want->0;
        if let Ok(Some(i)) = r {
            assert(is_first_name(names, w@, i as int));
            assert(names[i as int] is Some && names[i as int]->0@ == w@);
            assert(i == k);
        }
    }
}

} // verus!
