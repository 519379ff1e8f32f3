//! Audio blocks of any size made into frames of one size.
//!
//! A device hands over samples in blocks of its own choosing; the encoder takes
//! frames of a fixed duration.

use crate::config::AudioProfile;
use vstd::prelude::*;

verus! {

/// The duration of a frame in milliseconds.
pub open spec fn millis(profile: AudioProfile) -> int {
    match profile {
        AudioProfile::LowLatency => 10,
        AudioProfile::HighQuality => 20,
    }
}

/// The samples of one frame, over all channels: as many as the duration holds at
/// whole samples per millisecond. There is at least one channel, and at least
/// one sample.
pub open spec fn samples(rate: int, channels: int, profile: AudioProfile) -> int {
    let chans = if channels >= 1 {
        channels
    } else {
        1
    };
    let n = rate / 1000 * millis(profile) * chans;
    if n >= 1 {
        n
    } else {
        1
    }
}

/// The duration of a frame in milliseconds: short for low latency, longer for
/// quality.
pub fn frame_ms(profile: AudioProfile) -> (ms: u32)
    ensures
        ms == millis(profile),
{
    match profile {
        AudioProfile::LowLatency => 10,
        AudioProfile::HighQuality => 20,
    }
}

fn count_samples(rate: u32, channels: u8, profile: AudioProfile) -> (n: u64)
    ensures
        n == samples(rate as int, channels as int, profile),
{
    let chans: u64 = if channels >= 1 {
        channels as u64
    } else {
        1
    };
    let whole: u64 = rate as u64 / 1000;
    let ms: u64 = frame_ms(profile) as u64;
    assert(0 <= whole * ms <= 4_294_967 * 20) by (nonlinear_arith)
        requires
            0 <= whole <= 4_294_967,
            0 <= ms <= 20,
    ;
    let per_channel: u64 = whole * ms;
    assert(0 <= per_channel * chans <= 4_294_967 * 20 * 255) by (nonlinear_arith)
        requires
            0 <= per_channel <= 4_294_967 * 20,
            1 <= chans <= 255,
    ;
    let n: u64 = per_channel * chans;
    if n >= 1 {
        n
    } else {
        1
    }
}

/// Whether the samples of one frame can be counted on this machine.
pub fn frame_fits(rate: u32, channels: u8, profile: AudioProfile) -> (b: bool)
    ensures
        b == (samples(rate as int, channels as int, profile) <= usize::MAX),
{
    count_samples(rate, channels, profile) <= usize::MAX as u64
}

/// The samples of one frame, over all channels.
pub fn frame_len(rate: u32, channels: u8, profile: AudioProfile) -> (n: usize)
    requires
        samples(rate as int, channels as int, profile) <= usize::MAX,
    ensures
        n == samples(rate as int, channels as int, profile),
{
    count_samples(rate, channels, profile) as usize
}

/// Collects samples and gives them out in frames of one length.
pub struct Reframer<T> {
    frame_len: usize,
    buf: Vec<T>,
}

impl<T: Copy> Reframer<T> {
    /// The samples that wait.
    pub closed spec fn waiting(self) -> Seq<T> {
        self.buf@
    }

    /// The length of a frame.
    pub closed spec fn len_of_frame(self) -> int {
        self.frame_len as int
    }

    /// A frame holds at least one sample.
    pub closed spec fn wf(self) -> bool {
        self.frame_len >= 1
    }

    /// Frames of `frame_len` samples, one at least.
    pub fn new(frame_len: usize) -> (r: Self)
        ensures
            r.wf(),
            r.waiting() == Seq::<T>::empty(),
            r.len_of_frame() == if frame_len == 0 {
                1
            } else {
                frame_len as int
            },
    {
        Reframer {
            frame_len: if frame_len == 0 {
                1
            } else {
                frame_len
            },
            buf: Vec::new(),
        }
    }

    /// Frames of the duration that a profile asks for.
    pub fn for_profile(rate: u32, channels: u8, profile: AudioProfile) -> (r: Self)
        requires
            samples(rate as int, channels as int, profile) <= usize::MAX,
        ensures
            r.wf(),
            r.waiting() == Seq::<T>::empty(),
            r.len_of_frame() == samples(rate as int, channels as int, profile),
    {
        Reframer::new(frame_len(rate, channels, profile))
    }

    /// The length of a frame.
    pub fn frame_len(&self) -> (n: usize)
        ensures
            n == self.len_of_frame(),
    {
        self.frame_len
    }

    /// Takes a block of samples in.
    pub fn push(&mut self, block: &[T])
        ensures
            final(self).waiting() == old(self).waiting() + block@,
            final(self).len_of_frame() == old(self).len_of_frame(),
            old(self).wf() ==> final(self).wf(),
    {
        let mut i: usize = 0;
        let ghost before = self.buf@;
        while i < block.len()
            invariant
                0 <= i <= block.len(),
                self.buf@ =~= before + block@.subrange(0, i as int),
                self.frame_len == old(self).frame_len,
            decreases block.len() - i,
        {
            self.buf.push(block[i]);
            i = i + 1;
        }
        assert(block@.subrange(0, block@.len() as int) =~= block@);
    }

    /// Gives out one frame, if enough samples are there.
    pub fn pop(&mut self) -> (r: Option<Vec<T>>)
        requires
            old(self).wf(),
        ensures
            final(self).wf(),
            final(self).len_of_frame() == old(self).len_of_frame(),
            match r {
                Some(frame) => {
                    &&& old(self).waiting().len() >= old(self).len_of_frame()
                    &&& frame@ == old(self).waiting().subrange(0, old(self).len_of_frame())
                    &&& final(self).waiting() == old(self).waiting().subrange(
                        old(self).len_of_frame(),
                        old(self).waiting().len() as int,
                    )
                },
                None => {
                    &&& old(self).waiting().len() < old(self).len_of_frame()
                    &&& final(self).waiting() == old(self).waiting()
                },
            },
    {
        if self.buf.len() < self.frame_len {
            return None;
        }
        let ghost all = self.buf@;
        let n = self.frame_len;
        let rest = self.buf.split_off(n);
        let mut frame = rest;
        std::mem::swap(&mut frame, &mut self.buf);
        assert(frame@ =~= all.subrange(0, n as int));
        assert(self.buf@ =~= all.subrange(n as int, all.len() as int));
        Some(frame)
    }
}

/// What `n` pops in a row leave of the samples that wait.
pub open spec fn after_pops<T>(waiting: Seq<T>, len: int, n: int) -> Seq<T>
    decreases n,
{
    if n <= 0 || waiting.len() < len {
        waiting
    } else {
        after_pops(waiting.subrange(len, waiting.len() as int), len, n - 1)
    }
}

/// The frames that `n` pops in a row give out, one after the other.
pub open spec fn popped<T>(waiting: Seq<T>, len: int, n: int) -> Seq<T>
    decreases n,
{
    if n <= 0 || waiting.len() < len {
        Seq::empty()
    } else {
        waiting.subrange(0, len) + popped(waiting.subrange(len, waiting.len() as int), len, n - 1)
    }
}

/// No sample is lost, repeated or moved: the frames given out, followed by what
/// still waits, are the samples that were there.
pub proof fn law_reframing_keeps_the_stream<T>(waiting: Seq<T>, len: int, n: int)
    requires
        len >= 1,
    ensures
        popped(waiting, len, n) + after_pops(waiting, len, n) == waiting,
    decreases n,
{
    if n <= 0 || waiting.len() < len {
        assert(popped(waiting, len, n) + after_pops(waiting, len, n) =~= waiting);
    } else {
        let rest = waiting.subrange(len, waiting.len() as int);
        law_reframing_keeps_the_stream(rest, len, n - 1);
        assert(waiting =~= waiting.subrange(0, len) + rest);
        assert(popped(waiting, len, n) + after_pops(waiting, len, n) =~= waiting.subrange(0, len) + (
        popped(rest, len, n - 1) + after_pops(rest, len, n - 1)));
    }
}

/// A frame lasts as long as its profile says: 10 ms for low latency and 20 ms for
/// quality, at every rate of whole samples per millisecond, for every channel.
pub proof fn law_frames_last_as_their_profile_says(rate: int, channels: int)
    requires
        rate % 1000 == 0,
        rate >= 1000,
        channels >= 1,
    ensures
        samples(rate, channels, AudioProfile::LowLatency) * 100 == rate * channels,
        samples(rate, channels, AudioProfile::HighQuality) * 50 == rate * channels,
        samples(rate, 0, AudioProfile::LowLatency) == samples(rate, 1, AudioProfile::LowLatency),
        samples(0, channels, AudioProfile::LowLatency) == 1,
{
    let per = rate / 1000;
    assert(rate == per * 1000);
    assert(per >= 1);
    assert(per * 10 * channels >= 1) by (nonlinear_arith)
        requires
            per >= 1,
            channels >= 1,
    ;
    assert(per * 20 * channels >= 1) by (nonlinear_arith)
        requires
            per >= 1,
            channels >= 1,
    ;
    assert(per * 10 * channels * 100 == per * 1000 * channels) by (nonlinear_arith);
    assert(per * 20 * channels * 50 == per * 1000 * channels) by (nonlinear_arith);
    assert(0 * 10 * channels == 0) by (nonlinear_arith);
}

} // verus!
