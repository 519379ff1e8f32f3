//! A jitter buffer for audio packets: it puts them in order and says where one
//! is missing.

use crate::config::AudioProfile;
use vstd::prelude::*;

verus! {

/// Packets that wait for their turn, by their place in the stream.
pub struct JitterBuffer {
    target_frames: usize,
    next_seq: u32,
    pending: Vec<(u32, Vec<u8>)>,
    started: bool,
}

/// The state of a jitter buffer.
pub struct JitterState {
    /// How many packets are collected before the first is played.
    pub target: int,
    /// The packet that is due next, once playing.
    pub next_seq: u32,
    /// The packets that wait.
    pub pending: Map<u32, Seq<u8>>,
    /// Playing has begun.
    pub started: bool,
}

/// What to play for one frame.
#[derive(Debug)]
pub enum Pop {
    Packet(Vec<u8>),
    /// The packet is missing: conceal the gap.
    Conceal,
    /// Not enough is there yet: stay silent.
    Underrun,
}

/// The packets in a list, by their places.
pub open spec fn packets(v: Seq<(u32, Vec<u8>)>) -> Map<u32, Seq<u8>>
    decreases v.len(),
{
    if v.len() == 0 {
        Map::empty()
    } else {
        packets(v.drop_last()).insert(v.last().0, v.last().1@)
    }
}

/// The places are in order, and none occurs twice.
pub open spec fn in_sequence(v: Seq<(u32, Vec<u8>)>) -> bool {
    forall|i: int, j: int| 0 <= i < j < v.len() ==> (#[trigger] v[i]).0 < (#[trigger] v[j]).0
}

proof fn lemma_packets(v: Seq<(u32, Vec<u8>)>)
    requires
        in_sequence(v),
    ensures
        packets(v).dom().finite(),
        packets(v).dom().len() == v.len(),
        forall|i: int|
            0 <= i < v.len() ==> packets(v).dom().contains((#[trigger] v[i]).0) && packets(
                v,
            )[v[i].0] == v[i].1@,
        forall|s: u32| #[trigger]
            packets(v).dom().contains(s) ==> exists|i: int|
                0 <= i < v.len() && (#[trigger] v[i]).0 == s,
    decreases v.len(),
{
    if v.len() > 0 {
        let init = v.drop_last();
        assert forall|i: int, j: int| 0 <= i < j < init.len() implies (#[trigger] init[i]).0 < (
        #[trigger] init[j]).0 by {
            assert(v[i].0 < v[j].0);
        }
        lemma_packets(init);
        assert(!packets(init).dom().contains(v.last().0)) by {
            if packets(init).dom().contains(v.last().0) {
                let i = choose|i: int| 0 <= i < init.len() && (#[trigger] init[i]).0 == v.last().0;
                assert(v[i].0 < v[v.len() - 1].0);
            }
        }
        assert forall|i: int| 0 <= i < v.len() implies packets(v).dom().contains(
            (#[trigger] v[i]).0,
        ) && packets(v)[v[i].0] == v[i].1@ by {
            if i < init.len() {
                assert(v[i] == init[i]);
                assert(v[i].0 < v[v.len() - 1].0);
            }
        }
        assert forall|s: u32| #[trigger] packets(v).dom().contains(s) implies exists|i: int|
            0 <= i < v.len() && (#[trigger] v[i]).0 == s by {
            if s == v.last().0 {
                assert(v[v.len() - 1].0 == s);
            } else {
                assert(packets(init).dom().contains(s));
                let i = choose|i: int| 0 <= i < init.len() && (#[trigger] init[i]).0 == s;
                assert(v[i].0 == s);
            }
        }
        assert(packets(v).dom() =~= packets(init).dom().insert(v.last().0));
    } else {
        assert(packets(v).dom() =~= Set::<u32>::empty());
    }
}

/// Two lists in sequence that hold the same packets one by one have the same
/// map.
proof fn lemma_packets_by_lookup(v: Seq<(u32, Vec<u8>)>, m: Map<u32, Seq<u8>>)
    requires
        in_sequence(v),
        forall|i: int|
            0 <= i < v.len() ==> m.dom().contains((#[trigger] v[i]).0) && m[v[i].0] == v[i].1@,
        forall|s: u32| #[trigger]
            m.dom().contains(s) ==> exists|i: int| 0 <= i < v.len() && (#[trigger] v[i]).0 == s,
    ensures
        packets(v) == m,
{
    lemma_packets(v);
    assert forall|s: u32| packets(v).dom().contains(s) <==> m.dom().contains(s) by {
        if packets(v).dom().contains(s) {
            let i = choose|i: int| 0 <= i < v.len() && (#[trigger] v[i]).0 == s;
            assert(m.dom().contains(v[i].0));
        }
        if m.dom().contains(s) {
            let i = choose|i: int| 0 <= i < v.len() && (#[trigger] v[i]).0 == s;
            assert(packets(v).dom().contains(v[i].0));
        }
    }
    assert forall|s: u32| packets(v).dom().contains(s) implies #[trigger] packets(v)[s] == m[s] by {
        let i = choose|i: int| 0 <= i < v.len() && (#[trigger] v[i]).0 == s;
        assert(packets(v)[v[i].0] == v[i].1@);
    }
    assert(packets(v) =~= m);
}

impl View for JitterBuffer {
    type V = JitterState;

    closed spec fn view(&self) -> JitterState {
        JitterState {
            target: self.target_frames as int,
            next_seq: self.next_seq,
            pending: packets(self.pending@),
            started: self.started,
        }
    }
}

/// `s` is the first place in the map.
pub open spec fn is_first(m: Map<u32, Seq<u8>>, s: u32) -> bool {
    m.dom().contains(s) && forall|t: u32| #[trigger] m.dom().contains(t) ==> s <= t
}

/// What is played for one frame.
pub enum Played {
    Packet(Seq<u8>),
    Conceal,
    Underrun,
}

impl View for Pop {
    type V = Played;

    open spec fn view(&self) -> Played {
        match self {
            Pop::Packet(p) => Played::Packet(p@),
            Pop::Conceal => Played::Conceal,
            Pop::Underrun => Played::Underrun,
        }
    }
}

impl JitterState {
    /// A packet arrives. One that is late is dropped.
    pub open spec fn after_push(self, seq: u32, packet: Seq<u8>) -> JitterState {
        if self.started && seq < self.next_seq {
            self
        } else {
            JitterState { pending: self.pending.insert(seq, packet), ..self }
        }
    }

    /// The packet that is due: the next one, or the first that is there where
    /// playing begins now.
    pub open spec fn due(self) -> u32 {
        if self.started {
            self.next_seq
        } else {
            choose|s: u32| is_first(self.pending, s)
        }
    }

    /// One frame is played.
    pub open spec fn after_pop(self) -> (JitterState, Played) {
        if !self.started && self.pending.dom().len() < self.target {
            (self, Played::Underrun)
        } else {
            let s = self.due();
            let next = JitterState {
                next_seq: if s == u32::MAX {
                    0
                } else {
                    (s + 1) as u32
                },
                pending: self.pending.remove(s),
                started: true,
                ..self
            };
            if self.pending.dom().contains(s) {
                (next, Played::Packet(self.pending[s]))
            } else {
                (next, Played::Conceal)
            }
        }
    }
}

/// How many packets are collected for a profile.
pub open spec fn depth(profile: AudioProfile) -> int {
    match profile {
        AudioProfile::LowLatency => 2,
        AudioProfile::HighQuality => 8,
    }
}

impl JitterBuffer {
    /// The packets wait in sequence, and at least one is collected before
    /// playing begins.
    pub closed spec fn wf(self) -> bool {
        in_sequence(self.pending@) && self.target_frames >= 1
    }

    /// A buffer that collects `target_frames` packets, one at least, before it
    /// plays.
    pub fn new(target_frames: usize) -> (b: Self)
        ensures
            b.wf(),
            b@ == (JitterState {
                target: if target_frames == 0 {
                    1
                } else {
                    target_frames as int
                },
                next_seq: 0,
                pending: Map::empty(),
                started: false,
            }),
    {
        JitterBuffer {
            target_frames: if target_frames == 0 {
                1
            } else {
                target_frames
            },
            next_seq: 0,
            pending: Vec::new(),
            started: false,
        }
    }

    /// How many packets to collect for a profile.
    pub fn depth_for(profile: AudioProfile) -> (n: usize)
        ensures
            n == depth(profile),
    {
        match profile {
            AudioProfile::LowLatency => 2,
            AudioProfile::HighQuality => 8,
        }
    }

    /// How many packets wait.
    pub fn buffered(&self) -> (n: usize)
        requires
            self.wf(),
        ensures
            n == self@.pending.dom().len(),
    {
        proof {
            lemma_packets(self.pending@);
        }
        self.pending.len()
    }

    /// The first position whose place is not before `seq`.
    fn position(&self, seq: u32) -> (k: usize)
        requires
            self.wf(),
        ensures
            k <= self.pending@.len(),
            forall|i: int| 0 <= i < k ==> (#[trigger] self.pending@[i]).0 < seq,
            forall|i: int| k <= i < self.pending@.len() ==> (#[trigger] self.pending@[i]).0 >= seq,
    {
        let mut k: usize = 0;
        while k < self.pending.len() && self.pending[k].0 < seq
            invariant
                0 <= k <= self.pending@.len(),
                self.wf(),
                forall|i: int| 0 <= i < k ==> (#[trigger] self.pending@[i]).0 < seq,
            decreases self.pending.len() - k,
        {
            k = k + 1;
        }
        assert forall|i: int| k <= i < self.pending@.len() implies (
        #[trigger] self.pending@[i]).0 >= seq by {
            if k < i {
                assert(self.pending@[k as int].0 < self.pending@[i].0);
            }
        }
        k
    }

    /// Takes a packet in. One that is late is dropped; one whose place is taken
    /// replaces what was there.
    #[verifier::rlimit(60)]
    pub fn push(&mut self, seq: u32, packet: Vec<u8>)
        requires
            old(self).wf(),
        ensures
            final(self).wf(),
            final(self)@ == old(self)@.after_push(seq, packet@),
    {
        if self.started && seq < self.next_seq {
            return ;
        }
        let ghost before = self.pending@;
        let ghost m = packets(before).insert(seq, packet@);
        proof {
            lemma_packets(before);
        }
        let k = self.position(seq);
        let ghost p = packet@;
        if k < self.pending.len() && self.pending[k].0 == seq {
            self.pending.set(k, (seq, packet));
            proof {
                let after = self.pending@;
                assert forall|i: int| 0 <= i < after.len() implies m.dom().contains(
                    (#[trigger] after[i]).0,
                ) && m[after[i].0] == after[i].1@ by {
                    if i != k {
                        assert(after[i] == before[i]);
                        if i < k {
                            assert(before[i].0 < before[k as int].0);
                        } else {
                            assert(before[k as int].0 < before[i].0);
                        }
                    }
                }
                assert forall|s: u32| #[trigger] m.dom().contains(s) implies exists|i: int|
                    0 <= i < after.len() && (#[trigger] after[i]).0 == s by {
                    if s == seq {
                        assert(after[k as int].0 == s);
                    } else {
                        let i = choose|i: int|
                            0 <= i < before.len() && (#[trigger] before[i]).0 == s;
                        assert(after[i].0 == s);
                    }
                }
                assert forall|i: int, j: int| 0 <= i < j < after.len() implies (
                #[trigger] after[i]).0 < (#[trigger] after[j]).0 by {
                    assert(before[i].0 < before[j].0);
                }
                lemma_packets_by_lookup(after, m);
            }
        } else {
            self.pending.insert(k, (seq, packet));
            proof {
                let after = self.pending@;
                assert forall|i: int| 0 <= i < after.len() implies m.dom().contains(
                    (#[trigger] after[i]).0,
                ) && m[after[i].0] == after[i].1@ by {
                    if i < k {
                        assert(after[i] == before[i]);
                    } else if i > k {
                        assert(after[i] == before[i - 1]);
                        assert(before[i - 1].0 >= seq);
                        assert(before[k as int].0 <= before[i - 1].0);
                    }
                }
                assert forall|s: u32| #[trigger] m.dom().contains(s) implies exists|i: int|
                    0 <= i < after.len() && (#[trigger] after[i]).0 == s by {
                    if s == seq {
                        assert(after[k as int].0 == s);
                    } else {
                        let i = choose|i: int|
                            0 <= i < before.len() && (#[trigger] before[i]).0 == s;
                        if i < k {
                            assert(after[i].0 == s);
                        } else {
                            assert(after[i + 1].0 == s);
                        }
                    }
                }
                assert forall|i: int, j: int| 0 <= i < j < after.len() implies (
                #[trigger] after[i]).0 < (#[trigger] after[j]).0 by {
                    let a = if i < k {
                        i
                    } else {
                        i - 1
                    };
                    let b = if j < k {
                        j
                    } else {
                        j - 1
                    };
                    if i == k {
                        assert(after[j] == before[b]);
                        assert(before[k as int].0 >= seq && before[k as int].0 != seq);
                        if k < b {
                            assert(before[k as int].0 < before[b].0);
                        }
                    } else if j == k {
                        assert(after[i] == before[a]);
                    } else {
                        assert(after[i] == before[a] && after[j] == before[b]);
                        assert(before[a].0 < before[b].0);
                    }
                }
                lemma_packets_by_lookup(after, m);
            }
        }
    }

    /// Plays one frame. Called once per frame duration.
    pub fn pop(&mut self) -> (r: Pop)
        requires
            old(self).wf(),
        ensures
            final(self).wf(),
            (final(self)@, r@) == old(self)@.after_pop(),
    {
        let ghost before = self.pending@;
        let ghost st = self@;
        proof {
            lemma_packets(before);
        }
        if !self.started {
            if self.pending.len() < self.target_frames {
                return Pop::Underrun;
            }
            proof {
                let s = before[0].0;
                assert(is_first(st.pending, s)) by {
                    assert forall|t: u32| #[trigger] st.pending.dom().contains(t) implies s <= t by {
                        let i = choose|i: int|
                            0 <= i < before.len() && (#[trigger] before[i]).0 == t;
                        if i > 0 {
                            assert(before[0].0 < before[i].0);
                        }
                    }
                }
                let c = choose|c: u32| is_first(st.pending, c);
                assert(c == s);
            }
            self.next_seq = self.pending[0].0;
            self.started = true;
        }
        let seq = self.next_seq;
        let k = self.position(seq);
        let found = k < self.pending.len() && self.pending[k].0 == seq;
        self.next_seq = seq.wrapping_add(1);
        let ghost m = packets(before).remove(seq);
        if found {
            let (_, packet) = self.pending.remove(k);
            proof {
                let after = self.pending@;
                assert forall|i: int| 0 <= i < after.len() implies m.dom().contains(
                    (#[trigger] after[i]).0,
                ) && m[after[i].0] == after[i].1@ by {
                    let a = if i < k {
                        i
                    } else {
                        i + 1
                    };
                    assert(after[i] == before[a]);
                    if a < k {
                        assert(before[a].0 < before[k as int].0);
                    } else {
                        assert(before[k as int].0 < before[a].0);
                    }
                }
                assert forall|s: u32| #[trigger] m.dom().contains(s) implies exists|i: int|
                    0 <= i < after.len() && (#[trigger] after[i]).0 == s by {
                    let i = choose|i: int| 0 <= i < before.len() && (#[trigger] before[i]).0 == s;
                    if i < k {
                        assert(after[i].0 == s);
                    } else {
                        assert(after[i - 1].0 == s);
                    }
                }
                assert forall|i: int, j: int| 0 <= i < j < after.len() implies (
                #[trigger] after[i]).0 < (#[trigger] after[j]).0 by {
                    let a = if i < k {
                        i
                    } else {
                        i + 1
                    };
                    let b = if j < k {
                        j
                    } else {
                        j + 1
                    };
                    assert(before[a].0 < before[b].0);
                }
                lemma_packets_by_lookup(after, m);
                assert(packets(before)[before[k as int].0] == packet@);
            }
            Pop::Packet(packet)
        } else {
            proof {
                assert(!packets(before).dom().contains(seq)) by {
                    if packets(before).dom().contains(seq) {
                        let i = choose|i: int|
                            0 <= i < before.len() && (#[trigger] before[i]).0 == seq;
                        if i < k {
                            assert(before[i].0 < seq);
                        } else if i > k {
                            assert(before[k as int].0 < before[i].0);
                        }
                    }
                }
                assert(m =~= packets(before));
            }
            Pop::Conceal
        }
    }
}

/// Once playing has begun, every frame moves on by exactly one place, and plays
/// the packet of that place if it is there; what is played is no longer waiting.
pub proof fn law_playing_moves_on_by_one(s: JitterState)
    requires
        s.started,
        s.next_seq < u32::MAX,
    ensures
        ({
            let (n, p) = s.after_pop();
            &&& n.started && n.next_seq == s.next_seq + 1
            &&& p == if s.pending.dom().contains(s.next_seq) {
                Played::Packet(s.pending[s.next_seq])
            } else {
                Played::Conceal
            }
            &&& !n.pending.dom().contains(s.next_seq)
        }),
{
}

/// Once playing, a packet that is late is dropped, and any other waits for its
/// place; no packet changes which place is due.
pub proof fn law_late_packets_are_dropped(s: JitterState, seq: u32, packet: Seq<u8>)
    requires
        s.started,
    ensures
        seq < s.next_seq ==> s.after_push(seq, packet) == s,
        seq >= s.next_seq ==> s.after_push(seq, packet).pending == s.pending.insert(seq, packet),
        s.after_push(seq, packet).next_seq == s.next_seq,
{
}

/// Until enough is collected nothing is played and nothing is lost; then playing
/// begins with the first packet that is there.
pub proof fn law_playing_begins_with_the_first(s: JitterState, first: u32)
    requires
        !s.started,
        s.target >= 1,
        is_first(s.pending, first),
    ensures
        s.pending.dom().len() < s.target ==> s.after_pop() == (s, Played::Underrun),
        s.pending.dom().len() >= s.target ==> s.after_pop().1 == Played::Packet(s.pending[first]),
{
    let c = choose|c: u32| is_first(s.pending, c);
    assert(is_first(s.pending, c));
    assert(c == first);
}

/// A packet that comes in time waits under its own number, and takes the place of one
/// that came before under it; those of other numbers are not touched. How much is
/// collected, and whether playing has begun, does not change by it.
pub proof fn law_packets_wait_under_their_number(s: JitterState, seq: u32, packet: Seq<u8>, other: u32)
    requires
        !s.started || seq >= s.next_seq,
        other != seq,
    ensures
        ({
            let n = s.after_push(seq, packet);
            &&& n.pending.dom().contains(seq) && n.pending[seq] == packet
            &&& n.pending.dom().contains(other) == s.pending.dom().contains(other)
            &&& s.pending.dom().contains(other) ==> n.pending[other] == s.pending[other]
            &&& n.started == s.started && n.target == s.target && n.next_seq == s.next_seq
        }),
{
}

/// Playing takes away nothing but the packet that is due, and goes on after it; after
/// the last number comes 0.
pub proof fn law_playing_takes_one_packet(s: JitterState, other: u32)
    requires
        s.started,
        other != s.next_seq,
    ensures
        ({
            let (n, p) = s.after_pop();
            &&& n.pending.dom().contains(other) == s.pending.dom().contains(other)
            &&& s.pending.dom().contains(other) ==> n.pending[other] == s.pending[other]
            &&& s.next_seq == u32::MAX ==> n.next_seq == 0
            &&& s.next_seq < u32::MAX ==> n.next_seq == s.next_seq + 1
            &&& !(p is Underrun)
        }),
{
}

/// What is collected before playing lasts 20 ms for low latency and 160 ms for quality.
pub proof fn law_quality_waits_longer(profile: AudioProfile)
    ensures
        depth(AudioProfile::LowLatency) * crate::reframe::millis(AudioProfile::LowLatency) == 20,
        depth(AudioProfile::HighQuality) * crate::reframe::millis(AudioProfile::HighQuality) == 160,
        depth(profile) >= 1,
{
}

} // verus!
