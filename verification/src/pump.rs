//! What a session does about its input and control channels, message by message.

use crate::controller::Action;
use crate::devices::held_after;
use crate::geometry::Point;
use crate::input::{InputEvent, KeyCode, Modifiers, ALT, CTRL, META, SHIFT};
use crate::layout::VirtualDesktop;
use crate::message::{Control, Input};
use vstd::prelude::*;

verus! {

// --- Input -------------------------------------------------------------------

/// What to do about an action of the controller: a message for the peer, and
/// whether local input is to be held back from now on.
#[derive(Debug)]
pub struct Outgoing {
    pub send: Option<Input>,
    pub grab: Option<bool>,
}

/// What to do about an input message of the peer.
#[derive(Debug)]
pub enum Incoming {
    /// Put the cursor here, and press these keys, which the peer holds down.
    Enter { at: Point, keys: Vec<InputEvent> },
    /// Let go of every key and button.
    Release,
    /// Inject the events in order, and then send the message.
    Inject(Vec<InputEvent>, Input),
    Nothing,
}

/// The input side of a session: the number of the message sent last.
#[derive(Clone, Copy, Debug, PartialEq, Eq, Structural)]
pub struct InputPump {
    pub seq: u32,
}

/// The number after `seq`; after the last comes 0.
pub open spec fn next_seq(seq: u32) -> u32 {
    if seq == u32::MAX {
        0
    } else {
        (seq + 1) as u32
    }
}

/// An action is carried out, with events under this number.
pub open spec fn carries_out(o: Outgoing, action: Action, number: u32) -> bool {
    match action {
        Action::PassThrough => o.send is None && o.grab is None,
        Action::Enter { at, mods } => {
            o.send == Some(Input::Enter { entry: at, mods }) && o.grab == Some(true)
        },
        Action::Leave => o.send == Some(Input::Leave) && o.grab == Some(false),
        Action::Forward(e) => {
            &&& o.grab is None
            &&& o.send matches Some(Input::Events { seq, events })
            &&& seq == number
            &&& events@ =~= seq![e]
        },
    }
}

impl InputPump {
    pub fn new() -> (p: Self)
        ensures
            p.seq == 0,
    {
        InputPump { seq: 0 }
    }

    /// Carries out an action of the controller. Each forwarded event travels alone,
    /// under the next number.
    pub fn on_action(&mut self, action: Action) -> (o: Outgoing)
        ensures
            final(self).seq == if action is Forward {
                next_seq(old(self).seq)
            } else {
                old(self).seq
            },
            carries_out(o, action, final(self).seq),
    {
        match action {
            Action::PassThrough => Outgoing { send: None, grab: None },
            Action::Enter { at, mods } => Outgoing {
                send: Some(Input::Enter { entry: at, mods }),
                grab: Some(true),
            },
            Action::Leave => Outgoing { send: Some(Input::Leave), grab: Some(false) },
            Action::Forward(e) => {
                self.seq = if self.seq == u32::MAX {
                    0
                } else {
                    self.seq + 1
                };
                let events: Vec<InputEvent> = vec![e];
                Outgoing { send: Some(Input::Events { seq: self.seq, events }), grab: None }
            },
        }
    }
}

/// The modifiers that a key can hold down, each with a key that does. The locks are
/// no keys that are held, so they are left out.
pub open spec fn modifier_keys() -> Seq<(u16, u32)> {
    seq![(SHIFT, 42u32), (CTRL, 29u32), (ALT, 56u32), (META, 125u32)]
}

/// The keys that bring about those of the first `n` modifiers that are held.
pub open spec fn keys_held(mods: Modifiers, n: int) -> Seq<InputEvent>
    decreases n,
{
    if n <= 0 {
        Seq::empty()
    } else {
        let (bit, code) = modifier_keys()[n - 1];
        let before = keys_held(mods, n - 1);
        if mods.has(Modifiers(bit)) {
            before.push(InputEvent::Key { code: KeyCode(code), pressed: true, mods })
        } else {
            before
        }
    }
}

fn push_held(keys: &mut Vec<InputEvent>, mods: Modifiers, bit: u16, code: u32)
    ensures
        final(keys)@ == if mods.has(Modifiers(bit)) {
            old(keys)@.push(InputEvent::Key { code: KeyCode(code), pressed: true, mods })
        } else {
            old(keys)@
        },
{
    if mods.contains(Modifiers(bit)) {
        keys.push(InputEvent::Key { code: KeyCode(code), pressed: true, mods });
    }
}

fn held_keys(mods: Modifiers) -> (keys: Vec<InputEvent>)
    ensures
        keys@ == keys_held(mods, 4),
{
    proof {
        reveal_with_fuel(keys_held, 5);
    }
    let mut keys: Vec<InputEvent> = Vec::new();
    push_held(&mut keys, mods, SHIFT, 42);
    push_held(&mut keys, mods, CTRL, 29);
    push_held(&mut keys, mods, ALT, 56);
    push_held(&mut keys, mods, META, 125);
    keys
}

/// This is done about an input message of the peer.
pub open spec fn heeds(r: Incoming, msg: Input) -> bool {
    match msg {
        Input::Enter { entry, mods } => r matches Incoming::Enter { at, keys } && at == entry && keys@
            == keys_held(mods, 4),
        Input::Leave => r == Incoming::Release,
        Input::Events { seq, events } => r == Incoming::Inject(events, Input::Ack { seq }),
        Input::Ack { seq } => r == Incoming::Nothing,
    }
}

/// What to do about an input message of the peer. Whoever is entered starts with the
/// modifiers that the peer holds. Events are acknowledged by their number.
pub fn on_input(msg: Input) -> (r: Incoming)
    ensures
        heeds(r, msg),
{
    match msg {
        Input::Enter { entry, mods } => Incoming::Enter { at: entry, keys: held_keys(mods) },
        Input::Leave => Incoming::Release,
        Input::Events { seq, events } => Incoming::Inject(events, Input::Ack { seq }),
        Input::Ack { .. } => Incoming::Nothing,
    }
}

/// The modifiers that are held after a row of events.
pub open spec fn held_after_all(held: Modifiers, es: Seq<InputEvent>) -> Modifiers
    decreases es.len(),
{
    if es.len() == 0 {
        held
    } else {
        held_after(held_after_all(held, es.drop_last()), es.last())
    }
}

/// The receiver starts with the modifiers that the sender holds: after the keys of an
/// entry, exactly those of them are held that a key can hold.
pub proof fn law_the_entered_hold_the_same_modifiers(mods: Modifiers)
    ensures
        held_after_all(Modifiers(0), keys_held(mods, 4)) == Modifiers(
            mods.0 & (SHIFT | CTRL | ALT | META),
        ),
{
    let m: u16 = mods.0;
    lemma_held_step(mods, 0);
    lemma_held_step(mods, 1);
    lemma_held_step(mods, 2);
    lemma_held_step(mods, 3);
    let a: u16 = if m & 1 == 1 { 1 } else { 0 };
    let b: u16 = if m & 2 == 2 { 2 } else { 0 };
    let c: u16 = if m & 4 == 4 { 4 } else { 0 };
    let d: u16 = if m & 8 == 8 { 8 } else { 0 };
    assert(keys_held(mods, 0) =~= Seq::<InputEvent>::empty());
    assert(0u16 | 1 == 1 && 0u16 | 2 == 2 && 0u16 | 4 == 4 && 0u16 | 8 == 8) by (bit_vector);
    assert(((((a | b) | c) | d) == m & (((1u16 | 2) | 4) | 8))) by (bit_vector)
        requires
            a == if m & 1 == 1 { 1u16 } else { 0u16 },
            b == if m & 2 == 2 { 2u16 } else { 0u16 },
            c == if m & 4 == 4 { 4u16 } else { 0u16 },
            d == if m & 8 == 8 { 8u16 } else { 0u16 },
    ;
    assert(a | 0 == a && (a | b) | 0 == (a | b) && ((a | b) | c) | 0 == ((a | b) | c) && 0 | a == a)
        by (bit_vector);
}

proof fn lemma_held_step(mods: Modifiers, n: int)
    requires
        0 <= n < 4,
    ensures
        held_after_all(Modifiers(0), keys_held(mods, n + 1)) == if mods.has(
            Modifiers(modifier_keys()[n].0),
        ) {
            held_after_all(Modifiers(0), keys_held(mods, n)).with(Modifiers(modifier_keys()[n].0))
        } else {
            held_after_all(Modifiers(0), keys_held(mods, n))
        },
{
    let before = keys_held(mods, n);
    let now = keys_held(mods, n + 1);
    if mods.has(Modifiers(modifier_keys()[n].0)) {
        assert(now.drop_last() =~= before);
    }
}

// --- Control -----------------------------------------------------------------

/// How often the peer is probed, and how many probes may go unanswered.
#[derive(Clone, Copy, Debug, PartialEq, Eq, Structural)]
pub struct HeartbeatConfig {
    pub interval_ms: u64,
    pub max_missed: u32,
}

impl Default for HeartbeatConfig {
    fn default() -> (c: Self)
        ensures
            c == (HeartbeatConfig { interval_ms: 1000, max_missed: 5 }),
    {
        HeartbeatConfig { interval_ms: 1000, max_missed: 5 }
    }
}

/// What ended the control channel in good order.
#[derive(Clone, Copy, Debug, PartialEq, Eq, Structural)]
pub enum ControlEnd {
    /// The peer closed the channel.
    Eof,
    /// The peer said goodbye.
    Goodbye,
}

/// What to do when it is time for a probe.
#[derive(Debug)]
pub enum Tick {
    /// The peer does not answer.
    TimedOut,
    Probe(Control),
}

/// What to do about a control message of the peer.
#[derive(Debug)]
pub enum ControlStep {
    Nothing,
    Reply(Control),
    /// Go by this arrangement from now on, and keep it.
    Layout(VirtualDesktop),
    End(ControlEnd),
}

/// What is done about a message of the peer; none is the end of the channel.
pub open spec fn control_step(msg: Option<Control>) -> ControlStep {
    match msg {
        None => ControlStep::End(ControlEnd::Eof),
        Some(Control::Ping { nonce }) => ControlStep::Reply(Control::Pong { nonce }),
        Some(Control::LayoutUpdate { layout }) => ControlStep::Layout(layout),
        Some(Control::Goodbye { reason }) => ControlStep::End(ControlEnd::Goodbye),
        Some(_) => ControlStep::Nothing,
    }
}

/// The arrangement that a message carries.
pub fn layout_of(msg: &Control) -> (r: Option<VirtualDesktop>)
    ensures
        match (*msg, r) {
            (Control::LayoutUpdate { layout }, Some(d)) => d.monitors@ == layout.monitors@,
            (Control::LayoutUpdate { .. }, None) => false,
            (_, d) => d is None,
        },
{
    match msg {
        Control::LayoutUpdate { layout } => Some(layout.clone()),
        _ => None,
    }
}

/// The probes of a session: how many are unanswered, and the number of the last.
#[derive(Clone, Copy, Debug, PartialEq, Eq, Structural)]
pub struct Heartbeat {
    pub outstanding: u32,
    pub nonce: u64,
}

impl Heartbeat {
    pub fn new() -> (h: Self)
        ensures
            h == (Heartbeat { outstanding: 0, nonce: 0 }),
    {
        Heartbeat { outstanding: 0, nonce: 0 }
    }

    /// The peer has left too many probes unanswered.
    pub open spec fn is_dead(self, max_missed: u32) -> bool {
        self.outstanding >= max_missed
    }

    /// The state after a probe was made ready.
    pub open spec fn probed(self) -> Heartbeat {
        Heartbeat { nonce: (self.nonce + 1) as u64, ..self }
    }

    /// The state after a probe was sent.
    pub open spec fn sent(self) -> Heartbeat {
        Heartbeat { outstanding: (self.outstanding + 1) as u32, ..self }
    }

    /// The state after an answer.
    pub open spec fn answered(self) -> Heartbeat {
        Heartbeat { outstanding: 0, ..self }
    }

    /// The state after a message of the peer.
    pub open spec fn after_control(self, msg: Option<Control>) -> Heartbeat {
        match msg {
            Some(Control::Pong { nonce }) => self.answered(),
            _ => self,
        }
    }

    /// This comes of the time for a probe.
    pub open spec fn ticked(self, after: Heartbeat, max_missed: u32, t: Tick) -> bool {
        if self.is_dead(max_missed) {
            t is TimedOut && after == self
        } else {
            &&& after == self.probed()
            &&& t == Tick::Probe(Control::Ping { nonce: after.nonce })
        }
    }

    /// It is time for a probe: the next one, unless the peer is taken for dead.
    pub fn on_tick(&mut self, hb: &HeartbeatConfig) -> (t: Tick)
        requires
            old(self).nonce < u64::MAX,
        ensures
            old(self).ticked(*final(self), hb.max_missed, t),
    {
        if self.outstanding >= hb.max_missed {
            return Tick::TimedOut;
        }
        self.nonce = self.nonce + 1;
        Tick::Probe(Control::Ping { nonce: self.nonce })
    }

    /// A probe was sent, and is unanswered so far.
    pub fn on_sent(&mut self)
        requires
            old(self).outstanding < u32::MAX,
        ensures
            *final(self) == old(self).sent(),
    {
        self.outstanding = self.outstanding + 1;
    }

    /// Takes a message of the peer; none is the end of the channel. A probe is
    /// answered with its number, any answer clears the count, and an arrangement is
    /// handed out.
    pub fn on_control(&mut self, msg: Option<Control>) -> (s: ControlStep)
        ensures
            *final(self) == old(self).after_control(msg),
            s == control_step(msg),
    {
        match msg {
            None => ControlStep::End(ControlEnd::Eof),
            Some(Control::Ping { nonce }) => ControlStep::Reply(Control::Pong { nonce }),
            Some(Control::Pong { .. }) => {
                self.outstanding = 0;
                ControlStep::Nothing
            },
            Some(Control::LayoutUpdate { layout }) => ControlStep::Layout(layout),
            Some(Control::Goodbye { .. }) => ControlStep::End(ControlEnd::Goodbye),
            Some(_) => ControlStep::Nothing,
        }
    }
}

/// The state after `n` probes that were sent and that nobody answered.
pub open spec fn unanswered(h: Heartbeat, n: nat) -> Heartbeat
    decreases n,
{
    if n == 0 {
        h
    } else {
        unanswered(h, (n - 1) as nat).probed().sent()
    }
}

proof fn lemma_unanswered(h: Heartbeat, n: nat)
    requires
        h.outstanding + n <= u32::MAX,
    ensures
        unanswered(h, n).outstanding == h.outstanding + n,
    decreases n,
{
    if n > 0 {
        lemma_unanswered(h, (n - 1) as nat);
    }
}

/// A peer that stops answering is taken for dead after as many probes as may be
/// missed, and not before.
pub proof fn law_silence_is_noticed(h: Heartbeat, max_missed: u32, n: nat)
    requires
        n <= u32::MAX,
    ensures
        unanswered(h.answered(), n).is_dead(max_missed) == (n >= max_missed),
{
    lemma_unanswered(h.answered(), n);
}

/// What is done on one machine happens on the other: where the cursor is handed over, it
/// appears there at the same point, with the keys of the modifiers held, and input is held
/// back here; where it is taken back, everything is let go of there, and input is let
/// through here; and an event that is forwarded is injected there, alone, and acknowledged
/// by its number. Nothing is sent of what is passed through.
pub proof fn law_what_is_done_here_happens_there(
    o: Outgoing,
    action: Action,
    number: u32,
    r: Incoming,
    p: InputPump,
)
    requires
        carries_out(o, action, number),
        o.send matches Some(msg) ==> heeds(r, msg),
    ensures
        action matches Action::Enter { at, mods } ==> {
            &&& o.grab == Some(true)
            &&& r matches Incoming::Enter { at: there, keys } && there == at && held_after_all(
                Modifiers(0),
                keys@,
            ) == Modifiers(mods.0 & (SHIFT | CTRL | ALT | META))
        },
        action is Leave ==> o.grab == Some(false) && r is Release,
        action matches Action::Forward(e) ==> {
            &&& o.grab is None
            &&& r matches Incoming::Inject(es, Input::Ack { seq }) && es@ == seq![e] && seq == number
        },
        action is PassThrough ==> o.send is None && o.grab is None,
{
    if let Action::Enter { at, mods } = action {
        law_the_entered_hold_the_same_modifiers(mods);
    }
}

/// Numbers follow one another, and after the last comes 0.
pub proof fn law_numbers_follow_one_another(seq: u32)
    ensures
        seq < u32::MAX ==> next_seq(seq) == seq + 1,
        next_seq(u32::MAX) == 0,
{
}

/// A probe comes back under its own number, and that answer clears the count, however
/// many were missed; no other message does. A goodbye and the end of the channel end the
/// session, each as what it is.
pub proof fn law_probes_come_back(h: Heartbeat, nonce: u64, reason: String, msg: Control)
    ensures
        control_step(Some(Control::Ping { nonce })) == ControlStep::Reply(Control::Pong { nonce }),
        h.after_control(Some(Control::Pong { nonce })).outstanding == 0,
        h.after_control(Some(Control::Pong { nonce })).nonce == h.nonce,
        !(msg is Pong) ==> h.after_control(Some(msg)) == h,
        control_step(Some(Control::Pong { nonce })) is Nothing,
        control_step(Some(Control::Goodbye { reason })) == ControlStep::End(ControlEnd::Goodbye),
        control_step(None) == ControlStep::End(ControlEnd::Eof),
        msg is Hello || msg is Error ==> control_step(Some(msg)) is Nothing,
        h.nonce < u64::MAX ==> h.probed().nonce == h.nonce + 1,
        h.outstanding < u32::MAX ==> h.sent().outstanding == h.outstanding + 1,
{
}

/// An arrangement that the peer sends is handed out as it is.
pub proof fn law_arrangements_are_handed_out(layout: VirtualDesktop)
    ensures
        control_step(Some(Control::LayoutUpdate { layout })) == ControlStep::Layout(layout),
{
}

/// Every tick sends a probe under the next number, until as many as are allowed have not
/// been answered; then the peer is taken for dead.
pub proof fn law_ticks_probe_until_the_peer_is_dead(
    h: Heartbeat,
    after: Heartbeat,
    max_missed: u32,
    t: Tick,
)
    requires
        h.ticked(after, max_missed, t),
        h.nonce < u64::MAX,
    ensures
        t is TimedOut <==> h.outstanding >= max_missed,
        t is TimedOut ==> after == h,
        h.outstanding < max_missed ==> after.nonce == h.nonce + 1 && t == Tick::Probe(
            Control::Ping { nonce: after.nonce },
        ),
{
}

} // verus!
