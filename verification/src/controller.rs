//! Which machine an input event belongs to.
//!
//! The machine that holds the physical keyboard and mouse is the controller.
//! While the cursor is on one of its own monitors, input goes to local
//! applications and only the cursor is tracked. When the cursor crosses onto a
//! monitor of the peer, local delivery is suppressed, the peer is told to take
//! the cursor, and every event is forwarded until the cursor comes back.

use crate::config::InputConfig;
use crate::geometry::{Edge, Point, Rect};
use crate::hotkey::{hotkey_read, Hotkey};
use crate::ids::DeviceId;
use crate::input::{InputEvent, KeyCode, Modifiers};
use crate::layout::{
    all_in_range, beyond, carried, edge_crossed, entry_across, index_at, is_i32, law_one_monitor_per_pixel,
    lemma_carried_inside, lemma_entry_inside, lemma_index_at_from, no_overlap, owner, relative_entry, Monitor, VirtualDesktop,
};
use vstd::prelude::*;

verus! {

/// What to do with one captured event.
#[derive(Clone, Copy, Debug, PartialEq, Structural)]
pub enum Action {
    /// Leave it to local applications, which have it already.
    PassThrough,
    /// Hand the cursor to the peer, entering at `at`.
    Enter { at: Point, mods: Modifiers },
    /// Take the cursor back.
    Leave,
    /// Send the event to the peer.
    Forward(InputEvent),
}

/// Tracks the global cursor and decides, event by event, whether input stays
/// here or goes to the peer.
pub struct Controller {
    vd: VirtualDesktop,
    me: DeviceId,
    pos: Point,
    grabbed: bool,
    mods: Modifiers,
    locked: bool,
    edge_px: i32,
    edge_accum: i32,
    switch: Option<Hotkey>,
    lock_key: Option<Hotkey>,
    switch_held: bool,
    lock_held: bool,
}

/// The state of a controller.
pub struct ControllerState {
    /// The monitors of both machines.
    pub monitors: Seq<Monitor>,
    /// This machine.
    pub me: DeviceId,
    /// Where the cursor is.
    pub pos: Point,
    /// Local delivery is suppressed, and events go to the peer.
    pub grabbed: bool,
    /// The modifiers of the last key event.
    pub mods: Modifiers,
    /// The cursor stays on the machine it is on.
    pub locked: bool,
    /// Pixels of push that a crossing takes; 0 for none.
    pub edge_px: i32,
    /// Pixels of push collected so far.
    pub edge_accum: i32,
    pub switch: Option<Hotkey>,
    pub lock_key: Option<Hotkey>,
    /// The hotkey has fired and its key is still down.
    pub switch_held: bool,
    pub lock_held: bool,
}

impl View for Controller {
    type V = ControllerState;

    closed spec fn view(&self) -> ControllerState {
        ControllerState {
            monitors: self.vd.monitors@,
            me: self.me,
            pos: self.pos,
            grabbed: self.grabbed,
            mods: self.mods,
            locked: self.locked,
            edge_px: self.edge_px,
            edge_accum: self.edge_accum,
            switch: self.switch,
            lock_key: self.lock_key,
            switch_held: self.switch_held,
            lock_held: self.lock_held,
        }
    }
}

/// How far `p` lies outside `r`: the larger of the two axis distances, 0
/// inside.
pub open spec fn outside(r: Rect, p: Point) -> int {
    let dx = crate::layout::span_distance(p.x as int, r.x as int, r.x + r.w);
    let dy = crate::layout::span_distance(p.y as int, r.y as int, r.y + r.h);
    if dx >= dy {
        dx
    } else {
        dy
    }
}

/// The pixel that a move by `(dx, dy)` asks for.
pub open spec fn wanted(pos: Point, dx: int, dy: int) -> Point {
    Point { x: (pos.x + dx) as i32, y: (pos.y + dy) as i32 }
}

/// Half of an extent, rounded towards zero.
pub open spec fn half(n: int) -> int {
    if n >= 0 {
        n / 2
    } else {
        -((-n) / 2)
    }
}

/// The middle of a rectangle.
pub open spec fn center(r: Rect) -> Point {
    Point { x: (r.x + half(r.w as int)) as i32, y: (r.y + half(r.h as int)) as i32 }
}

/// The first monitor, from position `i` on, that belongs to the peer
/// (`peer`) or to `me`.
pub open spec fn side_from(ms: Seq<Monitor>, me: DeviceId, peer: bool, i: int) -> Option<int>
    decreases ms.len() - i,
{
    if i < 0 || i >= ms.len() {
        None
    } else if (ms[i].id.device != me) == peer {
        Some(i)
    } else {
        side_from(ms, me, peer, i + 1)
    }
}

impl ControllerState {
    /// Every monitor's edges are coordinates, and push is collected outwards
    /// only.
    pub open spec fn wf(self) -> bool {
        all_in_range(self.monitors) && self.edge_accum >= 0
    }

    /// The pixel belongs to a monitor of another machine.
    pub open spec fn on_peer(self, p: Point) -> bool {
        owner(self.monitors, p) matches Some(o) && o != self.me
    }

    /// Where a move towards `want` ends: there, where a monitor shows that
    /// pixel; else as close as the current monitor allows.
    pub open spec fn landing(self, want: Point) -> Point {
        match index_at(self.monitors, want) {
            Some(_) => want,
            None => match index_at(self.monitors, self.pos) {
                Some(c) => self.monitors[c].bounds.nearest(want),
                None => want,
            },
        }
    }

    /// Where the cursor goes that is kept on its own monitor.
    pub open spec fn kept(self, want: Point) -> Point {
        match index_at(self.monitors, self.pos) {
            Some(c) => self.monitors[c].bounds.nearest(want),
            None => self.pos,
        }
    }

    /// Where the cursor enters the peer on a move towards `want`: on the near edge
    /// of the monitor entered, at the same share of that edge at which it left a
    /// monitor of this machine. A cursor that was on none of them leaves no edge, and
    /// enters where the move ends.
    pub open spec fn entry(self, want: Point) -> Point {
        let new = self.landing(want);
        match (index_at(self.monitors, self.pos), index_at(self.monitors, new)) {
            (Some(l), Some(e)) if self.monitors[l].id.device == self.me => entry_across(
                self.monitors[l].bounds,
                self.monitors[e].bounds,
                self.pos,
                want,
            ),
            _ => new,
        }
    }

    /// How hard a move towards `want` pushes against the current monitor.
    pub open spec fn push(self, want: Point) -> int {
        match index_at(self.monitors, self.pos) {
            Some(c) => outside(self.monitors[c].bounds, want),
            None => 0,
        }
    }

    /// The middle of the first monitor on the peer's side, or on ours.
    pub open spec fn side_center(self, peer: bool) -> Option<Point> {
        match side_from(self.monitors, self.me, peer, 0) {
            Some(i) => Some(center(self.monitors[i].bounds)),
            None => None,
        }
    }

    /// An event that is nothing special goes where the cursor is.
    pub open spec fn routed(self, event: InputEvent) -> Action {
        if self.grabbed {
            Action::Forward(event)
        } else {
            Action::PassThrough
        }
    }

    /// A motion of the pointer.
    pub open spec fn after_motion(self, dx: int, dy: int) -> (ControllerState, Action) {
        let want = wanted(self.pos, dx, dy);
        let motion = InputEvent::PointerMotion { dx: dx as i32, dy: dy as i32 };
        let new = self.landing(want);
        let crosses = self.on_peer(new) != self.grabbed;
        if self.locked && crosses {
            (ControllerState { pos: self.kept(want), ..self }, self.routed(motion))
        } else if !crosses {
            let accum = if self.grabbed {
                self.edge_accum
            } else {
                0
            };
            (ControllerState { pos: new, edge_accum: accum, ..self }, self.routed(motion))
        } else if self.grabbed {
            (
                ControllerState { pos: new, grabbed: false, edge_accum: 0, ..self },
                Action::Leave,
            )
        } else {
            self.after_push(want)
        }
    }

    /// A move towards `want` that ends on the peer: it is held back until enough push
    /// is collected.
    pub open spec fn after_push(self, want: Point) -> (ControllerState, Action) {
        if self.edge_px > 0 && self.edge_accum + self.push(want) < self.edge_px {
            (
                ControllerState {
                    pos: self.kept(want),
                    edge_accum: (self.edge_accum + self.push(want)) as i32,
                    ..self
                },
                Action::PassThrough,
            )
        } else {
            let accum = if self.edge_px > 0 {
                0
            } else {
                self.edge_accum
            };
            let at = self.entry(want);
            (
                ControllerState { pos: at, grabbed: true, edge_accum: accum, ..self },
                Action::Enter { at, mods: self.mods },
            )
        }
    }

    /// The switch hotkey: over to the peer's first monitor, or back to ours,
    /// whatever the lock and the edges say.
    pub open spec fn after_switch(self) -> (ControllerState, Action) {
        if self.grabbed {
            (
                ControllerState {
                    grabbed: false,
                    edge_accum: 0,
                    pos: match self.side_center(false) {
                        Some(c) => c,
                        None => self.pos,
                    },
                    ..self
                },
                Action::Leave,
            )
        } else {
            match self.side_center(true) {
                Some(c) => (
                    ControllerState { grabbed: true, edge_accum: 0, pos: c, ..self },
                    Action::Enter { at: c, mods: self.mods },
                ),
                None => (ControllerState { edge_accum: 0, ..self }, Action::PassThrough),
            }
        }
    }

    /// A key goes down or up.
    pub open spec fn after_key(self, code: KeyCode, pressed: bool, mods: Modifiers) -> (
        ControllerState,
        Action,
    ) {
        let now = ControllerState { mods, ..self };
        let event = InputEvent::Key { code, pressed, mods };
        if !pressed {
            (
                ControllerState { lock_held: false, switch_held: false, ..now },
                now.routed(event),
            )
        } else if now.lock_key matches Some(hk) && hk.fires(code, mods) {
            if now.lock_held {
                (now, Action::PassThrough)
            } else {
                (
                    ControllerState { locked: !now.locked, lock_held: true, ..now },
                    Action::PassThrough,
                )
            }
        } else if now.switch matches Some(hk) && hk.fires(code, mods) {
            if now.switch_held {
                (now, Action::PassThrough)
            } else {
                ControllerState { switch_held: true, ..now }.after_switch()
            }
        } else {
            (now, now.routed(event))
        }
    }

    /// The event asks for a move that coordinates can express.
    pub open spec fn accepts(self, event: InputEvent) -> bool {
        match event {
            InputEvent::PointerMotion { dx, dy } => is_i32(self.pos.x + dx) && is_i32(
                self.pos.y + dy,
            ),
            InputEvent::PointerPosition { at } => is_i32(at.x - self.pos.x) && is_i32(
                at.y - self.pos.y,
            ),
            _ => true,
        }
    }

    /// One captured event: the next state, and what to do.
    pub open spec fn after(self, event: InputEvent) -> (ControllerState, Action) {
        match event {
            InputEvent::PointerMotion { dx, dy } => self.after_motion(dx as int, dy as int),
            InputEvent::PointerPosition { at } => self.after_motion(
                at.x - self.pos.x,
                at.y - self.pos.y,
            ),
            InputEvent::Key { code, pressed, mods } => self.after_key(code, pressed, mods),
            _ => (self, self.routed(event)),
        }
    }
}

/// The hotkey that a text names, if it names one.
pub open spec fn hotkey_named(t: Seq<char>) -> Option<Hotkey> {
    match hotkey_read(t) {
        Ok((mods, Some(code))) => Some(Hotkey { mods: Modifiers(mods), code: KeyCode(code) }),
        _ => None,
    }
}

fn hotkey_from(text: &str) -> (r: Option<Hotkey>)
    ensures
        r == hotkey_named(text@),
{
    match Hotkey::parse(text) {
        Ok(h) => Some(h),
        Err(_) => None,
    }
}

/// How far `p` lies outside `r`.
fn outside_distance(r: &Rect, p: Point) -> (d: i64)
    requires
        r.in_range(),
    ensures
        d == outside(*r, p),
        -0x1_0000_0000 <= d <= 0x1_0000_0000,
{
    let dx = crate::layout::axis_distance(p.x, r.left(), r.right());
    let dy = crate::layout::axis_distance(p.y, r.top(), r.bottom());
    if dx >= dy {
        dx
    } else {
        dy
    }
}

pub(crate) fn halved(n: i32) -> (h: i32)
    ensures
        h == half(n as int),
        n >= 0 ==> 0 <= h <= n,
        n < 0 ==> n <= h <= 0,
{
    if n >= 0 {
        n / 2
    } else {
        let m: i64 = -(n as i64);
        (-(m / 2)) as i32
    }
}

impl Controller {
    /// A controller whose cursor starts at `start`, with no resistance at the
    /// edges and no hotkeys.
    pub fn new(vd: VirtualDesktop, me: DeviceId, start: Point) -> (c: Self)
        ensures
            c@ == (ControllerState {
                monitors: vd.monitors@,
                me,
                pos: start,
                grabbed: false,
                mods: Modifiers(0),
                locked: false,
                edge_px: 0,
                edge_accum: 0,
                switch: None,
                lock_key: None,
                switch_held: false,
                lock_held: false,
            }),
    {
        Controller {
            vd,
            me,
            pos: start,
            grabbed: false,
            mods: Modifiers::empty(),
            locked: false,
            edge_px: 0,
            edge_accum: 0,
            switch: None,
            lock_key: None,
            switch_held: false,
            lock_held: false,
        }
    }

    /// Applies the user's choice of resistance and hotkeys. A text that names
    /// no hotkey leaves that hotkey out.
    pub fn with_input_config(self, cfg: &InputConfig) -> (c: Self)
        ensures
            c@ == (ControllerState {
                edge_px: if cfg.edge_resistance_px > 0 {
                    cfg.edge_resistance_px
                } else {
                    0
                },
                switch: hotkey_named(cfg.switch_hotkey@),
                lock_key: hotkey_named(cfg.lock_hotkey@),
                ..self@
            }),
    {
        let mut c = self;
        c.edge_px = if cfg.edge_resistance_px > 0 {
            cfg.edge_resistance_px
        } else {
            0
        };
        c.switch = hotkey_from(cfg.switch_hotkey.as_str());
        c.lock_key = hotkey_from(cfg.lock_hotkey.as_str());
        c
    }

    /// Whether the cursor is on a monitor of the peer.
    pub fn grabbed(&self) -> (b: bool)
        ensures
            b == self@.grabbed,
    {
        self.grabbed
    }

    /// Whether the cursor is locked to its machine.
    pub fn locked(&self) -> (b: bool)
        ensures
            b == self@.locked,
    {
        self.locked
    }

    /// Where the cursor is.
    pub fn position(&self) -> (p: Point)
        ensures
            p == self@.pos,
    {
        self.pos
    }

    /// Whether the event asks for a move that coordinates can express.
    pub fn can_take(&self, event: &InputEvent) -> (b: bool)
        ensures
            b == self@.accepts(*event),
    {
        let (x, y): (i64, i64) = (self.pos.x as i64, self.pos.y as i64);
        let (to_x, to_y): (i64, i64) = match event {
            InputEvent::PointerMotion { dx, dy } => (x + *dx as i64, y + *dy as i64),
            InputEvent::PointerPosition { at } => (at.x as i64 - x, at.y as i64 - y),
            _ => (0, 0),
        };
        i32::MIN as i64 <= to_x && to_x <= i32::MAX as i64 && i32::MIN as i64 <= to_y && to_y
            <= i32::MAX as i64
    }

    /// Takes one captured event and says what to do with it.
    pub fn on_event(&mut self, event: InputEvent) -> (r: Vec<Action>)
        requires
            old(self)@.wf(),
            old(self)@.accepts(event),
        ensures
            (final(self)@, r@) == ({
                let (next, action) = old(self)@.after(event);
                (next, seq![action])
            }),
            final(self)@.wf(),
    {
        match event {
            InputEvent::PointerMotion { dx, dy } => self.on_motion(dx, dy),
            InputEvent::PointerPosition { at } => {
                let dx: i32 = at.x - self.pos.x;
                let dy: i32 = at.y - self.pos.y;
                self.on_motion(dx, dy)
            },
            InputEvent::Key { code, pressed, mods } => {
                self.mods = mods;
                if let Some(action) = self.handle_hotkey(code, pressed, mods) {
                    return vec![action];
                }
                vec![self.route(event)]
            },
            _ => vec![self.route(event)],
        }
    }

    /// Takes the cursor back where the peer has it, to the middle of our first monitor.
    pub fn release(&mut self) -> (r: Option<Action>)
        requires
            old(self)@.wf(),
        ensures
            if old(self)@.grabbed {
                (final(self)@, r) == (old(self)@.after_switch().0, Some(Action::Leave))
            } else {
                final(self)@ == old(self)@ && r is None
            },
            !final(self)@.grabbed,
            final(self)@.wf(),
    {
        if self.grabbed {
            Some(self.force_switch())
        } else {
            None
        }
    }

    fn route(&self, event: InputEvent) -> (a: Action)
        ensures
            a == self@.routed(event),
    {
        if self.grabbed {
            Action::Forward(event)
        } else {
            Action::PassThrough
        }
    }

    /// Takes the lock and the switch hotkey out of the stream of keys, each
    /// once per press. `None` where the key is neither.
    fn handle_hotkey(&mut self, code: KeyCode, pressed: bool, mods: Modifiers) -> (r: Option<
        Action,
    >)
        requires
            old(self)@.wf(),
            old(self)@.mods == mods,
        ensures
            (final(self)@, match r {
                Some(a) => a,
                None => final(self)@.routed(InputEvent::Key { code, pressed, mods }),
            }) == old(self)@.after_key(code, pressed, mods),
    {
        if !pressed {
            self.lock_held = false;
            self.switch_held = false;
            return None;
        }
        if let Some(hk) = self.lock_key {
            if hk.matches(code, mods) {
                if !self.lock_held {
                    self.locked = !self.locked;
                    self.lock_held = true;
                }
                return Some(Action::PassThrough);
            }
        }
        if let Some(hk) = self.switch {
            if hk.matches(code, mods) {
                if !self.switch_held {
                    self.switch_held = true;
                    return Some(self.force_switch());
                }
                return Some(Action::PassThrough);
            }
        }
        None
    }

    /// Forces the cursor over the boundary, whatever the lock and the edges
    /// say.
    fn force_switch(&mut self) -> (a: Action)
        requires
            old(self)@.wf(),
        ensures
            (final(self)@, a) == old(self)@.after_switch(),
    {
        self.edge_accum = 0;
        if self.grabbed {
            self.grabbed = false;
            if let Some(c) = self.monitor_center(false) {
                self.pos = c;
            }
            Action::Leave
        } else if let Some(c) = self.monitor_center(true) {
            self.grabbed = true;
            self.pos = c;
            Action::Enter { at: c, mods: self.mods }
        } else {
            Action::PassThrough
        }
    }

    /// The middle of the first monitor of the peer, or of ours.
    fn monitor_center(&self, peer: bool) -> (r: Option<Point>)
        requires
            self@.wf(),
        ensures
            r == self@.side_center(peer),
    {
        let mut i: usize = 0;
        while i < self.vd.monitors.len()
            invariant
                0 <= i <= self.vd.monitors.len(),
                all_in_range(self.vd.monitors@),
                side_from(self.vd.monitors@, self.me, peer, 0) == side_from(
                    self.vd.monitors@,
                    self.me,
                    peer,
                    i as int,
                ),
            decreases self.vd.monitors.len() - i,
        {
            let m = &self.vd.monitors[i];
            if (m.device() != self.me) == peer {
                let x: i32 = m.bounds.x + halved(m.bounds.w);
                let y: i32 = m.bounds.y + halved(m.bounds.h);
                return Some(Point::new(x, y));
            }
            i = i + 1;
        }
        None
    }

    /// Where the cursor enters the peer on a move towards `want` that ends at `new`.
    fn entry_point(&self, want: Point, new: Point) -> (at: Point)
        requires
            self@.wf(),
            new == self@.landing(want),
        ensures
            at == self@.entry(want),
    {
        proof {
            lemma_index_at_from(self.vd.monitors@, self.pos, 0);
            lemma_index_at_from(self.vd.monitors@, new, 0);
        }
        match (self.vd.monitor_at(self.pos), self.vd.monitor_at(new)) {
            (Some(left), Some(entered)) => {
                if left.device() == self.me {
                    relative_entry(left.bounds, entered.bounds, self.pos, want)
                } else {
                    new
                }
            },
            _ => new,
        }
    }

    /// Pushes against the edge, and crosses it where that suffices.
    fn cross_out(&mut self, want: Point, new: Point, kept: Point, push: i64) -> (a: Action)
        requires
            old(self)@.wf(),
            new == old(self)@.landing(want),
            kept == old(self)@.kept(want),
            push == old(self)@.push(want),
            0 <= push <= 0x1_0000_0000,
        ensures
            (final(self)@, a) == old(self)@.after_push(want),
            final(self)@.wf(),
    {
        if self.edge_px > 0 {
            let pushed: i64 = self.edge_accum as i64 + push;
            if pushed < self.edge_px as i64 {
                self.edge_accum = pushed as i32;
                self.pos = kept;
                return Action::PassThrough;
            }
        }
        let at = self.entry_point(want, new);
        if self.edge_px > 0 {
            self.edge_accum = 0;
        }
        self.pos = at;
        self.grabbed = true;
        Action::Enter { at, mods: self.mods }
    }

    /// A captured motion of the pointer.
    pub fn on_motion(&mut self, dx: i32, dy: i32) -> (r: Vec<Action>)
        requires
            old(self)@.wf(),
            is_i32(old(self)@.pos.x + dx),
            is_i32(old(self)@.pos.y + dy),
        ensures
            (final(self)@, r@) == ({
                let (next, action) = old(self)@.after_motion(dx as int, dy as int);
                (next, seq![action])
            }),
            final(self)@.wf(),
    {
        let ghost before = self@;
        proof {
            lemma_index_at_from(self.vd.monitors@, self.pos, 0);
        }
        let motion = InputEvent::PointerMotion { dx, dy };
        let want = Point::new(self.pos.x + dx, self.pos.y + dy);
        let kept: Point;
        let push: i64;
        match self.vd.monitor_at(self.pos) {
            Some(m) => {
                kept = m.bounds.clamp(want);
                push = outside_distance(&m.bounds, want);
            },
            None => {
                kept = self.pos;
                push = 0;
            },
        }
        let new = if self.vd.monitor_at(want).is_some() {
            want
        } else {
            match self.vd.monitor_at(self.pos) {
                Some(m) => m.bounds.clamp(want),
                None => want,
            }
        };
        let on_peer = match self.vd.owner_at(new) {
            Some(o) => o != self.me,
            None => false,
        };
        if self.locked && on_peer != self.grabbed {
            self.pos = kept;
            return vec![self.route(motion)];
        }
        match (self.grabbed, on_peer) {
            (false, true) => {
                vec![self.cross_out(want, new, kept, push)]
            },
            (true, false) => {
                self.pos = new;
                self.grabbed = false;
                self.edge_accum = 0;
                vec![Action::Leave]
            },
            (true, true) => {
                self.pos = new;
                vec![Action::Forward(motion)]
            },
            (false, false) => {
                self.pos = new;
                self.edge_accum = 0;
                vec![Action::PassThrough]
            },
        }
    }
}

// --- Laws --------------------------------------------------------------------

/// The first monitor of a side belongs to that side; there is none only where
/// no monitor does.
pub proof fn lemma_side_from(ms: Seq<Monitor>, me: DeviceId, peer: bool, i: int)
    requires
        0 <= i <= ms.len(),
    ensures
        match side_from(ms, me, peer, i) {
            Some(k) => i <= k < ms.len() && (ms[k].id.device != me) == peer,
            None => forall|j: int|
                i <= j < ms.len() ==> ((#[trigger] ms[j]).id.device != me) != peer,
        },
    decreases ms.len() - i,
{
    if i < ms.len() && (ms[i].id.device != me) != peer {
        lemma_side_from(ms, me, peer, i + 1);
    }
}

/// What an event is answered with says how control moved: the cursor is handed
/// over exactly where the grab begins, and at the cursor's new place; it is
/// taken back exactly where the grab ends; events are forwarded only under a
/// grab, and passed through only where control did not move.
pub proof fn law_actions_follow_the_grab(s: ControllerState, event: InputEvent)
    ensures
        ({
            let (n, a) = s.after(event);
            &&& a is Enter <==> !s.grabbed && n.grabbed
            &&& a matches Action::Enter { at, .. } ==> at == n.pos
            &&& a is Leave <==> s.grabbed && !n.grabbed
            &&& a is Forward ==> s.grabbed && n.grabbed
            &&& a is PassThrough ==> s.grabbed == n.grabbed
        }),
{
}

/// What is forwarded is the event itself; an absolute position is forwarded as
/// the motion that leads to it.
pub proof fn law_forwarding_keeps_the_event(s: ControllerState, event: InputEvent)
    ensures
        s.after(event).1 matches Action::Forward(e) ==> match event {
            InputEvent::PointerPosition { at } => e == (InputEvent::PointerMotion {
                dx: (at.x - s.pos.x) as i32,
                dy: (at.y - s.pos.y) as i32,
            }),
            _ => e == event,
        },
{
}

/// A cursor on the desktop stays on the desktop, however far it is pushed.
pub proof fn law_motion_stays_on_the_desktop(s: ControllerState, dx: int, dy: int)
    requires
        s.wf(),
        index_at(s.monitors, s.pos) is Some,
    ensures
        index_at(s.monitors, s.after_motion(dx, dy).0.pos) is Some,
{
    let want = wanted(s.pos, dx, dy);
    lemma_index_at_from(s.monitors, s.pos, 0);
    lemma_index_at_from(s.monitors, s.kept(want), 0);
    let c = index_at(s.monitors, s.pos)->0;
    assert(s.monitors[c].bounds.in_range());
    assert(s.monitors[c].bounds.covers(s.kept(want)));
    if s.after_motion(dx, dy).1 is Enter {
        lemma_entered(s, want);
        lemma_index_at_from(s.monitors, s.entry(want), 0);
    }
}

/// A point at which the peer is entered lies on the monitor that the move ends on.
proof fn lemma_entered(s: ControllerState, want: Point)
    requires
        s.wf(),
        s.on_peer(s.landing(want)),
    ensures
        ({
            let e = index_at(s.monitors, s.landing(want))->0;
            &&& 0 <= e < s.monitors.len()
            &&& s.monitors[e].id.device != s.me
            &&& s.monitors[e].bounds.covers(s.entry(want))
        }),
{
    let new = s.landing(want);
    lemma_index_at_from(s.monitors, s.pos, 0);
    lemma_index_at_from(s.monitors, new, 0);
    let e = index_at(s.monitors, new)->0;
    assert(s.monitors[e].bounds.in_range());
    if let Some(l) = index_at(s.monitors, s.pos) {
        assert(s.monitors[l].bounds.in_range());
        lemma_entry_inside(s.monitors[l].bounds, s.monitors[e].bounds, s.pos, want);
    }
}

/// The cursor that crosses from a monitor of this machine enters the peer at the
/// edge that it crossed: on the monitor that the move ends on, in the row or column
/// of that monitor next to the edge, and at the same share along it, however far the
/// move overshoots.
pub proof fn law_the_peer_is_entered_at_its_edge(s: ControllerState, dx: int, dy: int)
    requires
        s.wf(),
        s.after_motion(dx, dy).1 is Enter,
        index_at(s.monitors, s.pos) matches Some(l) && s.monitors[l].id.device == s.me,
    ensures
        ({
            let want = wanted(s.pos, dx, dy);
            let src = s.monitors[index_at(s.monitors, s.pos)->0].bounds;
            let e = index_at(s.monitors, s.landing(want))->0;
            let dst = s.monitors[e].bounds;
            let p = s.after_motion(dx, dy).0.pos;
            &&& 0 <= e < s.monitors.len()
            &&& s.monitors[e].id.device != s.me
            &&& s.after_motion(dx, dy).1 == Action::Enter { at: p, mods: s.mods }
            &&& dst.covers(p)
            &&& match edge_crossed(src, s.pos, want) {
                Edge::Right => p.x == dst.x && p.y == carried(
                    want.y as int,
                    src.y as int,
                    src.h as int,
                    dst.y as int,
                    dst.h as int,
                ),
                Edge::Left => p.x == dst.x + dst.w - 1 && p.y == carried(
                    want.y as int,
                    src.y as int,
                    src.h as int,
                    dst.y as int,
                    dst.h as int,
                ),
                Edge::Bottom => p.y == dst.y && p.x == carried(
                    want.x as int,
                    src.x as int,
                    src.w as int,
                    dst.x as int,
                    dst.w as int,
                ),
                Edge::Top => p.y == dst.y + dst.h - 1 && p.x == carried(
                    want.x as int,
                    src.x as int,
                    src.w as int,
                    dst.x as int,
                    dst.w as int,
                ),
            }
        }),
{
    let want = wanted(s.pos, dx, dy);
    lemma_entered(s, want);
    lemma_index_at_from(s.monitors, s.pos, 0);
    lemma_index_at_from(s.monitors, s.landing(want), 0);
    let src = s.monitors[index_at(s.monitors, s.pos)->0].bounds;
    let dst = s.monitors[index_at(s.monitors, s.landing(want))->0].bounds;
    assert(dst.in_range());
    lemma_carried_inside(want.y as int, src.y as int, src.h as int, dst.y as int, dst.h as int);
    lemma_carried_inside(want.x as int, src.x as int, src.w as int, dst.x as int, dst.w as int);
}

/// Where no monitors overlap, the grab says where the cursor is: it is held
/// exactly while the cursor is on a monitor of the peer. Every motion keeps it
/// so.
pub proof fn law_motion_keeps_grab_and_cursor_together(s: ControllerState, dx: int, dy: int)
    requires
        s.wf(),
        no_overlap(s.monitors),
        s.grabbed == s.on_peer(s.pos),
    ensures
        ({
            let n = s.after_motion(dx, dy).0;
            n.grabbed == n.on_peer(n.pos)
        }),
{
    let want = wanted(s.pos, dx, dy);
    lemma_index_at_from(s.monitors, s.pos, 0);
    if let Some(c) = index_at(s.monitors, s.pos) {
        assert(s.monitors[c].bounds.in_range());
        law_one_monitor_per_pixel(s.monitors, s.kept(want), c);
    }
    if s.after_motion(dx, dy).1 is Enter {
        lemma_entered(s, want);
        let e = index_at(s.monitors, s.landing(want))->0;
        law_one_monitor_per_pixel(s.monitors, s.entry(want), e);
    }
}

/// What a motion is answered with, where no monitors overlap and the grab says where the
/// cursor is. The grab still says so afterwards, and a lock leaves it as it was. The
/// cursor is handed over exactly where the grab begins, at a point on a monitor of the
/// peer; it is taken back exactly where the grab ends; the motion is forwarded as it is
/// exactly where the grab stays, and passed through exactly where there is none before
/// and after.
pub proof fn law_motion_follows_the_cursor(s: ControllerState, dx: i32, dy: i32)
    requires
        s.wf(),
        no_overlap(s.monitors),
        s.grabbed == s.on_peer(s.pos),
    ensures
        ({
            let (n, a) = s.after_motion(dx as int, dy as int);
            &&& n.grabbed == n.on_peer(n.pos)
            &&& s.locked ==> n.grabbed == s.grabbed
            &&& a is Enter <==> !s.grabbed && n.grabbed
            &&& a matches Action::Enter { at, .. } ==> at == n.pos && s.on_peer(at)
            &&& a == Action::Leave <==> s.grabbed && !n.grabbed
            &&& a == Action::Forward(InputEvent::PointerMotion { dx, dy }) <==> s.grabbed
                && n.grabbed
            &&& a == Action::PassThrough <==> !s.grabbed && !n.grabbed
        }),
{
    law_motion_keeps_grab_and_cursor_together(s, dx as int, dy as int);
}

/// The same holds of the switch hotkey, where the side that it switches to has
/// a monitor and no monitor is empty.
pub proof fn law_switch_keeps_grab_and_cursor_together(s: ControllerState)
    requires
        s.wf(),
        no_overlap(s.monitors),
        forall|i: int| 0 <= i < s.monitors.len() ==> (#[trigger] s.monitors[i]).bounds.nonempty(),
        s.side_center(!s.grabbed) is Some,
    ensures
        ({
            let n = s.after_switch().0;
            n.grabbed == !s.grabbed && n.grabbed == n.on_peer(n.pos)
        }),
{
    lemma_side_from(s.monitors, s.me, !s.grabbed, 0);
    let i = side_from(s.monitors, s.me, !s.grabbed, 0)->0;
    assert(s.monitors[i].bounds.in_range() && s.monitors[i].bounds.nonempty());
    law_one_monitor_per_pixel(s.monitors, center(s.monitors[i].bounds), i);
}

/// While the cursor is locked, no motion changes the machine.
pub proof fn law_lock_holds_the_machine(s: ControllerState, dx: int, dy: int)
    requires
        s.locked,
    ensures
        ({
            let (n, a) = s.after_motion(dx, dy);
            n.grabbed == s.grabbed && n.locked && !(a is Enter) && !(a is Leave)
        }),
{
}

/// With resistance at the edges, a motion hands the cursor over only once the
/// push collected, this motion's included, reaches the resistance, and, where no
/// monitors overlap, onto a monitor of the peer; a motion that is held back leaves the cursor local and
/// adds its push; a motion that stays on this machine starts the count again.
pub proof fn law_edges_resist(s: ControllerState, dx: int, dy: int)
    requires
        s.wf(),
        s.edge_px > 0,
        !s.grabbed,
        !s.locked,
    ensures
        ({
            let (n, a) = s.after_motion(dx, dy);
            let pushed = s.edge_accum + s.push(wanted(s.pos, dx, dy));
            let crosses = s.on_peer(s.landing(wanted(s.pos, dx, dy)));
            &&& a is Enter <==> crosses && pushed >= s.edge_px
            &&& a is Enter ==> n.edge_accum == 0
            &&& a is Enter && no_overlap(s.monitors) ==> n.on_peer(n.pos)
            &&& crosses && !(a is Enter) ==> !n.grabbed && n.edge_accum == pushed
            &&& !crosses ==> !n.grabbed && n.edge_accum == 0
        }),
{
    lemma_index_at_from(s.monitors, s.pos, 0);
    let want = wanted(s.pos, dx, dy);
    if s.after_motion(dx, dy).1 is Enter {
        lemma_entered(s, want);
        let e = index_at(s.monitors, s.landing(want))->0;
        if no_overlap(s.monitors) {
            law_one_monitor_per_pixel(s.monitors, s.entry(want), e);
        }
    }
}

/// Without resistance, the first motion onto a monitor of the peer hands the
/// cursor over.
pub proof fn law_no_resistance_no_delay(s: ControllerState, dx: int, dy: int)
    requires
        s.edge_px <= 0,
        !s.grabbed,
        !s.locked,
        s.on_peer(s.landing(wanted(s.pos, dx, dy))),
    ensures
        s.after_motion(dx, dy).1 is Enter,
{
}

/// Switching there and back ends where no grab is held, on a monitor of this
/// machine where it has one.
pub proof fn law_switching_twice_comes_back(s: ControllerState)
    requires
        !s.grabbed,
        s.side_center(true) is Some,
    ensures
        ({
            let (there, enter) = s.after_switch();
            let (back, leave) = there.after_switch();
            &&& enter is Enter && there.grabbed
            &&& leave is Leave && !back.grabbed
            &&& s.side_center(false) matches Some(c) ==> back.pos == c
        }),
{
}

/// A hotkey acts once for each press: repeats of a held key change nothing,
/// and a release arms it again.
pub proof fn law_hotkeys_fire_once_per_press(
    s: ControllerState,
    code: KeyCode,
    mods: Modifiers,
    released: Modifiers,
)
    requires
        s.lock_key matches Some(hk) && hk.fires(code, mods),
        !s.lock_held,
    ensures
        ({
            let (down, _) = s.after_key(code, true, mods);
            let (again, act) = down.after_key(code, true, mods);
            let (up, _) = again.after_key(code, false, released);
            let (anew, _) = up.after_key(code, true, mods);
            &&& down.locked == !s.locked
            &&& again == down
            &&& act is PassThrough
            &&& up.locked == down.locked
            &&& anew.locked == s.locked
        }),
{
}

/// A motion that asks for a pixel of a monitor `k` of the machine that has the cursor,
/// with no monitor before it in the list that has that pixel, puts the cursor exactly
/// there, whatever the lock and the edges say.
pub proof fn law_the_cursor_goes_where_it_is_moved(s: ControllerState, dx: i32, dy: i32, k: int)
    requires
        s.wf(),
        is_i32(s.pos.x + dx),
        is_i32(s.pos.y + dy),
        0 <= k < s.monitors.len(),
        s.monitors[k].bounds.x <= s.pos.x + dx < s.monitors[k].bounds.x + s.monitors[k].bounds.w,
        s.monitors[k].bounds.y <= s.pos.y + dy < s.monitors[k].bounds.y + s.monitors[k].bounds.h,
        forall|j: int|
            0 <= j < k ==> {
                let b = (#[trigger] s.monitors[j]).bounds;
                !(b.x <= s.pos.x + dx < b.x + b.w && b.y <= s.pos.y + dy < b.y + b.h)
            },
        (s.monitors[k].id.device != s.me) == s.grabbed,
    ensures
        ({
            let n = s.after_motion(dx as int, dy as int).0;
            n.pos.x == s.pos.x + dx && n.pos.y == s.pos.y + dy && n.grabbed == s.grabbed
        }),
{
    let want = wanted(s.pos, dx as int, dy as int);
    lemma_index_at_from(s.monitors, want, 0);
    assert(s.monitors[k].bounds.covers(want));
    assert(index_at(s.monitors, want) == Some(k));
}

/// A motion off the desktop from the only monitor `c` under the cursor leaves the cursor
/// on that monitor, at the pixel next to where it was moved: on each axis as moved, as
/// far as the monitor goes.
pub proof fn law_the_cursor_stops_at_the_edge_of_the_desktop(
    s: ControllerState,
    dx: i32,
    dy: i32,
    c: int,
)
    requires
        s.wf(),
        is_i32(s.pos.x + dx),
        is_i32(s.pos.y + dy),
        0 <= c < s.monitors.len(),
        s.monitors[c].bounds.x <= s.pos.x < s.monitors[c].bounds.x + s.monitors[c].bounds.w,
        s.monitors[c].bounds.y <= s.pos.y < s.monitors[c].bounds.y + s.monitors[c].bounds.h,
        forall|j: int|
            0 <= j < s.monitors.len() && j != c ==> {
                let (b, a) = ((#[trigger] s.monitors[j]).bounds, s.monitors[c].bounds);
                b.x + b.w <= a.x || a.x + a.w <= b.x || b.y + b.h <= a.y || a.y + a.h <= b.y
            },
        forall|j: int|
            0 <= j < s.monitors.len() ==> {
                let b = (#[trigger] s.monitors[j]).bounds;
                !(b.x <= s.pos.x + dx < b.x + b.w && b.y <= s.pos.y + dy < b.y + b.h)
            },
        (s.monitors[c].id.device != s.me) == s.grabbed,
    ensures
        ({
            let b = s.monitors[c].bounds;
            let n = s.after_motion(dx as int, dy as int).0;
            &&& n.grabbed == s.grabbed
            &&& n.pos.x == if s.pos.x + dx < b.x {
                b.x as int
            } else if s.pos.x + dx > b.x + b.w - 1 {
                b.x + b.w - 1
            } else {
                s.pos.x + dx
            }
            &&& n.pos.y == if s.pos.y + dy < b.y {
                b.y as int
            } else if s.pos.y + dy > b.y + b.h - 1 {
                b.y + b.h - 1
            } else {
                s.pos.y + dy
            }
        }),
{
    let want = wanted(s.pos, dx as int, dy as int);
    lemma_index_at_from(s.monitors, want, 0);
    lemma_index_at_from(s.monitors, s.pos, 0);
    let b = s.monitors[c].bounds;
    assert(b.covers(s.pos));
    assert(b.in_range());
    assert(index_at(s.monitors, want) is None);
    let i = index_at(s.monitors, s.pos)->0;
    assert(i == c) by {
        if i != c {
            assert(s.monitors[i].bounds.covers(s.pos));
        }
    }
    let p = b.nearest(want);
    assert(b.covers(p));
    lemma_index_at_from(s.monitors, p, 0);
    let j = index_at(s.monitors, p)->0;
    assert(j == c) by {
        if j != c {
            assert(s.monitors[j].bounds.covers(p));
        }
    }
}

/// The push of a move against the monitor under the cursor is how far its end lies
/// beyond the edge of that monitor that it passes furthest, and nothing where it passes
/// none.
pub proof fn law_push_is_the_way_beyond_the_edge(s: ControllerState, want: Point, c: int, e: Edge)
    requires
        index_at(s.monitors, s.pos) == Some(c),
        s.monitors[c].bounds.w >= 1,
        s.monitors[c].bounds.h >= 1,
    ensures
        ({
            let b = s.monitors[c].bounds;
            &&& s.push(want) >= 0
            &&& s.push(want) >= beyond(b, want, e)
            &&& s.push(want) == 0 || s.push(want) == beyond(b, want, Edge::Left) || s.push(want)
                == beyond(b, want, Edge::Right) || s.push(want) == beyond(b, want, Edge::Top)
                || s.push(want) == beyond(b, want, Edge::Bottom)
        }),
{
}

/// While the cursor is kept at an edge that resists, it stays on its monitor, and each
/// motion adds to the push exactly what it presses beyond the edge; once the push
/// reaches the resistance the peer is entered, and the push is spent.
pub proof fn law_push_adds_up_to_the_resistance(s: ControllerState, dx: i32, dy: i32, c: int, k: int)
    requires
        s.wf(),
        is_i32(s.pos.x + dx),
        is_i32(s.pos.y + dy),
        !s.grabbed,
        !s.locked,
        s.edge_px > 0,
        index_at(s.monitors, s.pos) == Some(c),
        s.monitors[c].id.device == s.me,
        index_at(s.monitors, wanted(s.pos, dx as int, dy as int)) == Some(k),
        s.monitors[k].id.device != s.me,
    ensures
        ({
            let b = s.monitors[c].bounds;
            let x = s.pos.x + dx;
            let y = s.pos.y + dy;
            let over_x = if x >= b.x + b.w {
                x - (b.x + b.w - 1)
            } else if x < b.x {
                b.x - x
            } else {
                0
            };
            let over_y = if y >= b.y + b.h {
                y - (b.y + b.h - 1)
            } else if y < b.y {
                b.y - y
            } else {
                0
            };
            let over = if over_x > over_y {
                over_x
            } else {
                over_y
            };
            let (n, a) = s.after_motion(dx as int, dy as int);
            &&& s.edge_accum + over < s.edge_px ==> a is PassThrough && n.edge_accum == s.edge_accum
                + over && !n.grabbed && b.x <= n.pos.x < b.x + b.w && b.y <= n.pos.y < b.y + b.h
            &&& s.edge_accum + over >= s.edge_px ==> a is Enter && n.edge_accum == 0 && n.grabbed
        }),
{
    lemma_index_at_from(s.monitors, s.pos, 0);
    lemma_index_at_from(s.monitors, wanted(s.pos, dx as int, dy as int), 0);
    assert(s.monitors[c].bounds.in_range());
}

/// The switch hotkey takes the cursor to the middle of the first monitor of the other
/// side: no monitor before it in the list is of that side, and the cursor has as many
/// pixels of it on the left as on the right, and above as below, up to one.
pub proof fn law_switching_goes_to_the_middle_of_the_first_monitor(s: ControllerState, k: int)
    requires
        s.wf(),
        0 <= k < s.monitors.len(),
        s.monitors[k].bounds.w >= 1,
        s.monitors[k].bounds.h >= 1,
        (s.monitors[k].id.device == s.me) == s.grabbed,
        forall|j: int|
            0 <= j < k ==> ((#[trigger] s.monitors[j]).id.device == s.me) != s.grabbed,
    ensures
        ({
            let (n, a) = s.after_switch();
            let b = s.monitors[k].bounds;
            let left = n.pos.x - b.x;
            let right = b.x + b.w - n.pos.x;
            let above = n.pos.y - b.y;
            let below = b.y + b.h - n.pos.y;
            &&& 0 <= left <= right <= left + 1
            &&& 0 <= above <= below <= above + 1
            &&& n.grabbed == !s.grabbed
            &&& s.grabbed ==> a is Leave
            &&& !s.grabbed ==> a == Action::Enter { at: n.pos, mods: s.mods }
            &&& n.edge_accum == 0
            &&& n.locked == s.locked
        }),
{
    lemma_side_first(s.monitors, s.me, !s.grabbed, 0, k);
    assert(s.monitors[k].bounds.in_range());
}

proof fn lemma_side_first(ms: Seq<Monitor>, me: DeviceId, peer: bool, i: int, k: int)
    requires
        0 <= i <= k < ms.len(),
        (ms[k].id.device != me) == peer,
        forall|j: int| 0 <= j < k ==> ((#[trigger] ms[j]).id.device != me) != peer,
    ensures
        side_from(ms, me, peer, i) == Some(k),
    decreases k - i,
{
    if i < k {
        lemma_side_first(ms, me, peer, i + 1, k);
    }
}

/// The switch hotkey goes to the other machine once for each press, and the lock hotkey
/// turns the lock once for each press; neither is sent on, and keys that are no hotkey go
/// where the cursor is, with the modifiers as they are now.
pub proof fn law_keys_do_what_they_are_for(s: ControllerState, code: KeyCode, pressed: bool, mods: Modifiers)
    ensures
        ({
            let (n, a) = s.after_key(code, pressed, mods);
            let locks = pressed && (s.lock_key matches Some(hk) && hk.fires(code, mods));
            let switches = pressed && !locks && (s.switch matches Some(hk) && hk.fires(code, mods));
            &&& n.mods == mods
            &&& !pressed ==> !n.lock_held && !n.switch_held
            &&& locks ==> a is PassThrough && n.grabbed == s.grabbed && n.pos == s.pos && n.lock_held
            &&& locks && !s.lock_held ==> n.locked == !s.locked
            &&& locks && s.lock_held ==> n.locked == s.locked
            &&& switches ==> n.switch_held && n.locked == s.locked && !(a is Forward)
            &&& switches && s.switch_held ==> n.grabbed == s.grabbed && n.pos == s.pos
            &&& switches && !s.switch_held && s.grabbed ==> !n.grabbed && a is Leave
            &&& switches && !s.switch_held && !s.grabbed && s.side_center(true) is Some
                ==> n.grabbed && a is Enter
            &&& !locks && !switches ==> n.grabbed == s.grabbed && n.pos == s.pos && n.locked
                == s.locked && n.edge_accum == s.edge_accum
            &&& !locks && !switches && s.grabbed ==> a == Action::Forward(
                InputEvent::Key { code, pressed, mods },
            )
            &&& !locks && !switches && !s.grabbed ==> a is PassThrough
        }),
{
}

/// Buttons and wheels go where the cursor is and move nothing; an absolute position
/// moves the cursor as the motion that leads there does.
pub proof fn law_other_events_go_where_the_cursor_is(s: ControllerState, event: InputEvent, at: Point)
    requires
        event is Button || event is Scroll,
    ensures
        s.after(event).0 == s,
        s.grabbed ==> s.after(event).1 == Action::Forward(event),
        !s.grabbed ==> s.after(event).1 is PassThrough,
        s.after(InputEvent::PointerPosition { at }) == s.after_motion(
            at.x - s.pos.x,
            at.y - s.pos.y,
        ),
{
}

/// A cursor on the peer comes back as soon as it is moved onto a pixel of this machine,
/// and lands on that pixel; the push that was collected is gone.
pub proof fn law_the_cursor_comes_back(s: ControllerState, dx: i32, dy: i32)
    requires
        s.wf(),
        is_i32(s.pos.x + dx),
        is_i32(s.pos.y + dy),
        s.grabbed,
        !s.locked,
        owner(s.monitors, wanted(s.pos, dx as int, dy as int)) == Some(s.me),
    ensures
        ({
            let (n, a) = s.after_motion(dx as int, dy as int);
            &&& a is Leave
            &&& !n.grabbed
            &&& n.pos.x == s.pos.x + dx && n.pos.y == s.pos.y + dy
            &&& n.edge_accum == 0
        }),
{
}

/// Where there is nothing to switch to, a switch leaves the cursor and the grab as they are;
/// either way it ends the push against the edge.
pub proof fn law_switches_end_the_push(s: ControllerState)
    ensures
        s.after_switch().0.edge_accum == 0,
        !s.grabbed && s.side_center(true) is None ==> {
            &&& s.after_switch().0.pos == s.pos
            &&& !s.after_switch().0.grabbed
            &&& s.after_switch().1 is PassThrough
        },
        s.grabbed ==> s.after_switch().1 is Leave && !s.after_switch().0.grabbed,
{
}

/// A cursor that lies on no monitor pushes against no edge.
pub proof fn law_nothing_is_pushed_from_nowhere(s: ControllerState, want: Point)
    requires
        index_at(s.monitors, s.pos) is None,
    ensures
        s.push(want) == 0,
{
}

} // verus!
