//! The cursor focus state machine.
//!
//! At any moment one machine is active: it owns the cursor and captures input.
//! On each motion the active machine asks the virtual desktop whether the cursor
//! has crossed onto a monitor of another machine; if so it hands control over
//! and goes idle. A machine that is told to enter becomes active.

use crate::geometry::Point;
use crate::ids::DeviceId;
use crate::input::Modifiers;
use crate::layout::{
    all_in_range, entered, index_at, is_i32, law_crossing_lands_on_its_target, lemma_index_at_from,
    resolved, Monitor, VirtualDesktop,
};
use vstd::prelude::*;

verus! {

#[derive(Clone, Copy, Debug, PartialEq, Eq, Structural)]
pub enum Role {
    /// This machine owns the cursor.
    Active,
    /// Another machine owns the cursor; this one waits to be entered.
    Idle,
}

/// What the daemon does in response to an event.
#[derive(Clone, Copy, Debug, PartialEq)]
pub enum FocusAction {
    /// Nothing changes.
    Nothing,
    /// Move the local cursor; this machine stays active.
    MoveLocal(Point),
    /// Hand control to `to`, entering at `entry`. This machine goes idle.
    HandOff { to: DeviceId, entry: Point, mods: Modifiers },
    /// Control was received: become active, with the cursor at `entry`.
    Take { entry: Point },
}

pub struct FocusMachine {
    me: DeviceId,
    layout: VirtualDesktop,
    role: Role,
    cursor: Point,
    locked: bool,
    edge_resistance_px: i32,
    pending_push: i64,
}

/// The state of a focus machine.
pub struct FocusState {
    pub me: DeviceId,
    pub monitors: Seq<Monitor>,
    pub role: Role,
    pub cursor: Point,
    /// Control does not leave this machine by the edges.
    pub locked: bool,
    /// Pixels of push that a handoff takes; 0 or less for none.
    pub edge_resistance_px: i32,
    /// Pixels of push collected so far.
    pub pending_push: int,
}

impl View for FocusMachine {
    type V = FocusState;

    closed spec fn view(&self) -> FocusState {
        FocusState {
            me: self.me,
            monitors: self.layout.monitors@,
            role: self.role,
            cursor: self.cursor,
            locked: self.locked,
            edge_resistance_px: self.edge_resistance_px,
            pending_push: self.pending_push as int,
        }
    }
}

/// The larger of the two axis distances of a motion.
pub open spec fn reach(dx: int, dy: int) -> int {
    let ax = crate::geometry::distance(dx, 0);
    let ay = crate::geometry::distance(dy, 0);
    if ax >= ay {
        ax
    } else {
        ay
    }
}

impl FocusState {
    /// The edges of every monitor are coordinates, and the push collected is
    /// what motions below the resistance can add up to.
    pub open spec fn wf(self) -> bool {
        &&& all_in_range(self.monitors)
        &&& 0 <= self.pending_push <= 0xffff_ffff
    }

    /// The machine can be asked for this motion: it is idle, or the place that
    /// the motion asks for is expressible, and the monitor entered, if any, is
    /// not empty.
    pub open spec fn accepts(self, dx: int, dy: int) -> bool {
        self.role == Role::Active ==> {
            &&& is_i32(self.cursor.x + dx)
            &&& is_i32(self.cursor.y + dy)
            &&& entered(self.monitors, self.cursor, self.want(dx, dy)) matches Some(i)
                ==> self.monitors[i].bounds.nonempty()
        }
    }

    /// The pixel that a motion asks for.
    pub open spec fn want(self, dx: int, dy: int) -> Point {
        Point { x: (self.cursor.x + dx) as i32, y: (self.cursor.y + dy) as i32 }
    }

    /// The cursor kept on its own monitor, as close to `want` as that allows.
    pub open spec fn staying(self, want: Point) -> Point {
        match index_at(self.monitors, self.cursor) {
            Some(c) => self.monitors[c].bounds.nearest(want),
            None => want,
        }
    }

    /// A motion, and what it leads to.
    pub open spec fn after_motion(self, dx: int, dy: int, mods: Modifiers) -> (
        FocusState,
        FocusAction,
    ) {
        let want = self.want(dx, dy);
        let stay = self.staying(want);
        if self.role != Role::Active {
            (self, FocusAction::Nothing)
        } else {
            match resolved(self.monitors, self.cursor, want) {
                None => (FocusState { cursor: stay, ..self }, FocusAction::MoveLocal(stay)),
                Some(t) => if t.device == self.me {
                    (
                        FocusState { cursor: t.entry, pending_push: 0, ..self },
                        FocusAction::MoveLocal(t.entry),
                    )
                } else if self.locked {
                    (FocusState { cursor: stay, ..self }, FocusAction::MoveLocal(stay))
                } else if self.edge_resistance_px > 0 && self.pending_push
                    < self.edge_resistance_px {
                    (
                        FocusState {
                            cursor: stay,
                            pending_push: self.pending_push + reach(dx, dy),
                            ..self
                        },
                        FocusAction::MoveLocal(stay),
                    )
                } else {
                    (
                        FocusState {
                            role: Role::Idle,
                            cursor: t.entry,
                            pending_push: 0,
                            ..self
                        },
                        FocusAction::HandOff { to: t.device, entry: t.entry, mods },
                    )
                },
            }
        }
    }

    /// The peer handed control over.
    pub open spec fn after_enter(self, entry: Point) -> (FocusState, FocusAction) {
        (
            FocusState { role: Role::Active, cursor: entry, pending_push: 0, ..self },
            FocusAction::Take { entry },
        )
    }

    /// Control is forced over to `to`.
    pub open spec fn after_force(self, to: DeviceId, entry: Point, mods: Modifiers) -> (
        FocusState,
        FocusAction,
    ) {
        if self.role == Role::Active && to != self.me {
            (
                FocusState { role: Role::Idle, cursor: entry, ..self },
                FocusAction::HandOff { to, entry, mods },
            )
        } else {
            (self, FocusAction::Nothing)
        }
    }
}

impl FocusMachine {
    pub fn new(
        me: DeviceId,
        layout: VirtualDesktop,
        start_active: bool,
        edge_resistance_px: i32,
    ) -> (f: Self)
        ensures
            f@ == (FocusState {
                me,
                monitors: layout.monitors@,
                role: if start_active {
                    Role::Active
                } else {
                    Role::Idle
                },
                cursor: Point { x: 0, y: 0 },
                locked: false,
                edge_resistance_px,
                pending_push: 0,
            }),
    {
        FocusMachine {
            me,
            layout,
            role: if start_active {
                Role::Active
            } else {
                Role::Idle
            },
            cursor: Point::new(0, 0),
            locked: false,
            edge_resistance_px,
            pending_push: 0,
        }
    }

    pub fn role(&self) -> (r: Role)
        ensures
            r == self@.role,
    {
        self.role
    }

    pub fn cursor(&self) -> (p: Point)
        ensures
            p == self@.cursor,
    {
        self.cursor
    }

    pub fn set_layout(&mut self, layout: VirtualDesktop)
        ensures
            final(self)@ == (FocusState { monitors: layout.monitors@, ..old(self)@ }),
    {
        self.layout = layout;
    }

    pub fn toggle_lock(&mut self)
        ensures
            final(self)@ == (FocusState { locked: !old(self)@.locked, ..old(self)@ }),
    {
        self.locked = !self.locked;
    }

    /// Takes a relative motion captured here and says what to do.
    pub fn on_motion(&mut self, dx: i32, dy: i32, mods: Modifiers) -> (a: FocusAction)
        requires
            old(self)@.wf(),
            old(self)@.accepts(dx as int, dy as int),
        ensures
            (final(self)@, a) == old(self)@.after_motion(dx as int, dy as int, mods),
            final(self)@.wf(),
    {
        if self.role != Role::Active {
            return FocusAction::Nothing;
        }
        let from = self.cursor;
        let want = Point::new(from.x + dx, from.y + dy);
        match self.layout.resolve_move(from, want) {
            Some(t) => {
                if t.device != self.me {
                    if self.locked {
                        return self.stay_clamped(from, want);
                    }
                    if self.edge_resistance_px > 0 && self.pending_push
                        < self.edge_resistance_px as i64 {
                        let ax = crate::layout::abs_difference(dx, 0);
                        let ay = crate::layout::abs_difference(dy, 0);
                        let more: i64 = if ax >= ay {
                            ax
                        } else {
                            ay
                        };
                        self.pending_push = self.pending_push + more;
                        return self.stay_clamped(from, want);
                    }
                    self.pending_push = 0;
                    self.role = Role::Idle;
                    self.cursor = t.entry;
                    FocusAction::HandOff { to: t.device, entry: t.entry, mods }
                } else {
                    self.pending_push = 0;
                    self.cursor = t.entry;
                    FocusAction::MoveLocal(t.entry)
                }
            },
            None => self.stay_clamped(from, want),
        }
    }

    /// Keeps the cursor on its monitor.
    fn stay_clamped(&mut self, from: Point, want: Point) -> (a: FocusAction)
        requires
            all_in_range(old(self)@.monitors),
            from == old(self)@.cursor,
        ensures
            ({
                let stay = old(self)@.staying(want);
                &&& final(self)@ == (FocusState { cursor: stay, ..old(self)@ })
                &&& a == FocusAction::MoveLocal(stay)
            }),
    {
        proof {
            lemma_index_at_from(self.layout.monitors@, from, 0);
        }
        let clamped = match self.layout.monitor_at(from) {
            Some(m) => m.bounds.clamp(want),
            None => want,
        };
        self.cursor = clamped;
        FocusAction::MoveLocal(clamped)
    }

    /// The peer handed control to this machine at `entry`.
    pub fn on_enter(&mut self, entry: Point) -> (a: FocusAction)
        ensures
            (final(self)@, a) == old(self)@.after_enter(entry),
    {
        self.role = Role::Active;
        self.cursor = entry;
        self.pending_push = 0;
        FocusAction::Take { entry }
    }

    /// Control went to the peer.
    pub fn on_leave(&mut self)
        ensures
            final(self)@ == (FocusState { role: Role::Idle, ..old(self)@ }),
    {
        self.role = Role::Idle;
    }

    /// Forces the cursor onto another machine.
    pub fn force_switch(&mut self, to: DeviceId, entry: Point, mods: Modifiers) -> (a: FocusAction)
        ensures
            (final(self)@, a) == old(self)@.after_force(to, entry, mods),
    {
        if self.role == Role::Active && to != self.me {
            self.role = Role::Idle;
            self.cursor = entry;
            FocusAction::HandOff { to, entry, mods }
        } else {
            FocusAction::Nothing
        }
    }
}

/// An idle machine ignores motion until it is entered.
pub proof fn law_idle_ignores_motion(s: FocusState, dx: int, dy: int, mods: Modifiers)
    requires
        s.role == Role::Idle,
    ensures
        s.after_motion(dx, dy, mods) == (s, FocusAction::Nothing),
{
}

/// A motion makes the machine idle exactly where it hands control over, and
/// then to another device than this one, onto a monitor of that device.
pub proof fn law_handoff_goes_to_another_machine(s: FocusState, dx: int, dy: int, mods: Modifiers)
    requires
        s.wf(),
        s.accepts(dx, dy),
        s.role == Role::Active,
    ensures
        ({
            let (n, a) = s.after_motion(dx, dy, mods);
            &&& n.role == Role::Idle <==> a is HandOff
            &&& a matches FocusAction::HandOff { to, entry, mods: m } ==> {
                let i = entered(s.monitors, s.cursor, s.want(dx, dy))->0;
                &&& to != s.me
                &&& m == mods
                &&& 0 <= i < s.monitors.len()
                &&& s.monitors[i].id.device == to
                &&& s.monitors[i].bounds.covers(entry)
                &&& n.cursor == entry
            }
        }),
{
    law_crossing_lands_on_its_target(s.monitors, s.cursor, s.want(dx, dy));
}

/// A machine that is locked, or that still resists, keeps control.
pub proof fn law_lock_and_resistance_keep_control(s: FocusState, dx: int, dy: int, mods: Modifiers)
    requires
        s.role == Role::Active,
        s.locked || (s.edge_resistance_px > 0 && s.pending_push < s.edge_resistance_px),
    ensures
        s.after_motion(dx, dy, mods).0.role == Role::Active,
        !(s.after_motion(dx, dy, mods).1 is HandOff),
{
}

/// Handing control over and being entered again leaves the machine active with
/// the cursor where it was entered.
pub proof fn law_enter_reactivates(s: FocusState, entry: Point)
    ensures
        s.after_enter(entry).0.role == Role::Active,
        s.after_enter(entry).0.cursor == entry,
        s.after_enter(entry).0.monitors == s.monitors,
{
}

/// A motion that stays on the monitor `c` under the cursor moves the cursor by exactly
/// that much.
pub proof fn law_the_cursor_follows_the_motion(
    s: FocusState,
    dx: i32,
    dy: i32,
    mods: Modifiers,
    c: int,
)
    requires
        s.wf(),
        s.role == Role::Active,
        is_i32(s.cursor.x + dx),
        is_i32(s.cursor.y + dy),
        index_at(s.monitors, s.cursor) == Some(c),
        s.monitors[c].bounds.x <= s.cursor.x + dx < s.monitors[c].bounds.x + s.monitors[c].bounds.w,
        s.monitors[c].bounds.y <= s.cursor.y + dy < s.monitors[c].bounds.y + s.monitors[c].bounds.h,
    ensures
        ({
            let (n, a) = s.after_motion(dx as int, dy as int, mods);
            &&& n.cursor.x == s.cursor.x + dx && n.cursor.y == s.cursor.y + dy
            &&& a == FocusAction::MoveLocal(n.cursor)
            &&& n.role == Role::Active
            &&& n.pending_push == s.pending_push
        }),
{
    lemma_index_at_from(s.monitors, s.cursor, 0);
    assert(s.monitors[c].bounds.covers(s.want(dx as int, dy as int)));
}

/// A motion onto a pixel of another machine hands control to that machine, at that
/// pixel, where nothing holds it back; a lock keeps the cursor on its monitor, at the
/// pixel next to it; resistance does so too, and collects the larger of the two distances
/// moved, until enough is collected.
pub proof fn law_control_passes_to_the_machine_under_the_cursor(
    s: FocusState,
    dx: i32,
    dy: i32,
    mods: Modifiers,
    c: int,
    k: int,
)
    requires
        s.wf(),
        s.role == Role::Active,
        is_i32(s.cursor.x + dx),
        is_i32(s.cursor.y + dy),
        index_at(s.monitors, s.cursor) == Some(c),
        index_at(s.monitors, s.want(dx as int, dy as int)) == Some(k),
        s.monitors[k].id.device != s.me,
        ({
            let b = s.monitors[c].bounds;
            !(b.x <= s.cursor.x + dx < b.x + b.w && b.y <= s.cursor.y + dy < b.y + b.h)
        }),
    ensures
        ({
            let (n, a) = s.after_motion(dx as int, dy as int, mods);
            let b = s.monitors[c].bounds;
            let resists = s.edge_resistance_px > 0 && s.pending_push < s.edge_resistance_px;
            let wide = if dx < 0 {
                -dx
            } else {
                dx as int
            };
            let tall = if dy < 0 {
                -dy
            } else {
                dy as int
            };
            &&& !s.locked && !resists ==> {
                &&& n.role == Role::Idle && n.pending_push == 0
                &&& n.cursor.x == s.cursor.x + dx && n.cursor.y == s.cursor.y + dy
                &&& a matches FocusAction::HandOff { to, entry, mods: m } && to
                    == s.monitors[k].id.device && entry == n.cursor && m == mods
            }
            &&& s.locked || resists ==> {
                &&& n.role == Role::Active && a == FocusAction::MoveLocal(n.cursor)
                &&& b.x <= n.cursor.x < b.x + b.w && b.y <= n.cursor.y < b.y + b.h
                &&& b.x <= s.cursor.x + dx < b.x + b.w ==> n.cursor.x == s.cursor.x + dx
                &&& s.cursor.x + dx < b.x ==> n.cursor.x == b.x
                &&& s.cursor.x + dx >= b.x + b.w ==> n.cursor.x == b.x + b.w - 1
                &&& b.y <= s.cursor.y + dy < b.y + b.h ==> n.cursor.y == s.cursor.y + dy
                &&& s.cursor.y + dy < b.y ==> n.cursor.y == b.y
                &&& s.cursor.y + dy >= b.y + b.h ==> n.cursor.y == b.y + b.h - 1
            }
            &&& !s.locked && resists ==> n.pending_push == s.pending_push + if wide > tall {
                wide
            } else {
                tall
            }
            &&& s.locked ==> n.pending_push == s.pending_push
        }),
{
    lemma_index_at_from(s.monitors, s.cursor, 0);
    lemma_index_at_from(s.monitors, s.want(dx as int, dy as int), 0);
    assert(s.monitors[c].bounds.in_range());
    assert(s.monitors[k].bounds.in_range());
    assert(!s.monitors[c].bounds.covers(s.want(dx as int, dy as int)));
}

/// A motion onto another monitor of the same machine moves the cursor there, whatever
/// the lock and the edges say, and starts the push again.
pub proof fn law_own_monitors_are_one_desktop(
    s: FocusState,
    dx: i32,
    dy: i32,
    mods: Modifiers,
    c: int,
    k: int,
)
    requires
        s.wf(),
        s.role == Role::Active,
        is_i32(s.cursor.x + dx),
        is_i32(s.cursor.y + dy),
        index_at(s.monitors, s.cursor) == Some(c),
        index_at(s.monitors, s.want(dx as int, dy as int)) == Some(k),
        s.monitors[k].id.device == s.me,
        !s.monitors[c].bounds.covers(s.want(dx as int, dy as int)),
    ensures
        ({
            let (n, a) = s.after_motion(dx as int, dy as int, mods);
            &&& n.cursor.x == s.cursor.x + dx && n.cursor.y == s.cursor.y + dy
            &&& a == FocusAction::MoveLocal(n.cursor)
            &&& n.role == Role::Active && n.pending_push == 0
        }),
{
    lemma_index_at_from(s.monitors, s.cursor, 0);
    lemma_index_at_from(s.monitors, s.want(dx as int, dy as int), 0);
    assert(s.monitors[k].bounds.in_range());
}

/// A forced switch hands control over exactly from the active machine to another one,
/// whatever the lock says.
pub proof fn law_forced_switches_need_another_machine(
    s: FocusState,
    to: DeviceId,
    entry: Point,
    mods: Modifiers,
)
    ensures
        ({
            let (n, a) = s.after_force(to, entry, mods);
            &&& s.role == Role::Active && to != s.me ==> n.role == Role::Idle && a
                == (FocusAction::HandOff { to, entry, mods }) && n.cursor == entry
            &&& s.role == Role::Idle || to == s.me ==> n == s && a == FocusAction::Nothing
            &&& s.after_enter(entry).1 == (FocusAction::Take { entry })
            &&& s.after_enter(entry).0.pending_push == 0
        }),
{
}

} // verus!
