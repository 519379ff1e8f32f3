//! The unified virtual desktop: every monitor of every machine placed in one
//! coordinate space.
//!
//! The cursor has a single position in that space. The machine that owns the
//! monitor under the cursor is the active one. A move that leaves the current
//! monitor is resolved into a [`Transition`]: the monitor that is entered, its
//! owner, and the landing point.

use crate::geometry::{clamp_int, distance, Edge, Point, Rect, Size};
use crate::ids::{DeviceId, MonitorId};
use vstd::prelude::*;

verus! {

/// A monitor placed into the virtual desktop.
#[derive(Debug)]
pub struct Monitor {
    pub id: MonitorId,
    /// The label shown to people.
    pub label: String,
    /// Placement in virtual-desktop pixels.
    pub bounds: Rect,
    /// Native resolution, which may differ from `bounds` under scaling.
    pub native: Size,
    /// Display scale in percent.
    pub scale_pct: u16,
}

impl Clone for Monitor {
    fn clone(&self) -> (m: Self)
        ensures
            m == *self,
    {
        Monitor {
            id: self.id,
            label: self.label.clone(),
            bounds: self.bounds,
            native: self.native,
            scale_pct: self.scale_pct,
        }
    }
}

impl Monitor {
    pub fn device(&self) -> (d: DeviceId)
        ensures
            d == self.id.device,
    {
        self.id.device
    }
}

/// A cursor leaving one monitor for another.
#[derive(Clone, Copy, Debug, PartialEq, Eq)]
pub struct Transition {
    /// The monitor that the cursor enters.
    pub target: MonitorId,
    /// The device that becomes active.
    pub device: DeviceId,
    /// The edge of the source monitor that was crossed.
    pub via: Edge,
    /// The landing point inside the target monitor.
    pub entry: Point,
}

/// A set of placed monitors, in the order in which they are searched.
#[derive(Debug)]
pub struct VirtualDesktop {
    pub monitors: Vec<Monitor>,
}

impl Clone for VirtualDesktop {
    fn clone(&self) -> (d: Self)
        ensures
            d.monitors@ == self.monitors@,
    {
        VirtualDesktop { monitors: clone_monitors(&self.monitors) }
    }
}

impl Default for VirtualDesktop {
    fn default() -> (d: Self)
        ensures
            d.monitors@.len() == 0,
    {
        VirtualDesktop { monitors: Vec::new() }
    }
}

/// A list of equal monitors.
pub fn clone_monitors(ms: &Vec<Monitor>) -> (out: Vec<Monitor>)
    ensures
        out@ == ms@,
{
    let mut out: Vec<Monitor> = Vec::new();
    let mut i: usize = 0;
    while i < ms.len()
        invariant
            0 <= i <= ms.len(),
            out@ =~= ms@.subrange(0, i as int),
        decreases ms.len() - i,
    {
        out.push(ms[i].clone());
        i = i + 1;
    }
    assert(out@ =~= ms@);
    out
}

// --- Searching ---------------------------------------------------------------

/// The edges of every monitor are coordinates.
pub open spec fn all_in_range(ms: Seq<Monitor>) -> bool {
    forall|i: int| 0 <= i < ms.len() ==> (#[trigger] ms[i]).bounds.in_range()
}

/// The first monitor, from position `i` on, whose bounds contain `p`.
pub open spec fn index_at_from(ms: Seq<Monitor>, p: Point, i: int) -> Option<int>
    decreases ms.len() - i,
{
    if i < 0 || i >= ms.len() {
        None
    } else if ms[i].bounds.covers(p) {
        Some(i)
    } else {
        index_at_from(ms, p, i + 1)
    }
}

/// The first monitor whose bounds contain `p`.
pub open spec fn index_at(ms: Seq<Monitor>, p: Point) -> Option<int> {
    index_at_from(ms, p, 0)
}

/// The first monitor, from position `i` on, that is called `id`.
pub open spec fn index_of_from(ms: Seq<Monitor>, id: MonitorId, i: int) -> Option<int>
    decreases ms.len() - i,
{
    if i < 0 || i >= ms.len() {
        None
    } else if ms[i].id == id {
        Some(i)
    } else {
        index_of_from(ms, id, i + 1)
    }
}

/// The first monitor that is called `id`.
pub open spec fn index_of(ms: Seq<Monitor>, id: MonitorId) -> Option<int> {
    index_of_from(ms, id, 0)
}

/// The device that owns the monitor under `p`.
pub open spec fn owner(ms: Seq<Monitor>, p: Point) -> Option<DeviceId> {
    match index_at(ms, p) {
        Some(i) => Some(ms[i].id.device),
        None => None,
    }
}

/// What a search for the monitor under `p` finds: a monitor that contains `p`,
/// with none before it; nothing only where no monitor contains `p`.
pub proof fn lemma_index_at_from(ms: Seq<Monitor>, p: Point, i: int)
    requires
        0 <= i <= ms.len(),
    ensures
        match index_at_from(ms, p, i) {
            Some(k) => {
                &&& i <= k < ms.len()
                &&& ms[k].bounds.covers(p)
                &&& forall|j: int| i <= j < k ==> !(#[trigger] ms[j]).bounds.covers(p)
            },
            None => forall|j: int|
                i <= j < ms.len() ==> !(#[trigger] ms[j]).bounds.covers(p),
        },
    decreases ms.len() - i,
{
    if i < ms.len() && !ms[i].bounds.covers(p) {
        lemma_index_at_from(ms, p, i + 1);
    }
}

/// What a search by id finds: a monitor of that id, with none before it;
/// nothing only where no monitor has the id.
pub proof fn lemma_index_of_from(ms: Seq<Monitor>, id: MonitorId, i: int)
    requires
        0 <= i <= ms.len(),
    ensures
        match index_of_from(ms, id, i) {
            Some(k) => {
                &&& i <= k < ms.len()
                &&& ms[k].id == id
                &&& forall|j: int| i <= j < k ==> (#[trigger] ms[j]).id != id
            },
            None => forall|j: int| i <= j < ms.len() ==> (#[trigger] ms[j]).id != id,
        },
    decreases ms.len() - i,
{
    if i < ms.len() && ms[i].id != id {
        lemma_index_of_from(ms, id, i + 1);
    }
}

/// The monitors of `me` (`mine`), or those of all other devices, in order.
pub open spec fn on_side(ms: Seq<Monitor>, me: DeviceId, mine: bool) -> Seq<Monitor>
    decreases ms.len(),
{
    if ms.len() == 0 {
        ms
    } else {
        let before = on_side(ms.drop_last(), me, mine);
        if (ms.last().id.device == me) == mine {
            before.push(ms.last())
        } else {
            before
        }
    }
}

/// The monitors of `me` (`mine`), or those of all other devices, in order.
pub fn monitors_on_side(ms: &Vec<Monitor>, me: DeviceId, mine: bool) -> (out: Vec<Monitor>)
    ensures
        out@ == on_side(ms@, me, mine),
{
    let mut out: Vec<Monitor> = Vec::new();
    let mut i: usize = 0;
    assert(ms@.subrange(0, 0) =~= Seq::<Monitor>::empty());
    while i < ms.len()
        invariant
            0 <= i <= ms.len(),
            out@ == on_side(ms@.subrange(0, i as int), me, mine),
        decreases ms.len() - i,
    {
        proof {
            let now = ms@.subrange(0, i + 1);
            assert(now.drop_last() =~= ms@.subrange(0, i as int));
            assert(now.last() == ms@[i as int]);
        }
        if (ms[i].device() == me) == mine {
            out.push(ms[i].clone());
        }
        i = i + 1;
    }
    assert(ms@.subrange(0, ms@.len() as int) =~= ms@);
    out
}

/// Whether the edges of every monitor are coordinates.
pub fn monitors_in_range(ms: &Vec<Monitor>) -> (b: bool)
    ensures
        b == all_in_range(ms@),
{
    let mut i: usize = 0;
    while i < ms.len()
        invariant
            0 <= i <= ms.len(),
            forall|j: int| 0 <= j < i ==> (#[trigger] ms@[j]).bounds.in_range(),
        decreases ms.len() - i,
    {
        let r = ms[i].bounds;
        let right: i64 = r.x as i64 + r.w as i64;
        let bottom: i64 = r.y as i64 + r.h as i64;
        if right < -0x8000_0000 || right > 0x7fff_ffff || bottom < -0x8000_0000 || bottom
            > 0x7fff_ffff {
            assert(!ms@[i as int].bounds.in_range());
            return false;
        }
        i = i + 1;
    }
    true
}

// --- Crossing an edge --------------------------------------------------------

/// How far `to` lies beyond the side of `[lo, hi)` that a move from `from`
/// heads for; 0 where it does not lie beyond it.
pub open spec fn overshoot(lo: int, hi: int, from: int, to: int) -> int {
    let over = if to > from {
        to - (hi - 1)
    } else {
        lo - to
    };
    if over > 0 {
        over
    } else {
        0
    }
}

/// The edge of `bounds` that the move leaves through: the axis of the larger
/// overshoot, horizontal on a tie, in the direction of travel.
pub open spec fn edge_crossed(bounds: Rect, from: Point, to: Point) -> Edge {
    let over_x = overshoot(bounds.x as int, bounds.x + bounds.w, from.x as int, to.x as int);
    let over_y = overshoot(bounds.y as int, bounds.y + bounds.h, from.y as int, to.y as int);
    if over_x >= over_y {
        if to.x >= from.x {
            Edge::Right
        } else {
            Edge::Left
        }
    } else if to.y >= from.y {
        Edge::Bottom
    } else {
        Edge::Top
    }
}

/// `[a0, a1)` and `[b0, b1)` share a coordinate.
pub open spec fn spans_meet(a0: int, a1: int, b0: int, b1: int) -> bool {
    a0 < a1 && a0 < b1 && b0 < a1 && b0 < b1
}

/// `cand` lies wholly on the `via` side of `src`, and the two share a
/// coordinate along that side.
pub open spec fn neighbours(src: Rect, cand: Rect, via: Edge) -> bool {
    match via {
        Edge::Right => cand.x >= src.x + src.w && spans_meet(
            src.y as int,
            src.y + src.h,
            cand.y as int,
            cand.y + cand.h,
        ),
        Edge::Left => cand.x + cand.w <= src.x && spans_meet(
            src.y as int,
            src.y + src.h,
            cand.y as int,
            cand.y + cand.h,
        ),
        Edge::Bottom => cand.y >= src.y + src.h && spans_meet(
            src.x as int,
            src.x + src.w,
            cand.x as int,
            cand.x + cand.w,
        ),
        Edge::Top => cand.y + cand.h <= src.y && spans_meet(
            src.x as int,
            src.x + src.w,
            cand.x as int,
            cand.x + cand.w,
        ),
    }
}

/// The distance from `v` to `[lo, hi)`, 0 inside it.
pub open spec fn span_distance(v: int, lo: int, hi: int) -> int {
    if v < lo {
        lo - v
    } else if v >= hi {
        v - hi + 1
    } else {
        0
    }
}

/// How ill a neighbour suits a crossing towards `to`: first by how far its span
/// is from the crossing coordinate, then by how far it is itself.
pub open spec fn misfit(cur: Rect, cand: Rect, via: Edge, to: Point) -> int {
    match via {
        Edge::Left | Edge::Right => span_distance(to.y as int, cand.y as int, cand.y + cand.h)
            * 10_000 + distance(cur.x as int, cand.x as int),
        Edge::Top | Edge::Bottom => span_distance(to.x as int, cand.x as int, cand.x + cand.w)
            * 10_000 + distance(cur.y as int, cand.y as int),
    }
}

/// Monitor `i` is another monitor, on the `via` side of `cur`.
pub open spec fn candidate(ms: Seq<Monitor>, cur: Monitor, via: Edge, i: int) -> bool {
    &&& 0 <= i < ms.len()
    &&& ms[i].id != cur.id
    &&& neighbours(cur.bounds, ms[i].bounds, via)
}

/// Among the first `n` monitors, `i` is the candidate that suits best, the
/// first of them on a tie.
pub open spec fn best_among(
    ms: Seq<Monitor>,
    cur: Monitor,
    via: Edge,
    to: Point,
    n: int,
    i: int,
) -> bool {
    &&& i < n
    &&& candidate(ms, cur, via, i)
    &&& forall|j: int| #[trigger]
        candidate(ms, cur, via, j) && j < n ==> {
            let mine = misfit(cur.bounds, ms[i].bounds, via, to);
            let theirs = misfit(cur.bounds, ms[j].bounds, via, to);
            mine < theirs || (mine == theirs && i <= j)
        }
}

/// The neighbour of `cur` over its `via` edge that suits a crossing towards
/// `to` best.
pub open spec fn adjacent(ms: Seq<Monitor>, cur: Monitor, via: Edge, to: Point) -> Option<int> {
    if exists|i: int| best_among(ms, cur, via, to, ms.len() as int, i) {
        Some(choose|i: int| best_among(ms, cur, via, to, ms.len() as int, i))
    } else {
        None
    }
}

/// The crossing into monitor `i`, landing as close to `to` as that monitor
/// allows.
pub open spec fn into_monitor(ms: Seq<Monitor>, i: int, via: Edge, to: Point) -> Transition {
    Transition {
        target: ms[i].id,
        device: ms[i].id.device,
        via,
        entry: ms[i].bounds.nearest(to),
    }
}

/// The monitor that a move from `from` to `to` enters: none where the move
/// starts on no monitor or stays on its own; the monitor under `to` where there
/// is one; else the best neighbour over the edge that was crossed.
pub open spec fn entered(ms: Seq<Monitor>, from: Point, to: Point) -> Option<int> {
    match index_at(ms, from) {
        None => None,
        Some(c) => if ms[c].bounds.covers(to) {
            None
        } else {
            match index_at(ms, to) {
                Some(t) => Some(t),
                None => adjacent(ms, ms[c], edge_crossed(ms[c].bounds, from, to), to),
            }
        },
    }
}

/// What a move from `from` to `to` amounts to.
pub open spec fn resolved(ms: Seq<Monitor>, from: Point, to: Point) -> Option<Transition> {
    match entered(ms, from, to) {
        None => None,
        Some(i) => Some(
            into_monitor(
                ms,
                i,
                edge_crossed(ms[index_at(ms, from)->0].bounds, from, to),
                to,
            ),
        ),
    }
}

/// The neighbour that suits best is unique.
pub proof fn lemma_best_is_unique(
    ms: Seq<Monitor>,
    cur: Monitor,
    via: Edge,
    to: Point,
    n: int,
    i: int,
    j: int,
)
    requires
        best_among(ms, cur, via, to, n, i),
        best_among(ms, cur, via, to, n, j),
    ensures
        i == j,
{
    assert(candidate(ms, cur, via, i) && candidate(ms, cur, via, j));
}

/// The edge of `bounds` that the move leaves through.
fn exit_edge(bounds: Rect, from: Point, to: Point) -> (e: Edge)
    requires
        bounds.in_range(),
    ensures
        e == edge_crossed(bounds, from, to),
{
    let over_x = overshoot_by(bounds.left(), bounds.right(), from.x, to.x);
    let over_y = overshoot_by(bounds.top(), bounds.bottom(), from.y, to.y);
    if over_x >= over_y {
        if to.x >= from.x {
            Edge::Right
        } else {
            Edge::Left
        }
    } else if to.y >= from.y {
        Edge::Bottom
    } else {
        Edge::Top
    }
}

/// How far a move overshoots `[lo, hi)`.
fn overshoot_by(lo: i32, hi: i32, from: i32, to: i32) -> (r: i64)
    ensures
        r == overshoot(lo as int, hi as int, from as int, to as int),
{
    let over: i64 = if to > from {
        to as i64 - (hi as i64 - 1)
    } else {
        lo as i64 - to as i64
    };
    if over > 0 {
        over
    } else {
        0
    }
}

fn spans_overlap(a0: i32, a1: i32, b0: i32, b1: i32) -> (r: bool)
    ensures
        r == spans_meet(a0 as int, a1 as int, b0 as int, b1 as int),
{
    let lo: i32 = if a0 > b0 {
        a0
    } else {
        b0
    };
    let hi: i32 = if a1 < b1 {
        a1
    } else {
        b1
    };
    lo < hi
}

/// Whether `cand` lies on the `via` side of `src`, with a shared coordinate.
fn is_neighbour(src: Rect, cand: Rect, via: Edge) -> (r: bool)
    requires
        src.in_range(),
        cand.in_range(),
    ensures
        r == neighbours(src, cand, via),
{
    match via {
        Edge::Right => cand.left() >= src.right() && spans_overlap(
            src.top(),
            src.bottom(),
            cand.top(),
            cand.bottom(),
        ),
        Edge::Left => cand.right() <= src.left() && spans_overlap(
            src.top(),
            src.bottom(),
            cand.top(),
            cand.bottom(),
        ),
        Edge::Bottom => cand.top() >= src.bottom() && spans_overlap(
            src.left(),
            src.right(),
            cand.left(),
            cand.right(),
        ),
        Edge::Top => cand.bottom() <= src.top() && spans_overlap(
            src.left(),
            src.right(),
            cand.left(),
            cand.right(),
        ),
    }
}

/// The distance from `v` to `[lo, hi)`, 0 inside it.
pub(crate) fn axis_distance(v: i32, lo: i32, hi: i32) -> (d: i64)
    ensures
        d == span_distance(v as int, lo as int, hi as int),
        -0x1_0000_0000 <= d <= 0x1_0000_0000,
{
    if v < lo {
        lo as i64 - v as i64
    } else if v >= hi {
        v as i64 - hi as i64 + 1
    } else {
        0
    }
}

/// The absolute difference of two coordinates.
pub(crate) fn abs_difference(a: i32, b: i32) -> (d: i64)
    ensures
        d == distance(a as int, b as int),
        0 <= d <= 0xffff_ffff,
{
    if a >= b {
        a as i64 - b as i64
    } else {
        b as i64 - a as i64
    }
}

fn score(cur: Rect, cand: Rect, via: Edge, to: Point) -> (s: i64)
    requires
        cand.in_range(),
    ensures
        s == misfit(cur, cand, via, to),
{
    match via {
        Edge::Left | Edge::Right => {
            let dy = axis_distance(to.y, cand.top(), cand.bottom());
            let dx = abs_difference(cur.x, cand.x);
            dy * 10_000 + dx
        },
        Edge::Top | Edge::Bottom => {
            let dx = axis_distance(to.x, cand.left(), cand.right());
            let dy = abs_difference(cur.y, cand.y);
            dx * 10_000 + dy
        },
    }
}

impl VirtualDesktop {
    pub fn new(monitors: Vec<Monitor>) -> (d: Self)
        ensures
            d.monitors@ == monitors@,
    {
        VirtualDesktop { monitors }
    }

    /// The monitor called `id`.
    pub fn monitor(&self, id: MonitorId) -> (r: Option<&Monitor>)
        ensures
            r == match index_of(self.monitors@, id) {
                Some(i) => Some(&self.monitors@[i]),
                None => None,
            },
    {
        let mut i: usize = 0;
        while i < self.monitors.len()
            invariant
                0 <= i <= self.monitors.len(),
                index_of(self.monitors@, id) == index_of_from(self.monitors@, id, i as int),
            decreases self.monitors.len() - i,
        {
            if self.monitors[i].id == id {
                return Some(&self.monitors[i]);
            }
            i = i + 1;
        }
        None
    }

    /// The monitor whose bounds contain `p`.
    pub fn monitor_at(&self, p: Point) -> (r: Option<&Monitor>)
        requires
            all_in_range(self.monitors@),
        ensures
            r == match index_at(self.monitors@, p) {
                Some(i) => Some(&self.monitors@[i]),
                None => None,
            },
    {
        let mut i: usize = 0;
        while i < self.monitors.len()
            invariant
                0 <= i <= self.monitors.len(),
                all_in_range(self.monitors@),
                index_at(self.monitors@, p) == index_at_from(self.monitors@, p, i as int),
            decreases self.monitors.len() - i,
        {
            if self.monitors[i].bounds.contains(p) {
                return Some(&self.monitors[i]);
            }
            i = i + 1;
        }
        None
    }

    /// The device that owns the monitor under `p`.
    pub fn owner_at(&self, p: Point) -> (r: Option<DeviceId>)
        requires
            all_in_range(self.monitors@),
        ensures
            r == owner(self.monitors@, p),
    {
        match self.monitor_at(p) {
            Some(m) => Some(m.device()),
            None => None,
        }
    }

    /// Resolves a move of the cursor from `from` towards `to`.
    ///
    /// `None` means that the move stays on its monitor or leaves the desktop:
    /// the caller then keeps the cursor on the monitor it is on.
    pub fn resolve_move(&self, from: Point, to: Point) -> (r: Option<Transition>)
        requires
            all_in_range(self.monitors@),
            entered(self.monitors@, from, to) matches Some(i) ==> self.monitors@[i].bounds.nonempty(),
        ensures
            r == resolved(self.monitors@, from, to),
    {
        let ghost ms = self.monitors@;
        proof {
            lemma_index_at_from(ms, from, 0);
            lemma_index_at_from(ms, to, 0);
        }
        let current = match self.monitor_at(from) {
            Some(m) => m,
            None => {
                return None;
            },
        };
        if current.bounds.contains(to) {
            return None;
        }
        let via = exit_edge(current.bounds, from, to);
        if let Some(target) = self.monitor_at(to) {
            return Some(
                Transition {
                    target: target.id,
                    device: target.device(),
                    via,
                    entry: target.bounds.clamp(to),
                },
            );
        }
        match self.adjacent_across(current, via, to) {
            Some(target) => Some(
                Transition {
                    target: target.id,
                    device: target.device(),
                    via,
                    entry: target.bounds.clamp(to),
                },
            ),
            None => None,
        }
    }

    /// The neighbour of `current` over its `via` edge that suits a crossing
    /// towards `to` best.
    fn adjacent_across(&self, current: &Monitor, via: Edge, to: Point) -> (r: Option<&Monitor>)
        requires
            all_in_range(self.monitors@),
            current.bounds.in_range(),
        ensures
            r == match adjacent(self.monitors@, *current, via, to) {
                Some(i) => Some(&self.monitors@[i]),
                None => None,
            },
    {
        let ghost ms = self.monitors@;
        let mut best: Option<usize> = None;
        let mut best_score: i64 = 0;
        let mut i: usize = 0;
        while i < self.monitors.len()
            invariant
                0 <= i <= self.monitors.len(),
                ms == self.monitors@,
                all_in_range(ms),
                current.bounds.in_range(),
                match best {
                    Some(b) => {
                        &&& best_among(ms, *current, via, to, i as int, b as int)
                        &&& best_score == misfit(current.bounds, ms[b as int].bounds, via, to)
                    },
                    None => forall|j: int| #[trigger]
                        candidate(ms, *current, via, j) ==> j >= i,
                },
            decreases self.monitors.len() - i,
        {
            let m = &self.monitors[i];
            if m.id != current.id && is_neighbour(current.bounds, m.bounds, via) {
                assert(candidate(ms, *current, via, i as int));
                let s = score(current.bounds, m.bounds, via, to);
                match best {
                    Some(_) => {
                        if s < best_score {
                            best = Some(i);
                            best_score = s;
                        }
                    },
                    None => {
                        best = Some(i);
                        best_score = s;
                    },
                }
            } else {
                assert(!candidate(ms, *current, via, i as int));
            }
            i = i + 1;
        }
        match best {
            Some(b) => {
                proof {
                    assert(best_among(ms, *current, via, to, ms.len() as int, b as int));
                    let c = choose|k: int|
                        best_among(ms, *current, via, to, ms.len() as int, k);
                    lemma_best_is_unique(ms, *current, via, to, ms.len() as int, b as int, c);
                }
                Some(&self.monitors[b])
            },
            None => {
                assert forall|k: int| !best_among(ms, *current, via, to, ms.len() as int, k) by {
                    if best_among(ms, *current, via, to, ms.len() as int, k) {
                        assert(candidate(ms, *current, via, k));
                    }
                }
                None
            },
        }
    }
}

// --- Editing a layout --------------------------------------------------------

/// `[l, r) x [t, b)` is the smallest box around all monitors.
pub open spec fn boxes(ms: Seq<Monitor>, l: int, t: int, r: int, b: int) -> bool {
    &&& forall|i: int|
        0 <= i < ms.len() ==> {
            let m = (#[trigger] ms[i]).bounds;
            l <= m.x && t <= m.y && m.x + m.w <= r && m.y + m.h <= b
        }
    &&& exists|i: int| 0 <= i < ms.len() && (#[trigger] ms[i]).bounds.x == l
    &&& exists|i: int| 0 <= i < ms.len() && (#[trigger] ms[i]).bounds.y == t
    &&& exists|i: int| 0 <= i < ms.len() && (#[trigger] ms[i]).bounds.x + ms[i].bounds.w == r
    &&& exists|i: int| 0 <= i < ms.len() && (#[trigger] ms[i]).bounds.y + ms[i].bounds.h == b
}

/// The rectangle is the smallest box around all monitors.
pub open spec fn is_bounding_box(ms: Seq<Monitor>, bb: Rect) -> bool {
    boxes(ms, bb.x as int, bb.y as int, bb.x + bb.w, bb.y + bb.h)
}

/// The extent of the whole desktop fits in an `i32`.
pub open spec fn extent_fits(ms: Seq<Monitor>) -> bool {
    forall|i: int, j: int|
        0 <= i < ms.len() && 0 <= j < ms.len() ==> {
            let m = (#[trigger] ms[i]).bounds;
            let n = (#[trigger] ms[j]).bounds;
            m.x + m.w - n.x <= i32::MAX && m.y + m.h - n.y <= i32::MAX
        }
}

/// Whether the extent of the whole desktop fits in an `i32`.
pub fn extent_in_range(ms: &Vec<Monitor>) -> (b: bool)
    ensures
        b == extent_fits(ms@),
{
    let mut right: i64 = 0;
    let mut bottom: i64 = 0;
    let mut left: i64 = 0;
    let mut top: i64 = 0;
    let ghost mut ends: (int, int, int, int) = (0, 0, 0, 0);
    let mut i: usize = 0;
    while i < ms.len()
        invariant
            0 <= i <= ms.len(),
            i32::MIN <= left <= i32::MAX,
            i32::MIN <= top <= i32::MAX,
            2 * i32::MIN <= right <= 2 * i32::MAX,
            2 * i32::MIN <= bottom <= 2 * i32::MAX,
            forall|j: int|
                0 <= j < i ==> {
                    let b = (#[trigger] ms@[j]).bounds;
                    b.x + b.w <= right && b.y + b.h <= bottom && left <= b.x && top <= b.y
                },
            i > 0 ==> {
                &&& 0 <= ends.0 < i && 0 <= ends.1 < i && 0 <= ends.2 < i && 0 <= ends.3 < i
                &&& right == ms@[ends.0].bounds.x + ms@[ends.0].bounds.w
                &&& bottom == ms@[ends.1].bounds.y + ms@[ends.1].bounds.h
                &&& left == ms@[ends.2].bounds.x
                &&& top == ms@[ends.3].bounds.y
            },
        decreases ms.len() - i,
    {
        let b = ms[i].bounds;
        if i == 0 || b.x as i64 + b.w as i64 > right {
            right = b.x as i64 + b.w as i64;
            proof {
                ends.0 = i as int;
            }
        }
        if i == 0 || b.y as i64 + b.h as i64 > bottom {
            bottom = b.y as i64 + b.h as i64;
            proof {
                ends.1 = i as int;
            }
        }
        if i == 0 || (b.x as i64) < left {
            left = b.x as i64;
            proof {
                ends.2 = i as int;
            }
        }
        if i == 0 || (b.y as i64) < top {
            top = b.y as i64;
            proof {
                ends.3 = i as int;
            }
        }
        i = i + 1;
    }
    if ms.len() == 0 {
        return true;
    }
    right - left <= i32::MAX as i64 && bottom - top <= i32::MAX as i64
}

/// The distance between the corners of any two monitors fits in an `i32`.
pub open spec fn offsets_fit(ms: Seq<Monitor>) -> bool {
    forall|i: int, j: int|
        0 <= i < ms.len() && 0 <= j < ms.len() ==> {
            let m = (#[trigger] ms[i]).bounds;
            let n = (#[trigger] ms[j]).bounds;
            m.x - n.x <= i32::MAX && m.y - n.y <= i32::MAX
        }
}

/// The monitor moved left by `dx` and up by `dy`.
pub open spec fn moved(m: Monitor, dx: int, dy: int) -> Monitor {
    Monitor {
        bounds: Rect { x: (m.bounds.x - dx) as i32, y: (m.bounds.y - dy) as i32, ..m.bounds },
        ..m
    }
}

/// Every monitor moved left by `dx` and up by `dy`.
pub open spec fn all_moved(ms: Seq<Monitor>, dx: int, dy: int) -> Seq<Monitor> {
    ms.map_values(|m: Monitor| moved(m, dx, dy))
}

/// The two rectangles share a pixel, where neither is empty; touching edges do
/// not count.
pub open spec fn overlapping(a: Rect, b: Rect) -> bool {
    a.x < b.x + b.w && b.x < a.x + a.w && a.y < b.y + b.h && b.y < a.y + a.h
}

/// `(i, j)` is the first overlapping pair, in the order of the list.
pub open spec fn is_first_overlap(ms: Seq<Monitor>, i: int, j: int) -> bool {
    &&& 0 <= i < j < ms.len()
    &&& overlapping(ms[i].bounds, ms[j].bounds)
    &&& forall|k: int| i < k < j ==> !overlapping(ms[i].bounds, (#[trigger] ms[k]).bounds)
    &&& forall|h: int, k: int|
        0 <= h < i && h < k < ms.len() ==> !overlapping(
            (#[trigger] ms[h]).bounds,
            (#[trigger] ms[k]).bounds,
        )
}

/// No two monitors overlap.
pub open spec fn no_overlap(ms: Seq<Monitor>) -> bool {
    forall|i: int, j: int|
        0 <= i < j < ms.len() ==> !overlapping(
            (#[trigger] ms[i]).bounds,
            (#[trigger] ms[j]).bounds,
        )
}

/// Where the corner of a rectangle of `size` comes to lie that is put flush
/// against the `side` edge of `a`, aligned to the corner of `a`.
pub open spec fn corner_beside(a: Rect, side: Edge, size: Size) -> (int, int) {
    match side {
        Edge::Right => (a.x + a.w, a.y as int),
        Edge::Left => (a.x - size.w, a.y as int),
        Edge::Bottom => (a.x as int, a.y + a.h),
        Edge::Top => (a.x as int, a.y - size.h),
    }
}

/// The value is an `i32`.
pub open spec fn is_i32(v: int) -> bool {
    i32::MIN <= v <= i32::MAX
}

impl VirtualDesktop {
    /// The smallest box around all monitors; none where there are no monitors.
    pub fn bounding_box(&self) -> (r: Option<Rect>)
        requires
            all_in_range(self.monitors@),
            extent_fits(self.monitors@),
        ensures
            match r {
                Some(bb) => is_bounding_box(self.monitors@, bb),
                None => self.monitors@.len() == 0,
            },
    {
        let ghost ms = self.monitors@;
        if self.monitors.len() == 0 {
            return None;
        }
        let first = self.monitors[0].bounds;
        let mut l: i32 = first.left();
        let mut t: i32 = first.top();
        let mut r: i32 = first.right();
        let mut b: i32 = first.bottom();
        let mut i: usize = 1;
        proof {
            assert(ms.subrange(0, 1)[0] == ms[0]);
        }
        while i < self.monitors.len()
            invariant
                1 <= i <= self.monitors.len(),
                ms == self.monitors@,
                all_in_range(ms),
                boxes(ms.subrange(0, i as int), l as int, t as int, r as int, b as int),
            decreases self.monitors.len() - i,
        {
            let m = self.monitors[i].bounds;
            let ghost old_part = ms.subrange(0, i as int);
            let ghost new_part = ms.subrange(0, i + 1);
            let ghost (l0, t0, r0, b0) = (l, t, r, b);
            if m.left() < l {
                l = m.left();
            }
            if m.top() < t {
                t = m.top();
            }
            if m.right() > r {
                r = m.right();
            }
            if m.bottom() > b {
                b = m.bottom();
            }
            proof {
                assert(new_part[i as int] == ms[i as int]);
                assert forall|k: int| 0 <= k < i implies #[trigger] new_part[k] == old_part[k] by {}
                let kl = choose|k: int| 0 <= k < old_part.len() && (#[trigger] old_part[k]).bounds.x == l0;
                let kt = choose|k: int| 0 <= k < old_part.len() && (#[trigger] old_part[k]).bounds.y == t0;
                let kr = choose|k: int|
                    0 <= k < old_part.len() && (#[trigger] old_part[k]).bounds.x + old_part[k].bounds.w
                        == r0;
                let kb = choose|k: int|
                    0 <= k < old_part.len() && (#[trigger] old_part[k]).bounds.y + old_part[k].bounds.h
                        == b0;
                assert(new_part[kl].bounds.x == l0 && new_part[kt].bounds.y == t0);
                assert(new_part[kr] == old_part[kr] && new_part[kb] == old_part[kb]);
            }
            i = i + 1;
        }
        proof {
            assert(ms.subrange(0, ms.len() as int) =~= ms);
            let kl = choose|k: int| 0 <= k < ms.len() && (#[trigger] ms[k]).bounds.x == l;
            let kt = choose|k: int| 0 <= k < ms.len() && (#[trigger] ms[k]).bounds.y == t;
            let kr = choose|k: int|
                0 <= k < ms.len() && (#[trigger] ms[k]).bounds.x + ms[k].bounds.w == r;
            let kb = choose|k: int|
                0 <= k < ms.len() && (#[trigger] ms[k]).bounds.y + ms[k].bounds.h == b;
            assert(ms[kr].bounds.x + ms[kr].bounds.w - ms[kl].bounds.x <= i32::MAX);
            assert(ms[kb].bounds.y + ms[kb].bounds.h - ms[kt].bounds.y <= i32::MAX);
            assert(ms[kl].bounds.x + ms[kl].bounds.w <= r);
            assert(ms[kt].bounds.y + ms[kt].bounds.h <= b);
        }
        Some(Rect::new(l, t, r - l, b - t))
    }

    /// The first pair of monitors whose bounds overlap. A sound layout has
    /// none.
    pub fn first_overlap(&self) -> (r: Option<(MonitorId, MonitorId)>)
        requires
            all_in_range(self.monitors@),
        ensures
            match r {
                Some(pair) => exists|i: int, j: int| #[trigger]
                    is_first_overlap(self.monitors@, i, j) && pair == (
                        self.monitors@[i].id,
                        self.monitors@[j].id,
                    ),
                None => no_overlap(self.monitors@),
            },
    {
        let ghost ms = self.monitors@;
        let mut i: usize = 0;
        while i < self.monitors.len()
            invariant
                0 <= i <= self.monitors.len(),
                ms == self.monitors@,
                all_in_range(ms),
                forall|h: int, k: int|
                    0 <= h < i && h < k < ms.len() ==> !overlapping(
                        (#[trigger] ms[h]).bounds,
                        (#[trigger] ms[k]).bounds,
                    ),
            decreases self.monitors.len() - i,
        {
            let mut j: usize = i + 1;
            while j < self.monitors.len()
                invariant
                    i < j <= self.monitors.len(),
                    ms == self.monitors@,
                    all_in_range(ms),
                    forall|h: int, k: int|
                        0 <= h < i && h < k < ms.len() ==> !overlapping(
                            (#[trigger] ms[h]).bounds,
                            (#[trigger] ms[k]).bounds,
                        ),
                    forall|k: int|
                        i < k < j ==> !overlapping(ms[i as int].bounds, (#[trigger] ms[k]).bounds),
                decreases self.monitors.len() - j,
            {
                let a = &self.monitors[i];
                let b = &self.monitors[j];
                if rects_overlap(a.bounds, b.bounds) {
                    assert(is_first_overlap(ms, i as int, j as int));
                    return Some((a.id, b.id));
                }
                j = j + 1;
            }
            i = i + 1;
        }
        None
    }

    /// Moves every monitor so that the bounding box starts at the origin.
    pub fn normalize(&mut self)
        requires
            all_in_range(old(self).monitors@),
            extent_fits(old(self).monitors@),
            offsets_fit(old(self).monitors@),
        ensures
            old(self).monitors@.len() == 0 ==> final(self).monitors@ == old(self).monitors@,
            old(self).monitors@.len() > 0 ==> exists|bb: Rect| #[trigger]
                is_bounding_box(old(self).monitors@, bb) && final(self).monitors@ == all_moved(
                    old(self).monitors@,
                    bb.x as int,
                    bb.y as int,
                ),
    {
        let ghost ms = self.monitors@;
        let bb = match self.bounding_box() {
            Some(bb) => bb,
            None => {
                return ;
            },
        };
        if bb.x == 0 && bb.y == 0 {
            assert(ms =~= all_moved(ms, 0, 0));
            return ;
        }
        let mut i: usize = 0;
        while i < self.monitors.len()
            invariant
                0 <= i <= self.monitors.len(),
                self.monitors.len() == ms.len(),
                is_bounding_box(ms, bb),
                offsets_fit(ms),
                forall|k: int|
                    0 <= k < i ==> (#[trigger] self.monitors@[k]) == moved(
                        ms[k],
                        bb.x as int,
                        bb.y as int,
                    ),
                forall|k: int| i <= k < ms.len() ==> (#[trigger] self.monitors@[k]) == ms[k],
            decreases self.monitors.len() - i,
        {
            proof {
                let kl = choose|k: int| 0 <= k < ms.len() && (#[trigger] ms[k]).bounds.x == bb.x;
                let kt = choose|k: int| 0 <= k < ms.len() && (#[trigger] ms[k]).bounds.y == bb.y;
                assert(ms[i as int].bounds.x - ms[kl].bounds.x <= i32::MAX);
                assert(ms[i as int].bounds.y - ms[kt].bounds.y <= i32::MAX);
                assert(self.monitors@[i as int] == ms[i as int]);
            }
            let x: i32 = self.monitors[i].bounds.x - bb.x;
            let y: i32 = self.monitors[i].bounds.y - bb.y;
            let m = &mut self.monitors[i];
            m.bounds.x = x;
            m.bounds.y = y;
            i = i + 1;
        }
        assert(self.monitors@ =~= all_moved(ms, bb.x as int, bb.y as int));
    }

    /// The bounds of a monitor of `size` put flush against the `side` edge of
    /// `anchor`, aligned to the anchor's top-left corner. None where `anchor`
    /// is not in this desktop.
    pub fn place_beside(&self, anchor: MonitorId, side: Edge, size: Size) -> (r: Option<Rect>)
        requires
            index_of(self.monitors@, anchor) matches Some(i) ==> {
                let c = corner_beside(self.monitors@[i].bounds, side, size);
                is_i32(c.0) && is_i32(c.1)
            },
        ensures
            r == match index_of(self.monitors@, anchor) {
                Some(i) => {
                    let c = corner_beside(self.monitors@[i].bounds, side, size);
                    Some(Rect { x: c.0 as i32, y: c.1 as i32, w: size.w, h: size.h })
                },
                None => None,
            },
    {
        let a = match self.monitor(anchor) {
            Some(m) => m.bounds,
            None => {
                return None;
            },
        };
        let (x, y) = match side {
            Edge::Right => (a.right(), a.top()),
            Edge::Left => (a.left() - size.w, a.top()),
            Edge::Bottom => (a.left(), a.bottom()),
            Edge::Top => (a.left(), a.top() - size.h),
        };
        Some(Rect::new(x, y, size.w, size.h))
    }
}

/// Whether two rectangles share any area. Touching edges do not overlap.
pub fn rects_overlap(a: Rect, b: Rect) -> (r: bool)
    requires
        a.in_range(),
        b.in_range(),
    ensures
        r == overlapping(a, b),
{
    a.left() < b.right() && b.left() < a.right() && a.top() < b.bottom() && b.top() < a.bottom()
}

/// There is one smallest box.
pub proof fn law_one_bounding_box(ms: Seq<Monitor>, a: Rect, b: Rect)
    requires
        is_bounding_box(ms, a),
        is_bounding_box(ms, b),
    ensures
        a == b,
{
}

// --- Entering another machine ------------------------------------------------

/// `v`, at its share of `[s_lo, s_lo + s_span)`, carried over to the same share
/// of a span of `d_span` that starts at `d_lo`. Values outside the source span
/// count as its nearest end.
pub open spec fn carried(v: int, s_lo: int, s_span: int, d_lo: int, d_span: int) -> int {
    let last = if s_span - 1 > 0 {
        s_span - 1
    } else {
        0
    };
    let span = if s_span > 1 {
        s_span
    } else {
        1
    };
    d_lo + clamp_int(v - s_lo, 0, last) * d_span / span
}

/// Where the cursor lands on `dst` when it leaves `src` on the way from `from`
/// to `to`: on the near edge of `dst`, at the same share of that edge at which
/// it left.
pub open spec fn entry_across(src: Rect, dst: Rect, from: Point, to: Point) -> Point {
    match edge_crossed(src, from, to) {
        Edge::Right => Point {
            x: dst.x,
            y: carried(to.y as int, src.y as int, src.h as int, dst.y as int, dst.h as int) as i32,
        },
        Edge::Left => Point {
            x: (dst.x + dst.w - 1) as i32,
            y: carried(to.y as int, src.y as int, src.h as int, dst.y as int, dst.h as int) as i32,
        },
        Edge::Bottom => Point {
            x: carried(to.x as int, src.x as int, src.w as int, dst.x as int, dst.w as int) as i32,
            y: dst.y,
        },
        Edge::Top => Point {
            x: carried(to.x as int, src.x as int, src.w as int, dst.x as int, dst.w as int) as i32,
            y: (dst.y + dst.h - 1) as i32,
        },
    }
}

/// A carried coordinate lies inside the target span.
pub proof fn lemma_carried_inside(v: int, s_lo: int, s_span: int, d_lo: int, d_span: int)
    requires
        d_span >= 1,
    ensures
        d_lo <= carried(v, s_lo, s_span, d_lo, d_span) < d_lo + d_span,
{
    let last = if s_span - 1 > 0 {
        s_span - 1
    } else {
        0
    };
    let span = if s_span > 1 {
        s_span
    } else {
        1
    };
    let f = clamp_int(v - s_lo, 0, last);
    assert(0 <= f < span);
    assert(0 <= f * d_span) by (nonlinear_arith)
        requires
            0 <= f,
            d_span >= 1,
    ;
    assert(f * d_span < d_span * span) by (nonlinear_arith)
        requires
            f < span,
            d_span >= 1,
    ;
    assert(0 <= f * d_span / span < d_span) by (nonlinear_arith)
        requires
            0 <= f * d_span,
            f * d_span < d_span * span,
            span >= 1,
    ;
}

/// The landing point lies on the monitor that is entered.
pub proof fn lemma_entry_inside(src: Rect, dst: Rect, from: Point, to: Point)
    requires
        dst.in_range(),
        dst.nonempty(),
    ensures
        dst.covers(entry_across(src, dst, from, to)),
{
    lemma_carried_inside(to.y as int, src.y as int, src.h as int, dst.y as int, dst.h as int);
    lemma_carried_inside(to.x as int, src.x as int, src.w as int, dst.x as int, dst.w as int);
}

fn carry_over(v: i32, s_lo: i32, s_span: i32, d_lo: i32, d_span: i32) -> (r: i32)
    requires
        d_span >= 1,
        d_lo + d_span <= i32::MAX,
    ensures
        r == carried(v as int, s_lo as int, s_span as int, d_lo as int, d_span as int),
        d_lo <= r < d_lo + d_span,
{
    let last: i64 = if s_span > 1 {
        s_span as i64 - 1
    } else {
        0
    };
    let span: i64 = if s_span > 1 {
        s_span as i64
    } else {
        1
    };
    let off: i64 = v as i64 - s_lo as i64;
    let f: i64 = if off < 0 {
        0
    } else if off > last {
        last
    } else {
        off
    };
    proof {
        lemma_carried_inside(v as int, s_lo as int, s_span as int, d_lo as int, d_span as int);
        assert(0 <= f * d_span <= 0x7fff_ffff * 0x7fff_ffff) by (nonlinear_arith)
            requires
                0 <= f <= 0x7fff_ffff,
                1 <= d_span <= 0x7fff_ffff,
        ;
    }
    let step: i64 = f * d_span as i64 / span;
    (d_lo as i64 + step) as i32
}

/// The landing point on `dst` when the cursor crosses out of `src` on the way
/// from `from` to `to`.
///
/// The coordinate along the shared edge keeps its share: leaving nine tenths of
/// the way down one monitor enters nine tenths of the way down the next, so a
/// handoff between displays of different size feels continuous. The crossing
/// coordinate snaps to the near edge of `dst`.
pub fn relative_entry(src: Rect, dst: Rect, from: Point, to: Point) -> (p: Point)
    requires
        src.in_range(),
        dst.in_range(),
        dst.nonempty(),
    ensures
        p == entry_across(src, dst, from, to),
        dst.covers(p),
{
    let via = exit_edge(src, from, to);
    match via {
        Edge::Left | Edge::Right => {
            let y = carry_over(to.y, src.top(), src.h, dst.top(), dst.h);
            let x: i32 = if matches!(via, Edge::Right) {
                dst.left()
            } else {
                dst.right() - 1
            };
            dst.clamp(Point::new(x, y))
        },
        Edge::Top | Edge::Bottom => {
            let x = carry_over(to.x, src.left(), src.w, dst.left(), dst.w);
            let y: i32 = if matches!(via, Edge::Bottom) {
                dst.top()
            } else {
                dst.bottom() - 1
            };
            dst.clamp(Point::new(x, y))
        },
    }
}

// --- Laws --------------------------------------------------------------------

/// A move that resolves to a crossing enters a monitor of the desktop other
/// than the one it started on; control goes to the owner of that monitor, and
/// the landing point lies on it.
pub proof fn law_crossing_lands_on_its_target(ms: Seq<Monitor>, from: Point, to: Point)
    requires
        all_in_range(ms),
        entered(ms, from, to) matches Some(i) ==> ms[i].bounds.nonempty(),
    ensures
        resolved(ms, from, to) matches Some(t) ==> {
            let c = index_at(ms, from)->0;
            let i = entered(ms, from, to)->0;
            &&& index_at(ms, from) is Some
            &&& 0 <= i < ms.len()
            &&& i != c
            &&& t.target == ms[i].id
            &&& t.device == ms[i].id.device
            &&& ms[i].bounds.covers(t.entry)
        },
{
    lemma_index_at_from(ms, from, 0);
    lemma_index_at_from(ms, to, 0);
    if let Some(c) = index_at(ms, from) {
        let via = edge_crossed(ms[c].bounds, from, to);
        if let Some(i) = adjacent(ms, ms[c], via, to) {
            assert(best_among(ms, ms[c], via, to, ms.len() as int, i));
        }
    }
}

/// A move onto a pixel of another monitor lands exactly on that pixel.
pub proof fn law_direct_crossing_is_exact(ms: Seq<Monitor>, from: Point, to: Point)
    requires
        all_in_range(ms),
        index_at(ms, from) matches Some(c) && !ms[c].bounds.covers(to),
        index_at(ms, to) is Some,
    ensures
        resolved(ms, from, to) matches Some(t) && t.entry == to && t.target == ms[index_at(ms, to)->0].id,
{
    lemma_index_at_from(ms, to, 0);
}

/// A move that stays on its monitor, or that starts on none, is no crossing.
pub proof fn law_staying_is_no_crossing(ms: Seq<Monitor>, from: Point, to: Point)
    requires
        index_at(ms, from) matches Some(c) ==> ms[c].bounds.covers(to),
    ensures
        resolved(ms, from, to) is None,
{
}

/// Where a desktop has no overlap, each pixel has one monitor: any monitor that
/// contains a pixel is the one that the search finds.
pub proof fn law_one_monitor_per_pixel(ms: Seq<Monitor>, p: Point, i: int)
    requires
        no_overlap(ms),
        0 <= i < ms.len(),
        ms[i].bounds.covers(p),
    ensures
        index_at(ms, p) == Some(i),
{
    lemma_index_at_from(ms, p, 0);
    let k = index_at(ms, p)->0;
    if k < i {
        assert(overlapping(ms[k].bounds, ms[i].bounds));
    }
}

/// Overlap does not depend on the order of the two rectangles, and two
/// rectangles that hold a common pixel overlap.
pub proof fn law_overlap_is_symmetric(a: Rect, b: Rect, p: Point)
    ensures
        overlapping(a, b) == overlapping(b, a),
        a.covers(p) && b.covers(p) ==> overlapping(a, b),
{
}

/// Two rectangles that overlap hold a common pixel, where neither is empty.
pub proof fn law_overlap_is_a_shared_pixel(a: Rect, b: Rect)
    requires
        a.nonempty(),
        b.nonempty(),
        overlapping(a, b),
    ensures
        exists|p: Point| a.covers(p) && #[trigger] b.covers(p),
{
    let p = Point {
        x: if a.x > b.x {
            a.x
        } else {
            b.x
        },
        y: if a.y > b.y {
            a.y
        } else {
            b.y
        },
    };
    assert(a.covers(p) && b.covers(p));
}

/// Normalizing puts the corner of the bounding box at the origin, keeps its
/// size, and leaves nothing to do for a second time. Each monitor keeps its
/// identity, its label and its size; the offset of any two monitors and whether
/// they overlap are unchanged.
pub proof fn law_normalize_keeps_the_arrangement(ms: Seq<Monitor>, bb: Rect)
    requires
        offsets_fit(ms),
        is_bounding_box(ms, bb),
    ensures
        ({
            let out = all_moved(ms, bb.x as int, bb.y as int);
            &&& out.len() == ms.len()
            &&& is_bounding_box(out, Rect { x: 0, y: 0, w: bb.w, h: bb.h })
            &&& all_moved(out, 0, 0) == out
            &&& forall|i: int|
                0 <= i < ms.len() ==> {
                    &&& (#[trigger] out[i]).id == ms[i].id
                    &&& out[i].label == ms[i].label
                    &&& out[i].bounds.w == ms[i].bounds.w
                    &&& out[i].bounds.h == ms[i].bounds.h
                    &&& out[i].native == ms[i].native
                    &&& out[i].scale_pct == ms[i].scale_pct
                }
            &&& forall|i: int, j: int|
                0 <= i < ms.len() && 0 <= j < ms.len() ==> {
                    let (a, b) = (#[trigger] out[i], #[trigger] out[j]);
                    &&& a.bounds.x - b.bounds.x == ms[i].bounds.x - ms[j].bounds.x
                    &&& a.bounds.y - b.bounds.y == ms[i].bounds.y - ms[j].bounds.y
                    &&& overlapping(a.bounds, b.bounds) == overlapping(ms[i].bounds, ms[j].bounds)
                }
        }),
{
    let out = all_moved(ms, bb.x as int, bb.y as int);
    let kl = choose|k: int| 0 <= k < ms.len() && (#[trigger] ms[k]).bounds.x == bb.x;
    let kt = choose|k: int| 0 <= k < ms.len() && (#[trigger] ms[k]).bounds.y == bb.y;
    let kr = choose|k: int|
        0 <= k < ms.len() && (#[trigger] ms[k]).bounds.x + ms[k].bounds.w == bb.x + bb.w;
    let kb = choose|k: int|
        0 <= k < ms.len() && (#[trigger] ms[k]).bounds.y + ms[k].bounds.h == bb.y + bb.h;
    assert forall|i: int| 0 <= i < ms.len() implies {
        &&& (#[trigger] out[i]).bounds.x == ms[i].bounds.x - bb.x
        &&& out[i].bounds.y == ms[i].bounds.y - bb.y
    } by {
        assert(ms[i].bounds.x - ms[kl].bounds.x <= i32::MAX);
        assert(ms[i].bounds.y - ms[kt].bounds.y <= i32::MAX);
    }
    assert(out[kl].bounds.x == 0 && out[kt].bounds.y == 0);
    assert(out[kr].bounds.x + out[kr].bounds.w == bb.w);
    assert(out[kb].bounds.y + out[kb].bounds.h == bb.h);
    assert(all_moved(out, 0, 0) =~= out);
}

/// A monitor put beside another is flush with it on the side asked for, lies
/// wholly on that side, and does not overlap it.
pub proof fn law_beside_is_flush(a: Rect, side: Edge, size: Size)
    requires
        a.w >= 0,
        a.h >= 0,
        size.w >= 0,
        size.h >= 0,
    ensures
        ({
            let c = corner_beside(a, side, size);
            &&& match side {
                Edge::Right => c.0 == a.x + a.w && c.1 == a.y,
                Edge::Left => c.0 + size.w == a.x && c.1 == a.y,
                Edge::Bottom => c.1 == a.y + a.h && c.0 == a.x,
                Edge::Top => c.1 + size.h == a.y && c.0 == a.x,
            }
            &&& is_i32(c.0) && is_i32(c.1) ==> !overlapping(
                a,
                Rect { x: c.0 as i32, y: c.1 as i32, w: size.w, h: size.h },
            )
        }),
{
}

/// A handoff keeps the cursor's place along the edge: the first pixel of the
/// source edge maps to the first pixel of the target edge, the order of two
/// crossings is kept, and between edges of equal length the offset is kept.
pub proof fn law_carried_keeps_the_place(
    v: int,
    w: int,
    s_lo: int,
    s_span: int,
    d_lo: int,
    d_span: int,
)
    requires
        s_span >= 1,
        d_span >= 1,
        v <= w,
    ensures
        carried(s_lo, s_lo, s_span, d_lo, d_span) == d_lo,
        carried(v, s_lo, s_span, d_lo, d_span) <= carried(w, s_lo, s_span, d_lo, d_span),
        s_span == d_span && s_lo <= v < s_lo + s_span ==> carried(v, s_lo, s_span, d_lo, d_span)
            - d_lo == v - s_lo,
{
    let f = clamp_int(v - s_lo, 0, s_span - 1);
    let g = clamp_int(w - s_lo, 0, s_span - 1);
    let span = if s_span > 1 {
        s_span
    } else {
        1
    };
    assert(f <= g);
    assert(f * d_span <= g * d_span) by (nonlinear_arith)
        requires
            f <= g,
            d_span >= 1,
    ;
    vstd::arithmetic::div_mod::lemma_div_is_ordered(f * d_span, g * d_span, span);
    assert(0 * d_span == 0);
    assert(0int / span == 0) by (nonlinear_arith)
        requires
            span >= 1,
    ;
    if s_span == d_span && s_lo <= v < s_lo + s_span {
        vstd::arithmetic::div_mod::lemma_div_by_multiple(f, span);
    }
}

/// How far `p` lies beyond an edge of `b`; not at all where this is not positive.
pub open spec fn beyond(b: Rect, p: Point, e: Edge) -> int {
    match e {
        Edge::Right => p.x - (b.x + b.w) + 1,
        Edge::Left => b.x - p.x,
        Edge::Bottom => p.y - (b.y + b.h) + 1,
        Edge::Top => b.y - p.y,
    }
}

/// `m` lies wholly past an edge of `b`, and `v` is a coordinate along that edge that
/// both of them have.
pub open spec fn past(b: Rect, m: Rect, e: Edge, v: int) -> bool {
    match e {
        Edge::Right => b.x + b.w <= m.x && b.y <= v < b.y + b.h && m.y <= v < m.y + m.h,
        Edge::Left => m.x + m.w <= b.x && b.y <= v < b.y + b.h && m.y <= v < m.y + m.h,
        Edge::Bottom => b.y + b.h <= m.y && b.x <= v < b.x + b.w && m.x <= v < m.x + m.w,
        Edge::Top => m.y + m.h <= b.y && b.x <= v < b.x + b.w && m.x <= v < m.x + m.w,
    }
}

/// A move that starts inside a rectangle and ends outside it leaves over an edge that
/// its end lies beyond, and over no edge does it lie further beyond; between a
/// horizontal and a vertical edge that are passed equally far, over the horizontal one.
pub proof fn law_moves_leave_over_the_edge_they_pass(b: Rect, from: Point, to: Point, other: Edge)
    requires
        b.x <= from.x < b.x + b.w,
        b.y <= from.y < b.y + b.h,
        !(b.x <= to.x < b.x + b.w && b.y <= to.y < b.y + b.h),
    ensures
        beyond(b, to, edge_crossed(b, from, to)) > 0,
        beyond(b, to, other) <= beyond(b, to, edge_crossed(b, from, to)),
        edge_crossed(b, from, to) is Top || edge_crossed(b, from, to) is Bottom ==> beyond(
            b,
            to,
            Edge::Left,
        ) < beyond(b, to, edge_crossed(b, from, to)) && beyond(b, to, Edge::Right) < beyond(
            b,
            to,
            edge_crossed(b, from, to),
        ),
{
}

/// Wherever a move starts, it leaves in the direction in which it goes.
pub proof fn law_moves_leave_forwards(b: Rect, from: Point, to: Point)
    ensures
        match edge_crossed(b, from, to) {
            Edge::Right => from.x <= to.x,
            Edge::Left => to.x < from.x,
            Edge::Bottom => from.y <= to.y,
            Edge::Top => to.y < from.y,
        },
{
}

/// The cursor enters the next monitor in the row or column next to the edge that it
/// left over, at the same share of that edge: with `off` the pixels along the source
/// edge that lie before the point of leaving, it has at most `off / source length` of
/// the target edge before it, and one pixel more would be too many.
pub proof fn law_the_next_monitor_is_entered_at_its_near_edge(
    src: Rect,
    dst: Rect,
    from: Point,
    to: Point,
    e: Edge,
)
    requires
        src.x <= from.x < src.x + src.w,
        src.y <= from.y < src.y + src.h,
        dst.in_range(),
        dst.w >= 1,
        dst.h >= 1,
        beyond(src, to, e) > 0,
        forall|o: Edge| #[trigger] beyond(src, to, o) > 0 && o != e ==> beyond(src, to, o) < beyond(
            src,
            to,
            e,
        ),
    ensures
        ({
            let p = entry_across(src, dst, from, to);
            &&& match e {
                Edge::Right => p.x == dst.x,
                Edge::Left => p.x == dst.x + dst.w - 1,
                Edge::Bottom => p.y == dst.y,
                Edge::Top => p.y == dst.y + dst.h - 1,
            }
            &&& match e {
                Edge::Right | Edge::Left => {
                    let off = if to.y < src.y {
                        0
                    } else if to.y >= src.y + src.h {
                        src.h - 1
                    } else {
                        to.y - src.y
                    };
                    (p.y - dst.y) * src.h <= off * dst.h < (p.y - dst.y + 1) * src.h
                },
                Edge::Bottom | Edge::Top => {
                    let off = if to.x < src.x {
                        0
                    } else if to.x >= src.x + src.w {
                        src.w - 1
                    } else {
                        to.x - src.x
                    };
                    (p.x - dst.x) * src.w <= off * dst.w < (p.x - dst.x + 1) * src.w
                },
            }
        }),
{
    let (right, left) = (beyond(src, to, Edge::Right), beyond(src, to, Edge::Left));
    let (bottom, top) = (beyond(src, to, Edge::Bottom), beyond(src, to, Edge::Top));
    let furthest = beyond(src, to, e);
    assert(right <= 0 || e == Edge::Right || right < furthest);
    assert(left <= 0 || e == Edge::Left || left < furthest);
    assert(bottom <= 0 || e == Edge::Bottom || bottom < furthest);
    assert(top <= 0 || e == Edge::Top || top < furthest);
    assert(edge_crossed(src, from, to) == e);
    lemma_entry_inside(src, dst, from, to);
    lemma_carried_inside(to.y as int, src.y as int, src.h as int, dst.y as int, dst.h as int);
    lemma_carried_inside(to.x as int, src.x as int, src.w as int, dst.x as int, dst.w as int);
    lemma_carried_share(to.y as int, src.y as int, src.h as int, dst.y as int, dst.h as int);
    lemma_carried_share(to.x as int, src.x as int, src.w as int, dst.x as int, dst.w as int);
}

proof fn lemma_carried_share(v: int, s_lo: int, s_span: int, d_lo: int, d_span: int)
    requires
        s_span >= 1,
    ensures
        ({
            let k = carried(v, s_lo, s_span, d_lo, d_span) - d_lo;
            let off = clamp_int(v - s_lo, 0, s_span - 1);
            k * s_span <= off * d_span < (k + 1) * s_span
        }),
{
    let off = clamp_int(v - s_lo, 0, s_span - 1);
    let q = off * d_span / s_span;
    assert(q * s_span <= off * d_span < (q + 1) * s_span) by (nonlinear_arith)
        requires
            s_span >= 1,
            q == off * d_span / s_span,
    ;
}

/// What is found under a pixel: the first monitor in the list whose columns and rows
/// hold it, and nothing only where none does. A search by name finds the first monitor
/// of that name.
pub proof fn law_searches_find_the_first(ms: Seq<Monitor>, p: Point, id: MonitorId, k: int)
    requires
        0 <= k < ms.len(),
    ensures
        ({
            let b = ms[k].bounds;
            let here = b.x <= p.x && p.x < b.x + b.w && b.y <= p.y && p.y < b.y + b.h;
            &&& here ==> (index_at(ms, p) matches Some(i) && i <= k)
            &&& index_at(ms, p) == Some(k) ==> here
            &&& index_at(ms, p) matches Some(i) ==> 0 <= i < ms.len()
            &&& ms[k].id == id ==> (index_of(ms, id) matches Some(i) && i <= k)
            &&& index_of(ms, id) == Some(k) ==> ms[k].id == id
            &&& index_of(ms, id) matches Some(i) ==> 0 <= i < ms.len()
            &&& here ==> owner(ms, p) is Some
            &&& index_at(ms, p) == Some(k) ==> owner(ms, p) == Some(ms[k].id.device)
        }),
{
    lemma_index_at_from(ms, p, 0);
    lemma_index_of_from(ms, id, 0);
}

/// A move that leaves its monitor `c` for a point on no monitor jumps the gap: it
/// enters a monitor that lies wholly past the edge it leaves over and faces its own;
/// where `j` is such a monitor, one is entered, and `j` does not suit better, by ten
/// thousand times the distance of the move's end from its span, and by the distance of
/// the corners. The cursor lands on the pixel of that monitor next to the move's end.
pub proof fn law_gaps_are_jumped_forwards(
    ms: Seq<Monitor>,
    from: Point,
    to: Point,
    c: int,
    j: int,
    v: int,
)
    requires
        all_in_range(ms),
        0 <= j < ms.len(),
        index_at(ms, from) == Some(c),
        index_at(ms, to) is None,
    ensures
        ({
            let b = ms[c].bounds;
            let e = edge_crossed(b, from, to);
            let m = ms[j].bounds;
            let r = resolved(ms, from, to);
            &&& ms[j].id != ms[c].id && past(b, m, e, v) ==> r is Some
            &&& r matches Some(t) ==> {
                let i = entered(ms, from, to)->0;
                let n = ms[i].bounds;
                &&& 0 <= i < ms.len()
                &&& t.via == e
                &&& t.target == ms[i].id && t.target != ms[c].id
                &&& exists|s: int| #[trigger] past(b, n, e, s)
                &&& ms[j].id != ms[c].id && past(b, m, e, v) ==> match e {
                    Edge::Right | Edge::Left => off_span(to.y as int, n.y as int, n.h as int)
                        * 10_000 + apart(b.x as int, n.x as int) <= off_span(
                        to.y as int,
                        m.y as int,
                        m.h as int,
                    ) * 10_000 + apart(b.x as int, m.x as int),
                    Edge::Top | Edge::Bottom => off_span(to.x as int, n.x as int, n.w as int)
                        * 10_000 + apart(b.y as int, n.y as int) <= off_span(
                        to.x as int,
                        m.x as int,
                        m.w as int,
                    ) * 10_000 + apart(b.y as int, m.y as int),
                }
                &&& n.w >= 1 && n.h >= 1 ==> {
                    &&& n.x <= t.entry.x < n.x + n.w && n.y <= t.entry.y < n.y + n.h
                    &&& n.x <= to.x < n.x + n.w ==> t.entry.x == to.x
                    &&& to.x < n.x ==> t.entry.x == n.x
                    &&& to.x >= n.x + n.w ==> t.entry.x == n.x + n.w - 1
                    &&& n.y <= to.y < n.y + n.h ==> t.entry.y == to.y
                    &&& to.y < n.y ==> t.entry.y == n.y
                    &&& to.y >= n.y + n.h ==> t.entry.y == n.y + n.h - 1
                }
            }
        }),
{
    lemma_index_at_from(ms, from, 0);
    lemma_index_at_from(ms, to, 0);
    let b = ms[c].bounds;
    let e = edge_crossed(b, from, to);
    let n = ms.len() as int;
    assert(!b.covers(to));
    if ms[j].id != ms[c].id && past(b, ms[j].bounds, e, v) {
        assert(candidate(ms, ms[c], e, j));
        lemma_best_exists(ms, ms[c], e, to, n, j);
    }
    if let Some(i) = adjacent(ms, ms[c], e, to) {
        assert(best_among(ms, ms[c], e, to, n, i));
        let m = ms[i].bounds;
        let s = match e {
            Edge::Right | Edge::Left => if b.y > m.y {
                b.y as int
            } else {
                m.y as int
            },
            Edge::Top | Edge::Bottom => if b.x > m.x {
                b.x as int
            } else {
                m.x as int
            },
        };
        assert(past(b, m, e, s));
    }
}

/// How far `v` lies outside the `len` coordinates from `lo` on.
pub open spec fn off_span(v: int, lo: int, len: int) -> int {
    if v < lo {
        lo - v
    } else if v > lo + len - 1 {
        v - (lo + len - 1)
    } else {
        0
    }
}

/// How far two coordinates are apart.
pub open spec fn apart(a: int, b: int) -> int {
    if a < b {
        b - a
    } else {
        a - b
    }
}

proof fn lemma_best_exists(ms: Seq<Monitor>, cur: Monitor, via: Edge, to: Point, n: int, j: int)
    requires
        0 <= n <= ms.len(),
        j < n,
        candidate(ms, cur, via, j),
    ensures
        exists|i: int| best_among(ms, cur, via, to, n, i),
    decreases n,
{
    if exists|k: int| #[trigger] candidate(ms, cur, via, k) && k < n - 1 {
        let k = choose|k: int| #[trigger] candidate(ms, cur, via, k) && k < n - 1;
        let last = n - 1;
        lemma_best_exists(ms, cur, via, to, last, k);
        let i = choose|i: int| best_among(ms, cur, via, to, last, i);
        if candidate(ms, cur, via, last) && misfit(cur.bounds, ms[last].bounds, via, to) < misfit(
            cur.bounds,
            ms[i].bounds,
            via,
            to,
        ) {
            assert(best_among(ms, cur, via, to, n, last));
        } else {
            assert(best_among(ms, cur, via, to, n, i));
        }
    } else {
        assert(best_among(ms, cur, via, to, n, j));
    }
}

/// The bounding box holds every monitor, and any box that holds them all holds it.
pub proof fn law_the_bounding_box_is_the_smallest(ms: Seq<Monitor>, bb: Rect, other: Rect)
    requires
        is_bounding_box(ms, bb),
        forall|i: int|
            0 <= i < ms.len() ==> {
                let m = (#[trigger] ms[i]).bounds;
                other.x <= m.x && other.y <= m.y && m.x + m.w <= other.x + other.w && m.y + m.h
                    <= other.y + other.h
            },
    ensures
        other.x <= bb.x,
        other.y <= bb.y,
        bb.x + bb.w <= other.x + other.w,
        bb.y + bb.h <= other.y + other.h,
        forall|i: int|
            0 <= i < ms.len() ==> {
                let m = (#[trigger] ms[i]).bounds;
                bb.x <= m.x && bb.y <= m.y && m.x + m.w <= bb.x + bb.w && m.y + m.h <= bb.y + bb.h
            },
{
}

/// The monitors of one side of two lists in a row are those of the first and then those
/// of the second; of a single monitor it is that monitor or none.
pub proof fn law_sides_keep_their_order(
    a: Seq<Monitor>,
    b: Seq<Monitor>,
    m: Monitor,
    me: DeviceId,
    mine: bool,
)
    ensures
        on_side(a + b, me, mine) == on_side(a, me, mine) + on_side(b, me, mine),
        on_side(seq![m], me, true) == if m.id.device == me {
            seq![m]
        } else {
            Seq::empty()
        },
        on_side(seq![m], me, false) == if m.id.device == me {
            Seq::empty()
        } else {
            seq![m]
        },
    decreases b.len(),
{
    assert(seq![m].drop_last() =~= Seq::<Monitor>::empty());
    assert(seq![m].last() == m);
    assert(on_side(Seq::<Monitor>::empty(), me, true) =~= Seq::empty());
    assert(on_side(Seq::<Monitor>::empty(), me, false) =~= Seq::empty());
    assert(Seq::<Monitor>::empty().push(m) =~= seq![m]);
    reveal_with_fuel(on_side, 2);
    if b.len() == 0 {
        assert(a + b =~= a);
        assert(on_side(b, me, mine) =~= Seq::empty());
        assert(on_side(a, me, mine) + on_side(b, me, mine) =~= on_side(a, me, mine));
    } else {
        law_sides_keep_their_order(a, b.drop_last(), m, me, mine);
        assert((a + b).drop_last() =~= a + b.drop_last());
        assert((a + b).last() == b.last());
        assert(on_side(a + b, me, mine) =~= on_side(a, me, mine) + on_side(b, me, mine));
    }
}

/// Overlap is told exactly: rectangles of at least one pixel overlap where there is a
/// column and a row that both have.
pub proof fn law_overlap_is_a_common_row_and_column(a: Rect, b: Rect, x: int, y: int)
    ensures
        a.x <= x < a.x + a.w && b.x <= x < b.x + b.w && a.y <= y < a.y + a.h && b.y <= y < b.y + b.h
            ==> overlapping(a, b),
        overlapping(a, b) ==> a.x + a.w > b.x && b.x + b.w > a.x && a.y + a.h > b.y && b.y + b.h
            > a.y,
{
}

} // verus!
