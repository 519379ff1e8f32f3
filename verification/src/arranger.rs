//! The arranger of the tray: monitors as tiles that are dragged into place.

use crate::geometry::{Rect, Size};
use crate::ids::{DeviceId, MonitorId};
use crate::layout::{is_i32, Monitor, VirtualDesktop};
use vstd::prelude::*;

verus! {

/// A monitor in the arranger.
#[derive(Debug)]
pub struct MonTile {
    /// 0 is this machine, and 1 the peer.
    pub dev: u8,
    pub index: u16,
    pub label: String,
    pub x: i32,
    pub y: i32,
    pub w: i32,
    pub h: i32,
}

/// Edges that are nearer than this snap together.
pub const SNAP: i32 = 60;

/// The tile has this machine or the peer, this number, this label and this place.
pub open spec fn is_tile(
    t: MonTile,
    dev: int,
    index: int,
    label: Seq<char>,
    x: int,
    w: int,
    h: int,
) -> bool {
    t.dev == dev && t.index == index && t.label@ == label && t.x == x && t.y == 0 && t.w == w
        && t.h == h
}

fn tile(dev: u8, index: u16, label: &str, x: i32, w: i32, h: i32) -> (t: MonTile)
    ensures
        is_tile(t, dev as int, index as int, label@, x as int, w as int, h as int),
{
    MonTile { dev, index, label: label.to_owned(), x, y: 0, w, h }
}

/// The desk to start from.
pub open spec fn is_starter(v: Seq<MonTile>) -> bool {
    &&& v.len() == 5
    &&& is_tile(v[0], 0, 0, "Linux-L"@, 0, 1920, 1080)
    &&& is_tile(v[1], 0, 1, "Linux-C"@, 1920, 1920, 1080)
    &&& is_tile(v[2], 0, 2, "Linux-R"@, 3840, 1920, 1080)
    &&& is_tile(v[3], 1, 0, "Win-L"@, 5760, 2560, 1440)
    &&& is_tile(v[4], 1, 1, "Win-R"@, 8320, 2560, 1440)
}

/// A desk to start from: three monitors here, and to the right of them two larger
/// ones of the peer.
pub fn starter() -> (v: Vec<MonTile>)
    ensures
        is_starter(v@),
{
    vec![
        tile(0, 0, "Linux-L", 0, 1920, 1080),
        tile(0, 1, "Linux-C", 1920, 1920, 1080),
        tile(0, 2, "Linux-R", 3840, 1920, 1080),
        tile(1, 0, "Win-L", 5760, 2560, 1440),
        tile(1, 1, "Win-R", 8320, 2560, 1440),
    ]
}

// --- Snapping ----------------------------------------------------------------

/// The two are nearer than the distance at which edges snap.
pub open spec fn near(a: int, b: int) -> bool {
    -SNAP < a - b < SNAP
}

/// Where one end of a tile of length `len` comes to lie beside another tile that
/// starts at `lo` and is `ext` long: flush after it, flush before it, or level with
/// it, in this order.
pub open spec fn snap_to(v: int, len: int, lo: int, ext: int) -> int {
    let a = if near(v, lo + ext) {
        lo + ext
    } else {
        v
    };
    let b = if near(a + len, lo) {
        lo - len
    } else {
        a
    };
    if near(b, lo) {
        lo
    } else {
        b
    }
}

/// The place of a tile beside the first `n` others, one after the other.
pub open spec fn snapped(idx: int, x: int, y: int, tiles: Seq<MonTile>, n: int) -> (int, int)
    decreases n,
{
    if n <= 0 {
        (x, y)
    } else {
        let (a, b) = snapped(idx, x, y, tiles, n - 1);
        let o = tiles[n - 1];
        let m = tiles[idx];
        if n - 1 == idx {
            (a, b)
        } else {
            (
                snap_to(a, m.w as int, o.x as int, o.w as int),
                snap_to(b, m.h as int, o.y as int, o.h as int),
            )
        }
    }
}

/// Every place beside a tile is within coordinates.
pub open spec fn places_fit(idx: int, tiles: Seq<MonTile>) -> bool {
    forall|j: int|
        0 <= j < tiles.len() ==> {
            &&& is_i32((#[trigger] tiles[j]).x + tiles[j].w)
            &&& is_i32(tiles[j].x - tiles[idx].w)
            &&& is_i32(tiles[j].y + tiles[j].h)
            &&& is_i32(tiles[j].y - tiles[idx].h)
        }
}

fn snap_axis(v: i32, len: i32, lo: i32, ext: i32) -> (r: i32)
    requires
        is_i32(lo + ext),
        is_i32(lo - len),
    ensures
        r == snap_to(v as int, len as int, lo as int, ext as int),
{
    let mut a: i64 = v as i64;
    let end: i64 = lo as i64 + ext as i64;
    if -(SNAP as i64) < a - end && a - end < SNAP as i64 {
        a = end;
    }
    let gap: i64 = a + len as i64 - lo as i64;
    if -(SNAP as i64) < gap && gap < SNAP as i64 {
        a = lo as i64 - len as i64;
    }
    let off: i64 = a - lo as i64;
    if -(SNAP as i64) < off && off < SNAP as i64 {
        a = lo as i64;
    }
    a as i32
}

/// Where a tile that is dragged to a place comes to lie: its edges snap to those of
/// the others.
pub fn snap(idx: usize, x: i32, y: i32, tiles: &Vec<MonTile>) -> (r: (i32, i32))
    requires
        idx < tiles@.len(),
        places_fit(idx as int, tiles@),
    ensures
        (r.0 as int, r.1 as int) == snapped(
            idx as int,
            x as int,
            y as int,
            tiles@,
            tiles@.len() as int,
        ),
{
    let mut a: i32 = x;
    let mut b: i32 = y;
    let w: i32 = tiles[idx].w;
    let h: i32 = tiles[idx].h;
    let mut j: usize = 0;
    while j < tiles.len()
        invariant
            0 <= j <= tiles.len(),
            idx < tiles@.len(),
            w == tiles@[idx as int].w,
            h == tiles@[idx as int].h,
            places_fit(idx as int, tiles@),
            (a as int, b as int) == snapped(idx as int, x as int, y as int, tiles@, j as int),
        decreases tiles.len() - j,
    {
        if j != idx {
            let o = &tiles[j];
            a = snap_axis(a, w, o.x, o.w);
            b = snap_axis(b, h, o.y, o.h);
        }
        j = j + 1;
    }
    (a, b)
}

/// A tile that is dragged near the end of another comes to lie flush against it;
/// neither is smaller than the distance at which edges snap.
pub proof fn law_near_edges_meet(v: int, len: int, lo: int, ext: int)
    requires
        len >= SNAP,
        ext >= SNAP,
    ensures
        near(v, lo + ext) ==> snap_to(v, len, lo, ext) == lo + ext,
        near(v + len, lo) ==> snap_to(v, len, lo, ext) == lo - len,
        near(v, lo) && !near(v, lo + ext) && !near(v + len, lo) ==> snap_to(v, len, lo, ext) == lo,
{
}

/// A tile that is near no edge stays where it was dragged.
pub proof fn law_far_tiles_stay(idx: int, x: int, y: int, tiles: Seq<MonTile>, n: int)
    requires
        0 <= idx < tiles.len(),
        0 <= n <= tiles.len(),
        forall|j: int|
            0 <= j < tiles.len() && j != idx ==> {
                let o = #[trigger] tiles[j];
                let m = tiles[idx];
                &&& !near(x, o.x + o.w) && !near(x + m.w, o.x as int) && !near(x, o.x as int)
                &&& !near(y, o.y + o.h) && !near(y + m.h, o.y as int) && !near(y, o.y as int)
            },
    ensures
        snapped(idx, x, y, tiles, n) == (x, y),
    decreases n,
{
    if n > 0 {
        law_far_tiles_stay(idx, x, y, tiles, n - 1);
        if n - 1 != idx {
            assert(!near(x, tiles[n - 1].x + tiles[n - 1].w));
        }
    }
}

// --- Looking and arranging ---------------------------------------------------

/// The point lies in the tile.
pub open spec fn in_tile(t: MonTile, x: int, y: int) -> bool {
    t.x <= x < t.x + t.w && t.y <= y < t.y + t.h
}

/// The last tile of the first `n` that holds a point.
pub open spec fn topmost(tiles: Seq<MonTile>, x: int, y: int, n: int) -> Option<usize>
    decreases n,
{
    if n <= 0 {
        None
    } else if in_tile(tiles[n - 1], x, y) {
        Some((n - 1) as usize)
    } else {
        topmost(tiles, x, y, n - 1)
    }
}

/// The topmost tile at a point: the last that holds it.
pub fn tile_at(tiles: &Vec<MonTile>, x: i64, y: i64) -> (r: Option<usize>)
    ensures
        r == topmost(tiles@, x as int, y as int, tiles@.len() as int),
        r matches Some(i) ==> i < tiles@.len() && in_tile(tiles@[i as int], x as int, y as int),
{
    let mut i: usize = tiles.len();
    while i > 0
        invariant
            0 <= i <= tiles.len(),
            topmost(tiles@, x as int, y as int, tiles@.len() as int) == topmost(
                tiles@,
                x as int,
                y as int,
                i as int,
            ),
        decreases i,
    {
        i = i - 1;
        let t = &tiles[i];
        let right: i64 = t.x as i64 + t.w as i64;
        let bottom: i64 = t.y as i64 + t.h as i64;
        if t.x as i64 <= x && x < right && t.y as i64 <= y && y < bottom {
            return Some(i);
        }
    }
    None
}

// --- Dragging ----------------------------------------------------------------

/// What the mouse did over the arranger, in pixels of the desktop.
#[derive(Clone, Copy, Debug, PartialEq, Eq, Structural)]
pub enum CanvasEvent {
    /// The left button went down in this pixel.
    Pressed { x: i64, y: i64 },
    /// The mouse moved; the tile that is held would lie here.
    Moved { to_x: i32, to_y: i32 },
    /// A button went up.
    Released,
    Other,
}

/// What became of an event.
#[derive(Clone, Copy, Debug, PartialEq, Eq, Structural)]
pub enum Handled {
    Ignored,
    Captured,
    /// A tile is to be moved to this place.
    Move { idx: usize, x: i32, y: i32 },
}

/// The tile that is being dragged.
#[derive(Clone, Copy, Debug, PartialEq, Eq, Structural)]
pub struct DragState {
    pub active: Option<usize>,
}

impl DragState {
    /// This becomes of what the pointer does.
    pub open spec fn drags(
        self,
        after: DragState,
        inside: bool,
        event: CanvasEvent,
        tiles: Seq<MonTile>,
        h: Handled,
    ) -> bool {
        match event {
            CanvasEvent::Pressed { x, y } => {
                let hit = topmost(tiles, x as int, y as int, tiles.len() as int);
                if inside && hit is Some {
                    h == Handled::Captured && after.active == hit
                } else {
                    h == Handled::Ignored && after == self
                }
            },
            CanvasEvent::Moved { to_x, to_y } => {
                &&& after == self
                &&& match self.active {
                    Some(idx) if inside => {
                        &&& h matches Handled::Move { idx: i, x: a, y: b }
                        &&& i == idx
                        &&& (a as int, b as int) == snapped(
                            idx as int,
                            to_x as int,
                            to_y as int,
                            tiles,
                            tiles.len() as int,
                        )
                    },
                    _ => h == Handled::Ignored,
                }
            },
            CanvasEvent::Released => h == Handled::Ignored && after.active is None,
            CanvasEvent::Other => h == Handled::Ignored && after == self,
        }
    }

    /// A tile is held from a press of the button over it to the release. Outside the
    /// arranger only the release counts.
    pub fn update(&mut self, inside: bool, event: CanvasEvent, tiles: &Vec<MonTile>) -> (h: Handled)
        requires
            inside && event is Moved ==> (old(self).active matches Some(idx) ==> idx < tiles@.len()
                && places_fit(idx as int, tiles@)),
        ensures
            old(self).drags(*final(self), inside, event, tiles@, h),
    {
        match event {
            CanvasEvent::Pressed { x, y } => {
                if inside {
                    if let Some(idx) = tile_at(tiles, x, y) {
                        self.active = Some(idx);
                        return Handled::Captured;
                    }
                }
                Handled::Ignored
            },
            CanvasEvent::Moved { to_x, to_y } => {
                if inside {
                    if let Some(idx) = self.active {
                        let (a, b) = snap(idx, to_x, to_y, tiles);
                        return Handled::Move { idx, x: a, y: b };
                    }
                }
                Handled::Ignored
            },
            CanvasEvent::Released => {
                self.active = None;
                Handled::Ignored
            },
            CanvasEvent::Other => Handled::Ignored,
        }
    }
}

// --- The desktop -------------------------------------------------------------

/// The desktop that the tiles make: a stand-in for the id of each machine, and
/// every monitor unscaled.
pub open spec fn is_desktop_of(ms: Seq<Monitor>, tiles: Seq<MonTile>) -> bool {
    &&& ms.len() == tiles.len()
    &&& forall|i: int| 0 <= i < tiles.len() ==> is_monitor_of(#[trigger] ms[i], tiles[i])
}

/// The monitor stands where the tile does.
pub open spec fn is_monitor_of(m: Monitor, t: MonTile) -> bool {
    &&& m.id.device.0@ == Seq::new(
        16,
        |k: int|
            if t.dev == 0 {
                0u8
            } else {
                1u8
            },
    )
    &&& m.id.index == t.index
    &&& m.label@ == t.label@
    &&& m.bounds == (Rect { x: t.x, y: t.y, w: t.w, h: t.h })
    &&& m.native == (Size { w: t.w, h: t.h })
    &&& m.scale_pct == 100
}

/// The desktop that the tiles make.
pub fn to_virtual_desktop(tiles: &Vec<MonTile>) -> (d: VirtualDesktop)
    ensures
        is_desktop_of(d.monitors@, tiles@),
{
    let mut ms: Vec<Monitor> = Vec::new();
    let mut i: usize = 0;
    while i < tiles.len()
        invariant
            0 <= i <= tiles.len(),
            ms@.len() == i,
            forall|j: int| 0 <= j < i ==> is_monitor_of(#[trigger] ms@[j], tiles@[j]),
        decreases tiles.len() - i,
    {
        let t = &tiles[i];
        let bytes: [u8; 16] = if t.dev == 0 {
            [0u8; 16]
        } else {
            [1u8; 16]
        };
        let m = Monitor {
            id: MonitorId::new(DeviceId::from_bytes(bytes), t.index),
            label: t.label.clone(),
            bounds: Rect::new(t.x, t.y, t.w, t.h),
            native: Size::new(t.w, t.h),
            scale_pct: 100,
        };
        assert(m.id.device.0@ =~= Seq::new(
            16,
            |k: int|
                if t.dev == 0 {
                    0u8
                } else {
                    1u8
                },
        ));
        ms.push(m);
        i = i + 1;
    }
    VirtualDesktop::new(ms)
}

/// The top of the first `n` tiles, the least of their upper edges; 0 where there is
/// none.
pub open spec fn top_of(tiles: Seq<MonTile>, n: int) -> int
    decreases n,
{
    if n <= 0 {
        0
    } else if n == 1 {
        tiles[0].y as int
    } else {
        let t = top_of(tiles, n - 1);
        if tiles[n - 1].y < t {
            tiles[n - 1].y as int
        } else {
            t
        }
    }
}

/// Moves every tile up to the highest upper edge.
pub fn align_tops(tiles: &mut Vec<MonTile>)
    ensures
        final(tiles)@.len() == old(tiles)@.len(),
        forall|i: int|
            0 <= i < final(tiles)@.len() ==> #[trigger] final(tiles)@[i] == (MonTile {
                y: top_of(old(tiles)@, old(tiles)@.len() as int) as i32,
                ..old(tiles)@[i]
            }),
{
    let ghost before = tiles@;
    if tiles.len() == 0 {
        return ;
    }
    let mut top: i32 = tiles[0].y;
    let mut i: usize = 1;
    while i < tiles.len()
        invariant
            1 <= i <= tiles.len(),
            tiles@ == before,
            top == top_of(before, i as int),
        decreases tiles.len() - i,
    {
        if tiles[i].y < top {
            top = tiles[i].y;
        }
        i = i + 1;
    }
    let mut out: Vec<MonTile> = Vec::new();
    let mut k: usize = 0;
    while k < tiles.len()
        invariant
            0 <= k <= tiles.len(),
            tiles@ == before,
            out@.len() == k,
            forall|j: int| 0 <= j < k ==> #[trigger] out@[j] == (MonTile { y: top, ..before[j] }),
        decreases tiles.len() - k,
    {
        let t = &tiles[k];
        out.push(
            MonTile {
                dev: t.dev,
                index: t.index,
                label: t.label.clone(),
                x: t.x,
                y: top,
                w: t.w,
                h: t.h,
            },
        );
        k = k + 1;
    }
    *tiles = out;
}

proof fn lemma_top(tiles: Seq<MonTile>, n: int)
    requires
        1 <= n <= tiles.len(),
    ensures
        forall|i: int| 0 <= i < n ==> top_of(tiles, n) <= (#[trigger] tiles[i]).y,
        exists|i: int| 0 <= i < n && top_of(tiles, n) == (#[trigger] tiles[i]).y,
    decreases n,
{
    if n == 1 {
        assert(top_of(tiles, 1) == tiles[0].y);
    } else {
        lemma_top(tiles, n - 1);
        let i = choose|i: int| 0 <= i < n - 1 && top_of(tiles, n - 1) == (#[trigger] tiles[i]).y;
        assert(tiles[i].y == top_of(tiles, n) || tiles[n - 1].y == top_of(tiles, n));
    }
}

/// Aligning moves no tile down, and leaves the highest where it is.
pub proof fn law_aligning_only_raises(tiles: Seq<MonTile>, i: int)
    requires
        0 <= i < tiles.len(),
    ensures
        top_of(tiles, tiles.len() as int) <= tiles[i].y,
        exists|k: int|
            0 <= k < tiles.len() && top_of(tiles, tiles.len() as int) == (#[trigger] tiles[k]).y,
{
    lemma_top(tiles, tiles.len() as int);
}

/// A tile that is dragged beside one other: on each axis, where its near edge comes
/// within 60 pixels of the other's far edge, or its far edge within 60 of the other's
/// near edge, it lies flush with that edge; where both begin within 60 pixels of each
/// other it lies level; and else it stays where it was dragged. Neither tile is smaller
/// than 120 pixels.
pub proof fn law_a_tile_snaps_to_another(x: int, y: int, tiles: Seq<MonTile>, idx: int)
    requires
        tiles.len() == 2,
        0 <= idx < 2,
        tiles[0].w >= 120 && tiles[0].h >= 120 && tiles[1].w >= 120 && tiles[1].h >= 120,
    ensures
        ({
            let m = tiles[idx];
            let o = tiles[1 - idx];
            let (a, b) = snapped(idx, x, y, tiles, 2);
            &&& a == if -60 < x - (o.x + o.w) < 60 {
                o.x + o.w
            } else if -60 < x + m.w - o.x < 60 {
                o.x - m.w
            } else if -60 < x - o.x < 60 {
                o.x as int
            } else {
                x
            }
            &&& b == if -60 < y - (o.y + o.h) < 60 {
                o.y + o.h
            } else if -60 < y + m.h - o.y < 60 {
                o.y - m.h
            } else if -60 < y - o.y < 60 {
                o.y as int
            } else {
                y
            }
        }),
{
    reveal_with_fuel(snapped, 3);
}

/// The tile found at a point holds it, and no tile above it does; where none is found,
/// none holds the point.
pub proof fn law_the_topmost_tile_is_found(tiles: Seq<MonTile>, x: int, y: int, n: int, j: int)
    requires
        0 <= j < n <= tiles.len() <= usize::MAX,
    ensures
        ({
            let t = tiles[j];
            let held = t.x <= x && x < t.x + t.w && t.y <= y && y < t.y + t.h;
            &&& topmost(tiles, x, y, n) matches Some(i) ==> i < n && (held ==> j <= i)
            &&& topmost(tiles, x, y, n) == Some(j as usize) ==> held
            &&& topmost(tiles, x, y, n) is None ==> !held
        }),
    decreases n,
{
    reveal_with_fuel(topmost, 2);
    if n > 1 && j < n - 1 {
        law_the_topmost_tile_is_found(tiles, x, y, n - 1, j);
    } else if n > 1 && !in_tile(tiles[n - 1], x, y) {
        law_the_topmost_tile_is_found(tiles, x, y, n - 1, 0);
    }
}

/// The desktop of the tiles has each monitor where its tile lies, in its size and
/// unscaled; two monitors belong to one machine exactly where their tiles do.
pub proof fn law_desktops_show_their_tiles(ms: Seq<Monitor>, tiles: Seq<MonTile>, i: int, j: int)
    requires
        is_desktop_of(ms, tiles),
        0 <= i < tiles.len(),
        0 <= j < tiles.len(),
    ensures
        ms.len() == tiles.len(),
        ms[i].bounds.x == tiles[i].x && ms[i].bounds.y == tiles[i].y,
        ms[i].bounds.w == tiles[i].w && ms[i].bounds.h == tiles[i].h,
        ms[i].native.w == tiles[i].w && ms[i].native.h == tiles[i].h,
        ms[i].scale_pct == 100 && ms[i].id.index == tiles[i].index && ms[i].label@ == tiles[i].label@,
        (tiles[i].dev == 0) == (tiles[j].dev == 0) <==> ms[i].id.device.0@ == ms[j].id.device.0@,
{
    assert(is_monitor_of(ms[i], tiles[i]));
    assert(is_monitor_of(ms[j], tiles[j]));
    assert((tiles[i].dev == 0) == (ms[i].id.device.0@[0] == 0));
    assert((tiles[j].dev == 0) == (ms[j].id.device.0@[0] == 0));
}

/// The starting row has three displays of this machine, from the left, and then two larger
/// ones of the peer; each begins where the one before ends, and all begin at the top.
pub proof fn law_the_first_row_has_no_gaps(v: Seq<MonTile>, i: int)
    requires
        is_starter(v),
        0 <= i < v.len(),
    ensures
        v.len() == 5,
        v[0].x == 0,
        v[i].y == 0,
        i > 0 ==> v[i].x == v[i - 1].x + v[i - 1].w,
        v[i].dev == 0 <==> i < 3,
        v[i].dev == 1 <==> i >= 3,
        v[i].index == if i < 3 {
            i
        } else {
            i - 3
        },
        i < 3 ==> v[i].w == 1920 && v[i].h == 1080,
        i >= 3 ==> v[i].w == 2560 && v[i].h == 1440,
{
}

/// A press inside picks up the topmost tile under the pointer, motions move the tile that is
/// held and no other, and the release lets go of it, inside or outside.
pub proof fn law_tiles_are_held_from_press_to_release(
    d: DragState,
    after: DragState,
    inside: bool,
    event: CanvasEvent,
    tiles: Seq<MonTile>,
    h: Handled,
)
    requires
        d.drags(after, inside, event, tiles, h),
    ensures
        event is Released ==> after.active is None,
        event is Moved || event is Other ==> after.active == d.active,
        h is Move ==> event is Moved && inside && d.active == Some(h->idx),
        event is Moved && inside && d.active is Some ==> h is Move,
        h is Captured ==> event is Pressed && inside && after.active is Some,
        event matches CanvasEvent::Pressed { x, y } ==> {
            let hit = topmost(tiles, x as int, y as int, tiles.len() as int);
            &&& inside && hit is Some ==> after.active == hit
            &&& !inside || hit is None ==> after.active == d.active
        },
{
}

} // verus!
