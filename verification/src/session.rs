//! What a session with one peer starts from: the combined desktop, the place of
//! the cursor, and which pumps run.

use crate::config::{AppConfig, ConflictPolicy};
use crate::controller::center;
use crate::geometry::{Point, Rect};
use crate::ids::DeviceId;
use crate::ipc::Features;
use crate::layout::{
    all_in_range, clone_monitors, is_i32, monitors_in_range, overlapping, Monitor, VirtualDesktop,
};
use crate::message::{Capabilities, Control, ProtocolVersion};
use vstd::prelude::*;

verus! {

// --- Combining two machines --------------------------------------------------

/// The right end of a row of monitors, 0 where there are none.
pub open spec fn row_end(ms: Seq<Monitor>) -> int
    decreases ms.len(),
{
    if ms.len() == 0 {
        0
    } else {
        let right = ms.last().bounds.x + ms.last().bounds.w;
        if ms.len() == 1 || row_end(ms.drop_last()) < right {
            right
        } else {
            row_end(ms.drop_last())
        }
    }
}

/// The left end of a row of monitors, 0 where there are none.
pub open spec fn row_start(ms: Seq<Monitor>) -> int
    decreases ms.len(),
{
    if ms.len() == 0 {
        0
    } else {
        let left = ms.last().bounds.x as int;
        if ms.len() == 1 || row_start(ms.drop_last()) > left {
            left
        } else {
            row_start(ms.drop_last())
        }
    }
}

/// The monitor moved right by `shift`.
pub open spec fn shifted(m: Monitor, shift: int) -> Monitor {
    Monitor { bounds: Rect { x: (m.bounds.x + shift) as i32, ..m.bounds }, ..m }
}

/// Our monitors, and to the right of them the peer's, moved as one.
pub open spec fn side_by_side(own: Seq<Monitor>, peer: Seq<Monitor>) -> Seq<Monitor> {
    let shift = row_end(own) - row_start(peer);
    own + peer.map_values(|m: Monitor| shifted(m, shift))
}

/// The move that puts the peer beside us stays within coordinates.
pub open spec fn can_seed(own: Seq<Monitor>, peer: Seq<Monitor>) -> bool {
    let shift = row_end(own) - row_start(peer);
    &&& all_in_range(own)
    &&& is_i32(shift)
    &&& forall|i: int| 0 <= i < peer.len() ==> is_i32((#[trigger] peer[i]).bounds.x + shift)
}

/// The right end bounds every monitor, and one of them reaches it.
pub proof fn lemma_row_end(ms: Seq<Monitor>)
    ensures
        forall|i: int|
            0 <= i < ms.len() ==> (#[trigger] ms[i]).bounds.x + ms[i].bounds.w <= row_end(ms),
        ms.len() > 0 ==> exists|i: int|
            0 <= i < ms.len() && (#[trigger] ms[i]).bounds.x + ms[i].bounds.w == row_end(ms),
    decreases ms.len(),
{
    if ms.len() > 0 {
        let init = ms.drop_last();
        lemma_row_end(init);
        assert forall|i: int| 0 <= i < ms.len() implies (#[trigger] ms[i]).bounds.x
            + ms[i].bounds.w <= row_end(ms) by {
            if i < init.len() {
                assert(init[i] == ms[i]);
            }
        }
        if init.len() > 0 && row_end(ms) == row_end(init) {
            let k = choose|k: int|
                0 <= k < init.len() && (#[trigger] init[k]).bounds.x + init[k].bounds.w == row_end(
                    init,
                );
            assert(ms[k] == init[k]);
        } else {
            assert(ms[ms.len() - 1] == ms.last());
        }
    }
}

/// The left end bounds every monitor, and one of them reaches it.
pub proof fn lemma_row_start(ms: Seq<Monitor>)
    ensures
        forall|i: int| 0 <= i < ms.len() ==> row_start(ms) <= (#[trigger] ms[i]).bounds.x,
        ms.len() > 0 ==> exists|i: int|
            0 <= i < ms.len() && (#[trigger] ms[i]).bounds.x == row_start(ms),
    decreases ms.len(),
{
    if ms.len() > 0 {
        let init = ms.drop_last();
        lemma_row_start(init);
        assert forall|i: int| 0 <= i < ms.len() implies row_start(ms) <= (#[trigger] ms[i]).bounds.x by {
            if i < init.len() {
                assert(init[i] == ms[i]);
            }
        }
        if init.len() > 0 && row_start(ms) == row_start(init) {
            let k = choose|k: int| 0 <= k < init.len() && (#[trigger] init[k]).bounds.x == row_start(init);
            assert(ms[k] == init[k]);
        } else {
            assert(ms[ms.len() - 1] == ms.last());
        }
    }
}

/// The right end of a row, 0 where there are no monitors.
pub(crate) fn right_end(ms: &Vec<Monitor>) -> (r: i32)
    requires
        all_in_range(ms@),
    ensures
        r == row_end(ms@),
{
    let mut r: i32 = 0;
    let mut i: usize = 0;
    while i < ms.len()
        invariant
            0 <= i <= ms.len(),
            all_in_range(ms@),
            r == row_end(ms@.subrange(0, i as int)),
        decreases ms.len() - i,
    {
        proof {
            let now = ms@.subrange(0, i + 1);
            assert(now.drop_last() =~= ms@.subrange(0, i as int));
            assert(now.last() == ms@[i as int]);
        }
        let right = ms[i].bounds.right();
        if i == 0 || right > r {
            r = right;
        }
        i = i + 1;
    }
    assert(ms@.subrange(0, ms@.len() as int) =~= ms@);
    r
}

fn left_end(ms: &Vec<Monitor>) -> (r: i32)
    ensures
        r == row_start(ms@),
{
    let mut r: i32 = 0;
    let mut i: usize = 0;
    while i < ms.len()
        invariant
            0 <= i <= ms.len(),
            r == row_start(ms@.subrange(0, i as int)),
        decreases ms.len() - i,
    {
        proof {
            let now = ms@.subrange(0, i + 1);
            assert(now.drop_last() =~= ms@.subrange(0, i as int));
            assert(now.last() == ms@[i as int]);
        }
        let left = ms[i].bounds.left();
        if i == 0 || left < r {
            r = left;
        }
        i = i + 1;
    }
    assert(ms@.subrange(0, ms@.len() as int) =~= ms@);
    r
}

/// A combined desktop to start from: the peer's monitors to the right of ours.
pub fn seed_layout(own: &Vec<Monitor>, peer: &Vec<Monitor>) -> (d: VirtualDesktop)
    requires
        can_seed(own@, peer@),
    ensures
        d.monitors@ == side_by_side(own@, peer@),
{
    let mut monitors = clone_monitors(own);
    let shift: i32 = right_end(own) - left_end(peer);
    let mut i: usize = 0;
    while i < peer.len()
        invariant
            0 <= i <= peer.len(),
            shift == row_end(own@) - row_start(peer@),
            can_seed(own@, peer@),
            monitors@ =~= own@ + peer@.subrange(0, i as int).map_values(
                |m: Monitor| shifted(m, shift as int),
            ),
        decreases peer.len() - i,
    {
        let mut m = peer[i].clone();
        assert(peer@[i as int] == m);
        m.bounds.x = m.bounds.x + shift;
        monitors.push(m);
        i = i + 1;
    }
    assert(peer@.subrange(0, peer@.len() as int) =~= peer@);
    VirtualDesktop::new(monitors)
}

/// Side by side, nothing of one machine covers anything of the other; our
/// monitors stay where they were; and the peer's keep their places among
/// themselves, with the leftmost flush against our right end, or at the origin where
/// we have none.
pub proof fn law_seeding_keeps_machines_apart(own: Seq<Monitor>, peer: Seq<Monitor>)
    requires
        can_seed(own, peer),
    ensures
        ({
            let all = side_by_side(own, peer);
            &&& all.len() == own.len() + peer.len()
            &&& forall|i: int| 0 <= i < own.len() ==> #[trigger] all[i] == own[i]
            &&& forall|i: int, j: int|
                0 <= i < own.len() <= j < all.len() ==> !overlapping(
                    (#[trigger] all[i]).bounds,
                    (#[trigger] all[j]).bounds,
                )
            &&& forall|i: int, j: int|
                0 <= i < peer.len() && 0 <= j < peer.len() ==> {
                    let a = #[trigger] all[own.len() + i];
                    let b = #[trigger] all[own.len() + j];
                    &&& a.id == peer[i].id
                    &&& a.bounds.y == peer[i].bounds.y
                    &&& a.bounds.w == peer[i].bounds.w
                    &&& a.bounds.h == peer[i].bounds.h
                    &&& a.bounds.x - b.bounds.x == peer[i].bounds.x - peer[j].bounds.x
                }
            &&& peer.len() > 0 ==> exists|j: int|
                own.len() <= j < all.len() && (#[trigger] all[j]).bounds.x == row_end(own)
        }),
{
    let all = side_by_side(own, peer);
    let shift = row_end(own) - row_start(peer);
    lemma_row_end(own);
    lemma_row_start(peer);
    assert forall|j: int| 0 <= j < peer.len() implies #[trigger] all[own.len() + j] == shifted(
        peer[j],
        shift,
    ) && all[own.len() + j].bounds.x == peer[j].bounds.x + shift by {
        assert(is_i32(peer[j].bounds.x + shift));
    }
    assert forall|i: int, j: int| 0 <= i < own.len() <= j < all.len() implies !overlapping(
        (#[trigger] all[i]).bounds,
        (#[trigger] all[j]).bounds,
    ) by {
        assert(all[i] == own[i]);
        assert(all[own.len() + (j - own.len())] == shifted(peer[j - own.len()], shift));
    }
    if peer.len() > 0 {
        let k = choose|k: int| 0 <= k < peer.len() && (#[trigger] peer[k]).bounds.x == row_start(peer);
        assert(all[own.len() + k].bounds.x == row_end(own));
    }
}

// --- Where the cursor starts -------------------------------------------------

/// The gap between two spans, 0 where they touch or overlap.
pub open spec fn span_gap(a0: int, a1: int, b0: int, b1: int) -> int {
    if b0 - a1 > 0 && b0 - a1 >= a0 - b1 {
        b0 - a1
    } else if a0 - b1 > 0 {
        a0 - b1
    } else {
        0
    }
}

/// The gap between two rectangles, along both axes together.
pub open spec fn gap(a: Rect, b: Rect) -> int {
    span_gap(a.x as int, a.x + a.w, b.x as int, b.x + b.w) + span_gap(
        a.y as int,
        a.y + a.h,
        b.y as int,
        b.y + b.h,
    )
}

/// The smallest gap between `r` and a monitor of another device among the first
/// `n`; `i32::MAX` where there is none.
pub open spec fn peer_gap(ms: Seq<Monitor>, me: DeviceId, r: Rect, n: int) -> int
    decreases n,
{
    if n <= 0 {
        i32::MAX as int
    } else {
        let before = peer_gap(ms, me, r, n - 1);
        let has_before = exists|j: int| 0 <= j < n - 1 && (#[trigger] ms[j]).id.device != me;
        if ms[n - 1].id.device != me && (!has_before || gap(r, ms[n - 1].bounds) < before) {
            gap(r, ms[n - 1].bounds)
        } else {
            before
        }
    }
}

/// Among the first `n` monitors, `i` is ours and has the smallest gap to the
/// peer's, the first of them on a tie.
pub open spec fn is_gateway(ms: Seq<Monitor>, me: DeviceId, n: int, i: int) -> bool {
    &&& 0 <= i < n <= ms.len()
    &&& ms[i].id.device == me
    &&& forall|j: int|
        0 <= j < n && (#[trigger] ms[j]).id.device == me ==> {
            let mine = peer_gap(ms, me, ms[i].bounds, ms.len() as int);
            let theirs = peer_gap(ms, me, ms[j].bounds, ms.len() as int);
            mine < theirs || (mine == theirs && i <= j)
        }
}

/// `p` is where the cursor starts: the middle of the gateway, or the origin
/// where no monitor is ours.
pub open spec fn is_start(ms: Seq<Monitor>, me: DeviceId, p: Point) -> bool {
    if exists|i: int| is_gateway(ms, me, ms.len() as int, i) {
        exists|i: int| #[trigger]
            is_gateway(ms, me, ms.len() as int, i) && p == center(ms[i].bounds)
    } else {
        p == (Point { x: 0, y: 0 })
    }
}

/// There is one gateway.
pub proof fn law_one_gateway(ms: Seq<Monitor>, me: DeviceId, i: int, j: int)
    requires
        is_gateway(ms, me, ms.len() as int, i),
        is_gateway(ms, me, ms.len() as int, j),
    ensures
        i == j,
{
}

fn gap_between(a0: i32, a1: i32, b0: i32, b1: i32) -> (g: i64)
    ensures
        g == span_gap(a0 as int, a1 as int, b0 as int, b1 as int),
        0 <= g <= 0xffff_ffff,
{
    let after: i64 = b0 as i64 - a1 as i64;
    let before: i64 = a0 as i64 - b1 as i64;
    if after > 0 && after >= before {
        after
    } else if before > 0 {
        before
    } else {
        0
    }
}

/// The gap between two rectangles: 0 where they touch or overlap.
pub fn rect_gap(a: Rect, b: Rect) -> (g: i64)
    requires
        a.in_range(),
        b.in_range(),
    ensures
        g == gap(a, b),
{
    gap_between(a.left(), a.right(), b.left(), b.right()) + gap_between(
        a.top(),
        a.bottom(),
        b.top(),
        b.bottom(),
    )
}

fn nearest_peer(ms: &Vec<Monitor>, me: DeviceId, r: Rect) -> (g: i64)
    requires
        all_in_range(ms@),
        r.in_range(),
    ensures
        g == peer_gap(ms@, me, r, ms@.len() as int),
{
    let mut best: i64 = 0x7fff_ffff;
    let mut found = false;
    let mut i: usize = 0;
    while i < ms.len()
        invariant
            0 <= i <= ms.len(),
            all_in_range(ms@),
            r.in_range(),
            best == peer_gap(ms@, me, r, i as int),
            found == exists|j: int| 0 <= j < i && (#[trigger] ms@[j]).id.device != me,
        decreases ms.len() - i,
    {
        if ms[i].device() != me {
            let g = rect_gap(r, ms[i].bounds);
            if !found || g < best {
                best = g;
            }
            found = true;
            assert(ms@[i as int].id.device != me);
        }
        i = i + 1;
    }
    best
}

fn middle(r: Rect) -> (p: Point)
    requires
        r.in_range(),
    ensures
        p == center(r),
{
    Point::new(r.x + crate::controller::halved(r.w), r.y + crate::controller::halved(r.h))
}

/// Where the cursor starts: in the middle of the one of our monitors that is
/// closest to a monitor of the peer, so that the first crossing is short.
pub fn start_position(layout: &VirtualDesktop, me: DeviceId) -> (p: Point)
    requires
        all_in_range(layout.monitors@),
    ensures
        is_start(layout.monitors@, me, p),
{
    let ghost ms = layout.monitors@;
    let mut best: Option<usize> = None;
    let mut best_gap: i64 = 0;
    let mut i: usize = 0;
    while i < layout.monitors.len()
        invariant
            0 <= i <= layout.monitors.len(),
            ms == layout.monitors@,
            all_in_range(ms),
            match best {
                Some(b) => {
                    &&& is_gateway(ms, me, i as int, b as int)
                    &&& best_gap == peer_gap(ms, me, ms[b as int].bounds, ms.len() as int)
                },
                None => forall|j: int| 0 <= j < i ==> (#[trigger] ms[j]).id.device != me,
            },
        decreases layout.monitors.len() - i,
    {
        if layout.monitors[i].device() == me {
            let g = nearest_peer(&layout.monitors, me, layout.monitors[i].bounds);
            match best {
                Some(_) => {
                    if g < best_gap {
                        best = Some(i);
                        best_gap = g;
                    }
                },
                None => {
                    best = Some(i);
                    best_gap = g;
                },
            }
        }
        i = i + 1;
    }
    match best {
        Some(b) => {
            assert(is_gateway(ms, me, ms.len() as int, b as int));
            middle(layout.monitors[b].bounds)
        },
        None => {
            assert forall|k: int| !is_gateway(ms, me, ms.len() as int, k) by {
                if is_gateway(ms, me, ms.len() as int, k) {
                    assert(ms[k].id.device == me);
                }
            }
            Point::new(0, 0)
        },
    }
}

/// The cursor starts on a monitor of ours, where we have one and ours are not
/// empty.
pub proof fn law_cursor_starts_at_home(ms: Seq<Monitor>, me: DeviceId, p: Point)
    requires
        is_start(ms, me, p),
        exists|i: int| 0 <= i < ms.len() && (#[trigger] ms[i]).id.device == me,
        forall|i: int| 0 <= i < ms.len() ==> (#[trigger] ms[i]).bounds.nonempty(),
        all_in_range(ms),
    ensures
        exists|i: int|
            0 <= i < ms.len() && (#[trigger] ms[i]).id.device == me && ms[i].bounds.covers(p),
{
    let k = choose|k: int| 0 <= k < ms.len() && (#[trigger] ms[k]).id.device == me;
    lemma_gateway_exists(ms, me, ms.len() as int, k);
    let g = choose|i: int| #[trigger]
        is_gateway(ms, me, ms.len() as int, i) && p == center(ms[i].bounds);
    assert(ms[g].bounds.nonempty() && ms[g].bounds.in_range());
    assert(ms[g].id.device == me && ms[g].bounds.covers(p));
}

/// Where a monitor is ours, one of ours is the gateway.
proof fn lemma_gateway_exists(ms: Seq<Monitor>, me: DeviceId, n: int, k: int)
    requires
        0 <= k < n <= ms.len(),
        ms[k].id.device == me,
    ensures
        exists|i: int| is_gateway(ms, me, n, i),
    decreases n,
{
    let last = n - 1;
    if k < last {
        lemma_gateway_exists(ms, me, last, k);
        let b = choose|i: int| is_gateway(ms, me, last, i);
        if ms[last].id.device == me && peer_gap(ms, me, ms[last].bounds, ms.len() as int)
            < peer_gap(ms, me, ms[b].bounds, ms.len() as int) {
            assert(is_gateway(ms, me, n, last));
        } else {
            assert(is_gateway(ms, me, n, b));
        }
    } else {
        if exists|j: int| 0 <= j < last && (#[trigger] ms[j]).id.device == me {
            let j = choose|j: int| 0 <= j < last && (#[trigger] ms[j]).id.device == me;
            lemma_gateway_exists(ms, me, last, j);
            let b = choose|i: int| is_gateway(ms, me, last, i);
            if peer_gap(ms, me, ms[last].bounds, ms.len() as int) < peer_gap(
                ms,
                me,
                ms[b].bounds,
                ms.len() as int,
            ) {
                assert(is_gateway(ms, me, n, last));
            } else {
                assert(is_gateway(ms, me, n, b));
            }
        } else {
            assert(is_gateway(ms, me, n, last));
        }
    }
}

/// Rectangles that touch or overlap have no gap, and the gap does not depend on
/// their order.
pub proof fn law_gap_is_a_distance(a: Rect, b: Rect)
    requires
        a.w >= 0,
        a.h >= 0,
        b.w >= 0,
        b.h >= 0,
    ensures
        gap(a, b) == gap(b, a),
        gap(a, b) >= 0,
        overlapping(a, b) ==> gap(a, b) == 0,
        gap(a, b) == 0 <==> a.x <= b.x + b.w && b.x <= a.x + a.w && a.y <= b.y + b.h && b.y <= a.y
            + a.h,
{
}

/// Whether the peer's monitors can be put beside ours.
pub fn fits_beside(own: &Vec<Monitor>, peer: &Vec<Monitor>) -> (b: bool)
    ensures
        b == can_seed(own@, peer@),
{
    if !monitors_in_range(own) {
        return false;
    }
    let shift: i64 = right_end(own) as i64 - left_end(peer) as i64;
    if shift < -0x8000_0000 || shift > 0x7fff_ffff {
        return false;
    }
    let mut i: usize = 0;
    while i < peer.len()
        invariant
            0 <= i <= peer.len(),
            all_in_range(own@),
            shift == row_end(own@) - row_start(peer@),
            is_i32(shift as int),
            forall|j: int| 0 <= j < i ==> is_i32((#[trigger] peer@[j]).bounds.x + shift),
        decreases peer.len() - i,
    {
        let x: i64 = peer[i].bounds.x as i64 + shift;
        if x < -0x8000_0000 || x > 0x7fff_ffff {
            assert(!is_i32(peer@[i as int].bounds.x + shift));
            return false;
        }
        i = i + 1;
    }
    true
}

// --- Starting a session ------------------------------------------------------

/// What this machine offers.
pub open spec fn offered(config: AppConfig) -> Capabilities {
    Capabilities {
        clipboard_text: config.clipboard.sync_text,
        clipboard_images: config.clipboard.sync_images,
        clipboard_files: config.clipboard.sync_files,
        file_transfer: true,
        audio_forward: config.audio.forward_enabled,
    }
}

/// What this machine offers, as its configuration says.
pub fn capabilities_from(config: &AppConfig) -> (c: Capabilities)
    ensures
        c == offered(*config),
{
    Capabilities {
        clipboard_text: config.clipboard.sync_text,
        clipboard_images: config.clipboard.sync_images,
        clipboard_files: config.clipboard.sync_files,
        file_transfer: true,
        audio_forward: config.audio.forward_enabled,
    }
}

/// The message greets with these monitors, as the settings say.
pub open spec fn greets(msg: Control, config: AppConfig, own: Seq<Monitor>) -> bool {
    msg matches Control::Hello { version, device, name, monitors, capabilities } && {
        &&& version == (ProtocolVersion { major: 1, minor: 0 })
        &&& device == config.device.id
        &&& name@ == config.device.name@
        &&& monitors.monitors@ == own
        &&& capabilities == offered(config)
    }
}

/// The first message that this machine sends.
pub fn greeting(config: &AppConfig, own: &Vec<Monitor>) -> (msg: Control)
    ensures
        greets(msg, *config, own@),
{
    Control::Hello {
        version: ProtocolVersion::current(),
        device: config.device.id,
        name: config.device.name.clone(),
        monitors: VirtualDesktop::new(clone_monitors(own)),
        capabilities: capabilities_from(config),
    }
}

/// What the peer's first message says of it.
pub struct PeerHello {
    pub monitors: Vec<Monitor>,
    pub audio_forward: bool,
}

/// The peer speaks another major version of the protocol.
#[derive(Clone, Copy, Debug, PartialEq, Eq, Structural)]
pub struct VersionMismatch {
    pub theirs: ProtocolVersion,
}

/// What the peer's first message comes to: its monitors and whether it forwards audio,
/// or the version that cannot be talked to.
pub open spec fn hello_read(msg: Option<Control>) -> Result<(Seq<Monitor>, bool), ProtocolVersion> {
    match msg {
        Some(Control::Hello { version, monitors, capabilities, .. }) => if version.major == 1 {
            Ok((monitors.monitors@, capabilities.audio_forward))
        } else {
            Err(version)
        },
        _ => Ok((Seq::empty(), false)),
    }
}

/// Reads the peer's first message. A peer that sends none, or another one, is
/// taken to have no monitors and to forward no audio. A peer of another major
/// version is refused.
pub fn read_hello(msg: Option<Control>) -> (r: Result<PeerHello, VersionMismatch>)
    ensures
        match msg {
            Some(Control::Hello { version, monitors, capabilities, .. }) => if version.major == 1 {
                r matches Ok(h) && h.monitors@ == monitors.monitors@ && h.audio_forward
                    == capabilities.audio_forward
            } else {
                r == Err::<PeerHello, VersionMismatch>(VersionMismatch { theirs: version })
            },
            _ => r matches Ok(h) && h.monitors@.len() == 0 && !h.audio_forward,
        },
        match hello_read(msg) {
            Ok((monitors, audio)) => r matches Ok(h) && h.monitors@ == monitors && h.audio_forward
                == audio,
            Err(version) => r == Err::<PeerHello, VersionMismatch>(
                VersionMismatch { theirs: version },
            ),
        },
{
    match msg {
        Some(Control::Hello { version, monitors, capabilities, .. }) => {
            if version.major != ProtocolVersion::current().major {
                return Err(VersionMismatch { theirs: version });
            }
            Ok(
                PeerHello {
                    monitors: monitors.monitors,
                    audio_forward: capabilities.audio_forward,
                },
            )
        },
        _ => Ok(PeerHello { monitors: Vec::new(), audio_forward: false }),
    }
}

/// What the settings have switched on.
pub open spec fn switched_on(config: AppConfig) -> Features {
    Features {
        input: true,
        clipboard: config.clipboard.sync_text || config.clipboard.sync_images
            || config.clipboard.sync_files,
        audio: config.audio.forward_enabled,
    }
}

/// What is switched on when the daemon starts: input always, and the rest as the
/// settings say.
pub fn start_features(config: &AppConfig) -> (f: Features)
    ensures
        f == switched_on(*config),
{
    let clip = &config.clipboard;
    Features {
        input: true,
        clipboard: clip.sync_text || clip.sync_images || clip.sync_files,
        audio: config.audio.forward_enabled,
    }
}

/// What a session runs with.
pub struct SessionPlan {
    /// The combined desktop.
    pub layout: VirtualDesktop,
    /// Where the cursor starts.
    pub start: Point,
    /// Whether the clipboard is kept in step.
    pub clipboard: bool,
    /// Where incoming files land, and what happens on a clash of names; none
    /// where files are not exchanged.
    pub download: Option<(String, ConflictPolicy)>,
}

/// The desktop that a session starts with: the arrangement saved for this peer,
/// or the peer beside us.
pub open spec fn session_desktop(
    saved: Option<VirtualDesktop>,
    own: Seq<Monitor>,
    peer: Seq<Monitor>,
) -> Seq<Monitor> {
    match saved {
        Some(d) => d.monitors@,
        None => side_by_side(own, peer),
    }
}

/// Whether the two machines fit on one desktop, as it was saved or side by side.
pub fn fits_desktop(
    own: &Vec<Monitor>,
    peer: &Vec<Monitor>,
    saved: &Option<VirtualDesktop>,
) -> (b: bool)
    ensures
        b == ((*saved is None ==> can_seed(own@, peer@)) && all_in_range(
            session_desktop(*saved, own@, peer@),
        )),
{
    match saved {
        Some(d) => monitors_in_range(&d.monitors),
        None => fits_beside(own, peer) && monitors_in_range(&seed_layout(own, peer).monitors),
    }
}

impl SessionPlan {
    /// What is exchanged, and where files go, is what the configuration says.
    pub open spec fn follows(self, config: AppConfig, default_download: Seq<char>) -> bool {
        &&& self.clipboard == (config.clipboard.sync_text || config.clipboard.sync_images
            || config.clipboard.sync_files)
        &&& match self.download {
            Some((dir, policy)) => {
                &&& config.clipboard.sync_files
                &&& policy == config.file_transfer.conflict_policy
                &&& dir@ == match config.file_transfer.download_dir {
                    Some(d) => d@,
                    None => default_download,
                }
            },
            None => !config.clipboard.sync_files,
        }
    }
}

/// Decides what a session with a peer runs with.
pub fn plan_session(
    config: &AppConfig,
    own: &Vec<Monitor>,
    peer: &Vec<Monitor>,
    saved: Option<VirtualDesktop>,
    default_download: String,
) -> (plan: SessionPlan)
    requires
        saved is None ==> can_seed(own@, peer@),
        all_in_range(session_desktop(saved, own@, peer@)),
    ensures
        plan.layout.monitors@ == session_desktop(saved, own@, peer@),
        is_start(plan.layout.monitors@, config.device.id, plan.start),
        plan.follows(*config, default_download@),
{
    let layout = match saved {
        Some(d) => d,
        None => seed_layout(own, peer),
    };
    let start = start_position(&layout, config.device.id);
    let clip = &config.clipboard;
    let download = if clip.sync_files {
        let dir = match &config.file_transfer.download_dir {
            Some(d) => d.clone(),
            None => default_download,
        };
        Some((dir, config.file_transfer.conflict_policy))
    } else {
        None
    };
    SessionPlan {
        layout,
        start,
        clipboard: clip.sync_text || clip.sync_images || clip.sync_files,
        download,
    }
}

/// What separates `[a0, a1)` from `[b0, b1)`: the pixels between them.
pub open spec fn between(a0: int, a1: int, b0: int, b1: int) -> int {
    if a1 < b0 {
        b0 - a1
    } else if b1 < a0 {
        a0 - b1
    } else {
        0
    }
}

/// The pixels between two rectangles, across and down together.
pub open spec fn steps_between(a: Rect, b: Rect) -> int {
    between(a.x as int, a.x + a.w, b.x as int, b.x + b.w) + between(
        a.y as int,
        a.y + a.h,
        b.y as int,
        b.y + b.h,
    )
}

proof fn lemma_peer_gap(ms: Seq<Monitor>, me: DeviceId, r: Rect, n: int)
    requires
        0 <= n <= ms.len(),
    ensures
        forall|q: int|
            0 <= q < n && (#[trigger] ms[q]).id.device != me ==> peer_gap(ms, me, r, n) <= gap(
                r,
                ms[q].bounds,
            ),
        (exists|q: int| 0 <= q < n && (#[trigger] ms[q]).id.device != me) ==> exists|q: int|
            0 <= q < n && (#[trigger] ms[q]).id.device != me && peer_gap(ms, me, r, n) == gap(
                r,
                ms[q].bounds,
            ),
    decreases n,
{
    if n > 0 {
        lemma_peer_gap(ms, me, r, n - 1);
    }
}

/// The cursor starts in the middle of a monitor of ours, and no monitor of ours is
/// nearer to a monitor of the peer than that one is to the one nearest to it.
pub proof fn law_the_cursor_starts_next_to_the_peer(
    ms: Seq<Monitor>,
    me: DeviceId,
    p: Point,
    j: int,
    q: int,
)
    requires
        all_in_range(ms),
        forall|k: int|
            0 <= k < ms.len() ==> (#[trigger] ms[k]).bounds.w >= 1 && ms[k].bounds.h >= 1,
        is_start(ms, me, p),
        0 <= j < ms.len(),
        0 <= q < ms.len(),
        ms[j].id.device == me,
        ms[q].id.device != me,
    ensures
        exists|i: int, t: int|
            0 <= i < ms.len() && 0 <= t < ms.len() && (#[trigger] ms[i]).id.device == me && (
            #[trigger] ms[t]).id.device != me && steps_between(ms[i].bounds, ms[t].bounds)
                <= steps_between(ms[j].bounds, ms[q].bounds) && {
                let b = ms[i].bounds;
                &&& 0 <= p.x - b.x <= b.x + b.w - p.x <= p.x - b.x + 1
                &&& 0 <= p.y - b.y <= b.y + b.h - p.y <= p.y - b.y + 1
            },
{
    lemma_gateway_exists(ms, me, ms.len() as int, j);
    let n = ms.len() as int;
    let i = choose|i: int| #[trigger]
        is_gateway(ms, me, ms.len() as int, i) && p == center(ms[i].bounds);
    assert(ms[i].id.device == me);
    assert(ms[i].bounds.in_range());
    lemma_peer_gap(ms, me, ms[i].bounds, n);
    lemma_peer_gap(ms, me, ms[j].bounds, n);
    assert(ms[q].id.device != me);
    let t = choose|t: int|
        0 <= t < n && (#[trigger] ms[t]).id.device != me && peer_gap(ms, me, ms[i].bounds, n)
            == gap(ms[i].bounds, ms[t].bounds);
    assert(gap(ms[i].bounds, ms[t].bounds) == steps_between(ms[i].bounds, ms[t].bounds));
    assert(gap(ms[j].bounds, ms[q].bounds) == steps_between(ms[j].bounds, ms[q].bounds));
}

/// Side by side, the peer begins in the column after our last one: nothing of the peer
/// lies left of the end of any monitor of ours, and one of its monitors touches the
/// column where one of ours ends.
pub proof fn law_the_peer_begins_where_we_end(own: Seq<Monitor>, peer: Seq<Monitor>, i: int, j: int)
    requires
        can_seed(own, peer),
        0 <= i < own.len(),
        0 <= j < peer.len(),
    ensures
        ({
            let all = side_by_side(own, peer);
            &&& own[i].bounds.x + own[i].bounds.w <= all[own.len() + j].bounds.x
            &&& exists|a: int, b: int|
                0 <= a < own.len() && 0 <= b < peer.len() && (#[trigger] own[a]).bounds.x
                    + own[a].bounds.w == all[own.len() + b].bounds.x && (#[trigger] peer[b]).bounds.x
                    <= peer[j].bounds.x
            &&& all[own.len() + j].id == peer[j].id
            &&& all[own.len() + j].label == peer[j].label
            &&& all[own.len() + j].native == peer[j].native
            &&& all[own.len() + j].scale_pct == peer[j].scale_pct
        }),
{
    lemma_row_end(own);
    lemma_row_start(peer);
    let a = choose|a: int|
        0 <= a < own.len() && (#[trigger] own[a]).bounds.x + own[a].bounds.w == row_end(own);
    let b = choose|b: int| 0 <= b < peer.len() && (#[trigger] peer[b]).bounds.x == row_start(peer);
    assert(own[a].bounds.x + own[a].bounds.w == row_end(own));
    assert(peer[b].bounds.x == row_start(peer));
    assert(is_i32(peer[b].bounds.x + (row_end(own) - row_start(peer))));
    assert(is_i32(peer[j].bounds.x + (row_end(own) - row_start(peer))));
}

/// A saved arrangement is used as it was saved; without one, the machines stand side by
/// side.
pub proof fn law_saved_arrangements_come_first(
    saved: VirtualDesktop,
    own: Seq<Monitor>,
    peer: Seq<Monitor>,
)
    ensures
        session_desktop(Some(saved), own, peer) == saved.monitors@,
        session_desktop(None, own, peer) == side_by_side(own, peer),
{
}

/// What one machine greets with the other reads: the same monitors, and audio exactly
/// where the settings forward it. What the settings leave out is not offered.
pub proof fn law_greetings_are_understood(msg: Control, config: AppConfig, own: Seq<Monitor>)
    requires
        greets(msg, config, own),
    ensures
        hello_read(Some(msg)) == Ok::<(Seq<Monitor>, bool), ProtocolVersion>(
            (own, config.audio.forward_enabled),
        ),
        msg matches Control::Hello { device, name, capabilities, .. } && {
            &&& device == config.device.id && name@ == config.device.name@
            &&& capabilities.clipboard_text == config.clipboard.sync_text
            &&& capabilities.clipboard_images == config.clipboard.sync_images
            &&& capabilities.clipboard_files == config.clipboard.sync_files
            &&& capabilities.file_transfer
        },
{
}

/// A peer of another major version is refused, whatever its minor version; of one that
/// sends no greeting nothing is assumed.
pub proof fn law_other_versions_are_refused(msg: Control, v: ProtocolVersion)
    requires
        msg matches Control::Hello { version, .. } && version == v,
    ensures
        v.major != 1 <==> hello_read(Some(msg)) is Err,
        v.major != 1 ==> hello_read(Some(msg)) == Err::<(Seq<Monitor>, bool), ProtocolVersion>(v),
        hello_read(None) matches Ok((ms, audio)) && ms.len() == 0 && !audio,
{
}

/// Input is on from the start, sound as the settings say, and the clipboard where any
/// part of it is kept in step.
pub proof fn law_features_start_as_set(config: AppConfig)
    ensures
        switched_on(config).input,
        switched_on(config).audio == config.audio.forward_enabled,
        !switched_on(config).clipboard <==> !config.clipboard.sync_text
            && !config.clipboard.sync_images && !config.clipboard.sync_files,
{
}

/// A session exchanges the clipboard where any kind of content is to be, and takes files
/// exactly where files are: into the directory of the configuration, or else into the usual
/// one, and by its rule for names that are taken.
pub proof fn law_sessions_follow_the_configuration(
    p: SessionPlan,
    config: AppConfig,
    usual: Seq<char>,
)
    requires
        p.follows(config, usual),
    ensures
        p.clipboard <==> config.clipboard.sync_text || config.clipboard.sync_images
            || config.clipboard.sync_files,
        p.download is Some <==> config.clipboard.sync_files,
        p.download matches Some(d) ==> {
            &&& d.1 == config.file_transfer.conflict_policy
            &&& config.file_transfer.download_dir is None ==> d.0@ == usual
            &&& config.file_transfer.download_dir matches Some(c) ==> d.0@ == c@
        },
{
}

} // verus!
