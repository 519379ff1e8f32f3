//! Editing the saved layout by command.

use crate::geometry::{Edge, Point, Rect, Size};
use crate::ids::{DeviceId, MonitorId};
use crate::layout::{
    all_in_range, corner_beside, extent_fits, index_of, is_bounding_box, is_first_overlap, is_i32,
    lemma_index_of_from, monitors_in_range, monitors_on_side, no_overlap, on_side, Monitor, VirtualDesktop,
};
use crate::monitors::{as_monitors, placed_as, MonitorInfo};
use crate::session::{right_end, row_end};
use crate::text::{
    chars_of, decimal, decimal_int, halves, i32_value, parse_i32, push_decimal, push_int,
    split_first, trim, trimmed,
};
use vstd::prelude::*;

verus! {

/// The commands of the arranger.
#[allow(inconsistent_fields)]
#[derive(Debug)]
pub enum ArrangeCmd {
    /// Show the saved layout.
    Show,
    /// Replace this machine's monitors by those that the system reports.
    Detect,
    /// Add a monitor of this machine: at a place, beside another one, or at the
    /// right end.
    Add {
        label: String,
        size: Size,
        scale: u16,
        at: Option<Point>,
        right_of: Option<String>,
        left_of: Option<String>,
        above: Option<String>,
        below: Option<String>,
    },
    /// Remove a monitor of this machine.
    Remove { label: String },
    /// Remove all monitors of this machine.
    Clear,
    /// Write the layout to a file, or show it.
    Export { path: Option<String> },
    /// Read the layout from a file.
    Import { path: String },
}

/// Why a command is refused.
#[derive(Debug)]
pub enum ArrangeError {
    /// No monitor of this machine has the label.
    NoSuchLabel(String),
    /// A monitor with the label is there already.
    LabelTaken(String),
    /// No monitor to place beside has the label.
    NoAnchor(String),
}

/// The first monitor with the label, from position `i` on.
pub open spec fn labelled_from(ms: Seq<Monitor>, label: Seq<char>, i: int) -> Option<int>
    decreases ms.len() - i,
{
    if i < 0 || i >= ms.len() {
        None
    } else if ms[i].label@ == label {
        Some(i)
    } else {
        labelled_from(ms, label, i + 1)
    }
}

/// The first monitor with the label.
pub open spec fn labelled(ms: Seq<Monitor>, label: Seq<char>) -> Option<int> {
    labelled_from(ms, label, 0)
}

/// The search by label finds a monitor of that label, and none only where there
/// is none.
pub proof fn lemma_labelled_from(ms: Seq<Monitor>, label: Seq<char>, i: int)
    requires
        0 <= i <= ms.len(),
    ensures
        match labelled_from(ms, label, i) {
            Some(k) => i <= k < ms.len() && ms[k].label@ == label,
            None => forall|j: int| i <= j < ms.len() ==> (#[trigger] ms[j]).label@ != label,
        },
    decreases ms.len() - i,
{
    if i < ms.len() && ms[i].label@ != label {
        lemma_labelled_from(ms, label, i + 1);
    }
}

fn find_label(ms: &Vec<Monitor>, label: &String) -> (r: Option<usize>)
    ensures
        match r {
            Some(k) => labelled(ms@, label@) == Some(k as int) && k < ms@.len(),
            None => labelled(ms@, label@) is None,
        },
{
    let mut i: usize = 0;
    while i < ms.len()
        invariant
            0 <= i <= ms.len(),
            labelled(ms@, label@) == labelled_from(ms@, label@, i as int),
        decreases ms.len() - i,
    {
        if ms[i].label == *label {
            return Some(i);
        }
        i = i + 1;
    }
    None
}

/// The side asked for, and the label to place beside: the first of the four
/// that is given.
pub open spec fn beside_whom(
    right_of: Option<String>,
    left_of: Option<String>,
    above: Option<String>,
    below: Option<String>,
) -> Option<(Seq<char>, Edge)> {
    match (right_of, left_of, above, below) {
        (Some(l), _, _, _) => Some((l@, Edge::Right)),
        (None, Some(l), _, _) => Some((l@, Edge::Left)),
        (None, None, Some(l), _) => Some((l@, Edge::Top)),
        (None, None, None, Some(l)) => Some((l@, Edge::Bottom)),
        (None, None, None, None) => None,
    }
}

/// The rectangle with this corner and size.
pub open spec fn rect_at(c: (int, int), size: Size) -> Rect {
    Rect { x: c.0 as i32, y: c.1 as i32, w: size.w, h: size.h }
}

/// The corner of a monitor placed by a command: where it says, or beside the
/// monitor of that label, or at the right end of the desktop. None where there
/// is no monitor of that label.
pub open spec fn placement(
    ms: Seq<Monitor>,
    size: Size,
    at: Option<Point>,
    beside: Option<(Seq<char>, Edge)>,
) -> Option<(int, int)> {
    match at {
        Some(p) => Some((p.x as int, p.y as int)),
        None => match beside {
            Some((label, side)) => match labelled(ms, label) {
                Some(k) => Some(
                    corner_beside(ms[index_of(ms, ms[k].id)->0].bounds, side, size),
                ),
                None => None,
            },
            None => Some((row_end(ms), 0)),
        },
    }
}

/// The bounds of a new monitor, as the command places it.
pub fn resolve_bounds(
    layout: &VirtualDesktop,
    size: Size,
    at: Option<Point>,
    right_of: Option<String>,
    left_of: Option<String>,
    above: Option<String>,
    below: Option<String>,
) -> (r: Result<Rect, ArrangeError>)
    requires
        all_in_range(layout.monitors@),
        placement(
            layout.monitors@,
            size,
            at,
            beside_whom(right_of, left_of, above, below),
        ) matches Some(c) ==> is_i32(c.0) && is_i32(c.1),
    ensures
        ({
            let beside = beside_whom(right_of, left_of, above, below);
            match placement(layout.monitors@, size, at, beside) {
                Some(c) => r == Ok::<Rect, ArrangeError>(rect_at(c, size)),
                None => r matches Err(ArrangeError::NoAnchor(l)) && beside matches Some((b, _)) && l@
                    == b,
            }
        }),
{
    if let Some(p) = at {
        return Ok(Rect::new(p.x, p.y, size.w, size.h));
    }
    let relative: Option<(String, Edge)> = match (right_of, left_of, above, below) {
        (Some(l), _, _, _) => Some((l, Edge::Right)),
        (None, Some(l), _, _) => Some((l, Edge::Left)),
        (None, None, Some(l), _) => Some((l, Edge::Top)),
        (None, None, None, Some(l)) => Some((l, Edge::Bottom)),
        (None, None, None, None) => None,
    };
    if let Some((label, side)) = relative {
        let k = match find_label(&layout.monitors, &label) {
            Some(k) => k,
            None => {
                return Err(ArrangeError::NoAnchor(label));
            },
        };
        proof {
            lemma_index_of_from(layout.monitors@, layout.monitors@[k as int].id, 0);
        }
        return match layout.place_beside(layout.monitors[k].id, side, size) {
            Some(rect) => Ok(rect),
            None => Err(ArrangeError::NoAnchor(label)),
        };
    }
    let x = right_end(&layout.monitors);
    Ok(Rect::new(x, 0, size.w, size.h))
}

/// One more than the highest index among the first `n` monitors that belong to
/// `me`; 0 where none does.
pub open spec fn free_index(ms: Seq<Monitor>, me: DeviceId, n: int) -> int
    decreases n,
{
    if n <= 0 {
        0
    } else {
        let before = free_index(ms, me, n - 1);
        if ms[n - 1].id.device == me && ms[n - 1].id.index + 1 > before {
            ms[n - 1].id.index + 1
        } else {
            before
        }
    }
}

/// A free index is taken by no monitor of `me`.
pub proof fn law_free_index_is_free(ms: Seq<Monitor>, me: DeviceId, n: int)
    requires
        0 <= n <= ms.len(),
    ensures
        forall|i: int|
            0 <= i < n && (#[trigger] ms[i]).id.device == me ==> ms[i].id.index < free_index(
                ms,
                me,
                n,
            ),
    decreases n,
{
    if n > 0 {
        law_free_index_is_free(ms, me, n - 1);
    }
}

/// The next index for a monitor of `me`.
pub fn next_index(layout: &VirtualDesktop, me: DeviceId) -> (r: u16)
    requires
        free_index(layout.monitors@, me, layout.monitors@.len() as int) <= 0xffff,
    ensures
        r == free_index(layout.monitors@, me, layout.monitors@.len() as int),
{
    find_free(layout, me) as u16
}

fn find_free(layout: &VirtualDesktop, me: DeviceId) -> (r: u32)
    ensures
        r == free_index(layout.monitors@, me, layout.monitors@.len() as int),
{
    let mut next: u32 = 0;
    let mut i: usize = 0;
    while i < layout.monitors.len()
        invariant
            0 <= i <= layout.monitors.len(),
            next == free_index(layout.monitors@, me, i as int),
        decreases layout.monitors.len() - i,
    {
        let m = &layout.monitors[i];
        if m.device() == me && m.id.index as u32 + 1 > next {
            next = m.id.index as u32 + 1;
        }
        i = i + 1;
    }
    next
}

/// Adds a monitor of `me` to the layout. The layout is left as it was where the
/// command is refused.
pub fn add_monitor(
    layout: &mut VirtualDesktop,
    me: DeviceId,
    label: String,
    size: Size,
    scale: u16,
    at: Option<Point>,
    right_of: Option<String>,
    left_of: Option<String>,
    above: Option<String>,
    below: Option<String>,
) -> (r: Result<(), ArrangeError>)
    requires
        labelled(old(layout).monitors@, label@) is Some || {
            let ms = old(layout).monitors@;
            &&& all_in_range(ms)
            &&& placement(ms, size, at, beside_whom(right_of, left_of, above, below)) matches Some(
                c,
            ) ==> is_i32(c.0) && is_i32(c.1)
            &&& free_index(ms, me, ms.len() as int) <= 0xffff
        },
    ensures
        ({
            let ms = old(layout).monitors@;
            let beside = beside_whom(right_of, left_of, above, below);
            if labelled(ms, label@) is Some {
                &&& r matches Err(ArrangeError::LabelTaken(l)) && l@ == label@
                &&& final(layout).monitors@ == ms
            } else {
                match placement(ms, size, at, beside) {
                    Some(c) => {
                        &&& r is Ok
                        &&& final(layout).monitors@ == ms.push(
                            Monitor {
                                id: MonitorId {
                                    device: me,
                                    index: free_index(ms, me, ms.len() as int) as u16,
                                },
                                label,
                                bounds: rect_at(c, size),
                                native: size,
                                scale_pct: scale,
                            },
                        )
                    },
                    None => {
                        &&& r matches Err(ArrangeError::NoAnchor(l)) && beside matches Some((b, _))
                            && l@ == b
                        &&& final(layout).monitors@ == ms
                    },
                }
            }
        }),
{
    if find_label(&layout.monitors, &label).is_some() {
        return Err(ArrangeError::LabelTaken(label));
    }
    match resolve_bounds(layout, size, at, right_of, left_of, above, below) {
        Ok(bounds) => {
            let index = next_index(layout, me);
            layout.monitors.push(
                Monitor {
                    id: MonitorId::new(me, index),
                    label,
                    bounds,
                    native: size,
                    scale_pct: scale,
                },
            );
            Ok(())
        },
        Err(e) => Err(e),
    }
}

/// The layout without the monitors of `me` that have the label.
pub open spec fn without_label(ms: Seq<Monitor>, me: DeviceId, label: Seq<char>) -> Seq<Monitor>
    decreases ms.len(),
{
    if ms.len() == 0 {
        ms
    } else {
        let before = without_label(ms.drop_last(), me, label);
        if ms.last().id.device == me && ms.last().label@ == label {
            before
        } else {
            before.push(ms.last())
        }
    }
}

/// Removes the monitors of `me` with the label.
pub fn remove_monitor(layout: &mut VirtualDesktop, me: DeviceId, label: String) -> (r: Result<
    (),
    ArrangeError,
>)
    ensures
        final(layout).monitors@ == without_label(old(layout).monitors@, me, label@),
        match r {
            Ok(()) => exists|i: int|
                0 <= i < old(layout).monitors@.len() && (#[trigger] old(
                    layout,
                ).monitors@[i]).id.device == me && old(layout).monitors@[i].label@ == label@,
            Err(e) => {
                &&& e matches ArrangeError::NoSuchLabel(l) && l@ == label@
                &&& final(layout).monitors@ == old(layout).monitors@
                &&& forall|i: int|
                    0 <= i < old(layout).monitors@.len() ==> !((#[trigger] old(
                        layout,
                    ).monitors@[i]).id.device == me && old(layout).monitors@[i].label@ == label@)
            },
        },
{
    let ghost ms = layout.monitors@;
    let mut kept: Vec<Monitor> = Vec::new();
    let mut removed = false;
    let mut i: usize = 0;
    assert(ms.subrange(0, 0) =~= Seq::<Monitor>::empty());
    while i < layout.monitors.len()
        invariant
            0 <= i <= layout.monitors.len(),
            ms == layout.monitors@,
            kept@ == without_label(ms.subrange(0, i as int), me, label@),
            removed == exists|j: int|
                0 <= j < i && (#[trigger] ms[j]).id.device == me && ms[j].label@ == label@,
            !removed ==> kept@ =~= ms.subrange(0, i as int),
        decreases layout.monitors.len() - i,
    {
        proof {
            let now = ms.subrange(0, i + 1);
            assert(now.drop_last() =~= ms.subrange(0, i as int));
            assert(now.last() == ms[i as int]);
        }
        if layout.monitors[i].device() == me && layout.monitors[i].label == label {
            assert(ms[i as int].id.device == me && ms[i as int].label@ == label@);
            removed = true;
        } else {
            kept.push(layout.monitors[i].clone());
        }
        i = i + 1;
    }
    assert(ms.subrange(0, ms.len() as int) =~= ms);
    layout.monitors = kept;
    if removed {
        Ok(())
    } else {
        Err(ArrangeError::NoSuchLabel(label))
    }
}

/// Removes all monitors of `me`. Those of other devices stay.
pub fn clear_monitors(layout: &mut VirtualDesktop, me: DeviceId)
    ensures
        final(layout).monitors@ == on_side(old(layout).monitors@, me, false),
{
    layout.monitors = monitors_on_side(&layout.monitors, me, false);
}

/// Replaces the monitors of `me` by those that the system reports. Those of
/// other devices stay.
pub fn replace_detected(layout: &mut VirtualDesktop, me: DeviceId, detected: &Vec<MonitorInfo>)
    ensures
        ({
            let kept = on_side(old(layout).monitors@, me, false);
            let out = final(layout).monitors@;
            &&& out.len() == kept.len() + detected@.len()
            &&& out.subrange(0, kept.len() as int) == kept
            &&& forall|i: int|
                0 <= i < detected@.len() ==> placed_as(
                    #[trigger] out[kept.len() + i],
                    detected@[i]@,
                    me,
                    i,
                )
        }),
{
    let mut all = monitors_on_side(&layout.monitors, me, false);
    let ghost kept = all@;
    let mut fresh = as_monitors(detected, me);
    let ghost added = fresh@;
    all.append(&mut fresh);
    assert(all@ =~= kept + added);
    assert(all@.subrange(0, kept.len() as int) =~= kept);
    assert forall|i: int| 0 <= i < detected@.len() implies placed_as(
        #[trigger] all@[kept.len() + i],
        detected@[i]@,
        me,
        i,
    ) by {
        assert(all@[kept.len() + i] == added[i]);
    }
    layout.monitors = all;
}

/// What remains on a side belongs to that side, and everything of that side
/// remains.
pub proof fn law_sides_are_exact(ms: Seq<Monitor>, me: DeviceId, mine: bool)
    ensures
        forall|i: int|
            0 <= i < on_side(ms, me, mine).len() ==> ((#[trigger] on_side(
                ms,
                me,
                mine,
            )[i]).id.device == me) == mine,
        forall|i: int|
            0 <= i < ms.len() && ((#[trigger] ms[i]).id.device == me) == mine ==> on_side(
                ms,
                me,
                mine,
            ).contains(ms[i]),
    decreases ms.len(),
{
    if ms.len() > 0 {
        let init = ms.drop_last();
        law_sides_are_exact(init, me, mine);
        let before = on_side(init, me, mine);
        let out = on_side(ms, me, mine);
        assert forall|i: int|
            0 <= i < ms.len() && ((#[trigger] ms[i]).id.device == me) == mine implies out.contains(
            ms[i],
        ) by {
            if i < init.len() {
                assert(init[i] == ms[i]);
                assert(before.contains(ms[i]));
                let k = choose|k: int| 0 <= k < before.len() && before[k] == ms[i];
                assert(out[k] == ms[i]);
            } else {
                assert(out[out.len() - 1] == ms[i]);
            }
        }
    }
}

/// What is kept of a layout was in it.
proof fn lemma_kept_monitors(ms: Seq<Monitor>, me: DeviceId, label: Seq<char>)
    ensures
        all_in_range(ms) ==> all_in_range(on_side(ms, me, false)),
        all_in_range(ms) ==> all_in_range(without_label(ms, me, label)),
    decreases ms.len(),
{
    if ms.len() > 0 {
        lemma_kept_monitors(ms.drop_last(), me, label);
        if all_in_range(ms) {
            assert forall|i: int| 0 <= i < ms.len() - 1 implies (#[trigger] ms.drop_last()[i]).bounds.in_range() by {
                assert(ms.drop_last()[i] == ms[i]);
            }
            assert(ms.last() == ms[ms.len() - 1]);
        }
    }
}

// --- Commands ----------------------------------------------------------------

/// What a command comes to.
#[derive(Clone, Copy, Debug, PartialEq, Eq)]
pub enum Outcome {
    /// The layout is shown; nothing is saved.
    Shown,
    /// The layout is written out; nothing is saved.
    Exported,
    /// The layout is saved and shown. Two monitors that overlap are warned of, by
    /// their indices.
    Saved { overlap: Option<(u16, u16)> },
}

/// The indices to warn of: those of the first two monitors that overlap.
pub open spec fn warned(ms: Seq<Monitor>, w: Option<(u16, u16)>) -> bool {
    match w {
        Some(pair) => exists|i: int, j: int| #[trigger]
            is_first_overlap(ms, i, j) && pair == (ms[i].id.index, ms[j].id.index),
        None => no_overlap(ms),
    }
}

/// The edges of every monitor that the system reports are coordinates.
pub open spec fn outputs_fit(detected: Seq<MonitorInfo>) -> bool {
    forall|i: int|
        0 <= i < detected.len() ==> {
            let o = (#[trigger] detected[i])@;
            is_i32(o.x + o.w) && is_i32(o.y + o.h)
        }
}

/// The coordinates that a command works with fit in an `i32`, and the index of a
/// new monitor in a `u16`.
pub open spec fn command_fits(
    ms: Seq<Monitor>,
    me: DeviceId,
    cmd: ArrangeCmd,
    detected: Seq<MonitorInfo>,
    imported: Seq<Monitor>,
) -> bool {
    match cmd {
        ArrangeCmd::Show => true,
        ArrangeCmd::Export { .. } => true,
        ArrangeCmd::Import { .. } => all_in_range(imported),
        ArrangeCmd::Clear => all_in_range(ms),
        ArrangeCmd::Remove { .. } => all_in_range(ms),
        ArrangeCmd::Detect => all_in_range(ms) && outputs_fit(detected),
        ArrangeCmd::Add { label, size, at, right_of, left_of, above, below, .. } => labelled(
            ms,
            label@,
        ) is Some || {
            &&& all_in_range(ms)
            &&& free_index(ms, me, ms.len() as int) <= 0xffff
            &&& match placement(ms, size, at, beside_whom(right_of, left_of, above, below)) {
                Some(c) => {
                    &&& is_i32(c.0) && is_i32(c.0 + size.w)
                    &&& is_i32(c.1) && is_i32(c.1 + size.h)
                },
                None => true,
            }
        },
    }
}

/// The corner of a monitor placed by a command, wherever it comes to lie.
fn corner(
    layout: &VirtualDesktop,
    size: Size,
    at: Option<Point>,
    beside: Option<(&String, Edge)>,
) -> (r: Option<(i64, i64)>)
    requires
        all_in_range(layout.monitors@),
    ensures
        ({
            let whom = match beside {
                Some((l, side)) => Some((l@, side)),
                None => None,
            };
            match (r, placement(layout.monitors@, size, at, whom)) {
                (Some(c), Some(p)) => c.0 == p.0 && c.1 == p.1,
                (None, None) => true,
                _ => false,
            }
        }),
{
    if let Some(p) = at {
        return Some((p.x as i64, p.y as i64));
    }
    match beside {
        None => Some((right_end(&layout.monitors) as i64, 0)),
        Some((label, side)) => {
            let k = match find_label(&layout.monitors, label) {
                Some(k) => k,
                None => {
                    return None;
                },
            };
            proof {
                lemma_index_of_from(layout.monitors@, layout.monitors@[k as int].id, 0);
            }
            match layout.monitor(layout.monitors[k].id) {
                Some(m) => {
                    let b = m.bounds;
                    let (x, y) = (b.x as i64, b.y as i64);
                    Some(
                        match side {
                            Edge::Right => (x + b.w as i64, y),
                            Edge::Left => (x - size.w as i64, y),
                            Edge::Bottom => (x, y + b.h as i64),
                            Edge::Top => (x, y - size.h as i64),
                        },
                    )
                },
                None => None,
            }
        },
    }
}

fn fits_i32(v: i64) -> (b: bool)
    ensures
        b == is_i32(v as int),
{
    i32::MIN as i64 <= v && v <= i32::MAX as i64
}

fn outputs_in_range(detected: &Vec<MonitorInfo>) -> (b: bool)
    ensures
        b == outputs_fit(detected@),
{
    let mut i: usize = 0;
    while i < detected.len()
        invariant
            0 <= i <= detected.len(),
            outputs_fit(detected@.subrange(0, i as int)),
        decreases detected.len() - i,
    {
        let o = &detected[i];
        let ghost here = detected@[i as int]@;
        if !fits_i32(o.x as i64 + o.w as i64) || !fits_i32(o.y as i64 + o.h as i64) {
            assert(!(is_i32(here.x + here.w) && is_i32(here.y + here.h)));
            return false;
        }
        let ghost before = detected@.subrange(0, i as int);
        assert(detected@.subrange(0, i + 1) =~= before.push(detected@[i as int]));
        i = i + 1;
    }
    assert(detected@.subrange(0, i as int) =~= detected@);
    true
}

/// Whether the numbers that a command works with can be expressed.
pub fn command_in_range(
    layout: &VirtualDesktop,
    me: DeviceId,
    cmd: &ArrangeCmd,
    detected: &Vec<MonitorInfo>,
    imported: &VirtualDesktop,
) -> (b: bool)
    ensures
        b == command_fits(layout.monitors@, me, *cmd, detected@, imported.monitors@),
{
    match cmd {
        ArrangeCmd::Show => true,
        ArrangeCmd::Export { .. } => true,
        ArrangeCmd::Import { .. } => monitors_in_range(&imported.monitors),
        ArrangeCmd::Clear => monitors_in_range(&layout.monitors),
        ArrangeCmd::Remove { .. } => monitors_in_range(&layout.monitors),
        ArrangeCmd::Detect => monitors_in_range(&layout.monitors) && outputs_in_range(detected),
        ArrangeCmd::Add { label, size, at, right_of, left_of, above, below, .. } => {
            if find_label(&layout.monitors, label).is_some() {
                return true;
            }
            if !monitors_in_range(&layout.monitors) || find_free(layout, me) > 0xffff {
                return false;
            }
            let beside = match (right_of, left_of, above, below) {
                (Some(l), _, _, _) => Some((l, Edge::Right)),
                (None, Some(l), _, _) => Some((l, Edge::Left)),
                (None, None, Some(l), _) => Some((l, Edge::Top)),
                (None, None, None, Some(l)) => Some((l, Edge::Bottom)),
                (None, None, None, None) => None,
            };
            match corner(layout, *size, *at, beside) {
                Some(c) => fits_i32(c.0) && fits_i32(c.0 + size.w as i64) && fits_i32(c.1)
                    && fits_i32(c.1 + size.h as i64),
                None => true,
            }
        },
    }
}

/// The refusal of a command; none where it is carried out.
pub open spec fn refusal(ms: Seq<Monitor>, me: DeviceId, cmd: ArrangeCmd, e: Option<ArrangeError>) -> bool {
    match cmd {
        ArrangeCmd::Remove { label } => if exists|i: int|
            0 <= i < ms.len() && (#[trigger] ms[i]).id.device == me && ms[i].label@ == label@ {
            e is None
        } else {
            e matches Some(ArrangeError::NoSuchLabel(l)) && l@ == label@
        },
        ArrangeCmd::Add { label, size, at, right_of, left_of, above, below, .. } => {
            let beside = beside_whom(right_of, left_of, above, below);
            if labelled(ms, label@) is Some {
                e matches Some(ArrangeError::LabelTaken(l)) && l@ == label@
            } else if placement(ms, size, at, beside) is Some {
                e is None
            } else {
                e matches Some(ArrangeError::NoAnchor(l)) && beside matches Some((b, _)) && l@ == b
            }
        },
        _ => e is None,
    }
}

/// The layout after a command that was carried out.
pub open spec fn arranged(
    ms: Seq<Monitor>,
    me: DeviceId,
    cmd: ArrangeCmd,
    detected: Seq<MonitorInfo>,
    imported: Seq<Monitor>,
    out: Seq<Monitor>,
) -> bool {
    match cmd {
        ArrangeCmd::Show => out == ms,
        ArrangeCmd::Export { .. } => out == ms,
        ArrangeCmd::Import { .. } => out == imported,
        ArrangeCmd::Clear => out == on_side(ms, me, false),
        ArrangeCmd::Remove { label } => out == without_label(ms, me, label@),
        ArrangeCmd::Detect => {
            let kept = on_side(ms, me, false);
            &&& out.len() == kept.len() + detected.len()
            &&& out.subrange(0, kept.len() as int) == kept
            &&& forall|i: int|
                0 <= i < detected.len() ==> placed_as(
                    #[trigger] out[kept.len() + i],
                    detected[i]@,
                    me,
                    i,
                )
        },
        ArrangeCmd::Add { label, size, scale, at, right_of, left_of, above, below } => out
            == ms.push(
            Monitor {
                id: MonitorId { device: me, index: free_index(ms, me, ms.len() as int) as u16 },
                label,
                bounds: rect_at(
                    placement(ms, size, at, beside_whom(right_of, left_of, above, below))->0,
                    size,
                ),
                native: size,
                scale_pct: scale,
            },
        ),
    }
}

/// What a command that was carried out comes to.
pub open spec fn comes_to(cmd: ArrangeCmd, out: Seq<Monitor>, o: Outcome) -> bool {
    match cmd {
        ArrangeCmd::Show => o is Shown,
        ArrangeCmd::Export { .. } => o is Exported,
        _ => o matches Outcome::Saved { overlap } && warned(out, overlap),
    }
}

/// Carries out a command on the layout of the machine `me`. `detected` are the
/// monitors that the system reports, which count for a detection alone, and
/// `imported` the layout read from the file, which counts for an import alone.
/// The layout is left as it was where the command is refused.
pub fn run(
    layout: &mut VirtualDesktop,
    me: DeviceId,
    cmd: ArrangeCmd,
    detected: &Vec<MonitorInfo>,
    imported: VirtualDesktop,
) -> (r: Result<Outcome, ArrangeError>)
    requires
        command_fits(old(layout).monitors@, me, cmd, detected@, imported.monitors@),
    ensures
        match r {
            Ok(o) => {
                &&& refusal(old(layout).monitors@, me, cmd, None)
                &&& arranged(
                    old(layout).monitors@,
                    me,
                    cmd,
                    detected@,
                    imported.monitors@,
                    final(layout).monitors@,
                )
                &&& comes_to(cmd, final(layout).monitors@, o)
            },
            Err(e) => {
                &&& refusal(old(layout).monitors@, me, cmd, Some(e))
                &&& final(layout).monitors@ == old(layout).monitors@
            },
        },
{
    let ghost ms = layout.monitors@;
    let ghost whole = cmd;
    match cmd {
        ArrangeCmd::Show => {
            return Ok(Outcome::Shown);
        },
        ArrangeCmd::Export { .. } => {
            return Ok(Outcome::Exported);
        },
        ArrangeCmd::Import { .. } => {
            *layout = imported;
        },
        ArrangeCmd::Clear => {
            clear_monitors(layout, me);
            proof {
                lemma_kept_monitors(ms, me, Seq::empty());
            }
        },
        ArrangeCmd::Detect => {
            replace_detected(layout, me, detected);
            proof {
                lemma_kept_monitors(ms, me, Seq::empty());
                let kept = on_side(ms, me, false);
                let out = layout.monitors@;
                assert forall|i: int| 0 <= i < out.len() implies (#[trigger] out[i]).bounds.in_range() by {
                    if i < kept.len() {
                        assert(out.subrange(0, kept.len() as int)[i] == kept[i]);
                    } else {
                        let k = i - kept.len();
                        assert(out[kept.len() + k] == out[i]);
                        assert(placed_as(out[kept.len() + k], detected@[k]@, me, k));
                    }
                }
            }
        },
        ArrangeCmd::Remove { label } => {
            let ghost name = label@;
            match remove_monitor(layout, me, label) {
                Ok(()) => {},
                Err(e) => {
                    return Err(e);
                },
            }
            proof {
                lemma_kept_monitors(ms, me, name);
            }
        },
        ArrangeCmd::Add { label, size, scale, at, right_of, left_of, above, below } => {
            match add_monitor(
                layout,
                me,
                label,
                size,
                scale,
                at,
                right_of,
                left_of,
                above,
                below,
            ) {
                Ok(()) => {},
                Err(e) => {
                    return Err(e);
                },
            }
        },
    }
    let overlap = match layout.first_overlap() {
        Some((a, b)) => Some((a.index, b.index)),
        None => None,
    };
    proof {
        assert(warned(layout.monitors@, overlap));
        assert(comes_to(whole, layout.monitors@, Outcome::Saved { overlap }));
    }
    Ok(Outcome::Saved { overlap })
}

/// The warning of two monitors that overlap.
pub open spec fn overlap_warning(a: nat, b: nat) -> Seq<char> {
    "warning: monitors "@ + decimal(a) + " and "@ + decimal(b)
        + " overlap \u{2014} the two machines must occupy non-overlapping regions of the shared desktop"@
}

/// The warning of two monitors that overlap, by their indices.
pub fn warning(a: u16, b: u16) -> (s: String)
    ensures
        s@ == overlap_warning(a as nat, b as nat),
{
    let mut s = String::new();
    s.append("warning: monitors ");
    push_decimal(&mut s, a as u64);
    s.append(" and ");
    push_decimal(&mut s, b as u64);
    s.append(
        " overlap \u{2014} the two machines must occupy non-overlapping regions of the shared desktop",
    );
    assert(s@ =~= overlap_warning(a as nat, b as nat));
    s
}

// --- Showing the layout ------------------------------------------------------

/// `s`, filled up with spaces to `width` characters.
pub open spec fn padded(s: Seq<char>, width: nat) -> Seq<char> {
    s + Seq::new(
        if s.len() < width {
            (width - s.len()) as nat
        } else {
            0
        },
        |i: int| ' ',
    )
}

/// The line that shows a monitor.
pub open spec fn monitor_line(m: Monitor) -> Seq<char> {
    "["@ + decimal(m.id.index as nat) + "] "@ + padded(m.label@, 16) + " "@ + decimal_int(
        m.bounds.w as int,
    ) + "x"@ + decimal_int(m.bounds.h as int) + " @ ("@ + decimal_int(m.bounds.x as int) + ","@
        + decimal_int(m.bounds.y as int) + ")  scale "@ + decimal(m.scale_pct as nat) + "%"@
}

/// The line that shows how far the desktop reaches.
pub open spec fn desktop_line(bb: Rect) -> Seq<char> {
    "desktop: "@ + decimal_int(bb.w as int) + "x"@ + decimal_int(bb.h as int) + " from ("@
        + decimal_int(bb.x as int) + ","@ + decimal_int(bb.y as int) + ")"@
}

fn show_monitor(m: &Monitor) -> (s: String)
    ensures
        s@ == monitor_line(*m),
{
    let mut s = String::new();
    s.append("[");
    push_decimal(&mut s, m.id.index as u64);
    s.append("] ");
    let ghost before = s@;
    s.append(m.label.as_str());
    let mut n: usize = m.label.as_str().unicode_len();
    let ghost len = m.label@.len();
    while n < 16
        invariant
            n >= len,
            len == m.label@.len(),
            len <= 16 ==> n <= 16,
            n > 16 ==> n == len,
            s@ == before + m.label@ + Seq::new((n - len) as nat, |i: int| ' '),
        decreases 16 - n,
    {
        s.push(' ');
        n = n + 1;
        assert(s@ =~= before + m.label@ + Seq::new((n - len) as nat, |i: int| ' '));
    }
    assert(s@ =~= before + padded(m.label@, 16));
    s.append(" ");
    push_int(&mut s, m.bounds.w);
    s.append("x");
    push_int(&mut s, m.bounds.h);
    s.append(" @ (");
    push_int(&mut s, m.bounds.x);
    s.append(",");
    push_int(&mut s, m.bounds.y);
    s.append(")  scale ");
    push_decimal(&mut s, m.scale_pct as u64);
    s.append("%");
    assert(s@ =~= monitor_line(*m));
    s
}

fn show_desktop(bb: Rect) -> (s: String)
    ensures
        s@ == desktop_line(bb),
{
    let mut s = String::new();
    s.append("desktop: ");
    push_int(&mut s, bb.w);
    s.append("x");
    push_int(&mut s, bb.h);
    s.append(" from (");
    push_int(&mut s, bb.x);
    s.append(",");
    push_int(&mut s, bb.y);
    s.append(")");
    assert(s@ =~= desktop_line(bb));
    s
}

/// The line shown for a layout without monitors.
pub const NO_MONITORS: &'static str = "(no monitors arranged \u{2014} use `deskorynd arrange add ...`)";

/// The lines that show a layout: one for each monitor, then one for the desktop
/// as a whole; a remark where there is no monitor.
pub fn print_layout(layout: &VirtualDesktop) -> (out: Vec<String>)
    requires
        all_in_range(layout.monitors@),
        extent_fits(layout.monitors@),
    ensures
        ({
            let ms = layout.monitors@;
            if ms.len() == 0 {
                out@.len() == 1 && out@[0]@ == NO_MONITORS@
            } else {
                &&& out@.len() == ms.len() + 1
                &&& forall|i: int| 0 <= i < ms.len() ==> (#[trigger] out@[i])@ == monitor_line(ms[i])
                &&& exists|bb: Rect| #[trigger] is_bounding_box(ms, bb) && out@[ms.len() as int]@ == desktop_line(bb)
            }
        }),
{
    let mut out: Vec<String> = Vec::new();
    let mut i: usize = 0;
    while i < layout.monitors.len()
        invariant
            0 <= i <= layout.monitors.len(),
            out@.len() == i,
            forall|j: int| 0 <= j < i ==> (#[trigger] out@[j])@ == monitor_line(layout.monitors@[j]),
        decreases layout.monitors.len() - i,
    {
        out.push(show_monitor(&layout.monitors[i]));
        i = i + 1;
    }
    match layout.bounding_box() {
        Some(bb) => {
            out.push(show_desktop(bb));
            assert(is_bounding_box(layout.monitors@, bb));
        },
        None => {
            out.push(NO_MONITORS.to_string());
        },
    }
    out
}

// --- Reading arguments -------------------------------------------------------

/// Why a text is no size.
#[derive(Clone, Copy, Debug, PartialEq, Eq, Structural)]
pub enum SizeError {
    /// There is no `x` between two numbers.
    Shape,
    Width,
    Height,
}

/// Why a text is no point.
#[derive(Clone, Copy, Debug, PartialEq, Eq, Structural)]
pub enum PointError {
    /// There is no comma between two numbers.
    Shape,
    X,
    Y,
}

/// The size that a text spells, or what is wrong with it.
pub open spec fn is_size_read(s: Seq<char>, r: Result<Size, SizeError>) -> bool {
    match halves(s, 'x', 'X') {
        None => r == Err::<Size, SizeError>(SizeError::Shape),
        Some((ws, hs)) => match (i32_value(trimmed(ws)), i32_value(trimmed(hs))) {
            (None, _) => r == Err::<Size, SizeError>(SizeError::Width),
            (Some(_), None) => r == Err::<Size, SizeError>(SizeError::Height),
            (Some(w), Some(h)) => r == Ok::<Size, SizeError>(Size { w: w as i32, h: h as i32 }),
        },
    }
}

/// Reads a size such as `1920x1080`. White space around the numbers does not
/// count.
pub fn parse_size(s: &str) -> (r: Result<Size, SizeError>)
    ensures
        is_size_read(s@, r),
{
    let chars = chars_of(s);
    match split_first(chars.as_slice(), 'x', 'X') {
        None => Err(SizeError::Shape),
        Some((ws, hs)) => match parse_i32(trim(ws)) {
            None => Err(SizeError::Width),
            Some(w) => match parse_i32(trim(hs)) {
                None => Err(SizeError::Height),
                Some(h) => Ok(Size::new(w, h)),
            },
        },
    }
}

/// The point that a text spells, or what is wrong with it.
pub open spec fn is_point_read(s: Seq<char>, r: Result<Point, PointError>) -> bool {
    match halves(s, ',', ',') {
        None => r == Err::<Point, PointError>(PointError::Shape),
        Some((xs, ys)) => match (i32_value(trimmed(xs)), i32_value(trimmed(ys))) {
            (None, _) => r == Err::<Point, PointError>(PointError::X),
            (Some(_), None) => r == Err::<Point, PointError>(PointError::Y),
            (Some(x), Some(y)) => r == Ok::<Point, PointError>(
                Point { x: x as i32, y: y as i32 },
            ),
        },
    }
}

/// Reads a point such as `5760,0`. White space around the numbers does not
/// count.
pub fn parse_point(s: &str) -> (r: Result<Point, PointError>)
    ensures
        is_point_read(s@, r),
{
    let chars = chars_of(s);
    match split_first(chars.as_slice(), ',', ',') {
        None => Err(PointError::Shape),
        Some((xs, ys)) => match parse_i32(trim(xs)) {
            None => Err(PointError::X),
            Some(x) => match parse_i32(trim(ys)) {
                None => Err(PointError::Y),
                Some(y) => Ok(Point::new(x, y)),
            },
        },
    }
}

// --- Where monitors come to lie ----------------------------------------------

/// The words of a command that say beside which monitor a new one is put.
pub struct Beside {
    pub right_of: Option<String>,
    pub left_of: Option<String>,
    pub above: Option<String>,
    pub below: Option<String>,
}

/// The monitor that a label names: the first that bears it, where no monitor before it
/// has the same id.
pub open spec fn names(ms: Seq<Monitor>, label: Seq<char>, k: int) -> bool {
    &&& 0 <= k < ms.len()
    &&& ms[k].label@ == label
    &&& forall|j: int| 0 <= j < k ==> (#[trigger] ms[j]).label@ != label && ms[j].id != ms[k].id
}

proof fn lemma_names(ms: Seq<Monitor>, label: Seq<char>, k: int)
    requires
        names(ms, label, k),
    ensures
        labelled(ms, label) == Some(k),
        index_of(ms, ms[k].id) == Some(k),
{
    lemma_labelled_from(ms, label, 0);
    lemma_first_labelled(ms, label, 0, k);
    lemma_index_of_from(ms, ms[k].id, 0);
}

proof fn lemma_first_labelled(ms: Seq<Monitor>, label: Seq<char>, i: int, k: int)
    requires
        0 <= i <= k < ms.len(),
        ms[k].label@ == label,
        forall|j: int| 0 <= j < k ==> (#[trigger] ms[j]).label@ != label,
    ensures
        labelled_from(ms, label, i) == Some(k),
    decreases k - i,
{
    if i < k {
        lemma_first_labelled(ms, label, i + 1, k);
    }
}

/// A monitor that was added lies where the command says: at the place that it names, or
/// else touching the monitor that it names, on the side that it names and aligned to the
/// corner of that monitor; to the right of all monitors, at the top, where it names
/// neither. It has the size, the label and the scale of the command, and belongs to this
/// machine, under an index above those of its other monitors. The other monitors stay.
pub proof fn law_added_monitors_lie_where_asked(
    ms: Seq<Monitor>,
    me: DeviceId,
    label: String,
    size: Size,
    scale: u16,
    at: Option<Point>,
    w: Beside,
    k: int,
    i: int,
    out: Seq<Monitor>,
)
    requires
        ({
            let cmd = ArrangeCmd::Add {
                label,
                size,
                scale,
                at,
                right_of: w.right_of,
                left_of: w.left_of,
                above: w.above,
                below: w.below,
            };
            &&& command_fits(ms, me, cmd, Seq::empty(), Seq::empty())
            &&& refusal(ms, me, cmd, None)
            &&& arranged(ms, me, cmd, Seq::empty(), Seq::empty(), out)
        }),
    ensures
        ({
            let m = out[out.len() - 1];
            let b = m.bounds;
            let a = ms[k].bounds;
            &&& out.len() == ms.len() + 1
            &&& out.subrange(0, ms.len() as int) == ms
            &&& m.label == label && m.scale_pct == scale && m.native == size
            &&& b.w == size.w && b.h == size.h
            &&& m.id.device == me
            &&& 0 <= i < ms.len() && ms[i].id.device == me ==> m.id.index > ms[i].id.index
            &&& 0 <= i < ms.len() ==> ms[i].label@ != label@
            &&& at matches Some(p) ==> b.x == p.x && b.y == p.y
            &&& at is None && w.right_of is Some && names(ms, w.right_of->0@, k) ==> b.x == a.x
                + a.w && b.y == a.y
            &&& at is None && w.right_of is None && w.left_of is Some && names(
                ms,
                w.left_of->0@,
                k,
            ) ==> b.x + b.w == a.x && b.y == a.y
            &&& at is None && w.right_of is None && w.left_of is None && w.above is Some && names(
                ms,
                w.above->0@,
                k,
            ) ==> b.y + b.h == a.y && b.x == a.x
            &&& at is None && w.right_of is None && w.left_of is None && w.above is None
                && w.below is Some && names(ms, w.below->0@, k) ==> b.y == a.y + a.h && b.x == a.x
            &&& at is None && w.right_of is None && w.left_of is None && w.above is None
                && w.below is None ==> {
                &&& b.y == 0
                &&& 0 <= i < ms.len() ==> ms[i].bounds.x + ms[i].bounds.w <= b.x
                &&& ms.len() == 0 ==> b.x == 0
                &&& ms.len() > 0 ==> exists|j: int|
                    0 <= j < ms.len() && (#[trigger] ms[j]).bounds.x + ms[j].bounds.w == b.x
            }
        }),
{
    if w.right_of is Some && names(ms, w.right_of->0@, k) {
        lemma_names(ms, w.right_of->0@, k);
    }
    if w.left_of is Some && names(ms, w.left_of->0@, k) {
        lemma_names(ms, w.left_of->0@, k);
    }
    if w.above is Some && names(ms, w.above->0@, k) {
        lemma_names(ms, w.above->0@, k);
    }
    if w.below is Some && names(ms, w.below->0@, k) {
        lemma_names(ms, w.below->0@, k);
    }
    lemma_labelled_from(ms, label@, 0);
    crate::session::lemma_row_end(ms);
    law_free_index_is_free(ms, me, ms.len() as int);
    assert(out.subrange(0, ms.len() as int) =~= ms);
}

/// A monitor is added exactly where no monitor has its label and, unless a place is
/// named, the one that it is put beside is there.
pub proof fn law_adding_needs_a_free_label_and_an_anchor(
    ms: Seq<Monitor>,
    me: DeviceId,
    label: String,
    size: Size,
    scale: u16,
    at: Option<Point>,
    w: Beside,
    e: Option<ArrangeError>,
)
    requires
        refusal(
            ms,
            me,
            ArrangeCmd::Add {
                label,
                size,
                scale,
                at,
                right_of: w.right_of,
                left_of: w.left_of,
                above: w.above,
                below: w.below,
            },
            e,
        ),
    ensures
        ({
            let borne = |l: Seq<char>|
                exists|j: int| 0 <= j < ms.len() && (#[trigger] ms[j]).label@ == l;
            let first = match (w.right_of, w.left_of, w.above, w.below) {
                (Some(l), _, _, _) => Some(l@),
                (None, Some(l), _, _) => Some(l@),
                (None, None, Some(l), _) => Some(l@),
                (None, None, None, Some(l)) => Some(l@),
                (None, None, None, None) => None,
            };
            let lost = at is None && first is Some && !borne(first->0);
            &&& borne(label@) ==> (e matches Some(ArrangeError::LabelTaken(l)) && l@ == label@)
            &&& !borne(label@) && lost ==> (e matches Some(ArrangeError::NoAnchor(l)) && l@
                == first->0)
            &&& !borne(label@) && !lost ==> e is None
        }),
{
    lemma_labelled_from(ms, label@, 0);
    if let Some((l, _)) = beside_whom(w.right_of, w.left_of, w.above, w.below) {
        lemma_labelled_from(ms, l, 0);
    }
}

/// Removing takes away the monitors of this machine that bear the label and leaves the
/// others in their order; clearing takes away all of this machine; detecting takes these
/// away too and puts those that the system reports after the others.
pub proof fn law_only_own_monitors_are_taken_away(
    a: Seq<Monitor>,
    b: Seq<Monitor>,
    m: Monitor,
    me: DeviceId,
    label: Seq<char>,
)
    ensures
        without_label(a + b, me, label) == without_label(a, me, label) + without_label(b, me, label),
        without_label(seq![m], me, label) == if m.id.device == me && m.label@ == label {
            Seq::empty()
        } else {
            seq![m]
        },
    decreases b.len(),
{
    reveal_with_fuel(without_label, 2);
    assert(seq![m].drop_last() =~= Seq::<Monitor>::empty());
    assert(without_label(seq![m], me, label) =~= if m.id.device == me && m.label@ == label {
        Seq::<Monitor>::empty()
    } else {
        seq![m]
    });
    if b.len() == 0 {
        assert(a + b =~= a);
        assert(without_label(a + b, me, label) =~= without_label(a, me, label) + without_label(
            b,
            me,
            label,
        ));
    } else {
        law_only_own_monitors_are_taken_away(a, b.drop_last(), m, me, label);
        assert((a + b).drop_last() =~= a + b.drop_last());
        assert((a + b).last() == b.last());
        assert(without_label(a + b, me, label) =~= without_label(a, me, label) + without_label(
            b,
            me,
            label,
        ));
    }
}

/// A detection leaves the monitors of other machines as they are, in front, and puts
/// each that the system reports after them, in the order reported, at the place and in
/// the size reported, unscaled, under its number.
pub proof fn law_detected_monitors_stand_as_reported(
    ms: Seq<Monitor>,
    me: DeviceId,
    detected: Seq<MonitorInfo>,
    imported: Seq<Monitor>,
    out: Seq<Monitor>,
    i: int,
)
    requires
        arranged(ms, me, ArrangeCmd::Detect, detected, imported, out),
        0 <= i < detected.len() <= 0xffff,
    ensures
        out.len() >= detected.len(),
        ({
            let m = out[out.len() - detected.len() + i];
            &&& m.id.device == me && m.id.index == i
            &&& m.bounds.x == detected[i].x && m.bounds.y == detected[i].y
            &&& m.bounds.w == detected[i].w && m.bounds.h == detected[i].h
            &&& m.native.w == detected[i].w && m.native.h == detected[i].h
            &&& m.label@ == detected[i].name@ && m.scale_pct == 100
        }),
        forall|j: int|
            0 <= j < out.len() - detected.len() ==> (#[trigger] out[j]).id.device != me,
        forall|j: int|
            0 <= j < ms.len() && (#[trigger] ms[j]).id.device != me ==> out.contains(ms[j]),
{
    let kept = on_side(ms, me, false);
    law_sides_are_exact(ms, me, false);
    assert(placed_as(out[kept.len() + i], detected[i]@, me, i));
    assert forall|j: int| 0 <= j < kept.len() implies (#[trigger] out[j]).id.device != me by {
        assert(out.subrange(0, kept.len() as int)[j] == kept[j]);
    }
    assert forall|j: int|
        0 <= j < ms.len() && (#[trigger] ms[j]).id.device != me implies out.contains(ms[j]) by {
        let k = kept.index_of(ms[j]);
        assert(out.subrange(0, kept.len() as int)[k] == kept[k]);
        assert(out[k] == ms[j]);
    }
}

/// A command is carried out as what it is: showing and exporting leave the layout as it
/// is and save nothing; an import takes the layout of the file; everything but these two
/// is saved, with a warning exactly where two monitors share a pixel.
pub proof fn law_commands_come_to_what_they_say(
    ms: Seq<Monitor>,
    me: DeviceId,
    cmd: ArrangeCmd,
    detected: Seq<MonitorInfo>,
    imported: Seq<Monitor>,
    out: Seq<Monitor>,
    o: Outcome,
)
    requires
        arranged(ms, me, cmd, detected, imported, out),
        comes_to(cmd, out, o),
    ensures
        cmd is Show || cmd is Export ==> out == ms,
        cmd is Show <==> o is Shown,
        cmd is Export <==> o is Exported,
        cmd is Import ==> out == imported,
        cmd is Clear ==> forall|j: int|
            0 <= j < out.len() ==> (#[trigger] out[j]).id.device != me,
        o matches Outcome::Saved { overlap: None } ==> forall|i: int, j: int|
            0 <= i < j < out.len() ==> {
                let (a, b) = ((#[trigger] out[i]).bounds, (#[trigger] out[j]).bounds);
                a.x >= b.x + b.w || b.x >= a.x + a.w || a.y >= b.y + b.h || b.y >= a.y + a.h
            },
        o matches Outcome::Saved { overlap: Some((g, h)) } ==> exists|i: int, j: int|
            0 <= i < j < out.len() && (#[trigger] out[i]).id.index == g && (#[trigger] out[j]).id.index
                == h && out[i].bounds.x < out[j].bounds.x + out[j].bounds.w && out[j].bounds.x
                < out[i].bounds.x + out[i].bounds.w && out[i].bounds.y < out[j].bounds.y
                + out[j].bounds.h && out[j].bounds.y < out[i].bounds.y + out[i].bounds.h,
{
    law_sides_are_exact(ms, me, false);
    if let Outcome::Saved { overlap: Some(pair) } = o {
        let (i, j) = choose|i: int, j: int| #[trigger]
            is_first_overlap(out, i, j) && pair == (out[i].id.index, out[j].id.index);
        assert(out[i].id.index == pair.0 && out[j].id.index == pair.1);
    }
}

/// A monitor is listed by its number, its label, its size and its place, in this order,
/// each in its own form; labels shorter than sixteen characters are filled up.
pub proof fn law_monitors_are_listed_with_size_and_place(m: Monitor, label: Seq<char>)
    ensures
        monitor_line(m) == seq!['['] + decimal(m.id.index as nat) + seq![']', ' '] + padded(
            m.label@,
            16,
        ) + seq![' '] + decimal_int(m.bounds.w as int) + seq!['x'] + decimal_int(m.bounds.h as int)
            + seq![' ', '@', ' ', '('] + decimal_int(m.bounds.x as int) + seq![','] + decimal_int(
            m.bounds.y as int,
        ) + ")  scale "@ + decimal(m.scale_pct as nat) + seq!['%'],
        label.len() < 16 ==> padded(label, 16).len() == 16,
        label.len() >= 16 ==> padded(label, 16) == label,
        padded(label, 16).subrange(0, label.len() as int) == label,
{
    reveal_strlit("[");
    reveal_strlit("] ");
    reveal_strlit(" ");
    reveal_strlit("x");
    reveal_strlit(" @ (");
    reveal_strlit(",");
    reveal_strlit("%");
    assert("["@ =~= seq!['[']);
    assert("] "@ =~= seq![']', ' ']);
    assert(" "@ =~= seq![' ']);
    assert("x"@ =~= seq!['x']);
    assert(" @ ("@ =~= seq![' ', '@', ' ', '(']);
    assert(","@ =~= seq![',']);
    assert("%"@ =~= seq!['%']);
    assert(padded(label, 16).subrange(0, label.len() as int) =~= label);
    assert(label.len() >= 16 ==> padded(label, 16) =~= label);
}

/// The desktop is told by its size, the width first, and where it begins.
pub proof fn law_the_desktop_is_told_by_size_and_place(bb: Rect)
    ensures
        desktop_line(bb) == "desktop: "@ + decimal_int(bb.w as int) + seq!['x'] + decimal_int(
            bb.h as int,
        ) + " from ("@ + decimal_int(bb.x as int) + seq![','] + decimal_int(bb.y as int) + seq![')'],
{
    reveal_strlit("x");
    reveal_strlit(",");
    reveal_strlit(")");
    assert("x"@ =~= seq!['x']);
    assert(","@ =~= seq![',']);
    assert(")"@ =~= seq![')']);
}

proof fn lemma_first_half(a: Seq<char>, c: char, d: char, sep: char, b: Seq<char>)
    requires
        !a.contains(c),
        !a.contains(d),
        sep == c || sep == d,
    ensures
        halves(a + seq![sep] + b, c, d) == Some((a, b)),
{
    let s = a + seq![sep] + b;
    crate::text::law_halves_lie_around_the_separator(s, c, d);
    let n = a.len() as int;
    assert(s[n] == sep);
    assert(s.contains(sep));
    assert(halves(s, c, d) is Some);
    let (x, y) = halves(s, c, d)->0;
    let k = x.len() as int;
    assert forall|i: int| 0 <= i < n implies #[trigger] s[i] != c && s[i] != d by {
        assert(a.contains(s[i])) by {
            assert(a[i] == s[i]);
        }
    }
    if k > n {
        assert(x[n] == s[n]) by {
            assert((x + seq![s[k]] + y)[n] == x[n]);
        }
        assert(x.contains(sep));
    }
    assert(k == n);
    assert(x =~= a) by {
        assert forall|i: int| 0 <= i < n implies x[i] == a[i] by {
            assert((x + seq![s[k]] + y)[i] == x[i]);
        }
    }
    assert(y.len() == b.len());
    assert(y =~= b) by {
        assert forall|i: int| 0 <= i < b.len() implies y[i] == b[i] by {
            assert((x + seq![s[k]] + y)[n + 1 + i] == y[i]);
        }
    }
}

/// A size is written width first, with a small or a capital `x` between the two; each half
/// that is no number is told apart, and so is a text without an `x`.
pub proof fn law_sizes_are_width_by_height(
    ws: Seq<char>,
    hs: Seq<char>,
    capital: bool,
    r: Result<Size, SizeError>,
)
    requires
        !ws.contains('x') && !ws.contains('X'),
        is_size_read(
            ws + seq![
                if capital {
                    'X'
                } else {
                    'x'
                },
            ] + hs,
            r,
        ),
    ensures
        ({
            let w = i32_value(trimmed(ws));
            let h = i32_value(trimmed(hs));
            &&& w is Some && h is Some ==> r is Ok && r->Ok_0.w == w->0 && r->Ok_0.h == h->0
            &&& w is None ==> r is Err && r->Err_0 is Width
            &&& w is Some && h is None ==> r is Err && r->Err_0 is Height
        }),
{
    let sep = if capital {
        'X'
    } else {
        'x'
    };
    lemma_first_half(ws, 'x', 'X', sep, hs);
}

/// A point is written with a comma between its coordinates, the one sideways first.
pub proof fn law_points_are_sideways_then_down(
    xs: Seq<char>,
    ys: Seq<char>,
    r: Result<Point, PointError>,
)
    requires
        !xs.contains(','),
        is_point_read(xs + seq![','] + ys, r),
    ensures
        ({
            let x = i32_value(trimmed(xs));
            let y = i32_value(trimmed(ys));
            &&& x is Some && y is Some ==> r is Ok && r->Ok_0.x == x->0 && r->Ok_0.y == y->0
            &&& x is None ==> r is Err && r->Err_0 is X
            &&& x is Some && y is None ==> r is Err && r->Err_0 is Y
        }),
{
    lemma_first_half(xs, ',', ',', ',', ys);
}

} // verus!
