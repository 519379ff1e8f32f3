//! The monitors of this machine, as `xrandr --query` describes them.

use crate::devices::InputError;
use crate::geometry::{Rect, Size};
use crate::ids::{DeviceId, MonitorId};
use crate::layout::Monitor;
use crate::text::{
    chars_of, halves, i32_value, is_space, is_white_space, lines, parse_i32, spells, split_first,
    split_lines, split_words, string_of, views, words,
};
use vstd::prelude::*;

verus! {

/// One monitor in the coordinates of the system's own desktop.
#[derive(Debug, PartialEq, Eq)]
pub struct MonitorInfo {
    /// The name of the connector, such as `DP-0`.
    pub name: String,
    pub x: i32,
    pub y: i32,
    pub w: i32,
    pub h: i32,
}

/// A monitor, with its name as a sequence of characters.
pub struct Output {
    pub name: Seq<char>,
    pub x: int,
    pub y: int,
    pub w: int,
    pub h: int,
}

impl View for MonitorInfo {
    type V = Output;

    open spec fn view(&self) -> Output {
        Output {
            name: self.name@,
            x: self.x as int,
            y: self.y as int,
            w: self.w as int,
            h: self.h as int,
        }
    }
}

/// The views of a list of monitors.
pub open spec fn outputs(v: Seq<MonitorInfo>) -> Seq<Output> {
    v.map_values(|m: MonitorInfo| m@)
}

/// What a token `WxH+X+Y` says: width, height, and the place of the corner.
pub open spec fn geometry(tok: Seq<char>) -> Option<(int, int, int, int)> {
    match halves(tok, '+', '+') {
        None => None,
        Some((size, place)) => match (halves(place, '+', '+'), halves(size, 'x', 'x')) {
            (Some((xs, ys)), Some((ws, hs))) => match (
                i32_value(ws),
                i32_value(hs),
                i32_value(xs),
                i32_value(ys),
            ) {
                (Some(w), Some(h), Some(x), Some(y)) => Some((w, h, x, y)),
                _ => None,
            },
            _ => None,
        },
    }
}

/// The first geometry among the words, from position `i` on.
pub open spec fn first_geometry(ws: Seq<Seq<char>>, i: int) -> Option<(int, int, int, int)>
    decreases ws.len() - i,
{
    if i < 0 || i >= ws.len() {
        None
    } else if geometry(ws[i]) is Some {
        geometry(ws[i])
    } else {
        first_geometry(ws, i + 1)
    }
}

/// The monitor that a line describes: a line that starts with the name of a
/// connector and the word `connected`, and that holds a geometry. Indented
/// lines, connectors with nothing plugged in and monitors that are switched off
/// describe none.
pub open spec fn described(line: Seq<char>) -> Option<Output> {
    let ws = words(line);
    if line.len() == 0 || is_space(line[0]) || ws.len() < 2 || ws[1] != "connected"@ {
        None
    } else {
        match first_geometry(ws, 0) {
            Some((w, h, x, y)) => Some(Output { name: ws[0], x, y, w, h }),
            None => None,
        }
    }
}

/// The monitors that the lines describe, in the order of the lines.
pub open spec fn all_described(ls: Seq<Seq<char>>) -> Seq<Output>
    decreases ls.len(),
{
    if ls.len() == 0 {
        Seq::empty()
    } else {
        let before = all_described(ls.drop_last());
        match described(ls.last()) {
            Some(m) => before.push(m),
            None => before,
        }
    }
}

/// Reads a token `WxH+X+Y` into width, height, and the place of the corner.
pub fn parse_geometry(tok: &str) -> (r: Option<(i32, i32, i32, i32)>)
    ensures
        match r {
            Some((w, h, x, y)) => geometry(tok@) == Some((w as int, h as int, x as int, y as int)),
            None => geometry(tok@) is None,
        },
{
    let chars = chars_of(tok);
    geometry_of(chars.as_slice())
}

fn geometry_of(tok: &[char]) -> (r: Option<(i32, i32, i32, i32)>)
    ensures
        match r {
            Some((w, h, x, y)) => geometry(tok@) == Some((w as int, h as int, x as int, y as int)),
            None => geometry(tok@) is None,
        },
{
    let (size, place) = match split_first(tok, '+', '+') {
        Some(p) => p,
        None => {
            return None;
        },
    };
    let (xs, ys) = match split_first(place, '+', '+') {
        Some(p) => p,
        None => {
            return None;
        },
    };
    let (ws, hs) = match split_first(size, 'x', 'x') {
        Some(p) => p,
        None => {
            return None;
        },
    };
    match (parse_i32(ws), parse_i32(hs), parse_i32(xs), parse_i32(ys)) {
        (Some(w), Some(h), Some(x), Some(y)) => Some((w, h, x, y)),
        _ => None,
    }
}

fn parse_line(line: &[char]) -> (r: Option<MonitorInfo>)
    ensures
        match r {
            Some(m) => described(line@) == Some(m@),
            None => described(line@) is None,
        },
{
    if line.len() == 0 || is_white_space(line[0]) {
        return None;
    }
    let ws = split_words(line);
    let ghost spec_ws = words(line@);
    assert(spec_ws.len() == ws@.len());
    if ws.len() < 2 {
        return None;
    }
    assert(spec_ws[1] == ws@[1]@);
    assert(spec_ws[0] == ws@[0]@);
    if !spells(ws[1].as_slice(), "connected") {
        return None;
    }
    let mut i: usize = 0;
    while i < ws.len()
        invariant
            0 <= i <= ws.len(),
            spec_ws == views(ws@),
            spec_ws == words(line@),
            ws@.len() >= 2,
            line@.len() > 0,
            !is_space(line@[0]),
            spec_ws[1] == "connected"@,
            first_geometry(spec_ws, 0) == first_geometry(spec_ws, i as int),
        decreases ws.len() - i,
    {
        assert(spec_ws[i as int] == ws@[i as int]@);
        if let Some((w, h, x, y)) = geometry_of(ws[i].as_slice()) {
            assert(spec_ws[0] == ws@[0]@);
            return Some(MonitorInfo { name: string_of(ws[0].as_slice()), x, y, w, h });
        }
        i = i + 1;
    }
    None
}

/// The active monitors in the output of `xrandr --query`.
pub fn parse_xrandr(output: &str) -> (mons: Vec<MonitorInfo>)
    ensures
        outputs(mons@) == all_described(lines(output@)),
{
    let text = chars_of(output);
    let ls = split_lines(text.as_slice());
    let ghost spec_ls = lines(output@);
    let mut mons: Vec<MonitorInfo> = Vec::new();
    let mut i: usize = 0;
    assert(outputs(mons@) =~= all_described(spec_ls.subrange(0, 0)));
    while i < ls.len()
        invariant
            0 <= i <= ls.len(),
            spec_ls == views(ls@),
            outputs(mons@) == all_described(spec_ls.subrange(0, i as int)),
        decreases ls.len() - i,
    {
        proof {
            let now = spec_ls.subrange(0, i + 1);
            assert(now.drop_last() =~= spec_ls.subrange(0, i as int));
            assert(now.last() == ls@[i as int]@);
        }
        let ghost before = outputs(mons@);
        match parse_line(ls[i].as_slice()) {
            Some(m) => {
                mons.push(m);
                assert(outputs(mons@) =~= before.push(m@));
            },
            None => {},
        }
        i = i + 1;
    }
    assert(spec_ls.subrange(0, spec_ls.len() as int) =~= spec_ls);
    mons
}

// --- Order -------------------------------------------------------------------

/// `a` stands left of `b`, or straight above it, or in the same place.
pub open spec fn left_of(a: Output, b: Output) -> bool {
    a.x < b.x || (a.x == b.x && a.y <= b.y)
}

/// Where `m` goes into a row: before the first monitor, from position `i` on,
/// that it stands strictly left of.
pub open spec fn place_for(row: Seq<Output>, m: Output, i: int) -> int
    decreases row.len() - i,
{
    if i < 0 || i >= row.len() {
        row.len() as int
    } else if !left_of(row[i], m) {
        i
    } else {
        place_for(row, m, i + 1)
    }
}

/// The monitors from left to right, and from top to bottom in one column.
/// Monitors in one place keep their order.
pub open spec fn in_order(ms: Seq<Output>) -> Seq<Output>
    decreases ms.len(),
{
    if ms.len() == 0 {
        ms
    } else {
        let row = in_order(ms.drop_last());
        row.insert(place_for(row, ms.last(), 0), ms.last())
    }
}

/// No monitor of the row stands left of one before it.
pub open spec fn is_ordered(row: Seq<Output>) -> bool {
    forall|i: int, j: int|
        0 <= i < j < row.len() ==> left_of(#[trigger] row[i], #[trigger] row[j])
}

proof fn lemma_place_for(row: Seq<Output>, m: Output, i: int)
    requires
        0 <= i <= row.len(),
    ensures
        i <= place_for(row, m, i) <= row.len(),
        forall|j: int| i <= j < place_for(row, m, i) ==> left_of(#[trigger] row[j], m),
        place_for(row, m, i) < row.len() ==> !left_of(row[place_for(row, m, i)], m),
    decreases row.len() - i,
{
    if i < row.len() && left_of(row[i], m) {
        lemma_place_for(row, m, i + 1);
    }
}

/// Ordering leaves a row in order, of the same monitors.
pub proof fn law_order_is_left_to_right(ms: Seq<Output>)
    ensures
        is_ordered(in_order(ms)),
        in_order(ms).to_multiset() == ms.to_multiset(),
        in_order(ms).len() == ms.len(),
    decreases ms.len(),
{
    broadcast use vstd::seq_lib::group_to_multiset_ensures;

    if ms.len() > 0 {
        let row = in_order(ms.drop_last());
        let m = ms.last();
        law_order_is_left_to_right(ms.drop_last());
        lemma_place_for(row, m, 0);
        let k = place_for(row, m, 0);
        let out = row.insert(k, m);
        assert forall|i: int, j: int| 0 <= i < j < out.len() implies left_of(
            #[trigger] out[i],
            #[trigger] out[j],
        ) by {
            let a = if i < k {
                i
            } else {
                i - 1
            };
            let b = if j < k {
                j
            } else {
                j - 1
            };
            if i == k {
                assert(out[j] == row[b]);
                assert(left_of(row[k], row[b]) || k == b);
            } else if j == k {
                assert(out[i] == row[a]);
            } else {
                assert(out[i] == row[a] && out[j] == row[b]);
            }
        }
        vstd::seq_lib::to_multiset_insert(row, k, m);
        vstd::seq_lib::to_multiset_build(ms.drop_last(), m);
        assert(ms.drop_last().push(m) =~= ms);
    } else {
        assert(in_order(ms) =~= ms);
    }
}

fn is_left_of(a: &MonitorInfo, b: &MonitorInfo) -> (r: bool)
    ensures
        r == left_of(a@, b@),
{
    a.x < b.x || (a.x == b.x && a.y <= b.y)
}

/// The monitors from left to right, and from top to bottom in one column.
pub fn left_to_right(mons: Vec<MonitorInfo>) -> (row: Vec<MonitorInfo>)
    ensures
        outputs(row@) == in_order(outputs(mons@)),
{
    let ghost all = outputs(mons@);
    let mut rest = mons;
    let mut row: Vec<MonitorInfo> = Vec::new();
    let ghost mut done: int = 0;
    assert(all.subrange(0, 0) =~= Seq::<Output>::empty());
    assert(outputs(row@) =~= in_order(all.subrange(0, 0)));
    while rest.len() > 0
        invariant
            0 <= done <= all.len(),
            outputs(rest@) =~= all.subrange(done, all.len() as int),
            outputs(row@) == in_order(all.subrange(0, done)),
        decreases rest.len(),
    {
        let ghost before = outputs(row@);
        let ghost rest_before = outputs(rest@);
        assert(rest_before.len() == all.len() - done);
        let m = rest.remove(0);
        let mut k: usize = 0;
        while k < row.len() && is_left_of(&row[k], &m)
            invariant
                0 <= k <= row.len(),
                outputs(row@) == before,
                place_for(before, m@, 0) == place_for(before, m@, k as int),
            decreases row.len() - k,
        {
            assert(before[k as int] == row@[k as int]@);
            k = k + 1;
        }
        proof {
            if k < row.len() {
                assert(before[k as int] == row@[k as int]@);
            }
            let now = all.subrange(0, done + 1);
            assert(m@ == rest_before[0]);
            assert(now.drop_last() =~= all.subrange(0, done));
            assert(now.last() == m@);
            assert(outputs(rest@) =~= rest_before.subrange(1, rest_before.len() as int));
        }
        row.insert(k, m);
        assert(outputs(row@) =~= before.insert(k as int, m@));
        proof {
            done = done + 1;
        }
    }
    assert(all.subrange(0, all.len() as int) =~= all);
    row
}

/// The active monitors in the output of `xrandr --query`, from left to right;
/// none where it names none.
pub fn detect(output: &str) -> (r: Option<Vec<MonitorInfo>>)
    ensures
        match r {
            Some(mons) => {
                &&& mons@.len() > 0
                &&& outputs(mons@) == in_order(all_described(lines(output@)))
            },
            None => all_described(lines(output@)).len() == 0,
        },
{
    let mons = parse_xrandr(output);
    if mons.len() == 0 {
        return None;
    }
    proof {
        law_order_is_left_to_right(outputs(mons@));
    }
    Some(left_to_right(mons))
}

/// `m` is monitor `i` of `device`, unscaled, where `o` stands.
pub open spec fn placed_as(m: Monitor, o: Output, device: DeviceId, i: int) -> bool {
    &&& m.id == (MonitorId { device, index: i as u16 })
    &&& m.label@ == o.name
    &&& m.bounds.x == o.x
    &&& m.bounds.y == o.y
    &&& m.bounds.w == o.w
    &&& m.bounds.h == o.h
    &&& m.native.w == o.w
    &&& m.native.h == o.h
    &&& m.scale_pct == 100
}

/// The monitors of `device`, numbered in the order given.
pub fn as_monitors(infos: &Vec<MonitorInfo>, device: DeviceId) -> (ms: Vec<Monitor>)
    ensures
        ms@.len() == infos@.len(),
        forall|i: int|
            0 <= i < ms@.len() ==> placed_as(#[trigger] ms@[i], infos@[i]@, device, i),
{
    let mut ms: Vec<Monitor> = Vec::new();
    let mut i: usize = 0;
    while i < infos.len()
        invariant
            0 <= i <= infos.len(),
            ms@.len() == i,
            forall|j: int| 0 <= j < i ==> placed_as(#[trigger] ms@[j], infos@[j]@, device, j),
        decreases infos.len() - i,
    {
        let m = &infos[i];
        ms.push(
            Monitor {
                id: MonitorId::new(device, #[verifier::truncate] (i as u16)),
                label: m.name.clone(),
                bounds: Rect::new(m.x, m.y, m.w, m.h),
                native: Size::new(m.w, m.h),
                scale_pct: 100,
            },
        );
        i = i + 1;
    }
    ms
}

/// The monitors of this machine, ready for the virtual desktop: the active ones
/// in the output of `xrandr --query`, numbered from left to right. None where
/// it names none.
pub fn detect_monitors(device: DeviceId, output: &str) -> (r: Option<Vec<Monitor>>)
    ensures
        ({
            let found = in_order(all_described(lines(output@)));
            match r {
                Some(ms) => {
                    &&& ms@.len() == found.len() > 0
                    &&& forall|i: int|
                        0 <= i < ms@.len() ==> placed_as(#[trigger] ms@[i], found[i], device, i)
                },
                None => all_described(lines(output@)).len() == 0,
            }
        }),
{
    match detect(output) {
        Some(infos) => {
            let ms = as_monitors(&infos, device);
            assert forall|i: int| 0 <= i < ms@.len() implies placed_as(
                #[trigger] ms@[i],
                outputs(infos@)[i],
                device,
                i,
            ) by {}
            Some(ms)
        },
        None => None,
    }
}

// --- Windows -----------------------------------------------------------------

/// A monitor as Windows tells of it.
pub type MonitorRect = MonitorInfo;

/// The text without the zeros at its end.
pub open spec fn without_nuls(s: Seq<char>) -> Seq<char>
    decreases s.len(),
{
    if s.len() > 0 && s.last() == '\0' {
        without_nuls(s.drop_last())
    } else {
        s
    }
}

/// The monitor between these edges.
pub open spec fn spanned(name: Seq<char>, left: int, top: int, right: int, bottom: int) -> Output {
    Output { name: without_nuls(name), x: left, y: top, w: right - left, h: bottom - top }
}

/// The monitor with this name, which may have zeros at its end, and these edges.
pub fn monitor_rect(name: &str, left: i32, top: i32, right: i32, bottom: i32) -> (m: MonitorRect)
    requires
        i32::MIN <= right - left <= i32::MAX,
        i32::MIN <= bottom - top <= i32::MAX,
    ensures
        m@ == spanned(name@, left as int, top as int, right as int, bottom as int),
{
    let c = chars_of(name);
    let mut n: usize = c.len();
    assert(c@.subrange(0, c@.len() as int) =~= c@);
    while n > 0 && c[n - 1] == '\0'
        invariant
            0 <= n <= c.len(),
            without_nuls(c@.subrange(0, n as int)) == without_nuls(c@),
        decreases n,
    {
        assert(c@.subrange(0, n as int).drop_last() =~= c@.subrange(0, n - 1));
        n = n - 1;
    }
    let short = string_of(vstd::slice::slice_subrange(c.as_slice(), 0, n));
    MonitorInfo { name: short, x: left, y: top, w: right - left, h: bottom - top }
}

/// The monitors that Windows told of, from left to right; an error where it told of
/// none.
pub fn enumerated(found: Vec<MonitorRect>) -> (r: Result<Vec<MonitorRect>, InputError>)
    ensures
        if found@.len() == 0 {
            r matches Err(InputError::Backend(e)) && e@
                == "EnumDisplayMonitors found no monitors"@
        } else {
            r matches Ok(row) && outputs(row@) == in_order(outputs(found@))
        },
{
    if found.len() == 0 {
        return Err(InputError::Backend("EnumDisplayMonitors found no monitors".to_owned()));
    }
    Ok(left_to_right(found))
}

/// In order, no monitor begins further left than one before it, nor, in the same column,
/// further up.
pub proof fn law_columns_go_left_to_right_and_rows_down(ms: Seq<Output>, i: int, j: int)
    requires
        0 <= i < j < ms.len(),
    ensures
        in_order(ms).len() == ms.len(),
        in_order(ms)[i].x <= in_order(ms)[j].x,
        in_order(ms)[i].x == in_order(ms)[j].x ==> in_order(ms)[i].y <= in_order(ms)[j].y,
{
    law_order_is_left_to_right(ms);
    assert(left_of(in_order(ms)[i], in_order(ms)[j]));
}

/// Lines are read one by one: those of two texts in a row give the monitors of the first
/// and then those of the second, and a line gives one monitor or none.
pub proof fn law_lines_are_read_one_by_one(a: Seq<Seq<char>>, b: Seq<Seq<char>>, l: Seq<char>)
    ensures
        all_described(a + b) == all_described(a) + all_described(b),
        described(l) matches Some(m) ==> all_described(seq![l]) == seq![m],
        described(l) is None ==> all_described(seq![l]).len() == 0,
    decreases b.len(),
{
    reveal_with_fuel(all_described, 2);
    assert(seq![l].drop_last() =~= Seq::<Seq<char>>::empty());
    if let Some(m) = described(l) {
        assert(all_described(seq![l]) =~= seq![m]);
    }
    if b.len() == 0 {
        assert(a + b =~= a);
        assert(all_described(a + b) =~= all_described(a) + all_described(b));
    } else {
        law_lines_are_read_one_by_one(a, b.drop_last(), l);
        assert((a + b).drop_last() =~= a + b.drop_last());
        assert((a + b).last() == b.last());
        assert(all_described(a + b) =~= all_described(a) + all_described(b));
    }
}

/// A monitor that a line describes bears the name that the line begins with, and lies as
/// the first geometry in the line says; the line says that it is connected and is not
/// indented.
pub proof fn law_monitors_lie_as_their_line_says(line: Seq<char>, k: int)
    requires
        0 <= k < words(line).len(),
        geometry(words(line)[k]) is Some,
        forall|j: int| 0 <= j < k ==> geometry(#[trigger] words(line)[j]) is None,
    ensures
        line.len() > 0 && !is_space(line[0]) && words(line).len() >= 2 && words(line)[1]
            == "connected"@ <==> described(line) is Some,
        described(line) matches Some(m) ==> {
            let (w, h, x, y) = geometry(words(line)[k])->0;
            m.name == words(line)[0] && m.w == w && m.h == h && m.x == x && m.y == y
        },
{
    lemma_first_geometry(words(line), 0, k);
}

proof fn lemma_first_geometry(ws: Seq<Seq<char>>, i: int, k: int)
    requires
        0 <= i <= k < ws.len(),
        geometry(ws[k]) is Some,
        forall|j: int| 0 <= j < k ==> geometry(#[trigger] ws[j]) is None,
    ensures
        first_geometry(ws, i) == geometry(ws[k]),
    decreases k - i,
{
    if i < k {
        lemma_first_geometry(ws, i + 1, k);
    }
}

/// A token is a size, a place across and a place down, in this order, with the width
/// before the height.
pub proof fn law_geometries_are_size_and_place(tok: Seq<char>, size: Seq<char>, place: Seq<char>)
    requires
        halves(tok, '+', '+') == Some((size, place)),
    ensures
        geometry(tok) matches Some((w, h, x, y)) ==> {
            &&& halves(size, 'x', 'x') matches Some((ws, hs))
            &&& halves(place, '+', '+') matches Some((xs, ys))
            &&& i32_value(ws) == Some(w) && i32_value(hs) == Some(h)
            &&& i32_value(xs) == Some(x) && i32_value(ys) == Some(y)
        },
{
}

/// A monitor reaches from its left to its right edge, and from its upper to its lower
/// one.
pub proof fn law_monitors_reach_from_edge_to_edge(
    name: Seq<char>,
    left: int,
    top: int,
    right: int,
    bottom: int,
)
    ensures
        ({
            let m = spanned(name, left, top, right, bottom);
            m.x == left && m.x + m.w == right && m.y == top && m.y + m.h == bottom
        }),
{
}

/// Of a name, only zeros at its end are left out.
pub proof fn law_names_end_before_the_zeros(s: Seq<char>)
    ensures
        ({
            let t = without_nuls(s);
            &&& t.len() <= s.len()
            &&& t == s.subrange(0, t.len() as int)
            &&& t.len() > 0 ==> t.last() != '\0'
            &&& forall|i: int| t.len() <= i < s.len() ==> s[i] == '\0'
        }),
    decreases s.len(),
{
    if s.len() > 0 && s.last() == '\0' {
        law_names_end_before_the_zeros(s.drop_last());
        let t = without_nuls(s);
        assert(t =~= s.subrange(0, t.len() as int));
        assert forall|i: int| t.len() <= i < s.len() implies s[i] == '\0' by {
            if i < s.len() - 1 {
                assert(s.drop_last()[i] == s[i]);
            }
        }
    } else {
        assert(s =~= s.subrange(0, s.len() as int));
    }
}

/// A monitor of a machine lies where its output does, as large as it and under its name; it
/// is numbered in the order of the outputs, and shown unscaled.
pub proof fn law_monitors_stand_for_their_outputs(m: Monitor, o: Output, device: DeviceId, i: int)
    requires
        placed_as(m, o, device, i),
        0 <= i <= 0xffff,
    ensures
        m.label@ == o.name,
        m.id.device == device && m.id.index == i,
        m.bounds.x == o.x && m.bounds.y == o.y && m.bounds.w == o.w && m.bounds.h == o.h,
        m.native.w == m.bounds.w && m.native.h == m.bounds.h,
        m.scale_pct == 100,
{
}

} // verus!
