use deskoryn::geometry::{Edge, Point, Rect, Size};
use deskoryn::ids::{DeviceId, MonitorId};
use deskoryn::layout::{rects_overlap, relative_entry, Monitor, VirtualDesktop};

fn dev(b: u8) -> DeviceId {
    DeviceId::from_bytes([b; 16])
}

fn mon(device: DeviceId, idx: u16, label: &str, x: i32, y: i32, w: i32, h: i32) -> Monitor {
    Monitor {
        id: MonitorId::new(device, idx),
        label: label.into(),
        bounds: Rect::new(x, y, w, h),
        native: Size::new(w, h),
        scale_pct: 100,
    }
}

/// Three Linux monitors on the left, two Windows monitors on the right.
fn sample() -> (DeviceId, DeviceId, VirtualDesktop) {
    let lin = dev(1);
    let win = dev(2);
    let vd = VirtualDesktop::new(vec![
        mon(lin, 0, "Lin-L", 0, 0, 1920, 1080),
        mon(lin, 1, "Lin-C", 1920, 0, 1920, 1080),
        mon(lin, 2, "Lin-R", 3840, 0, 1920, 1080),
        mon(win, 0, "Win-L", 5760, 0, 2560, 1440),
        mon(win, 1, "Win-R", 8320, 0, 2560, 1440),
    ]);
    (lin, win, vd)
}

#[test]
fn stays_on_monitor() {
    let (_, _, vd) = sample();
    assert!(vd.resolve_move(Point::new(100, 100), Point::new(200, 200)).is_none());
}

#[test]
fn crosses_within_same_machine() {
    let (lin, _, vd) = sample();
    let t = vd
        .resolve_move(Point::new(1900, 500), Point::new(1930, 500))
        .expect("should cross into Lin-C");
    assert_eq!(t.device, lin);
    assert_eq!(t.target.index, 1);
}

#[test]
fn crosses_machine_boundary_to_windows() {
    let (_, win, vd) = sample();
    let t = vd
        .resolve_move(Point::new(5750, 500), Point::new(5780, 500))
        .expect("should cross into Win-L");
    assert_eq!(t.device, win);
    assert_eq!(t.target.index, 0);
}

#[test]
fn detects_overlap() {
    let d = dev(1);
    let mut vd = VirtualDesktop::new(vec![
        mon(d, 0, "A", 0, 0, 1920, 1080),
        mon(d, 1, "B", 1920, 0, 1920, 1080),
    ]);
    assert!(vd.first_overlap().is_none(), "edge-to-edge tiles do not overlap");

    // Nudge B back so it overlaps A.
    vd.monitors[1].bounds.x = 1900;
    assert!(vd.first_overlap().is_some());
}

#[test]
fn normalize_shifts_bbox_to_origin() {
    let d = dev(1);
    let mut vd = VirtualDesktop::new(vec![
        mon(d, 0, "A", -500, -200, 1920, 1080),
        mon(d, 1, "B", 1420, -200, 1920, 1080),
    ]);
    vd.normalize();
    let bb = vd.bounding_box().unwrap();
    assert_eq!((bb.x, bb.y), (0, 0));
    // Relative placement is preserved.
    assert_eq!(vd.monitors[0].bounds.x, 0);
    assert_eq!(vd.monitors[1].bounds.x, 1920);
}

#[test]
fn place_beside_each_edge() {
    let d = dev(1);
    let vd = VirtualDesktop::new(vec![mon(d, 0, "A", 0, 0, 1920, 1080)]);
    let anchor = vd.monitors[0].id;
    let size = Size::new(2560, 1440);

    assert_eq!(vd.place_beside(anchor, Edge::Right, size).unwrap(), Rect::new(1920, 0, 2560, 1440));
    assert_eq!(vd.place_beside(anchor, Edge::Left, size).unwrap(), Rect::new(-2560, 0, 2560, 1440));
    assert_eq!(vd.place_beside(anchor, Edge::Bottom, size).unwrap(), Rect::new(0, 1080, 2560, 1440));
    assert_eq!(vd.place_beside(anchor, Edge::Top, size).unwrap(), Rect::new(0, -1440, 2560, 1440));
    assert!(vd.place_beside(MonitorId::new(dev(9), 0), Edge::Right, size).is_none());
}

#[test]
fn relative_entry_is_proportional_along_the_edge() {
    // Leaving a 1920x1080 monitor on its right edge, entering a taller
    // 2560x1440 monitor placed to the right.
    let src = Rect::new(0, 0, 1920, 1080);
    let dst = Rect::new(1920, 0, 2560, 1440);

    // Crossing at the very top stays at the top.
    let top = relative_entry(src, dst, Point::new(1900, 0), Point::new(1925, 0));
    assert_eq!(top, Point::new(1920, 0));

    // Crossing at the bottom (~100% down 1080) lands ~100% down 1440.
    let bottom = relative_entry(src, dst, Point::new(1900, 1079), Point::new(1925, 1079));
    assert_eq!(bottom.x, 1920, "enters at the near (left) edge of dst");
    assert!(bottom.y >= 1438, "~bottom of the 1440-tall monitor, got {}", bottom.y);

    // Crossing at the middle lands at the middle, not an absolute pixel row.
    let mid = relative_entry(src, dst, Point::new(1900, 540), Point::new(1925, 540));
    assert!((715..=725).contains(&mid.y), "~half of 1440, got {}", mid.y);
}

#[test]
fn relative_entry_snaps_to_the_near_edge() {
    // A big overshoot deep into the next monitor still enters at its edge.
    let src = Rect::new(0, 0, 1920, 1080);
    let dst = Rect::new(1920, 0, 1920, 1080);
    let e = relative_entry(src, dst, Point::new(1900, 500), Point::new(2400, 500));
    assert_eq!(e.x, 1920, "snaps to dst's left edge, not 480px deep");
    assert_eq!(e.y, 500);
}

#[test]
fn projects_vertical_offset_across_resolution_change() {
    // Windows monitors are 1440 tall vs 1080 on Linux; a crossing near the
    // bottom of the Linux row should land (clamped) inside the Windows panel.
    let (_, win, vd) = sample();
    let t = vd
        .resolve_move(Point::new(5750, 1000), Point::new(5800, 1000))
        .expect("cross into Win-L near bottom");
    assert_eq!(t.device, win);
    assert!(t.entry.y < 1440);
}

#[test]
fn projects_onto_the_neighbour_across_a_hole() {
    let (a, b) = (dev(1), dev(2));
    // A gap of 80 pixels lies between the two monitors.
    let vd = VirtualDesktop::new(vec![mon(a, 0, "A", 0, 0, 100, 100), mon(b, 0, "B", 180, 50, 100, 100)]);
    let t = vd.resolve_move(Point::new(90, 20), Point::new(120, 20)).unwrap();
    assert_eq!(t.device, b);
    assert_eq!(t.via, Edge::Right);
    assert_eq!(t.entry, Point::new(180, 50));
    // Leaving over the left edge finds no neighbour.
    assert!(vd.resolve_move(Point::new(5, 20), Point::new(-30, 20)).is_none());
    // A move that starts nowhere is no crossing.
    assert!(vd.resolve_move(Point::new(150, 20), Point::new(10, 20)).is_none());
}

#[test]
fn the_better_fitting_neighbour_wins() {
    let (a, b) = (dev(1), dev(2));
    let vd = VirtualDesktop::new(vec![
        mon(a, 0, "A", 0, 0, 100, 100),
        mon(b, 0, "far", 300, 0, 100, 100),
        mon(b, 1, "near", 150, 0, 100, 100),
        mon(b, 2, "low", 120, 90, 100, 100),
    ]);
    let t = vd.resolve_move(Point::new(90, 10), Point::new(110, 10)).unwrap();
    assert_eq!(t.target.index, 1);
}

#[test]
fn monitor_lookup_by_place_and_id() {
    let (lin, win, vd) = sample();
    assert_eq!(vd.monitor_at(Point::new(1920, 0)).unwrap().label, "Lin-C");
    assert_eq!(vd.owner_at(Point::new(5759, 0)), Some(lin));
    assert_eq!(vd.owner_at(Point::new(5760, 1439)), Some(win));
    assert_eq!(vd.owner_at(Point::new(5760, 1440)), None);
    assert_eq!(vd.monitor(MonitorId::new(win, 1)).unwrap().label, "Win-R");
    assert!(vd.monitor(MonitorId::new(win, 7)).is_none());
}

#[test]
fn clamp_lands_on_the_closest_pixel() {
    let r = Rect::new(10, 20, 30, 40);
    assert_eq!(r.clamp(Point::new(0, 0)), Point::new(10, 20));
    assert_eq!(r.clamp(Point::new(100, 30)), Point::new(39, 30));
    assert_eq!(r.clamp(Point::new(15, 25)), Point::new(15, 25));
    assert!(r.contains(Point::new(39, 59)));
    assert!(!r.contains(Point::new(40, 59)));
    assert_eq!((r.left(), r.top(), r.right(), r.bottom()), (10, 20, 40, 60));
}

#[test]
fn overlap_is_symmetric_and_excludes_touching() {
    let a = Rect::new(0, 0, 10, 10);
    assert!(!rects_overlap(a, Rect::new(10, 0, 10, 10)));
    assert!(rects_overlap(a, Rect::new(9, 9, 10, 10)));
    assert!(rects_overlap(Rect::new(9, 9, 10, 10), a));
}

#[test]
fn bounding_box_covers_all_monitors() {
    let (_, _, vd) = sample();
    assert_eq!(vd.bounding_box(), Some(Rect::new(0, 0, 10880, 1440)));
    assert_eq!(VirtualDesktop::default().bounding_box(), None);
}

#[test]
fn first_overlap_names_the_first_pair() {
    let d = dev(3);
    let vd = VirtualDesktop::new(vec![
        mon(d, 0, "A", 0, 0, 10, 10),
        mon(d, 1, "B", 20, 0, 10, 10),
        mon(d, 2, "C", 25, 0, 10, 10),
        mon(d, 3, "D", 5, 5, 10, 10),
    ]);
    let (a, b) = vd.first_overlap().unwrap();
    assert_eq!((a.index, b.index), (0, 3));
}
