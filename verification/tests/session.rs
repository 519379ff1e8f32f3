use deskoryn::config::{AppConfig, ConflictPolicy};
use deskoryn::geometry::{Point, Rect, Size};
use deskoryn::ids::{DeviceId, MonitorId};
use deskoryn::layout::{Monitor, VirtualDesktop};
use deskoryn::message::{Capabilities, Control, ProtocolVersion};
use deskoryn::monitors::{detect, detect_monitors, parse_geometry, parse_xrandr, MonitorInfo};
use deskoryn::session::{
    fits_beside, fits_desktop, greeting, plan_session, read_hello, rect_gap, seed_layout, start_position,
};

fn dev(b: u8) -> DeviceId {
    DeviceId::from_bytes([b; 16])
}

fn mon(device: DeviceId, idx: u16, x: i32, y: i32, w: i32, h: i32) -> Monitor {
    Monitor {
        id: MonitorId::new(device, idx),
        label: format!("m{idx}"),
        bounds: Rect::new(x, y, w, h),
        native: Size::new(w, h),
        scale_pct: 100,
    }
}

/// Three Linux monitors on the left, two Windows monitors on the right: the
/// boundary sits between Lin-R (x = 3840..5760) and Win-L (x = 5760).
fn sample() -> (DeviceId, DeviceId, VirtualDesktop) {
    let lin = dev(1);
    let win = dev(2);
    let vd = VirtualDesktop::new(vec![
        mon(lin, 0, 0, 0, 1920, 1080),
        mon(lin, 1, 1920, 0, 1920, 1080),
        mon(lin, 2, 3840, 0, 1920, 1080),
        mon(win, 0, 5760, 0, 2560, 1440),
        mon(win, 1, 8320, 0, 2560, 1440),
    ]);
    (lin, win, vd)
}

#[test]
fn starts_on_gateway_monitor_not_first() {
    let (lin, win, vd) = sample();
    // Linux's gateway is Lin-R (touches Win-L), centered at 3840 + 960 = 4800.
    assert_eq!(start_position(&vd, lin), Point::new(4800, 540));
    // Windows's gateway is Win-L (touches Lin-R), centered at 5760 + 1280 = 7040.
    assert_eq!(start_position(&vd, win), Point::new(7040, 720));
}

#[test]
fn falls_back_to_origin_with_no_monitors() {
    let vd = VirtualDesktop::new(vec![]);
    assert_eq!(start_position(&vd, dev(1)), Point::new(0, 0));
}

#[test]
fn falls_back_to_first_owned_when_no_peers() {
    let lin = dev(1);
    let vd = VirtualDesktop::new(vec![mon(lin, 0, 0, 0, 1920, 1080), mon(lin, 1, 1920, 0, 1920, 1080)]);
    // No peer monitors: all gaps are i32::MAX, the first is kept.
    assert_eq!(start_position(&vd, lin), Point::new(960, 540));
}

#[test]
fn rect_gap_is_zero_when_touching_or_overlapping() {
    let a = Rect::new(0, 0, 100, 100);
    assert_eq!(rect_gap(a, Rect::new(100, 0, 50, 100)), 0); // edge-to-edge
    assert_eq!(rect_gap(a, Rect::new(50, 50, 100, 100)), 0); // overlapping
}

#[test]
fn rect_gap_measures_horizontal_and_vertical_distance() {
    let a = Rect::new(0, 0, 100, 100);
    assert_eq!(rect_gap(a, Rect::new(130, 0, 50, 100)), 30); // 30px to the right
    assert_eq!(rect_gap(a, Rect::new(0, 150, 100, 50)), 50); // 50px below
    assert_eq!(rect_gap(a, Rect::new(130, 150, 50, 50)), 80); // diagonal: 30+50
}

#[test]
fn seeding_puts_the_peer_to_the_right() {
    let (a, b) = (dev(1), dev(2));
    let own = vec![mon(a, 0, 0, 0, 1920, 1080), mon(a, 1, 1920, 0, 1280, 1024)];
    let peer = vec![mon(b, 0, -100, 5, 800, 600), mon(b, 1, 700, 5, 800, 600)];
    assert!(fits_beside(&own, &peer));
    let vd = seed_layout(&own, &peer);
    let xs: Vec<i32> = vd.monitors.iter().map(|m| m.bounds.x).collect();
    assert_eq!(xs, vec![0, 1920, 3200, 4000]);
    assert!(vd.first_overlap().is_none());
    let far = vec![mon(b, 0, i32::MIN, 0, 10, 10)];
    assert!(!fits_beside(&own, &far));
    assert!(fits_desktop(&own, &peer, &None));
    assert!(!fits_desktop(&own, &far, &None));
    assert!(fits_desktop(&own, &far, &Some(vd)));
    let lost = VirtualDesktop::new(vec![mon(a, 0, i32::MAX, 0, 10, 10)]);
    assert!(!fits_desktop(&own, &peer, &Some(lost)));
}

#[test]
fn sessions_prefer_the_saved_arrangement() {
    let (a, b) = (dev(1), dev(2));
    let mut config = AppConfig::bootstrap("desk".to_string());
    config.device.id = a;
    let own = vec![mon(a, 0, 0, 0, 100, 100)];
    let peer = vec![mon(b, 0, 0, 0, 100, 100)];
    let plan = plan_session(&config, &own, &peer, None, "/tmp/in".to_string());
    assert_eq!(plan.layout.monitors[1].bounds.x, 100);
    assert_eq!(plan.start, Point::new(50, 50));
    assert!(plan.clipboard);
    assert_eq!(plan.download, Some(("/tmp/in".to_string(), ConflictPolicy::Rename)));

    let saved = VirtualDesktop::new(vec![mon(a, 0, 500, 0, 100, 100)]);
    config.clipboard.sync_files = false;
    config.clipboard.sync_text = false;
    config.clipboard.sync_images = false;
    let plan = plan_session(&config, &own, &peer, Some(saved), "/tmp/in".to_string());
    assert_eq!(plan.layout.monitors.len(), 1);
    assert_eq!(plan.start, Point::new(550, 50));
    assert!(!plan.clipboard);
    assert_eq!(plan.download, None);
}

#[test]
fn hello_is_read_and_other_versions_are_refused() {
    let a = dev(1);
    let config = AppConfig::bootstrap("desk".to_string());
    let own = vec![mon(a, 0, 0, 0, 100, 100)];
    let hello = greeting(&config, &own);
    match &hello {
        Control::Hello { name, version, capabilities, .. } => {
            assert_eq!(name, "desk");
            assert_eq!(*version, ProtocolVersion { major: 1, minor: 0 });
            assert!(capabilities.file_transfer && !capabilities.audio_forward);
        }
        other => panic!("expected a hello, got {other:?}"),
    }
    let read = read_hello(Some(hello)).ok().unwrap();
    assert_eq!(read.monitors.len(), 1);
    assert!(!read.audio_forward);

    assert_eq!(read_hello(None).ok().unwrap().monitors.len(), 0);
    assert_eq!(read_hello(Some(Control::Ping { nonce: 1 })).ok().unwrap().monitors.len(), 0);

    let foreign = Control::Hello {
        version: ProtocolVersion { major: 2, minor: 0 },
        device: a,
        name: String::new(),
        monitors: VirtualDesktop::default(),
        capabilities: Capabilities {
            clipboard_text: true,
            clipboard_images: true,
            clipboard_files: true,
            file_transfer: true,
            audio_forward: true,
        },
    };
    assert_eq!(read_hello(Some(foreign)).err().unwrap().theirs.major, 2);
}

// A representative `xrandr --query` dump: the Screen line, three active
// outputs (one "primary", offsets out of order), a connected-but-off output,
// a disconnected one, and indented mode lines that must all be ignored.
const SAMPLE: &str = "\
Screen 0: minimum 320 x 200, current 5760 x 1080, maximum 16384 x 16384
DP-2.1 connected 1920x1080+3840+0 (normal left inverted right x axis y axis) 598mm x 336mm
   1920x1080     60.00*+  59.94
   1680x1050     59.95
DP-2.2 connected 1920x1080+1920+0 (normal left inverted right x axis y axis) 544mm x 303mm
   1920x1080     60.00*+
DP-0 connected primary 1920x1080+0+0 (normal left inverted right x axis y axis) 598mm x 336mm
   1920x1080     60.00*+
DP-4 connected (normal left inverted right x axis y axis)
HDMI-0 disconnected (normal left inverted right x axis y axis)
";

#[test]
fn parses_active_outputs_and_skips_the_rest() {
    let mons = parse_xrandr(SAMPLE);
    assert_eq!(mons.len(), 3, "3 active outputs; DP-4 (off) and HDMI-0 (disconnected) skipped");

    let by_name = |n: &str| mons.iter().find(|m| m.name == n).unwrap();
    assert_eq!(by_name("DP-0"), &MonitorInfo { name: "DP-0".into(), x: 0, y: 0, w: 1920, h: 1080 });
    assert_eq!(by_name("DP-2.2").x, 1920);
    assert_eq!(by_name("DP-2.1").x, 3840);
    assert!(mons.iter().all(|m| m.w == 1920 && m.h == 1080));
}

#[test]
fn geometry_token_parsing() {
    assert_eq!(parse_geometry("1920x1080+3840+0"), Some((1920, 1080, 3840, 0)));
    assert_eq!(parse_geometry("2560x1440+0+0"), Some((2560, 1440, 0, 0)));
    assert_eq!(parse_geometry("(normal"), None);
    assert_eq!(parse_geometry("598mm"), None);
    assert_eq!(parse_geometry("1920x1080"), None); // a mode, not a placement
}

#[test]
fn detected_monitors_go_from_left_to_right() {
    let names: Vec<String> = detect(SAMPLE).unwrap().into_iter().map(|m| m.name).collect();
    assert_eq!(names, vec!["DP-0", "DP-2.2", "DP-2.1"]);
    let ms = detect_monitors(dev(4), SAMPLE).unwrap();
    assert_eq!(ms[1].id, MonitorId::new(dev(4), 1));
    assert_eq!(ms[1].label, "DP-2.2");
    assert_eq!(ms[1].bounds, Rect::new(1920, 0, 1920, 1080));
    assert_eq!(ms[1].native, Size::new(1920, 1080));
    assert!(detect("HDMI-0 disconnected\n").is_none());
    assert!(detect_monitors(dev(4), "").is_none());
}

#[test]
fn geometry_numbers_follow_the_32_bit_range() {
    assert_eq!(parse_geometry("1x2+-3++4"), Some((1, 2, -3, 4)));
    assert_eq!(parse_geometry("2147483648x2+3+4"), None);
    assert_eq!(parse_geometry("x2+3+4"), None);
}
