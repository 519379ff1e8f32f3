use deskoryn::arrange::{
    command_in_range, parse_point, parse_size, print_layout, run, warning, ArrangeCmd, ArrangeError, Outcome,
    PointError, SizeError, NO_MONITORS,
};
use deskoryn::clipboard::{
    files_hash, image_hash, mark_of, memory, payload_len, plan_write, probe, render_reply,
    text_hash, ClipWrite, ClipboardError, ClipboardPump, EchoGuard, LocalClip, MemoryClipboard,
    PumpAction, ToRead, Watcher,
};
use deskoryn::config::{hostname, AppConfig, AudioProfile, ConflictPolicy, Paths};
use deskoryn::devices::{
    button_from, button_key, detect, grab_change, modifier_bit, release_reports, stamp_mods,
    to_evdev, translate, virtual_keys, Backend, Report, BTN_EXTRA, BTN_LEFT, EV_KEY, EV_REL,
    REL_HWHEEL, REL_WHEEL, REL_X, REL_Y,
};
use deskoryn::geometry::{Point, Rect, Size};
use deskoryn::ids::{DeviceId, MonitorId};
use deskoryn::input::{Button, InputEvent, KeyCode, Modifiers, ScrollAxis};
use deskoryn::layout::{extent_in_range, Monitor, VirtualDesktop};
use deskoryn::message::{ClipFormat, ClipPayload, Clipboard};
use deskoryn::monitors::MonitorInfo;
use deskoryn::picture::{decode_png, encode_png, Picture};
use deskoryn::winhooks::{
    button_flags, current_mods, injection, mouse_event, release_injections, warp, HookState,
    Injection, MOUSEEVENTF_HWHEEL, MOUSEEVENTF_MOVE, MOUSEEVENTF_WHEEL, MOUSEEVENTF_XUP,
    WARP_FLAGS, WM_KEYDOWN, WM_KEYUP, WM_LBUTTONDOWN, WM_MOUSEHWHEEL, WM_MOUSEMOVE, WM_MOUSEWHEEL,
    WM_XBUTTONUP, XBUTTON2,
};

fn id(n: u8) -> DeviceId {
    DeviceId::from_bytes([n; 16])
}

// --- Settings ----------------------------------------------------------------

#[test]
fn files_lie_below_their_directories() {
    let p = Paths { config_dir: "/c".to_string(), state_dir: "/s".to_string() };
    assert_eq!(p.config_file(), "/c/config.toml");
    assert!(p.trust_file().starts_with("/s/"));
    assert!(p.key_file().starts_with("/s/"));
    assert!(p.cert_file() != p.key_file());
    assert!(p.socket_file().ends_with("deskorynd.sock"));
}

#[test]
fn fresh_settings_have_defaults() {
    let c = AppConfig::bootstrap("desk".to_string());
    assert_eq!(c.device.name, "desk");
    assert!(c.layout.monitors.is_empty());
    assert!(c.clipboard.sync_text);
    assert_eq!(c.clipboard.inline_max_bytes, 256 * 1024);
    assert_eq!(c.input.switch_hotkey, "Ctrl+Alt+S");
    assert_eq!(c.audio.profile, AudioProfile::LowLatency);
    assert_eq!(c.file_transfer.conflict_policy, ConflictPolicy::Rename);
    let kept_id = c.device.id;
    let (again, fresh) = AppConfig::load_or_bootstrap(Some(c), "other".to_string());
    assert!(!fresh && again.device.id == kept_id);
    let (new, fresh) = AppConfig::load_or_bootstrap(None, "other".to_string());
    assert!(fresh && new.device.name == "other");
}

#[test]
fn machines_have_a_name() {
    let some = |s: &str| Some(s.to_string());
    assert_eq!(hostname(some("a"), some("b")), "a");
    assert_eq!(hostname(None, some("b")), "b");
    assert_eq!(hostname(None, None), "deskoryn-device");
}

// --- Pictures ----------------------------------------------------------------

fn sample(width: u32, height: u32) -> Picture {
    let mut rgba = Vec::new();
    for y in 0..height {
        for x in 0..width {
            rgba.extend_from_slice(&[x as u8, y as u8, (x ^ y) as u8, 0xff]);
        }
    }
    Picture { width, height, rgba }
}

#[test]
fn png_round_trips_pixels() {
    let img = sample(7, 5);
    let png = encode_png(&img).expect("encode");
    let back = decode_png(&png).expect("decode");
    assert_eq!((back.width, back.height), (7, 5));
    assert_eq!(back.rgba, img.rgba, "RGBA must survive PNG round-trip");
}

#[test]
fn image_hash_survives_png_reencode() {
    let img = sample(16, 16);
    let written = image_hash(&img);
    let png = encode_png(&img).expect("encode");
    let reread = decode_png(&png).expect("decode");
    let seen = image_hash(&reread);
    assert_eq!(written, seen, "image echo hash must be stable across PNG round-trip");
}

#[test]
fn decode_rejects_garbage() {
    assert!(decode_png(b"not a png").is_none());
}

// --- The clipboard -----------------------------------------------------------

#[test]
fn contents_have_numbers_of_their_own() {
    assert_eq!(text_hash("a"), text_hash("a"));
    assert_ne!(text_hash("a"), text_hash("b"));
    assert_ne!(image_hash(&sample(2, 3)), image_hash(&sample(3, 2)));
    let ab = vec!["a".to_string(), "b".to_string()];
    let one = vec!["ab".to_string()];
    assert_ne!(files_hash(&ab), files_hash(&one));
}

#[test]
fn text_wins_over_pictures_and_files() {
    let text = |s: &str| Some(s.to_string());
    let files = || Some(vec!["/a".to_string()]);
    let pic = || Some(sample(1, 1));
    assert_eq!(probe(text("x"), pic(), files()), Some((ClipFormat::Utf8Text, text_hash("x"))));
    assert_eq!(probe(text(""), pic(), files()), Some((ClipFormat::Png, image_hash(&sample(1, 1)))));
    assert_eq!(
        probe(None, None, files()),
        Some((ClipFormat::FileList, files_hash(&vec!["/a".to_string()])))
    );
    assert_eq!(probe(text(""), None, Some(vec![])), None);
}

#[test]
fn changes_are_told_once_and_writes_not_at_all() {
    let mut w = Watcher::new();
    let seen = Some((ClipFormat::Utf8Text, text_hash("x")));
    let told = w.look(seen, None).unwrap();
    assert_eq!((told.seq, told.formats), (1, vec![ClipFormat::Utf8Text]));
    assert!(w.look(seen, None).is_none());
    let write = plan_write(ClipPayload::Text("y".to_string()));
    let mark = mark_of(&write);
    assert!(w.look(Some((ClipFormat::Utf8Text, text_hash("y"))), mark).is_none());
    assert!(w.look(None, None).is_none());
    assert_eq!(w.look(seen, mark).unwrap().seq, 2);
}

#[test]
fn payloads_become_what_the_clipboard_can_hold() {
    let png = encode_png(&sample(3, 2)).unwrap();
    match plan_write(ClipPayload::Bytes(png)) {
        ClipWrite::Image(p) => assert_eq!(p.rgba, sample(3, 2).rgba),
        other => panic!("{:?}", other),
    }
    assert!(matches!(plan_write(ClipPayload::Bytes(vec![1])), ClipWrite::Nothing));
    assert!(matches!(plan_write(ClipPayload::Html("<p>".to_string())), ClipWrite::Nothing));
    assert!(mark_of(&ClipWrite::Nothing).is_none());
}

#[test]
fn echoes_are_noted() {
    let mut g = EchoGuard::default();
    let change = |seq| LocalClip { seq, formats: vec![] };
    assert!(!g.is_echo(&change(1)));
    g.note_written(1);
    assert!(g.is_echo(&change(1)));
    // A copy of the user after the write is no echo.
    assert!(!g.is_echo(&change(2)));
    g.note_written(4);
    assert!(g.is_echo(&change(4)));
    assert!(!g.is_echo(&change(1)));
}

#[test]
fn text_syncs_both_directions() {
    let (mut a, mut inj_a) = memory();
    let (mut b, mut inj_b) = memory();
    let mut pa = ClipboardPump::new(false, 256 * 1024);
    let mut pb = ClipboardPump::new(false, 256 * 1024);

    let change = inj_a.copy_text(&mut a, "hello from A".to_string());
    assert_eq!(pa.on_change(&change), ToRead::Format(ClipFormat::Utf8Text));
    let payload = Some(ClipPayload::Text("hello from A".to_string()));
    let offer = pa.offer_payload(change, payload).unwrap();
    match pb.on_message(offer) {
        PumpAction::Write(p) => b.write(p),
        other => panic!("{:?}", other),
    }
    assert!(matches!(inj_b.current(&b), Some(ClipPayload::Text(t)) if t == "hello from A"));

    let change = inj_b.copy_text(&mut b, "reply from B".to_string());
    let payload = Some(ClipPayload::Text("reply from B".to_string()));
    let offer = pb.offer_payload(change, payload).unwrap();
    match pa.on_message(offer) {
        PumpAction::Write(p) => a.write(p),
        other => panic!("{:?}", other),
    }
    assert!(matches!(inj_a.current(&a), Some(ClipPayload::Text(t)) if t == "reply from B"));
    assert!(matches!(inj_b.current(&b), Some(ClipPayload::Text(_))));
}

#[test]
fn large_contents_are_asked_for() {
    let mut pa = ClipboardPump::new(false, 4);
    let mut pb = ClipboardPump::new(false, 4);
    let change = LocalClip { seq: 7, formats: vec![ClipFormat::Utf8Text] };
    let offer = pa.offer_payload(change, Some(ClipPayload::Text("too long".to_string()))).unwrap();
    assert!(matches!(&offer, Clipboard::Offer { seq: 7, inline: None, .. }));
    let pull = match pb.on_message(offer) {
        PumpAction::Send(m) => m,
        other => panic!("{:?}", other),
    };
    assert!(matches!(
        pull,
        Clipboard::Pull { seq: 7, format: ClipFormat::Utf8Text, tag: 7 }
    ));
    match pa.on_message(pull) {
        PumpAction::Render { format, tag } => {
            assert_eq!((format, tag), (ClipFormat::Utf8Text, 7));
            let data = render_reply(tag, Some(ClipPayload::Text("too long".to_string()))).unwrap();
            match pb.on_message(data) {
                PumpAction::Write(ClipPayload::Text(t)) => assert_eq!(t, "too long"),
                other => panic!("{:?}", other),
            }
        }
        other => panic!("{:?}", other),
    }
    assert!(render_reply(7, None).is_none());
}

#[test]
fn files_are_offered_and_sent_once() {
    let mut pa = ClipboardPump::new(true, 1024);
    let mut pb = ClipboardPump::new(true, 1024);
    let change = LocalClip { seq: 3, formats: vec![ClipFormat::FileList] };
    assert_eq!(pa.on_change(&change), ToRead::Files);
    let paths = vec!["/src/note.txt".to_string()];
    let offer = pa.offer_files(change, Some(paths.clone())).unwrap();
    let pull = match pb.on_message(offer) {
        PumpAction::ReceiveFiles(m) => m,
        other => panic!("{:?}", other),
    };
    match pa.on_message(pull) {
        PumpAction::SendFiles { tag, paths: sent } => assert_eq!((tag, sent), (3, paths)),
        other => panic!("{:?}", other),
    }
    let again = Clipboard::Pull { seq: 3, format: ClipFormat::FileList, tag: 3 };
    assert!(matches!(pa.on_message(again), PumpAction::Nothing));
    let empty = LocalClip { seq: 4, formats: vec![ClipFormat::FileList] };
    assert!(pa.offer_files(empty, Some(vec![])).is_none());
}

#[test]
fn files_stay_out_where_they_are_not_wanted() {
    let mut p = ClipboardPump::new(false, 1024);
    let change = LocalClip { seq: 3, formats: vec![ClipFormat::FileList] };
    assert_eq!(p.on_change(&change), ToRead::Nothing);
    let offer = Clipboard::Offer { seq: 3, formats: vec![ClipFormat::FileList], inline: None };
    assert!(matches!(p.on_message(offer), PumpAction::Nothing));
}

#[test]
fn clipboards_in_memory_read_back() {
    let mut m = MemoryClipboard::new();
    assert!(matches!(m.read(ClipFormat::Png), Err(ClipboardError::NoFormat(ClipFormat::Png))));
    let c = m.set_text("x".to_string());
    assert_eq!(c.seq, 1);
    assert!(matches!(m.read(ClipFormat::Utf8Text), Ok(ClipPayload::Text(t)) if t == "x"));
    let (mut clip, mut inj) = memory();
    inj.copy_files(&mut clip, vec!["/a".to_string()]);
    assert_eq!(clip.read_files().unwrap().len(), 1);
    clip.write_files(vec!["/b".to_string()]);
    assert_eq!(inj.landed_files(&clip).unwrap()[0], "/b");
    inj.copy_image(&mut clip, vec![1, 2, 3]);
    assert_eq!(payload_len(clip.read(ClipFormat::Png).unwrap()), 3);
}

// --- Devices of Linux --------------------------------------------------------

#[test]
fn reports_mean_events() {
    let rel = |code, value| translate(Report { kind: EV_REL, code, value });
    assert_eq!(rel(REL_X, -4), Some(InputEvent::PointerMotion { dx: -4, dy: 0 }));
    assert_eq!(rel(REL_Y, 3), Some(InputEvent::PointerMotion { dx: 0, dy: 3 }));
    let turn = InputEvent::Scroll { axis: ScrollAxis::Horizontal, delta: 1, hi_res: 0 };
    assert_eq!(rel(REL_HWHEEL, 1), Some(turn));
    assert_eq!(rel(9, 1), None);
    let key = |code, value| translate(Report { kind: EV_KEY, code, value });
    let press = InputEvent::Button { button: Button::Left, pressed: true };
    assert_eq!(key(BTN_LEFT, 1), Some(press));
    let repeat = InputEvent::Key { code: KeyCode(30), pressed: true, mods: Modifiers::empty() };
    assert_eq!(key(30, 2), Some(repeat));
    assert_eq!(translate(Report { kind: 0, code: 0, value: 0 }), None);
}

#[test]
fn modifiers_are_stamped_on_keys() {
    let mut held = Modifiers::empty();
    let ctrl = |pressed| InputEvent::Key { code: KeyCode(29), pressed, mods: Modifiers::empty() };
    stamp_mods(ctrl(true), &mut held);
    assert_eq!(held, Modifiers::ctrl());
    let s = InputEvent::Key { code: KeyCode(31), pressed: true, mods: Modifiers::empty() };
    let stamped = stamp_mods(s, &mut held);
    let want = InputEvent::Key { code: KeyCode(31), pressed: true, mods: Modifiers::ctrl() };
    assert_eq!(stamped, want);
    stamp_mods(ctrl(false), &mut held);
    assert_eq!(held, Modifiers::empty());
    assert_eq!(modifier_bit(126), Some(Modifiers::meta()));
    assert_eq!(modifier_bit(30), None);
}

#[test]
fn events_become_reports() {
    let moved = to_evdev(InputEvent::PointerMotion { dx: 2, dy: -3 });
    assert_eq!(
        moved,
        vec![
            Report { kind: EV_REL, code: REL_X, value: 2 },
            Report { kind: EV_REL, code: REL_Y, value: -3 },
        ]
    );
    let turn = InputEvent::Scroll { axis: ScrollAxis::Vertical, delta: -1, hi_res: -120 };
    assert_eq!(to_evdev(turn), vec![Report { kind: EV_REL, code: REL_WHEEL, value: -1 }]);
    for b in [Button::Left, Button::Right, Button::Middle, Button::Back, Button::Forward] {
        assert_eq!(button_from(button_key(b)), Some(b));
    }
    assert_eq!(button_key(Button::Forward), BTN_EXTRA);
    assert!(to_evdev(InputEvent::PointerPosition { at: Point::new(1, 1) }).is_empty());
    assert!(release_reports().iter().all(|r| r.kind == EV_KEY && r.value == 0));
    assert!(virtual_keys().contains(&30) && virtual_keys().contains(&BTN_LEFT));
    assert_eq!(grab_change(false, true), Some(true));
    assert_eq!(grab_change(true, true), None);
}

#[test]
fn backends_go_by_system() {
    assert_eq!(detect(true, false), Backend::LinuxEvdev);
    assert_eq!(detect(false, true), Backend::WindowsHooks);
    assert_eq!(detect(false, false), Backend::Null);
}

// --- Hooks of Windows --------------------------------------------------------

fn hooks(grabbed: bool) -> HookState {
    HookState { grabbed, center: Point::new(960, 540), last: Point::new(10, 10) }
}

#[test]
fn grabbed_motion_goes_by_the_center() {
    let mut h = hooks(true);
    let v = h.on_mouse(WM_MOUSEMOVE, Point::new(965, 538), 0, false);
    assert_eq!(v.event, Some(InputEvent::PointerMotion { dx: 5, dy: -2 }));
    assert_eq!(v.recenter, Some(Point::new(960, 540)));
    assert!(v.swallow);
    let back = h.on_mouse(WM_MOUSEMOVE, Point::new(960, 540), 0, false);
    assert!(back.event.is_none() && back.swallow);
}

#[test]
fn free_motion_goes_by_where_the_pointer_was() {
    let mut h = hooks(false);
    let v = h.on_mouse(WM_MOUSEMOVE, Point::new(13, 9), 0, false);
    assert_eq!(v.event, Some(InputEvent::PointerMotion { dx: 3, dy: -1 }));
    assert!(!v.swallow);
    assert_eq!(h.last, Point::new(13, 9));
    let injected = h.on_mouse(WM_MOUSEMOVE, Point::new(99, 99), 0, true);
    assert!(injected.event.is_none() && !injected.swallow);
    assert_eq!(h.set_grabbed(true, 1920, 1080), Some(Point::new(960, 540)));
    assert!(h.grabbed);
}

#[test]
fn hooks_read_buttons_wheels_and_keys() {
    let left = InputEvent::Button { button: Button::Left, pressed: true };
    assert_eq!(mouse_event(WM_LBUTTONDOWN, 0), Some(left));
    let fwd = InputEvent::Button { button: Button::Forward, pressed: false };
    assert_eq!(mouse_event(WM_XBUTTONUP, XBUTTON2 << 16), Some(fwd));
    let down = InputEvent::Scroll { axis: ScrollAxis::Vertical, delta: -1, hi_res: -120 };
    assert_eq!(mouse_event(WM_MOUSEWHEEL, 0xff88_0000), Some(down));
    let fine = InputEvent::Scroll { axis: ScrollAxis::Horizontal, delta: 0, hi_res: 60 };
    assert_eq!(mouse_event(WM_MOUSEHWHEEL, 60 << 16), Some(fine));
    assert_eq!(mouse_event(0, 0), None);

    let v = hooks(true).on_key(WM_KEYDOWN, 0x41, Modifiers::shift(), false);
    let a = InputEvent::Key { code: KeyCode(30), pressed: true, mods: Modifiers::shift() };
    assert_eq!(v.event, Some(a));
    assert!(v.swallow);
    let up = hooks(false).on_key(WM_KEYUP, 0x41, Modifiers::empty(), false);
    assert!(matches!(up.event, Some(InputEvent::Key { pressed: false, .. })) && !up.swallow);
    assert!(hooks(true).on_key(WM_KEYDOWN, 0x41, Modifiers::empty(), true).event.is_none());
    let m = current_mods(true, false, true, false, true);
    assert_eq!(m, Modifiers::shift() | Modifiers::alt() | Modifiers::meta());
}

#[test]
fn events_are_injected() {
    let mouse = |dx, dy, data, flags| Injection::Mouse { dx, dy, data, flags };
    let motion = InputEvent::PointerMotion { dx: 4, dy: -1 };
    assert_eq!(injection(motion), mouse(4, -1, 0, MOUSEEVENTF_MOVE));
    let up = InputEvent::Scroll { axis: ScrollAxis::Vertical, delta: 2, hi_res: 0 };
    assert_eq!(injection(up), mouse(0, 0, 240, MOUSEEVENTF_WHEEL));
    let fine = InputEvent::Scroll { axis: ScrollAxis::Horizontal, delta: 0, hi_res: -30 };
    assert_eq!(injection(fine), mouse(0, 0, (-30i32) as u32, MOUSEEVENTF_HWHEEL));
    let key = InputEvent::Key { code: KeyCode(30), pressed: false, mods: Modifiers::empty() };
    assert_eq!(injection(key), Injection::Key { vk: 0x41, up: true });
    let unknown = InputEvent::Key { code: KeyCode(999), pressed: true, mods: Modifiers::empty() };
    assert_eq!(injection(unknown), Injection::Nothing);
    assert_eq!(button_flags(Button::Forward, false), (MOUSEEVENTF_XUP, XBUTTON2));
    assert!(matches!(warp(Point::new(1, 2)), Injection::Mouse { flags: WARP_FLAGS, .. }));
    assert!(release_injections().iter().all(|i| !matches!(i, Injection::Nothing)));
}

// --- Arranging monitors ------------------------------------------------------

fn monitor(dev: u8, index: u16, label: &str, bounds: Rect) -> Monitor {
    Monitor {
        id: MonitorId::new(id(dev), index),
        label: label.to_string(),
        bounds,
        native: Size::new(bounds.w, bounds.h),
        scale_pct: 100,
    }
}

fn desk() -> VirtualDesktop {
    VirtualDesktop::new(vec![
        monitor(1, 0, "L", Rect::new(0, 0, 1920, 1080)),
        monitor(2, 0, "W", Rect::new(1920, 0, 2560, 1440)),
    ])
}

fn add(label: &str, at: Option<Point>, right_of: Option<&str>) -> ArrangeCmd {
    ArrangeCmd::Add {
        label: label.to_string(),
        size: Size::new(800, 600),
        scale: 150,
        at,
        right_of: right_of.map(|s| s.to_string()),
        left_of: None,
        above: None,
        below: None,
    }
}

fn apply(layout: &mut VirtualDesktop, cmd: ArrangeCmd) -> Result<Outcome, ArrangeError> {
    run(layout, id(1), cmd, &vec![], VirtualDesktop::default())
}

#[test]
fn monitors_are_added_where_the_command_says() {
    let mut d = desk();
    let o = apply(&mut d, add("new", None, None)).unwrap();
    assert_eq!(o, Outcome::Saved { overlap: None });
    let m = &d.monitors[2];
    assert_eq!(m.bounds, Rect::new(4480, 0, 800, 600));
    assert_eq!((m.id.index, m.scale_pct), (1, 150));
    assert!(m.id.device == id(1));

    let mut d = desk();
    let o = apply(&mut d, add("new", Some(Point::new(100, 100)), None)).unwrap();
    assert_eq!(o, Outcome::Saved { overlap: Some((0, 1)) });
    assert!(warning(0, 1).starts_with("warning: monitors 0 and 1 overlap"));

    let mut d = desk();
    apply(&mut d, add("new", None, Some("L"))).unwrap();
    assert_eq!(d.monitors[2].bounds, Rect::new(1920, 0, 800, 600));
}

#[test]
fn commands_are_refused_without_a_change() {
    let mut d = desk();
    let taken = apply(&mut d, add("W", None, None));
    assert!(matches!(taken, Err(ArrangeError::LabelTaken(l)) if l == "W"));
    let nowhere = apply(&mut d, add("new", None, Some("Q")));
    assert!(matches!(nowhere, Err(ArrangeError::NoAnchor(l)) if l == "Q"));
    let gone = apply(&mut d, ArrangeCmd::Remove { label: "Q".to_string() });
    assert!(matches!(gone, Err(ArrangeError::NoSuchLabel(l)) if l == "Q"));
    assert_eq!(d.monitors.len(), 2);
}

#[test]
fn only_local_monitors_are_removed() {
    let mut d = desk();
    let peer = apply(&mut d, ArrangeCmd::Remove { label: "W".to_string() });
    assert!(peer.is_err());
    apply(&mut d, ArrangeCmd::Remove { label: "L".to_string() }).unwrap();
    assert_eq!(d.monitors.len(), 1);
    let mut d = desk();
    apply(&mut d, ArrangeCmd::Clear).unwrap();
    assert_eq!(d.monitors[0].label, "W");
}

#[test]
fn detected_monitors_replace_local_ones() {
    let mut d = desk();
    let info = MonitorInfo { name: "DP-0".to_string(), x: 0, y: 0, w: 100, h: 50 };
    let o = run(&mut d, id(1), ArrangeCmd::Detect, &vec![info], VirtualDesktop::default()).unwrap();
    assert_eq!(o, Outcome::Saved { overlap: None });
    let labels: Vec<&str> = d.monitors.iter().map(|m| m.label.as_str()).collect();
    assert_eq!(labels, vec!["W", "DP-0"]);
    assert_eq!(d.monitors[1].bounds, Rect::new(0, 0, 100, 50));
}

#[test]
fn commands_are_tried_for_their_numbers() {
    let fits = |d: &VirtualDesktop, cmd: ArrangeCmd| {
        command_in_range(d, id(1), &cmd, &vec![], &VirtualDesktop::default())
    };
    let at = |x| Some(Point::new(x, 0));
    assert!(fits(&desk(), add("new", at(0x7000_0000), None)));
    assert!(!fits(&desk(), add("new", at(i32::MAX), None)));
    assert!(fits(&desk(), add("W", at(i32::MAX), None)));
    assert!(fits(&desk(), add("new", None, Some("Q"))));
    assert!(fits(&desk(), add("new", None, Some("L"))));
    let far = |x| VirtualDesktop::new(vec![monitor(1, 0, "far", Rect::new(x, 0, 10, 10))]);
    assert!(fits(&far(i32::MAX - 10), ArrangeCmd::Clear));
    assert!(!fits(&far(i32::MAX), ArrangeCmd::Clear));
    assert!(fits(&far(i32::MAX), ArrangeCmd::Show));
    assert!(!fits(&far(i32::MAX - 10), add("new", None, None)));
    let last = VirtualDesktop::new(vec![monitor(1, u16::MAX, "last", Rect::new(0, 0, 10, 10))]);
    assert!(!fits(&last, add("new", None, None)));
    let info = MonitorInfo { name: "x".to_string(), x: i32::MAX, y: 0, w: 1, h: 1 };
    let none = VirtualDesktop::default();
    assert!(!command_in_range(&none, id(1), &ArrangeCmd::Detect, &vec![info], &none));
    let import = ArrangeCmd::Import { path: "x.json".to_string() };
    assert!(!command_in_range(&none, id(1), &import, &vec![], &far(i32::MAX)));

    assert!(extent_in_range(&desk().monitors));
    assert!(extent_in_range(&vec![]));
    let mut wide = far(i32::MIN).monitors;
    assert!(extent_in_range(&wide));
    wide.push(monitor(1, 1, "right", Rect::new(0, 0, 10, 10)));
    assert!(!extent_in_range(&wide));
}

#[test]
fn layouts_are_shown_exported_and_imported() {
    let mut d = desk();
    assert_eq!(apply(&mut d, ArrangeCmd::Show).unwrap(), Outcome::Shown);
    assert_eq!(apply(&mut d, ArrangeCmd::Export { path: None }).unwrap(), Outcome::Exported);
    let import = ArrangeCmd::Import { path: "x.json".to_string() };
    let mut empty = VirtualDesktop::default();
    run(&mut empty, id(1), import, &vec![], desk()).unwrap();
    assert_eq!(empty.monitors.len(), 2);

    let lines = print_layout(&desk());
    assert_eq!(lines[0], "[0] L                1920x1080 @ (0,0)  scale 100%");
    assert_eq!(lines[2], "desktop: 4480x1440 from (0,0)");
    assert_eq!(print_layout(&VirtualDesktop::default()), vec![NO_MONITORS.to_string()]);
    let left = VirtualDesktop::new(vec![monitor(1, 3, "a long label that fills", Rect::new(-5, -6, 7, 8))]);
    assert_eq!(print_layout(&left)[0], "[3] a long label that fills 7x8 @ (-5,-6)  scale 100%");
}

#[test]
fn sizes_and_points_are_read() {
    assert_eq!(parse_size("1920x1080"), Ok(Size::new(1920, 1080)));
    assert_eq!(parse_size(" 10 X 20 "), Ok(Size::new(10, 20)));
    assert_eq!(parse_size("10"), Err(SizeError::Shape));
    assert_eq!(parse_size("ax2"), Err(SizeError::Width));
    assert_eq!(parse_size("2x"), Err(SizeError::Height));
    assert_eq!(parse_point("5760,-3"), Ok(Point::new(5760, -3)));
    assert_eq!(parse_point("5"), Err(PointError::Shape));
    assert_eq!(parse_point("a,1"), Err(PointError::X));
    assert_eq!(parse_point("1,99999999999"), Err(PointError::Y));
}
