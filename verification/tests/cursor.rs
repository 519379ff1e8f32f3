use deskoryn::config::InputConfig;
use deskoryn::controller::{Action, Controller};
use deskoryn::focus::{FocusAction, FocusMachine, Role};
use deskoryn::geometry::{Point, Rect, Size};
use deskoryn::hotkey::{Hotkey, HotkeyParseError};
use deskoryn::ids::{DeviceId, MonitorId};
use deskoryn::input::{Button, InputEvent, KeyCode, Modifiers};
use deskoryn::layout::{Monitor, VirtualDesktop};

fn dev(b: u8) -> DeviceId {
    DeviceId::from_bytes([b; 16])
}

fn mon(d: DeviceId, i: u16, x: i32) -> Monitor {
    Monitor {
        id: MonitorId::new(d, i),
        label: format!("m{i}"),
        bounds: Rect::new(x, 0, 1920, 1080),
        native: Size::new(1920, 1080),
        scale_pct: 100,
    }
}

fn two_machines() -> (DeviceId, DeviceId, VirtualDesktop) {
    let a = dev(1);
    let b = dev(2);
    // A on the left (0..1920), B on the right (1920..3840).
    (a, b, VirtualDesktop::new(vec![mon(a, 0, 0), mon(b, 0, 1920)]))
}

fn two_machine_layout() -> (DeviceId, DeviceId, VirtualDesktop) {
    let lin = dev(1);
    let win = dev(2);
    let vd = VirtualDesktop::new(vec![mon(lin, 0, 0), mon(lin, 1, 1920), mon(win, 0, 3840)]);
    (lin, win, vd)
}

fn policy(edge_px: i32) -> InputConfig {
    InputConfig { edge_resistance_px: edge_px, ..InputConfig::default() }
}

#[test]
fn edge_resistance_holds_until_pushed() {
    let (a, _b, vd) = two_machines();
    // 100px of push required before handing off; start just inside A's right edge.
    let mut c = Controller::new(vd, a, Point::new(1900, 500)).with_input_config(&policy(100));

    // First nudge across the edge: held locally, no Enter yet.
    let acts = c.on_event(InputEvent::PointerMotion { dx: 50, dy: 0 });
    assert_eq!(acts, vec![Action::PassThrough]);
    assert!(!c.grabbed());
    // Cursor is clamped to A's edge while resisting.
    assert_eq!(c.position().x, 1919);

    // Keep pushing; still under the 100px threshold.
    assert_eq!(c.on_event(InputEvent::PointerMotion { dx: 50, dy: 0 }), vec![Action::PassThrough]);
    assert!(!c.grabbed());

    // Enough accumulated push now crosses.
    let acts = c.on_event(InputEvent::PointerMotion { dx: 50, dy: 0 });
    assert!(matches!(acts.as_slice(), [Action::Enter { .. }]));
    assert!(c.grabbed());
}

#[test]
fn moving_back_inward_resets_resistance() {
    let (a, _b, vd) = two_machines();
    let mut c = Controller::new(vd, a, Point::new(1900, 500)).with_input_config(&policy(100));

    c.on_event(InputEvent::PointerMotion { dx: 50, dy: 0 }); // accumulate 31
    // Move well back inside A: resets the accumulator.
    assert_eq!(c.on_event(InputEvent::PointerMotion { dx: -500, dy: 0 }), vec![Action::PassThrough]);
    // A fresh push under threshold must not immediately cross.
    assert_eq!(c.on_event(InputEvent::PointerMotion { dx: 50, dy: 0 }), vec![Action::PassThrough]);
    assert!(!c.grabbed());
}

#[test]
fn lock_blocks_transitions() {
    let (a, _b, vd) = two_machines();
    let cfg = policy(0);
    let mut c = Controller::new(vd, a, Point::new(100, 500)).with_input_config(&cfg);

    // Lock via the configured hotkey (Ctrl+Alt+L -> 'l').
    let lock_key = Hotkey::parse(&cfg.lock_hotkey).unwrap();
    let mods = Modifiers::ctrl() | Modifiers::alt();
    c.on_event(InputEvent::Key { code: lock_key.code, pressed: true, mods });
    assert!(c.locked());

    // A move that would cross is held local while locked.
    let acts = c.on_event(InputEvent::PointerMotion { dx: 1800, dy: 0 });
    assert_eq!(acts, vec![Action::PassThrough]);
    assert!(!c.grabbed());

    // Unlock (release then press again) and the same move crosses.
    c.on_event(InputEvent::Key { code: lock_key.code, pressed: false, mods });
    c.on_event(InputEvent::Key { code: lock_key.code, pressed: true, mods });
    assert!(!c.locked());
    let acts = c.on_event(InputEvent::PointerMotion { dx: 1800, dy: 0 });
    assert!(matches!(acts.as_slice(), [Action::Enter { .. }]));
}

#[test]
fn switch_hotkey_forces_handoff_both_ways() {
    let (a, _b, vd) = two_machines();
    let cfg = policy(0);
    let mut c = Controller::new(vd, a, Point::new(100, 500)).with_input_config(&cfg);

    let sw = Hotkey::parse(&cfg.switch_hotkey).unwrap();
    let mods = Modifiers::ctrl() | Modifiers::alt();

    // Local -> forced Enter onto a peer monitor.
    let acts = c.on_event(InputEvent::Key { code: sw.code, pressed: true, mods });
    assert!(matches!(acts.as_slice(), [Action::Enter { .. }]));
    assert!(c.grabbed());

    // Held (key-repeat) does not toggle again.
    assert_eq!(c.on_event(InputEvent::Key { code: sw.code, pressed: true, mods }), vec![Action::PassThrough]);
    assert!(c.grabbed());

    // Release re-arms; pressing again switches back.
    c.on_event(InputEvent::Key { code: sw.code, pressed: false, mods });
    let acts = c.on_event(InputEvent::Key { code: sw.code, pressed: true, mods });
    assert_eq!(acts, vec![Action::Leave]);
    assert!(!c.grabbed());
}

#[test]
fn crosses_out_forwards_then_returns() {
    let (a, _b, vd) = two_machines();
    let mut c = Controller::new(vd, a, Point::new(100, 500));

    // Move within A: pass-through.
    assert_eq!(c.on_event(InputEvent::PointerMotion { dx: 50, dy: 0 }), vec![Action::PassThrough]);
    assert!(!c.grabbed());

    // Cross into B: Enter.
    let acts = c.on_event(InputEvent::PointerMotion { dx: 1800, dy: 0 });
    assert!(matches!(acts.as_slice(), [Action::Enter { .. }]));
    assert!(c.grabbed());

    // A key while remote: forwarded.
    let acts = c.on_event(InputEvent::Key { code: KeyCode(30), pressed: true, mods: Modifiers::empty() });
    assert!(matches!(acts.as_slice(), [Action::Forward(InputEvent::Key { .. })]));

    // A click while remote: forwarded.
    let acts = c.on_event(InputEvent::Button { button: Button::Left, pressed: true });
    assert!(matches!(acts.as_slice(), [Action::Forward(InputEvent::Button { .. })]));

    // Move back into A: Leave.
    let acts = c.on_event(InputEvent::PointerMotion { dx: -1900, dy: 0 });
    assert_eq!(acts, vec![Action::Leave]);
    assert!(!c.grabbed());
}

#[test]
fn absolute_positions_are_forwarded_as_motion() {
    let (a, _b, vd) = two_machines();
    let mut c = Controller::new(vd, a, Point::new(1900, 500));
    let acts = c.on_event(InputEvent::PointerPosition { at: Point::new(2000, 400) });
    assert_eq!(acts, vec![Action::Enter { at: Point::new(1920, 400), mods: Modifiers::empty() }]);
    let acts = c.on_event(InputEvent::PointerPosition { at: Point::new(2010, 420) });
    assert_eq!(acts, vec![Action::Forward(InputEvent::PointerMotion { dx: 90, dy: 20 })]);
}

#[test]
fn the_peer_is_entered_at_its_edge() {
    let (a, b, vd) = two_machines();
    // However far the motion overshoots, the cursor enters at the boundary.
    let mut c = Controller::new(vd, a, Point::new(100, 500));
    let acts = c.on_event(InputEvent::PointerMotion { dx: 1850, dy: 0 });
    assert_eq!(acts, vec![Action::Enter { at: Point::new(1920, 500), mods: Modifiers::empty() }]);
    assert_eq!(c.position(), Point::new(1920, 500));

    // Half way down a monitor enters half way down a taller one.
    let mut tall = mon(b, 0, 1920);
    tall.bounds = Rect::new(1920, -200, 2560, 1440);
    let vd = VirtualDesktop::new(vec![mon(a, 0, 0), tall]);
    let mut c = Controller::new(vd, a, Point::new(1900, 540));
    let acts = c.on_event(InputEvent::PointerMotion { dx: 300, dy: 0 });
    assert_eq!(acts, vec![Action::Enter { at: Point::new(1920, 520), mods: Modifiers::empty() }]);

    // To the left, the near edge is the right one.
    let vd = VirtualDesktop::new(vec![mon(a, 0, 1920), mon(b, 0, 0)]);
    let mut c = Controller::new(vd, a, Point::new(1930, 77));
    let acts = c.on_event(InputEvent::PointerMotion { dx: -400, dy: 0 });
    assert_eq!(acts, vec![Action::Enter { at: Point::new(1919, 77), mods: Modifiers::empty() }]);

    // A cursor on no monitor of this machine leaves no edge.
    let (a, _b, vd) = two_machines();
    let mut c = Controller::new(vd, a, Point::new(-50, 500));
    let acts = c.on_event(InputEvent::PointerMotion { dx: 2050, dy: 0 });
    assert_eq!(acts, vec![Action::Enter { at: Point::new(2000, 500), mods: Modifiers::empty() }]);
}

#[test]
fn the_cursor_can_be_taken_back() {
    let (a, _b, vd) = two_machines();
    let mut c = Controller::new(vd, a, Point::new(1900, 500));
    assert_eq!(c.release(), None);
    c.on_event(InputEvent::PointerMotion { dx: 100, dy: 0 });
    assert!(c.grabbed());
    assert_eq!(c.release(), Some(Action::Leave));
    assert!(!c.grabbed());
    assert_eq!(c.position(), Point::new(960, 540));
}

#[test]
fn outer_edges_are_sticky() {
    let (a, _b, vd) = two_machines();
    let mut c = Controller::new(vd, a, Point::new(10, 10));
    assert_eq!(c.on_event(InputEvent::PointerMotion { dx: -500, dy: -500 }), vec![Action::PassThrough]);
    assert_eq!(c.position(), Point::new(0, 0));
}

#[test]
fn switch_without_a_peer_passes_through() {
    let a = dev(1);
    let vd = VirtualDesktop::new(vec![mon(a, 0, 0)]);
    let mut c = Controller::new(vd, a, Point::new(10, 10)).with_input_config(&policy(0));
    let mods = Modifiers::ctrl() | Modifiers::alt();
    let acts = c.on_event(InputEvent::Key { code: KeyCode(48), pressed: true, mods });
    assert_eq!(acts, vec![Action::PassThrough]);
    assert!(!c.grabbed());
}

#[test]
fn hands_off_at_machine_boundary() {
    let (lin, win, vd) = two_machine_layout();
    let mut fm = FocusMachine::new(lin, vd, true, 0);
    // Start near the right edge of the Linux machine's second monitor.
    fm.on_motion(3800, 500, Modifiers::empty()); // move into Lin m1
    let action = fm.on_motion(100, 0, Modifiers::empty()); // cross into Win
    match action {
        FocusAction::HandOff { to, .. } => assert_eq!(to, win),
        other => panic!("expected hand-off, got {other:?}"),
    }
    assert_eq!(fm.role(), Role::Idle);
}

#[test]
fn edge_resistance_delays_handoff() {
    let (lin, _win, vd) = two_machine_layout();
    let mut fm = FocusMachine::new(lin, vd, true, 50);
    fm.on_motion(3839, 500, Modifiers::empty()); // sit at far right of Lin
    // A small nudge across the boundary should be resisted first.
    let a = fm.on_motion(10, 0, Modifiers::empty());
    assert!(matches!(a, FocusAction::MoveLocal(_)));
    assert_eq!(fm.role(), Role::Active);
}

#[test]
fn idle_machine_ignores_motion_until_enter() {
    let (lin, _win, vd) = two_machine_layout();
    let mut fm = FocusMachine::new(lin, vd, false, 0);
    assert_eq!(fm.on_motion(10, 10, Modifiers::empty()), FocusAction::Nothing);
    let a = fm.on_enter(Point::new(100, 100));
    assert!(matches!(a, FocusAction::Take { .. }));
    assert_eq!(fm.role(), Role::Active);
}

#[test]
fn motions_are_answered_by_where_the_cursor_is() {
    let (a, _b, vd) = two_machines();
    let mut c = Controller::new(vd, a, Point::new(1900, 500));
    assert!(matches!(c.on_motion(5, 0)[..], [Action::PassThrough]));
    match c.on_motion(100, 0)[..] {
        [Action::Enter { at, .. }] => assert_eq!((at, c.position()), (Point::new(1920, 500), at)),
        _ => panic!("not entered"),
    }
    assert!(c.grabbed());
    let moved = c.on_motion(3, 4);
    let same = |e: &InputEvent| matches!(e, InputEvent::PointerMotion { dx: 3, dy: 4 });
    assert!(matches!(&moved[..], [Action::Forward(e)] if same(e)));
    assert!(matches!(c.on_motion(-300, 0)[..], [Action::Leave]));
    assert!(!c.grabbed());
    assert!(c.can_take(&InputEvent::PointerMotion { dx: i32::MIN, dy: 0 }));
    assert!(!c.can_take(&InputEvent::PointerMotion { dx: i32::MAX, dy: 0 }));
    assert!(!c.can_take(&InputEvent::PointerPosition { at: Point::new(i32::MIN, 0) }));
}

#[test]
fn a_locked_machine_keeps_the_cursor() {
    let (lin, _win, vd) = two_machine_layout();
    let mut fm = FocusMachine::new(lin, vd, true, 0);
    fm.on_motion(3800, 500, Modifiers::empty());
    fm.toggle_lock();
    assert_eq!(fm.on_motion(100, 0, Modifiers::empty()), FocusAction::MoveLocal(Point::new(3839, 500)));
    assert_eq!(fm.cursor(), Point::new(3839, 500));
    fm.toggle_lock();
    assert!(matches!(fm.on_motion(100, 0, Modifiers::empty()), FocusAction::HandOff { .. }));
}

#[test]
fn forced_switch_goes_only_to_others() {
    let (lin, win, vd) = two_machine_layout();
    let mut fm = FocusMachine::new(lin, vd.clone(), true, 0);
    let entry = Point::new(4000, 10);
    assert_eq!(fm.force_switch(lin, entry, Modifiers::empty()), FocusAction::Nothing);
    assert_eq!(
        fm.force_switch(win, entry, Modifiers::shift()),
        FocusAction::HandOff { to: win, entry, mods: Modifiers::shift() }
    );
    assert_eq!(fm.force_switch(win, entry, Modifiers::empty()), FocusAction::Nothing);
    fm.on_enter(entry);
    fm.on_leave();
    assert_eq!(fm.role(), Role::Idle);
    fm.set_layout(vd);
}

#[test]
fn parses_modifier_combo() {
    let h = Hotkey::parse("Ctrl+Alt+S").unwrap();
    assert!(h.mods.contains(Modifiers::ctrl()));
    assert!(h.mods.contains(Modifiers::alt()));
    // 's' is the 19th letter (0-indexed 18) after 'a' == 30.
    assert_eq!(h.code, KeyCode(30 + 18));
}

#[test]
fn matcher_requires_all_mods() {
    let h = Hotkey::parse("Ctrl+Alt+S").unwrap();
    assert!(h.matches(KeyCode(48), Modifiers::ctrl() | Modifiers::alt()));
    assert!(!h.matches(KeyCode(48), Modifiers::ctrl()));
}

#[test]
fn hotkey_words_and_errors() {
    let h = Hotkey::parse(" super + SHIFT ++ Escape ").unwrap();
    assert_eq!(h.mods, Modifiers::meta() | Modifiers::shift());
    assert_eq!(h.code, KeyCode(1));
    assert_eq!(Hotkey::parse("control+space").unwrap().code, KeyCode(57));
    assert_eq!(Hotkey::parse("f12").unwrap().code, KeyCode(88));
    assert!(matches!(Hotkey::parse("ctrl+alt"), Err(HotkeyParseError::Empty)));
    assert!(matches!(Hotkey::parse(""), Err(HotkeyParseError::Empty)));
    match Hotkey::parse("Ctrl+Foo+S") {
        Err(HotkeyParseError::UnknownKey(w)) => assert_eq!(w, "foo"),
        other => panic!("expected an unknown key, got {other:?}"),
    }
}

#[test]
fn modifiers_are_a_set() {
    let mut m = Modifiers::empty();
    m.insert(Modifiers::ctrl());
    m.set(Modifiers::caps(), true);
    assert!(m.contains(Modifiers::ctrl()) && m.contains(Modifiers::caps()));
    m.remove(Modifiers::ctrl());
    assert!(!m.contains(Modifiers::ctrl()));
    m.set(Modifiers::caps(), false);
    assert_eq!(m, Modifiers::default());
    assert_eq!(Modifiers::num(), Modifiers(32));
}
