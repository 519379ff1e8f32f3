//! Input devices of Linux: what a device reports becomes an event, and an event
//! becomes what a virtual device is told.

use crate::input::{Button, InputEvent, KeyCode, Modifiers, ScrollAxis};
use vstd::prelude::*;

verus! {

/// Why input cannot be captured or injected.
#[derive(Debug)]
pub enum InputError {
    NoBackend,
    Permission(String),
    Backend(String),
}

/// How input is captured and injected on a machine.
#[derive(Clone, Copy, Debug, PartialEq, Eq, Structural)]
pub enum Backend {
    Null,
    LinuxLibei,
    LinuxX11,
    LinuxEvdev,
    WindowsHooks,
}

/// The backend of a machine with support for its system built in; without, there
/// is nothing to capture or inject.
pub fn detect(linux: bool, windows: bool) -> (b: Backend)
    ensures
        b == if linux {
            Backend::LinuxEvdev
        } else if windows {
            Backend::WindowsHooks
        } else {
            Backend::Null
        },
{
    if linux {
        Backend::LinuxEvdev
    } else if windows {
        Backend::WindowsHooks
    } else {
        Backend::Null
    }
}

/// The kinds of report that matter here.
pub const EV_KEY: u16 = 1;

pub const EV_REL: u16 = 2;

/// Relative axes.
pub const REL_X: u16 = 0;

pub const REL_Y: u16 = 1;

pub const REL_HWHEEL: u16 = 6;

pub const REL_WHEEL: u16 = 8;

/// Mouse buttons, which report as keys.
pub const BTN_LEFT: u16 = 0x110;

pub const BTN_RIGHT: u16 = 0x111;

pub const BTN_MIDDLE: u16 = 0x112;

pub const BTN_SIDE: u16 = 0x113;

pub const BTN_EXTRA: u16 = 0x114;

/// One report of a device: its kind, which key or axis, and the value.
#[derive(Clone, Copy, Debug, PartialEq, Eq, Structural)]
pub struct Report {
    pub kind: u16,
    pub code: u16,
    pub value: i32,
}

/// The button that a key code stands for.
pub open spec fn button_of(code: u16) -> Option<Button> {
    if code == BTN_LEFT {
        Some(Button::Left)
    } else if code == BTN_RIGHT {
        Some(Button::Right)
    } else if code == BTN_MIDDLE {
        Some(Button::Middle)
    } else if code == BTN_SIDE {
        Some(Button::Back)
    } else if code == BTN_EXTRA {
        Some(Button::Forward)
    } else {
        None
    }
}

/// The button that a key code stands for.
pub fn button_from(code: u16) -> (r: Option<Button>)
    ensures
        r == button_of(code),
{
    if code == BTN_LEFT {
        Some(Button::Left)
    } else if code == BTN_RIGHT {
        Some(Button::Right)
    } else if code == BTN_MIDDLE {
        Some(Button::Middle)
    } else if code == BTN_SIDE {
        Some(Button::Back)
    } else if code == BTN_EXTRA {
        Some(Button::Forward)
    } else {
        None
    }
}

/// The key code of a button; an extra button counts as the left one.
pub open spec fn code_of(button: Button) -> u16 {
    match button {
        Button::Left => BTN_LEFT,
        Button::Right => BTN_RIGHT,
        Button::Middle => BTN_MIDDLE,
        Button::Back => BTN_SIDE,
        Button::Forward => BTN_EXTRA,
        Button::Other(_) => BTN_LEFT,
    }
}

/// The key code of a button; an extra button counts as the left one.
pub fn button_key(button: Button) -> (code: u16)
    ensures
        code == code_of(button),
{
    match button {
        Button::Left => BTN_LEFT,
        Button::Right => BTN_RIGHT,
        Button::Middle => BTN_MIDDLE,
        Button::Back => BTN_SIDE,
        Button::Forward => BTN_EXTRA,
        Button::Other(_) => BTN_LEFT,
    }
}

/// The event that a report means. A key reports 1 when it goes down, 2 when it
/// repeats and 0 when it goes up.
pub open spec fn meaning(r: Report) -> Option<InputEvent> {
    if r.kind == EV_REL {
        if r.code == REL_X {
            Some(InputEvent::PointerMotion { dx: r.value, dy: 0 })
        } else if r.code == REL_Y {
            Some(InputEvent::PointerMotion { dx: 0, dy: r.value })
        } else if r.code == REL_WHEEL {
            Some(InputEvent::Scroll { axis: ScrollAxis::Vertical, delta: r.value, hi_res: 0 })
        } else if r.code == REL_HWHEEL {
            Some(InputEvent::Scroll { axis: ScrollAxis::Horizontal, delta: r.value, hi_res: 0 })
        } else {
            None
        }
    } else if r.kind == EV_KEY {
        match button_of(r.code) {
            Some(button) => Some(InputEvent::Button { button, pressed: r.value != 0 }),
            None => Some(
                InputEvent::Key {
                    code: KeyCode(r.code as u32),
                    pressed: r.value != 0,
                    mods: Modifiers(0),
                },
            ),
        }
    } else {
        None
    }
}

/// The event that a report means, or none.
pub fn translate(r: Report) -> (e: Option<InputEvent>)
    ensures
        e == meaning(r),
{
    if r.kind == EV_REL {
        if r.code == REL_X {
            Some(InputEvent::PointerMotion { dx: r.value, dy: 0 })
        } else if r.code == REL_Y {
            Some(InputEvent::PointerMotion { dx: 0, dy: r.value })
        } else if r.code == REL_WHEEL {
            Some(InputEvent::Scroll { axis: ScrollAxis::Vertical, delta: r.value, hi_res: 0 })
        } else if r.code == REL_HWHEEL {
            Some(InputEvent::Scroll { axis: ScrollAxis::Horizontal, delta: r.value, hi_res: 0 })
        } else {
            None
        }
    } else if r.kind == EV_KEY {
        let pressed = r.value != 0;
        match button_from(r.code) {
            Some(button) => Some(InputEvent::Button { button, pressed }),
            None => Some(
                InputEvent::Key { code: KeyCode(r.code as u32), pressed, mods: Modifiers::empty() },
            ),
        }
    } else {
        None
    }
}

/// The modifier that a key is; the left and the right key count as one.
pub open spec fn modifier_of(code: u32) -> Option<Modifiers> {
    if code == 29 || code == 97 {
        Some(Modifiers(crate::input::CTRL))
    } else if code == 42 || code == 54 {
        Some(Modifiers(crate::input::SHIFT))
    } else if code == 56 || code == 100 {
        Some(Modifiers(crate::input::ALT))
    } else if code == 125 || code == 126 {
        Some(Modifiers(crate::input::META))
    } else {
        None
    }
}

/// The modifier that a key is, or none.
pub fn modifier_bit(code: u32) -> (r: Option<Modifiers>)
    ensures
        r == modifier_of(code),
{
    match code {
        29 | 97 => Some(Modifiers::ctrl()),
        42 | 54 => Some(Modifiers::shift()),
        56 | 100 => Some(Modifiers::alt()),
        125 | 126 => Some(Modifiers::meta()),
        _ => None,
    }
}

/// The modifiers that are held after an event.
pub open spec fn held_after(held: Modifiers, e: InputEvent) -> Modifiers {
    match e {
        InputEvent::Key { code, pressed, mods } => match modifier_of(code.0) {
            Some(bit) => if pressed {
                held.with(bit)
            } else {
                held.without(bit)
            },
            None => held,
        },
        _ => held,
    }
}

/// The event with the modifiers that are held stamped on it, where it is one of a key.
pub open spec fn stamped(e: InputEvent, held: Modifiers) -> InputEvent {
    match e {
        InputEvent::Key { code, pressed, mods } => InputEvent::Key { code, pressed, mods: held },
        _ => e,
    }
}

/// Keeps count of the modifiers that are held, and stamps them on a key event.
/// Other events stay as they are.
pub fn stamp_mods(e: InputEvent, held: &mut Modifiers) -> (r: InputEvent)
    ensures
        *final(held) == held_after(*old(held), e),
        r == stamped(e, *final(held)),
{
    match e {
        InputEvent::Key { code, pressed, mods } => {
            if let Some(bit) = modifier_bit(code.0) {
                held.set(bit, pressed);
            }
            InputEvent::Key { code, pressed, mods: *held }
        },
        _ => e,
    }
}

/// Whether a device is told to grab or to release, given whether it is grabbed.
pub fn grab_change(grabbed: bool, want: bool) -> (r: Option<bool>)
    ensures
        r == if want != grabbed {
            Some(want)
        } else {
            None
        },
{
    if want != grabbed {
        Some(want)
    } else {
        None
    }
}

/// One for a press and zero for a release.
pub open spec fn key_value(pressed: bool) -> i32 {
    if pressed {
        1
    } else {
        0
    }
}

/// The axis of a wheel.
pub open spec fn wheel(axis: ScrollAxis) -> u16 {
    match axis {
        ScrollAxis::Vertical => REL_WHEEL,
        ScrollAxis::Horizontal => REL_HWHEEL,
    }
}

/// The reports that have a virtual device do what an event says. The lower
/// sixteen bits of a key code count. A device that moves relatively has no way to
/// go to a position.
pub open spec fn reports(e: InputEvent) -> Seq<Report> {
    match e {
        InputEvent::PointerMotion { dx, dy } => seq![
            Report { kind: EV_REL, code: REL_X, value: dx },
            Report { kind: EV_REL, code: REL_Y, value: dy },
        ],
        InputEvent::Button { button, pressed } => seq![
            Report { kind: EV_KEY, code: code_of(button), value: key_value(pressed) },
        ],
        InputEvent::Key { code, pressed, mods } => seq![
            Report { kind: EV_KEY, code: (code.0 % 65536) as u16, value: key_value(pressed) },
        ],
        InputEvent::Scroll { axis, delta, hi_res } => seq![
            Report { kind: EV_REL, code: wheel(axis), value: delta },
        ],
        InputEvent::PointerPosition { at } => seq![],
    }
}

/// The reports that have a virtual device do what an event says.
pub fn to_evdev(e: InputEvent) -> (v: Vec<Report>)
    ensures
        v@ == reports(e),
{
    match e {
        InputEvent::PointerMotion { dx, dy } => vec![
            Report { kind: EV_REL, code: REL_X, value: dx },
            Report { kind: EV_REL, code: REL_Y, value: dy },
        ],
        InputEvent::Button { button, pressed } => {
            let value: i32 = if pressed {
                1
            } else {
                0
            };
            vec![Report { kind: EV_KEY, code: button_key(button), value }]
        },
        InputEvent::Key { code, pressed, .. } => {
            let value: i32 = if pressed {
                1
            } else {
                0
            };
            vec![Report { kind: EV_KEY, code: (code.0 % 65536) as u16, value }]
        },
        InputEvent::Scroll { axis, delta, .. } => {
            let code: u16 = match axis {
                ScrollAxis::Vertical => REL_WHEEL,
                ScrollAxis::Horizontal => REL_HWHEEL,
            };
            vec![Report { kind: EV_REL, code, value: delta }]
        },
        InputEvent::PointerPosition { .. } => Vec::new(),
    }
}

/// The reports that let go of the buttons that may be held.
pub fn release_reports() -> (v: Vec<Report>)
    ensures
        v@ == seq![
            Report { kind: EV_KEY, code: BTN_LEFT, value: 0 },
            Report { kind: EV_KEY, code: BTN_RIGHT, value: 0 },
            Report { kind: EV_KEY, code: BTN_MIDDLE, value: 0 },
        ],
{
    vec![
        Report { kind: EV_KEY, code: BTN_LEFT, value: 0 },
        Report { kind: EV_KEY, code: BTN_RIGHT, value: 0 },
        Report { kind: EV_KEY, code: BTN_MIDDLE, value: 0 },
    ]
}

/// The keys and buttons that the virtual device has: the key codes from 1 to 255,
/// and the five mouse buttons.
pub fn virtual_keys() -> (v: Vec<u16>)
    ensures
        v@.len() == 260,
        forall|i: int| 0 <= i < 255 ==> v@[i] == i + 1,
        v@.subrange(255, 260) == seq![BTN_LEFT, BTN_RIGHT, BTN_MIDDLE, BTN_SIDE, BTN_EXTRA],
{
    let mut v: Vec<u16> = Vec::new();
    let mut c: u16 = 1;
    while c <= 255
        invariant
            1 <= c <= 256,
            v@.len() == c - 1,
            forall|i: int| 0 <= i < v@.len() ==> v@[i] == i + 1,
        decreases 256 - c,
    {
        v.push(c);
        c = c + 1;
    }
    v.push(BTN_LEFT);
    v.push(BTN_RIGHT);
    v.push(BTN_MIDDLE);
    v.push(BTN_SIDE);
    v.push(BTN_EXTRA);
    v
}

/// A button that a virtual device is told to press is captured as that button,
/// and no two of the five are confused.
pub proof fn law_buttons_read_back(button: Button, pressed: bool)
    requires
        !(button is Other),
    ensures
        reports(InputEvent::Button { button, pressed }).len() == 1,
        meaning(reports(InputEvent::Button { button, pressed })[0]) == Some(
            InputEvent::Button { button, pressed },
        ),
{
}

/// What a virtual device is told of a key is captured as that key, going the same
/// way; the modifiers are stamped on later. The codes of the mouse buttons are
/// buttons, and a code takes sixteen bits.
pub proof fn law_keys_read_back(code: KeyCode, pressed: bool, mods: Modifiers)
    requires
        code.0 < 65536,
        button_of(code.0 as u16) is None,
    ensures
        reports(InputEvent::Key { code, pressed, mods }).len() == 1,
        meaning(reports(InputEvent::Key { code, pressed, mods })[0]) == Some(
            InputEvent::Key { code, pressed, mods: Modifiers(0) },
        ),
{
}

/// What a virtual device is told of the wheel is captured as the same turn.
pub proof fn law_turns_read_back(axis: ScrollAxis, delta: i32, hi_res: i32)
    ensures
        reports(InputEvent::Scroll { axis, delta, hi_res }).len() == 1,
        meaning(reports(InputEvent::Scroll { axis, delta, hi_res })[0]) == Some(
            InputEvent::Scroll { axis, delta, hi_res: 0 },
        ),
{
}

/// A motion is told axis by axis, and the parts add up to it.
pub proof fn law_motions_add_up(dx: i32, dy: i32)
    ensures
        ({
            let rs = reports(InputEvent::PointerMotion { dx, dy });
            &&& rs.len() == 2
            &&& meaning(rs[0]) == Some(InputEvent::PointerMotion { dx, dy: 0 })
            &&& meaning(rs[1]) == Some(InputEvent::PointerMotion { dx: 0, dy })
        }),
{
}

/// A modifier key that goes down is held after it, and one that goes up is not.
pub proof fn law_modifier_keys_are_tracked(held: Modifiers, code: KeyCode, mods: Modifiers)
    requires
        modifier_of(code.0) is Some,
    ensures
        held_after(held, InputEvent::Key { code, pressed: true, mods }).has(
            modifier_of(code.0).unwrap(),
        ),
        !held_after(held, InputEvent::Key { code, pressed: false, mods }).has(
            modifier_of(code.0).unwrap(),
        ),
{
    let h: u16 = held.0;
    let b: u16 = modifier_of(code.0).unwrap().0;
    assert((h | b) & b == b) by (bit_vector);
    assert((h & !b) & b == 0) by (bit_vector);
}

/// What Linux reports is taken for what it is, by the numbers of its input protocol:
/// relative motion along the first axis goes right and along the second down, the ninth
/// axis is the wheel and the seventh the one that tilts, and a key is down unless it
/// reports zero. Reports of any other kind mean nothing.
pub proof fn law_reports_are_read_by_their_numbers(code: u16, value: i32, kind: u16)
    ensures
        meaning(Report { kind: 2, code: 0, value }) == Some(
            InputEvent::PointerMotion { dx: value, dy: 0 },
        ),
        meaning(Report { kind: 2, code: 1, value }) == Some(
            InputEvent::PointerMotion { dx: 0, dy: value },
        ),
        meaning(Report { kind: 2, code: 8, value }) == Some(
            InputEvent::Scroll { axis: ScrollAxis::Vertical, delta: value, hi_res: 0 },
        ),
        meaning(Report { kind: 2, code: 6, value }) == Some(
            InputEvent::Scroll { axis: ScrollAxis::Horizontal, delta: value, hi_res: 0 },
        ),
        code != 0 && code != 1 && code != 8 && code != 6 ==> meaning(Report { kind: 2, code, value })
            is None,
        code < 0x110 || code > 0x114 ==> meaning(Report { kind: 1, code, value }) == Some(
            InputEvent::Key {
                code: KeyCode(code as u32),
                pressed: value != 0,
                mods: Modifiers(0),
            },
        ),
        0x110 <= code <= 0x114 ==> (meaning(Report { kind: 1, code, value }) matches Some(
            InputEvent::Button { pressed, .. },
        ) && pressed == (value != 0)),
        kind != 1 && kind != 2 ==> meaning(Report { kind, code, value }) is None,
{
}

/// The five buttons of a mouse, by their codes.
pub proof fn law_buttons_have_their_codes(code: u16, button: Button)
    ensures
        button_of(code) == Some(Button::Left) <==> code == 0x110,
        button_of(code) == Some(Button::Right) <==> code == 0x111,
        button_of(code) == Some(Button::Middle) <==> code == 0x112,
        button_of(code) == Some(Button::Back) <==> code == 0x113,
        button_of(code) == Some(Button::Forward) <==> code == 0x114,
        !(button is Other) ==> button_of(code_of(button)) == Some(button),
        button is Other ==> code_of(button) == 0x110,
{
}

/// A key is a modifier exactly where it is one of the two keys of that name.
pub proof fn law_modifier_keys_by_name(code: u32)
    ensures
        modifier_of(code) == Some(Modifiers(crate::input::CTRL)) <==> code
            == crate::keymap::KEY_LEFTCTRL || code == crate::keymap::KEY_RIGHTCTRL,
        modifier_of(code) == Some(Modifiers(crate::input::SHIFT)) <==> code
            == crate::keymap::KEY_LEFTSHIFT || code == crate::keymap::KEY_RIGHTSHIFT,
        modifier_of(code) == Some(Modifiers(crate::input::ALT)) <==> code
            == crate::keymap::KEY_LEFTALT || code == crate::keymap::KEY_RIGHTALT,
        modifier_of(code) == Some(Modifiers(crate::input::META)) <==> code
            == crate::keymap::KEY_LEFTMETA || code == crate::keymap::KEY_RIGHTMETA,
        modifier_of(code) matches Some(m) ==> m.0 == crate::input::CTRL || m.0
            == crate::input::SHIFT || m.0 == crate::input::ALT || m.0 == crate::input::META,
{
}

/// A key event carries the modifiers that are held once it has happened, and is
/// otherwise as it was; every other event is left as it is and changes no modifier.
pub proof fn law_keys_carry_the_held_modifiers(held: Modifiers, e: InputEvent, other: Modifiers)
    ensures
        e matches InputEvent::Key { code, pressed, mods } ==> stamped(e, held_after(held, e))
            == (InputEvent::Key { code, pressed, mods: held_after(held, e) }),
        !(e is Key) ==> stamped(e, other) == e && held_after(held, e) == held,
        e matches InputEvent::Key { code, pressed, .. } ==> match modifier_of(code.0) {
            Some(bit) => held_after(held, e) == if pressed {
                Modifiers(held.0 | bit.0)
            } else {
                Modifiers(held.0 & !bit.0)
            },
            None => held_after(held, e) == held,
        },
{
}

/// A virtual device is told of an event by the numbers of the input protocol.
pub proof fn law_events_are_told_by_their_numbers(
    dx: i32,
    dy: i32,
    code: KeyCode,
    pressed: bool,
    mods: Modifiers,
    delta: i32,
    hi_res: i32,
)
    requires
        code.0 < 65536,
    ensures
        ({
            let moved = reports(InputEvent::PointerMotion { dx, dy });
            let key = reports(InputEvent::Key { code, pressed, mods });
            let turn = reports(
                InputEvent::Scroll { axis: ScrollAxis::Vertical, delta, hi_res },
            );
            let tilt = reports(
                InputEvent::Scroll { axis: ScrollAxis::Horizontal, delta, hi_res },
            );
            &&& moved.len() == 2 && moved[0] == (Report { kind: 2, code: 0, value: dx }) && moved[1]
                == (Report { kind: 2, code: 1, value: dy })
            &&& key.len() == 1 && key[0].kind == 1 && key[0].code == code.0 && (key[0].value == 1
                <==> pressed) && (key[0].value == 0 <==> !pressed)
            &&& turn.len() == 1 && turn[0] == (Report { kind: 2, code: 8, value: delta })
            &&& tilt.len() == 1 && tilt[0] == (Report { kind: 2, code: 6, value: delta })
        }),
{
}

} // verus!
