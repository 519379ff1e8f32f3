//! Input on Windows: what the low-level hooks see becomes an event, and an event
//! becomes what the system is asked to inject.

use crate::geometry::Point;
use crate::input::{Button, InputEvent, KeyCode, Modifiers, ScrollAxis};
use crate::keymap::{evdev_to_vk, same_key, vk_to_evdev};
use crate::layout::is_i32;
use vstd::prelude::*;

verus! {

/// Messages of the mouse hook.
pub const WM_MOUSEMOVE: u32 = 0x200;

pub const WM_LBUTTONDOWN: u32 = 0x201;

pub const WM_LBUTTONUP: u32 = 0x202;

pub const WM_RBUTTONDOWN: u32 = 0x204;

pub const WM_RBUTTONUP: u32 = 0x205;

pub const WM_MBUTTONDOWN: u32 = 0x207;

pub const WM_MBUTTONUP: u32 = 0x208;

pub const WM_MOUSEWHEEL: u32 = 0x20a;

pub const WM_XBUTTONDOWN: u32 = 0x20b;

pub const WM_XBUTTONUP: u32 = 0x20c;

pub const WM_MOUSEHWHEEL: u32 = 0x20e;

/// Messages of the keyboard hook.
pub const WM_KEYDOWN: u32 = 0x100;

pub const WM_KEYUP: u32 = 0x101;

pub const WM_SYSKEYDOWN: u32 = 0x104;

pub const WM_SYSKEYUP: u32 = 0x105;

/// What a mouse is asked to do.
pub const MOUSEEVENTF_MOVE: u32 = 0x1;

pub const MOUSEEVENTF_LEFTDOWN: u32 = 0x2;

pub const MOUSEEVENTF_LEFTUP: u32 = 0x4;

pub const MOUSEEVENTF_RIGHTDOWN: u32 = 0x8;

pub const MOUSEEVENTF_RIGHTUP: u32 = 0x10;

pub const MOUSEEVENTF_MIDDLEDOWN: u32 = 0x20;

pub const MOUSEEVENTF_MIDDLEUP: u32 = 0x40;

pub const MOUSEEVENTF_XDOWN: u32 = 0x80;

pub const MOUSEEVENTF_XUP: u32 = 0x100;

pub const MOUSEEVENTF_WHEEL: u32 = 0x800;

pub const MOUSEEVENTF_HWHEEL: u32 = 0x1000;

/// Move, absolutely, over the whole desktop.
pub const WARP_FLAGS: u32 = 0xc001;

/// One notch of a wheel.
pub const WHEEL_DELTA: i32 = 120;

pub const XBUTTON1: u32 = 1;

pub const XBUTTON2: u32 = 2;

/// The upper half of the mouse data.
pub open spec fn high_word(data: u32) -> int {
    data as int / 65536
}

/// The upper half of the mouse data with its sign.
pub open spec fn wheel_amount(data: u32) -> int {
    if high_word(data) < 32768 {
        high_word(data)
    } else {
        high_word(data) - 65536
    }
}

/// The whole notches of a turn, rounded towards none.
pub open spec fn notches(amount: int) -> int {
    if amount >= 0 {
        amount / 120
    } else {
        -((-amount) / 120)
    }
}

/// The event of a button or a wheel that a mouse message means.
pub open spec fn mouse_meaning(msg: u32, data: u32) -> Option<InputEvent> {
    if msg == WM_LBUTTONDOWN || msg == WM_LBUTTONUP {
        Some(InputEvent::Button { button: Button::Left, pressed: msg == WM_LBUTTONDOWN })
    } else if msg == WM_RBUTTONDOWN || msg == WM_RBUTTONUP {
        Some(InputEvent::Button { button: Button::Right, pressed: msg == WM_RBUTTONDOWN })
    } else if msg == WM_MBUTTONDOWN || msg == WM_MBUTTONUP {
        Some(InputEvent::Button { button: Button::Middle, pressed: msg == WM_MBUTTONDOWN })
    } else if msg == WM_XBUTTONDOWN || msg == WM_XBUTTONUP {
        Some(
            InputEvent::Button {
                button: if high_word(data) == XBUTTON1 {
                    Button::Back
                } else {
                    Button::Forward
                },
                pressed: msg == WM_XBUTTONDOWN,
            },
        )
    } else if msg == WM_MOUSEWHEEL || msg == WM_MOUSEHWHEEL {
        Some(
            InputEvent::Scroll {
                axis: if msg == WM_MOUSEWHEEL {
                    ScrollAxis::Vertical
                } else {
                    ScrollAxis::Horizontal
                },
                delta: notches(wheel_amount(data)) as i32,
                hi_res: wheel_amount(data) as i32,
            },
        )
    } else {
        None
    }
}

/// The event of a button or a wheel that a mouse message means, or none.
pub fn mouse_event(msg: u32, data: u32) -> (e: Option<InputEvent>)
    ensures
        e == mouse_meaning(msg, data),
{
    let high: u32 = data / 65536;
    if msg == WM_LBUTTONDOWN || msg == WM_LBUTTONUP {
        Some(InputEvent::Button { button: Button::Left, pressed: msg == WM_LBUTTONDOWN })
    } else if msg == WM_RBUTTONDOWN || msg == WM_RBUTTONUP {
        Some(InputEvent::Button { button: Button::Right, pressed: msg == WM_RBUTTONDOWN })
    } else if msg == WM_MBUTTONDOWN || msg == WM_MBUTTONUP {
        Some(InputEvent::Button { button: Button::Middle, pressed: msg == WM_MBUTTONDOWN })
    } else if msg == WM_XBUTTONDOWN || msg == WM_XBUTTONUP {
        let button = if high == XBUTTON1 {
            Button::Back
        } else {
            Button::Forward
        };
        Some(InputEvent::Button { button, pressed: msg == WM_XBUTTONDOWN })
    } else if msg == WM_MOUSEWHEEL || msg == WM_MOUSEHWHEEL {
        let axis = if msg == WM_MOUSEWHEEL {
            ScrollAxis::Vertical
        } else {
            ScrollAxis::Horizontal
        };
        let raw: i32 = if high < 32768 {
            high as i32
        } else {
            high as i32 - 65536
        };
        let delta: i32 = if raw >= 0 {
            raw / WHEEL_DELTA
        } else {
            -((-raw) / WHEEL_DELTA)
        };
        Some(InputEvent::Scroll { axis, delta, hi_res: raw })
    } else {
        None
    }
}

/// What the hooks remember: whether input is held back, the point that the
/// pointer is put back to while it is, and where it was seen last.
#[derive(Clone, Copy, Debug, PartialEq, Eq, Structural)]
pub struct HookState {
    pub grabbed: bool,
    pub center: Point,
    pub last: Point,
}

/// What a hook does about a message: the event to report, where to put the
/// pointer, and whether the message is kept from the applications.
#[derive(Clone, Copy, Debug, PartialEq, Structural)]
pub struct Verdict {
    pub event: Option<InputEvent>,
    pub recenter: Option<Point>,
    pub swallow: bool,
}

/// What the keyboard hook reports of a message.
pub open spec fn is_key_event(
    msg: u32,
    vk: u16,
    mods: Modifiers,
    injected: bool,
    event: Option<InputEvent>,
) -> bool {
    let pressed = msg == WM_KEYDOWN || msg == WM_SYSKEYDOWN;
    let released = msg == WM_KEYUP || msg == WM_SYSKEYUP;
    match event {
        Some(e) => {
            &&& !injected && (pressed || released)
            &&& e matches InputEvent::Key { code, pressed: p, mods: m }
            &&& same_key(code.0, vk)
            &&& p == pressed
            &&& m == mods
        },
        None => injected || !(pressed || released) || (forall|code: u32|
            !same_key(code, vk)),
    }
}

impl HookState {
    /// The point from which a motion is measured.
    pub open spec fn anchor(self) -> Point {
        if self.grabbed {
            self.center
        } else {
            self.last
        }
    }

    /// What the mouse hook does. Injected input passes. While input is held back,
    /// the pointer is put back after each motion, and the message that this causes
    /// is dropped.
    pub open spec fn mouse(self, msg: u32, at: Point, data: u32, injected: bool) -> (
        HookState,
        Verdict,
    ) {
        let dx = (at.x - self.anchor().x) as i32;
        let dy = (at.y - self.anchor().y) as i32;
        if injected {
            (self, Verdict { event: None, recenter: None, swallow: false })
        } else if msg != WM_MOUSEMOVE {
            (
                self,
                Verdict { event: mouse_meaning(msg, data), recenter: None, swallow: self.grabbed },
            )
        } else if !self.grabbed {
            (
                HookState { last: at, ..self },
                Verdict {
                    event: Some(InputEvent::PointerMotion { dx, dy }),
                    recenter: None,
                    swallow: false,
                },
            )
        } else if dx == 0 && dy == 0 {
            (self, Verdict { event: None, recenter: None, swallow: true })
        } else {
            (
                self,
                Verdict {
                    event: Some(InputEvent::PointerMotion { dx, dy }),
                    recenter: Some(self.center),
                    swallow: true,
                },
            )
        }
    }

    /// What the mouse hook does about a message at `at`.
    pub fn on_mouse(&mut self, msg: u32, at: Point, data: u32, injected: bool) -> (v: Verdict)
        requires
            is_i32(at.x - old(self).anchor().x),
            is_i32(at.y - old(self).anchor().y),
        ensures
            (*final(self), v) == old(self).mouse(msg, at, data, injected),
    {
        if injected {
            return Verdict { event: None, recenter: None, swallow: false };
        }
        if msg != WM_MOUSEMOVE {
            return Verdict {
                event: mouse_event(msg, data),
                recenter: None,
                swallow: self.grabbed,
            };
        }
        if self.grabbed {
            let dx: i32 = at.x - self.center.x;
            let dy: i32 = at.y - self.center.y;
            if dx == 0 && dy == 0 {
                return Verdict { event: None, recenter: None, swallow: true };
            }
            Verdict {
                event: Some(InputEvent::PointerMotion { dx, dy }),
                recenter: Some(self.center),
                swallow: true,
            }
        } else {
            let dx: i32 = at.x - self.last.x;
            let dy: i32 = at.y - self.last.y;
            self.last = at;
            Verdict {
                event: Some(InputEvent::PointerMotion { dx, dy }),
                recenter: None,
                swallow: false,
            }
        }
    }

    /// What the keyboard hook does: a key that the table knows is reported, with
    /// the modifiers held. Injected keys pass.
    pub fn on_key(&self, msg: u32, vk: u16, mods: Modifiers, injected: bool) -> (v: Verdict)
        ensures
            v.recenter is None,
            v.swallow == (!injected && self.grabbed),
            is_key_event(msg, vk, mods, injected, v.event),
    {
        if injected {
            return Verdict { event: None, recenter: None, swallow: false };
        }
        let pressed = msg == WM_KEYDOWN || msg == WM_SYSKEYDOWN;
        let released = msg == WM_KEYUP || msg == WM_SYSKEYUP;
        let mut event: Option<InputEvent> = None;
        if pressed || released {
            if let Some(code) = vk_to_evdev(vk) {
                event = Some(InputEvent::Key { code: KeyCode(code), pressed, mods });
            }
        }
        Verdict { event, recenter: None, swallow: self.grabbed }
    }

    /// This comes of holding input back or letting it through.
    pub open spec fn holds_back(
        self,
        after: HookState,
        grabbed: bool,
        screen_w: i32,
        screen_h: i32,
        r: Option<Point>,
    ) -> bool {
        let middle = Point { x: (screen_w / 2) as i32, y: (screen_h / 2) as i32 };
        &&& after.grabbed == grabbed
        &&& after.last == self.last
        &&& if grabbed && !self.grabbed {
            after.center == middle && r == Some(middle)
        } else {
            after.center == self.center && r is None
        }
    }

    /// Holds input back, or lets it through again. When holding begins, motions
    /// are measured from the middle of the screen, where the pointer is to be put.
    pub fn set_grabbed(&mut self, grabbed: bool, screen_w: i32, screen_h: i32) -> (r: Option<Point>)
        requires
            screen_w >= 0,
            screen_h >= 0,
        ensures
            old(self).holds_back(*final(self), grabbed, screen_w, screen_h, r),
    {
        let begins = grabbed && !self.grabbed;
        self.grabbed = grabbed;
        if begins {
            let middle = Point { x: screen_w / 2, y: screen_h / 2 };
            self.center = middle;
            Some(middle)
        } else {
            None
        }
    }
}

/// The modifiers that are held, from the state of the keys.
pub fn current_mods(shift: bool, ctrl: bool, alt: bool, left_win: bool, right_win: bool) -> (m:
    Modifiers)
    ensures
        m.has(Modifiers(crate::input::SHIFT)) == shift,
        m.has(Modifiers(crate::input::CTRL)) == ctrl,
        m.has(Modifiers(crate::input::ALT)) == alt,
        m.has(Modifiers(crate::input::META)) == (left_win || right_win),
        !m.has(Modifiers(crate::input::CAPS)),
        !m.has(Modifiers(crate::input::NUM)),
{
    let mut m = Modifiers::empty();
    if shift {
        m.insert(Modifiers::shift());
    }
    if ctrl {
        m.insert(Modifiers::ctrl());
    }
    if alt {
        m.insert(Modifiers::alt());
    }
    if left_win || right_win {
        m.insert(Modifiers::meta());
    }
    proof {
        let a: u16 = if shift {
            1
        } else {
            0
        };
        let b: u16 = if ctrl {
            2
        } else {
            0
        };
        let c: u16 = if alt {
            4
        } else {
            0
        };
        let d: u16 = if left_win || right_win {
            8
        } else {
            0
        };
        assert(forall|x: u16| x | 0 == x) by (bit_vector);
        assert(m.0 == ((0u16 | a) | b) | c | d);
        let n: u16 = m.0;
        assert((n & 1 == 1) == (a == 1) && (n & 2 == 2) == (b == 2) && (n & 4 == 4) == (c == 4)
            && (n & 8 == 8) == (d == 8) && (n & 16 != 16) && (n & 32 != 32)) by (bit_vector)
            requires
                n == ((0u16 | a) | b) | c | d,
                a == 0 || a == 1,
                b == 0 || b == 2,
                c == 0 || c == 4,
                d == 0 || d == 8,
        ;
    }
    m
}

/// The flag and the data by which a button is pressed or let go; an extra button
/// counts as the left one.
pub open spec fn button_request(button: Button, pressed: bool) -> (u32, u32) {
    match button {
        Button::Left => (if pressed {
            MOUSEEVENTF_LEFTDOWN
        } else {
            MOUSEEVENTF_LEFTUP
        }, 0),
        Button::Right => (if pressed {
            MOUSEEVENTF_RIGHTDOWN
        } else {
            MOUSEEVENTF_RIGHTUP
        }, 0),
        Button::Middle => (if pressed {
            MOUSEEVENTF_MIDDLEDOWN
        } else {
            MOUSEEVENTF_MIDDLEUP
        }, 0),
        Button::Back => (if pressed {
            MOUSEEVENTF_XDOWN
        } else {
            MOUSEEVENTF_XUP
        }, XBUTTON1),
        Button::Forward => (if pressed {
            MOUSEEVENTF_XDOWN
        } else {
            MOUSEEVENTF_XUP
        }, XBUTTON2),
        Button::Other(_) => (if pressed {
            MOUSEEVENTF_LEFTDOWN
        } else {
            MOUSEEVENTF_LEFTUP
        }, 0),
    }
}

/// The flag and the data by which a button is pressed or let go.
pub fn button_flags(button: Button, pressed: bool) -> (r: (u32, u32))
    ensures
        r == button_request(button, pressed),
{
    match button {
        Button::Left | Button::Other(_) => if pressed {
            (MOUSEEVENTF_LEFTDOWN, 0)
        } else {
            (MOUSEEVENTF_LEFTUP, 0)
        },
        Button::Right => if pressed {
            (MOUSEEVENTF_RIGHTDOWN, 0)
        } else {
            (MOUSEEVENTF_RIGHTUP, 0)
        },
        Button::Middle => if pressed {
            (MOUSEEVENTF_MIDDLEDOWN, 0)
        } else {
            (MOUSEEVENTF_MIDDLEUP, 0)
        },
        Button::Back => if pressed {
            (MOUSEEVENTF_XDOWN, XBUTTON1)
        } else {
            (MOUSEEVENTF_XUP, XBUTTON1)
        },
        Button::Forward => if pressed {
            (MOUSEEVENTF_XDOWN, XBUTTON2)
        } else {
            (MOUSEEVENTF_XUP, XBUTTON2)
        },
    }
}

/// What the system is asked to inject.
#[derive(Clone, Copy, Debug, PartialEq, Eq, Structural)]
pub enum Injection {
    Nothing,
    Mouse { dx: i32, dy: i32, data: u32, flags: u32 },
    Key { vk: u16, up: bool },
}

/// How far a wheel turns: by the fine amount, where there is one, else by whole
/// notches.
pub open spec fn turn(delta: i32, hi_res: i32) -> int {
    if hi_res != 0 {
        hi_res as int
    } else {
        delta * 120
    }
}

/// A number as the system takes it in thirty-two bits.
pub open spec fn two_complement(n: int) -> int {
    if n >= 0 {
        n
    } else {
        n + 0x1_0000_0000
    }
}

/// The pointer is put at a place given in the units of the whole desktop.
pub fn warp(at: Point) -> (r: Injection)
    ensures
        r == (Injection::Mouse { dx: at.x, dy: at.y, data: 0, flags: WARP_FLAGS }),
{
    Injection::Mouse { dx: at.x, dy: at.y, data: 0, flags: WARP_FLAGS }
}

/// What the system is asked to do for an event is this.
pub open spec fn is_request(e: InputEvent, r: Injection) -> bool {
    match e {
        InputEvent::PointerMotion { dx, dy } => r == (Injection::Mouse {
            dx,
            dy,
            data: 0,
            flags: MOUSEEVENTF_MOVE,
        }),
        InputEvent::Button { button, pressed } => r == (Injection::Mouse {
            dx: 0,
            dy: 0,
            data: button_request(button, pressed).1,
            flags: button_request(button, pressed).0,
        }),
        InputEvent::Scroll { axis, delta, hi_res } => r == (Injection::Mouse {
            dx: 0,
            dy: 0,
            data: two_complement(turn(delta, hi_res)) as u32,
            flags: match axis {
                ScrollAxis::Vertical => MOUSEEVENTF_WHEEL,
                ScrollAxis::Horizontal => MOUSEEVENTF_HWHEEL,
            },
        }),
        InputEvent::Key { code, pressed, mods } => match r {
            Injection::Key { vk, up } => same_key(code.0, vk) && up == !pressed,
            Injection::Nothing => forall|vk: u16| !same_key(code.0, vk),
            Injection::Mouse { .. } => false,
        },
        InputEvent::PointerPosition { at } => r is Nothing,
    }
}

/// What the system is asked to do for an event. A key that the table does not
/// know is dropped, and so is a position.
pub fn injection(e: InputEvent) -> (r: Injection)
    requires
        e matches InputEvent::Scroll { axis, delta, hi_res } ==> is_i32(turn(delta, hi_res)),
    ensures
        is_request(e, r),
{
    match e {
        InputEvent::PointerMotion { dx, dy } => Injection::Mouse {
            dx,
            dy,
            data: 0,
            flags: MOUSEEVENTF_MOVE,
        },
        InputEvent::Button { button, pressed } => {
            let (flags, data) = button_flags(button, pressed);
            Injection::Mouse { dx: 0, dy: 0, data, flags }
        },
        InputEvent::Scroll { axis, delta, hi_res } => {
            let amount: i32 = if hi_res != 0 {
                hi_res
            } else {
                delta * WHEEL_DELTA
            };
            let data: u32 = if amount >= 0 {
                amount as u32
            } else {
                (amount as i64 + 0x1_0000_0000) as u32
            };
            let flags: u32 = match axis {
                ScrollAxis::Vertical => MOUSEEVENTF_WHEEL,
                ScrollAxis::Horizontal => MOUSEEVENTF_HWHEEL,
            };
            Injection::Mouse { dx: 0, dy: 0, data, flags }
        },
        InputEvent::Key { code, pressed, .. } => match evdev_to_vk(code.0) {
            Some(vk) => Injection::Key { vk, up: !pressed },
            None => Injection::Nothing,
        },
        InputEvent::PointerPosition { .. } => Injection::Nothing,
    }
}

/// What lets go of the buttons that may be held.
pub fn release_injections() -> (v: Vec<Injection>)
    ensures
        v@ == seq![
            Injection::Mouse { dx: 0, dy: 0, data: 0, flags: MOUSEEVENTF_LEFTUP },
            Injection::Mouse { dx: 0, dy: 0, data: 0, flags: MOUSEEVENTF_RIGHTUP },
            Injection::Mouse { dx: 0, dy: 0, data: 0, flags: MOUSEEVENTF_MIDDLEUP },
        ],
{
    vec![
        Injection::Mouse { dx: 0, dy: 0, data: 0, flags: MOUSEEVENTF_LEFTUP },
        Injection::Mouse { dx: 0, dy: 0, data: 0, flags: MOUSEEVENTF_RIGHTUP },
        Injection::Mouse { dx: 0, dy: 0, data: 0, flags: MOUSEEVENTF_MIDDLEUP },
    ]
}

/// What was injected is never captured again.
pub proof fn law_injected_input_is_not_captured(s: HookState, msg: u32, at: Point, data: u32)
    ensures
        s.mouse(msg, at, data, true) == (
            s,
            Verdict { event: None, recenter: None, swallow: false },
        ),
{
}

/// While input is held back no message of the mouse reaches the applications, and
/// otherwise each does.
pub proof fn law_the_grab_decides(s: HookState, msg: u32, at: Point, data: u32)
    ensures
        s.mouse(msg, at, data, false).1.swallow == s.grabbed,
        s.mouse(msg, at, data, false).0.grabbed == s.grabbed,
{
}

/// Putting the pointer back reports no motion.
pub proof fn law_recentring_is_silent(s: HookState, data: u32)
    requires
        s.grabbed,
    ensures
        s.mouse(WM_MOUSEMOVE, s.center, data, false).1.event is None,
        s.mouse(WM_MOUSEMOVE, s.center, data, false).1.recenter is None,
{
}

/// A turn of the wheel that one machine captures, another injects by the same
/// fine amount.
pub proof fn law_fine_turns_are_kept(data: u32)
    requires
        wheel_amount(data) != 0,
    ensures
        is_i32(wheel_amount(data)),
        turn(notches(wheel_amount(data)) as i32, wheel_amount(data) as i32) == wheel_amount(data),
{
}

/// Mouse messages are taken for what they are, by the numbers of the system: each button
/// has a message for going down and the next one for going up, the first extra button
/// goes back and the second forward, and the upper half of the data of a wheel is how far
/// it turned, away from the user counting upwards, with a notch at 120.
pub proof fn law_mouse_messages_are_read_by_their_numbers(msg: u32, data: u32)
    ensures
        mouse_meaning(0x201, data) == Some(InputEvent::Button { button: Button::Left, pressed: true }),
        mouse_meaning(0x202, data) == Some(
            InputEvent::Button { button: Button::Left, pressed: false },
        ),
        mouse_meaning(0x204, data) == Some(
            InputEvent::Button { button: Button::Right, pressed: true },
        ),
        mouse_meaning(0x205, data) == Some(
            InputEvent::Button { button: Button::Right, pressed: false },
        ),
        mouse_meaning(0x207, data) == Some(
            InputEvent::Button { button: Button::Middle, pressed: true },
        ),
        mouse_meaning(0x208, data) == Some(
            InputEvent::Button { button: Button::Middle, pressed: false },
        ),
        data / 0x1_0000 == 1 ==> mouse_meaning(0x20b, data) == Some(
            InputEvent::Button { button: Button::Back, pressed: true },
        ) && mouse_meaning(0x20c, data) == Some(
            InputEvent::Button { button: Button::Back, pressed: false },
        ),
        data / 0x1_0000 == 2 ==> mouse_meaning(0x20b, data) == Some(
            InputEvent::Button { button: Button::Forward, pressed: true },
        ) && mouse_meaning(0x20c, data) == Some(
            InputEvent::Button { button: Button::Forward, pressed: false },
        ),
        mouse_meaning(0x20a, data) matches Some(InputEvent::Scroll { axis, delta, hi_res }) && {
            &&& axis == ScrollAxis::Vertical
            &&& -0x8000 <= hi_res < 0x8000
            &&& (data / 0x1_0000 - hi_res) % 0x1_0000 == 0
            &&& hi_res >= 0 ==> 120 * delta <= hi_res < 120 * delta + 120
            &&& hi_res <= 0 ==> 120 * delta - 120 < hi_res <= 120 * delta
        },
        mouse_meaning(0x20e, data) matches Some(InputEvent::Scroll { axis, delta, hi_res }) && axis
            == ScrollAxis::Horizontal && mouse_meaning(0x20a, data) == Some(
            InputEvent::Scroll { axis: ScrollAxis::Vertical, delta, hi_res },
        ),
        mouse_meaning(msg, data) is Some ==> 0x201 <= msg <= 0x20e,
        mouse_meaning(0x200, data) is None,
{
}

/// A motion is how far the pointer went: from where it was seen last while input is let
/// through, and from the middle of the screen, to which it is put back, while input is
/// held back.
pub proof fn law_motions_are_measured_from_the_last_place(s: HookState, at: Point, next: Point, data: u32)
    requires
        is_i32(at.x - s.last.x) && is_i32(at.y - s.last.y),
        is_i32(next.x - at.x) && is_i32(next.y - at.y),
        is_i32(at.x - s.center.x) && is_i32(at.y - s.center.y),
    ensures
        ({
            let (n, v) = s.mouse(0x200, at, data, false);
            let (_, w) = n.mouse(0x200, next, data, false);
            &&& !s.grabbed ==> (v.event matches Some(InputEvent::PointerMotion { dx, dy }) && s.last.x
                + dx == at.x && s.last.y + dy == at.y)
            &&& !s.grabbed ==> (w.event matches Some(InputEvent::PointerMotion { dx, dy }) && at.x
                + dx == next.x && at.y + dy == next.y)
            &&& !s.grabbed ==> v.recenter is None
            &&& s.grabbed && at != s.center ==> (v.event matches Some(
                InputEvent::PointerMotion { dx, dy },
            ) && s.center.x + dx == at.x && s.center.y + dy == at.y && v.recenter == Some(s.center))
            &&& s.grabbed ==> n == s
        }),
{
}

/// Keys are reported as the keys that they are, going the way that the message says, by
/// the numbers of the system; messages of other kinds, injected ones and keys that the
/// table does not know are not reported.
pub proof fn law_keys_are_reported_as_they_go(
    msg: u32,
    vk: u16,
    code: u32,
    mods: Modifiers,
    injected: bool,
    event: Option<InputEvent>,
)
    requires
        is_key_event(msg, vk, mods, injected, event),
        same_key(code, vk),
    ensures
        !injected && (msg == 0x100 || msg == 0x104) ==> event == Some(
            InputEvent::Key { code: KeyCode(code), pressed: true, mods },
        ),
        !injected && (msg == 0x101 || msg == 0x105) ==> event == Some(
            InputEvent::Key { code: KeyCode(code), pressed: false, mods },
        ),
        injected || (msg != 0x100 && msg != 0x101 && msg != 0x104 && msg != 0x105) ==> event is None,
{
    if let Some(InputEvent::Key { code: c, .. }) = event {
        crate::keymap::law_keys_pair_off(c.0, code, vk, vk);
    }
}

/// What the system is asked for does what the event says, by the numbers of the system:
/// a motion by as much, a button by its flag for down or for up, a turn of the wheel by
/// its fine amount, or else by 120 for each notch, and a key by its own virtual key.
pub proof fn law_requests_do_what_the_event_says(
    dx: i32,
    dy: i32,
    pressed: bool,
    delta: i32,
    hi_res: i32,
    code: KeyCode,
    mods: Modifiers,
    vk: u16,
    r: Injection,
)
    ensures
        is_request(InputEvent::PointerMotion { dx, dy }, r) ==> r == (Injection::Mouse {
            dx,
            dy,
            data: 0,
            flags: 1,
        }),
        is_request(InputEvent::Button { button: Button::Left, pressed }, r) ==> r
            == (Injection::Mouse {
            dx: 0,
            dy: 0,
            data: 0,
            flags: if pressed {
                2
            } else {
                4
            },
        }),
        is_request(InputEvent::Button { button: Button::Right, pressed }, r) ==> r
            == (Injection::Mouse {
            dx: 0,
            dy: 0,
            data: 0,
            flags: if pressed {
                8
            } else {
                0x10
            },
        }),
        is_request(InputEvent::Button { button: Button::Middle, pressed }, r) ==> r
            == (Injection::Mouse {
            dx: 0,
            dy: 0,
            data: 0,
            flags: if pressed {
                0x20
            } else {
                0x40
            },
        }),
        is_request(InputEvent::Button { button: Button::Back, pressed }, r) ==> r
            == (Injection::Mouse {
            dx: 0,
            dy: 0,
            data: 1,
            flags: if pressed {
                0x80
            } else {
                0x100
            },
        }),
        is_request(InputEvent::Button { button: Button::Forward, pressed }, r) ==> r
            == (Injection::Mouse {
            dx: 0,
            dy: 0,
            data: 2,
            flags: if pressed {
                0x80
            } else {
                0x100
            },
        }),
        is_request(InputEvent::Scroll { axis: ScrollAxis::Vertical, delta, hi_res }, r) ==> (
        r matches Injection::Mouse { dx: a, dy: b, data, flags } && a == 0 && b == 0 && flags == 0x800
            && ((hi_res != 0 ==> (data - hi_res) % 0x1_0000_0000 == 0) && (hi_res == 0 && is_i32(
            delta * 120,
        ) ==> (data - delta * 120) % 0x1_0000_0000 == 0))),
        is_request(InputEvent::Scroll { axis: ScrollAxis::Horizontal, delta, hi_res }, r) ==> (
        r matches Injection::Mouse { flags, .. } && flags == 0x1000),
        is_request(InputEvent::Key { code, pressed, mods }, r) && same_key(code.0, vk) ==> r
            == (Injection::Key { vk, up: !pressed }),
{
    if is_request(InputEvent::Key { code, pressed, mods }, r) && same_key(code.0, vk) {
        lemma_known_keys_are_asked_for(code, pressed, mods, vk, r);
    }
}

proof fn lemma_known_keys_are_asked_for(
    code: KeyCode,
    pressed: bool,
    mods: Modifiers,
    vk: u16,
    r: Injection,
)
    requires
        is_request(InputEvent::Key { code, pressed, mods }, r),
        same_key(code.0, vk),
    ensures
        r == (Injection::Key { vk, up: !pressed }),
{
    let e = InputEvent::Key { code, pressed, mods };
    if let InputEvent::Key { code: c, .. } = e {
        assert(same_key(c.0, vk));
    }
    if let Injection::Key { vk: v, up } = r {
        crate::keymap::law_keys_pair_off(code.0, code.0, v, vk);
    }
}

/// When input begins to be held back, the pointer is put into the middle of the screen, and
/// motions are measured from there; else nothing is moved.
pub proof fn law_holding_begins_in_the_middle(
    h: HookState,
    after: HookState,
    grabbed: bool,
    w: i32,
    height: i32,
    r: Option<Point>,
)
    requires
        w >= 0,
        height >= 0,
        h.holds_back(after, grabbed, w, height, r),
    ensures
        after.grabbed == grabbed,
        r is Some <==> grabbed && !h.grabbed,
        r matches Some(p) ==> {
            &&& 2 * p.x <= w < 2 * p.x + 2
            &&& 2 * p.y <= height < 2 * p.y + 2
            &&& after.center == p
        },
        r is None ==> after.center == h.center,
{
}

} // verus!
