//! Platform-neutral input events: the vocabulary in which one machine tells
//! another what its keyboard and mouse did.

use crate::geometry::Point;
use vstd::prelude::*;

verus! {

/// A key, by its Linux evdev code.
#[derive(Clone, Copy, Debug, PartialEq, Eq, Hash, Structural)]
pub struct KeyCode(pub u32);

#[derive(Clone, Copy, Debug, PartialEq, Eq, Structural)]
pub enum Button {
    Left,
    Right,
    Middle,
    Back,
    Forward,
    /// An extra button, by its index.
    Other(u8),
}

#[derive(Clone, Copy, Debug, PartialEq, Eq, Structural)]
pub enum ScrollAxis {
    Vertical,
    Horizontal,
}

/// The bits of the modifier keys.
pub const SHIFT: u16 = 1;

pub const CTRL: u16 = 2;

pub const ALT: u16 = 4;

pub const META: u16 = 8;

pub const CAPS: u16 = 16;

pub const NUM: u16 = 32;

/// A set of modifier keys, one bit each. It travels with key events, so that
/// the receiver keeps a consistent view even if it missed an edge.
#[derive(Clone, Copy, Debug, PartialEq, Eq, Hash, Structural)]
pub struct Modifiers(pub u16);

impl Default for Modifiers {
    fn default() -> (m: Self)
        ensures
            m == Modifiers(0),
    {
        Modifiers(0)
    }
}

impl Modifiers {
    pub fn shift() -> (m: Self)
        ensures
            m == Modifiers(SHIFT),
    {
        Modifiers(SHIFT)
    }

    pub fn ctrl() -> (m: Self)
        ensures
            m == Modifiers(CTRL),
    {
        Modifiers(CTRL)
    }

    pub fn alt() -> (m: Self)
        ensures
            m == Modifiers(ALT),
    {
        Modifiers(ALT)
    }

    /// The Super, Windows or Command key.
    pub fn meta() -> (m: Self)
        ensures
            m == Modifiers(META),
    {
        Modifiers(META)
    }

    pub fn caps() -> (m: Self)
        ensures
            m == Modifiers(CAPS),
    {
        Modifiers(CAPS)
    }

    pub fn num() -> (m: Self)
        ensures
            m == Modifiers(NUM),
    {
        Modifiers(NUM)
    }

    /// Every modifier of `other` is in this set.
    pub open spec fn has(self, other: Modifiers) -> bool {
        self.0 & other.0 == other.0
    }

    /// This set together with `other`.
    pub open spec fn with(self, other: Modifiers) -> Modifiers {
        Modifiers(self.0 | other.0)
    }

    /// This set without the members of `other`.
    pub open spec fn without(self, other: Modifiers) -> Modifiers {
        Modifiers(self.0 & !other.0)
    }

    pub fn empty() -> (m: Self)
        ensures
            m == Modifiers(0),
    {
        Modifiers(0)
    }

    pub fn contains(self, other: Modifiers) -> (b: bool)
        ensures
            b == self.has(other),
    {
        self.0 & other.0 == other.0
    }

    pub fn insert(&mut self, other: Modifiers)
        ensures
            *final(self) == old(self).with(other),
    {
        self.0 = self.0 | other.0;
    }

    pub fn remove(&mut self, other: Modifiers)
        ensures
            *final(self) == old(self).without(other),
    {
        self.0 = self.0 & !other.0;
    }

    pub fn set(&mut self, other: Modifiers, on: bool)
        ensures
            *final(self) == if on {
                old(self).with(other)
            } else {
                old(self).without(other)
            },
    {
        if on {
            self.insert(other);
        } else {
            self.remove(other);
        }
    }
}

impl std::ops::BitOr for Modifiers {
    type Output = Modifiers;

    fn bitor(self, rhs: Modifiers) -> (m: Modifiers) {
        Modifiers(self.0 | rhs.0)
    }
}

impl vstd::std_specs::ops::BitOrSpecImpl for Modifiers {
    open spec fn obeys_bitor_spec() -> bool {
        true
    }

    open spec fn bitor_req(self, rhs: Modifiers) -> bool {
        true
    }

    open spec fn bitor_spec(self, rhs: Modifiers) -> Modifiers {
        self.with(rhs)
    }
}

/// One input event in virtual-desktop terms.
#[derive(Clone, Copy, Debug, PartialEq, Structural)]
pub enum InputEvent {
    /// Absolute pointer position. Sent on a handoff and now and again to
    /// correct drift.
    PointerPosition { at: Point },
    /// Relative pointer motion.
    PointerMotion { dx: i32, dy: i32 },
    Button { button: Button, pressed: bool },
    /// `hi_res` is the high-resolution sub-step, 0 where there is none.
    Scroll { axis: ScrollAxis, delta: i32, hi_res: i32 },
    Key { code: KeyCode, pressed: bool, mods: Modifiers },
}

/// Modifiers that were inserted are in the set, modifiers that were removed are
/// not, and modifiers that share no bit with them are as before.
pub proof fn law_modifiers_behave_as_a_set(m: Modifiers, other: Modifiers, third: Modifiers)
    ensures
        m.with(other).has(other),
        m.with(other).has(m),
        other.0 != 0 ==> !m.without(other).has(other),
        m.without(other).with(other) == m.with(other),
        m.with(other) == other.with(m),
        third.0 & other.0 == 0 ==> m.with(other).has(third) == m.has(third),
        third.0 & other.0 == 0 ==> m.without(other).has(third) == m.has(third),
{
    let (a, b, c) = (m.0, other.0, third.0);
    assert((a | b) & b == b) by (bit_vector);
    assert((a | b) & a == a) by (bit_vector);
    assert(b != 0 ==> (a & !b) & b != b) by (bit_vector);
    assert((a & !b) | b == a | b) by (bit_vector);
    assert(a | b == b | a) by (bit_vector);
    assert(c & b == 0 ==> ((a | b) & c == c <==> a & c == c)) by (bit_vector);
    assert(c & b == 0 ==> ((a & !b) & c == c <==> a & c == c)) by (bit_vector);
}

/// Each modifier key has one bit, and no two of them share it.
pub proof fn law_modifier_bits_are_distinct()
    ensures
        SHIFT & CTRL == 0 && SHIFT & ALT == 0 && SHIFT & META == 0 && SHIFT & CAPS == 0 && SHIFT & NUM
            == 0,
        CTRL & ALT == 0 && CTRL & META == 0 && CTRL & CAPS == 0 && CTRL & NUM == 0,
        ALT & META == 0 && ALT & CAPS == 0 && ALT & NUM == 0,
        META & CAPS == 0 && META & NUM == 0 && CAPS & NUM == 0,
        SHIFT | CTRL | ALT | META | CAPS | NUM == 0x3f,
        SHIFT == 1 && CTRL == 2 && ALT == 4 && META == 8 && CAPS == 16 && NUM == 32,
{
    assert(1u16 & 2 == 0 && 1u16 & 4 == 0 && 1u16 & 8 == 0 && 1u16 & 16 == 0 && 1u16 & 32 == 0
        && 2u16 & 4 == 0 && 2u16 & 8 == 0 && 2u16 & 16 == 0 && 2u16 & 32 == 0 && 4u16 & 8 == 0
        && 4u16 & 16 == 0 && 4u16 & 32 == 0 && 8u16 & 16 == 0 && 8u16 & 32 == 0 && 16u16 & 32 == 0
        && 1u16 | 2 | 4 | 8 | 16 | 32 == 0x3f) by (bit_vector);
}

/// A set holds another exactly where no bit of the other is missing from it; joining
/// adds exactly the bits of the other, and taking away removes exactly these.
pub proof fn law_modifiers_go_bit_by_bit(m: Modifiers, other: Modifiers, bit: u16)
    requires
        bit & sub_one(bit) == 0,
        bit != 0,
    ensures
        m.has(other) <==> other.0 & !m.0 == 0,
        m.with(other).0 & bit != 0 <==> m.0 & bit != 0 || other.0 & bit != 0,
        m.without(other).0 & bit != 0 <==> m.0 & bit != 0 && other.0 & bit == 0,
{
    let (a, b, one) = (m.0, other.0, sub_one(bit));
    assert(a & b == b <==> b & !a == 0) by (bit_vector);
    assert((a | b) & bit != 0 <==> a & bit != 0 || b & bit != 0) by (bit_vector);
    assert(bit & ((bit - 1) as u16) == 0 && bit != 0 ==> ((a & !b) & bit != 0 <==> a & bit != 0 && b
        & bit == 0)) by (bit_vector);
}

/// The number before `n`.
pub open spec fn sub_one(n: u16) -> u16 {
    (n - 1) as u16
}

} // verus!
