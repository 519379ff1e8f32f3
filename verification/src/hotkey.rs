//! Hotkeys written as text, such as `Ctrl+Alt+S`, and the test of a key event
//! against them.

use crate::input::{KeyCode, Modifiers, ALT, CTRL, META, SHIFT};
use crate::text::{
    chars_of, lower, lower_all, lowered, spells, split_at_char, split_on, string_of, trim, trimmed,
    views,
};
use vstd::prelude::*;

verus! {

/// A trigger key and the modifiers that have to be held with it.
#[derive(Clone, Copy, Debug, PartialEq, Eq, Structural)]
pub struct Hotkey {
    pub mods: Modifiers,
    pub code: KeyCode,
}

/// Why a text names no hotkey.
#[derive(Debug)]
pub enum HotkeyParseError {
    /// No trigger key was named.
    Empty,
    /// A word, in lower case, that names neither a modifier nor a key.
    UnknownKey(String),
}

/// The modifier bit that a lower-case word names.
pub open spec fn modifier_word(w: Seq<char>) -> Option<u16> {
    if w == "ctrl"@ || w == "control"@ {
        Some(CTRL)
    } else if w == "alt"@ {
        Some(ALT)
    } else if w == "shift"@ {
        Some(SHIFT)
    } else if w == "meta"@ || w == "super"@ || w == "win"@ || w == "cmd"@ {
        Some(META)
    } else {
        None
    }
}

/// The key code that a word names: the letters in alphabetical order from 30
/// on, and a few keys by name.
pub open spec fn key_word(w: Seq<char>) -> Option<u32> {
    if w.len() == 1 && 'a' <= lower(w[0]) <= 'z' {
        Some((30 + (lower(w[0]) as int - 'a' as int)) as u32)
    } else if w == "esc"@ || w == "escape"@ {
        Some(1)
    } else if w == "space"@ {
        Some(57)
    } else if w == "f12"@ {
        Some(88)
    } else {
        None
    }
}

/// What the first `n` pieces of a hotkey text say: the modifiers named and the
/// key named last, or the first word that names nothing. Empty pieces are
/// skipped.
pub open spec fn words_read(pieces: Seq<Seq<char>>, n: int) -> Result<
    (u16, Option<u32>),
    Seq<char>,
>
    decreases n,
{
    if n <= 0 {
        Ok((0u16, None))
    } else {
        match words_read(pieces, n - 1) {
            Err(w) => Err(w),
            Ok((mods, key)) => {
                let w = lower_all(trimmed(pieces[n - 1]));
                if w.len() == 0 {
                    Ok((mods, key))
                } else {
                    match modifier_word(w) {
                        Some(bit) => Ok((mods | bit, key)),
                        None => match key_word(w) {
                            Some(code) => Ok((mods, Some(code))),
                            None => Err(w),
                        },
                    }
                }
            },
        }
    }
}

/// What a whole hotkey text says.
pub open spec fn hotkey_read(spec_text: Seq<char>) -> Result<(u16, Option<u32>), Seq<char>> {
    let pieces = split_at_char(spec_text, '+');
    words_read(pieces, pieces.len() as int)
}

/// Once a word names nothing, that word stays the answer.
proof fn lemma_error_stays(pieces: Seq<Seq<char>>, i: int, n: int)
    requires
        i <= n,
        words_read(pieces, i) is Err,
    ensures
        words_read(pieces, n) == words_read(pieces, i),
    decreases n - i,
{
    if i < n {
        lemma_error_stays(pieces, i, n - 1);
    }
}

impl Hotkey {
    /// Reads a text such as `Ctrl+Alt+S`. Case does not matter; the modifiers
    /// are ctrl or control, alt, shift, and meta, super, win or cmd. The key
    /// named last is the trigger.
    pub fn parse(spec_text: &str) -> (r: Result<Self, HotkeyParseError>)
        ensures
            match r {
                Ok(h) => hotkey_read(spec_text@) == Ok::<(u16, Option<u32>), Seq<char>>(
                    (h.mods.0, Some(h.code.0)),
                ),
                Err(HotkeyParseError::Empty) => hotkey_read(spec_text@) matches Ok((_, None)),
                Err(HotkeyParseError::UnknownKey(w)) => hotkey_read(spec_text@) == Err::<
                    (u16, Option<u32>),
                    Seq<char>,
                >(w@),
            },
    {
        let text = chars_of(spec_text);
        let pieces = split_on(text.as_slice(), '+');
        let ghost ps = views(pieces@);
        let mut mods = Modifiers::empty();
        let mut key: Option<u32> = None;
        let mut i: usize = 0;
        while i < pieces.len()
            invariant
                0 <= i <= pieces.len(),
                ps == views(pieces@),
                ps == split_at_char(spec_text@, '+'),
                words_read(ps, i as int) == Ok::<(u16, Option<u32>), Seq<char>>((mods.0, key)),
            decreases pieces.len() - i,
        {
            assert(ps[i as int] == pieces@[i as int]@);
            let word = lowered(trim(pieces[i].as_slice()));
            if word.len() > 0 {
                match modifier_for(word.as_slice()) {
                    Some(bit) => {
                        mods.insert(Modifiers(bit));
                    },
                    None => match keycode_for(word.as_slice()) {
                        Some(code) => {
                            key = Some(code);
                        },
                        None => {
                            proof {
                                lemma_error_stays(ps, i + 1, ps.len() as int);
                            }
                            return Err(HotkeyParseError::UnknownKey(string_of(word.as_slice())));
                        },
                    },
                }
            }
            i = i + 1;
        }
        match key {
            Some(code) => Ok(Hotkey { mods, code: KeyCode(code) }),
            None => Err(HotkeyParseError::Empty),
        }
    }

    /// Whether a key press with these modifiers held triggers the hotkey.
    pub open spec fn fires(self, code: KeyCode, mods: Modifiers) -> bool {
        self.code == code && mods.has(self.mods)
    }

    pub fn matches(&self, code: KeyCode, mods: Modifiers) -> (b: bool)
        ensures
            b == self.fires(code, mods),
    {
        self.code == code && mods.contains(self.mods)
    }
}

fn modifier_for(w: &[char]) -> (r: Option<u16>)
    ensures
        r == modifier_word(w@),
{
    if spells(w, "ctrl") || spells(w, "control") {
        Some(CTRL)
    } else if spells(w, "alt") {
        Some(ALT)
    } else if spells(w, "shift") {
        Some(SHIFT)
    } else if spells(w, "meta") || spells(w, "super") || spells(w, "win") || spells(w, "cmd") {
        Some(META)
    } else {
        None
    }
}

/// The key code that a word names.
fn keycode_for(w: &[char]) -> (r: Option<u32>)
    ensures
        r == key_word(w@),
{
    if w.len() == 1 {
        let c = crate::text::to_lower(w[0]);
        if 'a' <= c && c <= 'z' {
            return Some(30 + (c as u32 - 97));
        }
    }
    if spells(w, "esc") || spells(w, "escape") {
        Some(1)
    } else if spells(w, "space") {
        Some(57)
    } else if spells(w, "f12") {
        Some(88)
    } else {
        None
    }
}

/// A hotkey that fires goes on firing when more modifiers are held.
pub proof fn law_more_modifiers_still_fire(h: Hotkey, code: KeyCode, mods: Modifiers, more: Modifiers)
    requires
        h.fires(code, mods),
    ensures
        h.fires(code, mods.with(more)),
{
    let (a, b, c) = (h.mods.0, mods.0, more.0);
    assert(b & a == a ==> (b | c) & a == a) by (bit_vector);
}

/// The words for the modifiers, and the modifier that each names; no other word names
/// one.
pub proof fn law_modifiers_have_these_names(w: Seq<char>)
    ensures
        modifier_word(w) == Some(2u16) <==> w == "ctrl"@ || w == "control"@,
        modifier_word(w) == Some(4u16) <==> w == "alt"@,
        modifier_word(w) == Some(1u16) <==> w == "shift"@,
        modifier_word(w) == Some(8u16) <==> w == "meta"@ || w == "super"@ || w == "win"@ || w
            == "cmd"@,
        modifier_word(w) matches Some(bit) ==> bit == 1 || bit == 2 || bit == 4 || bit == 8,
{
    reveal_strlit("ctrl");
    reveal_strlit("control");
    reveal_strlit("alt");
    reveal_strlit("shift");
    reveal_strlit("meta");
    reveal_strlit("super");
    reveal_strlit("win");
    reveal_strlit("cmd");
    assert("ctrl"@[0] != "alt"@[0]);
    assert("ctrl"@[0] != "shift"@[0]);
    assert("control"@[0] != "alt"@[0]);
    assert("control"@[0] != "shift"@[0]);
    assert("alt"@[0] != "shift"@[0]);
    assert("ctrl"@[1] != "cmd"@[1]);
    assert("shift"@[1] != "super"@[1]);
    assert("control"@.len() != "cmd"@.len());
    assert("ctrl"@[0] != "meta"@[0] && "ctrl"@[0] != "super"@[0] && "ctrl"@[0] != "win"@[0]);
    assert("control"@[0] != "meta"@[0] && "control"@[0] != "super"@[0] && "control"@[0] != "win"@[0]);
    assert("alt"@[0] != "meta"@[0] && "alt"@[0] != "super"@[0] && "alt"@[0] != "win"@[0] && "alt"@[0]
        != "cmd"@[0]);
    assert("shift"@[0] != "meta"@[0] && "shift"@[0] != "win"@[0] && "shift"@[0] != "cmd"@[0]);
}

/// A letter names the same key in either case, and the letters follow one another from
/// code 30 on.
pub proof fn law_letters_name_keys_in_their_order(w: Seq<char>)
    requires
        w.len() == 1,
        'a' <= w[0] <= 'z' || 'A' <= w[0] <= 'Z',
    ensures
        key_word(w) matches Some(code) && code == 30 + (if 'a' <= w[0] {
            w[0] as int - 'a' as int
        } else {
            w[0] as int - 'A' as int
        }),
{
}

/// The keys with names of their own.
pub proof fn law_named_keys(w: Seq<char>)
    ensures
        w == "esc"@ || w == "escape"@ ==> key_word(w) == Some(1u32),
        w == "space"@ ==> key_word(w) == Some(57u32),
        w == "f12"@ ==> key_word(w) == Some(88u32),
        w.len() > 1 && key_word(w) is Some ==> w == "esc"@ || w == "escape"@ || w == "space"@ || w
            == "f12"@,
{
    reveal_strlit("esc");
    reveal_strlit("escape");
    reveal_strlit("space");
    reveal_strlit("f12");
    assert("space"@[0] != "esc"@[0] && "space"@[0] != "escape"@[0]);
    assert("f12"@[0] != "esc"@[0] && "f12"@[0] != "escape"@[0] && "f12"@[0] != "space"@[0]);
}

/// What one more word adds to what was read: an empty one nothing, a modifier its bit,
/// a key itself in place of one named before, and any other word ends the reading.
pub proof fn law_each_word_adds_its_part(pieces: Seq<Seq<char>>, mods: u16, key: Option<u32>, n: int)
    requires
        0 < n <= pieces.len(),
        words_read(pieces, n - 1) == Ok::<(u16, Option<u32>), Seq<char>>((mods, key)),
    ensures
        ({
            let w = lower_all(trimmed(pieces[n - 1]));
            let r = words_read(pieces, n);
            &&& w.len() == 0 ==> r == words_read(pieces, n - 1)
            &&& w.len() > 0 && modifier_word(w) is Some ==> r == Ok::<
                (u16, Option<u32>),
                Seq<char>,
            >((mods | modifier_word(w)->0, key))
            &&& w.len() > 0 && modifier_word(w) is None && key_word(w) is Some ==> r == Ok::<
                (u16, Option<u32>),
                Seq<char>,
            >((mods, key_word(w)))
            &&& w.len() > 0 && modifier_word(w) is None && key_word(w) is None ==> r == Err::<
                (u16, Option<u32>),
                Seq<char>,
            >(w)
        }),
        words_read(pieces, 0) == Ok::<(u16, Option<u32>), Seq<char>>((0u16, None)),
{
}

/// A hotkey fires exactly on its own key, with all of its modifiers held.
pub proof fn law_hotkeys_fire_on_their_key(h: Hotkey, code: KeyCode, mods: Modifiers)
    ensures
        h.fires(code, mods) <==> h.code.0 == code.0 && h.mods.0 & !mods.0 == 0,
{
    let (a, b) = (h.mods.0, mods.0);
    assert(b & a == a <==> a & !b == 0) by (bit_vector);
}

} // verus!
