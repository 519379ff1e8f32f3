//! Key codes of Linux (evdev) and of Windows (virtual keys).
//!
//! The evdev code is what travels between machines. The table covers letters,
//! digits, function keys, modifiers, the navigation block, punctuation, the
//! number pad and the media keys.

use vstd::prelude::*;

verus! {

/// The evdev code and the virtual key are the same key.
pub open spec fn same_key(code: u32, vk: u16) -> bool {
    ||| (code == 1 && vk == 0x1b)
    ||| (code == 2 && vk == 0x31)
    ||| (code == 3 && vk == 0x32)
    ||| (code == 4 && vk == 0x33)
    ||| (code == 5 && vk == 0x34)
    ||| (code == 6 && vk == 0x35)
    ||| (code == 7 && vk == 0x36)
    ||| (code == 8 && vk == 0x37)
    ||| (code == 9 && vk == 0x38)
    ||| (code == 10 && vk == 0x39)
    ||| (code == 11 && vk == 0x30)
    ||| (code == 12 && vk == 0xbd)
    ||| (code == 13 && vk == 0xbb)
    ||| (code == 14 && vk == 0x08)
    ||| (code == 15 && vk == 0x09)
    ||| (code == 16 && vk == 0x51)
    ||| (code == 17 && vk == 0x57)
    ||| (code == 18 && vk == 0x45)
    ||| (code == 19 && vk == 0x52)
    ||| (code == 20 && vk == 0x54)
    ||| (code == 21 && vk == 0x59)
    ||| (code == 22 && vk == 0x55)
    ||| (code == 23 && vk == 0x49)
    ||| (code == 24 && vk == 0x4f)
    ||| (code == 25 && vk == 0x50)
    ||| (code == 26 && vk == 0xdb)
    ||| (code == 27 && vk == 0xdd)
    ||| (code == 28 && vk == 0x0d)
    ||| (code == 29 && vk == 0xa2)
    ||| (code == 30 && vk == 0x41)
    ||| (code == 31 && vk == 0x53)
    ||| (code == 32 && vk == 0x44)
    ||| (code == 33 && vk == 0x46)
    ||| (code == 34 && vk == 0x47)
    ||| (code == 35 && vk == 0x48)
    ||| (code == 36 && vk == 0x4a)
    ||| (code == 37 && vk == 0x4b)
    ||| (code == 38 && vk == 0x4c)
    ||| (code == 39 && vk == 0xba)
    ||| (code == 40 && vk == 0xde)
    ||| (code == 41 && vk == 0xc0)
    ||| (code == 42 && vk == 0xa0)
    ||| (code == 43 && vk == 0xdc)
    ||| (code == 44 && vk == 0x5a)
    ||| (code == 45 && vk == 0x58)
    ||| (code == 46 && vk == 0x43)
    ||| (code == 47 && vk == 0x56)
    ||| (code == 48 && vk == 0x42)
    ||| (code == 49 && vk == 0x4e)
    ||| (code == 50 && vk == 0x4d)
    ||| (code == 51 && vk == 0xbc)
    ||| (code == 52 && vk == 0xbe)
    ||| (code == 53 && vk == 0xbf)
    ||| (code == 54 && vk == 0xa1)
    ||| (code == 55 && vk == 0x6a)
    ||| (code == 56 && vk == 0xa4)
    ||| (code == 57 && vk == 0x20)
    ||| (code == 58 && vk == 0x14)
    ||| (code == 59 && vk == 0x70)
    ||| (code == 60 && vk == 0x71)
    ||| (code == 61 && vk == 0x72)
    ||| (code == 62 && vk == 0x73)
    ||| (code == 63 && vk == 0x74)
    ||| (code == 64 && vk == 0x75)
    ||| (code == 65 && vk == 0x76)
    ||| (code == 66 && vk == 0x77)
    ||| (code == 67 && vk == 0x78)
    ||| (code == 68 && vk == 0x79)
    ||| (code == 69 && vk == 0x90)
    ||| (code == 70 && vk == 0x91)
    ||| (code == 71 && vk == 0x67)
    ||| (code == 72 && vk == 0x68)
    ||| (code == 73 && vk == 0x69)
    ||| (code == 74 && vk == 0x6d)
    ||| (code == 75 && vk == 0x64)
    ||| (code == 76 && vk == 0x65)
    ||| (code == 77 && vk == 0x66)
    ||| (code == 78 && vk == 0x6b)
    ||| (code == 79 && vk == 0x61)
    ||| (code == 80 && vk == 0x62)
    ||| (code == 81 && vk == 0x63)
    ||| (code == 82 && vk == 0x60)
    ||| (code == 83 && vk == 0x6e)
    ||| (code == 87 && vk == 0x7a)
    ||| (code == 88 && vk == 0x7b)
    ||| (code == 97 && vk == 0xa3)
    ||| (code == 98 && vk == 0x6f)
    ||| (code == 99 && vk == 0x2c)
    ||| (code == 100 && vk == 0xa5)
    ||| (code == 102 && vk == 0x24)
    ||| (code == 103 && vk == 0x26)
    ||| (code == 104 && vk == 0x21)
    ||| (code == 105 && vk == 0x25)
    ||| (code == 106 && vk == 0x27)
    ||| (code == 107 && vk == 0x23)
    ||| (code == 108 && vk == 0x28)
    ||| (code == 109 && vk == 0x22)
    ||| (code == 110 && vk == 0x2d)
    ||| (code == 111 && vk == 0x2e)
    ||| (code == 113 && vk == 0xad)
    ||| (code == 114 && vk == 0xae)
    ||| (code == 115 && vk == 0xaf)
    ||| (code == 119 && vk == 0x13)
    ||| (code == 125 && vk == 0x5b)
    ||| (code == 126 && vk == 0x5c)
    ||| (code == 127 && vk == 0x5d)
    ||| (code == 163 && vk == 0xb0)
    ||| (code == 164 && vk == 0xb3)
    ||| (code == 165 && vk == 0xb1)
    ||| (code == 166 && vk == 0xb2)
}

/// The virtual key of an evdev code.
pub fn evdev_to_vk(code: u32) -> (r: Option<u16>)
    ensures
        match r {
            Some(vk) => same_key(code, vk),
            None => forall|vk: u16| !same_key(code, vk),
        },
{
    match code {
        1 => Some(0x1b),  // ESC
        2 => Some(0x31),  // 1
        3 => Some(0x32),  // 2
        4 => Some(0x33),  // 3
        5 => Some(0x34),  // 4
        6 => Some(0x35),  // 5
        7 => Some(0x36),  // 6
        8 => Some(0x37),  // 7
        9 => Some(0x38),  // 8
        10 => Some(0x39),  // 9
        11 => Some(0x30),  // 0
        12 => Some(0xbd),  // MINUS
        13 => Some(0xbb),  // EQUAL
        14 => Some(0x08),  // BACKSPACE
        15 => Some(0x09),  // TAB
        16 => Some(0x51),  // Q
        17 => Some(0x57),  // W
        18 => Some(0x45),  // E
        19 => Some(0x52),  // R
        20 => Some(0x54),  // T
        21 => Some(0x59),  // Y
        22 => Some(0x55),  // U
        23 => Some(0x49),  // I
        24 => Some(0x4f),  // O
        25 => Some(0x50),  // P
        26 => Some(0xdb),  // LEFTBRACE
        27 => Some(0xdd),  // RIGHTBRACE
        28 => Some(0x0d),  // ENTER
        29 => Some(0xa2),  // LEFTCTRL
        30 => Some(0x41),  // A
        31 => Some(0x53),  // S
        32 => Some(0x44),  // D
        33 => Some(0x46),  // F
        34 => Some(0x47),  // G
        35 => Some(0x48),  // H
        36 => Some(0x4a),  // J
        37 => Some(0x4b),  // K
        38 => Some(0x4c),  // L
        39 => Some(0xba),  // SEMICOLON
        40 => Some(0xde),  // APOSTROPHE
        41 => Some(0xc0),  // GRAVE
        42 => Some(0xa0),  // LEFTSHIFT
        43 => Some(0xdc),  // BACKSLASH
        44 => Some(0x5a),  // Z
        45 => Some(0x58),  // X
        46 => Some(0x43),  // C
        47 => Some(0x56),  // V
        48 => Some(0x42),  // B
        49 => Some(0x4e),  // N
        50 => Some(0x4d),  // M
        51 => Some(0xbc),  // COMMA
        52 => Some(0xbe),  // DOT
        53 => Some(0xbf),  // SLASH
        54 => Some(0xa1),  // RIGHTSHIFT
        55 => Some(0x6a),  // KPASTERISK
        56 => Some(0xa4),  // LEFTALT
        57 => Some(0x20),  // SPACE
        58 => Some(0x14),  // CAPSLOCK
        59 => Some(0x70),  // F1
        60 => Some(0x71),  // F2
        61 => Some(0x72),  // F3
        62 => Some(0x73),  // F4
        63 => Some(0x74),  // F5
        64 => Some(0x75),  // F6
        65 => Some(0x76),  // F7
        66 => Some(0x77),  // F8
        67 => Some(0x78),  // F9
        68 => Some(0x79),  // F10
        69 => Some(0x90),  // NUMLOCK
        70 => Some(0x91),  // SCROLLLOCK
        71 => Some(0x67),  // KP7
        72 => Some(0x68),  // KP8
        73 => Some(0x69),  // KP9
        74 => Some(0x6d),  // KPMINUS
        75 => Some(0x64),  // KP4
        76 => Some(0x65),  // KP5
        77 => Some(0x66),  // KP6
        78 => Some(0x6b),  // KPPLUS
        79 => Some(0x61),  // KP1
        80 => Some(0x62),  // KP2
        81 => Some(0x63),  // KP3
        82 => Some(0x60),  // KP0
        83 => Some(0x6e),  // KPDOT
        87 => Some(0x7a),  // F11
        88 => Some(0x7b),  // F12
        97 => Some(0xa3),  // RIGHTCTRL
        98 => Some(0x6f),  // KPSLASH
        99 => Some(0x2c),  // SYSRQ
        100 => Some(0xa5),  // RIGHTALT
        102 => Some(0x24),  // HOME
        103 => Some(0x26),  // UP
        104 => Some(0x21),  // PAGEUP
        105 => Some(0x25),  // LEFT
        106 => Some(0x27),  // RIGHT
        107 => Some(0x23),  // END
        108 => Some(0x28),  // DOWN
        109 => Some(0x22),  // PAGEDOWN
        110 => Some(0x2d),  // INSERT
        111 => Some(0x2e),  // DELETE
        113 => Some(0xad),  // MUTE
        114 => Some(0xae),  // VOLUMEDOWN
        115 => Some(0xaf),  // VOLUMEUP
        119 => Some(0x13),  // PAUSE
        125 => Some(0x5b),  // LEFTMETA
        126 => Some(0x5c),  // RIGHTMETA
        127 => Some(0x5d),  // COMPOSE
        163 => Some(0xb0),  // NEXTSONG
        164 => Some(0xb3),  // PLAYPAUSE
        165 => Some(0xb1),  // PREVIOUSSONG
        166 => Some(0xb2),  // STOPCD
        _ => None,
    }
}

/// The evdev code of a virtual key.
pub fn vk_to_evdev(vk: u16) -> (r: Option<u32>)
    ensures
        match r {
            Some(code) => same_key(code, vk),
            None => forall|code: u32| !same_key(code, vk),
        },
{
    match vk {
        0x08 => Some(14),  // BACKSPACE
        0x09 => Some(15),  // TAB
        0x0d => Some(28),  // ENTER
        0x13 => Some(119),  // PAUSE
        0x14 => Some(58),  // CAPSLOCK
        0x1b => Some(1),  // ESC
        0x20 => Some(57),  // SPACE
        0x21 => Some(104),  // PAGEUP
        0x22 => Some(109),  // PAGEDOWN
        0x23 => Some(107),  // END
        0x24 => Some(102),  // HOME
        0x25 => Some(105),  // LEFT
        0x26 => Some(103),  // UP
        0x27 => Some(106),  // RIGHT
        0x28 => Some(108),  // DOWN
        0x2c => Some(99),  // SYSRQ
        0x2d => Some(110),  // INSERT
        0x2e => Some(111),  // DELETE
        0x30 => Some(11),  // 0
        0x31 => Some(2),  // 1
        0x32 => Some(3),  // 2
        0x33 => Some(4),  // 3
        0x34 => Some(5),  // 4
        0x35 => Some(6),  // 5
        0x36 => Some(7),  // 6
        0x37 => Some(8),  // 7
        0x38 => Some(9),  // 8
        0x39 => Some(10),  // 9
        0x41 => Some(30),  // A
        0x42 => Some(48),  // B
        0x43 => Some(46),  // C
        0x44 => Some(32),  // D
        0x45 => Some(18),  // E
        0x46 => Some(33),  // F
        0x47 => Some(34),  // G
        0x48 => Some(35),  // H
        0x49 => Some(23),  // I
        0x4a => Some(36),  // J
        0x4b => Some(37),  // K
        0x4c => Some(38),  // L
        0x4d => Some(50),  // M
        0x4e => Some(49),  // N
        0x4f => Some(24),  // O
        0x50 => Some(25),  // P
        0x51 => Some(16),  // Q
        0x52 => Some(19),  // R
        0x53 => Some(31),  // S
        0x54 => Some(20),  // T
        0x55 => Some(22),  // U
        0x56 => Some(47),  // V
        0x57 => Some(17),  // W
        0x58 => Some(45),  // X
        0x59 => Some(21),  // Y
        0x5a => Some(44),  // Z
        0x5b => Some(125),  // LEFTMETA
        0x5c => Some(126),  // RIGHTMETA
        0x5d => Some(127),  // COMPOSE
        0x60 => Some(82),  // KP0
        0x61 => Some(79),  // KP1
        0x62 => Some(80),  // KP2
        0x63 => Some(81),  // KP3
        0x64 => Some(75),  // KP4
        0x65 => Some(76),  // KP5
        0x66 => Some(77),  // KP6
        0x67 => Some(71),  // KP7
        0x68 => Some(72),  // KP8
        0x69 => Some(73),  // KP9
        0x6a => Some(55),  // KPASTERISK
        0x6b => Some(78),  // KPPLUS
        0x6d => Some(74),  // KPMINUS
        0x6e => Some(83),  // KPDOT
        0x6f => Some(98),  // KPSLASH
        0x70 => Some(59),  // F1
        0x71 => Some(60),  // F2
        0x72 => Some(61),  // F3
        0x73 => Some(62),  // F4
        0x74 => Some(63),  // F5
        0x75 => Some(64),  // F6
        0x76 => Some(65),  // F7
        0x77 => Some(66),  // F8
        0x78 => Some(67),  // F9
        0x79 => Some(68),  // F10
        0x7a => Some(87),  // F11
        0x7b => Some(88),  // F12
        0x90 => Some(69),  // NUMLOCK
        0x91 => Some(70),  // SCROLLLOCK
        0xa0 => Some(42),  // LEFTSHIFT
        0xa1 => Some(54),  // RIGHTSHIFT
        0xa2 => Some(29),  // LEFTCTRL
        0xa3 => Some(97),  // RIGHTCTRL
        0xa4 => Some(56),  // LEFTALT
        0xa5 => Some(100),  // RIGHTALT
        0xad => Some(113),  // MUTE
        0xae => Some(114),  // VOLUMEDOWN
        0xaf => Some(115),  // VOLUMEUP
        0xb0 => Some(163),  // NEXTSONG
        0xb1 => Some(165),  // PREVIOUSSONG
        0xb2 => Some(166),  // STOPCD
        0xb3 => Some(164),  // PLAYPAUSE
        0xba => Some(39),  // SEMICOLON
        0xbb => Some(13),  // EQUAL
        0xbc => Some(51),  // COMMA
        0xbd => Some(12),  // MINUS
        0xbe => Some(52),  // DOT
        0xbf => Some(53),  // SLASH
        0xc0 => Some(41),  // GRAVE
        0xdb => Some(26),  // LEFTBRACE
        0xdc => Some(43),  // BACKSLASH
        0xdd => Some(27),  // RIGHTBRACE
        0xde => Some(40),  // APOSTROPHE
        _ => None,
    }
}

/// Keys pair off one to one: a code has at most one virtual key and a virtual
/// key at most one code. So a code that is mapped comes back from its virtual
/// key, and the other way round.
pub proof fn law_keys_pair_off(a: u32, b: u32, v: u16, w: u16)
    ensures
        same_key(a, v) && same_key(a, w) ==> v == w,
        same_key(a, v) && same_key(b, v) ==> a == b,
{
}

/// Every letter and every digit has a code.
pub proof fn law_letters_and_digits_are_mapped(vk: u16)
    requires
        0x30 <= vk <= 0x39 || 0x41 <= vk <= 0x5a,
    ensures
        exists|code: u32| same_key(code, vk),
{
    let code: u32 = match vk {
        0x30 => 11,
        0x31 => 2,
        0x32 => 3,
        0x33 => 4,
        0x34 => 5,
        0x35 => 6,
        0x36 => 7,
        0x37 => 8,
        0x38 => 9,
        0x39 => 10,
        0x41 => 30,
        0x42 => 48,
        0x43 => 46,
        0x44 => 32,
        0x45 => 18,
        0x46 => 33,
        0x47 => 34,
        0x48 => 35,
        0x49 => 23,
        0x4a => 36,
        0x4b => 37,
        0x4c => 38,
        0x4d => 50,
        0x4e => 49,
        0x4f => 24,
        0x50 => 25,
        0x51 => 16,
        0x52 => 19,
        0x53 => 31,
        0x54 => 20,
        0x55 => 22,
        0x56 => 47,
        0x57 => 17,
        0x58 => 45,
        0x59 => 21,
        0x5a => 44,
        _ => 0,
    };
    assert(same_key(code, vk));
}

// --- The keys by name ---------------------------------------------------------

pub const KEY_ESC: u32 = 1;

pub const VK_ESCAPE: u16 = 0x1b;

pub const KEY_MINUS: u32 = 12;

pub const VK_OEM_MINUS: u16 = 0xbd;

pub const KEY_EQUAL: u32 = 13;

pub const VK_OEM_PLUS: u16 = 0xbb;

pub const KEY_BACKSPACE: u32 = 14;

pub const VK_BACK: u16 = 0x08;

pub const KEY_TAB: u32 = 15;

pub const VK_TAB: u16 = 0x09;

pub const KEY_LEFTBRACE: u32 = 26;

pub const VK_OEM_4: u16 = 0xdb;

pub const KEY_RIGHTBRACE: u32 = 27;

pub const VK_OEM_6: u16 = 0xdd;

pub const KEY_ENTER: u32 = 28;

pub const VK_RETURN: u16 = 0x0d;

pub const KEY_LEFTCTRL: u32 = 29;

pub const VK_LCONTROL: u16 = 0xa2;

pub const KEY_SEMICOLON: u32 = 39;

pub const VK_OEM_1: u16 = 0xba;

pub const KEY_APOSTROPHE: u32 = 40;

pub const VK_OEM_7: u16 = 0xde;

pub const KEY_GRAVE: u32 = 41;

pub const VK_OEM_3: u16 = 0xc0;

pub const KEY_LEFTSHIFT: u32 = 42;

pub const VK_LSHIFT: u16 = 0xa0;

pub const KEY_BACKSLASH: u32 = 43;

pub const VK_OEM_5: u16 = 0xdc;

pub const KEY_COMMA: u32 = 51;

pub const VK_OEM_COMMA: u16 = 0xbc;

pub const KEY_DOT: u32 = 52;

pub const VK_OEM_PERIOD: u16 = 0xbe;

pub const KEY_SLASH: u32 = 53;

pub const VK_OEM_2: u16 = 0xbf;

pub const KEY_RIGHTSHIFT: u32 = 54;

pub const VK_RSHIFT: u16 = 0xa1;

pub const KEY_KPASTERISK: u32 = 55;

pub const VK_MULTIPLY: u16 = 0x6a;

pub const KEY_LEFTALT: u32 = 56;

pub const VK_LMENU: u16 = 0xa4;

pub const KEY_SPACE: u32 = 57;

pub const VK_SPACE: u16 = 0x20;

pub const KEY_CAPSLOCK: u32 = 58;

pub const VK_CAPITAL: u16 = 0x14;

pub const KEY_NUMLOCK: u32 = 69;

pub const VK_NUMLOCK: u16 = 0x90;

pub const KEY_SCROLLLOCK: u32 = 70;

pub const VK_SCROLL: u16 = 0x91;

pub const KEY_KPMINUS: u32 = 74;

pub const VK_SUBTRACT: u16 = 0x6d;

pub const KEY_KPPLUS: u32 = 78;

pub const VK_ADD: u16 = 0x6b;

pub const KEY_KPDOT: u32 = 83;

pub const VK_DECIMAL: u16 = 0x6e;

pub const KEY_RIGHTCTRL: u32 = 97;

pub const VK_RCONTROL: u16 = 0xa3;

pub const KEY_KPSLASH: u32 = 98;

pub const VK_DIVIDE: u16 = 0x6f;

pub const KEY_SYSRQ: u32 = 99;

pub const VK_SNAPSHOT: u16 = 0x2c;

pub const KEY_RIGHTALT: u32 = 100;

pub const VK_RMENU: u16 = 0xa5;

pub const KEY_HOME: u32 = 102;

pub const VK_HOME: u16 = 0x24;

pub const KEY_UP: u32 = 103;

pub const VK_UP: u16 = 0x26;

pub const KEY_PAGEUP: u32 = 104;

pub const VK_PRIOR: u16 = 0x21;

pub const KEY_LEFT: u32 = 105;

pub const VK_LEFT: u16 = 0x25;

pub const KEY_RIGHT: u32 = 106;

pub const VK_RIGHT: u16 = 0x27;

pub const KEY_END: u32 = 107;

pub const VK_END: u16 = 0x23;

pub const KEY_DOWN: u32 = 108;

pub const VK_DOWN: u16 = 0x28;

pub const KEY_PAGEDOWN: u32 = 109;

pub const VK_NEXT: u16 = 0x22;

pub const KEY_INSERT: u32 = 110;

pub const VK_INSERT: u16 = 0x2d;

pub const KEY_DELETE: u32 = 111;

pub const VK_DELETE: u16 = 0x2e;

pub const KEY_MUTE: u32 = 113;

pub const VK_VOLUME_MUTE: u16 = 0xad;

pub const KEY_VOLUMEDOWN: u32 = 114;

pub const VK_VOLUME_DOWN: u16 = 0xae;

pub const KEY_VOLUMEUP: u32 = 115;

pub const VK_VOLUME_UP: u16 = 0xaf;

pub const KEY_PAUSE: u32 = 119;

pub const VK_PAUSE: u16 = 0x13;

pub const KEY_LEFTMETA: u32 = 125;

pub const VK_LWIN: u16 = 0x5b;

pub const KEY_RIGHTMETA: u32 = 126;

pub const VK_RWIN: u16 = 0x5c;

pub const KEY_COMPOSE: u32 = 127;

pub const VK_APPS: u16 = 0x5d;

pub const KEY_NEXTSONG: u32 = 163;

pub const VK_MEDIA_NEXT_TRACK: u16 = 0xb0;

pub const KEY_PLAYPAUSE: u32 = 164;

pub const VK_MEDIA_PLAY_PAUSE: u16 = 0xb3;

pub const KEY_PREVIOUSSONG: u32 = 165;

pub const VK_MEDIA_PREV_TRACK: u16 = 0xb1;

pub const KEY_STOPCD: u32 = 166;

pub const VK_MEDIA_STOP: u16 = 0xb2;

/// The letters of the upper, the middle and the lower row of the keyboard, from left to
/// right.
pub open spec fn letter_rows() -> (Seq<char>, Seq<char>, Seq<char>) {
    (
        seq!['Q', 'W', 'E', 'R', 'T', 'Y', 'U', 'I', 'O', 'P'],
        seq!['A', 'S', 'D', 'F', 'G', 'H', 'J', 'K', 'L'],
        seq!['Z', 'X', 'C', 'V', 'B', 'N', 'M'],
    )
}

/// The key of a letter: evdev counts along the rows, and the virtual key is the letter.
pub open spec fn letter_key(code: u32, vk: u16) -> bool {
    let (upper, middle, lower) = letter_rows();
    ||| 16 <= code < 16 + upper.len() && vk == upper[code - 16] as u16
    ||| 30 <= code < 30 + middle.len() && vk == middle[code - 30] as u16
    ||| 44 <= code < 44 + lower.len() && vk == lower[code - 44] as u16
}

/// The key of a digit `d`: evdev begins with 1 and ends with 0, and the virtual key is
/// the digit.
pub open spec fn digit_key(code: u32, vk: u16, d: int) -> bool {
    &&& 0 <= d <= 9
    &&& vk == ('0' as int) + d
    &&& code == if d == 0 {
        11int
    } else {
        d + 1
    }
}

/// The function key `n`.
pub open spec fn function_key(code: u32, vk: u16, n: int) -> bool {
    &&& 1 <= n <= 12
    &&& vk == 0x70 + (n - 1)
    &&& code == if n <= 10 {
        59 + (n - 1)
    } else {
        87 + (n - 11)
    }
}

/// The key of a digit `d` on the number pad: three rows of three from 7 down to 1, with
/// an operator at the end of the upper two, and 0 below.
pub open spec fn pad_key(code: u32, vk: u16, d: int) -> bool {
    &&& 0 <= d <= 9
    &&& vk == 0x60 + d
    &&& code == if d == 0 {
        82int
    } else {
        71 + (2 - (d - 1) / 3) * 4 + (d - 1) % 3
    }
}

/// A key that has a name of its own: the code and the virtual key bear the same name.
pub open spec fn named_key(code: u32, vk: u16) -> bool {
    ||| (code == KEY_ESC && vk == VK_ESCAPE)
    ||| (code == KEY_MINUS && vk == VK_OEM_MINUS)
    ||| (code == KEY_EQUAL && vk == VK_OEM_PLUS)
    ||| (code == KEY_BACKSPACE && vk == VK_BACK)
    ||| (code == KEY_TAB && vk == VK_TAB)
    ||| (code == KEY_LEFTBRACE && vk == VK_OEM_4)
    ||| (code == KEY_RIGHTBRACE && vk == VK_OEM_6)
    ||| (code == KEY_ENTER && vk == VK_RETURN)
    ||| (code == KEY_LEFTCTRL && vk == VK_LCONTROL)
    ||| (code == KEY_SEMICOLON && vk == VK_OEM_1)
    ||| (code == KEY_APOSTROPHE && vk == VK_OEM_7)
    ||| (code == KEY_GRAVE && vk == VK_OEM_3)
    ||| (code == KEY_LEFTSHIFT && vk == VK_LSHIFT)
    ||| (code == KEY_BACKSLASH && vk == VK_OEM_5)
    ||| (code == KEY_COMMA && vk == VK_OEM_COMMA)
    ||| (code == KEY_DOT && vk == VK_OEM_PERIOD)
    ||| (code == KEY_SLASH && vk == VK_OEM_2)
    ||| (code == KEY_RIGHTSHIFT && vk == VK_RSHIFT)
    ||| (code == KEY_KPASTERISK && vk == VK_MULTIPLY)
    ||| (code == KEY_LEFTALT && vk == VK_LMENU)
    ||| (code == KEY_SPACE && vk == VK_SPACE)
    ||| (code == KEY_CAPSLOCK && vk == VK_CAPITAL)
    ||| (code == KEY_NUMLOCK && vk == VK_NUMLOCK)
    ||| (code == KEY_SCROLLLOCK && vk == VK_SCROLL)
    ||| (code == KEY_KPMINUS && vk == VK_SUBTRACT)
    ||| (code == KEY_KPPLUS && vk == VK_ADD)
    ||| (code == KEY_KPDOT && vk == VK_DECIMAL)
    ||| (code == KEY_RIGHTCTRL && vk == VK_RCONTROL)
    ||| (code == KEY_KPSLASH && vk == VK_DIVIDE)
    ||| (code == KEY_SYSRQ && vk == VK_SNAPSHOT)
    ||| (code == KEY_RIGHTALT && vk == VK_RMENU)
    ||| (code == KEY_HOME && vk == VK_HOME)
    ||| (code == KEY_UP && vk == VK_UP)
    ||| (code == KEY_PAGEUP && vk == VK_PRIOR)
    ||| (code == KEY_LEFT && vk == VK_LEFT)
    ||| (code == KEY_RIGHT && vk == VK_RIGHT)
    ||| (code == KEY_END && vk == VK_END)
    ||| (code == KEY_DOWN && vk == VK_DOWN)
    ||| (code == KEY_PAGEDOWN && vk == VK_NEXT)
    ||| (code == KEY_INSERT && vk == VK_INSERT)
    ||| (code == KEY_DELETE && vk == VK_DELETE)
    ||| (code == KEY_MUTE && vk == VK_VOLUME_MUTE)
    ||| (code == KEY_VOLUMEDOWN && vk == VK_VOLUME_DOWN)
    ||| (code == KEY_VOLUMEUP && vk == VK_VOLUME_UP)
    ||| (code == KEY_PAUSE && vk == VK_PAUSE)
    ||| (code == KEY_LEFTMETA && vk == VK_LWIN)
    ||| (code == KEY_RIGHTMETA && vk == VK_RWIN)
    ||| (code == KEY_COMPOSE && vk == VK_APPS)
    ||| (code == KEY_NEXTSONG && vk == VK_MEDIA_NEXT_TRACK)
    ||| (code == KEY_PLAYPAUSE && vk == VK_MEDIA_PLAY_PAUSE)
    ||| (code == KEY_PREVIOUSSONG && vk == VK_MEDIA_PREV_TRACK)
    ||| (code == KEY_STOPCD && vk == VK_MEDIA_STOP)
}

/// Each key is paired with itself: every key with a name, every letter, every digit,
/// every function key and every digit of the number pad, and no other.
pub proof fn law_keys_are_paired_by_name(code: u32, vk: u16)
    ensures
        same_key(code, vk) <==> named_key(code, vk) || letter_key(code, vk) || digit_key(
            code,
            vk,
            vk - ('0' as int),
        ) || function_key(code, vk, vk - 0x6f) || pad_key(code, vk, vk - 0x60),
{
}

} // verus!
