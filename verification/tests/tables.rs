use deskoryn::keymap::{evdev_to_vk, vk_to_evdev};

const A: u32 = 30;
const N1: u32 = 2;
const F11: u32 = 87;
const F12: u32 = 88;
const LEFTMETA: u32 = 125;
const KP5: u32 = 76;
const KPPLUS: u32 = 78;
const VOLUMEUP: u32 = 115;
const SYSRQ: u32 = 99;
const COMPOSE: u32 = 127;
const VK_LWIN: u16 = 0x5B;
const VK_ADD: u16 = 0x6B;
const VK_VOLUME_UP: u16 = 0xAF;
const VK_SNAPSHOT: u16 = 0x2C;
const VK_APPS: u16 = 0x5D;

#[test]
fn known_anchors() {
    assert_eq!(evdev_to_vk(A), Some(0x41)); // a -> 'A'
    assert_eq!(evdev_to_vk(N1), Some(0x31)); // 1 -> '1'
    assert_eq!(evdev_to_vk(11), Some(0x30)); // KEY_0 -> '0'
    assert_eq!(evdev_to_vk(F12), Some(0x7B)); // F12
    assert_eq!(evdev_to_vk(LEFTMETA), Some(VK_LWIN));
    assert_eq!(evdev_to_vk(0xFFFF), None); // unmapped
    // Extended set: numpad, media, system.
    assert_eq!(evdev_to_vk(KP5), Some(0x65)); // VK_NUMPAD5
    assert_eq!(evdev_to_vk(KPPLUS), Some(VK_ADD));
    assert_eq!(evdev_to_vk(VOLUMEUP), Some(VK_VOLUME_UP));
    assert_eq!(evdev_to_vk(SYSRQ), Some(VK_SNAPSHOT)); // Print Screen
    assert_eq!(evdev_to_vk(COMPOSE), Some(VK_APPS)); // Menu
}

#[test]
fn round_trips_every_mapped_evdev_code() {
    // Every evdev code we can produce must map back to itself through VK.
    // Range covers the base set, numpad, system, and the media block (163+).
    let codes: Vec<u32> = (1u32..=170).chain([F11, F12]).collect();
    for code in codes {
        if let Some(vk) = evdev_to_vk(code) {
            assert_eq!(vk_to_evdev(vk), Some(code), "evdev {code} -> vk {vk:#x} did not round-trip");
        }
    }
}

#[test]
fn vk_letters_and_digits_round_trip() {
    for vk in (0x30u16..=0x39).chain(0x41..=0x5A) {
        let code = vk_to_evdev(vk).expect("letter/digit should map");
        assert_eq!(evdev_to_vk(code), Some(vk));
    }
}
