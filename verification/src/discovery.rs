//! Finding peers on the local network: what a device tells of itself, and what
//! is read from what others tell.

use crate::hexcodec::{hex_decode, hex_encode, hex_text, is_hex_decoded, law_hex_text_reads_back, HexError};
use crate::ids::DeviceId;
use crate::trust::CertFingerprint;
use vstd::prelude::*;

verus! {

/// The kind of service that a device is announced as.
pub const SERVICE_TYPE: &'static str = "_deskoryn._udp.local.";

/// An address, as a number: the first byte is the most significant.
#[derive(Clone, Copy, Debug, PartialEq, Eq, Structural)]
pub enum Ip {
    V4(u32),
    V6(u128),
}

/// An address that only works on one link of one machine: `fe80::/10`.
pub open spec fn is_link_local_v6(v: u128) -> bool {
    v as int / 0x40_0000_0000_0000_0000_0000_0000_0000 == 0x3fa
}

/// Whether an address only works on one link of one machine.
pub fn link_local_v6(v: u128) -> (b: bool)
    ensures
        b == is_link_local_v6(v),
{
    v / 0x40_0000_0000_0000_0000_0000_0000_0000u128 == 0x3fa
}

/// What is announced of a device, or read from an announcement.
#[derive(Debug)]
pub struct TxtRecord {
    pub id: Option<String>,
    pub name: Option<String>,
    pub fp: Option<String>,
    pub pair: Option<String>,
}

/// A peer that was found.
#[derive(Debug)]
pub struct PeerHint {
    pub device: DeviceId,
    pub name: String,
    /// The address to dial.
    pub ip: Ip,
    pub port: u16,
    /// The fingerprint that it announced.
    pub fingerprint: Option<CertFingerprint>,
    /// It waits to be paired.
    pub pairing: bool,
}

/// What a device announces of itself.
pub struct AdvertiseParams {
    pub device: DeviceId,
    pub name: String,
    pub port: u16,
    pub fp: CertFingerprint,
}

/// An announcement.
#[derive(Debug)]
pub struct Announcement {
    pub instance: String,
    pub host: String,
    pub port: u16,
    pub record: TxtRecord,
}

/// The record of an announcement.
pub open spec fn announces(r: TxtRecord, p: AdvertiseParams, pairing: bool) -> bool {
    &&& r.id matches Some(id) && id@ == hex_text(p.device.0@)
    &&& r.name matches Some(name) && name@ == p.name@
    &&& r.fp matches Some(fp) && fp@ == hex_text(p.fp.0@)
    &&& r.pair matches Some(pair) && pair@ == if pairing {
        "1"@
    } else {
        "0"@
    }
}

/// The announcement of a device: under the short form of its id, at its port, with
/// its record.
pub open spec fn is_announcement(a: Announcement, p: AdvertiseParams, pairing: bool) -> bool {
    &&& a.instance@ == hex_text(p.device.0@.subrange(0, 4))
    &&& a.host@ == hex_text(p.device.0@.subrange(0, 4)) + ".local."@
    &&& a.port == p.port
    &&& announces(a.record, p, pairing)
}

/// What a device announces of itself: under the short form of its id, its whole
/// id, its name, its fingerprint, and whether it waits to be paired.
pub fn build_info(p: &AdvertiseParams, pairing: bool) -> (a: Announcement)
    ensures
        is_announcement(a, *p, pairing),
{
    let mut host = p.device.short();
    host.append(".local.");
    let pair = if pairing {
        "1".to_owned()
    } else {
        "0".to_owned()
    };
    Announcement {
        instance: p.device.short(),
        host,
        port: p.port,
        record: TxtRecord {
            id: Some(p.device.to_hex()),
            name: Some(p.name.clone()),
            fp: Some(hex_encode(p.fp.0.as_slice())),
            pair: Some(pair),
        },
    }
}

/// The announcement to repeat when a device begins or ends to wait for pairing;
/// none where nothing was announced yet.
pub fn set_pairing(params: &Option<AdvertiseParams>, on: bool) -> (r: Option<Announcement>)
    ensures
        match params {
            Some(p) => r matches Some(a) && is_announcement(a, *p, on),
            None => r is None,
        },
{
    match params {
        Some(p) => Some(build_info(p, on)),
        None => None,
    }
}

/// Position `i` holds an address of the fourth version, and none before does.
pub open spec fn first_v4(addrs: Seq<Ip>, i: int) -> bool {
    &&& 0 <= i < addrs.len()
    &&& addrs[i] is V4
    &&& forall|j: int| 0 <= j < i ==> !(#[trigger] addrs[j] is V4)
}

/// An address of the sixth version that can be dialled from another machine.
pub open spec fn routable_v6(a: Ip) -> bool {
    a matches Ip::V6(v) && !is_link_local_v6(v)
}

/// The address to dial: the first of the fourth version; where there is none, the
/// first of the sixth that works beyond its link.
pub open spec fn is_picked(addrs: Seq<Ip>, r: Option<Ip>) -> bool {
    let no_v4 = forall|j: int| 0 <= j < addrs.len() ==> !(#[trigger] addrs[j] is V4);
    match r {
        Some(a) => {
            ||| exists|i: int| #[trigger] first_v4(addrs, i) && addrs[i] == a
            ||| {
                &&& no_v4
                &&& exists|i: int|
                    {
                        &&& 0 <= i < addrs.len()
                        &&& #[trigger] addrs[i] == a
                        &&& routable_v6(a)
                        &&& forall|j: int| 0 <= j < i ==> !routable_v6(#[trigger] addrs[j])
                    }
            }
        },
        None => no_v4 && forall|j: int| 0 <= j < addrs.len() ==> !routable_v6(#[trigger] addrs[j]),
    }
}

/// The address to dial, out of those that a peer announced.
pub fn pick_address(addrs: &Vec<Ip>) -> (r: Option<Ip>)
    ensures
        is_picked(addrs@, r),
{
    let mut i: usize = 0;
    while i < addrs.len()
        invariant
            0 <= i <= addrs.len(),
            forall|j: int| 0 <= j < i ==> !(#[trigger] addrs@[j] is V4),
        decreases addrs.len() - i,
    {
        if let Ip::V4(_) = addrs[i] {
            assert(first_v4(addrs@, i as int));
            return Some(addrs[i]);
        }
        i = i + 1;
    }
    let mut k: usize = 0;
    while k < addrs.len()
        invariant
            0 <= k <= addrs.len(),
            forall|j: int| 0 <= j < addrs@.len() ==> !(#[trigger] addrs@[j] is V4),
            forall|j: int| 0 <= j < k ==> !routable_v6(#[trigger] addrs@[j]),
        decreases addrs.len() - k,
    {
        if let Ip::V6(v) = addrs[k] {
            if !link_local_v6(v) {
                assert(addrs@[k as int] == Ip::V6(v));
                return Some(addrs[k]);
            }
        }
        k = k + 1;
    }
    None
}

/// The fingerprint that 64 hexadecimal digits spell.
pub fn parse_fp(s: &str) -> (r: Option<CertFingerprint>)
    ensures
        match r {
            Some(fp) => is_hex_decoded(vstd::utf8::encode_utf8(s@), 32, Ok(fp.0@)),
            None => exists|e: HexError|
                is_hex_decoded(vstd::utf8::encode_utf8(s@), 32, Err::<Seq<u8>, HexError>(e)),
        },
{
    match hex_decode::<32>(s.as_bytes()) {
        Ok(bytes) => Some(CertFingerprint(bytes)),
        Err(e) => {
            assert(is_hex_decoded(
                vstd::utf8::encode_utf8(s@),
                32,
                Err::<Seq<u8>, HexError>(e),
            ));
            None
        },
    }
}

/// The text spells these bytes.
pub open spec fn spells_bytes(s: Seq<char>, n: nat, b: Seq<u8>) -> bool {
    is_hex_decoded(vstd::utf8::encode_utf8(s), n, Ok::<Seq<u8>, HexError>(b))
}

/// The text spells no bytes of that number.
pub open spec fn spells_nothing(s: Seq<char>, n: nat) -> bool {
    exists|e: HexError|
        is_hex_decoded(vstd::utf8::encode_utf8(s), n, Err::<Seq<u8>, HexError>(e))
}

/// What an announcement says of a peer.
pub open spec fn hint_says(h: PeerHint, r: TxtRecord, port: u16) -> bool {
    &&& r.id matches Some(id) && spells_bytes(id@, 16, h.device.0@)
    &&& h.name@ == match r.name {
        Some(name) => name@,
        None => "deskoryn"@,
    }
    &&& h.port == port
    &&& match h.fingerprint {
        Some(fp) => r.fp matches Some(t) && spells_bytes(t@, 32, fp.0@),
        None => r.fp is None || (r.fp matches Some(t) && spells_nothing(t@, 32)),
    }
    &&& h.pairing == (r.pair matches Some(t) && t@ == "1"@)
}

/// Reads an announcement. One without a proper id, or without an address that can
/// be dialled, names no peer.
pub fn to_hint(r: &TxtRecord, addrs: &Vec<Ip>, port: u16) -> (h: Option<PeerHint>)
    ensures
        match h {
            Some(hint) => hint_says(hint, *r, port) && is_picked(addrs@, Some(hint.ip)),
            None => {
                ||| r.id is None
                ||| r.id matches Some(id) && spells_nothing(id@, 16)
                ||| is_picked(addrs@, None)
            },
        },
{
    let device = match &r.id {
        Some(id) => match DeviceId::from_hex(id.as_str()) {
            Ok(d) => d,
            Err(e) => {
                assert(is_hex_decoded(
                    vstd::utf8::encode_utf8(id@),
                    16,
                    Err::<Seq<u8>, HexError>(e),
                ));
                return None;
            },
        },
        None => {
            return None;
        },
    };
    let name = match &r.name {
        Some(n) => n.clone(),
        None => "deskoryn".to_owned(),
    };
    let fingerprint = match &r.fp {
        Some(t) => parse_fp(t.as_str()),
        None => None,
    };
    let pairing = match &r.pair {
        Some(t) => {
            let one = "1".to_owned();
            *t == one
        },
        None => false,
    };
    match pick_address(addrs) {
        Some(ip) => Some(PeerHint { device, name, ip, port, fingerprint, pairing }),
        None => None,
    }
}

/// Whether a hint is of another device than this one.
pub fn is_other(h: &PeerHint, local: DeviceId) -> (b: bool)
    ensures
        b == (h.device != local),
{
    h.device != local
}

/// What a device announces of itself is what others read: its id, its name, its
/// fingerprint, and whether it waits to be paired.
pub proof fn law_announcements_read_back(
    p: AdvertiseParams,
    pairing: bool,
    r: TxtRecord,
    h: PeerHint,
)
    requires
        announces(r, p, pairing),
        hint_says(h, r, p.port),
    ensures
        h.device == p.device,
        h.name@ == p.name@,
        h.port == p.port,
        h.fingerprint == Some(p.fp),
        h.pairing == pairing,
{
    law_hex_text_reads_back(p.device.0@, Ok(h.device.0@));
    assert(h.device.0 =~= p.device.0);
    match h.fingerprint {
        Some(fp) => {
            law_hex_text_reads_back(p.fp.0@, Ok(fp.0@));
            assert(fp.0 =~= p.fp.0);
        },
        None => {
            let t = r.fp.unwrap();
            let e = choose|e: HexError|
                is_hex_decoded(vstd::utf8::encode_utf8(t@), 32, Err::<Seq<u8>, HexError>(e));
            law_hex_text_reads_back(p.fp.0@, Err::<Seq<u8>, HexError>(e));
        },
    }
    reveal_strlit("1");
    reveal_strlit("0");
    if !pairing {
        assert("1"@[0] == '1');
        assert("0"@[0] == '0');
    }
}

/// An address that only works on its own link is never dialled, and one of the
/// fourth version is preferred.
pub proof fn law_picked_addresses_can_be_dialled(addrs: Seq<Ip>, a: Ip)
    requires
        is_picked(addrs, Some(a)),
    ensures
        addrs.contains(a),
        a matches Ip::V6(v) ==> !is_link_local_v6(v),
        (exists|j: int| 0 <= j < addrs.len() && #[trigger] addrs[j] is V4) ==> a is V4,
{
}

/// An address is good for its link only where its first group lies from fe80 to febf.
pub proof fn law_link_addresses_by_their_first_group(v: u128)
    ensures
        is_link_local_v6(v) <==> 0xfe80 <= v as int / 0x1_0000_0000_0000_0000_0000_0000_0000
            <= 0xfebf,
{
}

/// The first address of the fourth version is dialled, wherever it stands; without one, the
/// first of the sixth that works beyond its link; and none where there is neither.
pub proof fn law_the_first_of_the_better_kind_is_picked(addrs: Seq<Ip>, r: Option<Ip>, i: int)
    requires
        is_picked(addrs, r),
        0 <= i < addrs.len(),
    ensures
        addrs[i] is V4 && (forall|j: int| 0 <= j < i ==> #[trigger] addrs[j] is V6) ==> r == Some(
            addrs[i],
        ),
        (forall|j: int| 0 <= j < addrs.len() ==> #[trigger] addrs[j] is V6) && (addrs[i] matches Ip::V6(
            v,
        ) && !is_link_local_v6(v)) && (forall|j: int|
            0 <= j < i ==> (#[trigger] addrs[j] matches Ip::V6(w) ==> is_link_local_v6(w)))
            ==> r == Some(addrs[i]),
        r is None ==> (addrs[i] matches Ip::V6(v) && is_link_local_v6(v)),
{
    if addrs[i] is V4 && (forall|j: int| 0 <= j < i ==> #[trigger] addrs[j] is V6) {
        assert(r is Some);
        let k = choose|k: int| #[trigger] first_v4(addrs, k) && addrs[k] == r->0;
        assert(k == i);
    }
}

/// A device is announced under the first eight digits of its id, which its host is named
/// by as well, and at its own port; all digits of its id, its name and its fingerprint are
/// in the record, with a `1` exactly while it waits to be paired.
pub proof fn law_announcements_tell_of_the_device(
    a: Announcement,
    p: AdvertiseParams,
    pairing: bool,
)
    requires
        is_announcement(a, p, pairing),
    ensures
        a.instance@ == hex_text(p.device.0@.subrange(0, 4)),
        a.instance@.len() == 8,
        a.host@ == a.instance@ + ".local."@,
        a.port == p.port,
        a.record.id is Some && a.record.id->0@ == hex_text(p.device.0@),
        a.record.name is Some && a.record.name->0@ == p.name@,
        a.record.fp is Some && a.record.fp->0@ == hex_text(p.fp.0@),
        a.record.pair is Some && (a.record.pair->0@ == seq!['1'] <==> pairing),
        a.record.pair->0@ == seq!['0'] <==> !pairing,
{
    reveal_strlit("1");
    reveal_strlit("0");
    assert("1"@ =~= seq!['1']);
    assert("0"@ =~= seq!['0']);
    assert("1"@[0] != "0"@[0]);
}

} // verus!
