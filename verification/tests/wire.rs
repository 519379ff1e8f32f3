use bytes::BytesMut;
use deskoryn::controller::Action;
use deskoryn::discovery::{
    build_info, is_other, link_local_v6, parse_fp, pick_address, set_pairing, to_hint,
    AdvertiseParams, Ip,
};
use deskoryn::endpoint::{
    accept_any, admit_expected, admit_known, announced_len, channel_id, peer_fingerprint,
    subject_name, Accepted, ChannelSlots, DeviceIdentity, SessionError,
};
use deskoryn::framing::{decode_one, encode, encode_if_room, read_be32, FrameError, MAX_FRAME_LEN};
use deskoryn::geometry::Point;
use deskoryn::hexcodec::HexError;
use deskoryn::ids::{DeviceId, MonitorId};
use deskoryn::input::{InputEvent, KeyCode, Modifiers};
use deskoryn::ipc::{msg_len, pipe_name, reply_len, tries_again, write_msg, MAX_CONTROL_LEN};
use deskoryn::message::{Channel, Control, Input};
use deskoryn::pairing::{code_of_digest, PairingSession, ShortAuthString};
use deskoryn::pump::{
    on_input, ControlEnd, ControlStep, Heartbeat, HeartbeatConfig, Incoming, InputPump, Tick,
};
use deskoryn::trust::{CertFingerprint, TrustStore, TrustedDevice};

fn id(n: u8) -> DeviceId {
    DeviceId::from_bytes([n; 16])
}

fn fp(n: u8) -> CertFingerprint {
    CertFingerprint([n; 32])
}

fn device(n: u8, f: u8) -> TrustedDevice {
    TrustedDevice {
        id: id(n),
        name: format!("dev-{}", n),
        fingerprint: fp(f),
        paired_at: 1,
        last_address: None,
    }
}

// --- Identifiers -------------------------------------------------------------

#[test]
fn ids_are_written_in_hexadecimal() {
    let d = DeviceId::from_bytes([0xab; 16]);
    assert_eq!(d.short(), "abababab");
    assert_eq!(d.to_hex(), "abababababababababababababababab");
    assert_eq!(DeviceId::from_hex(&d.to_hex()).unwrap(), d);
    assert_eq!(d.to_hex().parse::<DeviceId>().unwrap(), d);
    assert_eq!(MonitorId::new(d, 3).text(), "abababab:3");
}

#[test]
fn ids_that_are_no_ids_are_refused() {
    assert!(matches!(DeviceId::from_hex("abc"), Err(HexError::OddLength)));
    assert!(matches!(DeviceId::from_hex("abcd"), Err(HexError::InvalidStringLength)));
    let bad = "zb".to_string() + &"ab".repeat(15);
    assert!(matches!(
        DeviceId::from_hex(&bad),
        Err(HexError::InvalidHexCharacter { c: 'z', index: 0 })
    ));
}

#[test]
fn generated_ids_differ() {
    assert!(DeviceId::generate() != DeviceId::generate());
}

// --- Frames ------------------------------------------------------------------

#[test]
fn round_trip_and_partial() {
    let mut buf = BytesMut::new();
    let v: Vec<u8> = vec![1, 0];
    encode(&v, &mut buf).unwrap();

    let full = buf.split();
    let mut partial = BytesMut::from(&full[..full.len() - 1]);
    assert!(decode_one(&mut partial).unwrap().is_none());
    partial.extend_from_slice(&full[full.len() - 1..]);
    let got: Vec<u8> = decode_one(&mut partial).unwrap().unwrap();
    assert_eq!(got, v);
    assert!(partial.is_empty());
}

#[test]
fn frames_are_read_one_by_one() {
    let mut buf = BytesMut::new();
    encode(b"one", &mut buf).unwrap();
    encode(b"", &mut buf).unwrap();
    encode(b"three", &mut buf).unwrap();
    assert_eq!(&buf[..7], &[0, 0, 0, 3, b'o', b'n', b'e']);
    assert_eq!(decode_one(&mut buf).unwrap().unwrap(), b"one".to_vec());
    assert_eq!(decode_one(&mut buf).unwrap().unwrap(), b"".to_vec());
    assert_eq!(decode_one(&mut buf).unwrap().unwrap(), b"three".to_vec());
    assert!(decode_one(&mut buf).unwrap().is_none());
}

#[test]
fn frames_that_are_too_large_are_refused() {
    let mut out = BytesMut::new();
    let body = vec![0u8; MAX_FRAME_LEN + 1];
    assert!(matches!(encode(&body, &mut out), Err(FrameError::TooLarge(n)) if n == body.len()));
    let tried = encode_if_room(&body, &mut out);
    assert!(matches!(tried, Some(Err(FrameError::TooLarge(n))) if n == body.len()));
    assert!(out.is_empty());
    assert!(matches!(encode_if_room(&[7], &mut out), Some(Ok(()))));
    assert_eq!(&out[..], [0, 0, 0, 1, 7]);
    let mut buf = BytesMut::from(&[1u8, 0, 0, 1][..]);
    assert!(matches!(decode_one(&mut buf), Err(FrameError::TooLarge(0x0100_0001))));
    assert_eq!(read_be32(&[0, 0, 1, 2]), 258);
    assert!(matches!(
        announced_len(&[1, 0, 0, 1]),
        Err(SessionError::Transport(t)) if t == "frame too large: 16777217"
    ));
    assert!(matches!(announced_len(&[0, 0, 0, 9]), Ok(9)));
}

// --- Trust -------------------------------------------------------------------

#[test]
fn pins_decide_who_is_trusted() {
    let mut t = TrustStore::default();
    assert!(!t.verify(id(1), &fp(1)));
    t.upsert(device(1, 1));
    assert!(t.verify(id(1), &fp(1)));
    assert!(!t.verify(id(1), &fp(2)));
    t.upsert(device(1, 2));
    assert_eq!(t.devices.len(), 1);
    assert!(t.verify(id(1), &fp(2)));
    assert!(t.by_fingerprint(&fp(2)) == Some(id(1)));
    assert!(t.by_fingerprint(&fp(1)).is_none());
    t.upsert(device(2, 3));
    assert!(t.forget(id(1)));
    assert!(!t.forget(id(1)));
    assert!(t.get(id(1)).is_none());
    assert_eq!(t.get(id(2)).unwrap().name, "dev-2");
}

#[test]
fn fingerprints_are_hashes_of_certificates() {
    let f = CertFingerprint::of_der(b"certificate");
    assert_eq!(&f.0, blake3::hash(b"certificate").as_bytes());
    let mut bytes = [0u8; 32];
    bytes[..6].copy_from_slice(&[0x4f, 0x2a, 0x9c, 0x10, 0x00, 0xff]);
    assert_eq!(CertFingerprint(bytes).short(), "4F2A 9C10 00FF");
}

// --- Pairing codes -----------------------------------------------------------

#[test]
fn both_peers_derive_same_sas() {
    let a = fp(7);
    let b = fp(9);
    let exporter = b"shared-tls-channel-binding";
    let sas_a = ShortAuthString::derive(&a, &b, exporter);
    let sas_b = ShortAuthString::derive(&b, &a, exporter);
    assert_eq!(sas_a, sas_b);
    assert_eq!(sas_a.display().len(), 7);
}

#[test]
fn mitm_with_different_binding_fails_to_match() {
    let a = fp(7);
    let b = fp(9);
    let real = ShortAuthString::derive(&a, &b, b"binding-1");
    let mitm = ShortAuthString::derive(&a, &b, b"binding-2");
    assert_ne!(real, mitm);
}

#[test]
fn codes_are_shown_in_two_groups() {
    assert_eq!(ShortAuthString(42).display(), "000 042");
    assert_eq!(ShortAuthString(123_456).display(), "123 456");
    let mut d = [0u8; 32];
    d[3] = 7;
    d[0] = 1;
    assert!(code_of_digest(&d).0 < 1_000_000);
}

#[test]
fn a_confirmed_peer_is_pinned() {
    let name = "desk".to_string();
    let ps = PairingSession::new(id(1), fp(1), id(2), fp(2), name, b"binding");
    assert_eq!(ps.sas, ShortAuthString::derive(&fp(1), &fp(2), b"binding"));
    let d = ps.confirm(99, Some("10.0.0.2:1".to_string()));
    assert!(d.id == id(2) && d.fingerprint == fp(2));
    assert_eq!((d.name.as_str(), d.paired_at), ("desk", 99));
    assert_eq!(d.last_address.as_deref(), Some("10.0.0.2:1"));
}

// --- Sessions ----------------------------------------------------------------

#[test]
fn channels_have_their_own_streams() {
    assert_eq!(channel_id(Channel::Control), 0);
    assert_eq!(channel_id(Channel::Audio), 4);
    assert_eq!(ChannelSlots::dialled(), vec![0, 1, 2, 3, 4]);
    let mut s = ChannelSlots::from_tags(&vec![0, 2]);
    assert!(s.take(Channel::Clipboard).is_ok());
    assert!(matches!(
        s.take(Channel::Clipboard),
        Err(SessionError::NoChannel(Channel::Clipboard))
    ));
    assert!(s.take(Channel::Control).is_ok());
    assert!(s.take(Channel::Audio).is_err());
}

#[test]
fn identities_are_kept() {
    assert_eq!(subject_name(id(0xab)), format!("deskoryn-{}", id(0xab).to_hex()));
    let made = DeviceIdentity::generate(id(1)).unwrap();
    assert!(made.cert_der.len() > 100);
    assert!(made.fingerprint == CertFingerprint::of_der(&made.cert_der));
    let other = DeviceIdentity::generate(id(1)).unwrap();
    assert!(other.fingerprint != made.fingerprint);
    let kept = DeviceIdentity::load_or_generate(id(1), Some(vec![1]), Some(vec![2])).unwrap();
    assert_eq!((kept.0.cert_der, kept.1), (vec![1], false));
    let fresh = DeviceIdentity::load_or_generate(id(1), Some(vec![1]), None).unwrap();
    assert!(fresh.1 && fresh.0.cert_der != vec![1]);
}

#[test]
fn rejects_unpaired_peer() {
    let mut t = TrustStore::default();
    t.upsert(device(1, 1));
    assert!(matches!(admit_expected(&t, id(1), &fp(1)), Ok(d) if d == id(1)));
    match admit_expected(&t, id(1), &fp(2)) {
        Err(SessionError::Transport(m)) => assert!(m.ends_with("presented an unpinned certificate")),
        other => panic!("{:?}", other),
    }
    assert!(matches!(admit_known(&t, &fp(1), true), Ok(d) if d == id(1)));
    assert!(matches!(
        admit_known(&t, &fp(2), true),
        Err(SessionError::Transport(m)) if m == "peer at address is not paired"
    ));
    assert!(matches!(
        admit_known(&t, &fp(2), false),
        Err(SessionError::Transport(m)) if m == "rejected unpaired peer"
    ));
    assert_eq!(accept_any(&t, &fp(1), false), Accepted::Session(id(1)));
    assert_eq!(accept_any(&t, &fp(2), true), Accepted::Pair);
    assert_eq!(accept_any(&t, &fp(2), false), Accepted::Drop);
}

#[test]
fn peers_show_their_certificate() {
    assert!(peer_fingerprint(None).is_err());
    assert!(peer_fingerprint(Some(&vec![])).is_err());
    let chain = vec![b"first".to_vec(), b"second".to_vec()];
    assert!(peer_fingerprint(Some(&chain)).unwrap() == CertFingerprint::of_der(b"first"));
}

// --- Input and heartbeats ----------------------------------------------------

#[test]
fn actions_become_messages() {
    let mut p = InputPump::new();
    let none = p.on_action(Action::PassThrough);
    assert!(none.send.is_none() && none.grab.is_none());
    let at = Point::new(5, 6);
    let enter = p.on_action(Action::Enter { at, mods: Modifiers::shift() });
    assert_eq!(enter.grab, Some(true));
    assert!(matches!(
        enter.send,
        Some(Input::Enter { entry, mods }) if entry == at && mods == Modifiers::shift()
    ));
    let e = InputEvent::PointerMotion { dx: 1, dy: 2 };
    let first = p.on_action(Action::Forward(e)).send;
    let second = p.on_action(Action::Forward(e)).send;
    match (first, second) {
        (Some(Input::Events { seq: a, events }), Some(Input::Events { seq: b, .. })) => {
            assert_eq!(b, a + 1);
            assert_eq!(events, vec![e]);
        }
        other => panic!("{:?}", other),
    }
    let leave = p.on_action(Action::Leave);
    assert_eq!(leave.grab, Some(false));
    assert!(matches!(leave.send, Some(Input::Leave)));
}

#[test]
fn messages_become_input() {
    let at = Point::new(5, 6);
    let enter = Input::Enter { entry: at, mods: Modifiers::empty() };
    assert!(matches!(on_input(enter), Incoming::Enter { at: p, keys } if p == at && keys.is_empty()));
    let mods = Modifiers::ctrl() | Modifiers::shift() | Modifiers::caps();
    match on_input(Input::Enter { entry: at, mods }) {
        Incoming::Enter { keys, .. } => {
            let down = |code| InputEvent::Key { code: KeyCode(code), pressed: true, mods };
            assert_eq!(keys, vec![down(42), down(29)]);
        }
        other => panic!("{:?}", other),
    }
    assert!(matches!(on_input(Input::Leave), Incoming::Release));
    let events = vec![InputEvent::PointerMotion { dx: 1, dy: 2 }];
    match on_input(Input::Events { seq: 9, events: events.clone() }) {
        Incoming::Inject(es, Input::Ack { seq }) => {
            assert_eq!(es, events);
            assert_eq!(seq, 9);
        }
        other => panic!("{:?}", other),
    }
    assert!(matches!(on_input(Input::Ack { seq: 1 }), Incoming::Nothing));
}

fn fast() -> HeartbeatConfig {
    HeartbeatConfig { interval_ms: 20, max_missed: 3 }
}

#[test]
fn peers_keep_each_other_alive() {
    let mut h = Heartbeat::new();
    for _ in 0..10 {
        match h.on_tick(&fast()) {
            Tick::Probe(Control::Ping { nonce }) => {
                h.on_sent();
                let reply = h.on_control(Some(Control::Pong { nonce }));
                assert!(matches!(reply, ControlStep::Nothing));
            }
            other => panic!("{:?}", other),
        }
    }
}

#[test]
fn unresponsive_peer_trips_timeout() {
    let mut h = Heartbeat::new();
    for _ in 0..3 {
        assert!(matches!(h.on_tick(&fast()), Tick::Probe(_)));
        h.on_sent();
    }
    assert!(matches!(h.on_tick(&fast()), Tick::TimedOut));
    assert_eq!((HeartbeatConfig::default().interval_ms, HeartbeatConfig::default().max_missed), (1000, 5));
}

#[test]
fn goodbye_ends_cleanly() {
    let mut h = Heartbeat::new();
    let bye = Control::Goodbye { reason: "shutting down".to_string() };
    assert!(matches!(h.on_control(Some(bye)), ControlStep::End(ControlEnd::Goodbye)));
    assert!(matches!(h.on_control(None), ControlStep::End(ControlEnd::Eof)));
    match h.on_control(Some(Control::Ping { nonce: 4 })) {
        ControlStep::Reply(Control::Pong { nonce }) => assert_eq!(nonce, 4),
        other => panic!("{:?}", other),
    }
}

// --- Announcements -----------------------------------------------------------

fn params() -> AdvertiseParams {
    AdvertiseParams { device: id(0xab), name: "desk".to_string(), port: 7345, fp: fp(3) }
}

#[test]
fn announcements_read_back() {
    let a = build_info(&params(), true);
    assert_eq!((a.instance.as_str(), a.host.as_str()), ("abababab", "abababab.local."));
    assert_eq!(a.record.pair.as_deref(), Some("1"));
    let addrs = vec![Ip::V6(0xfe80 << 112), Ip::V4(0x0a00_0001)];
    let h = to_hint(&a.record, &addrs, a.port).unwrap();
    assert!(h.device == id(0xab) && h.pairing);
    assert_eq!((h.name.as_str(), h.port), ("desk", 7345));
    assert!(matches!(h.ip, Ip::V4(0x0a00_0001)));
    assert!(h.fingerprint == Some(fp(3)));
    assert!(is_other(&h, id(1)) && !is_other(&h, id(0xab)));
    assert!(set_pairing(&None, true).is_none());
    let off = set_pairing(&Some(params()), false).unwrap();
    assert!(!to_hint(&off.record, &addrs, 1).unwrap().pairing);
}

#[test]
fn hints_need_an_id_and_an_address() {
    let addrs = vec![Ip::V4(1)];
    let mut r = build_info(&params(), false).record;
    assert!(to_hint(&r, &vec![], 1).is_none());
    assert!(to_hint(&r, &vec![Ip::V6(0xfe80 << 112)], 1).is_none());
    r.fp = Some("zz".to_string());
    assert!(to_hint(&r, &addrs, 1).unwrap().fingerprint.is_none());
    r.id = Some("nonsense".to_string());
    assert!(to_hint(&r, &addrs, 1).is_none());
    r.id = None;
    assert!(to_hint(&r, &addrs, 1).is_none());
    assert!(parse_fp("00").is_none());
    assert!(parse_fp(&"03".repeat(32)) == Some(fp(3)));
}

#[test]
fn addresses_of_the_older_kind_win() {
    assert!(pick_address(&vec![]).is_none());
    let global = Ip::V6(0x2001 << 112);
    assert!(matches!(pick_address(&vec![global, Ip::V4(9)]), Some(Ip::V4(9))));
    assert!(matches!(pick_address(&vec![Ip::V6(0xfe80 << 112), global]), Some(Ip::V6(_))));
    assert!(link_local_v6(0xfebf << 112));
    assert!(!link_local_v6(0xfec0 << 112));
}

// --- The control socket ------------------------------------------------------

#[test]
fn control_messages_carry_their_length() {
    let framed = write_msg(b"{}");
    assert_eq!(framed.len(), 6);
    assert_eq!(msg_len(&framed[..4]), 2);
    assert_eq!(&framed[4..], b"{}");
    assert_eq!(reply_len(&framed[..4]), Some(2));
    let large = write_msg(&vec![0u8; MAX_CONTROL_LEN + 1]);
    assert_eq!(reply_len(&large[..4]), None);
    assert_eq!(pipe_name(Some("d.sock")), "\\\\.\\pipe\\d.sock");
    assert_eq!(pipe_name(None), "\\\\.\\pipe\\deskorynd.sock");
    assert!(tries_again(true, 39) && !tries_again(true, 40) && !tries_again(false, 0));
}
