use deskoryn::devmap::DeviceMap;
use deskoryn::dialing::{
    after_try, dial_list, dial_order, dialable, is_virtual, local_addrs, Backoff, Dialer, Iface, Tried,
};
use deskoryn::discovery::Ip;
use deskoryn::audio::AudioDevice;
use deskoryn::config::AppConfig;
use deskoryn::clipboard::LocalClip;
use deskoryn::dryrun::{
    device_line, prints, synthetic_id, to_show, wiggle, SyntheticPeer, ToShow,
};
use deskoryn::geometry::{Rect, Size};
use deskoryn::ids::{DeviceId, MonitorId};
use deskoryn::input::{Button, InputEvent};
use deskoryn::ipc::{Feature, Features, NoticeLevel, UiEvent, UiRequest};
use deskoryn::layout::{Monitor, VirtualDesktop};
use deskoryn::message::{ClipFormat, Control};
use deskoryn::pairflow::{
    conclude, is_yes, pairing_event, pairing_hello, read_identity, IdentityError, PairState,
    Pairing,
};
use deskoryn::pairing::PairingSession;
use deskoryn::pump::{layout_of, ControlStep, Heartbeat};
use deskoryn::session::start_features;
use deskoryn::supervisor::{
    dials_after, monitor_views, unreachable_message, Daemon, DialAddr, DialFault, DiscEntry,
    Effect, PairDial, Surroundings, SIGHTING_MS,
};
use deskoryn::trust::{CertFingerprint, TrustStore, TrustedDevice};

fn id(n: u8) -> DeviceId {
    DeviceId::from_bytes([n; 16])
}

fn fp(n: u8) -> CertFingerprint {
    CertFingerprint([n; 32])
}

fn device(n: u8, name: &str, address: Option<&str>) -> TrustedDevice {
    TrustedDevice {
        id: id(n),
        name: name.to_string(),
        fingerprint: fp(n),
        paired_at: 1,
        last_address: address.map(|a| a.to_string()),
    }
}

fn monitor(dev: u8, index: u16, x: i32) -> Monitor {
    Monitor {
        id: MonitorId::new(id(dev), index),
        label: format!("m{}", index),
        bounds: Rect::new(x, 0, 1920, 1080),
        native: Size::new(1920, 1080),
        scale_pct: 100,
    }
}

fn session(n: u8) -> PairingSession {
    PairingSession::new(id(1), fp(1), id(n), fp(n), "peer".to_string(), b"binding")
}

// --- Maps by device ----------------------------------------------------------

#[test]
fn maps_hold_one_value_for_each_device() {
    let mut m: DeviceMap<u32> = DeviceMap::new();
    assert!(m.is_empty());
    m.insert(id(1), 10);
    m.insert(id(2), 20);
    m.insert(id(1), 11);
    assert_eq!(m.len(), 2);
    assert_eq!(m.get(id(1)), Some(&11));
    assert!(m.at(1).0 == id(2));
    m.remove(id(1));
    assert!(!m.contains(id(1)) && m.contains(id(2)));
}

// --- Pairing -----------------------------------------------------------------

fn phase(s: PairState) -> String {
    match pairing_event(s) {
        UiEvent::Pairing { phase, .. } => phase,
        other => panic!("{:?}", other),
    }
}

#[test]
fn windows_open_and_close() {
    let mut p = Pairing::default();
    assert_eq!(phase(p.snapshot()), "idle");
    p.set_discoverable(true);
    assert!(p.is_discoverable());
    assert_eq!(phase(p.snapshot()), "discoverable");
    p.set_discoverable(false);
    assert_eq!(phase(p.snapshot()), "idle");
}

#[test]
fn one_handshake_at_a_time() {
    let mut p = Pairing::default();
    p.set_discoverable(true);
    assert!(p.begin(true));
    assert!(!p.is_discoverable());
    assert!(!p.begin(false));
    assert_eq!(phase(p.snapshot()), "connecting");
    p.prompt(&session(2));
    match pairing_event(p.snapshot()) {
        UiEvent::Pairing { phase, sas, peer } => {
            assert_eq!((phase.as_str(), peer.as_str()), ("prompt", "peer"));
            assert_eq!(sas, session(2).sas.display());
        }
        other => panic!("{:?}", other),
    }
    assert_eq!(p.respond(true), Some(true));
    assert_eq!(p.respond(true), None);
    p.finish(Ok((true, "peer".to_string())));
    assert!(dials_after(&p.snapshot()));
    assert_eq!(phase(p.snapshot()), "paired");
    assert!(p.begin(false));
}

#[test]
fn handshakes_are_called_off() {
    let mut p = Pairing::default();
    p.begin(false);
    p.prompt(&session(2));
    assert_eq!(p.clear(), Some(false));
    assert_eq!(p.clear(), None);
    p.begin(true);
    p.fail("no route".to_string());
    assert!(!dials_after(&p.snapshot()));
    assert_eq!(phase(p.snapshot()), "error");
    p.finish(Ok((false, "peer".to_string())));
    assert_eq!(phase(p.snapshot()), "aborted");
}

#[test]
fn pairing_derives_matching_sas_and_pins_trust() {
    let a = PairingSession::new(id(1), fp(1), id(2), fp(2), "device-b".to_string(), b"x");
    let b = PairingSession::new(id(2), fp(2), id(1), fp(1), "device-a".to_string(), b"x");
    assert_eq!(a.sas, b.sas);
    let mut trust = TrustStore::default();
    assert!(!conclude(&mut trust, &a, None, 5, None));
    assert!(!conclude(&mut trust, &a, Some(false), 5, None));
    assert!(trust.devices.is_empty());
    assert!(conclude(&mut trust, &a, Some(true), 5, None));
    assert!(trust.verify(id(2), &fp(2)));
}

#[test]
fn peers_say_who_they_are() {
    let hello = pairing_hello(id(3), &"desk".to_string());
    match read_identity(Some(Some(hello))) {
        Ok((d, name)) => assert!(d == id(3) && name == "desk"),
        Err(e) => panic!("{:?}", e),
    }
    assert!(matches!(read_identity(None), Err(IdentityError::Closed)));
    assert!(matches!(read_identity(Some(None)), Err(IdentityError::ShortFrame)));
    let ping = Control::Ping { nonce: 1 };
    assert!(matches!(read_identity(Some(Some(ping))), Err(IdentityError::Unexpected)));
}

#[test]
fn only_a_yes_is_a_yes() {
    assert!(is_yes(" Y\n") && is_yes("yes") && is_yes("YES"));
    assert!(!is_yes("") && !is_yes("no") && !is_yes("yess"));
}

// --- Dialling ----------------------------------------------------------------

#[test]
fn waits_double_up_to_the_limit() {
    let mut b = Backoff::default();
    let waits: Vec<u64> = (0..8).map(|_| b.next()).collect();
    assert_eq!(waits, vec![500, 1000, 2000, 4000, 8000, 16000, 30000, 30000]);
    assert_eq!(after_try(&mut b, Tried::BadAddress), None);
    assert_eq!(after_try(&mut b, Tried::Failed), Some(30000));
    assert_eq!(after_try(&mut b, Tried::Ended), Some(500));
    assert_eq!(after_try(&mut b, Tried::Failed), Some(1000));
}

#[test]
fn known_addresses_are_dialled_once() {
    let mut trust = TrustStore::default();
    trust.upsert(device(2, "b", Some("10.0.0.2:1")));
    trust.upsert(device(3, "c", None));
    let peers = vec!["10.0.0.1:1".to_string(), "10.0.0.2:1".to_string()];
    assert_eq!(dial_list(&peers, &trust), peers);
}

#[test]
fn one_side_dials() {
    let mut low = Dialer::new();
    let mut high = Dialer::new();
    let a = low.on_sighting(id(1), id(2), true);
    let b = high.on_sighting(id(2), id(1), true);
    assert!(a != b);
    let dialler = if a { &mut low } else { &mut high };
    let (me, peer) = if a { (id(1), id(2)) } else { (id(2), id(1)) };
    assert!(!dialler.on_sighting(me, peer, true));
    dialler.on_end(peer);
    assert!(dialler.on_sighting(me, peer, true));
    assert!(!Dialer::new().on_sighting(me, peer, false));
}

#[test]
fn addresses_that_nobody_reaches_are_left_out() {
    assert!(is_virtual("docker0") && is_virtual("lo") && is_virtual("Tailscale0"));
    assert!(!is_virtual("eth0") && !is_virtual("wlan0"));
    assert!(dialable(Ip::V4(0xc0a8_0001)));
    assert!(!dialable(Ip::V4(0x7f00_0001)));
    assert!(!dialable(Ip::V4(0xa9fe_0001)));
    assert!(!dialable(Ip::V4(0)));
    assert!(!dialable(Ip::V6(1)));
    assert!(!dialable(Ip::V6(0xfe80 << 112)));
    let iface = |name: &str, ip| Iface { name: name.to_string(), ip };
    let all = vec![
        iface("lo", Ip::V4(0x7f00_0001)),
        iface("eth0", Ip::V6(0x2001 << 112)),
        iface("eth0", Ip::V4(0xc0a8_0001)),
        iface("docker0", Ip::V4(0xac11_0001)),
    ];
    let row = local_addrs(&all);
    assert_eq!(row.len(), 2);
    assert!(row.iter().any(|ip| matches!(ip, Ip::V4(0xc0a8_0001))));
}

// --- The daemon --------------------------------------------------------------

fn daemon() -> Daemon {
    let mut trust = TrustStore::default();
    trust.upsert(device(2, "laptop", Some("10.0.0.2:1")));
    Daemon {
        device_name: "test-device".to_string(),
        device_id: id(1),
        port: 7345,
        trust,
        connected: DeviceMap::new(),
        layouts: DeviceMap::new(),
        discovered: DeviceMap::new(),
        pairing: Pairing::default(),
        features: Features { input: true, clipboard: true, audio: false },
    }
}

fn dial(n: u32) -> DialAddr {
    DialAddr { ip: Ip::V4(n), port: 1, scope: 0, text: format!("10.0.0.{}:1", n) }
}

fn around() -> Surroundings {
    Surroundings {
        now_ms: 1_000_000,
        own: Some(vec![monitor(1, 0, 0)]),
        addrs: vec!["10.0.0.1:7345".to_string()],
        firewall_hint: None,
        target: Err("none".to_string()),
    }
}

#[test]
fn ipc_status_round_trip() {
    let mut d = daemon();
    d.on_session(id(2), vec![monitor(2, 0, 0)]);
    let r = d.handle(UiRequest::Status, around());
    match &r.events[0] {
        UiEvent::Status { device_name, peers, active, port, addrs, monitors, .. } => {
            assert_eq!((device_name.as_str(), *port), ("test-device", 7345));
            assert_eq!(peers.len(), 1);
            assert_eq!(peers[0].name, "laptop");
            assert!(peers[0].connected && *active);
            assert_eq!(addrs.len(), 1);
            assert_eq!(monitors.len(), 1);
        }
        other => panic!("expected Status, got {:?}", other),
    }
    d.on_session_end(id(2));
    match d.handle(UiRequest::Status, around()).events.remove(0) {
        UiEvent::Status { peers, active, .. } => assert!(!peers[0].connected && !active),
        other => panic!("{:?}", other),
    }
}

#[test]
fn arrangements_are_kept_and_shown() {
    let mut d = daemon();
    let peer = || id(2).to_hex();
    let ask = || UiRequest::Arrangement { peer: peer() };
    assert!(d.handle(ask(), around()).events.is_empty());
    d.on_session(id(2), vec![monitor(2, 0, i32::MIN)]);
    assert!(!d.can_answer(&ask(), &around()));
    assert!(d.can_answer(&UiRequest::Status, &around()));
    d.on_session(id(2), vec![monitor(2, 0, 0)]);
    assert!(d.can_answer(&ask(), &around()));
    match d.handle(ask(), around()).events.remove(0) {
        UiEvent::Arrangement { layout, own, theirs, .. } => {
            assert_eq!((own.len(), theirs.len()), (1, 1));
            assert_eq!(layout.monitors[1].bounds.x, 1920);
        }
        other => panic!("{:?}", other),
    }
    let layout = VirtualDesktop::new(vec![monitor(2, 0, -1920), monitor(1, 0, 0)]);
    let r = d.handle(UiRequest::SetLayout { peer: peer(), layout }, around());
    match r.effect {
        Effect::SaveLayout { peer, news: Some(msg) } => {
            assert_eq!(peer, id(2));
            assert_eq!(layout_of(&msg).unwrap().monitors[0].bounds.x, -1920);
            match Heartbeat::new().on_control(Some(msg)) {
                ControlStep::Layout(l) => assert_eq!(l.monitors[0].bounds.x, -1920),
                other => panic!("{:?}", other),
            }
        }
        other => panic!("{:?}", other),
    }
    match d.handle(ask(), around()).events.remove(0) {
        UiEvent::Arrangement { layout, .. } => assert_eq!(layout.monitors[0].bounds.x, -1920),
        other => panic!("{:?}", other),
    }
    d.on_session_end(id(2));
    let layout = VirtualDesktop::new(vec![monitor(1, 0, 0)]);
    let r = d.handle(UiRequest::SetLayout { peer: peer(), layout }, around());
    assert!(matches!(r.effect, Effect::SaveLayout { peer, news: None } if peer == id(2)));
    let bad = UiRequest::SetLayout { peer: "?".to_string(), layout: VirtualDesktop::default() };
    assert!(matches!(d.handle(bad, around()).effect, Effect::Nothing));
}

#[test]
fn arrangements_of_a_peer_are_kept() {
    let mut d = daemon();
    d.on_session(id(2), vec![monitor(2, 0, 0)]);
    let sent = VirtualDesktop::new(vec![monitor(2, 0, -1920), monitor(1, 0, 0)]);
    let e = d.on_peer_layout(id(2), sent);
    assert!(matches!(e, Effect::SaveLayout { peer, news: None } if peer == id(2)));
    let far = VirtualDesktop::new(vec![monitor(2, 0, i32::MAX)]);
    assert!(matches!(d.on_peer_layout(id(2), far), Effect::Nothing));
    assert_eq!(d.layouts.get(id(2)).unwrap().monitors[0].bounds.x, -1920);
    assert!(layout_of(&Control::Ping { nonce: 1 }).is_none());
}

#[test]
fn addresses_are_told_apart_by_their_link() {
    let scoped = |scope| DialAddr { ip: Ip::V6(1), port: 1, scope, text: scope.to_string() };
    let mut d = daemon();
    let addrs = vec![scoped(0), dial(6)];
    let entry = DiscEntry { name: "near".to_string(), addrs, pairing: true, last_seen_ms: 0 };
    d.on_sighting(id(5), entry);
    for (scope, tried) in [(0, 2), (3, 1)] {
        let mut s = around();
        s.target = Ok(scoped(scope));
        match d.handle(UiRequest::Pair { addr: "x".to_string() }, s).effect {
            Effect::DialToPair(v) => assert_eq!(v.len(), tried),
            other => panic!("{:?}", other),
        }
    }
}

#[test]
fn a_peer_is_dialled_at_its_best_address_first() {
    let (near, link, best) = (Ip::V4(0x0a00_0001), Ip::V4(0xa9fe_0001), Ip::V4(0xa9fe_0002));
    let row = dial_order(best, &vec![link, best, near, Ip::V6(1)]);
    assert_eq!(row, vec![best, near]);
}

#[test]
fn peers_nearby_are_listed_while_they_wait() {
    let mut d = daemon();
    let entry = |pairing, last_seen_ms| DiscEntry {
        name: "near".to_string(),
        addrs: vec![dial(5), dial(6)],
        pairing,
        last_seen_ms,
    };
    d.on_sighting(id(5), entry(true, 1_000_000 - SIGHTING_MS + 1));
    d.on_sighting(id(6), entry(false, 1_000_000));
    d.on_sighting(id(7), entry(true, 1_000_000 - SIGHTING_MS));
    match d.handle(UiRequest::DiscoveredPeers, around()).events.remove(0) {
        UiEvent::Discovered { peers } => {
            assert_eq!(peers.len(), 1);
            assert_eq!(peers[0].addr, "10.0.0.5:1");
            assert!(!peers[0].trusted);
        }
        other => panic!("{:?}", other),
    }
    let mut s = around();
    s.target = Ok(dial(6));
    let r = d.handle(UiRequest::Pair { addr: "10.0.0.6:1".to_string() }, s);
    match r.effect {
        Effect::DialToPair(v) => assert_eq!(v.len(), 2),
        other => panic!("{:?}", other),
    }
}

#[test]
fn requests_to_pair_open_a_window_or_dial() {
    let mut d = daemon();
    let mut s = around();
    s.firewall_hint = Some("blocked".to_string());
    let r = d.handle(UiRequest::Pair { addr: "  ".to_string() }, s);
    assert!(matches!(r.effect, Effect::Advertise(true)));
    assert!(d.pairing.is_discoverable());
    assert!(matches!(
        &r.events[1],
        UiEvent::Notice { level: NoticeLevel::Warning, text } if text == "blocked"
    ));
    let r = d.handle(UiRequest::Pair { addr: "x".to_string() }, around());
    assert!(matches!(r.effect, Effect::Advertise(false)));
    assert!(matches!(d.pairing.snapshot(), PairState::Error(e) if e == "bad address: none"));
    let r = d.handle(UiRequest::PairConfirm { accept: true }, around());
    assert!(matches!(r.effect, Effect::Nothing));
    d.pairing.begin(true);
    d.pairing.prompt(&session(3));
    let r = d.handle(UiRequest::PairConfirm { accept: true }, around());
    assert!(matches!(r.effect, Effect::Answer(true)));
    let r = d.handle(UiRequest::PairCancel, around());
    assert!(matches!(r.effect, Effect::CallOff(None)));
    assert_eq!(d.handle(UiRequest::PairStatus, around()).events.len(), 1);
    let f = UiRequest::SetFeature { feature: Feature::AudioForward, enabled: true };
    let r = d.handle(f, around());
    assert!(r.events.is_empty());
    assert!(matches!(
        r.effect,
        Effect::SetFeature { feature: Feature::AudioForward, enabled: true }
    ));
    assert_eq!(d.features, Features { input: true, clipboard: true, audio: true });
    let f = UiRequest::SetFeature { feature: Feature::InputSharing, enabled: false };
    d.handle(f, around());
    assert!(!d.features.allows(Feature::InputSharing));
    assert!(d.features.allows(Feature::ClipboardSync));
}

#[test]
fn features_start_as_the_settings_say() {
    let mut config = AppConfig::bootstrap("desk".to_string());
    let f = start_features(&config);
    assert_eq!(f, Features { input: true, clipboard: true, audio: false });
    config.clipboard.sync_text = false;
    config.clipboard.sync_images = false;
    config.clipboard.sync_files = false;
    config.audio.forward_enabled = true;
    let f = start_features(&config);
    assert_eq!(f, Features { input: true, clipboard: false, audio: true });
}

#[test]
fn addresses_are_dialled_in_turn() {
    let mut round = PairDial::new("10.0.0.1:1".to_string(), vec![dial(1), dial(2)]);
    assert!(matches!(round.attempt(), Some((a, 5_000)) if a.text == "10.0.0.1:1"));
    round.on_fault(DialFault::TimedOut);
    assert_eq!(round.last, "timed out");
    assert!(matches!(round.attempt(), Some((a, 5_000)) if a.text == "10.0.0.2:1"));
    round.on_fault(DialFault::Failed("refused".to_string()));
    assert!(round.attempt().is_none());
    assert_eq!(round.give_up(), unreachable_message("10.0.0.1:1", 2, "refused"));
    let none = PairDial::new("x".to_string(), vec![]);
    assert!(none.attempt().is_none());
    assert!(none.give_up().contains("last: no address"));
}

#[test]
fn devices_are_forgotten_by_name() {
    let mut d = daemon();
    let r = d.handle(UiRequest::Forget { device: "nobody".to_string() }, around());
    assert!(matches!(r.effect, Effect::Nothing));
    let r = d.handle(UiRequest::Forget { device: "laptop".to_string() }, around());
    assert!(matches!(r.effect, Effect::SaveTrust));
    assert!(d.trust.get(id(2)).is_none());
}

#[test]
fn monitors_are_told_apart() {
    let vs = monitor_views(&vec![monitor(1, 0, 5), monitor(2, 1, 6)], id(1));
    assert_eq!((vs[0].dev, vs[1].dev), (0, 1));
    assert_eq!((vs[0].x, vs[1].index), (5, 1));
    let m = unreachable_message("a:1", 3, "timed out");
    assert!(m.starts_with("couldn't reach a:1 ") && m.ends_with("(tried 3 address(es); last: timed out)"));
}

// --- The made-up peer --------------------------------------------------------

#[test]
fn the_made_up_peer_greets_answers_and_leaves() {
    let mut p = SyntheticPeer::new();
    let hello = p.on_message(None);
    assert!(matches!(&hello[0], Control::Hello { device, .. } if *device == synthetic_id()));
    assert_eq!(p.on_message(Some(Control::Ping { nonce: 1 })).len(), 1);
    assert!(p.on_message(Some(Control::Pong { nonce: 1 })).is_empty());
    let last = p.on_message(Some(Control::Ping { nonce: 2 }));
    assert!(matches!(&last[0], Control::Pong { nonce: 2 }));
    assert!(matches!(&last[1], Control::Goodbye { reason } if reason == "demo complete"));
    assert!(p.done());
}

#[test]
fn the_wiggle_comes_back() {
    let mut x = 0;
    for e in wiggle() {
        if let InputEvent::PointerMotion { dx, .. } = e {
            x += dx;
        }
    }
    assert_eq!(x, 0);
    let motion = InputEvent::PointerMotion { dx: 1, dy: 0 };
    assert!(prints(motion, 20) && !prints(motion, 21));
    assert!(prints(InputEvent::Button { button: Button::Left, pressed: true }, 21));
}

#[test]
fn diagnostics_show_what_there_is() {
    let change = |formats| LocalClip { seq: 1, formats };
    assert_eq!(to_show(&change(vec![ClipFormat::FileList])), ToShow::Files);
    assert_eq!(to_show(&change(vec![ClipFormat::Png])), ToShow::PictureSize);
    assert_eq!(to_show(&change(vec![ClipFormat::Html])), ToShow::Text);
    assert_eq!(to_show(&change(vec![])), ToShow::Text);
    let device = |is_default| AudioDevice {
        id: "a".to_string(),
        label: "Speakers".to_string(),
        is_default,
    };
    assert_eq!(device_line(&device(true)), "  * Speakers");
    assert_eq!(device_line(&device(false)), "    Speakers");
}
