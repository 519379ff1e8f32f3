use deskoryn::arranger::{
    align_tops, snap, starter, tile_at, to_virtual_desktop, CanvasEvent, DragState, Handled, MonTile,
};
use deskoryn::ipc::{DiscoveredPeer, Feature, NoticeLevel, PeerStatus, UiEvent, UiRequest};
use deskoryn::panels::{connection_panel, extent_line, pairing_panel, status_lines, status_panel, PairPanel};
use deskoryn::procs::{
    answer_line, chosen_bin, pair_args, parse_peer_name, parse_sas, resolve, search_plan,
    start_args, usable_bin, BinInfo, BinSource, Lifecycle, PairNews, PairWatch,
};
use deskoryn::tray::{status_line, App, Back, Message, Screen, Task};

fn some(s: &str) -> Option<String> {
    Some(s.to_string())
}

fn tile(x: i32, y: i32, w: i32, h: i32) -> MonTile {
    MonTile { dev: 0, index: 0, label: "t".to_string(), x, y, w, h }
}

// --- Arranging by hand -------------------------------------------------------

#[test]
fn near_edges_meet() {
    let tiles = vec![tile(0, 0, 100, 100), tile(500, 500, 300, 300)];
    assert_eq!(snap(1, 130, 20, &tiles), (100, 0));
    assert_eq!(snap(1, -330, 700, &tiles), (-300, 700));
    assert_eq!(snap(1, 400, 400, &tiles), (400, 400));
}

#[test]
fn tiles_are_hit_from_the_top() {
    let tiles = vec![tile(0, 0, 100, 100), tile(50, 50, 100, 100)];
    assert_eq!(tile_at(&tiles, 10, 10), Some(0));
    assert_eq!(tile_at(&tiles, 60, 60), Some(1));
    assert_eq!(tile_at(&tiles, 500, 10), None);
}

#[test]
fn tiles_become_a_desktop() {
    let d = to_virtual_desktop(&starter());
    assert_eq!(d.monitors.len(), 5);
    assert_eq!(d.monitors[3].label, "Win-L");
    assert_eq!(d.monitors[3].bounds.x, 5760);
    assert!(d.monitors[0].id.device != d.monitors[3].id.device);
    let mut tiles = vec![tile(0, 30, 10, 10), tile(20, -5, 10, 10)];
    align_tops(&mut tiles);
    assert_eq!((tiles[0].y, tiles[1].y), (-5, -5));
}

#[test]
fn tiles_are_dragged_from_press_to_release() {
    let tiles = vec![tile(0, 0, 100, 100), tile(500, 500, 300, 300)];
    let mut d = DragState { active: None };
    assert_eq!(d.update(true, CanvasEvent::Moved { to_x: 1, to_y: 1 }, &tiles), Handled::Ignored);
    assert_eq!(d.update(true, CanvasEvent::Pressed { x: 300, y: 300 }, &tiles), Handled::Ignored);
    assert_eq!(d.update(false, CanvasEvent::Pressed { x: 600, y: 600 }, &tiles), Handled::Ignored);
    assert_eq!(d.active, None);
    assert_eq!(d.update(true, CanvasEvent::Pressed { x: 600, y: 600 }, &tiles), Handled::Captured);
    assert_eq!(d.active, Some(1));
    let moved = d.update(true, CanvasEvent::Moved { to_x: 130, to_y: 20 }, &tiles);
    assert_eq!(moved, Handled::Move { idx: 1, x: 100, y: 0 });
    assert_eq!(d.update(false, CanvasEvent::Moved { to_x: 9, to_y: 9 }, &tiles), Handled::Ignored);
    assert_eq!(d.update(true, CanvasEvent::Other, &tiles), Handled::Ignored);
    assert_eq!(d.active, Some(1));
    assert_eq!(d.update(false, CanvasEvent::Released, &tiles), Handled::Ignored);
    assert_eq!(d.active, None);
}

// --- The screens -------------------------------------------------------------

fn peer_status(name: &str, connected: bool, latency_ms: Option<u32>) -> PeerStatus {
    PeerStatus {
        name: name.to_string(),
        device: "ab".to_string(),
        connected,
        address: None,
        latency_ms,
    }
}

#[test]
fn the_status_screen_lists_the_peers() {
    let mut a = App::new();
    let p = status_panel(&a);
    assert_eq!(p.heading, "This workspace");
    assert_eq!(
        p.lines,
        vec!["The deskorynd daemon isn't reachable.", "Start it from the Connection tab."]
    );
    a.daemon.reachable = true;
    assert_eq!(
        status_panel(&a).lines,
        vec!["0 of 0 devices connected", "No paired devices yet."]
    );
    a.daemon.device_name = "desk".to_string();
    a.daemon.peers = vec![
        peer_status("a", true, Some(12)),
        peer_status("b", true, None),
        peer_status("c", false, Some(3)),
    ];
    let p = status_panel(&a);
    assert_eq!(p.heading, "This workspace - desk");
    assert_eq!(p.lines, vec!["2 of 3 devices connected"]);
    let metas: Vec<&str> = p.peers.iter().map(|r| r.meta.as_str()).collect();
    assert_eq!(metas, vec!["12 ms", "connected", "offline"]);
    assert_eq!((p.peers[2].name.as_str(), p.peers[2].connected), ("c", false));
}

#[test]
fn the_command_line_tells_the_status() {
    let none: Vec<PeerStatus> = vec![];
    assert_eq!(
        status_lines("desk", false, &none),
        vec!["device: desk", "active: false", "peers:  (none paired)"]
    );
    let peers = vec![peer_status("a", true, None), peer_status("b", false, None)];
    assert_eq!(
        status_lines("desk", true, &peers),
        vec!["device: desk", "active: true", "peers:", "  - a [connected]", "  - b [offline]"]
    );
}

#[test]
fn the_connection_screen_follows_the_daemon() {
    let mut a = App::new();
    let p = connection_panel(&a);
    assert_eq!((p.state.as_str(), p.bin_state.as_str()), ("stopped", "not found"));
    assert!(!p.can_start && !p.can_stop && p.can_edit);
    a.bin = BinInfo { path: some("/x"), source: BinSource::Path, exists_there: true };
    let p = connection_panel(&a);
    assert_eq!(p.bin_state, "resolved (path)");
    assert!(p.can_start && !p.can_stop && p.can_edit);
    a.life = Lifecycle { running: true, pairing: false };
    let p = connection_panel(&a);
    assert_eq!(p.state, "running");
    assert!(!p.can_start && p.can_stop && !p.can_edit);
    a.daemon.port = 7345;
    assert_eq!(connection_panel(&a).state, "running - listening on port 7345");
}

#[test]
fn the_arranger_tells_its_extent() {
    assert_eq!(extent_line(&vec![]), "-");
    assert_eq!(extent_line(&starter()), "5 displays - 10880 x 1440 virtual");
    let tiles = vec![tile(-100, 20, 50, 10), tile(30, -40, 5, 5)];
    assert_eq!(extent_line(&tiles), "2 displays - 135 x 70 virtual");
}

#[test]
fn the_pairing_panel_follows_the_phase() {
    let mut a = App::new();
    assert!(matches!(pairing_panel(&a), PairPanel::NeedsDaemon));
    a.daemon.reachable = true;
    let near = |name: &str, trusted: bool| DiscoveredPeer {
        name: name.to_string(),
        addr: "10.0.0.2:1".to_string(),
        device: "ab".to_string(),
        trusted,
    };
    a.nearby = vec![near("x", false), near("y", true), near("z", false)];
    a.inputs.pair_addr = "  ".to_string();
    match pairing_panel(&a) {
        PairPanel::Idle { nearby, can_connect } => {
            assert_eq!(nearby, vec![0, 2]);
            assert!(!can_connect);
        }
        other => panic!("{other:?}"),
    }
    a.inputs.pair_addr = "10.0.0.3:1".to_string();
    assert!(matches!(pairing_panel(&a), PairPanel::Idle { can_connect: true, .. }));
    a.pair.phase = "prompt".to_string();
    a.pair.sas = "123 456".to_string();
    match pairing_panel(&a) {
        PairPanel::Prompt { question, code } => {
            assert_eq!(question, "Pair with this device?");
            assert_eq!(code, "123 456");
        }
        other => panic!("{other:?}"),
    }
    a.pair.peer = "laptop".to_string();
    match pairing_panel(&a) {
        PairPanel::Prompt { question, .. } => assert_eq!(question, "Pair with 'laptop'?"),
        other => panic!("{other:?}"),
    }
    a.pair.phase = "error".to_string();
    match pairing_panel(&a) {
        PairPanel::Failed { text } => assert_eq!(text, "Pairing error: laptop"),
        other => panic!("{other:?}"),
    }
    a.pair.phase = "discoverable".to_string();
    match pairing_panel(&a) {
        PairPanel::Discoverable { lines } => {
            assert_eq!(lines, vec!["This device: (no routable address found)"])
        }
        other => panic!("{other:?}"),
    }
    a.daemon.local_addrs = vec!["10.0.0.1:7345".to_string()];
    match pairing_panel(&a) {
        PairPanel::Discoverable { lines } => {
            assert_eq!(lines, vec!["This device:", "10.0.0.1:7345"])
        }
        other => panic!("{other:?}"),
    }
    a.pair.phase = "connecting".to_string();
    assert!(matches!(pairing_panel(&a), PairPanel::Connecting));
    a.pair.phase = "aborted".to_string();
    assert!(matches!(pairing_panel(&a), PairPanel::Aborted));
}

// --- Running the daemon ------------------------------------------------------

#[test]
fn programs_are_looked_for_in_order() {
    let above = vec!["/ui/target/debug".to_string(), "/ui".to_string()];
    let path = vec!["/usr/bin".to_string()];
    let plan = search_plan(&above, &path, "deskorynd");
    let paths: Vec<&str> = plan.iter().map(|p| p.path.as_str()).collect();
    assert_eq!(
        paths,
        vec![
            "/ui/target/debug/deskorynd",
            "/ui/target/debug/target/debug/deskorynd",
            "/ui/target/debug/deskorynd",
            "/ui/target/debug/target/release/deskorynd",
            "/ui/target/release/deskorynd",
            "/usr/bin/deskorynd",
        ]
    );
    assert_eq!(resolve(&some("/x"), &some("/y"), &plan, Some(0)), (some("/x"), BinSource::Override));
    assert_eq!(resolve(&None, &some("/y"), &plan, Some(0)), (some("/y"), BinSource::Override));
    let last = resolve(&None, &None, &plan, Some(5));
    assert_eq!(last, (some("/usr/bin/deskorynd"), BinSource::Path));
    assert_eq!(resolve(&None, &None, &plan, None), (None, BinSource::Nowhere));
}

#[test]
fn programs_must_be_there() {
    assert_eq!(chosen_bin(some("  ")), None);
    assert_eq!(chosen_bin(some("/x")), some("/x"));
    assert_eq!(usable_bin(some("/x"), true), Ok("/x".to_string()));
    assert_eq!(usable_bin(some("/x"), false), Err("deskorynd not found at /x".to_string()));
    assert!(usable_bin(None, false).unwrap_err().contains("Settings"));
}

#[test]
fn daemons_are_started_with_arguments() {
    assert!(start_args(true, &None).is_err());
    assert_eq!(start_args(false, &None), Ok(vec!["run".to_string()]));
    let args = start_args(false, &some(" a:1 ")).unwrap();
    assert_eq!(args.join(" "), "run --connect a:1");
    assert!(pair_args(true, false, true, &None).is_err());
    assert!(pair_args(false, true, true, &None).is_err());
    assert!(pair_args(false, false, false, &None).is_err());
    let listen = pair_args(false, false, true, &None).unwrap();
    assert!(listen.iter().any(|a| a == "--listen"));
    assert!(pair_args(false, false, false, &some("a:1")).unwrap().contains(&"a:1".to_string()));
}

#[test]
fn pairing_output_is_read() {
    assert_eq!(parse_sas("123 456"), some("123 456"));
    assert_eq!(parse_sas("1234567"), None);
    assert_eq!(parse_peer_name("Pair with \"desk\"? [y/N]"), some("desk"));
    assert_eq!(parse_peer_name("Pair with desk"), None);
    let mut w = PairWatch::new();
    assert!(w.on_line("Pair with \"desk\"").is_none());
    match w.on_line("   123 456") {
        Some(PairNews::Code { sas, peer }) => {
            assert_eq!((sas.as_str(), peer.as_str()), ("123 456", "desk"))
        }
        _ => panic!("no code"),
    }
    assert!(matches!(w.on_line("Paired with desk"), Some(PairNews::Outcome(true))));
    assert!(matches!(w.on_line("Pairing aborted."), Some(PairNews::Outcome(false))));
    assert!(answer_line(true).starts_with('y') && answer_line(false).starts_with('n'));
}

// --- The tray ----------------------------------------------------------------

fn peer(connected: bool) -> PeerStatus {
    PeerStatus {
        name: "laptop".to_string(),
        device: "ab".to_string(),
        connected,
        address: None,
        latency_ms: None,
    }
}

fn status(connected: bool) -> UiEvent {
    UiEvent::Status {
        device_name: "desk".to_string(),
        device_id: "cd".to_string(),
        peers: vec![peer(connected)],
        active: connected,
        port: 7345,
        addrs: vec![],
        monitors: vec![],
    }
}

#[test]
fn answers_of_the_daemon_are_shown() {
    let mut a = App::new();
    assert_eq!(status_line(&a.daemon), "daemon offline");
    assert_eq!(a.update(Message::Tick).len(), 4);
    let notice = UiEvent::Notice { level: NoticeLevel::Info, text: "hello".to_string() };
    assert!(a.update(Message::StatusLoaded(Ok(vec![status(true), notice]))).is_empty());
    assert_eq!((a.daemon.device_name.as_str(), a.daemon.port), ("desk", 7345));
    assert_eq!(a.toast.as_deref(), Some("hello"));
    assert_eq!(status_line(&a.daemon), "connected");
    a.daemon.active = false;
    assert_eq!(status_line(&a.daemon), "connected (paused)");
    a.update(Message::StatusLoaded(Err("gone".to_string())));
    assert!(!a.daemon.reachable && a.daemon.peers.is_empty());
}

#[test]
fn choices_of_the_user_are_carried_out() {
    let mut a = App::new();
    a.update(Message::Nav(Screen::Devices));
    assert_eq!(a.screen, Screen::Devices);
    a.update(Message::PortChanged("7a3b4".to_string()));
    assert_eq!(a.inputs.port, "734");
    a.update(Message::ManualPeerChanged("h:1".to_string()));
    match a.update(Message::StartDaemon).remove(0) {
        Task::Start { connect, port } => assert_eq!((connect, port), (some("h:1"), Some(734))),
        _ => panic!("no start"),
    }
    assert!(matches!(a.update(Message::StopDaemon)[0], Task::Stop));
    let ts = a.update(Message::SetFeature(Feature::AudioForward, true));
    assert!(a.features.audio);
    assert!(matches!(ts[0], Task::Ask(UiRequest::SetFeature { enabled: true, .. }, Back::Acted)));
    a.update(Message::LifecycleLoaded(Lifecycle { running: true, pairing: false }));
    assert!(a.life.running);
    let bin = BinInfo { path: some("/x"), source: BinSource::Path, exists_there: true };
    a.update(Message::BinLoaded(bin));
    assert_eq!(a.inputs.bin, "/x");
    assert_eq!(a.update(Message::DaemonActed(Ok(()))).len(), 3);
    assert_eq!(a.toast.as_deref(), Some("daemon updated"));
}

fn told(phase: &str, peer: &str) -> Message {
    let e = UiEvent::Pairing {
        phase: phase.to_string(),
        sas: String::new(),
        peer: peer.to_string(),
    };
    Message::PairLoaded(Ok(vec![e]))
}

#[test]
fn stale_answers_do_not_end_a_pairing() {
    let mut a = App::new();
    assert!(!a.polls_pairing());
    a.update(Message::PairStart);
    assert!(a.polls_pairing());
    a.update(told("idle", ""));
    assert_eq!(a.pair.phase, "discoverable");
    a.update(told("prompt", "laptop"));
    assert_eq!((a.pair.phase.as_str(), a.pair.peer.as_str()), ("prompt", "laptop"));
    assert_eq!(a.update(told("paired", "laptop")).len(), 5);
    assert!(!a.polls_pairing());
    assert_eq!(a.toast.as_deref(), Some("Paired with laptop"));
}

#[test]
fn arrangements_go_to_the_connected_peer() {
    let mut a = App::new();
    a.update(Message::StatusLoaded(Ok(vec![status(true)])));
    a.update(Message::ArrMoved { idx: 3, x: -10, y: 4 });
    assert_eq!((a.arrangement[3].x, a.arrangement[3].y), (-10, 4));
    match a.update(Message::ArrApply).remove(0) {
        Task::Ask(UiRequest::SetLayout { peer, layout }, Back::Acted) => {
            assert_eq!(peer, "ab");
            assert_eq!(layout.monitors[3].bounds.x, -10);
        }
        _ => panic!("no layout"),
    }
    a.update(Message::ArrAlignTops);
    assert!(a.arrangement.iter().all(|t| t.y == 0));
    a.update(Message::ArrRevert);
    assert_eq!(a.arrangement[3].x, 5760);
}
