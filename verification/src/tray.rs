//! The tray: what it shows, and what it does about what happens.

use crate::arranger::{
    align_tops, is_desktop_of, is_starter, starter, to_virtual_desktop, top_of, MonTile,
};
use crate::ipc::{DiscoveredPeer, Feature, Features, PeerStatus, UiEvent, UiRequest};
use crate::procs::{BinInfo, BinSource, Lifecycle};
use crate::text::{chars_of, i32_value, parse_i32, trim, trimmed};
use vstd::prelude::*;

verus! {

#[derive(Clone, Copy, Debug, PartialEq, Eq, Structural)]
pub enum Screen {
    Status,
    Connection,
    Arranger,
    Devices,
    Transfers,
    Settings,
}

/// A transfer that is shown.
#[derive(Debug)]
pub struct Transfer {
    pub name: String,
    pub done: u64,
    pub total: u64,
    pub bytes_per_sec: u64,
}

/// What the daemon said of itself.
#[derive(Debug)]
pub struct DaemonView {
    pub reachable: bool,
    pub device_name: String,
    pub peers: Vec<PeerStatus>,
    pub active: bool,
    /// 0 while it is not known.
    pub port: u16,
    pub local_addrs: Vec<String>,
    pub transfers: Vec<Transfer>,
}

/// What the user has typed.
#[derive(Debug)]
pub struct Inputs {
    pub manual_peer: String,
    pub port: String,
    pub bin: String,
    pub pair_addr: String,
}

/// How far a pairing is.
#[derive(Debug)]
pub struct PairView {
    pub phase: String,
    pub sas: String,
    pub peer: String,
}

/// The state of the tray.
#[derive(Debug)]
pub struct App {
    pub screen: Screen,
    pub daemon: DaemonView,
    pub life: Lifecycle,
    pub bin: BinInfo,
    pub inputs: Inputs,
    pub features: Features,
    pub toast: Option<String>,
    pub pair: PairView,
    /// The devices nearby that wait to be paired.
    pub nearby: Vec<DiscoveredPeer>,
    pub arrangement: Vec<MonTile>,
}

/// What happened.
#[derive(Debug)]
pub enum Message {
    Nav(Screen),
    Tick,
    StatusLoaded(Result<Vec<UiEvent>, String>),
    LifecycleLoaded(Lifecycle),
    BinLoaded(BinInfo),
    ManualPeerChanged(String),
    PortChanged(String),
    BinInputChanged(String),
    StartDaemon,
    StopDaemon,
    DaemonActed(Result<(), String>),
    SetBin,
    ResetBin,
    SetFeature(Feature, bool),
    Forget(String),
    Acted(Result<Vec<UiEvent>, String>),
    PairAddrChanged(String),
    PairStart,
    PairPoll,
    PairLoaded(Result<Vec<UiEvent>, String>),
    PairRespond(bool),
    PairClear,
    PairDial(String),
    DiscoveredLoaded(Result<Vec<UiEvent>, String>),
    ArrMoved { idx: usize, x: i32, y: i32 },
    ArrAlignTops,
    ArrRevert,
    ArrApply,
}

/// Which message the answer to a request comes back as.
#[derive(Clone, Copy, Debug, PartialEq, Eq, Structural)]
pub enum Back {
    Status,
    Acted,
    Pair,
    Discovered,
}

/// What to do.
#[derive(Debug)]
pub enum Task {
    /// Ask the daemon, and come back with the answer.
    Ask(UiRequest, Back),
    AskLifecycle,
    AskBin,
    Start { connect: Option<String>, port: Option<u16> },
    Stop,
    SetBin(Option<String>),
    /// Tick again after so many milliseconds.
    TickAfter(u64),
}

// --- Parts of the state ------------------------------------------------------

impl App {
    pub open spec fn same_but_daemon(self, a: App) -> bool {
        self == (App { daemon: self.daemon, ..a })
    }

    pub open spec fn same_but_daemon_and_toast(self, a: App) -> bool {
        self == (App { daemon: self.daemon, toast: self.toast, ..a })
    }

    pub open spec fn same_but_pair(self, a: App) -> bool {
        self == (App { pair: self.pair, ..a })
    }

    pub open spec fn same_but_pair_and_toast(self, a: App) -> bool {
        self == (App { pair: self.pair, toast: self.toast, ..a })
    }

    pub open spec fn same_but_inputs(self, a: App) -> bool {
        self == (App { inputs: self.inputs, ..a })
    }

    pub open spec fn same_but_toast(self, a: App) -> bool {
        self == (App { toast: self.toast, ..a })
    }

    pub open spec fn same_but_arrangement(self, a: App) -> bool {
        self == (App { arrangement: self.arrangement, ..a })
    }

    pub open spec fn same_but_nearby(self, a: App) -> bool {
        self == (App { nearby: self.nearby, ..a })
    }

    /// No pairing is shown.
    pub open spec fn no_pairing(self) -> bool {
        self.pair.phase@ == "idle"@ && self.pair.sas@.len() == 0 && self.pair.peer@.len() == 0
    }
}

/// The tasks bring everything up to date.
pub open spec fn refreshes(ts: Seq<Task>) -> bool {
    ts =~= seq![
        Task::Ask(UiRequest::Status, Back::Status),
        Task::AskLifecycle,
        Task::AskBin,
        Task::Ask(UiRequest::DiscoveredPeers, Back::Discovered),
    ]
}

fn refresh() -> (ts: Vec<Task>)
    ensures
        refreshes(ts@),
{
    vec![
        Task::Ask(UiRequest::Status, Back::Status),
        Task::AskLifecycle,
        Task::AskBin,
        Task::Ask(UiRequest::DiscoveredPeers, Back::Discovered),
    ]
}

// --- Answers of the daemon ---------------------------------------------------

/// What is shown of the daemon, and the notice, after answers.
pub struct Shown {
    pub device_name: String,
    pub peers: Vec<PeerStatus>,
    pub active: bool,
    pub port: u16,
    pub local_addrs: Vec<String>,
    pub transfers: Seq<Transfer>,
    pub toast: Option<String>,
}

impl Shown {
    /// What is shown after one more answer.
    pub open spec fn with(self, e: UiEvent) -> Shown {
        match e {
            UiEvent::Status { device_name, device_id, peers, active, port, addrs, monitors } => Shown {
                device_name,
                peers,
                active,
                port,
                local_addrs: addrs,
                ..self
            },
            UiEvent::TransferProgress { tag, name, done, total, bytes_per_sec } => Shown {
                transfers: self.transfers.push(Transfer { name, done, total, bytes_per_sec }),
                ..self
            },
            UiEvent::Notice { level, text } => Shown { toast: Some(text), ..self },
            _ => self,
        }
    }
}

/// What is shown after the first `n` answers.
pub open spec fn after_answers(s: Shown, events: Seq<UiEvent>, n: int) -> Shown
    decreases n,
{
    if n <= 0 {
        s
    } else {
        after_answers(s, events, n - 1).with(events[n - 1])
    }
}

impl App {
    /// What is shown of the daemon; the transfers are listed anew.
    pub open spec fn shown_anew(self) -> Shown {
        Shown {
            device_name: self.daemon.device_name,
            peers: self.daemon.peers,
            active: self.daemon.active,
            port: self.daemon.port,
            local_addrs: self.daemon.local_addrs,
            transfers: Seq::empty(),
            toast: self.toast,
        }
    }

    /// The state shows this.
    pub open spec fn presents(self, s: Shown) -> bool {
        &&& self.daemon.device_name == s.device_name
        &&& self.daemon.peers == s.peers
        &&& self.daemon.active == s.active
        &&& self.daemon.port == s.port
        &&& self.daemon.local_addrs == s.local_addrs
        &&& self.daemon.transfers@ == s.transfers
        &&& self.toast == s.toast
    }

    fn on_status(&mut self, events: Vec<UiEvent>)
        ensures
            final(self).daemon.reachable,
            final(self).same_but_daemon_and_toast(*old(self)),
            final(self).presents(
                after_answers(old(self).shown_anew(), events@, events@.len() as int),
            ),
    {
        let ghost all = events@;
        let ghost anew = self.shown_anew();
        self.daemon.reachable = true;
        self.daemon.transfers = Vec::new();
        let mut rest = events;
        let ghost mut n: int = 0;
        while rest.len() > 0
            invariant
                0 <= n <= all.len(),
                rest@ == all.subrange(n, all.len() as int),
                self.daemon.reachable,
                self.same_but_daemon_and_toast(*old(self)),
                self.presents(after_answers(anew, all, n)),
            decreases rest.len(),
        {
            let e = rest.remove(0);
            proof {
                assert(e == all[n]);
                assert(rest@ =~= all.subrange(n + 1, all.len() as int));
            }
            match e {
                UiEvent::Status { device_name, peers, active, port, addrs, .. } => {
                    self.daemon.device_name = device_name;
                    self.daemon.peers = peers;
                    self.daemon.active = active;
                    self.daemon.port = port;
                    self.daemon.local_addrs = addrs;
                },
                UiEvent::TransferProgress { name, done, total, bytes_per_sec, .. } => {
                    self.daemon.transfers.push(Transfer { name, done, total, bytes_per_sec });
                },
                UiEvent::Notice { text, .. } => {
                    self.toast = Some(text);
                },
                _ => {},
            }
            proof {
                n = n + 1;
            }
        }
    }
}

/// The first answer that is a notice, from position `i` on.
pub open spec fn notice_from(events: Seq<UiEvent>, i: int) -> Option<int>
    decreases events.len() - i,
{
    if i < 0 || i >= events.len() {
        None
    } else if events[i] is Notice {
        Some(i)
    } else {
        notice_from(events, i + 1)
    }
}

/// The first answer on a pairing, from position `i` on.
pub open spec fn pairing_from(events: Seq<UiEvent>, i: int) -> Option<int>
    decreases events.len() - i,
{
    if i < 0 || i >= events.len() {
        None
    } else if events[i] is Pairing {
        Some(i)
    } else {
        pairing_from(events, i + 1)
    }
}

/// The first answer on devices nearby, from position `i` on.
pub open spec fn discovered_from(events: Seq<UiEvent>, i: int) -> Option<int>
    decreases events.len() - i,
{
    if i < 0 || i >= events.len() {
        None
    } else if events[i] is Discovered {
        Some(i)
    } else {
        discovered_from(events, i + 1)
    }
}

fn find_notice(events: &Vec<UiEvent>) -> (r: Option<String>)
    ensures
        match notice_from(events@, 0) {
            Some(i) => events@[i] matches UiEvent::Notice { level, text } && r == Some(text),
            None => r is None,
        },
{
    let mut i: usize = 0;
    while i < events.len()
        invariant
            0 <= i <= events.len(),
            notice_from(events@, 0) == notice_from(events@, i as int),
        decreases events.len() - i,
    {
        if let UiEvent::Notice { text, .. } = &events[i] {
            return Some(text.clone());
        }
        i = i + 1;
    }
    None
}

fn find_pairing(events: &Vec<UiEvent>) -> (r: Option<PairView>)
    ensures
        match pairing_from(events@, 0) {
            Some(i) => events@[i] matches UiEvent::Pairing { phase, sas, peer } && r == Some(
                PairView { phase, sas, peer },
            ),
            None => r is None,
        },
{
    let mut i: usize = 0;
    while i < events.len()
        invariant
            0 <= i <= events.len(),
            pairing_from(events@, 0) == pairing_from(events@, i as int),
        decreases events.len() - i,
    {
        if let UiEvent::Pairing { phase, sas, peer } = &events[i] {
            return Some(
                PairView { phase: phase.clone(), sas: sas.clone(), peer: peer.clone() },
            );
        }
        i = i + 1;
    }
    None
}

fn find_discovered(events: Vec<UiEvent>) -> (r: Option<Vec<DiscoveredPeer>>)
    ensures
        match discovered_from(events@, 0) {
            Some(i) => events@[i] matches UiEvent::Discovered { peers } && r == Some(peers),
            None => r is None,
        },
{
    let ghost all = events@;
    let mut rest = events;
    let ghost mut n: int = 0;
    while rest.len() > 0
        invariant
            0 <= n <= all.len(),
            rest@ == all.subrange(n, all.len() as int),
            discovered_from(all, 0) == discovered_from(all, n),
            all == events@,
        decreases rest.len(),
    {
        let e = rest.remove(0);
        proof {
            assert(e == all[n]);
            assert(rest@ =~= all.subrange(n + 1, all.len() as int));
        }
        if let UiEvent::Discovered { peers } = e {
            return Some(peers);
        }
        proof {
            n = n + 1;
        }
    }
    None
}

/// What becomes of answers on a pairing. A notice is shown. A pairing that
/// succeeded is over: nothing of it is shown but a word, the daemon is told, and
/// everything is brought up to date. That nothing is going on is not believed: a
/// pairing ends here when the user ends it.
pub open spec fn pairing_told(before: App, after: App, events: Seq<UiEvent>, ts: Seq<Task>) -> bool {
    let noticed = match notice_from(events, 0) {
        Some(i) => match events[i] {
            UiEvent::Notice { level, text } => Some(text),
            _ => None,
        },
        None => before.toast,
    };
    &&& after.same_but_pair_and_toast(before)
    &&& match pairing_from(events, 0) {
        Some(i) => events[i] matches UiEvent::Pairing { phase, sas, peer } && if phase@
            == "paired"@ {
            &&& after.no_pairing()
            &&& if peer@.len() > 0 {
                after.toast matches Some(t) && t@ == "Paired with "@ + peer@
            } else {
                after.toast == noticed
            }
            &&& ts.len() == 5
            &&& ts[0] == Task::Ask(UiRequest::PairCancel, Back::Pair)
            &&& refreshes(ts.subrange(1, 5))
        } else if phase@ == "idle"@ {
            after.pair == before.pair && after.toast == noticed && ts.len() == 0
        } else {
            after.pair == (PairView { phase, sas, peer }) && after.toast == noticed && ts.len() == 0
        },
        None => after.pair == before.pair && after.toast == noticed && ts.len() == 0,
    }
}

/// The port that a text names; none where it names none, or leaves the choice open.
pub open spec fn port_named(t: Seq<char>) -> Option<int> {
    match i32_value(t) {
        Some(v) => if 1 <= v <= 65535 {
            Some(v)
        } else {
            None
        },
        None => None,
    }
}

/// The decimal digits of a text.
pub open spec fn digits_only(t: Seq<char>) -> Seq<char>
    decreases t.len(),
{
    if t.len() == 0 {
        t
    } else if '0' <= t.last() <= '9' {
        digits_only(t.drop_last()).push(t.last())
    } else {
        digits_only(t.drop_last())
    }
}

fn keep_digits(t: &String) -> (r: String)
    ensures
        r@ == digits_only(t@),
{
    let c = chars_of(t.as_str());
    let mut out = String::new();
    let mut i: usize = 0;
    assert(c@.subrange(0, 0) =~= Seq::<char>::empty());
    while i < c.len()
        invariant
            0 <= i <= c.len(),
            out@ == digits_only(c@.subrange(0, i as int)),
        decreases c.len() - i,
    {
        assert(c@.subrange(0, i + 1).drop_last() =~= c@.subrange(0, i as int));
        if '0' <= c[i] && c[i] <= '9' {
            out.push(c[i]);
        }
        i = i + 1;
    }
    assert(c@.subrange(0, c@.len() as int) =~= c@);
    out
}

impl App {
    /// The tray as it starts: on its first screen, knowing nothing of the daemon, with
    /// nothing running, no program found and nothing typed.
    pub fn new() -> (a: Self)
        ensures
            a.screen == Screen::Status,
            !a.daemon.reachable && !a.daemon.active && a.daemon.port == 0,
            a.daemon.device_name@.len() == 0,
            a.daemon.peers@.len() == 0,
            a.daemon.local_addrs@.len() == 0,
            a.daemon.transfers@.len() == 0,
            a.life == (Lifecycle { running: false, pairing: false }),
            a.bin == (BinInfo { path: None, source: BinSource::Nowhere, exists_there: false }),
            a.inputs.manual_peer@.len() == 0,
            a.inputs.port@.len() == 0,
            a.inputs.bin@.len() == 0,
            a.inputs.pair_addr@.len() == 0,
            a.features == (Features { input: true, clipboard: true, audio: false }),
            a.toast is None,
            a.no_pairing(),
            a.nearby@.len() == 0,
            is_starter(a.arrangement@),
    {
        App {
            screen: Screen::Status,
            daemon: DaemonView {
                reachable: false,
                device_name: String::new(),
                peers: Vec::new(),
                active: false,
                port: 0,
                local_addrs: Vec::new(),
                transfers: Vec::new(),
            },
            life: Lifecycle { running: false, pairing: false },
            bin: BinInfo { path: None, source: BinSource::Nowhere, exists_there: false },
            inputs: Inputs {
                manual_peer: String::new(),
                port: String::new(),
                bin: String::new(),
                pair_addr: String::new(),
            },
            features: Features { input: true, clipboard: true, audio: false },
            toast: None,
            pair: PairView {
                phase: "idle".to_owned(),
                sas: String::new(),
                peer: String::new(),
            },
            nearby: Vec::new(),
            arrangement: starter(),
        }
    }

    /// Whether the state of a pairing is asked for often.
    pub fn polls_pairing(&self) -> (b: bool)
        ensures
            b == (self.pair.phase@ != "idle"@),
    {
        let idle = "idle".to_owned();
        self.pair.phase != idle
    }

    fn clear_pair(&mut self)
        ensures
            final(self).same_but_pair(*old(self)),
            final(self).no_pairing(),
    {
        self.pair = PairView {
            phase: "idle".to_owned(),
            sas: String::new(),
            peer: String::new(),
        };
    }

    fn on_pair(&mut self, events: Vec<UiEvent>) -> (ts: Vec<Task>)
        ensures
            pairing_told(*old(self), *final(self), events@, ts@),
    {
        if let Some(text) = find_notice(&events) {
            self.toast = Some(text);
        }
        match find_pairing(&events) {
            Some(view) => {
                let paired = "paired".to_owned();
                let idle = "idle".to_owned();
                if view.phase == paired {
                    self.clear_pair();
                    if !view.peer.as_str().is_empty() {
                        let mut t = "Paired with ".to_owned();
                        t.append(view.peer.as_str());
                        self.toast = Some(t);
                    }
                    let mut ts = vec![Task::Ask(UiRequest::PairCancel, Back::Pair)];
                    let mut more = refresh();
                    let ghost m = more@;
                    ts.append(&mut more);
                    assert(ts@.subrange(1, 5) =~= m);
                    return ts;
                }
                if view.phase != idle {
                    self.pair = view;
                }
                Vec::new()
            },
            None => Vec::new(),
        }
    }

    /// What the user's choices ask the daemon to be started with: a peer to dial, and
    /// a port.
    pub open spec fn start_task(self, t: Task) -> bool {
        t matches Task::Start { connect, port } && {
            &&& connect == if trimmed(self.inputs.manual_peer@).len() > 0 {
                Some(self.inputs.manual_peer)
            } else {
                None
            }
            &&& match port {
                Some(p) => port_named(self.inputs.port@) == Some(p as int),
                None => port_named(self.inputs.port@) is None,
            }
        }
    }

    fn start(&mut self) -> (t: Task)
        ensures
            final(self).same_but_daemon(*old(self)),
            final(self).daemon == (DaemonView { port: 0, ..old(self).daemon }),
            old(self).start_task(t),
    {
        let c = chars_of(self.inputs.manual_peer.as_str());
        let connect = if trim(c.as_slice()).len() > 0 {
            Some(self.inputs.manual_peer.clone())
        } else {
            None
        };
        let digits = chars_of(self.inputs.port.as_str());
        let port: Option<u16> = match parse_i32(digits.as_slice()) {
            Some(v) => if 1 <= v && v <= 65535 {
                Some(v as u16)
            } else {
                None
            },
            None => None,
        };
        self.daemon.port = 0;
        Task::Start { connect, port }
    }

    /// What becomes of something that happened.
    pub open spec fn updated(self, after: App, msg: Message, ts: Seq<Task>) -> bool {
        match msg {
            Message::Nav(s) => after == (App { screen: s, ..self }) && ts.len() == 0,
            Message::Tick => after == self && refreshes(ts),
            Message::StatusLoaded(Ok(events)) => {
                &&& ts.len() == 0
                &&& after.daemon.reachable
                &&& after.same_but_daemon_and_toast(self)
                &&& after.presents(
                    after_answers(self.shown_anew(), events@, events@.len() as int),
                )
            },
            Message::StatusLoaded(Err(_)) => {
                &&& ts.len() == 0
                &&& after.same_but_daemon(self)
                &&& after.daemon.peers@.len() == 0
                &&& after.daemon == (DaemonView {
                    reachable: false,
                    peers: after.daemon.peers,
                    port: 0,
                    ..self.daemon
                })
            },
            Message::LifecycleLoaded(l) => after == (App { life: l, ..self }) && ts.len() == 0,
            Message::BinLoaded(b) => {
                &&& ts.len() == 0
                &&& after == (App {
                    bin: b,
                    inputs: Inputs {
                        bin: match b.path {
                            Some(p) if self.inputs.bin@.len() == 0 => p,
                            _ => self.inputs.bin,
                        },
                        ..self.inputs
                    },
                    ..self
                })
            },
            Message::ManualPeerChanged(s) => {
                &&& ts.len() == 0
                &&& after == (App { inputs: Inputs { manual_peer: s, ..self.inputs }, ..self })
            },
            Message::PortChanged(s) => {
                &&& ts.len() == 0
                &&& after.same_but_inputs(self)
                &&& after.inputs == (Inputs { port: after.inputs.port, ..self.inputs })
                &&& after.inputs.port@ == digits_only(s@)
            },
            Message::BinInputChanged(s) => {
                &&& ts.len() == 0
                &&& after == (App { inputs: Inputs { bin: s, ..self.inputs }, ..self })
            },
            Message::StartDaemon => {
                &&& after == (App { daemon: DaemonView { port: 0, ..self.daemon }, ..self })
                &&& ts.len() == 1
                &&& self.start_task(ts[0])
            },
            Message::StopDaemon => {
                &&& after == (App { daemon: DaemonView { port: 0, ..self.daemon }, ..self })
                &&& ts =~= seq![Task::Stop]
            },
            Message::DaemonActed(r) => {
                &&& after.same_but_toast(self)
                &&& after.toast matches Some(t) && t@ == match r {
                    Ok(_) => "daemon updated"@,
                    Err(e) => e@,
                }
                &&& ts =~= seq![Task::AskLifecycle, Task::TickAfter(600), Task::TickAfter(1500)]
            },
            Message::SetBin => after == self && ts =~= seq![Task::SetBin(Some(self.inputs.bin))],
            Message::ResetBin => {
                &&& after.same_but_inputs(self)
                &&& after.inputs == (Inputs { bin: after.inputs.bin, ..self.inputs })
                &&& after.inputs.bin@.len() == 0
                &&& ts =~= seq![Task::SetBin(None)]
            },
            Message::SetFeature(f, enabled) => {
                &&& after == (App { features: self.features.with(f, enabled), ..self })
                &&& ts =~= seq![
                    Task::Ask(UiRequest::SetFeature { feature: f, enabled }, Back::Acted),
                ]
            },
            Message::Forget(device) => after == self && ts =~= seq![
                Task::Ask(UiRequest::Forget { device }, Back::Acted),
            ],
            Message::Acted(r) => {
                &&& after == (App {
                    toast: match r {
                        Ok(_) => self.toast,
                        Err(e) => Some(e),
                    },
                    ..self
                })
                &&& ts =~= seq![Task::Ask(UiRequest::Status, Back::Status)]
            },
            Message::PairAddrChanged(s) => {
                &&& ts.len() == 0
                &&& after == (App { inputs: Inputs { pair_addr: s, ..self.inputs }, ..self })
            },
            Message::PairStart => {
                &&& after.same_but_pair(self)
                &&& after.pair == (PairView { phase: after.pair.phase, ..self.pair })
                &&& after.pair.phase@ == "discoverable"@
                &&& ts.len() == 1
                &&& ts[0] matches Task::Ask(UiRequest::Pair { addr }, Back::Pair) && addr@.len()
                    == 0
            },
            Message::PairPoll => after == self && ts =~= seq![
                Task::Ask(UiRequest::PairStatus, Back::Pair),
            ],
            Message::PairLoaded(Ok(events)) => pairing_told(self, after, events@, ts),
            Message::PairLoaded(Err(e)) => after == (App { toast: Some(e), ..self }) && ts.len()
                == 0,
            Message::PairRespond(accept) => after == self && ts =~= seq![
                Task::Ask(UiRequest::PairConfirm { accept }, Back::Pair),
            ],
            Message::PairClear => {
                &&& after.same_but_pair(self)
                &&& after.no_pairing()
                &&& ts =~= seq![
                    Task::Ask(UiRequest::PairCancel, Back::Pair),
                    Task::Ask(UiRequest::Status, Back::Status),
                ]
            },
            Message::PairDial(addr) => {
                &&& after.same_but_pair(self)
                &&& after.pair == (PairView { phase: after.pair.phase, ..self.pair })
                &&& after.pair.phase@ == "connecting"@
                &&& ts =~= seq![Task::Ask(UiRequest::Pair { addr }, Back::Pair)]
            },
            Message::DiscoveredLoaded(Ok(events)) => {
                &&& ts.len() == 0
                &&& after.same_but_nearby(self)
                &&& match discovered_from(events@, 0) {
                    Some(i) => events@[i] matches UiEvent::Discovered { peers } && after.nearby
                        == peers,
                    None => after.nearby == self.nearby,
                }
            },
            Message::DiscoveredLoaded(Err(_)) => {
                &&& ts.len() == 0
                &&& after.same_but_nearby(self)
                &&& after.nearby@.len() == 0
            },
            Message::ArrMoved { idx, x, y } => {
                &&& ts.len() == 0
                &&& after.same_but_arrangement(self)
                &&& after.arrangement@ == if idx < self.arrangement@.len() {
                    self.arrangement@.update(
                        idx as int,
                        MonTile { x, y, ..self.arrangement@[idx as int] },
                    )
                } else {
                    self.arrangement@
                }
            },
            Message::ArrAlignTops => {
                &&& ts.len() == 0
                &&& after.same_but_arrangement(self)
                &&& after.arrangement@.len() == self.arrangement@.len()
                &&& forall|i: int|
                    0 <= i < after.arrangement@.len() ==> #[trigger] after.arrangement@[i] == (
                    MonTile {
                        y: top_of(self.arrangement@, self.arrangement@.len() as int) as i32,
                        ..self.arrangement@[i]
                    })
            },
            Message::ArrRevert => {
                &&& ts.len() == 0
                &&& after.same_but_arrangement(self)
                &&& is_starter(after.arrangement@)
            },
            Message::ArrApply => {
                &&& after == self
                &&& ts.len() == 1
                &&& ts[0] matches Task::Ask(UiRequest::SetLayout { peer, layout }, Back::Acted)
                &&& is_desktop_of(layout.monitors@, self.arrangement@)
                &&& peer@ == match first_connected(self.daemon.peers@, 0) {
                    Some(i) => self.daemon.peers@[i].device@,
                    None => Seq::empty(),
                }
            },
        }
    }

    /// Does what something that happened asks for.
    pub fn update(&mut self, msg: Message) -> (ts: Vec<Task>)
        ensures
            old(self).updated(*final(self), msg, ts@),
    {
        match msg {
            Message::Nav(s) => {
                self.screen = s;
                Vec::new()
            },
            Message::Tick => refresh(),
            Message::StatusLoaded(Ok(events)) => {
                self.on_status(events);
                Vec::new()
            },
            Message::StatusLoaded(Err(_)) => {
                self.daemon.reachable = false;
                self.daemon.peers = Vec::new();
                self.daemon.port = 0;
                Vec::new()
            },
            Message::LifecycleLoaded(l) => {
                self.life = l;
                Vec::new()
            },
            Message::BinLoaded(b) => {
                if self.inputs.bin.as_str().is_empty() {
                    if let Some(p) = &b.path {
                        self.inputs.bin = p.clone();
                    }
                }
                self.bin = b;
                Vec::new()
            },
            Message::ManualPeerChanged(s) => {
                self.inputs.manual_peer = s;
                Vec::new()
            },
            Message::PortChanged(s) => {
                self.inputs.port = keep_digits(&s);
                Vec::new()
            },
            Message::BinInputChanged(s) => {
                self.inputs.bin = s;
                Vec::new()
            },
            Message::StartDaemon => {
                let t = self.start();
                vec![t]
            },
            Message::StopDaemon => {
                self.daemon.port = 0;
                vec![Task::Stop]
            },
            Message::DaemonActed(r) => {
                self.toast = Some(
                    match r {
                        Ok(()) => "daemon updated".to_owned(),
                        Err(e) => e,
                    },
                );
                vec![Task::AskLifecycle, Task::TickAfter(600), Task::TickAfter(1500)]
            },
            Message::SetBin => vec![Task::SetBin(Some(self.inputs.bin.clone()))],
            Message::ResetBin => {
                self.inputs.bin = String::new();
                vec![Task::SetBin(None)]
            },
            Message::SetFeature(f, enabled) => {
                self.features.set(f, enabled);
                vec![Task::Ask(UiRequest::SetFeature { feature: f, enabled }, Back::Acted)]
            },
            Message::Forget(device) => vec![
                Task::Ask(UiRequest::Forget { device }, Back::Acted),
            ],
            Message::Acted(r) => {
                if let Err(e) = r {
                    self.toast = Some(e);
                }
                vec![Task::Ask(UiRequest::Status, Back::Status)]
            },
            Message::PairAddrChanged(s) => {
                self.inputs.pair_addr = s;
                Vec::new()
            },
            Message::PairStart => {
                self.pair.phase = "discoverable".to_owned();
                vec![Task::Ask(UiRequest::Pair { addr: String::new() }, Back::Pair)]
            },
            Message::PairPoll => vec![Task::Ask(UiRequest::PairStatus, Back::Pair)],
            Message::PairLoaded(Ok(events)) => self.on_pair(events),
            Message::PairLoaded(Err(e)) => {
                self.toast = Some(e);
                Vec::new()
            },
            Message::PairRespond(accept) => vec![
                Task::Ask(UiRequest::PairConfirm { accept }, Back::Pair),
            ],
            Message::PairClear => {
                self.clear_pair();
                vec![
                    Task::Ask(UiRequest::PairCancel, Back::Pair),
                    Task::Ask(UiRequest::Status, Back::Status),
                ]
            },
            Message::PairDial(addr) => {
                self.pair.phase = "connecting".to_owned();
                vec![Task::Ask(UiRequest::Pair { addr }, Back::Pair)]
            },
            Message::DiscoveredLoaded(Ok(events)) => {
                if let Some(peers) = find_discovered(events) {
                    self.nearby = peers;
                }
                Vec::new()
            },
            Message::DiscoveredLoaded(Err(_)) => {
                self.nearby = Vec::new();
                Vec::new()
            },
            Message::ArrMoved { idx, x, y } => {
                if idx < self.arrangement.len() {
                    let t = &self.arrangement[idx];
                    let moved = MonTile {
                        dev: t.dev,
                        index: t.index,
                        label: t.label.clone(),
                        x,
                        y,
                        w: t.w,
                        h: t.h,
                    };
                    self.arrangement.set(idx, moved);
                }
                Vec::new()
            },
            Message::ArrAlignTops => {
                align_tops(&mut self.arrangement);
                Vec::new()
            },
            Message::ArrRevert => {
                self.arrangement = starter();
                Vec::new()
            },
            Message::ArrApply => {
                let layout = to_virtual_desktop(&self.arrangement);
                let peer = connected_peer(&self.daemon.peers);
                vec![Task::Ask(UiRequest::SetLayout { peer, layout }, Back::Acted)]
            },
        }
    }
}

/// The first peer that is connected, from position `i` on.
pub open spec fn first_connected(ps: Seq<PeerStatus>, i: int) -> Option<int>
    decreases ps.len() - i,
{
    if i < 0 || i >= ps.len() {
        None
    } else if ps[i].connected {
        Some(i)
    } else {
        first_connected(ps, i + 1)
    }
}

fn connected_peer(ps: &Vec<PeerStatus>) -> (s: String)
    ensures
        s@ == match first_connected(ps@, 0) {
            Some(i) => ps@[i].device@,
            None => Seq::empty(),
        },
{
    let mut i: usize = 0;
    while i < ps.len()
        invariant
            0 <= i <= ps.len(),
            first_connected(ps@, 0) == first_connected(ps@, i as int),
        decreases ps.len() - i,
    {
        if ps[i].connected {
            return ps[i].device.clone();
        }
        i = i + 1;
    }
    String::new()
}

/// How the daemon stands, in words.
pub open spec fn state_of(d: DaemonView) -> Seq<char> {
    if !d.reachable {
        "daemon offline"@
    } else if first_connected(d.peers@, 0) is Some {
        if d.active {
            "connected"@
        } else {
            "connected (paused)"@
        }
    } else {
        "searching..."@
    }
}

/// The line at the foot of the tray: whether the daemon answers, whether a peer is
/// connected, and whether the session is running.
pub fn status_line(d: &DaemonView) -> (s: String)
    ensures
        s@ == state_of(*d),
{
    if !d.reachable {
        return "daemon offline".to_owned();
    }
    let mut i: usize = 0;
    while i < d.peers.len()
        invariant
            0 <= i <= d.peers.len(),
            d.reachable,
            first_connected(d.peers@, 0) == first_connected(d.peers@, i as int),
        decreases d.peers.len() - i,
    {
        if d.peers[i].connected {
            return if d.active {
                "connected".to_owned()
            } else {
                "connected (paused)".to_owned()
            };
        }
        i = i + 1;
    }
    "searching...".to_owned()
}

/// Only the user ends a pairing that is under way: what the daemon says meanwhile
/// either moves it on or tells that it succeeded.
pub proof fn law_stale_answers_do_not_end_a_pairing(
    before: App,
    after: App,
    events: Seq<UiEvent>,
    ts: Seq<Task>,
)
    requires
        pairing_told(before, after, events, ts),
        before.pair.phase@ != "idle"@,
        after.pair.phase@ == "idle"@,
    ensures
        pairing_from(events, 0) matches Some(i) && (events[i] matches UiEvent::Pairing {
            phase,
            sas,
            peer,
        } && phase@ == "paired"@),
{
}

/// Of several answers of a kind the first counts, and none only where there is none.
pub proof fn law_the_first_answer_of_a_kind_counts(events: Seq<UiEvent>, i: int)
    requires
        0 <= i <= events.len(),
    ensures
        match notice_from(events, i) {
            Some(k) => i <= k < events.len() && events[k] is Notice && forall|j: int|
                i <= j < k ==> !(#[trigger] events[j] is Notice),
            None => forall|j: int| i <= j < events.len() ==> !(#[trigger] events[j] is Notice),
        },
        match pairing_from(events, i) {
            Some(k) => i <= k < events.len() && events[k] is Pairing && forall|j: int|
                i <= j < k ==> !(#[trigger] events[j] is Pairing),
            None => forall|j: int| i <= j < events.len() ==> !(#[trigger] events[j] is Pairing),
        },
        match discovered_from(events, i) {
            Some(k) => i <= k < events.len() && events[k] is Discovered && forall|j: int|
                i <= j < k ==> !(#[trigger] events[j] is Discovered),
            None => forall|j: int| i <= j < events.len() ==> !(#[trigger] events[j] is Discovered),
        },
    decreases events.len() - i,
{
    if i < events.len() {
        law_the_first_answer_of_a_kind_counts(events, i + 1);
    }
}

/// The first peer that is connected is found, and none only where none is.
pub proof fn law_the_first_connected_peer_is_found(ps: Seq<PeerStatus>, i: int)
    requires
        0 <= i <= ps.len(),
    ensures
        match first_connected(ps, i) {
            Some(k) => i <= k < ps.len() && ps[k].connected && forall|j: int|
                i <= j < k ==> !(#[trigger] ps[j]).connected,
            None => forall|j: int| i <= j < ps.len() ==> !(#[trigger] ps[j]).connected,
        },
    decreases ps.len() - i,
{
    if i < ps.len() {
        law_the_first_connected_peer_is_found(ps, i + 1);
    }
}

/// The line at the foot says that the daemon is offline exactly while it does not answer;
/// that it searches while no peer is connected; and else whether the session is paused.
pub proof fn law_the_line_tells_how_the_daemon_stands(d: DaemonView)
    ensures
        !d.reachable <==> state_of(d) == "daemon offline"@,
        d.reachable && (forall|i: int| 0 <= i < d.peers@.len() ==> !(#[trigger] d.peers@[i]).connected)
            <==> state_of(d) == "searching..."@,
        d.reachable && d.active && (exists|i: int|
            0 <= i < d.peers@.len() && (#[trigger] d.peers@[i]).connected) <==> state_of(d)
            == "connected"@,
{
    reveal_strlit("daemon offline");
    reveal_strlit("connected");
    reveal_strlit("connected (paused)");
    reveal_strlit("searching...");
    law_the_first_connected_peer_is_found(d.peers@, 0);
    assert("daemon offline"@.len() == 14);
    assert("connected"@.len() == 9);
    assert("connected (paused)"@.len() == 18);
    assert("searching..."@.len() == 12);
}

/// One more answer changes what it tells of: a status the device, its peers, whether it is
/// active, and where it listens; a transfer is listed after the others; and a notice is
/// what is said. The rest stays.
pub proof fn law_each_answer_shows_what_it_tells(s: Shown, e: UiEvent)
    ensures
        e matches UiEvent::Status { device_name, device_id, peers, active, port, addrs, monitors }
            ==> {
            &&& s.with(e).device_name == device_name
            &&& s.with(e).peers == peers
            &&& s.with(e).active == active
            &&& s.with(e).port == port
            &&& s.with(e).local_addrs == addrs
        },
        !(e is Status) ==> {
            &&& s.with(e).device_name == s.device_name
            &&& s.with(e).peers == s.peers
            &&& s.with(e).active == s.active
            &&& s.with(e).port == s.port
            &&& s.with(e).local_addrs == s.local_addrs
        },
        e matches UiEvent::TransferProgress { tag, name, done, total, bytes_per_sec } ==> {
            &&& s.with(e).transfers.len() == s.transfers.len() + 1
            &&& s.with(e).transfers.drop_last() == s.transfers
            &&& s.with(e).transfers.last().name == name
            &&& s.with(e).transfers.last().done == done
            &&& s.with(e).transfers.last().total == total
            &&& s.with(e).transfers.last().bytes_per_sec == bytes_per_sec
        },
        !(e is TransferProgress) ==> s.with(e).transfers == s.transfers,
        e matches UiEvent::Notice { level, text } ==> s.with(e).toast == Some(text),
        !(e is Notice) ==> s.with(e).toast == s.toast,
{
    if let UiEvent::TransferProgress { tag, name, done, total, bytes_per_sec } = e {
        assert(s.with(e).transfers.drop_last() =~= s.transfers);
    }
}

/// Answers are taken one after the other.
pub proof fn law_answers_are_taken_in_turn(s: Shown, events: Seq<UiEvent>, n: int)
    requires
        0 <= n < events.len(),
    ensures
        after_answers(s, events, 0) == s,
        after_answers(s, events, n + 1) == after_answers(s, events, n).with(events[n]),
{
}

/// Everything that happens changes only what it is about.
pub proof fn law_each_part_changes_for_its_own_reasons(
    before: App,
    after: App,
    msg: Message,
    ts: Seq<Task>,
)
    requires
        before.updated(after, msg, ts),
    ensures
        msg matches Message::Nav(s) ==> after.screen == s,
        !(msg is Nav) ==> after.screen == before.screen,
        msg matches Message::LifecycleLoaded(l) ==> after.life == l,
        !(msg is LifecycleLoaded) ==> after.life == before.life,
        msg matches Message::BinLoaded(b) ==> after.bin == b,
        !(msg is BinLoaded) ==> after.bin == before.bin,
        !(msg is SetFeature) ==> after.features == before.features,
        !(msg is StatusLoaded || msg is StartDaemon || msg is StopDaemon) ==> after.daemon
            == before.daemon,
        !(msg is DiscoveredLoaded) ==> after.nearby == before.nearby,
        !(msg is PairStart || msg is PairLoaded || msg is PairClear || msg is PairDial)
            ==> after.pair == before.pair,
        !(msg is ArrMoved || msg is ArrAlignTops || msg is ArrRevert) ==> after.arrangement
            == before.arrangement,
        !(msg is BinLoaded || msg is ManualPeerChanged || msg is PortChanged || msg is BinInputChanged
            || msg is ResetBin || msg is PairAddrChanged) ==> after.inputs == before.inputs,
        !(msg is StatusLoaded || msg is DaemonActed || msg is Acted || msg is PairLoaded)
            ==> after.toast == before.toast,
{
}

/// What is typed into a field goes into that field and no other; of a port only the digits
/// stay.
pub proof fn law_fields_hold_what_was_typed(
    before: App,
    after: App,
    msg: Message,
    ts: Seq<Task>,
)
    requires
        before.updated(after, msg, ts),
    ensures
        msg matches Message::ManualPeerChanged(s) ==> after.inputs.manual_peer == s,
        !(msg is ManualPeerChanged) ==> after.inputs.manual_peer == before.inputs.manual_peer,
        msg matches Message::PairAddrChanged(s) ==> after.inputs.pair_addr == s,
        !(msg is PairAddrChanged) ==> after.inputs.pair_addr == before.inputs.pair_addr,
        msg matches Message::BinInputChanged(s) ==> after.inputs.bin == s,
        msg is ResetBin ==> after.inputs.bin@.len() == 0,
        !(msg is PortChanged) ==> after.inputs.port == before.inputs.port,
        msg matches Message::PortChanged(s) ==> after.inputs.port@ == digits_only(s@),
{
}

/// The daemon is asked for what the user wants: the same answer, the same device, the same
/// feature, the same address.
pub proof fn law_the_daemon_is_asked_for_what_the_user_wants(
    before: App,
    after: App,
    msg: Message,
    ts: Seq<Task>,
)
    requires
        before.updated(after, msg, ts),
    ensures
        msg matches Message::PairRespond(yes) ==> ts.len() == 1 && ts[0] == Task::Ask(
            UiRequest::PairConfirm { accept: yes },
            Back::Pair,
        ),
        msg matches Message::Forget(d) ==> ts.len() == 1 && ts[0] == Task::Ask(
            UiRequest::Forget { device: d },
            Back::Acted,
        ),
        msg matches Message::SetFeature(f, on) ==> ts.len() == 1 && ts[0] == Task::Ask(
            UiRequest::SetFeature { feature: f, enabled: on },
            Back::Acted,
        ) && after.features.on(f) == on,
        msg matches Message::PairDial(a) ==> ts.len() == 1 && ts[0] == Task::Ask(
            UiRequest::Pair { addr: a },
            Back::Pair,
        ) && after.pair.phase@ == "connecting"@,
        msg is PairPoll ==> ts.len() == 1 && ts[0] == Task::Ask(UiRequest::PairStatus, Back::Pair),
        msg is PairClear ==> ts.len() == 2 && ts[0] == Task::Ask(UiRequest::PairCancel, Back::Pair)
            && after.pair.phase@ == "idle"@,
        msg is StopDaemon ==> ts.len() == 1 && ts[0] is Stop,
        msg is StartDaemon ==> ts.len() == 1 && ts[0] is Start,
        msg is SetBin ==> ts.len() == 1 && ts[0] == Task::SetBin(Some(before.inputs.bin)),
        msg is ResetBin ==> ts.len() == 1 && ts[0] == Task::SetBin(None),
        msg is ArrApply ==> ts.len() == 1 && ts[0] is Ask,
{
}

/// The daemon is started with the address that was typed, unless it is blank, and with the
/// port, where a number from 1 to 65535 was typed.
pub proof fn law_the_daemon_starts_as_typed(a: App, t: Task)
    requires
        a.start_task(t),
    ensures
        match t {
            Task::Start { connect, port } => {
                &&& connect is Some <==> trimmed(a.inputs.manual_peer@).len() > 0
                &&& connect is Some ==> connect == Some(a.inputs.manual_peer)
                &&& port is Some <==> (i32_value(a.inputs.port@) is Some && 1 <= i32_value(
                    a.inputs.port@,
                )->0 <= 65535)
                &&& port is Some ==> port->0 == i32_value(a.inputs.port@)->0
            },
            _ => false,
        },
{
}

/// Of a text its digits stay, in their order, and nothing else.
pub proof fn law_digits_stay(t: Seq<char>, c: char)
    ensures
        digits_only(Seq::empty()).len() == 0,
        48 <= c as int <= 57 ==> digits_only(t.push(c)) == digits_only(t).push(c),
        !(48 <= c as int <= 57) ==> digits_only(t.push(c)) == digits_only(t),
{
    assert(t.push(c).drop_last() =~= t);
}

/// A tile that is dragged lies where it was dropped, as large as before, and no other tile
/// moves.
pub proof fn law_only_the_dragged_tile_moves(
    before: App,
    after: App,
    idx: usize,
    x: i32,
    y: i32,
    ts: Seq<Task>,
    i: int,
)
    requires
        before.updated(after, Message::ArrMoved { idx, x, y }, ts),
        0 <= i < before.arrangement@.len(),
    ensures
        after.arrangement@.len() == before.arrangement@.len(),
        i == idx ==> after.arrangement@[i].x == x && after.arrangement@[i].y == y,
        i != idx ==> after.arrangement@[i] == before.arrangement@[i],
        after.arrangement@[i].w == before.arrangement@[i].w,
        after.arrangement@[i].h == before.arrangement@[i].h,
        after.arrangement@[i].dev == before.arrangement@[i].dev,
        after.arrangement@[i].index == before.arrangement@[i].index,
        after.arrangement@[i].label == before.arrangement@[i].label,
{
}

/// Aligned tiles all begin where the highest of them did, and nowhere else sideways.
pub proof fn law_aligned_tiles_begin_at_the_top(
    before: App,
    after: App,
    ts: Seq<Task>,
    i: int,
    j: int,
)
    requires
        before.updated(after, Message::ArrAlignTops, ts),
        0 <= i < before.arrangement@.len(),
        0 <= j < before.arrangement@.len(),
    ensures
        after.arrangement@[i].y == after.arrangement@[j].y,
        after.arrangement@[i].y <= before.arrangement@[j].y,
        exists|k: int|
            0 <= k < before.arrangement@.len() && (#[trigger] before.arrangement@[k]).y
                == after.arrangement@[i].y,
        after.arrangement@[i].x == before.arrangement@[i].x,
        after.arrangement@[i].w == before.arrangement@[i].w,
        after.arrangement@[i].h == before.arrangement@[i].h,
{
    let tiles = before.arrangement@;
    crate::arranger::law_aligning_only_raises(tiles, i);
    crate::arranger::law_aligning_only_raises(tiles, j);
    let k = choose|k: int|
        0 <= k < tiles.len() && top_of(tiles, tiles.len() as int) == (#[trigger] tiles[k]).y;
    assert(after.arrangement@[i].y == tiles[k].y);
    assert(after.arrangement@[j].y == tiles[k].y);
}

/// What the daemon tells first of a pairing that goes on is what is shown of it; once it
/// succeeded, nothing is shown of it, and the daemon is told first.
pub proof fn law_pairings_are_shown_as_told(
    before: App,
    after: App,
    events: Seq<UiEvent>,
    ts: Seq<Task>,
    i: int,
)
    requires
        pairing_told(before, after, events, ts),
        0 <= i < events.len(),
        forall|j: int| 0 <= j < i ==> !(#[trigger] events[j] is Pairing),
    ensures
        events[i] matches UiEvent::Pairing { phase, sas, peer } ==> {
            &&& phase@ != "paired"@ && phase@ != "idle"@ ==> {
                &&& after.pair.phase == phase
                &&& after.pair.sas == sas
                &&& after.pair.peer == peer
                &&& ts.len() == 0
            }
            &&& phase@ == "paired"@ ==> {
                &&& after.pair.phase@ == "idle"@
                &&& after.pair.sas@.len() == 0
                &&& ts.len() == 5
                &&& ts[0] == Task::Ask(UiRequest::PairCancel, Back::Pair)
            }
            &&& phase@ == "idle"@ ==> after.pair == before.pair && ts.len() == 0
        },
{
    reveal_strlit("paired");
    reveal_strlit("idle");
    assert("paired"@.len() != "idle"@.len());
    law_the_first_answer_of_a_kind_counts(events, 0);
    if events[i] is Pairing {
        assert(pairing_from(events, 0) == Some(i));
    }
}

/// To bring everything up to date, four questions are asked: how the daemon stands, whether
/// it runs, where its program is, and who is nearby. They are asked with every tick, and
/// after a pairing that succeeded.
pub proof fn law_four_questions_bring_up_to_date(
    before: App,
    after: App,
    ts: Seq<Task>,
    told: Seq<UiEvent>,
    some: Seq<Task>,
)
    ensures
        refreshes(ts) ==> {
            &&& ts.len() == 4
            &&& ts[0] == Task::Ask(UiRequest::Status, Back::Status)
            &&& ts[1] is AskLifecycle
            &&& ts[2] is AskBin
            &&& ts[3] == Task::Ask(UiRequest::DiscoveredPeers, Back::Discovered)
        },
        before.updated(after, Message::Tick, ts) ==> refreshes(ts) && after == before,
        pairing_told(before, after, told, some) && some.len() > 0 ==> some.len() == 5 && some[1]
            == Task::Ask(UiRequest::Status, Back::Status),
{
    if pairing_told(before, after, told, some) && some.len() > 0 {
        let rest = some.subrange(1, 5);
        assert(refreshes(rest));
        assert(rest[0] == Task::Ask(UiRequest::Status, Back::Status));
        assert(rest[0] == some[1]);
    }
}

} // verus!
