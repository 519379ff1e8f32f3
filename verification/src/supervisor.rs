//! The daemon at large: what it knows of its peers, and how it answers the tray.

use crate::devmap::DeviceMap;
use crate::discovery::Ip;
use crate::hexcodec::{hex_text, is_hex_decoded, HexError};
use crate::ids::DeviceId;
use crate::ipc::{
    DiscoveredPeer, Feature, Features, MonitorView, NoticeLevel, PeerStatus, UiEvent, UiRequest,
};
use crate::layout::{all_in_range, monitors_in_range, Monitor, VirtualDesktop};
use crate::message::Control;
use crate::pairflow::{pairing_event, tells, PairState, Pairing};
use crate::pump::{control_step, ControlStep};
use crate::session::{can_seed, fits_beside, seed_layout, side_by_side};
use crate::text::{chars_of, decimal, push_decimal, trim, trimmed};
use crate::trust::{without_device, TrustStore, TrustedDevice};
use vstd::prelude::*;

verus! {

/// An address to dial, and its text.
#[derive(Debug)]
pub struct DialAddr {
    pub ip: Ip,
    pub port: u16,
    /// The link that an address of version 6 is good for; 0 where it names none.
    pub scope: u32,
    pub text: String,
}

impl Clone for DialAddr {
    fn clone(&self) -> (a: Self)
        ensures
            a == *self,
    {
        DialAddr { ip: self.ip, port: self.port, scope: self.scope, text: self.text.clone() }
    }
}

/// A peer that was seen on the network.
#[derive(Debug)]
pub struct DiscEntry {
    pub name: String,
    /// Its addresses, the best first.
    pub addrs: Vec<DialAddr>,
    /// It waits to be paired.
    pub pairing: bool,
    /// When it was seen, in milliseconds.
    pub last_seen_ms: u64,
}

/// What the daemon knows.
pub struct Daemon {
    pub device_name: String,
    pub device_id: DeviceId,
    /// The port that it listens on.
    pub port: u16,
    pub trust: TrustStore,
    /// The peers with a session, and their monitors.
    pub connected: DeviceMap<Vec<Monitor>>,
    /// The arrangements that were saved.
    pub layouts: DeviceMap<VirtualDesktop>,
    pub discovered: DeviceMap<DiscEntry>,
    pub pairing: Pairing,
    /// What is switched on.
    pub features: Features,
}

/// What the machine says when a request comes in.
pub struct Surroundings {
    pub now_ms: u64,
    /// The monitors of this machine, where they can be told.
    pub own: Option<Vec<Monitor>>,
    /// Where this machine can be dialled.
    pub addrs: Vec<String>,
    /// What to say where the firewall keeps peers out.
    pub firewall_hint: Option<String>,
    /// The address in the request, or why it is none.
    pub target: Result<DialAddr, String>,
}

/// What is to be done besides answering.
#[derive(Debug)]
pub enum Effect {
    Nothing,
    /// Keep the paired devices.
    SaveTrust,
    /// Keep the arrangement with a peer. Where a session with the peer is running, it
    /// goes by the arrangement of this message, and sends the message on.
    SaveLayout { peer: DeviceId, news: Option<Control> },
    /// Announce whether this device waits to be paired.
    Advertise(bool),
    /// Tell the handshake that waits.
    Answer(bool),
    /// Tell the handshake that waits, if any, and announce the end of the wait.
    CallOff(Option<bool>),
    /// Dial these addresses in turn, and pair with the first that answers.
    DialToPair(Vec<DialAddr>),
    /// Switch a feature on or off in the sessions that are running; those that begin
    /// later go by the daemon's state.
    SetFeature { feature: Feature, enabled: bool },
}

/// The answer to a request.
pub struct Reply {
    pub events: Vec<UiEvent>,
    pub effect: Effect,
}

// --- Views -------------------------------------------------------------------

/// The view shows the monitor; `dev` tells this machine from the peer.
pub open spec fn shows(v: MonitorView, m: Monitor, me: DeviceId) -> bool {
    &&& v.dev == if m.id.device == me {
        0u8
    } else {
        1u8
    }
    &&& v.index == m.id.index
    &&& v.label@ == m.label@
    &&& v.x == m.bounds.x
    &&& v.y == m.bounds.y
    &&& v.w == m.bounds.w
    &&& v.h == m.bounds.h
}

/// The views show the monitors one by one.
pub open spec fn show_all(vs: Seq<MonitorView>, ms: Seq<Monitor>, me: DeviceId) -> bool {
    &&& vs.len() == ms.len()
    &&& forall|i: int| 0 <= i < ms.len() ==> shows(#[trigger] vs[i], ms[i], me)
}

/// The monitors as the arranger shows them.
pub fn monitor_views(monitors: &Vec<Monitor>, me: DeviceId) -> (vs: Vec<MonitorView>)
    ensures
        show_all(vs@, monitors@, me),
{
    let mut vs: Vec<MonitorView> = Vec::new();
    let mut i: usize = 0;
    while i < monitors.len()
        invariant
            0 <= i <= monitors.len(),
            vs@.len() == i,
            forall|j: int| 0 <= j < i ==> shows(#[trigger] vs@[j], monitors@[j], me),
        decreases monitors.len() - i,
    {
        let m = &monitors[i];
        let dev: u8 = if m.device() == me {
            0
        } else {
            1
        };
        vs.push(
            MonitorView {
                dev,
                index: m.id.index,
                label: m.label.clone(),
                x: m.bounds.x,
                y: m.bounds.y,
                w: m.bounds.w,
                h: m.bounds.h,
            },
        );
        i = i + 1;
    }
    vs
}

/// The monitors of this machine; none where they cannot be told.
pub open spec fn own_monitors(s: Surroundings) -> Seq<Monitor> {
    match s.own {
        Some(ms) => ms@,
        None => Seq::empty(),
    }
}

fn own_views(s: &Surroundings, me: DeviceId) -> (vs: Vec<MonitorView>)
    ensures
        show_all(vs@, own_monitors(*s), me),
{
    match &s.own {
        Some(ms) => monitor_views(ms, me),
        None => Vec::new(),
    }
}

fn copy_texts(v: &Vec<String>) -> (out: Vec<String>)
    ensures
        out@ == v@,
{
    let mut out: Vec<String> = Vec::new();
    let mut i: usize = 0;
    while i < v.len()
        invariant
            0 <= i <= v.len(),
            out@ =~= v@.subrange(0, i as int),
        decreases v.len() - i,
    {
        out.push(v[i].clone());
        i = i + 1;
    }
    assert(out@ =~= v@);
    out
}

fn copy_addrs(v: &Vec<DialAddr>) -> (out: Vec<DialAddr>)
    ensures
        out@ == v@,
{
    let mut out: Vec<DialAddr> = Vec::new();
    let mut i: usize = 0;
    while i < v.len()
        invariant
            0 <= i <= v.len(),
            out@ =~= v@.subrange(0, i as int),
        decreases v.len() - i,
    {
        out.push(v[i].clone());
        i = i + 1;
    }
    assert(out@ =~= v@);
    out
}

// --- What the daemon knows ---------------------------------------------------

/// The event tells of a paired device.
pub open spec fn reports(p: PeerStatus, d: TrustedDevice, connected: bool) -> bool {
    &&& p.name@ == d.name@
    &&& p.device@ == hex_text(d.id.0@)
    &&& p.connected == connected
    &&& p.address == d.last_address
    &&& p.latency_ms is None
}

impl Daemon {
    pub open spec fn wf(self) -> bool {
        self.connected.wf() && self.layouts.wf() && self.discovered.wf()
    }

    /// The event tells how the daemon stands: the paired devices and which of them
    /// are connected, and the monitors and addresses of this machine.
    pub open spec fn stands(self, e: UiEvent, s: Surroundings) -> bool {
        e matches UiEvent::Status { device_name, device_id, peers, active, port, addrs, monitors }
            && {
            &&& device_name@ == self.device_name@
            &&& device_id@ == hex_text(self.device_id.0@)
            &&& peers@.len() == self.trust.devices@.len()
            &&& forall|i: int|
                0 <= i < peers@.len() ==> reports(
                    #[trigger] peers@[i],
                    self.trust.devices@[i],
                    self.connected@.dom().contains(self.trust.devices@[i].id),
                )
            &&& active == (self.connected@.dom() != Set::<DeviceId>::empty())
            &&& port == self.port
            &&& addrs@ == s.addrs@
            &&& show_all(monitors@, own_monitors(s), self.device_id)
        }
    }

    /// Tells how the daemon stands.
    pub fn status(&self, s: &Surroundings) -> (e: UiEvent)
        requires
            self.wf(),
        ensures
            self.stands(e, *s),
    {
        let mut peers: Vec<PeerStatus> = Vec::new();
        let mut i: usize = 0;
        while i < self.trust.devices.len()
            invariant
                0 <= i <= self.trust.devices.len(),
                self.wf(),
                peers@.len() == i,
                forall|j: int|
                    0 <= j < i ==> reports(
                        #[trigger] peers@[j],
                        self.trust.devices@[j],
                        self.connected@.dom().contains(self.trust.devices@[j].id),
                    ),
            decreases self.trust.devices.len() - i,
        {
            let d = &self.trust.devices[i];
            peers.push(
                PeerStatus {
                    name: d.name.clone(),
                    device: d.id.to_hex(),
                    connected: self.connected.contains(d.id),
                    address: d.last_address.clone(),
                    latency_ms: None,
                },
            );
            i = i + 1;
        }
        UiEvent::Status {
            device_name: self.device_name.clone(),
            device_id: self.device_id.to_hex(),
            peers,
            active: !self.connected.is_empty(),
            port: self.port,
            addrs: copy_texts(&s.addrs),
            monitors: own_views(s, self.device_id),
        }
    }

    /// A session with a peer has begun.
    pub fn on_session(&mut self, peer: DeviceId, monitors: Vec<Monitor>)
        requires
            old(self).wf(),
        ensures
            final(self).wf(),
            final(self).connected@ == old(self).connected@.insert(peer, monitors),
            final(self).same_but_connected(*old(self)),
    {
        self.connected.insert(peer, monitors);
    }

    /// The session with a peer has ended.
    pub fn on_session_end(&mut self, peer: DeviceId)
        requires
            old(self).wf(),
        ensures
            final(self).wf(),
            final(self).connected@ == old(self).connected@.remove(peer),
            final(self).same_but_connected(*old(self)),
    {
        self.connected.remove(peer);
    }

    /// A peer was seen on the network.
    pub fn on_sighting(&mut self, peer: DeviceId, entry: DiscEntry)
        requires
            old(self).wf(),
        ensures
            final(self).wf(),
            final(self).discovered@ == old(self).discovered@.insert(peer, entry),
            final(self).same_but_discovered(*old(self)),
    {
        self.discovered.insert(peer, entry);
    }

    /// A peer has sent its arrangement of the desktop. It is kept, unless coordinates
    /// cannot express it.
    pub fn on_peer_layout(&mut self, peer: DeviceId, layout: VirtualDesktop) -> (e: Effect)
        requires
            old(self).wf(),
        ensures
            final(self).wf(),
            if all_in_range(layout.monitors@) {
                &&& final(self).same_but_layouts(*old(self))
                &&& final(self).layouts@ == old(self).layouts@.insert(peer, layout)
                &&& e == Effect::SaveLayout { peer, news: None }
            } else {
                *final(self) == *old(self) && e == Effect::Nothing
            },
    {
        if !monitors_in_range(&layout.monitors) {
            return Effect::Nothing;
        }
        self.layouts.insert(peer, layout);
        Effect::SaveLayout { peer, news: None }
    }

    pub open spec fn same_but_connected(self, d: Daemon) -> bool {
        self == (Daemon { connected: self.connected, ..d })
    }

    pub open spec fn same_but_discovered(self, d: Daemon) -> bool {
        self == (Daemon { discovered: self.discovered, ..d })
    }

    pub open spec fn same_but_layouts(self, d: Daemon) -> bool {
        self == (Daemon { layouts: self.layouts, ..d })
    }

    pub open spec fn same_but_trust(self, d: Daemon) -> bool {
        self == (Daemon { trust: self.trust, ..d })
    }

    pub open spec fn same_but_pairing(self, d: Daemon) -> bool {
        self == (Daemon { pairing: self.pairing, ..d })
    }
}

// --- Peers nearby ------------------------------------------------------------

/// A sighting counts for this many milliseconds.
pub const SIGHTING_MS: u64 = 150_000;

/// The peer waits to be paired, and was seen not long ago.
pub open spec fn waits(e: DiscEntry, now_ms: u64) -> bool {
    e.pairing && now_ms - e.last_seen_ms < SIGHTING_MS
}

/// Those of the first `n` peers that wait to be paired.
pub open spec fn waiting(
    order: Seq<DeviceId>,
    seen: Map<DeviceId, DiscEntry>,
    now_ms: u64,
    n: int,
) -> Seq<DeviceId>
    decreases n,
{
    if n <= 0 {
        Seq::empty()
    } else {
        let before = waiting(order, seen, now_ms, n - 1);
        if waits(seen[order[n - 1]], now_ms) {
            before.push(order[n - 1])
        } else {
            before
        }
    }
}

/// The event tells of a peer nearby.
pub open spec fn names(p: DiscoveredPeer, id: DeviceId, e: DiscEntry, trusted: bool) -> bool {
    &&& p.name@ == e.name@
    &&& p.addr@ == if e.addrs@.len() > 0 {
        e.addrs@[0].text@
    } else {
        Seq::empty()
    }
    &&& p.device@ == hex_text(id.0@.subrange(0, 4))
    &&& p.trusted == trusted
}

impl Daemon {
    pub open spec fn is_paired(self, id: DeviceId) -> bool {
        crate::trust::record(self.trust.devices@, id) is Some
    }

    /// The list names the peers nearby that wait to be paired.
    pub open spec fn lists_nearby(self, ps: Seq<DiscoveredPeer>, now_ms: u64) -> bool {
        let ids = waiting(
            self.discovered.order(),
            self.discovered@,
            now_ms,
            self.discovered.order().len() as int,
        );
        &&& ps.len() == ids.len()
        &&& forall|i: int|
            0 <= i < ps.len() ==> names(
                #[trigger] ps[i],
                ids[i],
                self.discovered@[ids[i]],
                self.is_paired(ids[i]),
            )
    }

    /// The peers nearby that wait to be paired.
    pub fn nearby(&self, now_ms: u64) -> (ps: Vec<DiscoveredPeer>)
        requires
            self.wf(),
        ensures
            self.lists_nearby(ps@, now_ms),
    {
        let ghost order = self.discovered.order();
        let mut ps: Vec<DiscoveredPeer> = Vec::new();
        let mut i: usize = 0;
        while i < self.discovered.len()
            invariant
                0 <= i <= order.len(),
                self.wf(),
                order == self.discovered.order(),
                ps@.len() == waiting(order, self.discovered@, now_ms, i as int).len(),
                forall|j: int|
                    0 <= j < ps@.len() ==> names(
                        #[trigger] ps@[j],
                        waiting(order, self.discovered@, now_ms, i as int)[j],
                        self.discovered@[waiting(order, self.discovered@, now_ms, i as int)[j]],
                        self.is_paired(waiting(order, self.discovered@, now_ms, i as int)[j]),
                    ),
            decreases order.len() - i,
        {
            let (id, e) = self.discovered.at(i);
            let recent = if now_ms >= e.last_seen_ms {
                now_ms - e.last_seen_ms < SIGHTING_MS
            } else {
                true
            };
            if e.pairing && recent {
                let addr = if e.addrs.len() > 0 {
                    e.addrs[0].text.clone()
                } else {
                    String::new()
                };
                ps.push(
                    DiscoveredPeer {
                        name: e.name.clone(),
                        addr,
                        device: id.short(),
                        trusted: self.trust.get(id).is_some(),
                    },
                );
            }
            i = i + 1;
        }
        ps
    }
}

/// The two name one socket: the same number, port and link.
pub open spec fn same_socket(a: DialAddr, b: DialAddr) -> bool {
    a.ip == b.ip && a.port == b.port && a.scope == b.scope
}

/// The address is among these.
pub open spec fn has_addr(addrs: Seq<DialAddr>, a: DialAddr) -> bool {
    exists|i: int| 0 <= i < addrs.len() && same_socket(#[trigger] addrs[i], a)
}

fn holds_addr(addrs: &Vec<DialAddr>, a: &DialAddr) -> (b: bool)
    ensures
        b == has_addr(addrs@, *a),
{
    let mut i: usize = 0;
    while i < addrs.len()
        invariant
            0 <= i <= addrs.len(),
            forall|j: int| 0 <= j < i ==> !same_socket(#[trigger] addrs@[j], *a),
        decreases addrs.len() - i,
    {
        if addrs[i].ip == a.ip && addrs[i].port == a.port && addrs[i].scope == a.scope {
            assert(same_socket(addrs@[i as int], *a));
            return true;
        }
        i = i + 1;
    }
    false
}

/// The addresses to try for one: all those of the first peer nearby that has it,
/// or else that one.
pub open spec fn candidates_from(
    order: Seq<DeviceId>,
    seen: Map<DeviceId, DiscEntry>,
    a: DialAddr,
    i: int,
) -> Seq<DialAddr>
    decreases order.len() - i,
{
    if i < 0 || i >= order.len() {
        seq![a]
    } else if has_addr(seen[order[i]].addrs@, a) {
        seen[order[i]].addrs@
    } else {
        candidates_from(order, seen, a, i + 1)
    }
}

impl Daemon {
    /// The addresses to try for one that was asked for.
    pub open spec fn to_try(self, a: DialAddr) -> Seq<DialAddr> {
        candidates_from(self.discovered.order(), self.discovered@, a, 0)
    }

    fn candidates(&self, a: &DialAddr) -> (v: Vec<DialAddr>)
        requires
            self.wf(),
        ensures
            v@ == self.to_try(*a),
    {
        let mut i: usize = 0;
        while i < self.discovered.len()
            invariant
                0 <= i <= self.discovered.order().len(),
                self.wf(),
                self.to_try(*a) == candidates_from(
                    self.discovered.order(),
                    self.discovered@,
                    *a,
                    i as int,
                ),
            decreases self.discovered.order().len() - i,
        {
            let (id, e) = self.discovered.at(i);
            if holds_addr(&e.addrs, a) {
                return copy_addrs(&e.addrs);
            }
            i = i + 1;
        }
        vec![a.clone()]
    }
}

// --- Requests ----------------------------------------------------------------

/// The first device of this name, from position `i` on.
pub open spec fn named_from(ds: Seq<TrustedDevice>, name: Seq<char>, i: int) -> Option<int>
    decreases ds.len() - i,
{
    if i < 0 || i >= ds.len() {
        None
    } else if ds[i].name@ == name {
        Some(i)
    } else {
        named_from(ds, name, i + 1)
    }
}

fn id_of_name(trust: &TrustStore, name: &String) -> (r: Option<DeviceId>)
    ensures
        r == match named_from(trust.devices@, name@, 0) {
            Some(i) => Some(trust.devices@[i].id),
            None => None,
        },
{
    let mut i: usize = 0;
    while i < trust.devices.len()
        invariant
            0 <= i <= trust.devices.len(),
            named_from(trust.devices@, name@, 0) == named_from(trust.devices@, name@, i as int),
        decreases trust.devices.len() - i,
    {
        if trust.devices[i].name == *name {
            return Some(trust.devices[i].id);
        }
        i = i + 1;
    }
    None
}

proof fn lemma_named_has_record(ds: Seq<TrustedDevice>, name: Seq<char>, i: int)
    requires
        0 <= i <= ds.len(),
    ensures
        named_from(ds, name, i) matches Some(k) ==> i <= k < ds.len() && crate::trust::record(
            ds,
            ds[k].id,
        ) is Some,
    decreases ds.len() - i,
{
    if i < ds.len() && ds[i].name@ != name {
        lemma_named_has_record(ds, name, i + 1);
    } else if i < ds.len() {
        crate::trust::lemma_record_from(ds, ds[i].id, 0);
    }
}

/// The text spells the id of a device.
pub open spec fn spells_id(t: Seq<char>, id: DeviceId) -> bool {
    is_hex_decoded(vstd::utf8::encode_utf8(t), 16, Ok::<Seq<u8>, HexError>(id.0@))
}

/// The text spells no id.
pub open spec fn spells_no_id(t: Seq<char>) -> bool {
    forall|id: DeviceId| !spells_id(t, id)
}

fn read_id(t: &String) -> (r: Option<DeviceId>)
    ensures
        match r {
            Some(id) => spells_id(t@, id) && forall|other: DeviceId|
                spells_id(t@, other) ==> other == id,
            None => spells_no_id(t@),
        },
{
    match DeviceId::from_hex(t.as_str()) {
        Ok(id) => {
            proof {
                assert forall|other: DeviceId| spells_id(t@, other) implies other == id by {
                    assert(other.0@ =~= id.0@);
                    assert(other.0 =~= id.0);
                }
            }
            Some(id)
        },
        Err(e) => {
            None
        },
    }
}

/// The two kinds of word that a bad address is answered with.
pub open spec fn bad_address(why: Seq<char>) -> Seq<char> {
    "bad address: "@ + why
}

/// The event warns.
pub open spec fn warns(e: UiEvent, text: String) -> bool {
    e == (UiEvent::Notice { level: NoticeLevel::Warning, text })
}

impl Daemon {
    /// The arrangement with a peer that has these monitors: the saved one, or the
    /// peer beside us.
    pub open spec fn arranged(self, peer: DeviceId, own: Seq<Monitor>, theirs: Seq<Monitor>) -> Seq<
        Monitor,
    > {
        if self.layouts@.dom().contains(peer) {
            self.layouts@[peer].monitors@
        } else {
            side_by_side(own, theirs)
        }
    }

    /// A peer without a saved arrangement fits beside this machine.
    pub open spec fn can_arrange(self, peer: DeviceId, s: Surroundings) -> bool {
        self.connected@.dom().contains(peer) && !self.layouts@.dom().contains(peer) ==> can_seed(
            own_monitors(s),
            self.connected@[peer]@,
        )
    }

    /// Answers a request for the arrangement with a peer; there is none with a peer
    /// that is not connected.
    pub fn arrangement(&self, peer: String, s: &Surroundings) -> (events: Vec<UiEvent>)
        requires
            self.wf(),
            forall|id: DeviceId| spells_id(peer@, id) ==> self.can_arrange(id, *s),
        ensures
            self.answers_arrangement(events@, peer, *s),
    {
        let target = match read_id(&peer) {
            Some(id) => id,
            None => {
                return Vec::new();
            },
        };
        match self.connected.get(target) {
            None => {
                Vec::new()
            },
            Some(theirs) => {
                let layout = match self.layouts.get(target) {
                    Some(d) => VirtualDesktop::new(crate::layout::clone_monitors(&d.monitors)),
                    None => {
                        match &s.own {
                            Some(ms) => seed_layout(ms, theirs),
                            None => {
                                let nothing: Vec<Monitor> = Vec::new();
                                assert(nothing@ =~= own_monitors(*s));
                                seed_layout(&nothing, theirs)
                            },
                        }
                    },
                };
                let e = UiEvent::Arrangement {
                    peer,
                    own: own_views(s, self.device_id),
                    theirs: monitor_views(theirs, self.device_id),
                    layout,
                };
                assert(self.arranges(e, peer, target, *s));
                vec![e]
            },
        }
    }

    /// The event shows the monitors of both machines and how they are arranged.
    pub open spec fn arranges(self, e: UiEvent, peer: String, id: DeviceId, s: Surroundings) -> bool {
        e matches UiEvent::Arrangement { peer: p, own, theirs, layout } && {
            &&& p == peer
            &&& show_all(own@, own_monitors(s), self.device_id)
            &&& show_all(theirs@, self.connected@[id]@, self.device_id)
            &&& layout.monitors@ == self.arranged(id, own_monitors(s), self.connected@[id]@)
        }
    }

    /// The answer to a request for an arrangement: nothing, where the text spells no
    /// device or one that is not connected.
    pub open spec fn answers_arrangement(
        self,
        events: Seq<UiEvent>,
        peer: String,
        s: Surroundings,
    ) -> bool {
        if exists|id: DeviceId| #[trigger]
            spells_id(peer@, id) && self.connected@.dom().contains(id) {
            events.len() == 1 && forall|id: DeviceId|
                spells_id(peer@, id) ==> #[trigger] self.arranges(events[0], peer, id, s)
        } else {
            events.len() == 0
        }
    }

    /// The request can be answered: an arrangement that is asked for can be made.
    pub open spec fn answers(self, req: UiRequest, s: Surroundings) -> bool {
        req matches UiRequest::Arrangement { peer } ==> forall|id: DeviceId|
            spells_id(peer@, id) ==> self.can_arrange(id, s)
    }

    /// Whether the request can be answered.
    pub fn can_answer(&self, req: &UiRequest, s: &Surroundings) -> (b: bool)
        requires
            self.wf(),
        ensures
            b == self.answers(*req, *s),
    {
        let peer = match req {
            UiRequest::Arrangement { peer } => peer,
            _ => {
                return true;
            },
        };
        let id = match read_id(peer) {
            Some(id) => id,
            None => {
                return true;
            },
        };
        let b = match (self.connected.get(id), self.layouts.get(id)) {
            (Some(theirs), None) => match &s.own {
                Some(own) => fits_beside(own, theirs),
                None => {
                    let nothing: Vec<Monitor> = Vec::new();
                    assert(nothing@ =~= own_monitors(*s));
                    fits_beside(&nothing, theirs)
                },
            },
            _ => true,
        };
        assert(b == self.can_arrange(id, *s));
        b
    }

    /// What becomes of a request to pair.
    pub open spec fn pairs(
        self,
        after: Daemon,
        addr: Seq<char>,
        s: Surroundings,
        r: Reply,
    ) -> bool {
        &&& after.same_but_pairing(self)
        &&& if trimmed(addr).len() == 0 {
            &&& after.pairing == self.pairing.with_window(true)
            &&& r.effect == Effect::Advertise(true)
            &&& match s.firewall_hint {
                Some(text) => r.events@.len() == 2 && tells(r.events@[0], after.pairing.state)
                    && warns(r.events@[1], text),
                None => r.events@.len() == 1 && tells(r.events@[0], after.pairing.state),
            }
        } else {
            &&& r.events@.len() == 1
            &&& tells(r.events@[0], after.pairing.state)
            &&& match s.target {
                Ok(a) => {
                    &&& after.pairing == self.pairing
                    &&& r.effect matches Effect::DialToPair(v) && v@ == self.to_try(a)
                },
                Err(e) => {
                    &&& exists|msg: String|
                        msg@ == bad_address(e@) && after.pairing == #[trigger] self.pairing.failed(
                            msg,
                        )
                    &&& r.effect == Effect::Advertise(false)
                },
            }
        }
    }

    fn pair(&mut self, addr: &String, s: Surroundings) -> (r: Reply)
        requires
            old(self).wf(),
        ensures
            final(self).wf(),
            old(self).pairs(*final(self), addr@, s, r),
    {
        let chars = chars_of(addr.as_str());
        if trim(chars.as_slice()).len() == 0 {
            self.pairing.set_discoverable(true);
            let mut events = vec![pairing_event(self.pairing.snapshot())];
            if let Some(text) = s.firewall_hint {
                events.push(UiEvent::Notice { level: NoticeLevel::Warning, text });
            }
            return Reply { events, effect: Effect::Advertise(true) };
        }
        match s.target {
            Ok(a) => {
                let v = self.candidates(&a);
                let events = vec![pairing_event(self.pairing.snapshot())];
                Reply { events, effect: Effect::DialToPair(v) }
            },
            Err(e) => {
                let mut msg = "bad address: ".to_owned();
                msg.append(e.as_str());
                let ghost m = msg;
                self.pairing.fail(msg);
                let events = vec![pairing_event(self.pairing.snapshot())];
                assert(m@ == bad_address(e@) && self.pairing == old(self).pairing.failed(m));
                Reply { events, effect: Effect::Advertise(false) }
            },
        }
    }

    /// The peer is told of an arrangement exactly where a session with it is running.
    pub open spec fn announces(self, peer: DeviceId, layout: VirtualDesktop, e: Effect) -> bool {
        match e {
            Effect::SaveLayout { peer: p, news: Some(Control::LayoutUpdate { layout: l }) } => {
                &&& p == peer
                &&& self.connected@.dom().contains(peer)
                &&& l.monitors@ == layout.monitors@
            },
            Effect::SaveLayout { peer: p, news: None } => {
                p == peer && !self.connected@.dom().contains(peer)
            },
            _ => false,
        }
    }

    /// What becomes of a request to keep an arrangement.
    pub open spec fn keeps(
        self,
        after: Daemon,
        peer: Seq<char>,
        layout: VirtualDesktop,
        s: Surroundings,
        r: Reply,
    ) -> bool {
        if spells_no_id(peer) {
            after == self && r.events@.len() == 0 && r.effect == Effect::Nothing
        } else {
            exists|id: DeviceId| #[trigger]
                spells_id(peer, id) && {
                    &&& after.same_but_layouts(self)
                    &&& after.layouts@ == self.layouts@.insert(id, layout)
                    &&& self.announces(id, layout, r.effect)
                    &&& r.events@.len() == 1
                    &&& after.stands(r.events@[0], s)
                }
        }
    }

    /// What becomes of a request to forget a device.
    pub open spec fn forgets(self, after: Daemon, name: Seq<char>, s: Surroundings, r: Reply) -> bool {
        &&& after.same_but_trust(self)
        &&& r.events@.len() == 1
        &&& after.stands(r.events@[0], s)
        &&& match named_from(self.trust.devices@, name, 0) {
            Some(i) => {
                &&& after.trust.devices@ == without_device(
                    self.trust.devices@,
                    self.trust.devices@[i].id,
                )
                &&& r.effect == Effect::SaveTrust
            },
            None => after.trust == self.trust && r.effect == Effect::Nothing,
        }
    }

    /// What becomes of a request.
    pub open spec fn answered(self, after: Daemon, req: UiRequest, s: Surroundings, r: Reply) -> bool {
        match req {
            UiRequest::Status => {
                &&& after == self
                &&& r.effect == Effect::Nothing
                &&& r.events@.len() == 1
                &&& self.stands(r.events@[0], s)
            },
            UiRequest::Arrangement { peer } => {
                &&& after == self
                &&& r.effect == Effect::Nothing
                &&& self.answers_arrangement(r.events@, peer, s)
            },
            UiRequest::SetLayout { peer, layout } => self.keeps(
                after,
                peer@,
                layout,
                s,
                r,
            ),
            UiRequest::DiscoveredPeers => {
                &&& after == self
                &&& r.effect == Effect::Nothing
                &&& r.events@.len() == 1
                &&& r.events@[0] matches UiEvent::Discovered { peers } && self.lists_nearby(peers@, s.now_ms)
            },
            UiRequest::PairStatus => {
                &&& after == self
                &&& r.effect == Effect::Nothing
                &&& r.events@.len() == 1
                &&& tells(r.events@[0], self.pairing.state)
            },
            UiRequest::PairConfirm { accept } => {
                &&& after.same_but_pairing(self)
                &&& after.pairing == (Pairing {
                    prompting: false,
                    ..self.pairing
                })
                &&& r.effect == if self.pairing.prompting {
                    Effect::Answer(accept)
                } else {
                    Effect::Nothing
                }
                &&& r.events@.len() == 1
                &&& tells(r.events@[0], after.pairing.state)
            },
            UiRequest::PairCancel => {
                &&& after.same_but_pairing(self)
                &&& after.pairing == self.pairing.cleared()
                &&& r.effect == Effect::CallOff(
                    if self.pairing.prompting {
                        Some(false)
                    } else {
                        None
                    },
                )
                &&& r.events@.len() == 1
                &&& tells(r.events@[0], after.pairing.state)
            },
            UiRequest::Pair { addr } => self.pairs(after, addr@, s, r),
            UiRequest::Forget { device } => self.forgets(after, device@, s, r),
            UiRequest::SetFeature { feature, enabled } => {
                &&& after == (Daemon {
                    features: self.features.with(feature, enabled),
                    ..self
                })
                &&& r.effect == Effect::SetFeature { feature, enabled }
                &&& r.events@.len() == 0
            },
        }
    }

    /// Answers a request of the tray.
    pub fn handle(&mut self, req: UiRequest, s: Surroundings) -> (r: Reply)
        requires
            old(self).wf(),
            old(self).answers(req, s),
        ensures
            final(self).wf(),
            old(self).answered(*final(self), req, s, r),
    {
        match req {
            UiRequest::Status => {
                let e = self.status(&s);
                Reply { events: vec![e], effect: Effect::Nothing }
            },
            UiRequest::Arrangement { peer } => {
                let events = self.arrangement(peer, &s);
                Reply { events, effect: Effect::Nothing }
            },
            UiRequest::SetLayout { peer, layout } => {
                let target = match read_id(&peer) {
                    Some(id) => id,
                    None => {
                        return Reply { events: Vec::new(), effect: Effect::Nothing };
                    },
                };
                let news = if self.connected.contains(target) {
                    Some(Control::LayoutUpdate { layout: layout.clone() })
                } else {
                    None
                };
                self.layouts.insert(target, layout);
                let e = self.status(&s);
                assert(spells_id(peer@, target));
                Reply { events: vec![e], effect: Effect::SaveLayout { peer: target, news } }
            },
            UiRequest::DiscoveredPeers => {
                let peers = self.nearby(s.now_ms);
                Reply { events: vec![UiEvent::Discovered { peers }], effect: Effect::Nothing }
            },
            UiRequest::PairStatus => {
                let e = pairing_event(self.pairing.snapshot());
                Reply { events: vec![e], effect: Effect::Nothing }
            },
            UiRequest::PairConfirm { accept } => {
                let answer = self.pairing.respond(accept);
                let e = pairing_event(self.pairing.snapshot());
                let effect = match answer {
                    Some(a) => Effect::Answer(a),
                    None => Effect::Nothing,
                };
                Reply { events: vec![e], effect }
            },
            UiRequest::PairCancel => {
                let answer = self.pairing.clear();
                let e = pairing_event(self.pairing.snapshot());
                Reply { events: vec![e], effect: Effect::CallOff(answer) }
            },
            UiRequest::Pair { addr } => self.pair(&addr, s),
            UiRequest::Forget { device } => {
                let mut effect = Effect::Nothing;
                match id_of_name(&self.trust, &device) {
                    Some(id) => {
                        proof {
                            lemma_named_has_record(self.trust.devices@, device@, 0);
                        }
                        if self.trust.forget(id) {
                            effect = Effect::SaveTrust;
                        }
                    },
                    None => {},
                }
                let e = self.status(&s);
                Reply { events: vec![e], effect }
            },
            UiRequest::SetFeature { feature, enabled } => {
                self.features.set(feature, enabled);
                Reply { events: Vec::new(), effect: Effect::SetFeature { feature, enabled } }
            },
        }
    }
}

/// What is said when none of a peer's addresses answered.
pub open spec fn unreachable_text(addr: Seq<char>, tried: nat, last: Seq<char>) -> Seq<char> {
    "couldn't reach "@ + addr
        + " — the other device may be offline or blocking inbound (firewall). Make sure its daemon is running and inbound UDP is allowed. (tried "@
        + decimal(tried) + " address(es); last: "@ + last + ")"@
}

/// What is said when none of a peer's addresses answered.
pub fn unreachable_message(addr: &str, tried: u64, last: &str) -> (s: String)
    ensures
        s@ == unreachable_text(addr@, tried as nat, last@),
{
    let mut s = "couldn't reach ".to_owned();
    s.append(addr);
    s.append(
        " — the other device may be offline or blocking inbound (firewall). Make sure its daemon is running and inbound UDP is allowed. (tried ",
    );
    push_decimal(&mut s, tried);
    s.append(" address(es); last: ");
    s.append(last);
    s.append(")");
    s
}

/// How long an attempt to reach a peer may take, in milliseconds.
pub const PAIR_DIAL_MS: u64 = 5_000;

/// How an attempt to reach a peer went wrong.
#[derive(Debug)]
pub enum DialFault {
    Failed(String),
    TimedOut,
}

/// The addresses of a peer that is dialled to be paired, tried one after the other
/// until one answers.
#[derive(Debug)]
pub struct PairDial {
    /// What the user asked for.
    pub typed: String,
    pub addrs: Vec<DialAddr>,
    /// How many were tried in vain.
    pub tried: usize,
    /// What went wrong last.
    pub last: String,
}

impl PairDial {
    /// No more were tried than there are.
    pub open spec fn wf(self) -> bool {
        self.tried <= self.addrs@.len()
    }

    pub fn new(typed: String, addrs: Vec<DialAddr>) -> (d: Self)
        ensures
            d.typed == typed,
            d.addrs == addrs,
            d.tried == 0,
            d.last@ == "no address"@,
            d.wf(),
    {
        PairDial { typed, addrs, tried: 0, last: "no address".to_owned() }
    }

    /// What is to be dialled, and for how long.
    pub open spec fn due(&self) -> Option<(&DialAddr, u64)> {
        if self.tried < self.addrs@.len() {
            Some((&self.addrs@[self.tried as int], PAIR_DIAL_MS))
        } else {
            None
        }
    }

    /// This becomes of an address that did not answer.
    pub open spec fn faulted(self, after: PairDial, fault: DialFault) -> bool {
        &&& after.typed == self.typed
        &&& after.addrs == self.addrs
        &&& after.tried == self.tried + 1
        &&& after.last@ == match fault {
            DialFault::Failed(e) => e@,
            DialFault::TimedOut => "timed out"@,
        }
    }

    /// What to dial next, and for how long; none once every address was tried.
    pub fn attempt(&self) -> (r: Option<(&DialAddr, u64)>)
        ensures
            r == self.due(),
    {
        if self.tried < self.addrs.len() {
            Some((&self.addrs[self.tried], PAIR_DIAL_MS))
        } else {
            None
        }
    }

    /// The address that was tried did not answer.
    pub fn on_fault(&mut self, fault: DialFault)
        requires
            old(self).tried < old(self).addrs@.len(),
        ensures
            old(self).faulted(*final(self), fault),
            final(self).wf(),
    {
        assert(self.tried < self.addrs.len());
        self.tried = self.tried + 1;
        self.last = match fault {
            DialFault::Failed(e) => e,
            DialFault::TimedOut => "timed out".to_owned(),
        };
    }

    /// What is said when no address answered.
    pub fn give_up(&self) -> (s: String)
        ensures
            s@ == unreachable_text(self.typed@, self.addrs@.len(), self.last@),
    {
        unreachable_message(self.typed.as_str(), self.addrs.len() as u64, self.last.as_str())
    }
}

/// The two were paired.
pub open spec fn begins_session(s: PairState) -> bool {
    s matches PairState::Done { ok, peer } && ok
}

/// Whether to begin a session after a handshake on a connection that was dialled:
/// where the two were paired.
pub fn dials_after(s: &PairState) -> (b: bool)
    ensures
        b == begins_session(*s),
{
    match s {
        PairState::Done { ok, .. } => *ok,
        _ => false,
    }
}

proof fn lemma_waiting_waits(
    order: Seq<DeviceId>,
    seen: Map<DeviceId, DiscEntry>,
    now_ms: u64,
    n: int,
)
    requires
        0 <= n <= order.len(),
    ensures
        forall|i: int|
            0 <= i < waiting(order, seen, now_ms, n).len() ==> waits(
                seen[#[trigger] waiting(order, seen, now_ms, n)[i]],
                now_ms,
            ),
        forall|j: int|
            0 <= j < n && waits(seen[#[trigger] order[j]], now_ms) ==> waiting(
                order,
                seen,
                now_ms,
                n,
            ).contains(order[j]),
    decreases n,
{
    if n > 0 {
        lemma_waiting_waits(order, seen, now_ms, n - 1);
        let before = waiting(order, seen, now_ms, n - 1);
        let after = waiting(order, seen, now_ms, n);
        assert forall|j: int| 0 <= j < n && waits(seen[#[trigger] order[j]], now_ms) implies after.contains(
            order[j],
        ) by {
            if j < n - 1 {
                assert(before.contains(order[j]));
                let k = choose|k: int| 0 <= k < before.len() && before[k] == order[j];
                assert(after[k] == order[j]);
            } else {
                assert(after[before.len() as int] == order[j]);
            }
        }
    }
}

/// Nearby are the peers that wait to be paired and were seen not long ago, all of
/// them and no others.
pub proof fn law_nearby_is_complete(
    order: Seq<DeviceId>,
    seen: Map<DeviceId, DiscEntry>,
    now_ms: u64,
    id: DeviceId,
)
    requires
        order.contains(id),
    ensures
        waiting(order, seen, now_ms, order.len() as int).contains(id) == waits(seen[id], now_ms),
{
    let n = order.len() as int;
    lemma_waiting_waits(order, seen, now_ms, n);
    let all = waiting(order, seen, now_ms, n);
    let j = choose|j: int| 0 <= j < order.len() && order[j] == id;
    assert(order[j] == id);
    if all.contains(id) {
        let i = choose|i: int| 0 <= i < all.len() && all[i] == id;
        assert(waits(seen[all[i]], now_ms));
    }
}

/// A device that the tray has had forgotten is not trusted any more, whatever
/// certificate it presents.
pub proof fn law_forgotten_devices_are_strangers(
    before: Daemon,
    after: Daemon,
    name: Seq<char>,
    s: Surroundings,
    r: Reply,
    fp: crate::trust::CertFingerprint,
)
    requires
        before.forgets(after, name, s, r),
        named_from(before.trust.devices@, name, 0) is Some,
    ensures
        !crate::trust::trusts(
            after.trust.devices@,
            before.trust.devices@[named_from(before.trust.devices@, name, 0).unwrap()].id,
            fp,
        ),
{
    let ds = before.trust.devices@;
    let id = ds[named_from(ds, name, 0).unwrap()].id;
    crate::trust::law_forget_forgets_only_that_device(ds, id, fp, id);
}

/// An arrangement that was kept is the one shown from then on.
pub proof fn law_kept_arrangements_are_shown(
    before: Daemon,
    after: Daemon,
    peer: Seq<char>,
    id: DeviceId,
    layout: VirtualDesktop,
    s: Surroundings,
    r: Reply,
    own: Seq<Monitor>,
    theirs: Seq<Monitor>,
)
    requires
        before.keeps(after, peer, layout, s, r),
        spells_id(peer, id),
    ensures
        after.arranged(id, own, theirs) == layout.monitors@,
{
    let other = choose|other: DeviceId| #[trigger]
        spells_id(peer, other) && {
            &&& after.same_but_layouts(before)
            &&& after.layouts@ == before.layouts@.insert(other, layout)
            &&& before.announces(other, layout, r.effect)
            &&& r.events@.len() == 1
            &&& after.stands(r.events@[0], s)
        };
    assert(other.0@ =~= id.0@);
    assert(other.0 =~= id.0);
}

/// An arrangement that is kept while a session with the peer is running reaches the
/// peer: what is sent is handed out there with the same monitors, to go by and to keep.
pub proof fn law_arrangements_reach_the_peer(
    before: Daemon,
    after: Daemon,
    peer: Seq<char>,
    id: DeviceId,
    layout: VirtualDesktop,
    s: Surroundings,
    r: Reply,
)
    requires
        before.keeps(after, peer, layout, s, r),
        spells_id(peer, id),
        before.connected@.dom().contains(id),
    ensures
        match r.effect {
            Effect::SaveLayout { peer: p, news: Some(msg) } => {
                &&& p == id
                &&& control_step(Some(msg)) is Layout
                &&& control_step(Some(msg))->Layout_0.monitors@ == layout.monitors@
            },
            _ => false,
        },
{
    let other = choose|other: DeviceId| #[trigger]
        spells_id(peer, other) && {
            &&& after.same_but_layouts(before)
            &&& after.layouts@ == before.layouts@.insert(other, layout)
            &&& before.announces(other, layout, r.effect)
            &&& r.events@.len() == 1
            &&& after.stands(r.events@[0], s)
        };
    assert(other.0@ =~= id.0@);
    assert(other.0 =~= id.0);
}

/// A request changes only what it is about: an arrangement what is saved, forgetting who is
/// trusted, a switch what is on, and the requests on pairing the pairing. Asking changes
/// nothing, and has nothing done.
pub proof fn law_requests_change_what_they_are_about(
    before: Daemon,
    after: Daemon,
    req: UiRequest,
    s: Surroundings,
    r: Reply,
)
    requires
        before.answered(after, req, s, r),
    ensures
        after.device_name == before.device_name,
        after.device_id == before.device_id,
        after.port == before.port,
        after.connected == before.connected,
        after.discovered == before.discovered,
        !(req is SetLayout) ==> after.layouts == before.layouts,
        !(req is Forget) ==> after.trust == before.trust,
        !(req is SetFeature) ==> after.features == before.features,
        !(req is Pair || req is PairConfirm || req is PairCancel) ==> after.pairing
            == before.pairing,
        req is Status || req is Arrangement || req is DiscoveredPeers || req is PairStatus
            ==> r.effect is Nothing,
        req is Status ==> r.events@.len() == 1 && r.events@[0] is Status,
        req is DiscoveredPeers ==> r.events@.len() == 1 && r.events@[0] is Discovered,
{
}

/// The status names every paired device in turn, by its name and id and as connected where
/// there is a session with it; and the daemon is active exactly where there is a session.
pub proof fn law_the_status_tells_of_every_paired_device(
    d: Daemon,
    e: UiEvent,
    s: Surroundings,
    i: int,
)
    requires
        d.stands(e, s),
        0 <= i < d.trust.devices@.len(),
    ensures
        match e {
            UiEvent::Status { device_name, device_id, peers, active, port, addrs, monitors } => {
                &&& device_name@ == d.device_name@
                &&& device_id@ == hex_text(d.device_id.0@)
                &&& port == d.port
                &&& addrs@ == s.addrs@
                &&& peers@.len() == d.trust.devices@.len()
                &&& peers@[i].name@ == d.trust.devices@[i].name@
                &&& peers@[i].device@ == hex_text(d.trust.devices@[i].id.0@)
                &&& peers@[i].address == d.trust.devices@[i].last_address
                &&& peers@[i].connected <==> d.connected@.dom().contains(d.trust.devices@[i].id)
                &&& active <==> exists|id: DeviceId| #[trigger] d.connected@.dom().contains(id)
            },
            _ => false,
        },
{
    if let UiEvent::Status { device_name, device_id, peers, active, port, addrs, monitors } = e {
        assert(reports(
            peers@[i],
            d.trust.devices@[i],
            d.connected@.dom().contains(d.trust.devices@[i].id),
        ));
        if !(exists|id: DeviceId| #[trigger] d.connected@.dom().contains(id)) {
            assert(d.connected@.dom() =~= Set::<DeviceId>::empty());
        } else {
            let id = choose|id: DeviceId| #[trigger] d.connected@.dom().contains(id);
            assert(!Set::<DeviceId>::empty().contains(id));
        }
    }
}

/// A monitor is shown where it lies and as large as it is, as one of this machine exactly
/// where it is.
pub proof fn law_monitors_are_shown_where_they_lie(
    vs: Seq<MonitorView>,
    ms: Seq<Monitor>,
    me: DeviceId,
    i: int,
)
    requires
        show_all(vs, ms, me),
        0 <= i < ms.len(),
    ensures
        vs.len() == ms.len(),
        vs[i].x == ms[i].bounds.x && vs[i].y == ms[i].bounds.y,
        vs[i].w == ms[i].bounds.w && vs[i].h == ms[i].bounds.h,
        vs[i].label@ == ms[i].label@,
        vs[i].index == ms[i].id.index,
        vs[i].dev == 0 <==> ms[i].id.device == me,
        vs[i].dev == 1 <==> ms[i].id.device != me,
{
    assert(shows(vs[i], ms[i], me));
}

/// A peer waits to be paired while it says so and was seen within the last two and a half
/// minutes.
pub proof fn law_sightings_count_for_a_while(e: DiscEntry, now_ms: u64)
    ensures
        waits(e, now_ms) <==> e.pairing && now_ms < e.last_seen_ms + 150_000,
{
}

/// A peer nearby is named with the best of its addresses, and as paired exactly where it is
/// trusted.
pub proof fn law_peers_nearby_are_named(p: DiscoveredPeer, id: DeviceId, e: DiscEntry, trusted: bool)
    requires
        names(p, id, e, trusted),
    ensures
        p.name@ == e.name@,
        e.addrs@.len() > 0 ==> p.addr@ == e.addrs@[0].text@,
        e.addrs@.len() == 0 ==> p.addr@.len() == 0,
        p.device@ == hex_text(id.0@.subrange(0, 4)),
        p.trusted <==> trusted,
{
}

/// Two addresses are the same socket only where number, port and link all agree.
pub proof fn law_sockets_differ_in_any_part(a: DialAddr, b: DialAddr)
    ensures
        a.ip != b.ip ==> !same_socket(a, b),
        a.port != b.port ==> !same_socket(a, b),
        a.scope != b.scope ==> !same_socket(a, b),
        a.ip == b.ip && a.port == b.port && a.scope == b.scope ==> same_socket(a, b),
{
}

/// For an address that a peer nearby has, all addresses of the first such peer are tried;
/// one that none of them has is tried alone. Either way it is among those tried.
pub proof fn law_all_addresses_of_a_peer_are_tried(
    order: Seq<DeviceId>,
    seen: Map<DeviceId, DiscEntry>,
    a: DialAddr,
    i: int,
    k: int,
)
    requires
        0 <= i <= k <= order.len(),
        forall|j: int| i <= j < k ==> !has_addr(seen[#[trigger] order[j]].addrs@, a),
        k < order.len() ==> has_addr(seen[order[k]].addrs@, a),
    ensures
        k < order.len() ==> candidates_from(order, seen, a, i) == seen[order[k]].addrs@,
        k == order.len() ==> candidates_from(order, seen, a, i) == seq![a],
        has_addr(candidates_from(order, seen, a, i), a),
    decreases order.len() - i,
{
    if i < k {
        assert(!has_addr(seen[order[i]].addrs@, a));
        law_all_addresses_of_a_peer_are_tried(order, seen, a, i + 1, k);
    } else if k == order.len() {
        assert(same_socket(seq![a][0], a));
    }
}

/// The first device of a name is found, and none only where none has it.
pub proof fn law_the_first_of_a_name_is_found(ds: Seq<TrustedDevice>, name: Seq<char>, i: int)
    requires
        0 <= i <= ds.len(),
    ensures
        match named_from(ds, name, i) {
            Some(k) => i <= k < ds.len() && ds[k].name@ == name && forall|j: int|
                i <= j < k ==> (#[trigger] ds[j]).name@ != name,
            None => forall|j: int| i <= j < ds.len() ==> (#[trigger] ds[j]).name@ != name,
        },
    decreases ds.len() - i,
{
    if i < ds.len() {
        law_the_first_of_a_name_is_found(ds, name, i + 1);
    }
}

/// A handshake that waits hears the user's answer as it was given, and one that is called
/// off hears no; where none waits, none hears anything.
pub proof fn law_handshakes_hear_the_answer(
    before: Daemon,
    after: Daemon,
    accept: bool,
    s: Surroundings,
    r: Reply,
)
    ensures
        before.answered(after, UiRequest::PairConfirm { accept }, s, r) ==> {
            &&& before.pairing.prompting ==> r.effect == Effect::Answer(accept)
            &&& !before.pairing.prompting ==> r.effect is Nothing
            &&& !after.pairing.prompting
            &&& after.pairing.state == before.pairing.state
        },
        before.answered(after, UiRequest::PairCancel, s, r) ==> {
            &&& before.pairing.prompting ==> r.effect == Effect::CallOff(Some(false))
            &&& !before.pairing.prompting ==> r.effect == Effect::CallOff(None)
            &&& !after.pairing.prompting
        },
{
}

/// A request to pair that names no address opens the window and announces it. One that
/// names an address dials: the addresses to try for it; and where it is none, the wait is
/// over and nothing is dialled.
pub proof fn law_pairing_waits_or_dials(
    before: Daemon,
    after: Daemon,
    addr: Seq<char>,
    s: Surroundings,
    r: Reply,
)
    requires
        before.pairs(after, addr, s, r),
    ensures
        trimmed(addr).len() == 0 <==> r.effect == Effect::Advertise(true),
        trimmed(addr).len() == 0 ==> after.pairing.discoverable,
        r.effect is DialToPair <==> trimmed(addr).len() > 0 && s.target is Ok,
        r.effect is DialToPair ==> r.effect->DialToPair_0@ == before.to_try(s.target->Ok_0)
            && after.pairing == before.pairing,
        trimmed(addr).len() > 0 && s.target is Err ==> r.effect == Effect::Advertise(false),
        r.events@.len() >= 1,
        r.events@.len() == 2 <==> trimmed(addr).len() == 0 && s.firewall_hint is Some,
{
}

/// A switch is set in the daemon and in the sessions that run alike.
pub proof fn law_switches_are_set_everywhere(
    before: Daemon,
    after: Daemon,
    feature: Feature,
    other: Feature,
    enabled: bool,
    s: Surroundings,
    r: Reply,
)
    requires
        before.answered(after, UiRequest::SetFeature { feature, enabled }, s, r),
    ensures
        after.features.on(feature) == enabled,
        other != feature ==> after.features.on(other) == before.features.on(other),
        r.effect == (Effect::SetFeature { feature, enabled }),
{
}

/// An arrangement that was saved is kept; without one the peer lies beside this machine.
pub proof fn law_saved_arrangements_go_first(
    d: Daemon,
    peer: DeviceId,
    own: Seq<Monitor>,
    theirs: Seq<Monitor>,
)
    ensures
        d.layouts@.dom().contains(peer) ==> d.arranged(peer, own, theirs)
            == d.layouts@[peer].monitors@,
        !d.layouts@.dom().contains(peer) ==> d.arranged(peer, own, theirs) == side_by_side(
            own,
            theirs,
        ),
{
}

/// Addresses are dialled in their order, each once and for five seconds, until none is
/// left; the fault of the last one is remembered.
pub proof fn law_addresses_are_dialled_in_turn(d: PairDial, after: PairDial, fault: DialFault)
    requires
        d.wf(),
    ensures
        match d.due() {
            Some((a, ms)) => d.tried < d.addrs@.len() && *a == d.addrs@[d.tried as int] && ms
                == 5_000,
            None => d.tried == d.addrs@.len(),
        },
        d.faulted(after, fault) && d.tried + 1 < d.addrs@.len() ==> match after.due() {
            Some((a, ms)) => *a == d.addrs@[d.tried + 1],
            None => false,
        },
        d.faulted(after, fault) && d.tried + 1 == d.addrs@.len() ==> after.due() is None,
        d.faulted(after, fault) ==> (fault matches DialFault::Failed(e) ==> after.last@ == e@),
{
}

/// A session begins exactly after a pairing that succeeded.
pub proof fn law_sessions_begin_between_paired_devices(s: PairState)
    ensures
        s matches PairState::Done { ok, peer } ==> (begins_session(s) <==> ok),
        !(s is Done) ==> !begins_session(s),
{
}

} // verus!
