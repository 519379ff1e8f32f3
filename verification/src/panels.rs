//! What the screens of the tray show of its state.

use crate::arranger::MonTile;
use crate::ipc::{DiscoveredPeer, PeerStatus};
use crate::layout::is_i32;
use crate::procs::BinSource;
use crate::text::{chars_of, decimal, decimal_int, push_decimal, push_int, spells, trim, trimmed};
use crate::tray::App;
use vstd::prelude::*;

verus! {

// --- The status --------------------------------------------------------------

/// A peer on the status screen.
#[derive(Debug)]
pub struct PeerRow {
    pub connected: bool,
    pub name: String,
    pub meta: String,
}

/// The status screen.
#[derive(Debug)]
pub struct StatusPanel {
    pub heading: String,
    pub lines: Vec<String>,
    pub peers: Vec<PeerRow>,
}

/// How a peer is doing: how far away it is, if that is known.
pub open spec fn meta_of(p: PeerStatus) -> Seq<char> {
    if !p.connected {
        "offline"@
    } else {
        match p.latency_ms {
            Some(ms) => decimal(ms as nat) + " ms"@,
            None => "connected"@,
        }
    }
}

/// How many of the first `n` peers are connected.
pub open spec fn connected_count(ps: Seq<PeerStatus>, n: int) -> nat
    decreases n,
{
    if n <= 0 {
        0
    } else if ps[n - 1].connected {
        connected_count(ps, n - 1) + 1
    } else {
        connected_count(ps, n - 1)
    }
}

/// The heading names the device, once its name is known.
pub open spec fn heading_of(name: Seq<char>) -> Seq<char> {
    if name.len() == 0 {
        "This workspace"@
    } else {
        "This workspace"@ + " - "@ + name
    }
}

/// How many peers are connected, in words.
pub open spec fn summary_of(ps: Seq<PeerStatus>) -> Seq<char> {
    decimal(connected_count(ps, ps.len() as int)) + " of "@ + decimal(ps.len())
        + " devices connected"@
}

/// The row shows the peer.
pub open spec fn is_row_of(r: PeerRow, p: PeerStatus) -> bool {
    r.connected == p.connected && r.name@ == p.name@ && r.meta@ == meta_of(p)
}

fn peer_row(p: &PeerStatus) -> (r: PeerRow)
    ensures
        is_row_of(r, *p),
{
    let meta = if !p.connected {
        "offline".to_owned()
    } else {
        match p.latency_ms {
            Some(ms) => {
                let mut s = String::new();
                push_decimal(&mut s, ms as u64);
                s.append(" ms");
                assert(s@ =~= decimal(ms as nat) + " ms"@);
                s
            },
            None => "connected".to_owned(),
        }
    };
    PeerRow { connected: p.connected, name: p.name.clone(), meta }
}

fn heading(name: &String) -> (s: String)
    ensures
        s@ == heading_of(name@),
{
    let mut s = "This workspace".to_owned();
    if name.as_str().unicode_len() > 0 {
        s.append(" - ");
        s.append(name.as_str());
    }
    s
}

/// The status screen: the peers and how they are doing, or what to do where the
/// daemon does not answer.
pub fn status_panel(a: &App) -> (p: StatusPanel)
    ensures
        p.heading@ == heading_of(a.daemon.device_name@),
        ({
            let ps = a.daemon.peers@;
            if !a.daemon.reachable {
                &&& p.peers@.len() == 0
                &&& p.lines@.len() == 2
                &&& p.lines@[0]@ == "The deskorynd daemon isn't reachable."@
                &&& p.lines@[1]@ == "Start it from the Connection tab."@
            } else {
                &&& p.peers@.len() == ps.len()
                &&& forall|i: int| 0 <= i < ps.len() ==> is_row_of(#[trigger] p.peers@[i], ps[i])
                &&& p.lines@[0]@ == summary_of(ps)
                &&& if ps.len() == 0 {
                    p.lines@.len() == 2 && p.lines@[1]@ == "No paired devices yet."@
                } else {
                    p.lines@.len() == 1
                }
            }
        }),
{
    let heading = heading(&a.daemon.device_name);
    let mut lines: Vec<String> = Vec::new();
    let mut rows: Vec<PeerRow> = Vec::new();
    if !a.daemon.reachable {
        lines.push("The deskorynd daemon isn't reachable.".to_owned());
        lines.push("Start it from the Connection tab.".to_owned());
        return StatusPanel { heading, lines, peers: rows };
    }
    let ps = &a.daemon.peers;
    let mut connected: usize = 0;
    let mut i: usize = 0;
    while i < ps.len()
        invariant
            0 <= i <= ps.len(),
            connected <= i,
            connected == connected_count(ps@, i as int),
            rows@.len() == i,
            forall|j: int| 0 <= j < i ==> is_row_of(#[trigger] rows@[j], ps@[j]),
        decreases ps.len() - i,
    {
        if ps[i].connected {
            connected = connected + 1;
        }
        rows.push(peer_row(&ps[i]));
        i = i + 1;
    }
    let mut s = String::new();
    push_decimal(&mut s, connected as u64);
    s.append(" of ");
    push_decimal(&mut s, ps.len() as u64);
    s.append(" devices connected");
    assert(s@ =~= summary_of(ps@));
    lines.push(s);
    if ps.len() == 0 {
        lines.push("No paired devices yet.".to_owned());
    }
    StatusPanel { heading, lines, peers: rows }
}

/// The line that tells of a peer at the command line.
pub open spec fn told_peer(p: PeerStatus) -> Seq<char> {
    "  - "@ + p.name@ + " ["@ + if p.connected {
        "connected"@
    } else {
        "offline"@
    } + "]"@
}

/// The status at the command line: the device, whether it is active, and its peers.
pub open spec fn told_status(
    lines: Seq<String>,
    device_name: Seq<char>,
    active: bool,
    peers: Seq<PeerStatus>,
) -> bool {
    &&& lines.len() == 3 + peers.len()
    &&& lines[0]@ == "device: "@ + device_name
    &&& lines[1]@ == if active {
        "active: true"@
    } else {
        "active: false"@
    }
    &&& lines[2]@ == if peers.len() == 0 {
        "peers:  (none paired)"@
    } else {
        "peers:"@
    }
    &&& forall|i: int| 0 <= i < peers.len() ==> (#[trigger] lines[i + 3])@ == told_peer(peers[i])
}

fn tell_peer(p: &PeerStatus) -> (s: String)
    ensures
        s@ == told_peer(*p),
{
    let mut s = "  - ".to_owned();
    s.append(p.name.as_str());
    s.append(" [");
    if p.connected {
        s.append("connected");
    } else {
        s.append("offline");
    }
    s.append("]");
    s
}

/// The lines that tell the status at the command line.
pub fn status_lines(device_name: &str, active: bool, peers: &Vec<PeerStatus>) -> (lines: Vec<String>)
    ensures
        told_status(lines@, device_name@, active, peers@),
{
    let mut lines: Vec<String> = Vec::new();
    let mut s = "device: ".to_owned();
    s.append(device_name);
    lines.push(s);
    lines.push(
        if active {
            "active: true".to_owned()
        } else {
            "active: false".to_owned()
        },
    );
    lines.push(
        if peers.len() == 0 {
            "peers:  (none paired)".to_owned()
        } else {
            "peers:".to_owned()
        },
    );
    let ghost head = lines@;
    let mut i: usize = 0;
    while i < peers.len()
        invariant
            0 <= i <= peers.len(),
            head.len() == 3,
            lines@.len() == 3 + i,
            lines@.subrange(0, 3) == head,
            forall|j: int| 0 <= j < i ==> (#[trigger] lines@[j + 3])@ == told_peer(peers@[j]),
        decreases peers.len() - i,
    {
        lines.push(tell_peer(&peers[i]));
        i = i + 1;
        assert(lines@.subrange(0, 3) =~= head);
    }
    assert(head[0] == lines@[0] && head[1] == lines@[1] && head[2] == lines@[2]);
    lines
}

// --- The connection ----------------------------------------------------------

/// The connection screen: what is said of the daemon and its program, and which of
/// its buttons and fields can be used.
#[derive(Debug)]
pub struct ConnectionPanel {
    pub state: String,
    pub bin_state: String,
    pub can_start: bool,
    pub can_stop: bool,
    /// The address and the port are read when the daemon is started, so they are
    /// fixed while it runs.
    pub can_edit: bool,
}

/// The name of where the program was found.
pub open spec fn source_name(s: BinSource) -> Seq<char> {
    match s {
        BinSource::Override => "override"@,
        BinSource::Sibling => "sibling"@,
        BinSource::Dev => "dev"@,
        BinSource::Path => "path"@,
        BinSource::Nowhere => "none"@,
    }
}

fn name_of_source(s: BinSource) -> (r: &'static str)
    ensures
        r@ == source_name(s),
{
    match s {
        BinSource::Override => "override",
        BinSource::Sibling => "sibling",
        BinSource::Dev => "dev",
        BinSource::Path => "path",
        BinSource::Nowhere => "none",
    }
}

/// Whether the daemon runs, and where it listens, if that is known.
pub open spec fn daemon_state(running: bool, port: u16) -> Seq<char> {
    if !running {
        "stopped"@
    } else if port != 0 {
        "running - listening on port "@ + decimal(port as nat)
    } else {
        "running"@
    }
}

/// The panel is the connection screen.
pub open spec fn is_connection_panel(p: ConnectionPanel, a: App) -> bool {
    &&& p.state@ == daemon_state(a.life.running, a.daemon.port)
    &&& p.bin_state@ == if a.bin.exists_there {
        "resolved ("@ + source_name(a.bin.source) + ")"@
    } else {
        "not found"@
    }
    &&& p.can_start == (!a.life.running && a.bin.exists_there)
    &&& p.can_stop == a.life.running
    &&& p.can_edit == !a.life.running
}

/// The connection screen.
pub fn connection_panel(a: &App) -> (p: ConnectionPanel)
    ensures
        is_connection_panel(p, *a),
{
    let running = a.life.running;
    let state = if !running {
        "stopped".to_owned()
    } else if a.daemon.port != 0 {
        let mut s = "running - listening on port ".to_owned();
        push_decimal(&mut s, a.daemon.port as u64);
        s
    } else {
        "running".to_owned()
    };
    let bin_state = if a.bin.exists_there {
        let mut s = "resolved (".to_owned();
        s.append(name_of_source(a.bin.source));
        s.append(")");
        s
    } else {
        "not found".to_owned()
    };
    ConnectionPanel {
        state,
        bin_state,
        can_start: !running && a.bin.exists_there,
        can_stop: running,
        can_edit: !running,
    }
}

// --- The arranger ------------------------------------------------------------

/// How far the first `n` tiles reach: left, top, right and bottom.
pub open spec fn reach(tiles: Seq<MonTile>, n: int) -> (int, int, int, int)
    decreases n,
{
    let t = tiles[n - 1];
    if n <= 1 {
        (t.x as int, t.y as int, t.x + t.w, t.y + t.h)
    } else {
        let (l, u, r, b) = reach(tiles, n - 1);
        (
            if t.x < l { t.x as int } else { l },
            if t.y < u { t.y as int } else { u },
            if t.x + t.w > r { t.x + t.w } else { r },
            if t.y + t.h > b { t.y + t.h } else { b },
        )
    }
}

/// Every tile ends within coordinates, and so does their extent.
pub open spec fn reach_fits(tiles: Seq<MonTile>) -> bool {
    let (l, u, r, b) = reach(tiles, tiles.len() as int);
    &&& forall|i: int|
        0 <= i < tiles.len() ==> is_i32((#[trigger] tiles[i]).x + tiles[i].w) && is_i32(
            tiles[i].y + tiles[i].h,
        )
    &&& tiles.len() > 0 ==> is_i32(r - l) && is_i32(b - u)
}

/// How many displays there are, and how large a desktop they make.
pub open spec fn extent_of(tiles: Seq<MonTile>) -> Seq<char> {
    let (l, u, r, b) = reach(tiles, tiles.len() as int);
    if tiles.len() == 0 {
        "-"@
    } else {
        decimal(tiles.len()) + " displays - "@ + decimal_int(r - l) + " x "@ + decimal_int(b - u)
            + " virtual"@
    }
}

/// The line under the arranger.
pub fn extent_line(tiles: &Vec<MonTile>) -> (s: String)
    requires
        reach_fits(tiles@),
    ensures
        s@ == extent_of(tiles@),
{
    if tiles.len() == 0 {
        return "-".to_owned();
    }
    let mut l: i32 = tiles[0].x;
    let mut u: i32 = tiles[0].y;
    let mut r: i32 = tiles[0].x + tiles[0].w;
    let mut b: i32 = tiles[0].y + tiles[0].h;
    let mut i: usize = 1;
    while i < tiles.len()
        invariant
            1 <= i <= tiles.len(),
            reach_fits(tiles@),
            (l as int, u as int, r as int, b as int) == reach(tiles@, i as int),
        decreases tiles.len() - i,
    {
        let t = &tiles[i];
        let right: i32 = t.x + t.w;
        let bottom: i32 = t.y + t.h;
        if t.x < l {
            l = t.x;
        }
        if t.y < u {
            u = t.y;
        }
        if right > r {
            r = right;
        }
        if bottom > b {
            b = bottom;
        }
        i = i + 1;
    }
    let mut s = String::new();
    push_decimal(&mut s, tiles.len() as u64);
    s.append(" displays - ");
    push_int(&mut s, r - l);
    s.append(" x ");
    push_int(&mut s, b - u);
    s.append(" virtual");
    assert(s@ =~= extent_of(tiles@));
    s
}

// --- Pairing -----------------------------------------------------------------

/// The part of the devices screen that pairs.
#[derive(Debug)]
pub enum PairPanel {
    /// The user compares the code and answers.
    Prompt { question: String, code: String },
    /// The device waits for a peer; its own addresses are shown.
    Discoverable { lines: Vec<String> },
    Connecting,
    Aborted,
    Failed { text: String },
    /// Nothing can be paired before the daemon runs.
    NeedsDaemon,
    /// The places of the devices nearby that can be paired, and whether an address
    /// was typed.
    Idle { nearby: Vec<usize>, can_connect: bool },
}

/// The places below `n` of the devices that are not paired yet.
pub open spec fn unpaired(ps: Seq<DiscoveredPeer>, n: int) -> Seq<usize>
    decreases n,
{
    if n <= 0 {
        Seq::empty()
    } else if ps[n - 1].trusted {
        unpaired(ps, n - 1)
    } else {
        unpaired(ps, n - 1).push((n - 1) as usize)
    }
}

/// The lines show these addresses.
pub open spec fn shows_addresses(lines: Seq<String>, addrs: Seq<String>) -> bool {
    if addrs.len() == 0 {
        lines.len() == 1 && lines[0]@ == "This device: (no routable address found)"@
    } else {
        &&& lines.len() == addrs.len() + 1
        &&& lines[0]@ == "This device:"@
        &&& forall|i: int| 0 <= i < addrs.len() ==> (#[trigger] lines[i + 1])@ == addrs[i]@
    }
}

/// The panel for each phase of a pairing.
pub open spec fn is_pair_panel(p: PairPanel, a: App) -> bool {
    let phase = a.pair.phase@;
    if phase == "prompt"@ {
        &&& p matches PairPanel::Prompt { question, code }
        &&& code@ == a.pair.sas@
        &&& question@ == if a.pair.peer@.len() == 0 {
            "Pair with this device?"@
        } else {
            "Pair with '"@ + a.pair.peer@ + "'?"@
        }
    } else if phase == "discoverable"@ {
        p matches PairPanel::Discoverable { lines } && shows_addresses(
            lines@,
            a.daemon.local_addrs@,
        )
    } else if phase == "connecting"@ {
        p is Connecting
    } else if phase == "aborted"@ {
        p is Aborted
    } else if phase == "error"@ {
        p matches PairPanel::Failed { text } && text@ == "Pairing error: "@ + a.pair.peer@
    } else if !a.daemon.reachable {
        p is NeedsDaemon
    } else {
        &&& p matches PairPanel::Idle { nearby, can_connect }
        &&& nearby@ == unpaired(a.nearby@, a.nearby@.len() as int)
        &&& can_connect == (trimmed(a.inputs.pair_addr@).len() > 0)
    }
}

fn address_lines(addrs: &Vec<String>) -> (lines: Vec<String>)
    ensures
        shows_addresses(lines@, addrs@),
{
    let mut lines: Vec<String> = Vec::new();
    if addrs.len() == 0 {
        lines.push("This device: (no routable address found)".to_owned());
        return lines;
    }
    lines.push("This device:".to_owned());
    let mut i: usize = 0;
    while i < addrs.len()
        invariant
            0 <= i <= addrs.len(),
            lines@.len() == i + 1,
            lines@[0]@ == "This device:"@,
            forall|j: int| 0 <= j < i ==> (#[trigger] lines@[j + 1])@ == addrs@[j]@,
        decreases addrs.len() - i,
    {
        lines.push(addrs[i].clone());
        i = i + 1;
    }
    lines
}

fn waiting(ps: &Vec<DiscoveredPeer>) -> (v: Vec<usize>)
    ensures
        v@ == unpaired(ps@, ps@.len() as int),
{
    let mut v: Vec<usize> = Vec::new();
    let mut i: usize = 0;
    while i < ps.len()
        invariant
            0 <= i <= ps.len(),
            v@ == unpaired(ps@, i as int),
        decreases ps.len() - i,
    {
        if !ps[i].trusted {
            v.push(i);
        }
        i = i + 1;
    }
    v
}

/// The part of the devices screen that pairs.
pub fn pairing_panel(a: &App) -> (p: PairPanel)
    ensures
        is_pair_panel(p, *a),
{
    let phase = chars_of(a.pair.phase.as_str());
    let phase = phase.as_slice();
    if spells(phase, "prompt") {
        let question = if a.pair.peer.as_str().unicode_len() == 0 {
            "Pair with this device?".to_owned()
        } else {
            let mut s = "Pair with '".to_owned();
            s.append(a.pair.peer.as_str());
            s.append("'?");
            s
        };
        PairPanel::Prompt { question, code: a.pair.sas.clone() }
    } else if spells(phase, "discoverable") {
        PairPanel::Discoverable { lines: address_lines(&a.daemon.local_addrs) }
    } else if spells(phase, "connecting") {
        PairPanel::Connecting
    } else if spells(phase, "aborted") {
        PairPanel::Aborted
    } else if spells(phase, "error") {
        let mut text = "Pairing error: ".to_owned();
        text.append(a.pair.peer.as_str());
        PairPanel::Failed { text }
    } else if !a.daemon.reachable {
        PairPanel::NeedsDaemon
    } else {
        let typed = chars_of(a.inputs.pair_addr.as_str());
        let can_connect = trim(typed.as_slice()).len() > 0;
        PairPanel::Idle { nearby: waiting(&a.nearby), can_connect }
    }
}

/// A device that is paired is not offered again, and every other one nearby is.
pub proof fn law_only_strangers_are_offered(ps: Seq<DiscoveredPeer>, n: int, i: usize)
    requires
        0 <= n <= ps.len() <= usize::MAX,
    ensures
        unpaired(ps, n).contains(i) <==> i < n && !ps[i as int].trusted,
    decreases n,
{
    if n > 0 {
        law_only_strangers_are_offered(ps, n - 1, i);
        let before = unpaired(ps, n - 1);
        let now = unpaired(ps, n);
        if !ps[n - 1].trusted {
            assert(now[now.len() - 1] == (n - 1) as usize);
            if before.contains(i) {
                let k = choose|k: int| 0 <= k < before.len() && before[k] == i;
                assert(now[k] == i);
            }
            if now.contains(i) {
                let k = choose|k: int| 0 <= k < now.len() && now[k] == i;
                if k < before.len() {
                    assert(before[k] == i);
                }
            }
        }
    }
}

/// As many peers are counted as are connected: with one more peer the count grows by one
/// where that one is connected, and else stays.
pub proof fn law_connected_peers_are_counted(ps: Seq<PeerStatus>, n: int)
    requires
        0 <= n <= ps.len(),
    ensures
        connected_count(ps, n) <= n,
        connected_count(ps, n) == n <==> forall|i: int| 0 <= i < n ==> (#[trigger] ps[i]).connected,
        connected_count(ps, n) == 0 <==> forall|i: int| 0 <= i < n ==> !(#[trigger] ps[i]).connected,
        n > 0 ==> connected_count(ps, n) - connected_count(ps, n - 1) == if ps[n - 1].connected {
            1int
        } else {
            0int
        },
    decreases n,
{
    if n > 0 {
        law_connected_peers_are_counted(ps, n - 1);
        if connected_count(ps, n - 1) == n - 1 && ps[n - 1].connected {
            assert forall|i: int| 0 <= i < n implies (#[trigger] ps[i]).connected by {}
        }
        if connected_count(ps, n - 1) == 0 && !ps[n - 1].connected {
            assert forall|i: int| 0 <= i < n implies !(#[trigger] ps[i]).connected by {}
        }
    }
}

/// The extent of the tiles holds every tile, and on each of its sides a tile ends.
pub proof fn law_the_extent_is_the_smallest(tiles: Seq<MonTile>, n: int)
    requires
        0 < n <= tiles.len(),
    ensures
        ({
            let (l, u, r, b) = reach(tiles, n);
            &&& forall|i: int|
                0 <= i < n ==> l <= (#[trigger] tiles[i]).x && u <= tiles[i].y && tiles[i].x
                    + tiles[i].w <= r && tiles[i].y + tiles[i].h <= b
            &&& exists|i: int| 0 <= i < n && (#[trigger] tiles[i]).x == l
            &&& exists|i: int| 0 <= i < n && (#[trigger] tiles[i]).y == u
            &&& exists|i: int| 0 <= i < n && (#[trigger] tiles[i]).x + tiles[i].w == r
            &&& exists|i: int| 0 <= i < n && (#[trigger] tiles[i]).y + tiles[i].h == b
        }),
    decreases n,
{
    let t = tiles[n - 1];
    if n > 1 {
        law_the_extent_is_the_smallest(tiles, n - 1);
        let (l, u, r, b) = reach(tiles, n - 1);
        let i = choose|i: int| 0 <= i < n - 1 && (#[trigger] tiles[i]).x == l;
        let j = choose|i: int| 0 <= i < n - 1 && (#[trigger] tiles[i]).y == u;
        let k = choose|i: int| 0 <= i < n - 1 && (#[trigger] tiles[i]).x + tiles[i].w == r;
        let m = choose|i: int| 0 <= i < n - 1 && (#[trigger] tiles[i]).y + tiles[i].h == b;
        let (l2, u2, r2, b2) = reach(tiles, n);
        assert(tiles[i].x == l2 || t.x == l2);
        assert(tiles[j].y == u2 || t.y == u2);
        assert(tiles[k].x + tiles[k].w == r2 || t.x + t.w == r2);
        assert(tiles[m].y + tiles[m].h == b2 || t.y + t.h == b2);
    }
}

/// The daemon can be started only while it is stopped, and stopped only while it runs;
/// what it is started with can be changed exactly while it is stopped.
pub proof fn law_the_daemon_is_started_or_stopped(p: ConnectionPanel, a: App)
    requires
        is_connection_panel(p, a),
    ensures
        a.life.running ==> p.can_stop && !p.can_start && !p.can_edit,
        !a.life.running ==> !p.can_stop && p.can_edit && p.state@ == "stopped"@,
        !a.life.running && a.bin.exists_there ==> p.can_start,
        !a.bin.exists_there ==> !p.can_start && p.bin_state@ == "not found"@,
{
}

/// A peer is shown by its name, as connected exactly where it is; how far away it is shows
/// only where it is connected and that is known.
pub proof fn law_peers_are_shown_as_they_are(r: PeerRow, p: PeerStatus)
    requires
        is_row_of(r, p),
    ensures
        r.connected <==> p.connected,
        r.name@ == p.name@,
        !p.connected ==> r.meta@ == "offline"@,
        p.connected && p.latency_ms is None ==> r.meta@ == "connected"@,
        p.connected && p.latency_ms is Some ==> r.meta@ == decimal(p.latency_ms->0 as nat)
            + seq![' ', 'm', 's'],
{
    reveal_strlit(" ms");
    assert(" ms"@ =~= seq![' ', 'm', 's']);
}

/// The code is shown exactly while the user is asked, and it is the one of the pairing.
pub proof fn law_codes_are_shown_to_be_compared(p: PairPanel, a: App)
    requires
        is_pair_panel(p, a),
    ensures
        a.pair.phase@ == "prompt"@ <==> p is Prompt,
        p matches PairPanel::Prompt { question, code } ==> code@ == a.pair.sas@,
        p is NeedsDaemon ==> !a.daemon.reachable,
        p is Idle ==> a.daemon.reachable,
        p matches PairPanel::Idle { nearby, can_connect } ==> (can_connect <==> trimmed(
            a.inputs.pair_addr@,
        ).len() > 0),
{
}

/// Every address of the device is shown on a line of its own, below one that says whose they
/// are; without an address there is that line alone.
pub proof fn law_every_address_has_a_line(lines: Seq<String>, addrs: Seq<String>, i: int)
    requires
        shows_addresses(lines, addrs),
    ensures
        addrs.len() == 0 ==> lines.len() == 1,
        addrs.len() > 0 ==> lines.len() == addrs.len() + 1,
        0 <= i < addrs.len() ==> lines[i + 1]@ == addrs[i]@,
{
}

/// The status at the command line has three lines, and one more for each peer, which says
/// whether it is connected.
pub proof fn law_every_peer_is_told(
    lines: Seq<String>,
    device_name: Seq<char>,
    active: bool,
    peers: Seq<PeerStatus>,
    i: int,
)
    requires
        told_status(lines, device_name, active, peers),
        0 <= i < peers.len(),
    ensures
        lines.len() == 3 + peers.len(),
        lines[0]@ == "device: "@ + device_name,
        active ==> lines[1]@ == "active: true"@,
        !active ==> lines[1]@ == "active: false"@,
        peers[i].connected ==> lines[i + 3]@ == "  - "@ + peers[i].name@ + " ["@ + "connected"@ + "]"@,
        !peers[i].connected ==> lines[i + 3]@ == "  - "@ + peers[i].name@ + " ["@ + "offline"@ + "]"@,
{
}

} // verus!
