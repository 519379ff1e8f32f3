//! Whom to dial, at which address, and when to try again.

use crate::conflict::texts;
use crate::discovery::{is_link_local_v6, link_local_v6, Ip};
use crate::ids::DeviceId;
use crate::manifest::{lemma_text_total, lemma_text_transitive, text_le, text_not_after};
use crate::pairing::{bytes_le, lemma_order_is_total, not_after};
use crate::text::{chars_of, lower_all, lowered, spells};
use crate::trust::{TrustStore, TrustedDevice};
use vstd::prelude::*;

verus! {

// --- Waiting -----------------------------------------------------------------

/// How long to wait before the next try: twice as long each time, up to a limit.
#[derive(Clone, Copy, Debug, PartialEq, Eq, Structural)]
pub struct Backoff {
    pub current_ms: u64,
    pub max_ms: u64,
}

impl Default for Backoff {
    fn default() -> (b: Self)
        ensures
            b == (Backoff { current_ms: 500, max_ms: 30_000 }),
    {
        Backoff { current_ms: 500, max_ms: 30_000 }
    }
}

impl Backoff {
    pub open spec fn wf(self) -> bool {
        self.current_ms <= self.max_ms <= 0x7fff_ffff_ffff_ffff
    }

    /// The wait after the one that comes now.
    pub open spec fn after(self) -> Backoff {
        Backoff {
            current_ms: if self.current_ms * 2 <= self.max_ms {
                (self.current_ms * 2) as u64
            } else {
                self.max_ms
            },
            ..self
        }
    }

    /// The waits after a try, and how long to wait before the next; none is to give up.
    pub open spec fn tried(self, tried: Tried) -> (Backoff, Option<u64>) {
        match tried {
            Tried::BadAddress => (self, None),
            Tried::Failed => (self.after(), Some(self.current_ms)),
            Tried::Ended => (Backoff { current_ms: 1000, max_ms: 30_000 }, Some(500u64)),
        }
    }

    /// How long to wait now.
    pub fn next(&mut self) -> (ms: u64)
        requires
            old(self).wf(),
        ensures
            ms == old(self).current_ms,
            *final(self) == old(self).after(),
            final(self).wf(),
    {
        let ms: u64 = self.current_ms;
        let twice: u64 = self.current_ms * 2;
        self.current_ms = if twice <= self.max_ms {
            twice
        } else {
            self.max_ms
        };
        ms
    }
}

/// The state after `n` waits.
pub open spec fn after_waits(b: Backoff, n: nat) -> Backoff
    decreases n,
{
    if n == 0 {
        b
    } else {
        after_waits(b, (n - 1) as nat).after()
    }
}

/// Waits never get shorter, and never exceed the limit.
pub proof fn law_waits_grow_to_the_limit(b: Backoff, n: nat)
    requires
        b.wf(),
    ensures
        after_waits(b, n).wf(),
        after_waits(b, n).max_ms == b.max_ms,
        after_waits(b, n).current_ms <= after_waits(b, n + 1).current_ms <= b.max_ms,
    decreases n,
{
    if n > 0 {
        law_waits_grow_to_the_limit(b, (n - 1) as nat);
    }
}

/// What came of a try to reach a peer.
#[derive(Clone, Copy, Debug, PartialEq, Eq, Structural)]
pub enum Tried {
    /// The address is none.
    BadAddress,
    /// Nobody answered.
    Failed,
    /// There was a session, and it has ended.
    Ended,
}

/// What to do after a try to reach a peer: none is to give up, and otherwise the
/// milliseconds to wait. A session starts the waits anew.
pub fn after_try(b: &mut Backoff, tried: Tried) -> (r: Option<u64>)
    requires
        old(b).wf(),
    ensures
        final(b).wf(),
        (*final(b), r) == old(b).tried(tried),
{
    match tried {
        Tried::BadAddress => None,
        Tried::Failed => Some(b.next()),
        Tried::Ended => {
            *b = Backoff::default();
            Some(b.next())
        },
    }
}

// --- The addresses to dial ---------------------------------------------------

/// The texts stand in ascending order, and none stands twice.
pub open spec fn ascending(row: Seq<Seq<char>>) -> bool {
    forall|i: int, j: int|
        0 <= i < j < row.len() ==> text_not_after(#[trigger] row[i], #[trigger] row[j], 0)
            && row[i] != row[j]
}

/// Puts a text in its place, where it is not there already.
fn place_text(row: &mut Vec<String>, t: &String)
    requires
        ascending(texts(old(row)@)),
    ensures
        ascending(texts(final(row)@)),
        forall|x: Seq<char>|
            texts(final(row)@).contains(x) == (texts(old(row)@).contains(x) || x == t@),
{
    let ghost before = texts(row@);
    let mut k: usize = 0;
    while k < row.len() && !text_le(t, &row[k])
        invariant
            0 <= k <= row.len(),
            before == texts(row@),
            *row == *old(row),
            ascending(before),
            forall|i: int| 0 <= i < k ==> !text_not_after(t@, #[trigger] before[i], 0),
        decreases row.len() - k,
    {
        assert(before[k as int] == row@[k as int]@);
        k = k + 1;
    }
    if k < row.len() {
        assert(before[k as int] == row@[k as int]@);
        if *t == row[k] {
            assert(before[k as int] == t@);
            assert forall|x: Seq<char>| before.contains(x) == (before.contains(x) || x == t@) by {}
            return ;
        }
    }
    row.insert(k, t.clone());
    proof {
        let after = texts(row@);
        let p = k as int;
        assert(after =~= before.insert(p, t@));
        assert forall|i: int, j: int| 0 <= i < j < after.len() implies text_not_after(
            #[trigger] after[i],
            #[trigger] after[j],
            0,
        ) && after[i] != after[j] by {
            if j == p {
                assert(after[i] == before[i]);
                lemma_text_total(t@, before[i], 0);
            } else if i == p {
                assert(after[j] == before[j - 1]);
                if j - 1 > p {
                    assert(text_not_after(before[p], before[j - 1], 0));
                    lemma_text_transitive(t@, before[p], before[j - 1], 0);
                    if t@ == before[j - 1] {
                        lemma_text_total(before[p], before[j - 1], 0);
                        assert(before[p] != before[j - 1]);
                    }
                }
            } else {
                let a = if i < p {
                    i
                } else {
                    i - 1
                };
                let b = if j < p {
                    j
                } else {
                    j - 1
                };
                assert(after[i] == before[a] && after[j] == before[b]);
            }
        }
        assert forall|x: Seq<char>| after.contains(x) == (before.contains(x) || x == t@) by {
            if before.contains(x) {
                let i = choose|i: int| 0 <= i < before.len() && before[i] == x;
                if i < p {
                    assert(after[i] == x);
                } else {
                    assert(after[i + 1] == x);
                }
            }
            if x == t@ {
                assert(after[p] == x);
            }
            if after.contains(x) && x != t@ {
                let i = choose|i: int| 0 <= i < after.len() && after[i] == x;
                if i < p {
                    assert(before[i] == x);
                } else {
                    assert(before[i - 1] == x);
                }
            }
        }
    }
}

/// `t` is the address of the last connection with `d`.
pub open spec fn was_at(d: TrustedDevice, t: Seq<char>) -> bool {
    d.last_address matches Some(a) && a@ == t
}

/// `t` is the address of the last connection with one of the first `n` devices.
pub open spec fn remembered(ds: Seq<TrustedDevice>, n: int, t: Seq<char>) -> bool {
    exists|i: int| 0 <= i < n && was_at(#[trigger] ds[i], t)
}

/// The addresses to dial: those of the configuration, and those at which paired
/// devices were last; in ascending order, each once.
pub fn dial_list(static_peers: &Vec<String>, trust: &TrustStore) -> (row: Vec<String>)
    ensures
        ascending(texts(row@)),
        forall|t: Seq<char>|
            texts(row@).contains(t) == (texts(static_peers@).contains(t) || remembered(
                trust.devices@,
                trust.devices@.len() as int,
                t,
            )),
{
    let mut row: Vec<String> = Vec::new();
    let mut i: usize = 0;
    while i < static_peers.len()
        invariant
            0 <= i <= static_peers.len(),
            ascending(texts(row@)),
            forall|t: Seq<char>|
                texts(row@).contains(t) == texts(static_peers@).subrange(0, i as int).contains(t),
        decreases static_peers.len() - i,
    {
        let ghost before = texts(row@);
        place_text(&mut row, &static_peers[i]);
        proof {
            let all = texts(static_peers@);
            assert forall|t: Seq<char>|
                texts(row@).contains(t) == all.subrange(0, i + 1).contains(t) by {
                let part = all.subrange(0, i as int);
                let more = all.subrange(0, i + 1);
                assert(more =~= part.push(all[i as int]));
                if part.contains(t) {
                    let k = choose|k: int| 0 <= k < part.len() && part[k] == t;
                    assert(more[k] == t);
                }
                if t == all[i as int] {
                    assert(more[i as int] == t);
                }
                if more.contains(t) && t != all[i as int] {
                    let k = choose|k: int| 0 <= k < more.len() && more[k] == t;
                    assert(part[k] == t);
                }
            }
        }
        i = i + 1;
    }
    let mut k: usize = 0;
    assert(texts(static_peers@).subrange(0, static_peers@.len() as int) =~= texts(static_peers@));
    while k < trust.devices.len()
        invariant
            0 <= k <= trust.devices.len(),
            ascending(texts(row@)),
            forall|t: Seq<char>|
                texts(row@).contains(t) == (texts(static_peers@).contains(t) || remembered(
                    trust.devices@,
                    k as int,
                    t,
                )),
        decreases trust.devices.len() - k,
    {
        let ghost before = texts(row@);
        let ghost ds = trust.devices@;
        if let Some(a) = &trust.devices[k].last_address {
            place_text(&mut row, a);
        }
        proof {
            assert forall|t: Seq<char>|
                texts(row@).contains(t) == (texts(static_peers@).contains(t) || remembered(
                    ds,
                    k + 1,
                    t,
                )) by {
                if remembered(ds, k as int, t) {
                    let i = choose|i: int| 0 <= i < k && was_at(#[trigger] ds[i], t);
                    assert(was_at(ds[i], t));
                }
                if remembered(ds, k + 1, t) && !remembered(ds, k as int, t) {
                    let i = choose|i: int| 0 <= i < k + 1 && was_at(#[trigger] ds[i], t);
                    assert(i == k);
                }
                if was_at(ds[k as int], t) {
                    assert(remembered(ds, k + 1, t));
                }
            }
        }
        k = k + 1;
    }
    row
}

// --- The addresses of this machine -------------------------------------------

/// A network interface: its name, and one of its addresses.
#[derive(Debug)]
pub struct Iface {
    pub name: String,
    pub ip: Ip,
}

/// The text begins with `p`.
pub open spec fn begins(s: Seq<char>, p: Seq<char>) -> bool {
    s.len() >= p.len() && s.subrange(0, p.len() as int) == p
}

/// `p` stands somewhere in the text.
pub open spec fn holds(s: Seq<char>, p: Seq<char>) -> bool {
    exists|i: int| 0 <= i <= s.len() && begins(#[trigger] s.subrange(i, s.len() as int), p)
}

fn begins_at(s: &[char], i: usize, p: &str) -> (b: bool)
    requires
        i <= s@.len(),
    ensures
        b == begins(s@.subrange(i as int, s@.len() as int), p@),
{
    let pc = chars_of(p);
    let ghost rest = s@.subrange(i as int, s@.len() as int);
    if s.len() - i < pc.len() {
        return false;
    }
    let mut k: usize = 0;
    while k < pc.len()
        invariant
            0 <= k <= pc.len(),
            pc@ == p@,
            i + pc.len() <= s.len(),
            rest == s@.subrange(i as int, s@.len() as int),
            forall|j: int| 0 <= j < k ==> rest[j] == pc@[j],
        decreases pc.len() - k,
    {
        if s[i + k] != pc[k] {
            assert(rest[k as int] != pc@[k as int]);
            assert(rest.subrange(0, pc@.len() as int)[k as int] == rest[k as int]);
            return false;
        }
        k = k + 1;
    }
    assert(rest.subrange(0, pc@.len() as int) =~= pc@);
    true
}

pub(crate) fn begins_with(s: &[char], p: &str) -> (b: bool)
    ensures
        b == begins(s@, p@),
{
    assert(s@.subrange(0, s@.len() as int) =~= s@);
    begins_at(s, 0, p)
}

pub(crate) fn holds_text(s: &[char], p: &str) -> (b: bool)
    ensures
        b == holds(s@, p@),
{
    let mut i: usize = 0;
    loop
        invariant
            0 <= i <= s.len(),
            forall|j: int| 0 <= j < i ==> !begins(#[trigger] s@.subrange(j, s@.len() as int), p@),
        decreases s.len() - i,
    {
        if begins_at(s, i, p) {
            assert(begins(s@.subrange(i as int, s@.len() as int), p@));
            return true;
        }
        if i == s.len() {
            return false;
        }
        i = i + 1;
    }
}

/// The name, in lower case, is that of an interface that a machine makes up for
/// itself: the loopback, and those of containers, virtual machines and private
/// networks.
pub open spec fn is_virtual_name(n: Seq<char>) -> bool {
    ||| n == "lo"@
    ||| begins(n, "docker"@)
    ||| begins(n, "br-"@)
    ||| begins(n, "virbr"@)
    ||| begins(n, "veth"@)
    ||| begins(n, "vnet"@)
    ||| begins(n, "vmnet"@)
    ||| begins(n, "vbox"@)
    ||| begins(n, "tun"@)
    ||| begins(n, "tap"@)
    ||| begins(n, "wg"@)
    ||| begins(n, "tailscale"@)
    ||| begins(n, "zt"@)
    ||| begins(n, "utun"@)
    ||| begins(n, "awdl"@)
    ||| begins(n, "llw"@)
    ||| holds(n, "vethernet"@)
    ||| holds(n, "vmware"@)
    ||| holds(n, "virtualbox"@)
    ||| holds(n, "hyper-v"@)
    ||| holds(n, "loopback"@)
}

/// Whether an interface is one that a machine makes up for itself, by its name.
pub fn is_virtual(name: &str) -> (b: bool)
    ensures
        b == is_virtual_name(lower_all(name@)),
{
    let chars = chars_of(name);
    let n = lowered(chars.as_slice());
    let s = n.as_slice();
    spells(s, "lo") || begins_with(s, "docker") || begins_with(s, "br-") || begins_with(s, "virbr")
        || begins_with(s, "veth") || begins_with(s, "vnet") || begins_with(s, "vmnet")
        || begins_with(s, "vbox") || begins_with(s, "tun") || begins_with(s, "tap") || begins_with(
        s,
        "wg",
    ) || begins_with(s, "tailscale") || begins_with(s, "zt") || begins_with(s, "utun")
        || begins_with(s, "awdl") || begins_with(s, "llw") || holds_text(s, "vethernet")
        || holds_text(s, "vmware") || holds_text(s, "virtualbox") || holds_text(s, "hyper-v")
        || holds_text(s, "loopback")
}

/// The address can be dialled from another machine: it is neither the loopback,
/// nor unspecified, nor good for one link only.
pub open spec fn is_dialable(ip: Ip) -> bool {
    match ip {
        Ip::V4(v) => v / 0x100_0000 != 127 && v / 0x1_0000 != 0xa9fe && v != 0,
        Ip::V6(v) => v != 1 && v != 0 && !is_link_local_v6(v),
    }
}

/// Whether an address can be dialled from another machine.
pub fn dialable(ip: Ip) -> (b: bool)
    ensures
        b == is_dialable(ip),
{
    match ip {
        Ip::V4(v) => v / 0x100_0000 != 127 && v / 0x1_0000 != 0xa9fe && v != 0,
        Ip::V6(v) => v != 1 && v != 0 && !link_local_v6(v),
    }
}

/// Those of the first `n` announced addresses that follow the best one: the others that
/// can be dialled, as they stand.
pub open spec fn others(best: Ip, all: Seq<Ip>, n: int) -> Seq<Ip>
    decreases n,
{
    if n <= 0 {
        Seq::empty()
    } else if all[n - 1] != best && is_dialable(all[n - 1]) {
        others(best, all, n - 1).push(all[n - 1])
    } else {
        others(best, all, n - 1)
    }
}

proof fn lemma_others(best: Ip, all: Seq<Ip>, n: int, ip: Ip)
    requires
        0 <= n <= all.len(),
    ensures
        others(best, all, n).contains(ip) <==> ip != best && is_dialable(ip) && exists|i: int|
            0 <= i < n && #[trigger] all[i] == ip,
    decreases n,
{
    if n > 0 {
        lemma_others(best, all, n - 1, ip);
        let before = others(best, all, n - 1);
        let last = all[n - 1];
        if last != best && is_dialable(last) {
            assert(before.push(last)[before.len() as int] == last);
            if before.contains(ip) {
                let k = before.index_of(ip);
                assert(before.push(last)[k] == ip);
            }
            if before.push(last).contains(ip) && ip != last {
                let k = before.push(last).index_of(ip);
                assert(before[k] == ip);
            }
        }
    }
}

/// The addresses of a peer in the order in which they are dialled: the best first, and
/// then the others of those it announced that can be dialled.
pub fn dial_order(best: Ip, all: &Vec<Ip>) -> (row: Vec<Ip>)
    ensures
        row@ == seq![best] + others(best, all@, all@.len() as int),
        forall|ip: Ip| #[trigger]
            row@.contains(ip) == (ip == best || (all@.contains(ip) && is_dialable(ip))),
{
    let mut row: Vec<Ip> = vec![best];
    let mut i: usize = 0;
    while i < all.len()
        invariant
            0 <= i <= all.len(),
            row@ == seq![best] + others(best, all@, i as int),
        decreases all.len() - i,
    {
        let ghost before = others(best, all@, i as int);
        let here = all[i];
        if here != best && dialable(here) {
            row.push(here);
            assert(row@ =~= seq![best] + before.push(here));
        }
        i = i + 1;
    }
    proof {
        let tail = others(best, all@, all@.len() as int);
        assert forall|ip: Ip| #[trigger]
            row@.contains(ip) == (ip == best || (all@.contains(ip) && is_dialable(ip))) by {
            lemma_others(best, all@, all@.len() as int, ip);
            assert(row@[0] == best);
            if tail.contains(ip) {
                let k = tail.index_of(ip);
                assert(row@[k + 1] == ip);
            }
            if row@.contains(ip) && ip != best {
                let k = row@.index_of(ip);
                assert(tail[k - 1] == ip);
            }
        }
    }
    row
}

/// `a` comes before `b`: the fourth version first, and then by number.
pub open spec fn ip_before(a: Ip, b: Ip) -> bool {
    match (a, b) {
        (Ip::V4(x), Ip::V4(y)) => x < y,
        (Ip::V4(_), Ip::V6(_)) => true,
        (Ip::V6(_), Ip::V4(_)) => false,
        (Ip::V6(x), Ip::V6(y)) => x < y,
    }
}

fn comes_before(a: Ip, b: Ip) -> (r: bool)
    ensures
        r == ip_before(a, b),
{
    match (a, b) {
        (Ip::V4(x), Ip::V4(y)) => x < y,
        (Ip::V4(_), Ip::V6(_)) => true,
        (Ip::V6(_), Ip::V4(_)) => false,
        (Ip::V6(x), Ip::V6(y)) => x < y,
    }
}

/// The addresses stand in ascending order, and none stands twice.
pub open spec fn ips_ascend(row: Seq<Ip>) -> bool {
    forall|i: int, j: int|
        0 <= i < j < row.len() ==> ip_before(#[trigger] row[i], #[trigger] row[j])
}

fn place_ip(row: &mut Vec<Ip>, ip: Ip)
    requires
        ips_ascend(old(row)@),
    ensures
        ips_ascend(final(row)@),
        forall|x: Ip| final(row)@.contains(x) == (old(row)@.contains(x) || x == ip),
{
    let ghost before = row@;
    let mut k: usize = 0;
    while k < row.len() && comes_before(row[k], ip)
        invariant
            0 <= k <= row.len(),
            *row == *old(row),
            before == row@,
            ips_ascend(before),
            forall|i: int| 0 <= i < k ==> ip_before(#[trigger] before[i], ip),
        decreases row.len() - k,
    {
        k = k + 1;
    }
    if k < row.len() && row[k] == ip {
        assert(before[k as int] == ip);
        assert forall|x: Ip| before.contains(x) == (before.contains(x) || x == ip) by {}
        return ;
    }
    row.insert(k, ip);
    proof {
        let after = row@;
        let p = k as int;
        assert(after =~= before.insert(p, ip));
        assert forall|i: int, j: int| 0 <= i < j < after.len() implies ip_before(
            #[trigger] after[i],
            #[trigger] after[j],
        ) by {
            if j == p {
                assert(after[i] == before[i]);
            } else if i == p {
                assert(after[j] == before[j - 1]);
                if j - 1 > p {
                    assert(ip_before(before[p], before[j - 1]));
                }
            } else {
                let a = if i < p {
                    i
                } else {
                    i - 1
                };
                let b = if j < p {
                    j
                } else {
                    j - 1
                };
                assert(after[i] == before[a] && after[j] == before[b]);
            }
        }
        assert forall|x: Ip| after.contains(x) == (before.contains(x) || x == ip) by {
            if before.contains(x) {
                let i = choose|i: int| 0 <= i < before.len() && before[i] == x;
                if i < p {
                    assert(after[i] == x);
                } else {
                    assert(after[i + 1] == x);
                }
            }
            if x == ip {
                assert(after[p] == x);
            }
            if after.contains(x) && x != ip {
                let i = choose|i: int| 0 <= i < after.len() && after[i] == x;
                if i < p {
                    assert(before[i] == x);
                } else {
                    assert(before[i - 1] == x);
                }
            }
        }
    }
}

/// One of the first `n` interfaces is a real one, with this address, and the
/// address can be dialled.
pub open spec fn reachable_at(ifaces: Seq<Iface>, n: int, ip: Ip) -> bool {
    exists|i: int|
        0 <= i < n && (#[trigger] ifaces[i]).ip == ip && is_dialable(ip) && !is_virtual_name(
            lower_all(ifaces[i].name@),
        )
}

/// The addresses at which other machines can dial this one, those of the fourth
/// version first, by number, each once.
pub fn local_addrs(ifaces: &Vec<Iface>) -> (row: Vec<Ip>)
    ensures
        ips_ascend(row@),
        forall|ip: Ip| row@.contains(ip) == reachable_at(ifaces@, ifaces@.len() as int, ip),
{
    let mut row: Vec<Ip> = Vec::new();
    let mut k: usize = 0;
    while k < ifaces.len()
        invariant
            0 <= k <= ifaces.len(),
            ips_ascend(row@),
            forall|ip: Ip| row@.contains(ip) == reachable_at(ifaces@, k as int, ip),
        decreases ifaces.len() - k,
    {
        let ghost before = row@;
        let ghost all = ifaces@;
        let here: Ip = ifaces[k].ip;
        let genuine = !is_virtual(ifaces[k].name.as_str());
        if genuine && dialable(here) {
            place_ip(&mut row, here);
        }
        proof {
            assert forall|ip: Ip| row@.contains(ip) == reachable_at(all, k + 1, ip) by {
                if reachable_at(all, k as int, ip) {
                    let i = choose|i: int|
                        0 <= i < k && (#[trigger] all[i]).ip == ip && is_dialable(ip)
                            && !is_virtual_name(lower_all(all[i].name@));
                    assert(all[i].ip == ip && i < k + 1);
                }
                if reachable_at(all, k + 1, ip) && !reachable_at(all, k as int, ip) {
                    let i = choose|i: int|
                        0 <= i < k + 1 && (#[trigger] all[i]).ip == ip && is_dialable(ip)
                            && !is_virtual_name(lower_all(all[i].name@));
                    assert(i == k);
                }
                if ip == here && genuine && is_dialable(here) {
                    assert(all[k as int].ip == ip);
                    assert(reachable_at(all, k + 1, ip));
                }
            }
        }
        k = k + 1;
    }
    row
}

// --- Who dials ---------------------------------------------------------------

/// `a` comes before `b` in the order of their bytes.
pub open spec fn id_before(a: DeviceId, b: DeviceId) -> bool {
    !not_after(b.0@, a.0@, 0)
}

/// The peers that are being dialled, or with which there is a session.
#[derive(Debug)]
pub struct Dialer {
    pub active: Vec<DeviceId>,
}

impl Dialer {
    pub fn new() -> (d: Self)
        ensures
            d.active@.len() == 0,
    {
        Dialer { active: Vec::new() }
    }

    /// A peer that was found is to be dialled: it is paired, this device is the one
    /// of the two that dials, and it is not being dialled already.
    pub open spec fn dials(self, me: DeviceId, peer: DeviceId, trusted: bool) -> bool {
        trusted && id_before(me, peer) && !self.active@.contains(peer)
    }

    fn is_active(&self, peer: DeviceId) -> (b: bool)
        ensures
            b == self.active@.contains(peer),
    {
        let mut i: usize = 0;
        while i < self.active.len()
            invariant
                0 <= i <= self.active.len(),
                forall|j: int| 0 <= j < i ==> self.active@[j] != peer,
            decreases self.active.len() - i,
        {
            if self.active[i] == peer {
                assert(self.active@[i as int] == peer);
                return true;
            }
            i = i + 1;
        }
        false
    }

    /// Says whether a peer that was found is to be dialled, and notes it.
    pub fn on_sighting(&mut self, me: DeviceId, peer: DeviceId, trusted: bool) -> (b: bool)
        ensures
            b == old(self).dials(me, peer, trusted),
            final(self).active@ == if b {
                old(self).active@.push(peer)
            } else {
                old(self).active@
            },
    {
        if !trusted || bytes_le(peer.as_bytes(), me.as_bytes()) {
            return false;
        }
        if self.is_active(peer) {
            return false;
        }
        self.active.push(peer);
        true
    }

    /// The dialling failed, or the session ended: the peer may be dialled again.
    pub fn on_end(&mut self, peer: DeviceId)
        ensures
            !final(self).active@.contains(peer),
            forall|d: DeviceId|
                d != peer ==> final(self).active@.contains(d) == old(self).active@.contains(d),
    {
        let ghost all = self.active@;
        let mut kept: Vec<DeviceId> = Vec::new();
        let mut i: usize = 0;
        while i < self.active.len()
            invariant
                0 <= i <= self.active.len(),
                all == self.active@,
                *self == *old(self),
                !kept@.contains(peer),
                forall|d: DeviceId|
                    d != peer ==> kept@.contains(d) == all.subrange(0, i as int).contains(d),
            decreases self.active.len() - i,
        {
            let ghost before = kept@;
            let d: DeviceId = self.active[i];
            if d != peer {
                kept.push(d);
            }
            proof {
                let part = all.subrange(0, i as int);
                let more = all.subrange(0, i + 1);
                assert(more =~= part.push(all[i as int]));
                assert forall|x: DeviceId| x != peer implies kept@.contains(x) == more.contains(
                    x,
                ) by {
                    if part.contains(x) {
                        let k = choose|k: int| 0 <= k < part.len() && part[k] == x;
                        assert(more[k] == x);
                        assert(before.contains(x));
                        let m = choose|m: int| 0 <= m < before.len() && before[m] == x;
                        assert(kept@[m] == x);
                    }
                    if x == d {
                        assert(more[i as int] == x);
                        assert(kept@[before.len() as int] == x);
                    }
                    if more.contains(x) && x != d {
                        let k = choose|k: int| 0 <= k < more.len() && more[k] == x;
                        assert(part[k] == x);
                        assert(part.contains(x));
                    }
                    if kept@.contains(x) && x != d {
                        let k = choose|k: int| 0 <= k < kept@.len() && kept@[k] == x;
                        assert(before[k] == x);
                        assert(before.contains(x));
                        assert(part.contains(x));
                        let m = choose|m: int| 0 <= m < part.len() && part[m] == x;
                        assert(more[m] == x);
                    }
                }
                if kept@.contains(peer) {
                    let k = choose|k: int| 0 <= k < kept@.len() && kept@[k] == peer;
                    if k < before.len() {
                        assert(before[k] == peer);
                    }
                }
            }
            i = i + 1;
        }
        assert(all.subrange(0, all.len() as int) =~= all);
        self.active = kept;
    }
}

/// Of two devices that find each other, one dials and the other waits.
pub proof fn law_one_side_dials(a: DeviceId, b: DeviceId)
    requires
        a != b,
    ensures
        id_before(a, b) != id_before(b, a),
{
    lemma_order_is_total(a.0@, b.0@, 0);
    if not_after(a.0@, b.0@, 0) && not_after(b.0@, a.0@, 0) {
        assert(a.0 =~= b.0);
    }
}

/// Each wait is twice the one before, until that would exceed the limit; from then on it
/// is the limit.
pub proof fn law_waits_double(b: Backoff)
    requires
        b.wf(),
    ensures
        2 * b.current_ms <= b.max_ms ==> b.after().current_ms == 2 * b.current_ms,
        2 * b.current_ms > b.max_ms ==> b.after().current_ms == b.max_ms,
        b.after().max_ms == b.max_ms,
{
}

/// A peer that cannot be had is tried again, after a wait that grows with each failure; a
/// session that has ended is begun again soon, after half a second, however long the waits
/// had become; and an address that is none is given up.
pub proof fn law_only_bad_addresses_are_given_up(b: Backoff, other: Backoff)
    requires
        b.wf(),
    ensures
        b.tried(Tried::BadAddress).1 is None,
        b.tried(Tried::Failed).1 == Some(b.current_ms),
        b.tried(Tried::Failed).0.current_ms >= b.current_ms,
        b.tried(Tried::Failed).0 == b.after(),
        b.tried(Tried::Ended).1 == Some(500u64),
        b.tried(Tried::Ended) == other.tried(Tried::Ended),
        b.tried(Tried::Ended).0.tried(Tried::Failed).1 == Some(1000u64),
        b.tried(Tried::Ended).0.max_ms == 30_000,
{
}

/// A text begins with another exactly where it is that text and something more, and holds
/// it exactly where it is something, that text and something more.
pub proof fn law_begins_and_holds(s: Seq<char>, a: Seq<char>, p: Seq<char>, b: Seq<char>)
    ensures
        s == p + b ==> begins(s, p),
        begins(s, p) ==> s == p + s.subrange(p.len() as int, s.len() as int),
        s == a + p + b ==> holds(s, p),
        holds(s, p) ==> exists|i: int|
            0 <= i && i + p.len() <= s.len() && #[trigger] s.subrange(i, s.len() as int).subrange(
                0,
                p.len() as int,
            ) == p,
{
    if s == p + b {
        assert(s.subrange(0, p.len() as int) =~= p);
    }
    if begins(s, p) {
        assert(s =~= p + s.subrange(p.len() as int, s.len() as int));
    }
    if s == a + p + b {
        let i = a.len() as int;
        let tail = s.subrange(i, s.len() as int);
        assert(tail.subrange(0, p.len() as int) =~= p);
        assert(begins(s.subrange(i, s.len() as int), p));
    }
    if holds(s, p) {
        let i = choose|i: int|
            0 <= i <= s.len() && begins(#[trigger] s.subrange(i, s.len() as int), p);
        assert(s.subrange(i, s.len() as int).subrange(0, p.len() as int) == p);
    }
}

/// The names by which the interfaces are known that a machine makes up for itself, each
/// for itself; and nothing else is taken for one.
pub proof fn law_virtual_interfaces_by_name(rest: Seq<char>, n: Seq<char>)
    ensures
        is_virtual_name("lo"@),
        is_virtual_name("docker"@ + rest) && is_virtual_name("br-"@ + rest) && is_virtual_name(
            "virbr"@ + rest,
        ) && is_virtual_name("veth"@ + rest) && is_virtual_name("vnet"@ + rest) && is_virtual_name(
            "vmnet"@ + rest,
        ) && is_virtual_name("vbox"@ + rest) && is_virtual_name("tun"@ + rest) && is_virtual_name(
            "tap"@ + rest,
        ) && is_virtual_name("wg"@ + rest) && is_virtual_name("tailscale"@ + rest)
            && is_virtual_name("zt"@ + rest) && is_virtual_name("utun"@ + rest) && is_virtual_name(
            "awdl"@ + rest,
        ) && is_virtual_name("llw"@ + rest),
        is_virtual_name(n + "vethernet"@ + rest) && is_virtual_name(n + "vmware"@ + rest)
            && is_virtual_name(n + "virtualbox"@ + rest) && is_virtual_name(n + "hyper-v"@ + rest)
            && is_virtual_name(n + "loopback"@ + rest),
{
    let none = Seq::<char>::empty();
    law_begins_and_holds("docker"@ + rest, none, "docker"@, rest);
    law_begins_and_holds("br-"@ + rest, none, "br-"@, rest);
    law_begins_and_holds("virbr"@ + rest, none, "virbr"@, rest);
    law_begins_and_holds("veth"@ + rest, none, "veth"@, rest);
    law_begins_and_holds("vnet"@ + rest, none, "vnet"@, rest);
    law_begins_and_holds("vmnet"@ + rest, none, "vmnet"@, rest);
    law_begins_and_holds("vbox"@ + rest, none, "vbox"@, rest);
    law_begins_and_holds("tun"@ + rest, none, "tun"@, rest);
    law_begins_and_holds("tap"@ + rest, none, "tap"@, rest);
    law_begins_and_holds("wg"@ + rest, none, "wg"@, rest);
    law_begins_and_holds("tailscale"@ + rest, none, "tailscale"@, rest);
    law_begins_and_holds("zt"@ + rest, none, "zt"@, rest);
    law_begins_and_holds("utun"@ + rest, none, "utun"@, rest);
    law_begins_and_holds("awdl"@ + rest, none, "awdl"@, rest);
    law_begins_and_holds("llw"@ + rest, none, "llw"@, rest);
    law_begins_and_holds(n + "vethernet"@ + rest, n, "vethernet"@, rest);
    law_begins_and_holds(n + "vmware"@ + rest, n, "vmware"@, rest);
    law_begins_and_holds(n + "virtualbox"@ + rest, n, "virtualbox"@, rest);
    law_begins_and_holds(n + "hyper-v"@ + rest, n, "hyper-v"@, rest);
    law_begins_and_holds(n + "loopback"@ + rest, n, "loopback"@, rest);
}

/// A name such as that of a wired interface is not taken for one that was made up.
pub proof fn law_real_interfaces_are_kept(n: Seq<char>)
    requires
        n.len() > 0,
        n[0] == 'e',
        forall|i: int| 0 <= i < n.len() ==> n[i] != 'v' && n[i] != 'h' && n[i] != 'l',
    ensures
        !is_virtual_name(n),
{
    reveal_strlit("lo");
    reveal_strlit("docker");
    reveal_strlit("br-");
    reveal_strlit("virbr");
    reveal_strlit("veth");
    reveal_strlit("vnet");
    reveal_strlit("vmnet");
    reveal_strlit("vbox");
    reveal_strlit("tun");
    reveal_strlit("tap");
    reveal_strlit("wg");
    reveal_strlit("tailscale");
    reveal_strlit("zt");
    reveal_strlit("utun");
    reveal_strlit("awdl");
    reveal_strlit("llw");
    reveal_strlit("vethernet");
    reveal_strlit("vmware");
    reveal_strlit("virtualbox");
    reveal_strlit("hyper-v");
    reveal_strlit("loopback");
    lemma_not_begun(n, "docker"@);
    lemma_not_begun(n, "br-"@);
    lemma_not_begun(n, "virbr"@);
    lemma_not_begun(n, "veth"@);
    lemma_not_begun(n, "vnet"@);
    lemma_not_begun(n, "vmnet"@);
    lemma_not_begun(n, "vbox"@);
    lemma_not_begun(n, "tun"@);
    lemma_not_begun(n, "tap"@);
    lemma_not_begun(n, "wg"@);
    lemma_not_begun(n, "tailscale"@);
    lemma_not_begun(n, "zt"@);
    lemma_not_begun(n, "utun"@);
    lemma_not_begun(n, "awdl"@);
    lemma_not_begun(n, "llw"@);
    lemma_not_held(n, "vethernet"@);
    lemma_not_held(n, "vmware"@);
    lemma_not_held(n, "virtualbox"@);
    lemma_not_held(n, "hyper-v"@);
    lemma_not_held(n, "loopback"@);
    assert("lo"@[0] != n[0]);
}

proof fn lemma_not_begun(n: Seq<char>, p: Seq<char>)
    requires
        p.len() > 0,
        n.len() > 0,
        n[0] != p[0],
    ensures
        !begins(n, p),
{
    if begins(n, p) {
        assert(n.subrange(0, p.len() as int)[0] == n[0]);
    }
}

proof fn lemma_not_held(n: Seq<char>, p: Seq<char>)
    requires
        p.len() > 0,
        forall|i: int| 0 <= i < n.len() ==> n[i] != p[0],
    ensures
        !holds(n, p),
{
    assert forall|i: int| 0 <= i <= n.len() implies !begins(
        #[trigger] n.subrange(i, n.len() as int),
        p,
    ) by {
        let tail = n.subrange(i, n.len() as int);
        if begins(tail, p) {
            assert(tail.subrange(0, p.len() as int)[0] == tail[0]);
            assert(tail[0] == n[i]);
        }
    }
}

/// By the numbers of an address: of the fourth version, those that begin with 127, those
/// that begin with 169.254 and the one of zeros cannot be dialled; of the sixth, the one
/// of zeros, the one with the number 1, and those whose first group lies from fe80 to febf.
pub proof fn law_addresses_that_cannot_be_dialled(a: u8, b: u8, c: u8, d: u8, v: u32, w: u128)
    requires
        v == a * 0x100_0000 + b * 0x1_0000 + c * 0x100 + d,
    ensures
        is_dialable(Ip::V4(v)) <==> a != 127 && !(a == 169 && b == 254) && !(a == 0 && b == 0 && c == 0
            && d == 0),
        ({
            let group = w as int / 0x1_0000_0000_0000_0000_0000_0000_0000;
            is_dialable(Ip::V6(w)) <==> w != 0 && w != 1 && !(0xfe80 <= group <= 0xfebf)
        }),
{
    let group = w as int / 0x1_0000_0000_0000_0000_0000_0000_0000;
    assert(w as int / 0x40_0000_0000_0000_0000_0000_0000_0000 == group / 64);
}

/// The addresses of two announcements in a row are those of the first and then those of
/// the second; an address is among them where it can be dialled and is not the best one.
pub proof fn law_addresses_keep_their_order(best: Ip, all: Seq<Ip>, n: int)
    requires
        0 <= n < all.len(),
    ensures
        all[n] != best && is_dialable(all[n]) ==> others(best, all, n + 1) == others(best, all, n).push(
            all[n],
        ),
        all[n] == best || !is_dialable(all[n]) ==> others(best, all, n + 1) == others(best, all, n),
        others(best, all, 0).len() == 0,
{
}

/// Addresses of the fourth version come before those of the sixth, and within a version
/// the lower number comes first.
pub proof fn law_addresses_are_in_the_order_of_their_numbers(v: u32, w: u32, x: u128, y: u128)
    ensures
        ip_before(Ip::V4(v), Ip::V6(x)),
        !ip_before(Ip::V6(x), Ip::V4(v)),
        ip_before(Ip::V4(v), Ip::V4(w)) <==> v < w,
        ip_before(Ip::V6(x), Ip::V6(y)) <==> x < y,
{
}

/// Of two devices the one dials whose id has the lower byte where they first differ; only
/// paired devices are dialled, and none twice at a time.
pub proof fn law_the_lower_id_dials(a: DeviceId, b: DeviceId, k: int, d: Dialer, trusted: bool)
    requires
        0 <= k < 16,
        forall|i: int| 0 <= i < k ==> a.0@[i] == b.0@[i],
        a.0@[k] < b.0@[k],
    ensures
        id_before(a, b),
        !id_before(b, a),
        d.dials(a, b, trusted) <==> trusted && !d.active@.contains(b),
        !d.dials(b, a, trusted),
{
    lemma_bytes_from(a.0@, b.0@, 0, k);
    lemma_bytes_from(b.0@, a.0@, 0, k);
}

proof fn lemma_bytes_from(a: Seq<u8>, b: Seq<u8>, i: int, k: int)
    requires
        0 <= i <= k < a.len(),
        k < b.len(),
        forall|j: int| 0 <= j < k ==> a[j] == b[j],
    ensures
        not_after(a, b, i) == not_after(a, b, k),
    decreases k - i,
{
    if i < k {
        lemma_bytes_from(a, b, i + 1, k);
    }
}

/// An address is remembered exactly where some paired device was last there.
pub proof fn law_last_addresses_are_remembered(ds: Seq<TrustedDevice>, t: String, i: int)
    requires
        0 <= i < ds.len(),
    ensures
        ds[i].last_address == Some(t) ==> remembered(ds, ds.len() as int, t@),
        (forall|j: int|
            0 <= j < ds.len() ==> match (#[trigger] ds[j]).last_address {
                Some(a) => a@ != t@,
                None => true,
            }) ==> !remembered(ds, ds.len() as int, t@),
        remembered(ds, 0, t@) == false,
{
    if ds[i].last_address == Some(t) {
        assert(was_at(ds[i], t@));
    }
}

/// An address of this machine is told to others where it can be dialled and belongs to an
/// interface that is not made up; one that is made up tells none of its own.
pub proof fn law_real_addresses_are_told(ifaces: Seq<Iface>, i: int, ip: Ip)
    requires
        0 <= i < ifaces.len(),
    ensures
        is_dialable(ifaces[i].ip) && !is_virtual_name(lower_all(ifaces[i].name@)) ==> reachable_at(
            ifaces,
            ifaces.len() as int,
            ifaces[i].ip,
        ),
        !is_dialable(ip) ==> !reachable_at(ifaces, ifaces.len() as int, ip),
        (forall|j: int|
            0 <= j < ifaces.len() && (#[trigger] ifaces[j]).ip == ip ==> is_virtual_name(
                lower_all(ifaces[j].name@),
            )) ==> !reachable_at(ifaces, ifaces.len() as int, ip),
{
}

/// In an ascending row the lower address stands before the higher, and equal ones never
/// stand twice.
pub proof fn law_rows_ascend(row: Seq<Ip>, texts: Seq<Seq<char>>, i: int, j: int)
    ensures
        ips_ascend(row) && 0 <= i < j < row.len() ==> ip_before(row[i], row[j]) && row[i] != row[j],
        ascending(texts) && 0 <= i < j < texts.len() ==> texts[i] != texts[j] && text_not_after(
            texts[i],
            texts[j],
            0,
        ),
{
}

} // verus!
