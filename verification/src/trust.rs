//! The trust store: paired devices and the certificates pinned to them.
//!
//! During pairing the user confirms a short code. From then on the peer's id
//! and the fingerprint of its certificate are kept here, and a connection is
//! accepted only with that certificate.

use crate::digest::{blake3_hash, hash_of};
use crate::ids::{same_bytes, DeviceId};
use vstd::prelude::*;

verus! {

/// BLAKE3 of a peer's DER-encoded certificate.
#[derive(Clone, Copy, Debug)]
pub struct CertFingerprint(pub [u8; 32]);

impl PartialEq for CertFingerprint {
    fn eq(&self, other: &Self) -> (r: bool) {
        same_bytes(&self.0, &other.0)
    }
}

impl vstd::std_specs::cmp::PartialEqSpecImpl for CertFingerprint {
    open spec fn obeys_eq_spec() -> bool {
        true
    }

    open spec fn eq_spec(&self, other: &Self) -> bool {
        self.0 == other.0
    }
}

impl Eq for CertFingerprint {

}

/// The upper-case hexadecimal digit of value `n`.
pub open spec fn upper_digit(n: int) -> char {
    if n < 10 {
        ('0' as int + n) as char
    } else {
        ('A' as int + (n - 10)) as char
    }
}

/// The two upper-case digits of a byte.
pub open spec fn upper_byte(b: u8) -> Seq<char> {
    seq![upper_digit(b as int / 16), upper_digit(b as int % 16)]
}

fn push_upper_digit(s: &mut String, n: u8)
    requires
        n < 16,
    ensures
        final(s)@ == old(s)@.push(upper_digit(n as int)),
{
    if n < 10 {
        s.push((48u8 + n) as char);
    } else {
        s.push((65u8 + (n - 10)) as char);
    }
}

fn push_upper_byte(s: &mut String, b: u8)
    ensures
        final(s)@ == old(s)@ + upper_byte(b),
{
    push_upper_digit(s, b / 16);
    push_upper_digit(s, b % 16);
    assert(s@ =~= old(s)@ + upper_byte(b));
}

impl CertFingerprint {
    /// The fingerprint of a certificate.
    pub fn of_der(der: &[u8]) -> (f: Self)
        ensures
            f.0@ == blake3_hash(der@),
    {
        CertFingerprint(hash_of(der))
    }

    /// The first six bytes in upper-case hexadecimal, two by two.
    pub open spec fn short_text(self) -> Seq<char> {
        upper_byte(self.0@[0]) + upper_byte(self.0@[1]) + seq![' '] + upper_byte(self.0@[2])
            + upper_byte(self.0@[3]) + seq![' '] + upper_byte(self.0@[4]) + upper_byte(self.0@[5])
    }

    /// The form that people compare, such as `4F2A 9C10 00FF`.
    pub fn short(&self) -> (s: String)
        ensures
            s@ == self.short_text(),
    {
        let mut s = String::new();
        push_upper_byte(&mut s, self.0[0]);
        push_upper_byte(&mut s, self.0[1]);
        s.push(' ');
        push_upper_byte(&mut s, self.0[2]);
        push_upper_byte(&mut s, self.0[3]);
        s.push(' ');
        push_upper_byte(&mut s, self.0[4]);
        push_upper_byte(&mut s, self.0[5]);
        assert(s@ =~= self.short_text());
        s
    }
}

/// A paired device.
#[derive(Debug)]
pub struct TrustedDevice {
    pub id: DeviceId,
    pub name: String,
    pub fingerprint: CertFingerprint,
    /// When it was paired, in seconds since the epoch.
    pub paired_at: u64,
    /// The address of the last connection.
    pub last_address: Option<String>,
}

impl Clone for TrustedDevice {
    fn clone(&self) -> (d: Self)
        ensures
            d == *self,
    {
        TrustedDevice {
            id: self.id,
            name: self.name.clone(),
            fingerprint: self.fingerprint,
            paired_at: self.paired_at,
            last_address: match &self.last_address {
                Some(a) => Some(a.clone()),
                None => None,
            },
        }
    }
}

#[derive(Debug)]
pub struct TrustStore {
    pub devices: Vec<TrustedDevice>,
}

impl Default for TrustStore {
    fn default() -> (s: Self)
        ensures
            s.devices@.len() == 0,
    {
        TrustStore { devices: Vec::new() }
    }
}

/// The first record of `id`, from position `i` on.
pub open spec fn record_from(ds: Seq<TrustedDevice>, id: DeviceId, i: int) -> Option<int>
    decreases ds.len() - i,
{
    if i < 0 || i >= ds.len() {
        None
    } else if ds[i].id == id {
        Some(i)
    } else {
        record_from(ds, id, i + 1)
    }
}

/// The first record of `id`.
pub open spec fn record(ds: Seq<TrustedDevice>, id: DeviceId) -> Option<int> {
    record_from(ds, id, 0)
}

/// The first record with this fingerprint, from position `i` on.
pub open spec fn pinned_from(ds: Seq<TrustedDevice>, fp: CertFingerprint, i: int) -> Option<int>
    decreases ds.len() - i,
{
    if i < 0 || i >= ds.len() {
        None
    } else if ds[i].fingerprint == fp {
        Some(i)
    } else {
        pinned_from(ds, fp, i + 1)
    }
}

/// `id` is paired, and `fp` is the certificate pinned to it.
pub open spec fn trusts(ds: Seq<TrustedDevice>, id: DeviceId, fp: CertFingerprint) -> bool {
    record(ds, id) matches Some(i) && ds[i].fingerprint == fp
}

/// The store after `device` was put in: its first record replaced, or a new one
/// at the end.
pub open spec fn with_device(ds: Seq<TrustedDevice>, device: TrustedDevice) -> Seq<TrustedDevice> {
    match record(ds, device.id) {
        Some(i) => ds.update(i, device),
        None => ds.push(device),
    }
}

/// The store without the records of `id`.
pub open spec fn without_device(ds: Seq<TrustedDevice>, id: DeviceId) -> Seq<TrustedDevice>
    decreases ds.len(),
{
    if ds.len() == 0 {
        ds
    } else {
        let before = without_device(ds.drop_last(), id);
        if ds.last().id == id {
            before
        } else {
            before.push(ds.last())
        }
    }
}

/// What a search by id finds.
pub proof fn lemma_record_from(ds: Seq<TrustedDevice>, id: DeviceId, i: int)
    requires
        0 <= i <= ds.len(),
    ensures
        match record_from(ds, id, i) {
            Some(k) => {
                &&& i <= k < ds.len()
                &&& ds[k].id == id
                &&& forall|j: int| i <= j < k ==> (#[trigger] ds[j]).id != id
            },
            None => forall|j: int| i <= j < ds.len() ==> (#[trigger] ds[j]).id != id,
        },
    decreases ds.len() - i,
{
    if i < ds.len() && ds[i].id != id {
        lemma_record_from(ds, id, i + 1);
    }
}

/// A record at `k`, with none of that id before it, is the one found.
proof fn lemma_record_is(ds: Seq<TrustedDevice>, id: DeviceId, i: int, k: int)
    requires
        0 <= i <= k < ds.len(),
        ds[k].id == id,
        forall|j: int| i <= j < k ==> (#[trigger] ds[j]).id != id,
    ensures
        record_from(ds, id, i) == Some(k),
    decreases k - i,
{
    if i < k {
        lemma_record_is(ds, id, i + 1, k);
    }
}

impl TrustStore {
    pub fn get(&self, id: DeviceId) -> (r: Option<&TrustedDevice>)
        ensures
            r == match record(self.devices@, id) {
                Some(i) => Some(&self.devices@[i]),
                None => None,
            },
    {
        let mut i: usize = 0;
        while i < self.devices.len()
            invariant
                0 <= i <= self.devices.len(),
                record(self.devices@, id) == record_from(self.devices@, id, i as int),
            decreases self.devices.len() - i,
        {
            if self.devices[i].id == id {
                return Some(&self.devices[i]);
            }
            i = i + 1;
        }
        None
    }

    /// Whether `id` is paired and presents the certificate pinned to it.
    pub fn verify(&self, id: DeviceId, presented: &CertFingerprint) -> (b: bool)
        ensures
            b == trusts(self.devices@, id, *presented),
    {
        match self.get(id) {
            Some(d) => d.fingerprint == *presented,
            None => false,
        }
    }

    /// The first device to which this certificate is pinned.
    pub fn by_fingerprint(&self, presented: &CertFingerprint) -> (r: Option<DeviceId>)
        ensures
            r == match pinned_from(self.devices@, *presented, 0) {
                Some(i) => Some(self.devices@[i].id),
                None => None,
            },
    {
        let mut i: usize = 0;
        while i < self.devices.len()
            invariant
                0 <= i <= self.devices.len(),
                pinned_from(self.devices@, *presented, 0) == pinned_from(
                    self.devices@,
                    *presented,
                    i as int,
                ),
            decreases self.devices.len() - i,
        {
            if self.devices[i].fingerprint == *presented {
                return Some(self.devices[i].id);
            }
            i = i + 1;
        }
        None
    }

    /// Puts in the record of a device, in place of an earlier one.
    pub fn upsert(&mut self, device: TrustedDevice)
        ensures
            final(self).devices@ == with_device(old(self).devices@, device),
    {
        let ghost ds = self.devices@;
        let mut i: usize = 0;
        while i < self.devices.len()
            invariant
                0 <= i <= self.devices.len(),
                self.devices@ == ds,
                ds == old(self).devices@,
                record(ds, device.id) == record_from(ds, device.id, i as int),
            decreases self.devices.len() - i,
        {
            if self.devices[i].id == device.id {
                self.devices.set(i, device);
                return ;
            }
            i = i + 1;
        }
        self.devices.push(device);
    }

    /// Drops the records of a device. Says whether there were any.
    pub fn forget(&mut self, id: DeviceId) -> (b: bool)
        ensures
            final(self).devices@ == without_device(old(self).devices@, id),
            b == (record(old(self).devices@, id) is Some),
    {
        let ghost ds = self.devices@;
        let before = self.devices.len();
        let mut kept: Vec<TrustedDevice> = Vec::new();
        let mut i: usize = 0;
        proof {
            lemma_record_from(ds, id, 0);
            assert(ds.subrange(0, 0) =~= Seq::<TrustedDevice>::empty());
        }
        while i < self.devices.len()
            invariant
                0 <= i <= self.devices.len(),
                self.devices@ == ds,
                kept@ == without_device(ds.subrange(0, i as int), id),
                kept@.len() <= i,
                kept@.len() == i <==> (forall|j: int|
                    0 <= j < i ==> (#[trigger] ds[j]).id != id),
            decreases self.devices.len() - i,
        {
            proof {
                let now = ds.subrange(0, i + 1);
                assert(now.drop_last() =~= ds.subrange(0, i as int));
                assert(now.last() == ds[i as int]);
            }
            if self.devices[i].id != id {
                kept.push(self.devices[i].clone());
            } else {
                assert(ds[i as int].id == id);
            }
            i = i + 1;
        }
        assert(ds.subrange(0, ds.len() as int) =~= ds);
        let after = kept.len();
        self.devices = kept;
        after != before
    }
}

/// What a removal leaves: no record of `id`, and of every other device the
/// record that was there.
pub proof fn law_forget_forgets_only_that_device(
    ds: Seq<TrustedDevice>,
    id: DeviceId,
    fp: CertFingerprint,
    other: DeviceId,
)
    ensures
        record(without_device(ds, id), id) is None,
        !trusts(without_device(ds, id), id, fp),
        other != id ==> trusts(without_device(ds, id), other, fp) == trusts(ds, other, fp),
{
    lemma_forgotten(ds, id);
    if other != id {
        lemma_forget_keeps_others(ds, id, other);
    }
}

/// No record of a forgotten device is left.
proof fn lemma_forgotten(ds: Seq<TrustedDevice>, id: DeviceId)
    ensures
        record(without_device(ds, id), id) is None,
    decreases ds.len(),
{
    if ds.len() > 0 {
        lemma_forgotten(ds.drop_last(), id);
        lemma_record_of_push(without_device(ds.drop_last(), id), ds.last(), id);
    }
}

/// The record of a device that stays is the same before and after a removal.
proof fn lemma_forget_keeps_others(ds: Seq<TrustedDevice>, id: DeviceId, other: DeviceId)
    requires
        other != id,
    ensures
        match record(ds, other) {
            Some(i) => record(without_device(ds, id), other) matches Some(k)
                && without_device(ds, id)[k] == ds[i],
            None => record(without_device(ds, id), other) is None,
        },
    decreases ds.len(),
{
    if ds.len() > 0 {
        let init = ds.drop_last();
        lemma_forget_keeps_others(init, id, other);
        let before = without_device(init, id);
        assert(init.push(ds.last()) =~= ds);
        lemma_record_of_push(init, ds.last(), other);
        lemma_record_of_push(before, ds.last(), other);
        lemma_record_from(init, other, 0);
        lemma_record_from(before, other, 0);
    }
}

/// A record at the end is found only where there was none before.
proof fn lemma_record_of_push(ds: Seq<TrustedDevice>, last: TrustedDevice, id: DeviceId)
    ensures
        record(ds.push(last), id) == match record(ds, id) {
            Some(i) => Some(i),
            None => if last.id == id {
                Some(ds.len() as int)
            } else {
                None
            },
        },
{
    let all = ds.push(last);
    lemma_record_from(ds, id, 0);
    lemma_record_from(all, id, 0);
    match record(ds, id) {
        Some(i) => {
            assert forall|j: int| 0 <= j < i implies (#[trigger] all[j]).id != id by {
                assert(ds[j].id != id);
            }
            assert(all[i] == ds[i]);
            lemma_record_is(all, id, 0, i);
        },
        None => {
            assert forall|j: int| 0 <= j < ds.len() implies (#[trigger] all[j]).id != id by {
                assert(ds[j].id != id);
            }
            if last.id == id {
                lemma_record_is(all, id, 0, ds.len() as int);
            }
        },
    }
}

/// A device that was put in is trusted with exactly the certificate it was put
/// in with, and the trust in every other device is as before.
pub proof fn law_upsert_pins_the_certificate(
    ds: Seq<TrustedDevice>,
    device: TrustedDevice,
    fp: CertFingerprint,
    other: DeviceId,
)
    ensures
        trusts(with_device(ds, device), device.id, fp) <==> fp == device.fingerprint,
        other != device.id ==> trusts(with_device(ds, device), other, fp) == trusts(ds, other, fp),
{
    let out = with_device(ds, device);
    lemma_record_from(ds, device.id, 0);
    lemma_record_from(ds, other, 0);
    match record(ds, device.id) {
        Some(i) => {
            assert forall|j: int| 0 <= j < i implies (#[trigger] out[j]).id != device.id by {
                assert(ds[j].id != device.id);
            }
            lemma_record_is(out, device.id, 0, i);
            if other != device.id {
                match record(ds, other) {
                    Some(k) => {
                        assert forall|j: int| 0 <= j < k implies (#[trigger] out[j]).id != other by {
                            assert(ds[j].id != other);
                        }
                        assert(out[k] == ds[k]);
                        lemma_record_is(out, other, 0, k);
                    },
                    None => {
                        lemma_record_from(out, other, 0);
                        if let Some(k) = record(out, other) {
                            assert(ds[k].id != other);
                        }
                    },
                }
            }
        },
        None => {
            lemma_record_of_push(ds, device, device.id);
            lemma_record_of_push(ds, device, other);
        },
    }
}

/// A device that was never paired is trusted with no certificate.
pub proof fn law_unpaired_devices_are_not_trusted(
    ds: Seq<TrustedDevice>,
    id: DeviceId,
    fp: CertFingerprint,
)
    requires
        forall|i: int| 0 <= i < ds.len() ==> (#[trigger] ds[i]).id != id,
    ensures
        !trusts(ds, id, fp),
{
    lemma_record_from(ds, id, 0);
}

/// The store holds one record of a device.
pub open spec fn one_record_each(ds: Seq<TrustedDevice>) -> bool {
    forall|i: int, j: int| 0 <= i < j < ds.len() ==> (#[trigger] ds[i]).id != (#[trigger] ds[j]).id
}

proof fn lemma_without_is_part(ds: Seq<TrustedDevice>, id: DeviceId)
    requires
        one_record_each(ds),
    ensures
        one_record_each(without_device(ds, id)),
        forall|k: int|
            0 <= k < without_device(ds, id).len() ==> exists|j: int|
                0 <= j < ds.len() && ds[j] == #[trigger] without_device(ds, id)[k],
    decreases ds.len(),
{
    if ds.len() > 0 {
        let front = ds.drop_last();
        assert forall|i: int, j: int| 0 <= i < j < front.len() implies (#[trigger] front[i]).id != (
        #[trigger] front[j]).id by {
            assert(front[i] == ds[i] && front[j] == ds[j]);
        }
        lemma_without_is_part(front, id);
        let before = without_device(front, id);
        let after = without_device(ds, id);
        assert forall|k: int| 0 <= k < after.len() implies exists|j: int|
            0 <= j < ds.len() && ds[j] == #[trigger] after[k] by {
            if k < before.len() {
                assert(after[k] == before[k]);
                let j = choose|j: int| 0 <= j < front.len() && front[j] == before[k];
                assert(ds[j] == after[k]);
            } else {
                assert(ds[ds.len() - 1] == after[k]);
            }
        }
        assert forall|i: int, j: int| 0 <= i < j < after.len() implies (#[trigger] after[i]).id != (
        #[trigger] after[j]).id by {
            assert(after[i] == before[i]);
            if j < before.len() {
                assert(after[j] == before[j]);
            } else {
                let m = choose|m: int| 0 <= m < front.len() && front[m] == before[i];
                assert(ds[m].id != ds[ds.len() - 1].id);
            }
        }
    }
}

/// Neither putting a device in nor forgetting one makes a second record of any
/// device.
pub proof fn law_one_record_each(ds: Seq<TrustedDevice>, device: TrustedDevice, id: DeviceId)
    requires
        one_record_each(ds),
    ensures
        one_record_each(with_device(ds, device)),
        one_record_each(without_device(ds, id)),
{
    lemma_record_from(ds, device.id, 0);
    lemma_without_is_part(ds, id);
    let after = with_device(ds, device);
    assert forall|i: int, j: int| 0 <= i < j < after.len() implies (#[trigger] after[i]).id != (
    #[trigger] after[j]).id by {
        match record(ds, device.id) {
            Some(k) => {
                assert(ds[i].id != ds[j].id);
            },
            None => {
                if j < ds.len() {
                    assert(ds[i].id != ds[j].id);
                }
            },
        }
    }
}

/// A certificate is trusted exactly where it is the one in the first record of the
/// device.
pub proof fn law_trust_is_in_the_first_record(
    ds: Seq<TrustedDevice>,
    id: DeviceId,
    fp: CertFingerprint,
    k: int,
)
    requires
        0 <= k < ds.len(),
        ds[k].id == id,
        forall|j: int| 0 <= j < k ==> (#[trigger] ds[j]).id != id,
    ensures
        trusts(ds, id, fp) <==> ds[k].fingerprint == fp,
        record(ds, id) == Some(k),
{
    lemma_record_is(ds, id, 0, k);
}

/// A certificate leads to the first device that it is pinned to, and to none where it is
/// pinned to none.
pub proof fn law_certificates_lead_to_their_device(ds: Seq<TrustedDevice>, fp: CertFingerprint, k: int)
    requires
        0 <= k < ds.len(),
    ensures
        ds[k].fingerprint == fp ==> (pinned_from(ds, fp, 0) matches Some(i) && i <= k),
        pinned_from(ds, fp, 0) == Some(k) ==> ds[k].fingerprint == fp,
        pinned_from(ds, fp, 0) matches Some(i) ==> 0 <= i < ds.len() && ds[i].fingerprint == fp,
{
    lemma_pinned_from(ds, fp, 0);
}

proof fn lemma_pinned_from(ds: Seq<TrustedDevice>, fp: CertFingerprint, i: int)
    requires
        0 <= i <= ds.len(),
    ensures
        match pinned_from(ds, fp, i) {
            Some(k) => i <= k < ds.len() && ds[k].fingerprint == fp && forall|j: int|
                i <= j < k ==> (#[trigger] ds[j]).fingerprint != fp,
            None => forall|j: int| i <= j < ds.len() ==> (#[trigger] ds[j]).fingerprint != fp,
        },
    decreases ds.len() - i,
{
    if i < ds.len() && ds[i].fingerprint != fp {
        lemma_pinned_from(ds, fp, i + 1);
    }
}

/// A device that is put in is in the store as it was given; a device that was there
/// already keeps its place, and so do all others.
pub proof fn law_devices_keep_their_place(ds: Seq<TrustedDevice>, device: TrustedDevice, k: int)
    requires
        0 <= k < ds.len(),
    ensures
        ({
            let out = with_device(ds, device);
            &&& out.contains(device)
            &&& ds[k].id != device.id ==> out[k] == ds[k]
            &&& ds[k].id == device.id ==> out.len() == ds.len()
            &&& (forall|j: int| 0 <= j < ds.len() ==> (#[trigger] ds[j]).id != device.id)
                ==> out.len() == ds.len() + 1 && out.last() == device
        }),
{
    lemma_record_from(ds, device.id, 0);
    let out = with_device(ds, device);
    match record(ds, device.id) {
        Some(i) => {
            assert(out[i] == device);
        },
        None => {
            assert(out[ds.len() as int] == device);
        },
    }
}

/// The two digits of a byte give its value, the upper half first.
pub proof fn law_bytes_are_shown_by_their_halves(b: u8)
    ensures
        ({
            let s = upper_byte(b);
            let value = |c: char|
                if '0' <= c <= '9' {
                    c as int - '0' as int
                } else {
                    c as int - 'A' as int + 10
                };
            &&& s.len() == 2
            &&& '0' <= s[0] <= '9' || 'A' <= s[0] <= 'F'
            &&& '0' <= s[1] <= '9' || 'A' <= s[1] <= 'F'
            &&& b == 16 * value(s[0]) + value(s[1])
        }),
{
}

/// What people compare shows the first six bytes of a fingerprint in their order, four
/// digits at a time.
pub proof fn law_short_forms_show_six_bytes(f: CertFingerprint, i: int)
    requires
        0 <= i < 6,
    ensures
        f.short_text().len() == 14,
        f.short_text()[4] == ' ',
        f.short_text()[9] == ' ',
        f.short_text().subrange(2 * i + i / 2, 2 * i + i / 2 + 2) == upper_byte(f.0@[i]),
{
    let t = f.short_text();
    assert(t.subrange(2 * i + i / 2, 2 * i + i / 2 + 2) =~= upper_byte(f.0@[i]));
}

} // verus!
