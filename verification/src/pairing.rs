//! Pairing: the short code that both users compare, and the record that a
//! confirmed pairing leaves.
//!
//! Both machines derive the code from both certificate fingerprints and from a
//! secret of the secure channel between them. Someone in the middle would have
//! to present other certificates, over other channels, and so other codes.

use crate::digest::{blake3_hash, hasher_finalize, hasher_new, hasher_update};
use crate::ids::DeviceId;
use crate::text::{decimal, decimal_string};
use crate::trust::{CertFingerprint, TrustedDevice};
use vstd::prelude::*;

verus! {

/// Why a pairing came to nothing.
#[derive(Clone, Copy, Debug, PartialEq, Eq, Structural)]
pub enum PairingError {
    /// The user said no.
    Rejected,
    /// The codes differ.
    SasMismatch,
    Timeout,
}

/// The six-digit code that both machines show.
#[derive(Clone, Copy, Debug, PartialEq, Eq, Structural)]
pub struct ShortAuthString(pub u32);

/// `a` does not come after `b` in the order of byte strings, from position `i`
/// on.
pub open spec fn not_after(a: Seq<u8>, b: Seq<u8>, i: int) -> bool
    decreases a.len() - i,
{
    if i < 0 || i >= a.len() {
        true
    } else if i >= b.len() {
        false
    } else {
        a[i] < b[i] || (a[i] == b[i] && not_after(a, b, i + 1))
    }
}

/// What the code is a digest of: a label, the two fingerprints in their order
/// as byte strings, and the channel secret.
pub open spec fn sas_input(a: Seq<u8>, b: Seq<u8>, exporter: Seq<u8>) -> Seq<u8> {
    let label = vstd::utf8::encode_utf8("deskoryn-sas-v1"@);
    if not_after(a, b, 0) {
        label + a + b + exporter
    } else {
        label + b + a + exporter
    }
}

/// The number that the first four bytes spell, the least significant first.
pub open spec fn le32_value(s: Seq<u8>) -> int {
    s[0] + s[1] * 0x100 + s[2] * 0x1_0000 + s[3] * 0x100_0000
}

/// The code of a digest: six decimal digits.
pub open spec fn sas_code(d: Seq<u8>) -> int {
    le32_value(d) % 1_000_000
}

/// The code that two certificates and a channel secret lead to.
pub open spec fn sas_of(a: CertFingerprint, b: CertFingerprint, exporter: Seq<u8>) -> int {
    sas_code(blake3_hash(sas_input(a.0@, b.0@, exporter)))
}

/// `n` zeros.
pub open spec fn zeros(n: int) -> Seq<char> {
    Seq::new(if n > 0 { n as nat } else { 0 }, |i: int| '0')
}

/// The decimal form with zeros in front, six digits at least.
pub open spec fn six_digits(n: nat) -> Seq<char> {
    zeros(6 - decimal(n).len()) + decimal(n)
}

/// Whether `a` does not come after `b` in the order of byte strings.
pub fn bytes_le<const N: usize>(a: &[u8; N], b: &[u8; N]) -> (r: bool)
    ensures
        r == not_after(a@, b@, 0),
{
    let mut i: usize = 0;
    while i < N
        invariant
            0 <= i <= N,
            not_after(a@, b@, 0) == not_after(a@, b@, i as int),
        decreases N - i,
    {
        if a[i] < b[i] {
            return true;
        }
        if a[i] > b[i] {
            return false;
        }
        i = i + 1;
    }
    true
}

/// The form in which a code is shown: a space after the third digit.
pub open spec fn shown(n: nat) -> Seq<char> {
    six_digits(n).subrange(0, 3).push(' ') + six_digits(n).subrange(3, six_digits(n).len() as int)
}

/// The code of a digest.
pub fn code_of_digest(d: &[u8; 32]) -> (r: ShortAuthString)
    ensures
        r.0 == sas_code(d@),
{
    let n: u32 = d[0] as u32 + d[1] as u32 * 0x100 + d[2] as u32 * 0x1_0000 + d[3] as u32
        * 0x100_0000;
    ShortAuthString(n % 1_000_000)
}

impl ShortAuthString {
    /// The code of two certificates over one secure channel. Both ends of the
    /// channel get the same code.
    pub fn derive(local: &CertFingerprint, remote: &CertFingerprint, tls_exporter: &[u8]) -> (r: Self)
        ensures
            r.0 == sas_of(*local, *remote, tls_exporter@),
            r.0 < 1_000_000,
    {
        let mut h = hasher_new();
        hasher_update(&mut h, "deskoryn-sas-v1".as_bytes());
        if bytes_le(&local.0, &remote.0) {
            hasher_update(&mut h, local.0.as_slice());
            hasher_update(&mut h, remote.0.as_slice());
        } else {
            hasher_update(&mut h, remote.0.as_slice());
            hasher_update(&mut h, local.0.as_slice());
        }
        hasher_update(&mut h, tls_exporter);
        assert(crate::digest::absorbed(h) =~= sas_input(local.0@, remote.0@, tls_exporter@));
        let d = hasher_finalize(&h);
        code_of_digest(&d)
    }

    /// The form that is shown, such as `042 137`.
    pub fn display(&self) -> (s: String)
        ensures
            s@ == shown(self.0 as nat),
    {
        let digits = crate::text::chars_of(decimal_string(self.0 as u64).as_str());
        let mut all: Vec<char> = Vec::new();
        while all.len() + digits.len() < 6
            invariant
                digits@ == decimal(self.0 as nat),
                all@ =~= zeros(all@.len() as int),
                all@.len() > 0 ==> all@.len() + digits@.len() <= 6,
            decreases 6 - all.len(),
        {
            all.push('0');
        }
        let mut i: usize = 0;
        let ghost pad = all@;
        assert(pad =~= zeros(6 - digits@.len()));
        while i < digits.len()
            invariant
                0 <= i <= digits.len(),
                all@ =~= pad + digits@.subrange(0, i as int),
            decreases digits.len() - i,
        {
            all.push(digits[i]);
            i = i + 1;
        }
        assert(all@ =~= six_digits(self.0 as nat));
        let mut s = String::new();
        let mut k: usize = 0;
        while k < all.len()
            invariant
                0 <= k <= all.len(),
                all@.len() >= 6,
                s@ =~= if k <= 3 {
                    all@.subrange(0, k as int)
                } else {
                    all@.subrange(0, 3).push(' ') + all@.subrange(3, k as int)
                },
            decreases all.len() - k,
        {
            if k == 3 {
                s.push(' ');
            }
            s.push(all[k]);
            k = k + 1;
        }
        s
    }
}

/// A pairing under way.
pub struct PairingSession {
    pub local: DeviceId,
    pub local_fp: CertFingerprint,
    pub remote: DeviceId,
    pub remote_fp: CertFingerprint,
    pub remote_name: String,
    pub sas: ShortAuthString,
}

impl PairingSession {
    pub fn new(
        local: DeviceId,
        local_fp: CertFingerprint,
        remote: DeviceId,
        remote_fp: CertFingerprint,
        remote_name: String,
        tls_exporter: &[u8],
    ) -> (s: Self)
        ensures
            s.local == local,
            s.local_fp == local_fp,
            s.remote == remote,
            s.remote_fp == remote_fp,
            s.remote_name == remote_name,
            s.sas.0 == sas_of(local_fp, remote_fp, tls_exporter@),
    {
        let sas = ShortAuthString::derive(&local_fp, &remote_fp, tls_exporter);
        PairingSession { local, local_fp, remote, remote_fp, remote_name, sas }
    }

    /// The record to keep once the user has confirmed the code.
    pub fn confirm(&self, now_unix: u64, last_address: Option<String>) -> (d: TrustedDevice)
        ensures
            d == (TrustedDevice {
                id: self.remote,
                name: self.remote_name,
                fingerprint: self.remote_fp,
                paired_at: now_unix,
                last_address,
            }),
    {
        TrustedDevice {
            id: self.remote,
            name: self.remote_name.clone(),
            fingerprint: self.remote_fp,
            paired_at: now_unix,
            last_address,
        }
    }
}

/// Of two byte strings of equal length, one does not come after the other; and
/// where neither comes after the other, they are the same.
pub proof fn lemma_order_is_total(a: Seq<u8>, b: Seq<u8>, i: int)
    requires
        a.len() == b.len(),
        0 <= i <= a.len(),
    ensures
        not_after(a, b, i) || not_after(b, a, i),
        not_after(a, b, i) && not_after(b, a, i) ==> forall|j: int|
            i <= j < a.len() ==> a[j] == b[j],
    decreases a.len() - i,
{
    if i < a.len() {
        lemma_order_is_total(a, b, i + 1);
    }
}

/// Both machines show the same code: it does not depend on which of the two
/// certificates is one's own.
pub proof fn law_both_sides_derive_the_same_code(
    a: CertFingerprint,
    b: CertFingerprint,
    exporter: Seq<u8>,
)
    ensures
        sas_of(a, b, exporter) == sas_of(b, a, exporter),
{
    lemma_order_is_total(a.0@, b.0@, 0);
    if not_after(a.0@, b.0@, 0) && not_after(b.0@, a.0@, 0) {
        assert(a.0@ =~= b.0@);
    }
}

/// The code is shown as three digits, a space and three digits.
pub proof fn law_codes_have_six_digits(n: nat)
    requires
        n < 1_000_000,
    ensures
        six_digits(n).len() == 6,
        shown(n).len() == 7,
        shown(n)[3] == ' ',
{
    reveal_with_fuel(decimal, 7);
}

/// The code is taken from both certificates and from the secret of the channel: what is
/// digested tells the two fingerprints, whichever is one's own, and the whole secret. So
/// a stranger with another certificate, or on another channel, has other bytes digested.
pub proof fn law_codes_cover_both_certificates_and_the_channel(
    a: CertFingerprint,
    b: CertFingerprint,
    e: Seq<u8>,
    c: CertFingerprint,
    d: CertFingerprint,
    f: Seq<u8>,
)
    ensures
        ({
            let one = sas_input(a.0@, b.0@, e);
            let other = sas_input(c.0@, d.0@, f);
            one == other ==> e == f && ((a == c && b == d) || (a == d && b == c))
        }),
        sas_of(a, b, e) == sas_code(blake3_hash(sas_input(a.0@, b.0@, e))),
{
    let one = sas_input(a.0@, b.0@, e);
    let other = sas_input(c.0@, d.0@, f);
    let n = vstd::utf8::encode_utf8("deskoryn-sas-v1"@).len() as int;
    if one == other {
        let (p, q) = if not_after(a.0@, b.0@, 0) {
            (a, b)
        } else {
            (b, a)
        };
        let (r, s) = if not_after(c.0@, d.0@, 0) {
            (c, d)
        } else {
            (d, c)
        };
        assert(p.0@ =~= one.subrange(n, n + 32));
        assert(r.0@ =~= other.subrange(n, n + 32));
        assert(q.0@ =~= one.subrange(n + 32, n + 64));
        assert(s.0@ =~= other.subrange(n + 32, n + 64));
        assert(e =~= one.subrange(n + 64, one.len() as int));
        assert(f =~= other.subrange(n + 64, other.len() as int));
        assert(p.0 =~= r.0);
        assert(q.0 =~= s.0);
        assert(p == r && q == s);
    }
}

/// The code is what the first four bytes of the digest leave when they are divided by a
/// million, read with the least significant byte first.
pub proof fn law_codes_are_six_digits_of_the_digest(d: Seq<u8>)
    requires
        d.len() >= 4,
    ensures
        0 <= sas_code(d) < 1_000_000,
        (d[0] + 256 * d[1] + 65_536 * d[2] + 16_777_216 * d[3] - sas_code(d)) % 1_000_000 == 0,
{
}

/// A code is shown with all of its digits in their order: without the space it is its
/// decimal form, with zeros in front.
pub proof fn law_codes_are_shown_in_full(n: nat)
    requires
        n < 1_000_000,
    ensures
        ({
            let s = shown(n);
            let digits = s.subrange(0, 3) + s.subrange(4, 7);
            let k = decimal(n).len() as int;
            &&& s.len() == 7
            &&& s[3] == ' '
            &&& 0 < k <= 6
            &&& digits.subrange(6 - k, 6) == decimal(n)
            &&& forall|i: int| 0 <= i < 6 - k ==> digits[i] == '0'
        }),
{
    law_codes_have_six_digits(n);
    crate::text::lemma_decimal_nonempty(n);
    let s = shown(n);
    let digits = s.subrange(0, 3) + s.subrange(4, 7);
    let k = decimal(n).len() as int;
    assert(digits =~= six_digits(n));
    assert(digits.subrange(6 - k, 6) =~= decimal(n));
}

} // verus!
