//! The end of a connection: who is let in, and which stream carries what.

use crate::digest::blake3_hash;
use crate::framing::{be32_value, read_be32, FrameError, MAX_FRAME_LEN};
use crate::hexcodec::hex_text;
use crate::ids::DeviceId;
use crate::message::Channel;
use crate::text::{decimal, push_decimal};
use crate::trust::{
    one_record_each, pinned_from, trusts, CertFingerprint, TrustStore, TrustedDevice,
};
use vstd::prelude::*;

verus! {

/// Why a session fails.
#[derive(Debug)]
pub enum SessionError {
    Closed,
    NoChannel(Channel),
    Framing(FrameError),
    Transport(String),
}

/// The protocol that both ends agree on.
pub const ALPN: &'static str = "deskoryn/1";

/// Under this label both ends draw the secret that the pairing code depends on.
pub const BINDING_LABEL: &'static str = "deskoryn-pairing-sas-v1";

/// The number of channels of a session.
pub const CHANNEL_COUNT: u8 = 5;

/// The number by which the stream of a channel begins.
pub open spec fn id_of(c: Channel) -> u8 {
    match c {
        Channel::Control => 0,
        Channel::Input => 1,
        Channel::Clipboard => 2,
        Channel::FileXfer => 3,
        Channel::Audio => 4,
    }
}

/// The number by which the stream of a channel begins.
pub fn channel_id(c: Channel) -> (id: u8)
    ensures
        id == id_of(c),
{
    match c {
        Channel::Control => 0,
        Channel::Input => 1,
        Channel::Clipboard => 2,
        Channel::FileXfer => 3,
        Channel::Audio => 4,
    }
}

/// The streams of a session that nobody has taken yet, by their numbers.
#[derive(Debug)]
pub struct ChannelSlots {
    waiting: Vec<bool>,
}

impl ChannelSlots {
    pub closed spec fn wf(self) -> bool {
        self.waiting@.len() == 256
    }

    /// The stream with this number is there to be taken.
    pub closed spec fn has(self, id: u8) -> bool {
        self.waiting@[id as int]
    }

    /// The streams whose first bytes were these numbers.
    pub fn from_tags(tags: &Vec<u8>) -> (s: Self)
        ensures
            s.wf(),
            forall|id: u8| s.has(id) == tags@.contains(id),
    {
        let mut waiting: Vec<bool> = Vec::new();
        let mut i: usize = 0;
        while i < 256
            invariant
                0 <= i <= 256,
                waiting@.len() == i,
                forall|j: int| 0 <= j < i ==> !waiting@[j],
            decreases 256 - i,
        {
            waiting.push(false);
            i = i + 1;
        }
        let mut k: usize = 0;
        while k < tags.len()
            invariant
                0 <= k <= tags.len(),
                waiting@.len() == 256,
                forall|id: u8|
                    #[trigger] waiting@[id as int] == (exists|j: int|
                        0 <= j < k && tags@[j] == id),
            decreases tags.len() - k,
        {
            let ghost before = waiting@;
            let tag: u8 = tags[k];
            waiting.set(tag as usize, true);
            proof {
                assert forall|id: u8| #[trigger] waiting@[id as int] == (exists|j: int|
                    0 <= j < k + 1 && tags@[j] == id) by {
                    if id == tag {
                        assert(tags@[k as int] == id);
                    } else {
                        assert(waiting@[id as int] == before[id as int]);
                        if exists|j: int| 0 <= j < k + 1 && tags@[j] == id {
                            let j = choose|j: int| 0 <= j < k + 1 && tags@[j] == id;
                            assert(0 <= j < k && tags@[j] == id);
                        }
                    }
                }
            }
            k = k + 1;
        }
        let s = ChannelSlots { waiting };
        proof {
            assert forall|id: u8| s.has(id) == tags@.contains(id) by {
                assert(s.has(id) == waiting@[id as int]);
            }
        }
        s
    }

    /// The numbers that the dialling end begins its streams with.
    pub fn dialled() -> (tags: Vec<u8>)
        ensures
            tags@ == seq![0u8, 1, 2, 3, 4],
    {
        vec![0, 1, 2, 3, 4]
    }

    /// Takes the stream of a channel. It can be taken once.
    pub fn take(&mut self, c: Channel) -> (r: Result<(), SessionError>)
        requires
            old(self).wf(),
        ensures
            final(self).wf(),
            r == if old(self).has(id_of(c)) {
                Ok::<(), SessionError>(())
            } else {
                Err(SessionError::NoChannel(c))
            },
            forall|id: u8| final(self).has(id) == (old(self).has(id) && id != id_of(c)),
    {
        let id: usize = channel_id(c) as usize;
        if self.waiting[id] {
            self.waiting.set(id, false);
            Ok(())
        } else {
            Err(SessionError::NoChannel(c))
        }
    }
}

/// What a stream says when a frame is announced that is too large.
pub open spec fn too_large_text(n: nat) -> Seq<char> {
    "frame too large: "@ + decimal(n)
}

/// The length of the body that four bytes announce. A frame that is too large is
/// refused before any of it is read.
pub fn announced_len(header: &[u8]) -> (r: Result<usize, SessionError>)
    requires
        header@.len() == 4,
    ensures
        match r {
            Ok(n) => n == be32_value(header@) && n <= MAX_FRAME_LEN,
            Err(SessionError::Transport(t)) => {
                &&& be32_value(header@) > MAX_FRAME_LEN
                &&& t@ == too_large_text(be32_value(header@) as nat)
            },
            Err(_) => false,
        },
{
    let len: usize = read_be32(header) as usize;
    if len > MAX_FRAME_LEN {
        let mut t = "frame too large: ".to_owned();
        push_decimal(&mut t, len as u64);
        return Err(SessionError::Transport(t));
    }
    Ok(len)
}

// --- Identity ----------------------------------------------------------------

/// A certificate of one's own, its private key, and its fingerprint.
#[derive(Debug)]
pub struct DeviceIdentity {
    pub cert_der: Vec<u8>,
    pub key_der: Vec<u8>,
    pub fingerprint: CertFingerprint,
}

/// The name in a device's certificate.
pub fn subject_name(device: DeviceId) -> (s: String)
    ensures
        s@ == "deskoryn-"@ + hex_text(device.0@),
{
    let mut s = "deskoryn-".to_owned();
    s.append(device.to_hex().as_str());
    s
}

/// `rcgen::generate_simple_self_signed`: a fresh key, and a certificate for
/// `subject` signed with it, both in DER; or what went wrong. The key is random,
/// so nothing is promised of either.
#[verifier::external_body]
fn self_signed(subject: String) -> (r: Result<(Vec<u8>, Vec<u8>), String>) {
    match rcgen::generate_simple_self_signed(vec![subject]) {
        Ok(c) => Ok((c.cert.der().to_vec(), c.key_pair.serialize_der())),
        Err(e) => Err(e.to_string()),
    }
}

impl DeviceIdentity {
    /// The fingerprint is that of the certificate.
    pub open spec fn wf(self) -> bool {
        self.fingerprint.0@ == blake3_hash(self.cert_der@)
    }

    /// The identity with this certificate and this key.
    pub fn from_parts(cert_der: Vec<u8>, key_der: Vec<u8>) -> (id: Self)
        ensures
            id.wf(),
            id.cert_der == cert_der,
            id.key_der == key_der,
    {
        let fingerprint = CertFingerprint::of_der(cert_der.as_slice());
        DeviceIdentity { cert_der, key_der, fingerprint }
    }

    /// A fresh identity, with a certificate that names the device.
    pub fn generate(device: DeviceId) -> (r: Result<Self, SessionError>)
        ensures
            match r {
                Ok(id) => id.wf(),
                Err(e) => e is Transport,
            },
    {
        match self_signed(subject_name(device)) {
            Ok((cert_der, key_der)) => Ok(DeviceIdentity::from_parts(cert_der, key_der)),
            Err(e) => Err(SessionError::Transport(e)),
        }
    }

    /// The identity that was kept, or a fresh one where the certificate or the key
    /// is missing. Says whether it is fresh, and so to be kept.
    pub fn load_or_generate(
        device: DeviceId,
        cert: Option<Vec<u8>>,
        key: Option<Vec<u8>>,
    ) -> (r: Result<(Self, bool), SessionError>)
        ensures
            match (cert, key) {
                (Some(c), Some(k)) => {
                    &&& r matches Ok((id, fresh))
                    &&& id.wf()
                    &&& id.cert_der == c
                    &&& id.key_der == k
                    &&& !fresh
                },
                _ => match r {
                    Ok((id, fresh)) => id.wf() && fresh,
                    Err(e) => e is Transport,
                },
            },
    {
        match (cert, key) {
            (Some(c), Some(k)) => Ok((DeviceIdentity::from_parts(c, k), false)),
            _ => match DeviceIdentity::generate(device) {
                Ok(id) => Ok((id, true)),
                Err(e) => Err(e),
            },
        }
    }
}

/// The fingerprint of a peer, by the first certificate of the chain that it
/// presented.
pub fn peer_fingerprint(chain: Option<&Vec<Vec<u8>>>) -> (r: Result<CertFingerprint, SessionError>)
    ensures
        match chain {
            Some(certs) if certs@.len() > 0 => r matches Ok(fp) && fp.0@ == blake3_hash(
                certs@[0]@,
            ),
            Some(_) => r matches Err(SessionError::Transport(t)) && t@
                == "empty peer certificate chain"@,
            None => r matches Err(SessionError::Transport(t)) && t@
                == "peer presented no certificate"@,
        },
{
    match chain {
        Some(certs) => {
            if certs.len() == 0 {
                return Err(SessionError::Transport("empty peer certificate chain".to_owned()));
            }
            Ok(CertFingerprint::of_der(certs[0].as_slice()))
        },
        None => Err(SessionError::Transport("peer presented no certificate".to_owned())),
    }
}

// --- Who is let in -----------------------------------------------------------

/// The answer to a peer that was dialled as `expect`.
pub open spec fn is_admitted_as(
    ds: Seq<TrustedDevice>,
    expect: DeviceId,
    presented: CertFingerprint,
    r: Result<DeviceId, SessionError>,
) -> bool {
    match r {
        Ok(id) => id == expect && trusts(ds, expect, presented),
        Err(SessionError::Transport(t)) => {
            &&& !trusts(ds, expect, presented)
            &&& t@ == "peer "@ + hex_text(expect.0@.subrange(0, 4))
                + " presented an unpinned certificate"@
        },
        Err(_) => false,
    }
}

/// Lets a peer in that was dialled as `expect`, where it presents the certificate
/// that is pinned to it.
pub fn admit_expected(trust: &TrustStore, expect: DeviceId, presented: &CertFingerprint) -> (r:
    Result<DeviceId, SessionError>)
    ensures
        is_admitted_as(trust.devices@, expect, *presented, r),
{
    if trust.verify(expect, presented) {
        return Ok(expect);
    }
    let mut t = "peer ".to_owned();
    t.append(expect.short().as_str());
    t.append(" presented an unpinned certificate");
    Err(SessionError::Transport(t))
}

/// The answer to a peer that presents a certificate.
pub open spec fn is_admitted(
    ds: Seq<TrustedDevice>,
    presented: CertFingerprint,
    dialled: bool,
    r: Result<DeviceId, SessionError>,
) -> bool {
    match pinned_from(ds, presented, 0) {
        Some(i) => r == Ok::<DeviceId, SessionError>(ds[i].id),
        None => r matches Err(SessionError::Transport(t)) && t@ == if dialled {
            "peer at address is not paired"@
        } else {
            "rejected unpaired peer"@
        },
    }
}

/// Lets a peer in whose certificate is pinned to some device, and says which.
pub fn admit_known(trust: &TrustStore, presented: &CertFingerprint, dialled: bool) -> (r: Result<
    DeviceId,
    SessionError,
>)
    ensures
        is_admitted(trust.devices@, *presented, dialled, r),
{
    match trust.by_fingerprint(presented) {
        Some(id) => Ok(id),
        None => if dialled {
            Err(SessionError::Transport("peer at address is not paired".to_owned()))
        } else {
            Err(SessionError::Transport("rejected unpaired peer".to_owned()))
        },
    }
}

/// What becomes of a connection that came in.
#[derive(Clone, Copy, Debug, PartialEq)]
pub enum Accepted {
    /// A paired device: a session begins.
    Session(DeviceId),
    /// A stranger, while this device waits to be paired.
    Pair,
    /// A stranger.
    Drop,
}

/// What becomes of a connection that came in.
pub open spec fn accepted(
    ds: Seq<TrustedDevice>,
    presented: CertFingerprint,
    discoverable: bool,
) -> Accepted {
    match pinned_from(ds, presented, 0) {
        Some(i) => Accepted::Session(ds[i].id),
        None => if discoverable {
            Accepted::Pair
        } else {
            Accepted::Drop
        },
    }
}

/// Decides what becomes of a connection that came in: a paired device gets a
/// session, and a stranger is paired only while this device waits for one.
pub fn accept_any(trust: &TrustStore, presented: &CertFingerprint, discoverable: bool) -> (r:
    Accepted)
    ensures
        r == accepted(trust.devices@, *presented, discoverable),
{
    match trust.by_fingerprint(presented) {
        Some(id) => Accepted::Session(id),
        None => if discoverable {
            Accepted::Pair
        } else {
            Accepted::Drop
        },
    }
}

proof fn lemma_pinned_from(ds: Seq<TrustedDevice>, fp: CertFingerprint, i: int)
    requires
        0 <= i <= ds.len(),
    ensures
        match pinned_from(ds, fp, i) {
            Some(k) => i <= k < ds.len() && ds[k].fingerprint == fp,
            None => forall|j: int| i <= j < ds.len() ==> (#[trigger] ds[j]).fingerprint != fp,
        },
    decreases ds.len() - i,
{
    if i < ds.len() && ds[i].fingerprint != fp {
        lemma_pinned_from(ds, fp, i + 1);
    }
}

/// A certificate that is pinned to nobody gets nobody in, and one that is pinned
/// gets in the device that it is pinned to.
pub proof fn law_only_pinned_certificates_get_in(ds: Seq<TrustedDevice>, fp: CertFingerprint)
    requires
        one_record_each(ds),
    ensures
        match pinned_from(ds, fp, 0) {
            Some(i) => 0 <= i < ds.len() && trusts(ds, ds[i].id, fp),
            None => forall|id: DeviceId| !trusts(ds, id, fp),
        },
{
    lemma_pinned_from(ds, fp, 0);
    match pinned_from(ds, fp, 0) {
        Some(i) => {
            crate::trust::lemma_record_from(ds, ds[i].id, 0);
        },
        None => {
            assert forall|id: DeviceId| !trusts(ds, id, fp) by {
                crate::trust::lemma_record_from(ds, id, 0);
            }
        },
    }
}

/// Every channel has a number of its own, below the number of channels, and the
/// dialling end opens a stream for each.
pub proof fn law_channels_have_their_own_streams(a: Channel, b: Channel)
    ensures
        id_of(a) < CHANNEL_COUNT,
        id_of(a) == id_of(b) ==> a == b,
        seq![0u8, 1, 2, 3, 4].contains(id_of(a)),
{
    let s = seq![0u8, 1, 2, 3, 4];
    assert(s[id_of(a) as int] == id_of(a));
}

/// A device whose certificate is pinned gets a session, whether or not this one waits to
/// be paired; a stranger is paired exactly while this one waits, and is else dropped.
pub proof fn law_strangers_are_paired_only_while_waited_for(
    ds: Seq<TrustedDevice>,
    fp: CertFingerprint,
    discoverable: bool,
    k: int,
)
    ensures
        0 <= k < ds.len() && ds[k].fingerprint == fp && (forall|j: int|
            0 <= j < k ==> (#[trigger] ds[j]).fingerprint != fp) ==> accepted(ds, fp, discoverable)
            == Accepted::Session(ds[k].id),
        (forall|j: int| 0 <= j < ds.len() ==> (#[trigger] ds[j]).fingerprint != fp) ==> accepted(
            ds,
            fp,
            true,
        ) == Accepted::Pair && accepted(ds, fp, false) == Accepted::Drop,
{
    if 0 <= k < ds.len() {
        crate::trust::law_certificates_lead_to_their_device(ds, fp, k);
    }
    if let Some(i) = pinned_from(ds, fp, 0) {
        lemma_pinned_from(ds, fp, 0);
    }
}

/// The channels by the numbers that their streams begin with.
pub proof fn law_channels_by_their_numbers(c: Channel)
    ensures
        id_of(c) == 0 <==> c == Channel::Control,
        id_of(c) == 1 <==> c == Channel::Input,
        id_of(c) == 2 <==> c == Channel::Clipboard,
        id_of(c) == 3 <==> c == Channel::FileXfer,
        id_of(c) == 4 <==> c == Channel::Audio,
{
}

/// A peer that was dialled by its id gets in as that device, exactly where it presents the
/// certificate that is pinned to it; no other certificate will do, not even one that is
/// pinned to another device.
pub proof fn law_dialled_peers_are_who_they_should_be(
    ds: Seq<TrustedDevice>,
    expect: DeviceId,
    presented: CertFingerprint,
    r: Result<DeviceId, SessionError>,
)
    requires
        is_admitted_as(ds, expect, presented, r),
    ensures
        r is Ok <==> trusts(ds, expect, presented),
        r matches Ok(id) ==> id == expect,
{
}

/// A peer gets in as the device that its certificate is pinned to, and one whose certificate
/// is pinned to none stays out, whoever dialled.
pub proof fn law_known_peers_get_in(
    ds: Seq<TrustedDevice>,
    presented: CertFingerprint,
    dialled: bool,
    r: Result<DeviceId, SessionError>,
)
    requires
        is_admitted(ds, presented, dialled, r),
    ensures
        r is Ok <==> pinned_from(ds, presented, 0) is Some,
        r matches Ok(id) ==> id == ds[pinned_from(ds, presented, 0)->0].id,
{
}

} // verus!
