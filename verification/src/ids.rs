//! Stable identifiers of devices and monitors.

use crate::hexcodec::{hex_decode, hex_encode, hex_text, is_hex_decoded, HexError};
use crate::text::{decimal, push_decimal};
use vstd::prelude::*;

verus! {

/// A stable identifier of one installation.
///
/// It is drawn once, on the first run, and kept. It does not depend on the
/// network, so a device keeps its identity when its address changes.
#[derive(Clone, Copy, Debug, Hash)]
pub struct DeviceId(pub [u8; 16]);

/// Sixteen random bytes from `rand::thread_rng`. Nothing is promised of them.
#[verifier::external_body]
fn random_bytes() -> (b: [u8; 16]) {
    let mut bytes = [0u8; 16];
    rand::Rng::fill(&mut rand::thread_rng(), &mut bytes);
    bytes
}

/// Whether two arrays hold the same bytes.
pub fn same_bytes<const N: usize>(a: &[u8; N], b: &[u8; N]) -> (r: bool)
    ensures
        r == (*a == *b),
{
    let mut i: usize = 0;
    while i < N
        invariant
            0 <= i <= N,
            forall|j: int| 0 <= j < i ==> a@[j] == b@[j],
        decreases N - i,
    {
        if a[i] != b[i] {
            assert(a@[i as int] != b@[i as int]);
            return false;
        }
        i = i + 1;
    }
    assert(a@ =~= b@);
    assert(*a =~= *b);
    true
}

impl PartialEq for DeviceId {
    fn eq(&self, other: &Self) -> (r: bool) {
        same_bytes(&self.0, &other.0)
    }
}

impl vstd::std_specs::cmp::PartialEqSpecImpl for DeviceId {
    open spec fn obeys_eq_spec() -> bool {
        true
    }

    open spec fn eq_spec(&self, other: &Self) -> bool {
        self.0 == other.0
    }
}

impl Eq for DeviceId {

}

impl DeviceId {
    /// A fresh random id, to be drawn once per installation and kept.
    pub fn generate() -> (id: Self) {
        DeviceId(random_bytes())
    }

    pub fn from_bytes(bytes: [u8; 16]) -> (id: Self)
        ensures
            id == DeviceId(bytes),
    {
        DeviceId(bytes)
    }

    pub fn as_bytes(&self) -> (b: &[u8; 16])
        ensures
            *b == self.0,
    {
        &self.0
    }

    /// The first four bytes in hexadecimal: the form shown to people.
    pub fn short(&self) -> (s: String)
        ensures
            s@ == hex_text(self.0@.subrange(0, 4)),
    {
        hex_encode(vstd::slice::slice_subrange(self.0.as_slice(), 0, 4))
    }

    /// All sixteen bytes in hexadecimal.
    pub fn to_hex(&self) -> (s: String)
        ensures
            s@ == hex_text(self.0@),
    {
        hex_encode(self.0.as_slice())
    }

    /// The id that 32 hexadecimal digits of either case spell.
    pub fn from_hex(s: &str) -> (r: Result<Self, HexError>)
        ensures
            is_hex_decoded(
                vstd::utf8::encode_utf8(s@),
                16,
                match r {
                    Ok(id) => Ok(id.0@),
                    Err(e) => Err(e),
                },
            ),
    {
        match hex_decode::<16>(s.as_bytes()) {
            Ok(bytes) => Ok(DeviceId(bytes)),
            Err(e) => Err(e),
        }
    }
}

impl std::str::FromStr for DeviceId {
    type Err = HexError;

    fn from_str(s: &str) -> Result<Self, HexError> {
        DeviceId::from_hex(s)
    }
}

/// One monitor of the virtual desktop: the device it is plugged into, and its
/// place in that device's own enumeration.
#[derive(Clone, Copy, Debug, Hash)]
pub struct MonitorId {
    pub device: DeviceId,
    pub index: u16,
}

impl PartialEq for MonitorId {
    fn eq(&self, other: &Self) -> (r: bool) {
        self.device == other.device && self.index == other.index
    }
}

impl vstd::std_specs::cmp::PartialEqSpecImpl for MonitorId {
    open spec fn obeys_eq_spec() -> bool {
        true
    }

    open spec fn eq_spec(&self, other: &Self) -> bool {
        self.device.0 == other.device.0 && self.index == other.index
    }
}

impl Eq for MonitorId {

}

impl MonitorId {
    pub fn new(device: DeviceId, index: u16) -> (id: Self)
        ensures
            id == (MonitorId { device, index }),
    {
        MonitorId { device, index }
    }

    /// The short form of the device, a colon, and the index.
    pub fn text(&self) -> (s: String)
        ensures
            s@ == hex_text(self.device.0@.subrange(0, 4)).push(':') + decimal(self.index as nat),
    {
        let mut s = self.device.short();
        s.push(':');
        push_decimal(&mut s, self.index as u64);
        s
    }
}

} // verus!
