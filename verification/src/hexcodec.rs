//! Hexadecimal text for identifiers and fingerprints.

use vstd::prelude::*;

verus! {

/// Why a piece of text is not the hexadecimal form of `N` bytes.
#[derive(Clone, Copy, Debug, PartialEq, Eq, Structural)]
pub enum HexError {
    /// A byte that is no hexadecimal digit, and where it stands.
    InvalidHexCharacter { c: char, index: usize },
    /// Two digits make a byte, so their number is even.
    OddLength,
    /// The digits make more or fewer bytes than asked for.
    InvalidStringLength,
}

/// The lower-case digit of value `n`.
pub open spec fn hex_digit(n: int) -> char {
    if n < 10 {
        ('0' as int + n) as char
    } else {
        ('a' as int + (n - 10)) as char
    }
}

/// Two lower-case digits for each byte, the high half first.
pub open spec fn hex_text(b: Seq<u8>) -> Seq<char> {
    Seq::new(
        2 * b.len(),
        |i: int|
            hex_digit(
                if i % 2 == 0 {
                    b[i / 2] as int / 16
                } else {
                    b[i / 2] as int % 16
                },
            ),
    )
}

/// The value of a digit of either case.
pub open spec fn hex_value(c: u8) -> Option<int> {
    if 0x30 <= c <= 0x39 {
        Some(c - 0x30)
    } else if 0x41 <= c <= 0x46 {
        Some(c - 0x41 + 10)
    } else if 0x61 <= c <= 0x66 {
        Some(c - 0x61 + 10)
    } else {
        None
    }
}

/// `i` is the first position that holds no digit.
pub open spec fn first_bad_digit(data: Seq<u8>, i: int) -> bool {
    &&& 0 <= i < data.len()
    &&& hex_value(data[i]) is None
    &&& forall|j: int| 0 <= j < i ==> hex_value(#[trigger] data[j]) is Some
}

/// The byte whose two digits start at position `2 * i`.
pub open spec fn hex_byte(data: Seq<u8>, i: int) -> int {
    16 * hex_value(data[2 * i])->0 + hex_value(data[2 * i + 1])->0
}

/// What decoding `data` into `n` bytes gives.
pub open spec fn is_hex_decoded(data: Seq<u8>, n: nat, r: Result<Seq<u8>, HexError>) -> bool {
    match r {
        Ok(b) => {
            &&& data.len() == 2 * n
            &&& forall|j: int| 0 <= j < data.len() ==> hex_value(#[trigger] data[j]) is Some
            &&& b.len() == n
            &&& forall|i: int| 0 <= i < n ==> #[trigger] b[i] as int == hex_byte(data, i)
        },
        Err(HexError::OddLength) => data.len() % 2 != 0,
        Err(HexError::InvalidStringLength) => data.len() % 2 == 0 && data.len() != 2 * n,
        Err(HexError::InvalidHexCharacter { c, index }) => {
            &&& data.len() == 2 * n
            &&& first_bad_digit(data, index as int)
            &&& c == data[index as int] as char
        },
    }
}

/// `hex::encode`: the lower-case text of `data`, two digits a byte.
#[verifier::external_body]
pub(crate) fn hex_encode(data: &[u8]) -> (s: String)
    ensures
        s@ == hex_text(data@),
{
    hex::encode(data)
}

/// `hex::decode_to_slice` into a fresh array: the bytes that the digits spell,
/// or, in this order of precedence, an odd number of digits, a number of digits
/// other than `2 * N`, or the first byte that is no digit.
#[verifier::external_body]
pub(crate) fn hex_decode<const N: usize>(data: &[u8]) -> (r: Result<[u8; N], HexError>)
    ensures
        is_hex_decoded(
            data@,
            N as nat,
            match r {
                Ok(b) => Ok(b@),
                Err(e) => Err(e),
            },
        ),
{
    let mut out = [0u8; N];
    match hex::decode_to_slice(data, &mut out) {
        Ok(()) => Ok(out),
        Err(hex::FromHexError::OddLength) => Err(HexError::OddLength),
        Err(hex::FromHexError::InvalidStringLength) => Err(HexError::InvalidStringLength),
        Err(hex::FromHexError::InvalidHexCharacter { c, index }) => Err(HexError::InvalidHexCharacter { c, index }),
    }
}

/// Every byte string survives the way through its text: decoding the bytes of
/// the text of `b` gives `b` back, and nothing else.
pub proof fn law_hex_round_trip(b: Seq<u8>, r: Result<Seq<u8>, HexError>)
    requires
        is_hex_decoded(Seq::new(2 * b.len(), |i: int| hex_text(b)[i] as u8), b.len(), r),
    ensures
        r == Ok::<Seq<u8>, HexError>(b),
{
    let data = Seq::new(2 * b.len(), |i: int| hex_text(b)[i] as u8);
    assert forall|j: int| 0 <= j < data.len() implies hex_value(#[trigger] data[j]) == Some(
        if j % 2 == 0 {
            b[j / 2] as int / 16
        } else {
            b[j / 2] as int % 16
        },
    ) by {
        let n = if j % 2 == 0 {
            b[j / 2] as int / 16
        } else {
            b[j / 2] as int % 16
        };
        assert(0 <= n < 16);
        assert(hex_text(b)[j] == hex_digit(n));
    }
    match r {
        Ok(d) => {
            assert forall|i: int| 0 <= i < b.len() implies #[trigger] d[i] == b[i] by {
                assert(d[i] as int == hex_byte(data, i));
                assert(hex_value(data[2 * i]) is Some);
                assert(hex_value(data[2 * i + 1]) is Some);
            }
            assert(d =~= b);
        },
        Err(HexError::InvalidHexCharacter { c, index }) => {
            assert(hex_value(data[index as int]) is Some);
        },
        _ => {},
    }
}

/// The text of `b` is made of single-byte characters.
pub proof fn lemma_hex_text_bytes(b: Seq<u8>)
    ensures
        vstd::utf8::encode_utf8(hex_text(b)) == Seq::new(
            2 * b.len(),
            |i: int| hex_text(b)[i] as u8,
        ),
{
    let t = hex_text(b);
    assert forall|i: int| 0 <= i < t.len() implies 0 <= #[trigger] t[i] as u32 <= 127 by {
        let n = if i % 2 == 0 {
            b[i / 2] as int / 16
        } else {
            b[i / 2] as int % 16
        };
        assert(0 <= n < 16);
        assert(t[i] == hex_digit(n));
    }
    assert(vstd::utf8::is_ascii_chars(t));
    vstd::utf8::is_ascii_chars_encode_utf8(t);
    assert forall|i: int| 0 <= i < t.len() implies vstd::utf8::encode_utf8(t)[i]
        == #[trigger] t[i] as u8 by {}
    assert(vstd::utf8::encode_utf8(t) =~= Seq::new(2 * b.len(), |i: int| hex_text(b)[i] as u8));
}

/// The text of bytes, read as text, gives the bytes back.
pub proof fn law_hex_text_reads_back(b: Seq<u8>, r: Result<Seq<u8>, HexError>)
    requires
        is_hex_decoded(vstd::utf8::encode_utf8(hex_text(b)), b.len(), r),
    ensures
        r == Ok::<Seq<u8>, HexError>(b),
{
    lemma_hex_text_bytes(b);
    law_hex_round_trip(b, r);
}

/// The digits are `0` to `9` and then the letters `a` to `f`; capitals are read as well,
/// and nothing else is.
pub proof fn law_these_are_the_digits(n: int, c: u8)
    ensures
        0 <= n < 10 ==> hex_digit(n) as int == 48 + n,
        10 <= n < 16 ==> hex_digit(n) as int == 97 + (n - 10),
        hex_value(c) is Some <==> 48 <= c <= 57 || 65 <= c <= 70 || 97 <= c <= 102,
        48 <= c <= 57 ==> hex_value(c) == Some(c - 48),
        65 <= c <= 70 ==> hex_value(c) == Some(c - 55),
        97 <= c <= 102 ==> hex_value(c) == Some(c - 87),
{
}

/// Of the two digits of a byte the first counts sixteen times.
pub proof fn law_the_high_half_comes_first(b: Seq<u8>, i: int)
    requires
        0 <= i < b.len(),
    ensures
        hex_text(b).len() == 2 * b.len(),
        ({
            let h = hex_value(hex_text(b)[2 * i] as u8);
            let l = hex_value(hex_text(b)[2 * i + 1] as u8);
            h is Some && l is Some && 16 * h->0 + l->0 == b[i]
        }),
        hex_byte(Seq::new(hex_text(b).len(), |k: int| hex_text(b)[k] as u8), i) == b[i],
{
    assert((2 * i) / 2 == i && (2 * i) % 2 == 0);
    assert((2 * i + 1) / 2 == i && (2 * i + 1) % 2 == 1);
    let h = b[i] as int / 16;
    let l = b[i] as int % 16;
    assert(hex_text(b)[2 * i] == hex_digit(h));
    assert(hex_text(b)[2 * i + 1] == hex_digit(l));
}

} // verus!
