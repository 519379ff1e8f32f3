//! Lists of files on the clipboard: `file://` URIs, one to a line.

use crate::conflict::texts;
use crate::text::{
    chars_of, first_of_from, is_space, lines, split_at_char, split_lines, string_of, trim, trimmed,
    views, without_cr,
};
use vstd::prelude::*;
use vstd::utf8::{decode_utf8, encode_utf8, is_ascii_chars, valid_utf8};

verus! {

/// What `String::from_utf8_lossy` reads `bytes` as.
pub uninterp spec fn utf8_lossy(bytes: Seq<u8>) -> Seq<char>;

/// `String::from_utf8_lossy`: the text that the bytes encode, where they are
/// valid UTF-8. What it puts in place of bytes that are not is left to the name
/// `utf8_lossy`.
#[verifier::external_body]
fn text_lossy(bytes: &[u8]) -> (s: String)
    ensures
        s@ == utf8_lossy(bytes@),
        valid_utf8(bytes@) ==> s@ == decode_utf8(bytes@),
{
    String::from_utf8_lossy(bytes).into_owned()
}

/// `String::from_utf8`: the text that the bytes encode; none where they are not
/// valid UTF-8.
#[verifier::external_body]
fn text_from_utf8(bytes: Vec<u8>) -> (r: Option<String>)
    ensures
        match r {
            Some(s) => valid_utf8(bytes@) && s@ == decode_utf8(bytes@),
            None => !valid_utf8(bytes@),
        },
{
    String::from_utf8(bytes).ok()
}

// --- Percent encoding --------------------------------------------------------

/// A byte that stands for itself in a URI path.
pub open spec fn is_plain(b: u8) -> bool {
    ||| 0x41 <= b <= 0x5a
    ||| 0x61 <= b <= 0x7a
    ||| 0x30 <= b <= 0x39
    ||| b == 0x2d  // -
    ||| b == 0x5f  // _
    ||| b == 0x2e  // .
    ||| b == 0x7e  // ~
    ||| b == 0x2f  // the slash

}

/// The upper-case hexadecimal digit of value `n`.
pub open spec fn hex_upper(n: int) -> u8 {
    if n < 10 {
        (0x30 + n) as u8
    } else {
        (0x41 + (n - 10)) as u8
    }
}

/// The value of a hexadecimal digit of either case.
pub open spec fn hex_of(b: u8) -> Option<int> {
    crate::hexcodec::hex_value(b)
}

/// A byte in a URI: itself, or a percent sign and two digits.
pub open spec fn escaped(b: u8) -> Seq<u8> {
    if is_plain(b) {
        seq![b]
    } else {
        seq![0x25u8, hex_upper(b as int / 16), hex_upper(b as int % 16)]
    }
}

/// All bytes, each as it stands in a URI.
pub open spec fn escaped_all(s: Seq<u8>) -> Seq<u8>
    decreases s.len(),
{
    if s.len() == 0 {
        s
    } else {
        escaped_all(s.drop_last()) + escaped(s.last())
    }
}

/// The bytes that an encoded path stands for, from position `i` on: a percent
/// sign that two more characters follow stands for the byte that they spell, and
/// anything else for itself. None where they spell no byte.
pub open spec fn unescaped(s: Seq<u8>, i: int) -> Option<Seq<u8>>
    decreases s.len() - i,
{
    if i < 0 || i >= s.len() {
        Some(Seq::empty())
    } else if s[i] == 0x25 && i + 2 < s.len() {
        match (hex_of(s[i + 1]), hex_of(s[i + 2]), unescaped(s, i + 3)) {
            (Some(h), Some(l), Some(rest)) => Some(seq![(h * 16 + l) as u8] + rest),
            _ => None,
        }
    } else {
        match unescaped(s, i + 1) {
            Some(rest) => Some(seq![s[i]] + rest),
            None => None,
        }
    }
}

/// ASCII bytes as characters.
pub open spec fn as_chars(b: Seq<u8>) -> Seq<char> {
    b.map_values(|x: u8| x as char)
}

/// The URI of an absolute path.
pub open spec fn uri(path: Seq<char>) -> Seq<char> {
    "file://"@ + as_chars(escaped_all(encode_utf8(path)))
}

fn hex_digit_of(n: u8) -> (d: u8)
    requires
        n < 16,
    ensures
        d == hex_upper(n as int),
        d < 0x80,
{
    if n < 10 {
        48 + n
    } else {
        65 + (n - 10)
    }
}

/// The URI of an absolute path: everything but letters, digits, `-`, `_`, `.`,
/// `~` and the slash is percent-encoded.
pub fn from_path(p: &str) -> (s: String)
    ensures
        s@ == uri(p@),
{
    let mut s = "file://".to_owned();
    let bytes = p.as_bytes();
    let ghost head = "file://"@;
    let mut i: usize = 0;
    assert(s@ =~= head + as_chars(escaped_all(bytes@.subrange(0, 0))));
    while i < bytes.len()
        invariant
            0 <= i <= bytes.len(),
            s@ =~= head + as_chars(escaped_all(bytes@.subrange(0, i as int))),
        decreases bytes.len() - i,
    {
        proof {
            let now = bytes@.subrange(0, i + 1);
            assert(now.drop_last() =~= bytes@.subrange(0, i as int));
            assert(now.last() == bytes@[i as int]);
        }
        let b = bytes[i];
        let plain = (0x41 <= b && b <= 0x5a) || (0x61 <= b && b <= 0x7a) || (0x30 <= b && b <= 0x39)
            || b == 0x2d || b == 0x5f || b == 0x2e || b == 0x7e || b == 0x2f;
        if plain {
            s.push(b as char);
        } else {
            s.push('%');
            s.push(hex_digit_of(b / 16) as char);
            s.push(hex_digit_of(b % 16) as char);
        }
        i = i + 1;
    }
    assert(bytes@.subrange(0, bytes@.len() as int) =~= bytes@);
    s
}

fn hex(b: u8) -> (r: Option<u8>)
    ensures
        match r {
            Some(v) => hex_of(b) == Some(v as int) && v < 16,
            None => hex_of(b) is None,
        },
{
    if 0x30 <= b && b <= 0x39 {
        Some(b - 0x30)
    } else if 0x61 <= b && b <= 0x66 {
        Some(b - 0x61 + 10)
    } else if 0x41 <= b && b <= 0x46 {
        Some(b - 0x41 + 10)
    } else {
        None
    }
}

/// The text that an encoded path stands for.
pub open spec fn percent_decoded(s: Seq<char>) -> Option<Seq<char>> {
    match unescaped(encode_utf8(s), 0) {
        Some(b) => if valid_utf8(b) {
            Some(decode_utf8(b))
        } else {
            None
        },
        None => None,
    }
}

/// Decodes an encoded path; none where it is malformed.
pub fn percent_decode(s: &str) -> (r: Option<String>)
    ensures
        match r {
            Some(t) => percent_decoded(s@) == Some(t@),
            None => percent_decoded(s@) is None,
        },
{
    let b = s.as_bytes();
    let mut out: Vec<u8> = Vec::new();
    let mut i: usize = 0;
    let ghost all = unescaped(b@, 0);
    proof {
        if let Some(rest) = all {
            assert(Seq::<u8>::empty() + rest =~= rest);
        }
    }
    while i < b.len()
        invariant
            0 <= i <= b.len(),
            b@ == encode_utf8(s@),
            all == unescaped(b@, 0),
            match unescaped(b@, i as int) {
                Some(rest) => all == Some(out@ + rest),
                None => all is None,
            },
        decreases b.len() - i,
    {
        let ghost here = unescaped(b@, i as int);
        if b[i] == 0x25 && b.len() - i > 2 {
            match (hex(b[i + 1]), hex(b[i + 2])) {
                (Some(h), Some(l)) => {
                    let byte: u8 = h * 16 + l;
                    let ghost before = out@;
                    out.push(byte);
                    proof {
                        if let Some(rest) = unescaped(b@, i + 3) {
                            assert(before + (seq![byte] + rest) =~= out@ + rest);
                        }
                    }
                    i = i + 3;
                },
                _ => {
                    return None;
                },
            }
        } else {
            let ghost before = out@;
            out.push(b[i]);
            proof {
                if let Some(rest) = unescaped(b@, i + 1) {
                    assert(before + (seq![b@[i as int]] + rest) =~= out@ + rest);
                }
            }
            i = i + 1;
        }
    }
    assert(out@ + Seq::<u8>::empty() =~= out@);
    text_from_utf8(out)
}

// --- Lists -------------------------------------------------------------------

/// The first `n` URIs with `sep` between them.
pub open spec fn joined_uris(paths: Seq<Seq<char>>, sep: Seq<char>, n: int) -> Seq<char>
    decreases n,
{
    if n <= 0 {
        Seq::empty()
    } else if n == 1 {
        uri(paths[0])
    } else {
        joined_uris(paths, sep, n - 1) + sep + uri(paths[n - 1])
    }
}

/// A list of files as text: a URI to a line, or, in the form that GNOME uses,
/// the word `copy` and then the URIs.
pub open spec fn list_text(paths: Seq<Seq<char>>, gnome: bool) -> Seq<char> {
    if gnome {
        "copy\n"@ + joined_uris(paths, "\n"@, paths.len() as int)
    } else {
        joined_uris(paths, "\r\n"@, paths.len() as int) + "\r\n"@
    }
}

/// The bytes of a list of files.
pub fn encode_list(paths: &Vec<String>, gnome: bool) -> (bytes: Vec<u8>)
    ensures
        bytes@ == encode_utf8(list_text(texts(paths@), gnome)),
{
    let ghost ps = texts(paths@);
    let ghost sep = if gnome {
        "\n"@
    } else {
        "\r\n"@
    };
    let mut s = String::new();
    if gnome {
        s.append("copy\n");
    }
    let ghost head = s@;
    let mut i: usize = 0;
    assert(s@ =~= head + joined_uris(ps, sep, 0));
    while i < paths.len()
        invariant
            0 <= i <= paths.len(),
            ps == texts(paths@),
            sep == if gnome {
                "\n"@
            } else {
                "\r\n"@
            },
            s@ == head + joined_uris(ps, sep, i as int),
        decreases paths.len() - i,
    {
        assert(ps[i as int] == paths@[i as int]@);
        if i > 0 {
            if gnome {
                s.append("\n");
            } else {
                s.append("\r\n");
            }
        }
        s.append(from_path(paths[i].as_str()).as_str());
        assert(s@ =~= head + joined_uris(ps, sep, i + 1));
        i = i + 1;
    }
    if !gnome {
        s.append("\r\n");
    }
    assert(s@ =~= list_text(ps, gnome));
    vstd::slice::slice_to_vec(s.as_str().as_bytes())
}

/// The path that line `i` of a list names. Empty lines, comments, the verb of
/// the GNOME form and lines that are no `file://` URI name none. A host in front
/// of the path does not count.
pub open spec fn line_path(line: Seq<char>, i: int, gnome: bool) -> Option<Seq<char>> {
    let l = trimmed(line);
    let scheme = "file://"@;
    if l.len() == 0 || l[0] == '#' || (gnome && i == 0) || l.len() < scheme.len() || l.subrange(
        0,
        scheme.len() as int,
    ) != scheme {
        None
    } else {
        let rest = l.subrange(scheme.len() as int, l.len() as int);
        match first_of_from(rest, '/', '/', 0) {
            Some(k) => percent_decoded(rest.subrange(k, rest.len() as int)),
            None => percent_decoded(rest),
        }
    }
}

/// The paths that the first `n` lines name.
pub open spec fn line_paths(ls: Seq<Seq<char>>, gnome: bool, n: int) -> Seq<Seq<char>>
    decreases n,
{
    if n <= 0 {
        Seq::empty()
    } else {
        let before = line_paths(ls, gnome, n - 1);
        match line_path(ls[n - 1], n - 1, gnome) {
            Some(p) => before.push(p),
            None => before,
        }
    }
}

/// The paths that a list in text form names.
pub open spec fn listed(text: Seq<char>, gnome: bool) -> Seq<Seq<char>> {
    line_paths(lines(text), gnome, lines(text).len() as int)
}

fn parse_line(line: &[char], i: usize, gnome: bool) -> (r: Option<String>)
    ensures
        match r {
            Some(p) => line_path(line@, i as int, gnome) == Some(p@),
            None => line_path(line@, i as int, gnome) is None,
        },
{
    let l = trim(line);
    if l.len() == 0 || l[0] == '#' {
        return None;
    }
    if gnome && i == 0 {
        return None;
    }
    let scheme = chars_of("file://");
    if l.len() < scheme.len() {
        return None;
    }
    if !crate::text::same_chars(
        vstd::slice::slice_subrange(l, 0, scheme.len()),
        scheme.as_slice(),
    ) {
        return None;
    }
    let rest = vstd::slice::slice_subrange(l, scheme.len(), l.len());
    let mut k: usize = 0;
    while k < rest.len()
        invariant
            0 <= k <= rest.len(),
            first_of_from(rest@, '/', '/', 0) == first_of_from(rest@, '/', '/', k as int),
            scheme@ == "file://"@,
            l@ == trimmed(line@),
            l@.len() >= scheme@.len(),
            l@.len() > 0,
            l@[0] != '#',
            !(gnome && i == 0),
            l@.subrange(0, scheme@.len() as int) == scheme@,
            rest@ == l@.subrange(scheme@.len() as int, l@.len() as int),
        decreases rest.len() - k,
    {
        if rest[k] == '/' {
            let part = string_of(vstd::slice::slice_subrange(rest, k, rest.len()));
            return percent_decode(part.as_str());
        }
        k = k + 1;
    }
    let part = string_of(rest);
    percent_decode(part.as_str())
}

/// The paths that a list in text form names.
pub fn parse_text(text: &str, gnome: bool) -> (out: Vec<String>)
    ensures
        texts(out@) == listed(text@, gnome),
{
    let chars = chars_of(text);
    let ls = split_lines(chars.as_slice());
    let ghost sl = lines(text@);
    let mut out: Vec<String> = Vec::new();
    let mut i: usize = 0;
    assert(texts(out@) =~= line_paths(sl, gnome, 0));
    while i < ls.len()
        invariant
            0 <= i <= ls.len(),
            sl == views(ls@),
            texts(out@) == line_paths(sl, gnome, i as int),
        decreases ls.len() - i,
    {
        assert(sl[i as int] == ls@[i as int]@);
        let ghost before = texts(out@);
        match parse_line(ls[i].as_slice(), i, gnome) {
            Some(p) => {
                out.push(p);
                assert(texts(out@) =~= before.push(p@));
            },
            None => {},
        }
        i = i + 1;
    }
    out
}

/// The paths that a list names. `gnome` says that the first line is a verb.
pub fn parse_list(bytes: &[u8], gnome: bool) -> (out: Vec<String>)
    ensures
        texts(out@) == listed(utf8_lossy(bytes@), gnome),
        valid_utf8(bytes@) ==> texts(out@) == listed(decode_utf8(bytes@), gnome),
{
    let text = text_lossy(bytes);
    parse_text(text.as_str(), gnome)
}

// --- Laws --------------------------------------------------------------------

/// An escaped byte is plain, a percent sign or a digit: ASCII without white
/// space.
proof fn lemma_escaped_is_clean(s: Seq<u8>)
    ensures
        forall|i: int|
            0 <= i < escaped_all(s).len() ==> {
                let b = #[trigger] escaped_all(s)[i];
                0x25 <= b <= 0x7e
            },
        s.len() > 0 ==> escaped_all(s).len() > 0,
    decreases s.len(),
{
    if s.len() > 0 {
        lemma_escaped_is_clean(s.drop_last());
        let init = escaped_all(s.drop_last());
        let e = escaped(s.last());
        assert forall|i: int| 0 <= i < escaped_all(s).len() implies {
            let b = #[trigger] escaped_all(s)[i];
            0x25 <= b <= 0x7e
        } by {
            if i < init.len() {
                assert(escaped_all(s)[i] == init[i]);
            } else {
                assert(escaped_all(s)[i] == e[i - init.len()]);
            }
        }
    }
}

/// Escaping distributes over concatenation.
proof fn lemma_escaped_concat(a: Seq<u8>, b: Seq<u8>)
    ensures
        escaped_all(a + b) == escaped_all(a) + escaped_all(b),
    decreases b.len(),
{
    if b.len() == 0 {
        assert(a + b =~= a);
        assert(escaped_all(a) + escaped_all(b) =~= escaped_all(a));
    } else {
        lemma_escaped_concat(a, b.drop_last());
        assert((a + b).drop_last() =~= a + b.drop_last());
        assert(escaped_all(a) + escaped_all(b.drop_last()) + escaped(b.last()) =~= escaped_all(a)
            + escaped_all(b));
    }
}

/// Decoding what follows position `i` looks only at what follows it.
proof fn lemma_unescaped_tail(s: Seq<u8>, i: int, j: int)
    requires
        0 <= i <= s.len(),
        0 <= j <= s.len() - i,
    ensures
        unescaped(s.subrange(i, s.len() as int), j) == unescaped(s, i + j),
    decreases s.len() - i - j,
{
    let t = s.subrange(i, s.len() as int);
    if j < t.len() {
        if t[j] == 0x25 && j + 2 < t.len() {
            lemma_unescaped_tail(s, i, j + 3);
        } else {
            lemma_unescaped_tail(s, i, j + 1);
        }
    }
}

/// Unescaping undoes escaping.
proof fn lemma_unescape_escaped(s: Seq<u8>)
    ensures
        unescaped(escaped_all(s), 0) == Some(s),
    decreases s.len(),
{
    let e = escaped_all(s);
    if s.len() == 0 {
        assert(Seq::<u8>::empty() =~= s);
    } else {
        let rest = s.subrange(1, s.len() as int);
        let first = escaped(s[0]);
        assert(s =~= seq![s[0]] + rest);
        lemma_escaped_concat(seq![s[0]], rest);
        assert(seq![s[0]].drop_last() =~= Seq::<u8>::empty());
        reveal_with_fuel(escaped_all, 2);
        assert(escaped_all(seq![s[0]]) =~= first);
        assert(e =~= first + escaped_all(rest));
        lemma_unescape_escaped(rest);
        let n = first.len() as int;
        lemma_unescaped_tail(e, n, 0);
        assert(e.subrange(n, e.len() as int) =~= escaped_all(rest));
        assert(seq![s[0]] + rest =~= s);
        if is_plain(s[0]) {
            assert(e[0] == s[0]);
        } else {
            assert(e[0] == 0x25 && e[1] == first[1] && e[2] == first[2]);
            let b = s[0] as int;
            assert(hex_of(first[1]) == Some(b / 16));
            assert(hex_of(first[2]) == Some(b % 16));
        }
    }
}

/// ASCII bytes as characters encode to themselves.
proof fn lemma_ascii_bytes(b: Seq<u8>)
    requires
        forall|i: int| 0 <= i < b.len() ==> (#[trigger] b[i]) < 0x80,
    ensures
        encode_utf8(as_chars(b)) == b,
{
    let c = as_chars(b);
    assert forall|i: int| 0 <= i < c.len() implies '\0' <= #[trigger] c[i] <= '\u{7f}' by {
        assert(b[i] < 0x80);
    }
    vstd::utf8::is_ascii_chars_encode_utf8(c);
    assert forall|i: int| 0 <= i < b.len() implies encode_utf8(c)[i] == b[i] by {
        assert(c[i] as u8 == encode_utf8(c)[i]);
        assert(b[i] < 0x80);
    }
    assert(encode_utf8(c) =~= b);
}

/// An absolute path survives the way through its URI.
#[verifier::rlimit(60)]
#[verifier::spinoff_prover]
pub proof fn law_uri_names_its_path(path: Seq<char>, i: int, gnome: bool)
    requires
        path.len() > 0,
        path[0] == '/',
        gnome ==> i > 0,
    ensures
        line_path(uri(path), i, gnome) == Some(path),
{
    let scheme = "file://"@;
    reveal_strlit("file://");
    let bytes = encode_utf8(path);
    let e = escaped_all(bytes);
    lemma_escaped_is_clean(bytes);
    lemma_first_byte(path);
    let u = uri(path);
    let c = as_chars(e);
    assert(u[0] == 'f');
    lemma_escaped_starts(bytes);
    assert(c.len() > 0);
    assert(u.last() == c.last());
    assert(0x25 <= e[e.len() - 1] <= 0x7e);
    lemma_trimmed_clean(u);
    assert(u.subrange(0, scheme.len() as int) =~= scheme);
    let rest = u.subrange(scheme.len() as int, u.len() as int);
    assert(rest =~= c);
    assert(rest[0] == '/');
    assert(first_of_from(rest, '/', '/', 0) == Some(0int));
    assert(rest.subrange(0, rest.len() as int) =~= rest);
    lemma_ascii_bytes(e);
    lemma_unescape_escaped(bytes);
    vstd::utf8::encode_utf8_valid_utf8(path);
    vstd::utf8::encode_utf8_decode_utf8(path);
}

proof fn lemma_first_byte(path: Seq<char>)
    requires
        path.len() > 0,
        path[0] == '/',
    ensures
        encode_utf8(path).len() > 0,
        encode_utf8(path)[0] == 0x2f,
{
    let one = seq!['/'];
    assert(is_ascii_chars(one));
    vstd::utf8::is_ascii_chars_encode_utf8(one);
    assert(one[0] as u8 == encode_utf8(one)[0]);
    assert(one.drop_first() =~= Seq::<char>::empty());
    assert(encode_utf8(one) =~= vstd::utf8::encode_scalar('/' as u32));
}

proof fn lemma_escaped_starts(bytes: Seq<u8>)
    requires
        bytes.len() > 0,
        bytes[0] == 0x2f,
    ensures
        escaped_all(bytes).len() > 0,
        escaped_all(bytes)[0] == 0x2f,
{
    let rest = bytes.subrange(1, bytes.len() as int);
    assert(bytes =~= seq![bytes[0]] + rest);
    lemma_escaped_concat(seq![bytes[0]], rest);
    assert(seq![bytes[0]].drop_last() =~= Seq::<u8>::empty());
    reveal_with_fuel(escaped_all, 2);
    assert(escaped_all(seq![bytes[0]]) =~= seq![0x2fu8]);
}

proof fn lemma_trimmed_clean(s: Seq<char>)
    requires
        s.len() > 0,
        !is_space(s[0]),
        !is_space(s.last()),
    ensures
        trimmed(s) == s,
{
}

/// The pieces around a separator are the pieces before it and those after it.
pub proof fn lemma_split_concat(a: Seq<char>, b: Seq<char>, sep: char)
    ensures
        split_at_char(a.push(sep) + b, sep) == split_at_char(a, sep) + split_at_char(b, sep),
    decreases b.len(),
{
    crate::text::lemma_split_nonempty(a, sep);
    crate::text::lemma_split_nonempty(b, sep);
    let whole = a.push(sep) + b;
    if b.len() == 0 {
        assert(whole =~= a.push(sep));
        assert(whole.drop_last() =~= a);
        assert(split_at_char(whole, sep) =~= split_at_char(a, sep) + split_at_char(b, sep));
    } else {
        let init = b.drop_last();
        lemma_split_concat(a, init, sep);
        crate::text::lemma_split_nonempty(init, sep);
        assert(whole.drop_last() =~= a.push(sep) + init);
        assert(whole.last() == b.last());
        let x = split_at_char(a, sep);
        let y = split_at_char(init, sep);
        assert((x + y).last() == y.last());
        if b.last() == sep {
            assert((x + y).push(Seq::<char>::empty()) =~= x + y.push(Seq::<char>::empty()));
        } else {
            assert((x + y).drop_last().push(y.last().push(b.last())) =~= x + y.drop_last().push(
                y.last().push(b.last()),
            ));
        }
    }
}

/// A text without the separator is one piece.
pub proof fn lemma_split_single(a: Seq<char>, sep: char)
    requires
        forall|i: int| 0 <= i < a.len() ==> #[trigger] a[i] != sep,
    ensures
        split_at_char(a, sep) == seq![a],
    decreases a.len(),
{
    if a.len() == 0 {
        assert(a =~= Seq::<char>::empty());
        assert(split_at_char(a, sep) =~= seq![a]);
    } else {
        let init = a.drop_last();
        assert forall|i: int| 0 <= i < init.len() implies #[trigger] init[i] != sep by {
            assert(a[i] != sep);
        }
        lemma_split_single(init, sep);
        assert(a[a.len() - 1] != sep);
        assert(init.push(a.last()) =~= a);
        assert(seq![init].last() == init);
        assert(seq![init].drop_last().push(init.push(a.last())) =~= seq![a]);
    }
}

/// A URI holds no line end.
proof fn lemma_uri_is_one_line(path: Seq<char>)
    ensures
        forall|i: int|
            0 <= i < uri(path).len() ==> #[trigger] uri(path)[i] != '\n' && uri(path)[i] != '\r',
        uri(path).len() > 0,
{
    reveal_strlit("file://");
    let e = escaped_all(encode_utf8(path));
    lemma_escaped_is_clean(encode_utf8(path));
    assert forall|i: int| 0 <= i < uri(path).len() implies #[trigger] uri(path)[i] != '\n' && uri(
        path,
    )[i] != '\r' by {
        if i >= 7 {
            assert(uri(path)[i] == e[i - 7] as char);
            assert(0x25 <= e[i - 7] <= 0x7e);
        }
    }
}

/// The lines of a plain list: the URIs, each with the carriage return that its
/// line end starts with, and nothing after the last.
proof fn lemma_plain_pieces(ps: Seq<Seq<char>>, n: int)
    requires
        1 <= n <= ps.len(),
    ensures
        split_at_char(joined_uris(ps, "\r\n"@, n) + "\r\n"@, '\n') == Seq::new(
            n as nat,
            |i: int| uri(ps[i]).push('\r'),
        ).push(Seq::<char>::empty()),
    decreases n,
{
    reveal_strlit("\r\n");
    let u = uri(ps[n - 1]).push('\r');
    lemma_uri_is_one_line(ps[n - 1]);
    assert forall|i: int| 0 <= i < u.len() implies #[trigger] u[i] != '\n' by {
        if i < u.len() - 1 {
            assert(uri(ps[n - 1])[i] != '\n');
        }
    }
    lemma_split_single(u, '\n');
    lemma_split_single(Seq::<char>::empty(), '\n');
    lemma_split_concat(u, Seq::<char>::empty(), '\n');
    let tail = u.push('\n') + Seq::<char>::empty();
    let want = Seq::new(n as nat, |i: int| uri(ps[i]).push('\r')).push(Seq::<char>::empty());
    if n == 1 {
        assert(joined_uris(ps, "\r\n"@, n) + "\r\n"@ =~= tail);
        assert(split_at_char(tail, '\n') =~= want);
    } else {
        lemma_plain_pieces(ps, n - 1);
        let before = joined_uris(ps, "\r\n"@, n - 1).push('\r');
        let prev = joined_uris(ps, "\r\n"@, n - 1) + "\r\n"@;
        assert(prev =~= before.push('\n') + Seq::<char>::empty());
        lemma_split_concat(before, Seq::<char>::empty(), '\n');
        lemma_split_concat(before, tail, '\n');
        assert(joined_uris(ps, "\r\n"@, n) + "\r\n"@ =~= before.push('\n') + tail);
        let x = split_at_char(before, '\n');
        let prev_pieces = Seq::new(
            (n - 1) as nat,
            |i: int| uri(ps[i]).push('\r'),
        ).push(Seq::<char>::empty());
        assert(x + seq![Seq::<char>::empty()] == prev_pieces);
        assert(x =~= prev_pieces.drop_last()) by {
            assert((x + seq![Seq::<char>::empty()]).drop_last() =~= x);
        }
        assert(x + split_at_char(tail, '\n') =~= want);
    }
}

/// The pieces of URIs with line feeds between them are the URIs.
proof fn lemma_gnome_pieces(ps: Seq<Seq<char>>, n: int)
    requires
        1 <= n <= ps.len(),
    ensures
        split_at_char(joined_uris(ps, "\n"@, n), '\n') == Seq::new(
            n as nat,
            |i: int| uri(ps[i]),
        ),
    decreases n,
{
    reveal_strlit("\n");
    let u = uri(ps[n - 1]);
    lemma_uri_is_one_line(ps[n - 1]);
    assert forall|i: int| 0 <= i < u.len() implies #[trigger] u[i] != '\n' by {
        assert(uri(ps[n - 1])[i] != '\n');
    }
    lemma_split_single(u, '\n');
    let want = Seq::new(n as nat, |i: int| uri(ps[i]));
    if n == 1 {
        assert(seq![u] =~= want);
    } else {
        lemma_gnome_pieces(ps, n - 1);
        let before = joined_uris(ps, "\n"@, n - 1);
        lemma_split_concat(before, u, '\n');
        assert(joined_uris(ps, "\n"@, n) =~= before.push('\n') + u);
        assert(Seq::new((n - 1) as nat, |i: int| uri(ps[i])) + seq![u] =~= want);
    }
}

/// Lines that are URIs of absolute paths name these paths.
proof fn lemma_lines_name_paths(
    ls: Seq<Seq<char>>,
    ps: Seq<Seq<char>>,
    gnome: bool,
    skip: int,
    n: int,
)
    requires
        0 <= n <= ps.len(),
        skip == if gnome {
            1int
        } else {
            0
        },
        ls.len() == ps.len() + skip,
        forall|i: int| 0 <= i < ps.len() ==> ls[skip + i] == uri(#[trigger] ps[i]),
        forall|i: int| 0 <= i < ps.len() ==> (#[trigger] ps[i]).len() > 0 && ps[i][0] == '/',
    ensures
        line_paths(ls, gnome, skip + n) == ps.subrange(0, n),
    decreases n,
{
    if n == 0 {
        if gnome {
            assert(line_path(ls[0], 0, gnome) is None);
            assert(line_paths(ls, gnome, 0) =~= Seq::<Seq<char>>::empty());
        }
        assert(line_paths(ls, gnome, skip) =~= ps.subrange(0, 0));
    } else {
        lemma_lines_name_paths(ls, ps, gnome, skip, n - 1);
        let p = ps[n - 1];
        assert(ls[skip + (n - 1)] == uri(p));
        law_uri_names_its_path(p, skip + (n - 1), gnome);
        assert(ps.subrange(0, n - 1).push(p) =~= ps.subrange(0, n));
    }
}

/// A list of absolute paths survives the way through its text, in either form.
pub proof fn law_lists_read_back(ps: Seq<Seq<char>>, gnome: bool)
    requires
        forall|i: int| 0 <= i < ps.len() ==> (#[trigger] ps[i]).len() > 0 && ps[i][0] == '/',
    ensures
        listed(list_text(ps, gnome), gnome) == ps,
        listed(decode_utf8(encode_utf8(list_text(ps, gnome))), gnome) == ps,
        valid_utf8(encode_utf8(list_text(ps, gnome))),
{
    let text = list_text(ps, gnome);
    let n = ps.len() as int;
    vstd::utf8::encode_utf8_decode_utf8(text);
    vstd::utf8::encode_utf8_valid_utf8(text);
    let pieces = split_at_char(text, '\n');
    let ls = lines(text);
    if gnome {
        reveal_strlit("copy\n");
        reveal_strlit("copy");
        let verb = "copy"@;
        let body = joined_uris(ps, "\n"@, n);
        assert(text =~= verb.push('\n') + body);
        lemma_split_concat(verb, body, '\n');
        assert forall|i: int| 0 <= i < verb.len() implies #[trigger] verb[i] != '\n' by {}
        lemma_split_single(verb, '\n');
        assert(without_cr(verb) == verb);
        if n == 0 {
            lemma_split_single(body, '\n');
            assert(pieces =~= seq![verb, body]);
            assert(ls =~= seq![verb]);
        } else {
            lemma_gnome_pieces(ps, n);
            let us = Seq::new(n as nat, |i: int| uri(ps[i]));
            assert(pieces =~= seq![verb] + us);
            lemma_uri_is_one_line(ps[n - 1]);
            assert forall|i: int| 0 <= i < n implies without_cr(#[trigger] us[i]) == us[i] by {
                lemma_uri_is_one_line(ps[i]);
                assert(uri(ps[i])[uri(ps[i]).len() - 1] != '\r');
            }
            assert(pieces.last() == us[n - 1]);
            assert(ls =~= seq![verb] + us);
        }
        assert forall|i: int| 0 <= i < ps.len() implies ls[1 + i] == uri(#[trigger] ps[i]) by {}
        lemma_lines_name_paths(ls, ps, gnome, 1, n);
    } else {
        if n == 0 {
            reveal_strlit("\r\n");
            let one = seq!['\r'];
            assert(text =~= one.push('\n') + Seq::<char>::empty());
            lemma_split_concat(one, Seq::<char>::empty(), '\n');
            lemma_split_single(one, '\n');
            lemma_split_single(Seq::<char>::empty(), '\n');
            assert(pieces =~= seq![one, Seq::<char>::empty()]);
            assert(ls.len() == 1 && ls[0] =~= Seq::<char>::empty());
            assert(line_path(ls[0], 0, gnome) is None);
            assert(line_paths(ls, gnome, 0) =~= Seq::<Seq<char>>::empty());
            assert(line_paths(ls, gnome, 1) =~= ps);
        } else {
            lemma_plain_pieces(ps, n);
            let us = Seq::new(n as nat, |i: int| uri(ps[i]));
            assert(pieces.last().len() == 0);
            assert forall|i: int| 0 <= i < n implies without_cr(#[trigger] pieces[i]) == us[i] by {
                assert(pieces[i] == uri(ps[i]).push('\r'));
                assert(uri(ps[i]).push('\r').drop_last() =~= uri(ps[i]));
            }
            assert(ls =~= us);
            assert forall|i: int| 0 <= i < ps.len() implies ls[0 + i] == uri(#[trigger] ps[i]) by {}
            lemma_lines_name_paths(ls, ps, gnome, 0, n);
        }
    }
    assert(ps.subrange(0, n) =~= ps);
}

/// Letters, digits, `-`, `_`, `.`, `~` and the slash stand for themselves in a URI. Any
/// other byte is a percent sign and two digits, none of them small, of which the first
/// counts sixteen times.
pub proof fn law_bytes_are_spelled_in_hexadecimal(b: u8)
    ensures
        escaped(b).len() == 1 <==> ({
            ||| 'a' <= b as char <= 'z'
            ||| 'A' <= b as char <= 'Z'
            ||| '0' <= b as char <= '9'
            ||| b as char == '-'
            ||| b as char == '_'
            ||| b as char == '.'
            ||| b as char == '~'
            ||| b as char == '/'
        }),
        escaped(b).len() == 1 ==> escaped(b)[0] == b,
        escaped(b).len() != 1 ==> {
            &&& escaped(b).len() == 3
            &&& escaped(b)[0] as char == '%'
            &&& hex_of(escaped(b)[1]) is Some && hex_of(escaped(b)[2]) is Some
            &&& 16 * hex_of(escaped(b)[1])->0 + hex_of(escaped(b)[2])->0 == b
            &&& escaped(b)[1] < 97 && escaped(b)[2] < 97
        },
{
}

/// In an encoded path a percent sign and two digits are the byte that they spell, whatever
/// the case of the digits; with two characters after it that are not both digits, the path
/// is malformed. Everything else is itself, the last two characters even where they are a
/// percent sign.
pub proof fn law_spelled_bytes_are_read(s: Seq<u8>, i: int)
    requires
        0 <= i < s.len(),
    ensures
        s[i] as char != '%' || i + 2 >= s.len() ==> match unescaped(s, i + 1) {
            Some(rest) => unescaped(s, i) == Some(seq![s[i]] + rest),
            None => unescaped(s, i) is None,
        },
        s[i] as char == '%' && i + 2 < s.len() && (hex_of(s[i + 1]) is None || hex_of(s[i + 2]) is None)
            ==> unescaped(s, i) is None,
        s[i] as char == '%' && i + 2 < s.len() && hex_of(s[i + 1]) is Some && hex_of(s[i + 2]) is Some
            ==> match unescaped(s, i + 3) {
            Some(rest) => unescaped(s, i) == Some(
                seq![(16 * hex_of(s[i + 1])->0 + hex_of(s[i + 2])->0) as u8] + rest,
            ),
            None => unescaped(s, i) is None,
        },
{
}

/// A host between the scheme and the path does not count.
pub proof fn law_hosts_do_not_count(host: Seq<char>, path: Seq<char>, i: int)
    requires
        !host.contains('/'),
        path.len() > 0 && path[0] == '/',
        trimmed("file://"@ + host + path) == "file://"@ + host + path,
        trimmed("file://"@ + path) == "file://"@ + path,
    ensures
        line_path("file://"@ + host + path, i, false) == percent_decoded(path),
        line_path("file://"@ + host + path, i, false) == line_path("file://"@ + path, i, false),
{
    reveal_strlit("file://");
    let scheme = "file://"@;
    let none = Seq::<char>::empty();
    assert(scheme + none + path =~= scheme + path);
    lemma_host(host, path, i);
    lemma_host(none, path, i);
}

proof fn lemma_host(host: Seq<char>, path: Seq<char>, i: int)
    requires
        !host.contains('/'),
        path.len() > 0 && path[0] == '/',
        trimmed("file://"@ + host + path) == "file://"@ + host + path,
    ensures
        line_path("file://"@ + host + path, i, false) == percent_decoded(path),
{
    reveal_strlit("file://");
    let scheme = "file://"@;
    let l = scheme + host + path;
    let rest = l.subrange(7, l.len() as int);
    assert(l.subrange(0, 7) =~= scheme);
    assert(rest =~= host + path);
    assert(l[0] == 'f');
    crate::text::law_the_first_is_found(rest, '/', '/', 0);
    let h = host.len() as int;
    assert(rest[h] == '/');
    assert forall|j: int| 0 <= j < h implies #[trigger] rest[j] != '/' by {
        assert(rest[j] == host[j]);
    }
    assert(first_of_from(rest, '/', '/', 0) == Some(h));
    assert(rest.subrange(h, rest.len() as int) =~= path);
}

/// Lines that are empty, begin with `#` or do not begin with the scheme name no path, and
/// neither does the first line of the form that begins with a verb.
pub proof fn law_other_lines_name_no_path(line: Seq<char>, i: int, gnome: bool)
    ensures
        trimmed(line).len() == 0 ==> line_path(line, i, gnome) is None,
        trimmed(line).len() > 0 && trimmed(line)[0] == '#' ==> line_path(line, i, gnome) is None,
        trimmed(line).len() > 0 && trimmed(line)[0] != 'f' ==> line_path(line, i, gnome) is None,
        trimmed(line).len() < 7 ==> line_path(line, i, gnome) is None,
        line_path(line, 0, true) is None,
        i > 0 ==> line_path(line, i, true) == line_path(line, i, false),
{
    reveal_strlit("file://");
    let l = trimmed(line);
    if l.len() >= 7 && l[0] != 'f' {
        assert(l.subrange(0, 7)[0] != "file://"@[0]);
    }
}

proof fn lemma_joined_prefix(ps: Seq<Seq<char>>, p: Seq<char>, sep: Seq<char>, n: int)
    requires
        0 <= n <= ps.len(),
    ensures
        joined_uris(ps.push(p), sep, n) == joined_uris(ps, sep, n),
    decreases n,
{
    if n > 1 {
        lemma_joined_prefix(ps, p, sep, n - 1);
    }
}

/// One more file adds its URI to a list: with a carriage return and a line feed after it,
/// or, in the form with the verb, with a line feed before it.
pub proof fn law_lists_grow_by_lines(ps: Seq<Seq<char>>, p: Seq<char>)
    requires
        ps.len() > 0,
    ensures
        list_text(ps.push(p), false) == list_text(ps, false) + uri(p) + seq!['\r', '\n'],
        list_text(ps.push(p), true) == list_text(ps, true) + seq!['\n'] + uri(p),
        list_text(seq![p], false) == uri(p) + seq!['\r', '\n'],
        list_text(seq![p], true) == seq!['c', 'o', 'p', 'y', '\n'] + uri(p),
{
    reveal_strlit("\r\n");
    reveal_strlit("\n");
    reveal_strlit("copy\n");
    let n = ps.len() as int;
    lemma_joined_prefix(ps, p, "\r\n"@, n);
    lemma_joined_prefix(ps, p, "\n"@, n);
    assert("\r\n"@ =~= seq!['\r', '\n']);
    assert("\n"@ =~= seq!['\n']);
    assert("copy\n"@ =~= seq!['c', 'o', 'p', 'y', '\n']);
    assert(list_text(ps.push(p), false) =~= list_text(ps, false) + uri(p) + seq!['\r', '\n']);
    assert(list_text(ps.push(p), true) =~= list_text(ps, true) + seq!['\n'] + uri(p));
}

} // verus!
