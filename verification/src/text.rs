//! Text as sequences of characters: decimal numbers, white space, words.

use vstd::prelude::*;

verus! {

/// `String::push` appends one character.
pub assume_specification[ String::push ](s: &mut String, ch: char)
    ensures
        final(s)@ == old(s)@.push(ch),
;

/// The decimal digit of value `n`.
pub open spec fn digit(n: int) -> char {
    ('0' as int + n) as char
}

/// The decimal form of `n`, without leading zeros.
pub open spec fn decimal(n: nat) -> Seq<char>
    decreases n,
{
    if n < 10 {
        seq![digit(n as int)]
    } else {
        decimal(n / 10).push(digit((n % 10) as int))
    }
}

/// The decimal form of a signed number.
pub open spec fn decimal_int(n: int) -> Seq<char> {
    if n < 0 {
        seq!['-'] + decimal((-n) as nat)
    } else {
        decimal(n as nat)
    }
}

/// The digit of value `n`.
pub fn digit_char(n: u8) -> (c: char)
    requires
        n < 10,
    ensures
        c == digit(n as int),
{
    (48u8 + n) as char
}

/// Appends the decimal form of `n`.
pub fn push_decimal(s: &mut String, n: u64)
    ensures
        final(s)@ == old(s)@ + decimal(n as nat),
    decreases n,
{
    if n >= 10 {
        push_decimal(s, n / 10);
    }
    let ghost before = s@;
    s.push(digit_char((n % 10) as u8));
    proof {
        if n >= 10 {
            assert(s@ =~= old(s)@ + decimal(n as nat / 10).push(digit(n as int % 10)));
        } else {
            assert(s@ =~= old(s)@ + decimal(n as nat));
        }
    }
}

/// Appends the decimal form of `n`, with a minus sign where it is negative.
pub fn push_int(s: &mut String, n: i32)
    ensures
        final(s)@ == old(s)@ + decimal_int(n as int),
{
    if n < 0 {
        s.push('-');
        push_decimal(s, (-(n as i64)) as u64);
        assert(s@ =~= old(s)@ + decimal_int(n as int));
    } else {
        push_decimal(s, n as u64);
    }
}

/// The decimal form of `n`.
pub fn decimal_string(n: u64) -> (s: String)
    ensures
        s@ == decimal(n as nat),
{
    let mut s = String::new();
    push_decimal(&mut s, n);
    assert(s@ =~= decimal(n as nat));
    s
}

// --- Characters --------------------------------------------------------------

/// A character with the Unicode property `White_Space`.
pub open spec fn is_space(c: char) -> bool {
    let n = c as int;
    ||| 0x9 <= n <= 0xd
    ||| n == 0x20
    ||| n == 0x85
    ||| n == 0xa0
    ||| n == 0x1680
    ||| 0x2000 <= n <= 0x200a
    ||| n == 0x2028
    ||| n == 0x2029
    ||| n == 0x202f
    ||| n == 0x205f
    ||| n == 0x3000
}

/// The lower-case form of an ASCII letter; any other character as it is.
pub open spec fn lower(c: char) -> char {
    if 'A' <= c <= 'Z' {
        (c as int + 32) as char
    } else {
        c
    }
}

/// Every ASCII letter in lower case.
pub open spec fn lower_all(s: Seq<char>) -> Seq<char> {
    s.map_values(|c: char| lower(c))
}

pub fn is_white_space(c: char) -> (b: bool)
    ensures
        b == is_space(c),
{
    let n: u32 = c as u32;
    (0x9 <= n && n <= 0xd) || n == 0x20 || n == 0x85 || n == 0xa0 || n == 0x1680 || (0x2000 <= n
        && n <= 0x200a) || n == 0x2028 || n == 0x2029 || n == 0x202f || n == 0x205f || n == 0x3000
}

pub fn to_lower(c: char) -> (r: char)
    ensures
        r == lower(c),
{
    if 'A' <= c && c <= 'Z' {
        ((c as u8) + 32) as char
    } else {
        c
    }
}

/// The characters of a string.
pub fn chars_of(s: &str) -> (v: Vec<char>)
    ensures
        v@ == s@,
{
    let mut v: Vec<char> = Vec::new();
    for c in it: s.chars()
        invariant
            it.seq() == s@,
            v@ =~= s@.subrange(0, it.index() as int),
    {
        v.push(c);
    }
    assert(v@ =~= s@);
    v
}

/// The string made of the given characters.
pub fn string_of(v: &[char]) -> (s: String)
    ensures
        s@ == v@,
{
    let mut s = String::new();
    let mut i: usize = 0;
    while i < v.len()
        invariant
            0 <= i <= v.len(),
            s@ =~= v@.subrange(0, i as int),
        decreases v.len() - i,
    {
        s.push(v[i]);
        i = i + 1;
    }
    assert(s@ =~= v@);
    s
}

/// Whether two character sequences are the same.
pub fn same_chars(a: &[char], b: &[char]) -> (r: bool)
    ensures
        r == (a@ == b@),
{
    if a.len() != b.len() {
        return false;
    }
    let mut i: usize = 0;
    while i < a.len()
        invariant
            0 <= i <= a.len(),
            a.len() == b.len(),
            forall|j: int| 0 <= j < i ==> a@[j] == b@[j],
        decreases a.len() - i,
    {
        if a[i] != b[i] {
            assert(a@[i as int] != b@[i as int]);
            return false;
        }
        i = i + 1;
    }
    assert(a@ =~= b@);
    true
}

/// Whether the characters spell `lit`.
pub fn spells(a: &[char], lit: &str) -> (r: bool)
    ensures
        r == (a@ == lit@),
{
    let b = chars_of(lit);
    same_chars(a, b.as_slice())
}

/// Every ASCII letter in lower case.
pub fn lowered(s: &[char]) -> (v: Vec<char>)
    ensures
        v@ == lower_all(s@),
{
    let mut v: Vec<char> = Vec::new();
    let mut i: usize = 0;
    while i < s.len()
        invariant
            0 <= i <= s.len(),
            v@ =~= lower_all(s@.subrange(0, i as int)),
        decreases s.len() - i,
    {
        v.push(to_lower(s[i]));
        i = i + 1;
    }
    assert(s@.subrange(0, s@.len() as int) =~= s@);
    v
}

// --- Trimming and splitting --------------------------------------------------

/// The text without leading white space.
pub open spec fn trim_start(s: Seq<char>) -> Seq<char>
    decreases s.len(),
{
    if s.len() > 0 && is_space(s[0]) {
        trim_start(s.subrange(1, s.len() as int))
    } else {
        s
    }
}

/// The text without trailing white space.
pub open spec fn trim_end(s: Seq<char>) -> Seq<char>
    decreases s.len(),
{
    if s.len() > 0 && is_space(s.last()) {
        trim_end(s.drop_last())
    } else {
        s
    }
}

/// The text without white space at either end.
pub open spec fn trimmed(s: Seq<char>) -> Seq<char> {
    trim_end(trim_start(s))
}

/// The text without white space at either end.
pub fn trim(s: &[char]) -> (r: &[char])
    ensures
        r@ == trimmed(s@),
{
    let mut lo: usize = 0;
    assert(s@.subrange(0, s@.len() as int) =~= s@);
    while lo < s.len() && is_white_space(s[lo])
        invariant
            0 <= lo <= s.len(),
            trim_start(s@) == trim_start(s@.subrange(lo as int, s@.len() as int)),
        decreases s.len() - lo,
    {
        proof {
            let rest = s@.subrange(lo as int, s@.len() as int);
            assert(rest.subrange(1, rest.len() as int) =~= s@.subrange(lo + 1, s@.len() as int));
        }
        lo = lo + 1;
    }
    let ghost head = s@.subrange(lo as int, s@.len() as int);
    assert(trim_start(s@) == head);
    let mut hi: usize = s.len();
    while hi > lo && is_white_space(s[hi - 1])
        invariant
            lo <= hi <= s.len(),
            trim_end(head) == trim_end(s@.subrange(lo as int, hi as int)),
        decreases hi,
    {
        proof {
            let rest = s@.subrange(lo as int, hi as int);
            assert(rest.drop_last() =~= s@.subrange(lo as int, hi - 1));
            assert(rest.last() == s@[hi - 1]);
        }
        hi = hi - 1;
    }
    vstd::slice::slice_subrange(s, lo, hi)
}

/// The pieces of `s` between the occurrences of `sep`: one more than there are
/// occurrences.
pub open spec fn split_at_char(s: Seq<char>, sep: char) -> Seq<Seq<char>>
    decreases s.len(),
{
    if s.len() == 0 {
        seq![Seq::<char>::empty()]
    } else {
        let before = split_at_char(s.drop_last(), sep);
        if s.last() == sep {
            before.push(Seq::<char>::empty())
        } else {
            before.drop_last().push(before.last().push(s.last()))
        }
    }
}

/// The views of a list of texts.
pub open spec fn views(v: Seq<Vec<char>>) -> Seq<Seq<char>> {
    v.map_values(|x: Vec<char>| x@)
}

/// There is always at least one piece.
pub proof fn lemma_split_nonempty(s: Seq<char>, sep: char)
    ensures
        split_at_char(s, sep).len() >= 1,
    decreases s.len(),
{
    if s.len() > 0 {
        lemma_split_nonempty(s.drop_last(), sep);
    }
}

/// The pieces of `s` between the occurrences of `sep`.
pub fn split_on(s: &[char], sep: char) -> (out: Vec<Vec<char>>)
    ensures
        views(out@) == split_at_char(s@, sep),
        out@.len() >= 1,
{
    let mut out: Vec<Vec<char>> = Vec::new();
    let mut piece: Vec<char> = Vec::new();
    let mut i: usize = 0;
    assert(views(out@).push(piece@) =~= split_at_char(s@.subrange(0, 0), sep));
    while i < s.len()
        invariant
            0 <= i <= s.len(),
            views(out@).push(piece@) == split_at_char(s@.subrange(0, i as int), sep),
        decreases s.len() - i,
    {
        proof {
            let now = s@.subrange(0, i + 1);
            assert(now.drop_last() =~= s@.subrange(0, i as int));
            assert(now.last() == s@[i as int]);
        }
        let ghost before = views(out@).push(piece@);
        assert(before.drop_last() =~= views(out@));
        if s[i] == sep {
            out.push(piece);
            piece = Vec::new();
            assert(views(out@) =~= before);
        } else {
            piece.push(s[i]);
        }
        i = i + 1;
    }
    let ghost before = views(out@).push(piece@);
    out.push(piece);
    assert(views(out@) =~= before);
    assert(s@.subrange(0, s@.len() as int) =~= s@);
    out
}

/// The text without one carriage return at its end.
pub open spec fn without_cr(s: Seq<char>) -> Seq<char> {
    if s.len() > 0 && s.last() == '\r' {
        s.drop_last()
    } else {
        s
    }
}

/// The lines of a text. A line ends with a line feed, before which a carriage
/// return does not count; what follows the last line feed is a line unless it
/// is empty.
pub open spec fn lines(s: Seq<char>) -> Seq<Seq<char>> {
    let pieces = split_at_char(s, '\n');
    let whole = pieces.drop_last().map_values(|p: Seq<char>| without_cr(p));
    if pieces.last().len() == 0 {
        whole
    } else {
        whole.push(pieces.last())
    }
}

/// The lines of a text.
pub fn split_lines(s: &[char]) -> (out: Vec<Vec<char>>)
    ensures
        views(out@) == lines(s@),
{
    let mut out = split_on(s, '\n');
    let ghost pieces = split_at_char(s@, '\n');
    let n = out.len();
    let mut i: usize = 0;
    while i < n - 1
        invariant
            n >= 1,
            out@.len() == n,
            pieces.len() == n,
            0 <= i <= n - 1,
            forall|j: int| 0 <= j < i ==> (#[trigger] out@[j])@ == without_cr(pieces[j]),
            forall|j: int| i <= j < n ==> (#[trigger] out@[j])@ == pieces[j],
        decreases n - i,
    {
        let len = out[i].len();
        assert(out@[i as int]@ == pieces[i as int]);
        if len > 0 && out[i][len - 1] == '\r' {
            let line = &mut out[i];
            line.pop();
            assert(line@ =~= without_cr(pieces[i as int]));
        }
        i = i + 1;
    }
    let last_empty = out[n - 1].len() == 0;
    assert(out@[n - 1]@ == pieces[n - 1]);
    if last_empty {
        out.pop();
    }
    assert(views(out@) =~= lines(s@));
    out
}

/// The words of a text: its longest runs without white space.
pub open spec fn words(s: Seq<char>) -> Seq<Seq<char>>
    decreases s.len(),
{
    if s.len() == 0 {
        Seq::empty()
    } else {
        let before = words(s.drop_last());
        if is_space(s.last()) {
            before
        } else if s.len() >= 2 && !is_space(s[s.len() - 2]) {
            before.drop_last().push(before.last().push(s.last()))
        } else {
            before.push(seq![s.last()])
        }
    }
}

/// After a character that is no white space, a word is open.
proof fn lemma_open_word(s: Seq<char>)
    requires
        s.len() > 0,
        !is_space(s.last()),
    ensures
        words(s).len() > 0,
    decreases s.len(),
{
    if s.len() >= 2 && !is_space(s[s.len() - 2]) {
        lemma_open_word(s.drop_last());
    }
}

/// The words of a text.
pub fn split_words(s: &[char]) -> (out: Vec<Vec<char>>)
    ensures
        views(out@) == words(s@),
{
    let mut out: Vec<Vec<char>> = Vec::new();
    let mut i: usize = 0;
    assert(views(out@) =~= words(s@.subrange(0, 0)));
    while i < s.len()
        invariant
            0 <= i <= s.len(),
            views(out@) == words(s@.subrange(0, i as int)),
        decreases s.len() - i,
    {
        let ghost done = s@.subrange(0, i as int);
        let ghost now = s@.subrange(0, i + 1);
        let ghost before = views(out@);
        proof {
            assert(now.drop_last() =~= done);
            assert(now.last() == s@[i as int]);
        }
        let c = s[i];
        if !is_white_space(c) {
            if i > 0 && !is_white_space(s[i - 1]) {
                proof {
                    assert(done.last() == s@[i - 1]);
                    lemma_open_word(done);
                    assert(before.len() > 0);
                }
                let n = out.len();
                let word = &mut out[n - 1];
                word.push(c);
                assert(views(out@) =~= before.drop_last().push(before.last().push(c)));
            } else {
                let mut word: Vec<char> = Vec::new();
                word.push(c);
                out.push(word);
                assert(word@ =~= seq![c]);
                assert(views(out@) =~= before.push(seq![c]));
            }
        }
        i = i + 1;
    }
    assert(s@.subrange(0, s@.len() as int) =~= s@);
    out
}

/// Where `a` or `b` first occurs in `s`, from position `i` on.
pub open spec fn first_of_from(s: Seq<char>, a: char, b: char, i: int) -> Option<int>
    decreases s.len() - i,
{
    if i < 0 || i >= s.len() {
        None
    } else if s[i] == a || s[i] == b {
        Some(i)
    } else {
        first_of_from(s, a, b, i + 1)
    }
}

/// The text before and the text after the first `a` or `b`.
pub open spec fn halves(s: Seq<char>, a: char, b: char) -> Option<(Seq<char>, Seq<char>)> {
    match first_of_from(s, a, b, 0) {
        Some(i) => Some((s.subrange(0, i), s.subrange(i + 1, s.len() as int))),
        None => None,
    }
}

/// The views of two texts.
pub open spec fn pair_view(r: Option<(&[char], &[char])>) -> Option<(Seq<char>, Seq<char>)> {
    match r {
        Some((x, y)) => Some((x@, y@)),
        None => None,
    }
}

/// The text before and the text after the first `a` or `b`.
pub fn split_first(s: &[char], a: char, b: char) -> (r: Option<(&[char], &[char])>)
    ensures
        pair_view(r) == halves(s@, a, b),
{
    let mut i: usize = 0;
    while i < s.len()
        invariant
            0 <= i <= s.len(),
            first_of_from(s@, a, b, 0) == first_of_from(s@, a, b, i as int),
        decreases s.len() - i,
    {
        if s[i] == a || s[i] == b {
            return Some(
                (
                    vstd::slice::slice_subrange(s, 0, i),
                    vstd::slice::slice_subrange(s, i + 1, s.len()),
                ),
            );
        }
        i = i + 1;
    }
    None
}

// --- Reading numbers ---------------------------------------------------------

/// The number that a row of decimal digits spells; none where the row is empty
/// or holds anything else.
pub open spec fn digits_value(s: Seq<char>) -> Option<nat>
    decreases s.len(),
{
    if s.len() == 0 || !('0' <= s.last() <= '9') {
        None
    } else {
        let ones = (s.last() as int - '0' as int) as nat;
        if s.len() == 1 {
            Some(ones)
        } else {
            match digits_value(s.drop_last()) {
                Some(tens) => Some(10 * tens + ones),
                None => None,
            }
        }
    }
}

/// The number that an optional sign and a row of decimal digits spell.
pub open spec fn signed_value(s: Seq<char>) -> Option<int> {
    if s.len() > 0 && s[0] == '-' {
        match digits_value(s.subrange(1, s.len() as int)) {
            Some(n) => Some(-(n as int)),
            None => None,
        }
    } else if s.len() > 0 && s[0] == '+' {
        match digits_value(s.subrange(1, s.len() as int)) {
            Some(n) => Some(n as int),
            None => None,
        }
    } else {
        match digits_value(s) {
            Some(n) => Some(n as int),
            None => None,
        }
    }
}

/// The 32-bit number that a text spells.
pub open spec fn i32_value(s: Seq<char>) -> Option<int> {
    match signed_value(s) {
        Some(v) => if i32::MIN <= v <= i32::MAX {
            Some(v)
        } else {
            None
        },
        None => None,
    }
}

/// A row whose beginning already spells more than `bound` spells more than
/// `bound`, if it spells anything.
proof fn lemma_digits_grow(s: Seq<char>, i: int, bound: nat)
    requires
        0 < i <= s.len(),
        digits_value(s.subrange(0, i)) matches Some(v) ==> v > bound,
    ensures
        digits_value(s) matches Some(v) ==> v > bound,
    decreases s.len() - i,
{
    if i == s.len() {
        assert(s.subrange(0, i) =~= s);
    } else {
        let next = s.subrange(0, i + 1);
        assert(next.drop_last() =~= s.subrange(0, i));
        lemma_digits_grow(s, i + 1, bound);
    }
}

/// The number that a row of digits spells, where it is at most `bound`.
fn parse_digits(s: &[char], bound: u64) -> (r: Option<u64>)
    requires
        bound <= 0xffff_ffff_ffff,
    ensures
        r == match digits_value(s@) {
            Some(n) => if n <= bound {
                Some(n as u64)
            } else {
                None
            },
            None => None,
        },
{
    if s.len() == 0 {
        return None;
    }
    let mut acc: u64 = 0;
    let mut i: usize = 0;
    while i < s.len()
        invariant
            0 <= i <= s.len(),
            acc <= bound <= 0xffff_ffff_ffff,
            i == 0 ==> acc == 0,
            i > 0 ==> digits_value(s@.subrange(0, i as int)) == Some(acc as nat),
        decreases s.len() - i,
    {
        let c = s[i];
        let ghost now = s@.subrange(0, i + 1);
        proof {
            assert(now.drop_last() =~= s@.subrange(0, i as int));
            assert(now.last() == c);
        }
        if c < '0' || c > '9' {
            proof {
                assert(digits_value(now) is None);
                lemma_digits_grow(s@, i + 1, bound as nat);
            }
            return None;
        }
        let next: u64 = acc * 10 + (c as u64 - 48);
        assert(digits_value(now) == Some(next as nat));
        if next > bound {
            proof {
                lemma_digits_grow(s@, i + 1, bound as nat);
            }
            return None;
        }
        acc = next;
        i = i + 1;
    }
    assert(s@.subrange(0, s@.len() as int) =~= s@);
    Some(acc)
}

/// The 32-bit number that a text spells: an optional sign and decimal digits.
pub fn parse_i32(s: &[char]) -> (r: Option<i32>)
    ensures
        match r {
            Some(v) => i32_value(s@) == Some(v as int),
            None => i32_value(s@) is None,
        },
{
    if s.len() > 0 && s[0] == '-' {
        match parse_digits(vstd::slice::slice_subrange(s, 1, s.len()), 0x8000_0000) {
            Some(n) => {
                let v: i64 = -(n as i64);
                Some(v as i32)
            },
            None => None,
        }
    } else if s.len() > 0 && s[0] == '+' {
        match parse_digits(vstd::slice::slice_subrange(s, 1, s.len()), 0x7fff_ffff) {
            Some(n) => Some(n as i32),
            None => None,
        }
    } else {
        match parse_digits(s, 0x7fff_ffff) {
            Some(n) => Some(n as i32),
            None => None,
        }
    }
}

/// Reading the decimal form of a number gives the number.
pub proof fn law_decimal_reads_back(n: nat)
    ensures
        digits_value(decimal(n)) == Some(n),
    decreases n,
{
    if n >= 10 {
        law_decimal_reads_back(n / 10);
        assert(decimal(n).drop_last() =~= decimal(n / 10));
        lemma_decimal_nonempty(n / 10);
    }
}

/// A decimal form has at least one digit.
pub proof fn lemma_decimal_nonempty(n: nat)
    ensures
        decimal(n).len() > 0,
{
}

/// The last digit of a number is what is left of dividing it by ten, and the digits before
/// it are those of the tenth part.
pub proof fn law_numbers_are_written_in_tens(n: nat)
    ensures
        decimal(n).len() >= 1,
        decimal(n).last() as int == 48 + n % 10,
        n < 10 ==> decimal(n).len() == 1,
        n >= 10 ==> decimal(n).drop_last() == decimal(n / 10),
        decimal_int(n as int) == decimal(n),
        n > 0 ==> decimal_int(-n).len() > 0 && decimal_int(-n)[0] == '-' && decimal_int(
            -n,
        ).drop_first() == decimal(n),
{
    if n >= 10 {
        assert(decimal(n).drop_last() =~= decimal(n / 10));
    }
    lemma_decimal_nonempty(n);
    assert(decimal_int(-n) =~= if n == 0 {
        decimal(n)
    } else {
        seq!['-'] + decimal(n)
    });
    if n > 0 {
        assert(decimal_int(-n).drop_first() =~= decimal(n));
    }
}

/// A row of digits is read from the left, ten to each step; a row that is empty or holds
/// anything but digits spells nothing.
pub proof fn law_digits_are_read_from_the_left(s: Seq<char>, d: char)
    ensures
        digits_value(Seq::empty()) is None,
        !(48 <= d as int <= 57) ==> digits_value(s.push(d)) is None,
        48 <= d as int <= 57 && s.len() == 0 ==> digits_value(s.push(d)) == Some(
            (d as int - 48) as nat,
        ),
        48 <= d as int <= 57 && s.len() > 0 ==> match digits_value(s) {
            Some(v) => digits_value(s.push(d)) == Some((10 * v + (d as int - 48)) as nat),
            None => digits_value(s.push(d)) is None,
        },
{
    assert(s.push(d).drop_last() =~= s);
}

/// A sign in front of digits is the number's sign; numbers that 32 bits do not hold are not
/// read.
pub proof fn law_signs_are_read(s: Seq<char>)
    requires
        digits_value(s) is Some,
    ensures
        ({
            let v = digits_value(s)->0;
            &&& signed_value(seq!['-'] + s) == Some(-v)
            &&& signed_value(seq!['+'] + s) == Some(v as int)
            &&& i32_value(seq!['-'] + s) == if v <= 2_147_483_648 {
                Some(-v)
            } else {
                None
            }
            &&& i32_value(seq!['+'] + s) == if v <= 2_147_483_647 {
                Some(v as int)
            } else {
                None
            }
        }),
{
    assert((seq!['-'] + s).subrange(1, s.len() as int + 1) =~= s);
    assert((seq!['+'] + s).subrange(1, s.len() as int + 1) =~= s);
}

/// White space is the tab, the line ends, the space and the other characters that Unicode
/// names so.
pub proof fn law_these_are_white_space(c: char)
    ensures
        is_space(c) <==> ({
            ||| c == '\t'
            ||| c == '\n'
            ||| c == '\u{b}'
            ||| c == '\u{c}'
            ||| c == '\r'
            ||| c == ' '
            ||| c == '\u{85}'
            ||| c == '\u{a0}'
            ||| c == '\u{1680}'
            ||| '\u{2000}' <= c <= '\u{200a}'
            ||| c == '\u{2028}'
            ||| c == '\u{2029}'
            ||| c == '\u{202f}'
            ||| c == '\u{205f}'
            ||| c == '\u{3000}'
        }),
{
}

/// A capital letter becomes the small letter at the same place in the alphabet; nothing
/// else changes.
pub proof fn law_capitals_become_small(c: char)
    ensures
        65 <= c as int <= 90 ==> lower(c) as int - 97 == c as int - 65,
        !(65 <= c as int <= 90) ==> lower(c) == c,
        lower(lower(c)) == lower(c),
{
}

proof fn lemma_trim_start(s: Seq<char>) -> (i: int)
    ensures
        0 <= i <= s.len(),
        trim_start(s) == s.subrange(i, s.len() as int),
        forall|k: int| 0 <= k < i ==> is_space(#[trigger] s[k]),
        i < s.len() ==> !is_space(s[i]),
    decreases s.len(),
{
    if s.len() > 0 && is_space(s[0]) {
        let t = s.subrange(1, s.len() as int);
        let j = lemma_trim_start(t);
        assert(t.subrange(j, t.len() as int) =~= s.subrange(j + 1, s.len() as int));
        assert forall|k: int| 0 <= k < j + 1 implies is_space(#[trigger] s[k]) by {
            if k > 0 {
                assert(s[k] == t[k - 1]);
            }
        }
        j + 1
    } else {
        assert(s.subrange(0, s.len() as int) =~= s);
        0
    }
}

proof fn lemma_trim_end(s: Seq<char>) -> (j: int)
    ensures
        0 <= j <= s.len(),
        trim_end(s) == s.subrange(0, j),
        forall|k: int| j <= k < s.len() ==> is_space(#[trigger] s[k]),
        j > 0 ==> !is_space(s[j - 1]),
    decreases s.len(),
{
    if s.len() > 0 && is_space(s.last()) {
        let j = lemma_trim_end(s.drop_last());
        assert(s.drop_last().subrange(0, j) =~= s.subrange(0, j));
        assert forall|k: int| j <= k < s.len() implies is_space(#[trigger] s[k]) by {
            if k < s.len() - 1 {
                assert(s[k] == s.drop_last()[k]);
            }
        }
        j
    } else {
        assert(s.subrange(0, s.len() as int) =~= s);
        s.len() as int
    }
}

/// The text has nothing but white space before `i` and from `j` on, and none next to
/// these places inside.
pub open spec fn lies_between(s: Seq<char>, i: int, j: int) -> bool {
    &&& 0 <= i <= j <= s.len()
    &&& forall|k: int| 0 <= k < i || j <= k < s.len() ==> is_space(#[trigger] s[k])
    &&& i < j ==> !is_space(s[i]) && !is_space(s[j - 1])
}

/// Trimming takes the white space off both ends, all of it and nothing else.
pub proof fn law_trimming_takes_white_space_off_the_ends(s: Seq<char>)
    ensures
        exists|i: int, j: int| #[trigger] lies_between(s, i, j) && trimmed(s) == s.subrange(i, j),
{
    let i = lemma_trim_start(s);
    let t = trim_start(s);
    let n = lemma_trim_end(t);
    let j = i + n;
    assert(t.subrange(0, n) =~= s.subrange(i, j));
    assert forall|k: int| 0 <= k < i || j <= k < s.len() implies is_space(#[trigger] s[k]) by {
        if k >= j {
            assert(s[k] == t[k - i]);
        }
    }
    if i < j {
        assert(s[j - 1] == t[n - 1]);
    }
    assert(lies_between(s, i, j));
}

/// The pieces with the separator between them.
pub open spec fn rejoined(pieces: Seq<Seq<char>>, sep: char) -> Seq<char>
    decreases pieces.len(),
{
    if pieces.len() == 0 {
        Seq::empty()
    } else if pieces.len() == 1 {
        pieces[0]
    } else {
        rejoined(pieces.drop_last(), sep).push(sep) + pieces.last()
    }
}

/// The pieces of a text hold no separator, and with separators between them they are the
/// text again.
pub proof fn law_pieces_make_the_text(s: Seq<char>, sep: char)
    ensures
        rejoined(split_at_char(s, sep), sep) == s,
        forall|i: int|
            0 <= i < split_at_char(s, sep).len() ==> !(#[trigger] split_at_char(s, sep)[i]).contains(
                sep,
            ),
    decreases s.len(),
{
    let ps = split_at_char(s, sep);
    if s.len() > 0 {
        let before = split_at_char(s.drop_last(), sep);
        law_pieces_make_the_text(s.drop_last(), sep);
        lemma_split_nonempty(s.drop_last(), sep);
        assert(s.drop_last().push(s.last()) =~= s);
        if s.last() == sep {
            assert(ps.drop_last() =~= before);
            assert(rejoined(ps, sep) =~= s);
        } else {
            assert(ps.drop_last() =~= before.drop_last());
            assert(rejoined(ps, sep) =~= s);
            let l = before.last();
            assert(!l.contains(sep));
            assert forall|i: int| 0 <= i < l.push(s.last()).len() implies l.push(s.last())[i]
                != sep by {
                if i < l.len() {
                    assert(l[i] != sep);
                }
            }
        }
    }
}

proof fn lemma_pieces_grow(s: Seq<char>, line: Seq<char>, sep: char)
    requires
        !line.contains(sep),
        split_at_char(s, sep).last().len() == 0,
    ensures
        split_at_char(s + line, sep) == split_at_char(s, sep).drop_last().push(line),
    decreases line.len(),
{
    let ps = split_at_char(s, sep);
    lemma_split_nonempty(s, sep);
    if line.len() == 0 {
        assert(s + line =~= s);
        assert(ps.drop_last().push(line) =~= ps) by {
            assert(ps.last() =~= line);
        }
    } else {
        let l = line.drop_last();
        assert forall|i: int| 0 <= i < l.len() implies l[i] != sep by {
            assert(l[i] == line[i]);
        }
        lemma_pieces_grow(s, l, sep);
        assert((s + line).drop_last() =~= s + l);
        assert(line.last() == line[line.len() - 1]);
        let before = ps.drop_last().push(l);
        assert(before.drop_last() =~= ps.drop_last());
        assert(l.push(line.last()) =~= line);
    }
}

/// After a line end, what a line feed closes is a line, without a carriage return right
/// before it; and what nothing closes is one as it is, unless it is empty.
pub proof fn law_lines_are_closed_by_line_feeds(s: Seq<char>, line: Seq<char>)
    requires
        s.len() == 0 || s.last() == '\n',
        !line.contains('\n'),
    ensures
        line.len() == 0 ==> lines(s + line) == lines(s),
        line.len() > 0 ==> lines(s + line) == lines(s).push(line),
        line.len() == 0 || line.last() != '\r' ==> lines(s + line.push('\n')) == lines(s).push(line),
        lines(s + line.push('\r').push('\n')) == lines(s).push(line),
{
    let f = |p: Seq<char>| without_cr(p);
    let ps = split_at_char(s, '\n');
    lemma_split_nonempty(s, '\n');
    lemma_pieces_grow(s, line, '\n');
    let cr = line.push('\r');
    assert forall|i: int| 0 <= i < cr.len() implies cr[i] != '\n' by {
        if i < line.len() {
            assert(cr[i] == line[i]);
        }
    }
    lemma_pieces_grow(s, cr, '\n');
    assert(ps.drop_last().push(line).drop_last() =~= ps.drop_last());
    assert((s + line.push('\n')).drop_last() =~= s + line);
    assert((s + cr.push('\n')).drop_last() =~= s + cr);
    assert(split_at_char(s + line.push('\n'), '\n').drop_last() =~= ps.drop_last().push(line));
    assert(split_at_char(s + cr.push('\n'), '\n').drop_last() =~= ps.drop_last().push(cr));
    assert(ps.drop_last().push(line).map_values(f) =~= ps.drop_last().map_values(f).push(
        without_cr(line),
    ));
    assert(ps.drop_last().push(cr).map_values(f) =~= ps.drop_last().map_values(f).push(
        without_cr(cr),
    ));
    assert(cr.drop_last() =~= line);
}

/// All words, one directly after the other.
pub open spec fn run_together(ws: Seq<Seq<char>>) -> Seq<char>
    decreases ws.len(),
{
    if ws.len() == 0 {
        Seq::empty()
    } else {
        run_together(ws.drop_last()) + ws.last()
    }
}

/// The text without its white space.
pub open spec fn unspaced(s: Seq<char>) -> Seq<char>
    decreases s.len(),
{
    if s.len() == 0 {
        s
    } else if is_space(s.last()) {
        unspaced(s.drop_last())
    } else {
        unspaced(s.drop_last()).push(s.last())
    }
}

/// The words of a text are everything in it but the white space, in order; white space
/// ends a word, and what follows it begins another.
pub proof fn law_words_lie_between_white_space(s: Seq<char>, space: char, c: char)
    requires
        is_space(space),
        !is_space(c),
    ensures
        run_together(words(s)) == unspaced(s),
        words(s.push(space)) == words(s),
        words(s.push(space).push(c)) == words(s).push(seq![c]),
        words(s.push(c)).len() > 0,
        s.len() > 0 && !is_space(s.last()) ==> words(s.push(c)).len() == words(s).len(),
    decreases s.len(),
{
    assert(s.push(space).drop_last() =~= s);
    assert(s.push(space).push(c).drop_last() =~= s.push(space));
    assert(s.push(c).drop_last() =~= s);
    lemma_open_word(s.push(c));
    if s.len() > 0 {
        let before = words(s.drop_last());
        law_words_lie_between_white_space(s.drop_last(), space, c);
        if !is_space(s.last()) {
            if s.len() >= 2 && !is_space(s[s.len() - 2]) {
                lemma_open_word(s.drop_last());
                assert(words(s).drop_last() =~= before.drop_last());
                assert(run_together(words(s)) =~= run_together(before).push(s.last()));
            } else {
                assert(words(s).drop_last() =~= before);
                assert(run_together(words(s)) =~= run_together(before).push(s.last()));
            }
            lemma_open_word(s);
        }
    }
}

/// A search finds the first of the two characters, and nothing only where neither occurs.
pub proof fn law_the_first_is_found(s: Seq<char>, a: char, b: char, i: int)
    requires
        0 <= i <= s.len(),
    ensures
        match first_of_from(s, a, b, i) {
            Some(k) => {
                &&& i <= k < s.len()
                &&& s[k] == a || s[k] == b
                &&& forall|j: int| i <= j < k ==> #[trigger] s[j] != a && s[j] != b
            },
            None => forall|j: int| i <= j < s.len() ==> #[trigger] s[j] != a && s[j] != b,
        },
    decreases s.len() - i,
{
    if i < s.len() && s[i] != a && s[i] != b {
        law_the_first_is_found(s, a, b, i + 1);
    }
}

/// The two parts of a text around a separator are the text again, and the first part has
/// no separator in it.
pub proof fn law_halves_lie_around_the_separator(s: Seq<char>, a: char, b: char)
    ensures
        match halves(s, a, b) {
            Some((x, y)) => {
                &&& x + seq![s[x.len() as int]] + y == s
                &&& s[x.len() as int] == a || s[x.len() as int] == b
                &&& !x.contains(a) && !x.contains(b)
            },
            None => !s.contains(a) && !s.contains(b),
        },
{
    law_the_first_is_found(s, a, b, 0);
    if let Some((x, y)) = halves(s, a, b) {
        assert(x + seq![s[x.len() as int]] + y =~= s);
    }
}

} // verus!
