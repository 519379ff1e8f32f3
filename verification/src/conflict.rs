//! Where an incoming file goes: inside the download directory, and under a name
//! that the conflict policy allows.

use crate::config::ConflictPolicy;
use crate::text::{
    chars_of, decimal, push_decimal, same_chars, spells, split_at_char, split_on, string_of, views,
};
use vstd::prelude::*;

verus! {

/// Why a transfer fails.
#[derive(Debug)]
pub enum TransferError {
    /// A chunk that does not continue the file.
    WrongOffset { expected: u64, got: u64 },
    /// The contents do not have the hash that was announced.
    HashMismatch(String),
    /// The peer gave up.
    Cancelled(String),
    /// The path leads out of the download directory.
    UnsafePath(String),
    /// The peer closed the stream before the transfer was complete.
    Closed,
    /// The peer did not open with an offer.
    NoOffer,
}

// --- Paths -------------------------------------------------------------------

/// The components of a path among its first `n` pieces between slashes. Empty
/// pieces do not count, nor does a dot that is not the first piece.
pub open spec fn kept_pieces(pieces: Seq<Seq<char>>, n: int) -> Seq<Seq<char>>
    decreases n,
{
    if n <= 0 {
        Seq::empty()
    } else {
        let before = kept_pieces(pieces, n - 1);
        let p = pieces[n - 1];
        if p.len() == 0 || (p == "."@ && n > 1) {
            before
        } else {
            before.push(p)
        }
    }
}

/// The components of a path.
pub open spec fn components(path: Seq<char>) -> Seq<Seq<char>> {
    let pieces = split_at_char(path, '/');
    kept_pieces(pieces, pieces.len() as int)
}

/// The path starts at the root of the file system.
pub open spec fn is_absolute(path: Seq<char>) -> bool {
    path.len() > 0 && path[0] == '/'
}

/// How deep the first `n` components lead: each goes one down, `..` one up, and
/// a dot nowhere.
pub open spec fn depth(cs: Seq<Seq<char>>, n: int) -> int
    decreases n,
{
    if n <= 0 {
        0
    } else if cs[n - 1] == ".."@ {
        depth(cs, n - 1) - 1
    } else if cs[n - 1] == "."@ {
        depth(cs, n - 1)
    } else {
        depth(cs, n - 1) + 1
    }
}

/// The components never lead above where they start.
pub open spec fn stays_below(cs: Seq<Seq<char>>) -> bool {
    forall|n: int| 0 <= n <= cs.len() ==> #[trigger] depth(cs, n) >= 0
}

/// `dest` is `root` or something below it: it starts with the components of
/// `root`, and what follows does not lead out again.
pub open spec fn inside(root: Seq<char>, dest: Seq<char>) -> bool {
    let r = components(root);
    let d = components(dest);
    &&& is_absolute(root) == is_absolute(dest)
    &&& r.is_prefix_of(d)
    &&& stays_below(d.subrange(r.len() as int, d.len() as int))
}

/// The components of a path.
fn split_path(path: &[char]) -> (out: Vec<Vec<char>>)
    ensures
        views(out@) == components(path@),
{
    let pieces = split_on(path, '/');
    let ghost ps = split_at_char(path@, '/');
    let mut out: Vec<Vec<char>> = Vec::new();
    let mut i: usize = 0;
    assert(views(out@) =~= kept_pieces(ps, 0));
    while i < pieces.len()
        invariant
            0 <= i <= pieces.len(),
            ps == views(pieces@),
            views(out@) == kept_pieces(ps, i as int),
        decreases pieces.len() - i,
    {
        assert(ps[i as int] == pieces@[i as int]@);
        let p = pieces[i].as_slice();
        if !(p.len() == 0 || (i > 0 && spells(p, "."))) {
            let ghost before = views(out@);
            let piece = vstd::slice::slice_to_vec(p);
            out.push(piece);
            assert(views(out@) =~= before.push(piece@));
        }
        i = i + 1;
    }
    out
}

/// Whether `dest` is `root` or something below it.
pub fn is_inside(root: &str, dest: &str) -> (b: bool)
    ensures
        b == inside(root@, dest@),
{
    let rc = chars_of(root);
    let dc = chars_of(dest);
    let root_abs = rc.len() > 0 && rc[0] == '/';
    let dest_abs = dc.len() > 0 && dc[0] == '/';
    if root_abs != dest_abs {
        return false;
    }
    let r = split_path(rc.as_slice());
    let d = split_path(dc.as_slice());
    let ghost sr = components(root@);
    let ghost sd = components(dest@);
    if r.len() > d.len() {
        return false;
    }
    let mut i: usize = 0;
    while i < r.len()
        invariant
            0 <= i <= r.len() <= d.len(),
            sr == views(r@),
            sd == views(d@),
            sr == components(root@),
            sd == components(dest@),
            forall|j: int| 0 <= j < i ==> sr[j] == sd[j],
        decreases r.len() - i,
    {
        assert(sr[i as int] == r@[i as int]@ && sd[i as int] == d@[i as int]@);
        if !same_chars(r[i].as_slice(), d[i].as_slice()) {
            return false;
        }
        i = i + 1;
    }
    assert(sr =~= sd.subrange(0, sr.len() as int));
    let ghost rest = sd.subrange(sr.len() as int, sd.len() as int);
    let mut below: usize = 0;
    let mut k: usize = r.len();
    while k < d.len()
        invariant
            sr.len() <= k <= d.len(),
            sr.len() == r@.len(),
            sd == views(d@),
            sr == components(root@),
            sd == components(dest@),
            rest == sd.subrange(sr.len() as int, sd.len() as int),
            below == depth(rest, k - sr.len()),
            0 <= below <= k,
            forall|n: int| 0 <= n <= k - sr.len() ==> #[trigger] depth(rest, n) >= 0,
        decreases d.len() - k,
    {
        assert(sd[k as int] == d@[k as int]@);
        assert(rest[k - sr.len()] == sd[k as int]);
        assert(depth(rest, k + 1 - sr.len()) <= below + 1);
        if spells(d[k].as_slice(), "..") {
            if below == 0 {
                assert(depth(rest, k + 1 - sr.len()) < 0);
                return false;
            }
            below = below - 1;
        } else if !spells(d[k].as_slice(), ".") {
            below = below + 1;
        }
        k = k + 1;
    }
    true
}

// --- Names -------------------------------------------------------------------

/// Where the last dot of a name stands, among its first `n` characters.
pub open spec fn last_dot(name: Seq<char>, n: int) -> Option<int>
    decreases n,
{
    if n <= 0 {
        None
    } else if name[n - 1] == '.' {
        Some(n - 1)
    } else {
        last_dot(name, n - 1)
    }
}

/// A name parted into its stem and its extension: at the last dot, unless that
/// is the first character.
pub open spec fn parted(name: Seq<char>) -> (Seq<char>, Option<Seq<char>>) {
    match last_dot(name, name.len() as int) {
        Some(i) => if i > 0 {
            (name.subrange(0, i), Some(name.subrange(i + 1, name.len() as int)))
        } else {
            (name, None)
        },
        None => (name, None),
    }
}

/// The stem and the extension of the file that a path names. A path that names
/// none counts as `file`.
pub open spec fn stem_and_extension(path: Seq<char>) -> (Seq<char>, Option<Seq<char>>) {
    let cs = components(path);
    if cs.len() == 0 || cs.last() == ".."@ || cs.last() == "."@ {
        ("file"@, None)
    } else {
        parted(cs.last())
    }
}

/// The `n`th name for a file: the number in round brackets goes between stem and
/// extension.
pub open spec fn numbered(stem: Seq<char>, ext: Option<Seq<char>>, n: nat) -> Seq<char> {
    let base = stem + " ("@ + decimal(n) + ")"@;
    match ext {
        Some(e) => base + "."@ + e,
        None => base,
    }
}

/// The first number, from `n` on and below 10000, whose name is not taken.
pub open spec fn first_free(
    stem: Seq<char>,
    ext: Option<Seq<char>>,
    taken: Seq<Seq<char>>,
    n: int,
) -> Option<int>
    decreases 10_000 - n,
{
    if n < 0 || n >= 10_000 {
        None
    } else if !taken.contains(numbered(stem, ext, n as nat)) {
        Some(n)
    } else {
        first_free(stem, ext, taken, n + 1)
    }
}

/// The name that a file gets whose own name is taken: with the first free number
/// from 2 on; with the ending `.dup` where all are taken.
pub open spec fn fresh_name(path: Seq<char>, taken: Seq<Seq<char>>) -> Seq<char> {
    let (stem, ext) = stem_and_extension(path);
    match first_free(stem, ext, taken, 2) {
        Some(n) => numbered(stem, ext, n as nat),
        None => stem + ".dup"@,
    }
}

/// The directory that a path lies in, up to and with the slash that ends it.
pub open spec fn directory(path: Seq<char>) -> Seq<char> {
    let cs = components(path);
    let start = if is_absolute(path) {
        "/"@
    } else {
        ""@
    };
    if cs.len() == 0 {
        "./"@
    } else {
        start + slashed(cs.drop_last())
    }
}

/// Each component followed by a slash.
pub open spec fn slashed(cs: Seq<Seq<char>>) -> Seq<char>
    decreases cs.len(),
{
    if cs.len() == 0 {
        Seq::empty()
    } else {
        slashed(cs.drop_last()) + cs.last() + "/"@
    }
}

/// The views of a list of strings.
pub open spec fn texts(v: Seq<String>) -> Seq<Seq<char>> {
    v.map_values(|s: String| s@)
}

/// Whether the name is among those taken.
fn is_taken(taken: &Vec<String>, name: &String) -> (b: bool)
    ensures
        b == texts(taken@).contains(name@),
{
    let mut i: usize = 0;
    while i < taken.len()
        invariant
            0 <= i <= taken.len(),
            forall|j: int| 0 <= j < i ==> (#[trigger] taken@[j])@ != name@,
        decreases taken.len() - i,
    {
        if taken[i] == *name {
            assert(texts(taken@)[i as int] == name@);
            return true;
        }
        i = i + 1;
    }
    assert forall|j: int| 0 <= j < texts(taken@).len() implies texts(taken@)[j] != name@ by {
        assert(taken@[j]@ != name@);
    }
    false
}

fn numbered_name(stem: &String, ext: &Option<String>, n: u64) -> (s: String)
    ensures
        s@ == numbered(
            stem@,
            match ext {
                Some(e) => Some(e@),
                None => None,
            },
            n as nat,
        ),
{
    let mut s = stem.clone();
    s.append(" (");
    push_decimal(&mut s, n);
    s.append(")");
    if let Some(e) = ext {
        s.append(".");
        s.append(e.as_str());
    }
    s
}

fn part_name(name: &[char]) -> (r: (String, Option<String>))
    ensures
        r.0@ == parted(name@).0,
        match r.1 {
            Some(e) => parted(name@).1 == Some(e@),
            None => parted(name@).1 is None,
        },
{
    let mut n: usize = name.len();
    while n > 0
        invariant
            0 <= n <= name.len(),
            last_dot(name@, name@.len() as int) == last_dot(name@, n as int),
        decreases n,
    {
        if name[n - 1] == '.' {
            if n - 1 > 0 {
                let stem = string_of(vstd::slice::slice_subrange(name, 0, n - 1));
                let ext = string_of(vstd::slice::slice_subrange(name, n, name.len()));
                return (stem, Some(ext));
            }
            return (string_of(name), None);
        }
        n = n - 1;
    }
    (string_of(name), None)
}

/// The path of a file whose own name is taken, under a name that is free:
/// `/x/report.pdf` becomes `/x/report (2).pdf`. `taken` holds the names in the
/// directory.
pub fn unique_name(dest: &str, taken: &Vec<String>) -> (p: String)
    ensures
        p@ == directory(dest@) + fresh_name(dest@, texts(taken@)),
{
    let chars = chars_of(dest);
    let cs = split_path(chars.as_slice());
    let ghost scs = components(dest@);
    let n = cs.len();
    let mut path = String::new();
    if n == 0 {
        path.append("./");
        assert(path@ =~= directory(dest@));
    } else {
        if chars.len() > 0 && chars[0] == '/' {
            path.append("/");
        }
        let ghost start = path@;
        proof {
            if is_absolute(dest@) {
                assert(start =~= "/"@);
            } else {
                reveal_strlit("");
                assert(start =~= ""@);
            }
        }
        let mut i: usize = 0;
        assert(path@ =~= start + slashed(scs.subrange(0, 0)));
        while i < n - 1
            invariant
                0 <= i <= n - 1,
                n == cs@.len(),
                scs == views(cs@),
                path@ == start + slashed(scs.subrange(0, i as int)),
            decreases n - i,
        {
            proof {
                let now = scs.subrange(0, i + 1);
                assert(now.drop_last() =~= scs.subrange(0, i as int));
                assert(now.last() == cs@[i as int]@);
            }
            let ghost before = path@;
            path.append(string_of(cs[i].as_slice()).as_str());
            path.append("/");
            assert(path@ =~= start + slashed(scs.subrange(0, i + 1)));
            i = i + 1;
        }
        assert(scs.drop_last() =~= scs.subrange(0, n - 1));
        assert(path@ == directory(dest@));
    }
    let ghost dir = path@;
    let stem: String;
    let ext: Option<String>;
    if n == 0 {
        stem = "file".to_owned();
        ext = None;
    } else {
        assert(scs.last() == cs@[n - 1]@);
        if spells(cs[n - 1].as_slice(), "..") || spells(cs[n - 1].as_slice(), ".") {
            stem = "file".to_owned();
            ext = None;
        } else {
            let p = part_name(cs[n - 1].as_slice());
            stem = p.0;
            ext = p.1;
        }
    }
    let ghost sext = stem_and_extension(dest@).1;
    let ghost names = texts(taken@);
    assert(stem@ == stem_and_extension(dest@).0);
    let mut k: u64 = 2;
    while k < 10_000
        invariant
            2 <= k <= 10_000,
            path@ == dir,
            dir == directory(dest@),
            names == texts(taken@),
            stem@ == stem_and_extension(dest@).0,
            sext == stem_and_extension(dest@).1,
            match ext {
                Some(e) => sext == Some(e@),
                None => sext is None,
            },
            first_free(stem@, sext, names, 2) == first_free(stem@, sext, names, k as int),
        decreases 10_000 - k,
    {
        let name = numbered_name(&stem, &ext, k);
        if !is_taken(taken, &name) {
            path.append(name.as_str());
            return path;
        }
        k = k + 1;
    }
    path.append(stem.as_str());
    path.append(".dup");
    assert(path@ =~= dir + (stem@ + ".dup"@));
    path
}

/// Where an incoming file goes: nowhere where it is skipped, and an error with the path
/// where that leads out of the root.
pub open spec fn resolution(
    root: Seq<char>,
    dest: Seq<char>,
    occupied: bool,
    taken: Seq<Seq<char>>,
    policy: ConflictPolicy,
) -> Result<Option<Seq<char>>, Seq<char>> {
    if !inside(root, dest) {
        Err(dest)
    } else if !occupied || policy == ConflictPolicy::Overwrite {
        Ok(Some(dest))
    } else if policy == ConflictPolicy::Skip {
        Ok(None)
    } else {
        Ok(Some(directory(dest) + fresh_name(dest, taken)))
    }
}

/// Where an incoming file goes that is meant for `dest` under `root`. `occupied`
/// says whether something is there already, and `taken` holds the names in its
/// directory.
///
/// `Ok(None)` means that the file is skipped. The policy to ask the user has
/// been settled before; where it gets here, the file is renamed, which loses
/// nothing.
pub fn resolve_conflict(
    root: &str,
    dest: &str,
    occupied: bool,
    taken: &Vec<String>,
    policy: ConflictPolicy,
) -> (r: Result<Option<String>, TransferError>)
    ensures
        match resolution(root@, dest@, occupied, texts(taken@), policy) {
            Ok(Some(path)) => r matches Ok(Some(p)) && p@ == path,
            Ok(None) => r == Ok::<Option<String>, TransferError>(None),
            Err(path) => r matches Err(TransferError::UnsafePath(p)) && p@ == path,
        },
{
    if !is_inside(root, dest) {
        return Err(TransferError::UnsafePath(dest.to_owned()));
    }
    if !occupied {
        return Ok(Some(dest.to_owned()));
    }
    match policy {
        ConflictPolicy::Overwrite => Ok(Some(dest.to_owned())),
        ConflictPolicy::Skip => Ok(None),
        ConflictPolicy::Rename | ConflictPolicy::Ask => Ok(Some(unique_name(dest, taken))),
    }
}

/// A file that is renamed replaces nothing, as long as one of the numbered names
/// is free; and it gets the lowest free number.
pub proof fn law_renaming_clobbers_nothing(path: Seq<char>, taken: Seq<Seq<char>>, n: int)
    requires
        2 <= n < 10_000,
        !taken.contains(
            numbered(stem_and_extension(path).0, stem_and_extension(path).1, n as nat),
        ),
    ensures
        !taken.contains(fresh_name(path, taken)),
        first_free(stem_and_extension(path).0, stem_and_extension(path).1, taken, 2) matches Some(k)
            && k <= n,
{
    let (stem, ext) = stem_and_extension(path);
    lemma_first_free(stem, ext, taken, 2, n);
}

proof fn lemma_first_free(
    stem: Seq<char>,
    ext: Option<Seq<char>>,
    taken: Seq<Seq<char>>,
    i: int,
    n: int,
)
    requires
        0 <= i <= n < 10_000,
        !taken.contains(numbered(stem, ext, n as nat)),
    ensures
        first_free(stem, ext, taken, i) matches Some(k) && i <= k <= n && !taken.contains(
            numbered(stem, ext, k as nat),
        ),
    decreases n - i,
{
    if i < n && taken.contains(numbered(stem, ext, i as nat)) {
        lemma_first_free(stem, ext, taken, i + 1, n);
    }
}

/// How many of the first `n` components lead upwards.
pub open spec fn ups(cs: Seq<Seq<char>>, n: int) -> int
    decreases n,
{
    if n <= 0 {
        0
    } else if cs[n - 1] == ".."@ {
        ups(cs, n - 1) + 1
    } else {
        ups(cs, n - 1)
    }
}

/// How many of the first `n` components are names.
pub open spec fn downs(cs: Seq<Seq<char>>, n: int) -> int
    decreases n,
{
    if n <= 0 {
        0
    } else if cs[n - 1] != ".."@ && cs[n - 1] != "."@ {
        downs(cs, n - 1) + 1
    } else {
        downs(cs, n - 1)
    }
}

proof fn lemma_depth_counts(cs: Seq<Seq<char>>, n: int)
    requires
        0 <= n,
    ensures
        depth(cs, n) == downs(cs, n) - ups(cs, n),
    decreases n,
{
    reveal_strlit("..");
    reveal_strlit(".");
    assert(".."@.len() != "."@.len());
    if n > 0 {
        lemma_depth_counts(cs, n - 1);
    }
}

/// A path is inside a root exactly where both start at the root of the file system or
/// neither does, it begins with the components of the root, and at no point behind them
/// more components have led upwards than downwards.
pub proof fn law_paths_inside_never_climb_out(root: Seq<char>, dest: Seq<char>, n: int)
    requires
        0 <= n <= components(dest).len() - components(root).len(),
    ensures
        ({
            let (r, d) = (components(root), components(dest));
            let tail = d.subrange(r.len() as int, d.len() as int);
            &&& inside(root, dest) ==> ups(tail, n) <= downs(tail, n)
            &&& inside(root, dest) ==> d.subrange(0, r.len() as int) == r
            &&& inside(root, dest) ==> (root.len() > 0 && root[0] == '/' <==> dest.len() > 0
                && dest[0] == '/')
            &&& d.subrange(0, r.len() as int) == r && ups(tail, tail.len() as int) == 0 && (root.len()
                > 0 && root[0] == '/' <==> dest.len() > 0 && dest[0] == '/') ==> inside(root, dest)
            &&& inside(root, root)
        }),
{
    let (r, d) = (components(root), components(dest));
    let tail = d.subrange(r.len() as int, d.len() as int);
    lemma_depth_counts(tail, n);
    if inside(root, dest) {
        assert(depth(tail, n) >= 0);
        assert(d.subrange(0, r.len() as int) =~= r);
    }
    if ups(tail, tail.len() as int) == 0 {
        assert forall|k: int| 0 <= k <= tail.len() implies #[trigger] depth(tail, k) >= 0 by {
            lemma_depth_counts(tail, k);
            lemma_ups_grow(tail, k, tail.len() as int);
            lemma_downs(tail, k);
        }
        if d.subrange(0, r.len() as int) == r {
            assert(r.is_prefix_of(d));
        }
    }
    let none = r.subrange(r.len() as int, r.len() as int);
    assert forall|k: int| 0 <= k <= none.len() implies #[trigger] depth(none, k) >= 0 by {}
    assert(r.is_prefix_of(r));
}

proof fn lemma_ups_grow(cs: Seq<Seq<char>>, k: int, n: int)
    requires
        0 <= k <= n,
    ensures
        0 <= ups(cs, k) <= ups(cs, n),
    decreases n,
{
    if k < n {
        lemma_ups_grow(cs, k, n - 1);
    } else if n > 0 {
        lemma_ups_grow(cs, n - 1, n - 1);
    }
}

proof fn lemma_downs(cs: Seq<Seq<char>>, n: int)
    requires
        0 <= n,
    ensures
        downs(cs, n) >= 0,
    decreases n,
{
    if n > 0 {
        lemma_downs(cs, n - 1);
    }
}

/// A name is its stem and its extension with a dot between them, and the extension has no
/// dot; a name without an extension is its stem, and has no dot but one at its start.
pub proof fn law_names_are_stem_and_extension(name: Seq<char>)
    ensures
        ({
            let (stem, ext) = parted(name);
            match ext {
                Some(e) => {
                    &&& name == stem + seq!['.'] + e
                    &&& stem.len() > 0
                    &&& forall|i: int| 0 <= i < e.len() ==> e[i] != '.'
                },
                None => {
                    &&& stem == name
                    &&& forall|i: int| 0 < i < name.len() ==> name[i] != '.'
                },
            }
        }),
{
    lemma_last_dot(name, name.len() as int);
    if let (stem, Some(e)) = parted(name) {
        assert(name =~= stem + seq!['.'] + e);
    }
}

proof fn lemma_last_dot(name: Seq<char>, n: int)
    requires
        0 <= n <= name.len(),
    ensures
        match last_dot(name, n) {
            Some(k) => 0 <= k < n && name[k] == '.' && forall|i: int|
                k < i < n ==> name[i] != '.',
            None => forall|i: int| 0 <= i < n ==> name[i] != '.',
        },
    decreases n,
{
    if n > 0 {
        lemma_last_dot(name, n - 1);
    }
}

/// A numbered name keeps the stem in front and the extension at the end, and two numbers
/// give two names.
pub proof fn law_numbered_names_keep_both_ends(stem: Seq<char>, e: Seq<char>, n: nat)
    ensures
        numbered(stem, Some(e), n) == stem + (" ("@ + decimal(n) + ")"@ + "."@ + e),
        numbered(stem, None, n) == stem + (" ("@ + decimal(n) + ")"@),
{
    assert(numbered(stem, Some(e), n) =~= stem + (" ("@ + decimal(n) + ")"@ + "."@ + e));
    assert(numbered(stem, None, n) =~= stem + (" ("@ + decimal(n) + ")"@));
}

/// A file whose place is free goes there, under every policy. Where something is there,
/// it is replaced only where the policy says so; a policy that skips leaves it alone;
/// any other has the file renamed, beside it. Nothing goes outside the root, whatever the
/// policy.
pub proof fn law_policies_keep_their_word(
    root: Seq<char>,
    dest: Seq<char>,
    taken: Seq<Seq<char>>,
    policy: ConflictPolicy,
)
    ensures
        inside(root, dest) ==> resolution(root, dest, false, taken, policy) == Ok::<
            Option<Seq<char>>,
            Seq<char>,
        >(Some(dest)),
        inside(root, dest) ==> resolution(root, dest, true, taken, ConflictPolicy::Overwrite) == Ok::<
            Option<Seq<char>>,
            Seq<char>,
        >(Some(dest)),
        inside(root, dest) ==> resolution(root, dest, true, taken, ConflictPolicy::Skip) == Ok::<
            Option<Seq<char>>,
            Seq<char>,
        >(None),
        inside(root, dest) && policy != ConflictPolicy::Overwrite && policy != ConflictPolicy::Skip
            ==> resolution(root, dest, true, taken, policy) == Ok::<Option<Seq<char>>, Seq<char>>(
            Some(directory(dest) + fresh_name(dest, taken)),
        ),
        !inside(root, dest) ==> resolution(root, dest, false, taken, policy) == Err::<
            Option<Seq<char>>,
            Seq<char>,
        >(dest) && resolution(root, dest, true, taken, policy) == Err::<
            Option<Seq<char>>,
            Seq<char>,
        >(dest),
{
}

/// Empty pieces of a path do not count, and neither does a dot, except at the very
/// beginning; everything else counts, in its order.
pub proof fn law_pieces_that_count(pieces: Seq<Seq<char>>, n: int)
    requires
        0 <= n < pieces.len(),
    ensures
        pieces[n].len() == 0 ==> kept_pieces(pieces, n + 1) == kept_pieces(pieces, n),
        n > 0 && pieces[n] == seq!['.'] ==> kept_pieces(pieces, n + 1) == kept_pieces(pieces, n),
        n == 0 && pieces[n] == seq!['.'] ==> kept_pieces(pieces, n + 1) == seq![pieces[n]],
        pieces[n].len() > 0 && pieces[n] != seq!['.'] ==> kept_pieces(pieces, n + 1)
            == kept_pieces(pieces, n).push(pieces[n]),
        kept_pieces(pieces, 0).len() == 0,
{
    reveal_strlit(".");
    assert("."@ =~= seq!['.']);
    assert(kept_pieces(pieces, 0).push(pieces[0]) =~= seq![pieces[0]]);
}

} // verus!
