//! The tray starts and stops the daemon: where its program is found, how it is
//! called, and what its pairing prints.

use crate::config::{join_path, joined};
use crate::dialing::{begins, begins_with, holds, holds_text};
use crate::text::{chars_of, string_of, trim, trimmed};
use vstd::prelude::*;

verus! {

/// Where the daemon's program was found.
#[derive(Clone, Copy, Debug, PartialEq, Eq, Structural)]
pub enum BinSource {
    /// The user said so.
    Override,
    /// Beside the tray's own program.
    Sibling,
    /// Among the build results of a source tree.
    Dev,
    /// On the search path.
    Path,
    Nowhere,
}

/// The daemon's program, as the tray shows it.
#[derive(Debug)]
pub struct BinInfo {
    pub path: Option<String>,
    pub source: BinSource,
    pub exists_there: bool,
}

/// Whether the processes that the tray started are running.
#[derive(Clone, Copy, Debug, PartialEq, Eq, Structural)]
pub struct Lifecycle {
    pub running: bool,
    pub pairing: bool,
}

/// A place in which the program may be.
#[derive(Debug)]
pub struct Place {
    pub path: String,
    pub source: BinSource,
}

/// A place as a sequence of characters.
pub struct PlaceModel {
    pub path: Seq<char>,
    pub source: BinSource,
}

/// The places of a list.
pub open spec fn places(v: Seq<Place>) -> Seq<PlaceModel> {
    v.map_values(|p: Place| PlaceModel { path: p.path@, source: p.source })
}

/// A build result of the source tree at `dir`.
pub open spec fn build_path(dir: Seq<char>, profile: Seq<char>, bin: Seq<char>) -> Seq<char> {
    joined(joined(joined(dir, "target"@), profile), bin)
}

/// The build results of a profile, of the first `n` of the directories.
pub open spec fn dev_places(
    dirs: Seq<String>,
    profile: Seq<char>,
    bin: Seq<char>,
    n: int,
) -> Seq<PlaceModel>
    decreases n,
{
    if n <= 0 {
        Seq::empty()
    } else {
        dev_places(dirs, profile, bin, n - 1).push(
            PlaceModel { path: build_path(dirs[n - 1]@, profile, bin), source: BinSource::Dev },
        )
    }
}

/// The program in the first `n` directories of the search path.
pub open spec fn path_places(dirs: Seq<String>, bin: Seq<char>, n: int) -> Seq<PlaceModel>
    decreases n,
{
    if n <= 0 {
        Seq::empty()
    } else {
        path_places(dirs, bin, n - 1).push(
            PlaceModel { path: joined(dirs[n - 1]@, bin), source: BinSource::Path },
        )
    }
}

/// At most six directories count.
pub open spec fn six_of(n: int) -> int {
    if n > 6 {
        6
    } else {
        n
    }
}

/// The places to look for the program, in order: beside the tray's own; among the
/// build results of the directories above it, those for development first; and on
/// the search path.
pub open spec fn search_order(
    above: Seq<String>,
    search_path: Seq<String>,
    bin: Seq<char>,
) -> Seq<PlaceModel> {
    let beside = if above.len() > 0 {
        seq![PlaceModel { path: joined(above[0]@, bin), source: BinSource::Sibling }]
    } else {
        Seq::empty()
    };
    let k = six_of(above.len() as int);
    beside + dev_places(above, "debug"@, bin, k) + dev_places(above, "release"@, bin, k)
        + path_places(search_path, bin, search_path.len() as int)
}

fn push_dev_places(out: &mut Vec<Place>, above: &Vec<String>, profile: &str, bin: &str)
    ensures
        places(final(out)@) == places(old(out)@) + dev_places(
            above@,
            profile@,
            bin@,
            six_of(above@.len() as int),
        ),
{
    let n: usize = if above.len() > 6 {
        6
    } else {
        above.len()
    };
    let ghost before = places(out@);
    assert(before =~= before + dev_places(above@, profile@, bin@, 0));
    let mut i: usize = 0;
    while i < n
        invariant
            0 <= i <= n,
            n == six_of(above@.len() as int),
            n <= above@.len(),
            places(out@) == before + dev_places(above@, profile@, bin@, i as int),
        decreases n - i,
    {
        let ghost so_far = places(out@);
        let target = join_path(above[i].as_str(), "target");
        let dir = join_path(target.as_str(), profile);
        let path = join_path(dir.as_str(), bin);
        out.push(Place { path, source: BinSource::Dev });
        proof {
            let p = PlaceModel {
                path: build_path(above@[i as int]@, profile@, bin@),
                source: BinSource::Dev,
            };
            assert(places(out@) =~= so_far.push(p));
            assert(places(out@) =~= before + dev_places(above@, profile@, bin@, i + 1));
        }
        i = i + 1;
    }
}

/// The places to look for the program, in order. `above` is the directory of the
/// tray's own program and those above it.
pub fn search_plan(above: &Vec<String>, search_path: &Vec<String>, bin: &str) -> (out: Vec<Place>)
    ensures
        places(out@) == search_order(above@, search_path@, bin@),
{
    let mut out: Vec<Place> = Vec::new();
    if above.len() > 0 {
        let path = join_path(above[0].as_str(), bin);
        out.push(Place { path, source: BinSource::Sibling });
    }
    proof {
        let beside = if above@.len() > 0 {
            seq![PlaceModel { path: joined(above@[0]@, bin@), source: BinSource::Sibling }]
        } else {
            Seq::<PlaceModel>::empty()
        };
        assert(places(out@) =~= beside);
    }
    push_dev_places(&mut out, above, "debug", bin);
    push_dev_places(&mut out, above, "release", bin);
    let ghost before = places(out@);
    assert(before =~= before + path_places(search_path@, bin@, 0));
    let mut i: usize = 0;
    while i < search_path.len()
        invariant
            0 <= i <= search_path.len(),
            places(out@) == before + path_places(search_path@, bin@, i as int),
        decreases search_path.len() - i,
    {
        let ghost so_far = places(out@);
        let path = join_path(search_path[i].as_str(), bin);
        out.push(Place { path, source: BinSource::Path });
        proof {
            let p = PlaceModel {
                path: joined(search_path@[i as int]@, bin@),
                source: BinSource::Path,
            };
            assert(places(out@) =~= so_far.push(p));
            assert(places(out@) =~= before + path_places(search_path@, bin@, i + 1));
        }
        i = i + 1;
    }
    out
}

/// Where the program is.
pub open spec fn resolved(
    chosen: Option<String>,
    environment: Option<String>,
    plan: Seq<Place>,
    found: Option<usize>,
) -> (Option<String>, BinSource) {
    match (chosen, environment, found) {
        (Some(p), _, _) => (Some(p), BinSource::Override),
        (None, Some(p), _) => (Some(p), BinSource::Override),
        (None, None, Some(i)) => (Some(plan[i as int].path), plan[i as int].source),
        (None, None, None) => (None::<String>, BinSource::Nowhere),
    }
}

/// Where the program is: where the user said, or the environment said, or the
/// first place at which there is a file.
pub fn resolve(
    chosen: &Option<String>,
    environment: &Option<String>,
    plan: &Vec<Place>,
    found: Option<usize>,
) -> (r: (Option<String>, BinSource))
    requires
        found matches Some(i) ==> i < plan@.len(),
    ensures
        r == resolved(*chosen, *environment, plan@, found),
{
    match (chosen, environment, found) {
        (Some(p), _, _) => (Some(p.clone()), BinSource::Override),
        (None, Some(p), _) => (Some(p.clone()), BinSource::Override),
        (None, None, Some(i)) => (Some(plan[i].path.clone()), plan[i].source),
        (None, None, None) => (None, BinSource::Nowhere),
    }
}

/// The user's choice of a program: a blank one is none.
pub fn chosen_bin(path: Option<String>) -> (r: Option<String>)
    ensures
        r == match path {
            Some(p) if trimmed(p@).len() > 0 => Some(p),
            _ => None,
        },
{
    match path {
        Some(p) => {
            let chars = chars_of(p.as_str());
            if trim(chars.as_slice()).len() > 0 {
                Some(p)
            } else {
                None
            }
        },
        None => None,
    }
}

/// The program to run, or what to say where there is none.
pub fn usable_bin(path: Option<String>, is_file: bool) -> (r: Result<String, String>)
    ensures
        match path {
            Some(p) => if is_file {
                r == Ok::<String, String>(p)
            } else {
                r matches Err(e) && e@ == "deskorynd not found at "@ + p@
            },
            None => r matches Err(e) && e@
                == "deskorynd binary not found (set its path in Settings)"@,
        },
{
    match path {
        Some(p) => {
            if is_file {
                Ok(p)
            } else {
                let mut e = "deskorynd not found at ".to_owned();
                e.append(p.as_str());
                Err(e)
            }
        },
        None => Err("deskorynd binary not found (set its path in Settings)".to_owned()),
    }
}

/// The arguments are these words.
pub open spec fn words_are(args: Seq<String>, words: Seq<Seq<char>>) -> bool {
    &&& args.len() == words.len()
    &&& forall|i: int| 0 <= i < words.len() ==> (#[trigger] args[i])@ == words[i]
}

/// How the daemon is started: refused while one is running; with an address to
/// dial, where there is one.
pub fn start_args(running: bool, connect: &Option<String>) -> (r: Result<Vec<String>, String>)
    ensures
        if running {
            r matches Err(e) && e@ == "daemon already running"@
        } else {
            r matches Ok(args) && words_are(
                args@,
                match connect {
                    Some(a) if trimmed(a@).len() > 0 => seq![
                        "run"@,
                        "--connect"@,
                        trimmed(a@),
                    ],
                    _ => seq!["run"@],
                },
            )
        },
{
    if running {
        return Err("daemon already running".to_owned());
    }
    let mut args: Vec<String> = vec!["run".to_owned()];
    if let Some(a) = connect {
        let chars = chars_of(a.as_str());
        let t = trim(chars.as_slice());
        if t.len() > 0 {
            args.push("--connect".to_owned());
            args.push(string_of(t));
        }
    }
    Ok(args)
}

/// How pairing is started: refused while a pairing or the daemon is running; to
/// wait, or to dial an address, which must then be there.
pub fn pair_args(pairing: bool, running: bool, listen: bool, addr: &Option<String>) -> (r: Result<
    Vec<String>,
    String,
>)
    ensures
        if pairing {
            r matches Err(e) && e@ == "a pairing is already in progress"@
        } else if running {
            r matches Err(e) && e@ == "stop the daemon before pairing (they share the port)"@
        } else if listen {
            r matches Ok(args) && words_are(args@, seq!["pair"@, "--listen"@])
        } else {
            match addr {
                Some(a) if trimmed(a@).len() > 0 => r matches Ok(args) && words_are(
                    args@,
                    seq!["pair"@, trimmed(a@)],
                ),
                _ => r matches Err(e) && e@ == "enter the peer's host:port to pair as client"@,
            }
        },
{
    if pairing {
        return Err("a pairing is already in progress".to_owned());
    }
    if running {
        return Err("stop the daemon before pairing (they share the port)".to_owned());
    }
    let mut args: Vec<String> = vec!["pair".to_owned()];
    if listen {
        args.push("--listen".to_owned());
        return Ok(args);
    }
    if let Some(a) = addr {
        let chars = chars_of(a.as_str());
        let t = trim(chars.as_slice());
        if t.len() > 0 {
            args.push(string_of(t));
            return Ok(args);
        }
    }
    Err("enter the peer's host:port to pair as client".to_owned())
}

// --- What pairing prints -----------------------------------------------------

/// The character is a decimal digit.
pub open spec fn is_digit(c: char) -> bool {
    '0' <= c <= '9'
}

/// The line is a code: three digits, a space and three digits.
pub open spec fn is_code(s: Seq<char>) -> bool {
    &&& s.len() == 7
    &&& s[3] == ' '
    &&& forall|i: int| 0 <= i < 7 && i != 3 ==> is_digit(#[trigger] s[i])
}

/// The code that a line is, or none.
pub fn parse_sas(line: &str) -> (r: Option<String>)
    ensures
        match r {
            Some(s) => is_code(line@) && s@ == line@,
            None => !is_code(line@),
        },
{
    let c = chars_of(line);
    if c.len() != 7 || c[3] != ' ' {
        return None;
    }
    let mut i: usize = 0;
    while i < 7
        invariant
            0 <= i <= 7,
            c@ == line@,
            c@.len() == 7,
            forall|j: int| 0 <= j < i && j != 3 ==> is_digit(#[trigger] c@[j]),
        decreases 7 - i,
    {
        if i != 3 && !('0' <= c[i] && c[i] <= '9') {
            assert(!is_digit(c@[i as int]));
            return None;
        }
        i = i + 1;
    }
    Some(line.to_owned())
}

/// The first quotation mark, from position `i` on.
pub open spec fn quote_from(s: Seq<char>, i: int) -> Option<int>
    decreases s.len() - i,
{
    if i < 0 || i >= s.len() {
        None
    } else if s[i] == '"' {
        Some(i)
    } else {
        quote_from(s, i + 1)
    }
}

/// The name in a line `Pair with "name"`.
pub open spec fn peer_named(s: Seq<char>) -> Option<Seq<char>> {
    let p = "Pair with \""@;
    if !begins(s, p) {
        None
    } else {
        match quote_from(s, p.len() as int) {
            Some(end) => Some(s.subrange(p.len() as int, end)),
            None => None,
        }
    }
}

/// The name in a line `Pair with "name"`, or none.
pub fn parse_peer_name(line: &str) -> (r: Option<String>)
    ensures
        match r {
            Some(n) => peer_named(line@) == Some(n@),
            None => peer_named(line@) is None,
        },
{
    let c = chars_of(line);
    if !begins_with(c.as_slice(), "Pair with \"") {
        return None;
    }
    proof {
        reveal_strlit("Pair with \"");
    }
    let mut i: usize = 11;
    while i < c.len()
        invariant
            11 <= i <= c.len(),
            c@ == line@,
            "Pair with \""@.len() == 11,
            begins(c@, "Pair with \""@),
            quote_from(c@, 11) == quote_from(c@, i as int),
        decreases c.len() - i,
    {
        if c[i] == '"' {
            let name = vstd::slice::slice_subrange(c.as_slice(), 11, i);
            return Some(string_of(name));
        }
        i = i + 1;
    }
    None
}

/// What the tray is told of a pairing.
#[derive(Debug)]
pub enum PairNews {
    /// The code to show, and the peer.
    Code { sas: String, peer: String },
    /// Whether the two were paired.
    Outcome(bool),
}

/// Follows what a pairing prints.
#[derive(Debug)]
pub struct PairWatch {
    /// The peer that was named last.
    pub peer: String,
}

impl PairWatch {
    pub fn new() -> (w: Self)
        ensures
            w.peer@.len() == 0,
    {
        PairWatch { peer: String::new() }
    }

    /// What becomes of a line.
    pub open spec fn hears(self, after: PairWatch, line: Seq<char>, news: Option<PairNews>) -> bool {
        let t = trimmed(line);
        &&& after.peer@ == match peer_named(t) {
            Some(name) => name,
            None => self.peer@,
        }
        &&& match news {
            Some(PairNews::Code { sas, peer }) => is_code(t) && sas@ == t && peer@ == after.peer@,
            Some(PairNews::Outcome(true)) => !is_code(t) && begins(t, "Paired with"@),
            Some(PairNews::Outcome(false)) => !is_code(t) && !begins(t, "Paired with"@) && holds(
                t,
                "aborted"@,
            ),
            None => !is_code(t) && !begins(t, "Paired with"@) && !holds(t, "aborted"@),
        }
    }

    /// Reads a line: a name is kept, a code is told with the name, and so is how
    /// the pairing ended.
    pub fn on_line(&mut self, line: &str) -> (news: Option<PairNews>)
        ensures
            old(self).hears(*final(self), line@, news),
    {
        let chars = chars_of(line);
        let t = string_of(trim(chars.as_slice()));
        if let Some(name) = parse_peer_name(t.as_str()) {
            self.peer = name;
        }
        if let Some(sas) = parse_sas(t.as_str()) {
            return Some(PairNews::Code { sas, peer: self.peer.clone() });
        }
        let c = chars_of(t.as_str());
        if begins_with(c.as_slice(), "Paired with") {
            Some(PairNews::Outcome(true))
        } else if holds_text(c.as_slice(), "aborted") {
            Some(PairNews::Outcome(false))
        } else {
            None
        }
    }
}

/// What is written to a pairing that asks.
pub fn answer_line(accept: bool) -> (s: String)
    ensures
        s@ == if accept {
            "y\n"@
        } else {
            "n\n"@
        },
{
    if accept {
        "y\n".to_owned()
    } else {
        "n\n".to_owned()
    }
}

proof fn lemma_decimal_digits(n: nat)
    ensures
        forall|i: int|
            0 <= i < crate::text::decimal(n).len() ==> is_digit(
                #[trigger] crate::text::decimal(n)[i],
            ),
    decreases n,
{
    let d = crate::text::decimal(n);
    if n >= 10 {
        lemma_decimal_digits(n / 10);
        let front = crate::text::decimal(n / 10);
        assert forall|i: int| 0 <= i < d.len() implies is_digit(#[trigger] d[i]) by {
            if i < front.len() {
                assert(d[i] == front[i]);
            }
        }
    }
}

/// The code that pairing shows is one that the tray reads.
pub proof fn law_shown_codes_are_read(n: nat)
    requires
        n < 1_000_000,
    ensures
        is_code(crate::pairing::shown(n)),
{
    crate::pairing::law_codes_have_six_digits(n);
    lemma_decimal_digits(n);
    let six = crate::pairing::six_digits(n);
    let s = crate::pairing::shown(n);
    assert forall|i: int| 0 <= i < 6 implies is_digit(#[trigger] six[i]) by {
        let d = crate::text::decimal(n);
        let pad = six.len() - d.len();
        if i >= pad {
            assert(six[i] == d[i - pad]);
        }
    }
    assert forall|i: int| 0 <= i < 7 && i != 3 implies is_digit(#[trigger] s[i]) by {
        if i < 3 {
            assert(s[i] == six[i]);
        } else {
            assert(s[i] == six[i - 1]);
        }
    }
}

proof fn lemma_dev_places(dirs: Seq<String>, profile: Seq<char>, bin: Seq<char>, n: int)
    requires
        0 <= n <= dirs.len(),
    ensures
        dev_places(dirs, profile, bin, n).len() == n,
        forall|i: int|
            0 <= i < n ==> #[trigger] dev_places(dirs, profile, bin, n)[i] == (PlaceModel {
                path: joined(joined(joined(dirs[i]@, "target"@), profile), bin),
                source: BinSource::Dev,
            }),
    decreases n,
{
    if n > 0 {
        lemma_dev_places(dirs, profile, bin, n - 1);
    }
}

proof fn lemma_path_places(dirs: Seq<String>, bin: Seq<char>, n: int)
    requires
        0 <= n <= dirs.len(),
    ensures
        path_places(dirs, bin, n).len() == n,
        forall|i: int|
            0 <= i < n ==> #[trigger] path_places(dirs, bin, n)[i] == (PlaceModel {
                path: joined(dirs[i]@, bin),
                source: BinSource::Path,
            }),
    decreases n,
{
    if n > 0 {
        lemma_path_places(dirs, bin, n - 1);
    }
}

/// The program is looked for beside the tray's own first; then in the source trees that
/// the tray may lie in, six directories up at most, in the results for development of each
/// before those for release of any; and last on the search path, in its order.
pub proof fn law_programs_are_looked_for_in_this_order(
    above: Seq<String>,
    search_path: Seq<String>,
    bin: Seq<char>,
    i: int,
)
    requires
        above.len() > 0,
    ensures
        ({
            let order = search_order(above, search_path, bin);
            let k = if above.len() > 6 {
                6
            } else {
                above.len() as int
            };
            let tree = joined(above[i]@, "target"@);
            &&& order.len() == 1 + k + k + search_path.len()
            &&& order[0] == (PlaceModel { path: joined(above[0]@, bin), source: BinSource::Sibling })
            &&& 0 <= i < k ==> order[1 + i] == (PlaceModel {
                path: joined(joined(tree, "debug"@), bin),
                source: BinSource::Dev,
            })
            &&& 0 <= i < k ==> order[1 + k + i] == (PlaceModel {
                path: joined(joined(tree, "release"@), bin),
                source: BinSource::Dev,
            })
            &&& 0 <= i < search_path.len() ==> order[1 + k + k + i] == (PlaceModel {
                path: joined(search_path[i]@, bin),
                source: BinSource::Path,
            })
        }),
{
    let k = six_of(above.len() as int);
    lemma_dev_places(above, "debug"@, bin, k);
    lemma_dev_places(above, "release"@, bin, k);
    lemma_path_places(search_path, bin, search_path.len() as int);
}

/// What the user chose goes before what the environment says, and that before what was
/// found; only where there is none of them is there no program.
pub proof fn law_the_users_choice_counts_most(
    chosen: Option<String>,
    environment: Option<String>,
    plan: Seq<Place>,
    found: Option<usize>,
)
    ensures
        ({
            let r = resolved(chosen, environment, plan, found);
            &&& chosen is Some ==> r.0 == chosen && r.1 is Override
            &&& chosen is None && environment is Some ==> r.0 == environment && r.1 is Override
            &&& chosen is None && environment is None && found is Some ==> r.0 == Some(
                plan[found->0 as int].path,
            ) && r.1 == plan[found->0 as int].source
            &&& r.0 is None <==> chosen is None && environment is None && found is None
            &&& r.0 is None ==> r.1 is Nowhere
        }),
{
}

/// A code is three digits, a space and three digits, and nothing else.
pub proof fn law_codes_have_this_form(s: Seq<char>)
    ensures
        is_code(s) <==> s.len() == 7 && s[3] == ' ' && ({
            &&& 48 <= s[0] as int <= 57
            &&& 48 <= s[1] as int <= 57
            &&& 48 <= s[2] as int <= 57
            &&& 48 <= s[4] as int <= 57
            &&& 48 <= s[5] as int <= 57
            &&& 48 <= s[6] as int <= 57
        }),
{
    if is_code(s) {
        assert(is_digit(s[0]) && is_digit(s[1]) && is_digit(s[2]));
        assert(is_digit(s[4]) && is_digit(s[5]) && is_digit(s[6]));
    }
}

proof fn lemma_quote_at(s: Seq<char>, i: int, end: int)
    requires
        0 <= i <= end < s.len(),
        s[end] == '"',
        forall|k: int| i <= k < end ==> #[trigger] s[k] != '"',
    ensures
        quote_from(s, i) == Some(end),
    decreases end - i,
{
    if i < end {
        assert(s[i] != '"');
        lemma_quote_at(s, i + 1, end);
    }
}

/// The name between the quotation marks of `Pair with "name"` is read, whatever follows.
pub proof fn law_quoted_names_are_read(name: Seq<char>, rest: Seq<char>)
    requires
        !name.contains('"'),
    ensures
        peer_named("Pair with \""@ + name + seq!['"'] + rest) == Some(name),
{
    let p = "Pair with \""@;
    reveal_strlit("Pair with \"");
    let s = p + name + seq!['"'] + rest;
    let n = p.len() as int;
    assert(s.subrange(0, n) =~= p);
    let end = n + name.len();
    assert forall|k: int| n <= k < end implies #[trigger] s[k] != '"' by {
        assert(s[k] == name[k - n]);
    }
    lemma_quote_at(s, n, end);
    assert(s.subrange(n, end) =~= name);
}

/// A code is told as it was printed, with the peer that was named last; that the two were
/// paired is told as success, and that it was called off is not.
pub proof fn law_pairing_is_told_as_printed(
    w: PairWatch,
    after: PairWatch,
    line: Seq<char>,
    news: Option<PairNews>,
)
    requires
        w.hears(after, line, news),
    ensures
        ({
            let t = trimmed(line);
            &&& is_code(t) <==> news is Some && news->0 is Code
            &&& is_code(t) ==> news->0->sas@ == t && news->0->peer@ == after.peer@
            &&& !is_code(t) && begins(t, "Paired with"@) ==> news == Some(PairNews::Outcome(true))
            &&& news == Some(PairNews::Outcome(true)) ==> begins(t, "Paired with"@)
            &&& news == Some(PairNews::Outcome(false)) ==> holds(t, "aborted"@)
            &&& peer_named(t) is Some ==> Some(after.peer@) == peer_named(t)
            &&& peer_named(t) is None ==> after.peer@ == w.peer@
        }),
{
}

} // verus!
