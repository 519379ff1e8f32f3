//! File lists as the window systems exchange them: the selection protocol of X11
//! and the drop list of Windows.

use crate::conflict::texts;
use crate::filelist::{listed, parse_list, utf8_lossy};
use vstd::prelude::*;

verus! {

/// No atom.
pub const NO_ATOM: u32 = 0;

/// The atoms that the exchange speaks of.
#[derive(Clone, Copy, Debug, PartialEq, Eq, Structural)]
pub struct Atoms {
    pub clipboard: u32,
    pub targets: u32,
    pub uri_list: u32,
    pub gnome: u32,
    pub prop: u32,
}

/// What the owner of a file list puts where a client asked for it.
#[derive(Clone, Copy, Debug, PartialEq, Eq, Structural)]
pub enum Served {
    /// The forms that can be asked for.
    Targets,
    /// The plain list of URIs.
    UriList,
    /// The list with its verb.
    Gnome,
    /// Nothing: the form is unknown.
    Refused,
}

impl Atoms {
    /// What is served to a client that asks for `target`.
    pub open spec fn serves(self, target: u32) -> Served {
        if target == self.targets {
            Served::Targets
        } else if target == self.uri_list {
            Served::UriList
        } else if target == self.gnome {
            Served::Gnome
        } else {
            Served::Refused
        }
    }
}

/// The property that a client is answered on.
pub open spec fn answered_on(target: u32, property: u32) -> u32 {
    if property == NO_ATOM {
        target
    } else {
        property
    }
}

/// The property that a client is told of.
pub open spec fn told(served: Served, property: u32, stored: bool) -> u32 {
    if served != Served::Refused && stored {
        property
    } else {
        NO_ATOM
    }
}

/// What is served to a client that asks for `target`, and on which property. A
/// client that names no property is answered on the target.
pub fn serve(a: &Atoms, target: u32, property: u32) -> (r: (Served, u32))
    ensures
        r == (a.serves(target), answered_on(target, property)),
{
    let property: u32 = if property == NO_ATOM {
        target
    } else {
        property
    };
    let served = if target == a.targets {
        Served::Targets
    } else if target == a.uri_list {
        Served::UriList
    } else if target == a.gnome {
        Served::Gnome
    } else {
        Served::Refused
    };
    (served, property)
}

/// The property that the client is told of: none where nothing was stored there.
pub fn told_property(served: Served, property: u32, stored: bool) -> (r: u32)
    ensures
        r == told(served, property, stored),
{
    if served != Served::Refused && stored {
        property
    } else {
        NO_ATOM
    }
}

/// The forms in which the list is asked for, the one with its verb first. Each
/// comes with whether it has a verb.
pub fn forms(a: &Atoms) -> (r: Vec<(u32, bool)>)
    ensures
        r@ == seq![(a.gnome, true), (a.uri_list, false)],
{
    let mut r: Vec<(u32, bool)> = Vec::new();
    r.push((a.gnome, true));
    r.push((a.uri_list, false));
    assert(r@ =~= seq![(a.gnome, true), (a.uri_list, false)]);
    r
}

/// The paths of an answer; none where it names no path, and the next form is
/// asked for.
pub fn accepted(answer: &[u8], gnome: bool) -> (r: Option<Vec<String>>)
    ensures
        match r {
            Some(paths) => texts(paths@) == listed(utf8_lossy(answer@), gnome) && paths@.len() > 0,
            None => listed(utf8_lossy(answer@), gnome).len() == 0,
        },
{
    let paths = parse_list(answer, gnome);
    assert(texts(paths@).len() == paths@.len());
    if paths.len() == 0 {
        None
    } else {
        Some(paths)
    }
}

/// The first `n` paths, each with its closing zero.
pub open spec fn closed_paths(paths: Seq<Seq<u16>>, n: int) -> Seq<u16>
    decreases n,
{
    if n <= 0 {
        Seq::empty()
    } else {
        closed_paths(paths, n - 1) + paths[n - 1].push(0)
    }
}

/// The units of each path.
pub open spec fn units(v: Seq<Vec<u16>>) -> Seq<Seq<u16>> {
    Seq::new(v.len(), |i: int| v[i]@)
}

/// The drop list of `paths`: each path with a closing zero, and a zero that closes
/// the list.
pub fn drop_list(paths: &Vec<Vec<u16>>) -> (out: Vec<u16>)
    ensures
        out@ == closed_paths(units(paths@), paths@.len() as int).push(0),
{
    let mut out: Vec<u16> = Vec::new();
    let mut i: usize = 0;
    while i < paths.len()
        invariant
            0 <= i <= paths.len(),
            out@ == closed_paths(units(paths@), i as int),
        decreases paths.len() - i,
    {
        let ghost before = out@;
        out.extend_from_slice(paths[i].as_slice());
        out.push(0);
        assert(units(paths@)[i as int] == paths@[i as int]@);
        assert(out@ =~= before + paths@[i as int]@.push(0));
        i = i + 1;
    }
    out.push(0);
    out
}

/// The paths of a drop list, from unit `i` on, where `path` has been read of the
/// one that begins before it.
pub open spec fn drop_paths(list: Seq<u16>, i: int, path: Seq<u16>) -> Seq<Seq<u16>>
    decreases list.len() - i,
{
    if i < 0 || i >= list.len() {
        Seq::empty()
    } else if list[i] != 0 {
        drop_paths(list, i + 1, path.push(list[i]))
    } else if path.len() == 0 {
        Seq::empty()
    } else {
        seq![path] + drop_paths(list, i + 1, Seq::empty())
    }
}

proof fn lemma_one_path(list: Seq<u16>, at: int, path: Seq<u16>, k: int)
    requires
        0 <= at,
        0 <= k <= path.len(),
        at + path.len() < list.len(),
        path.len() > 0,
        forall|j: int| 0 <= j < path.len() ==> #[trigger] path[j] != 0,
        forall|j: int| 0 <= j < path.len() ==> list[at + j] == #[trigger] path[j],
        list[at + path.len()] == 0,
    ensures
        drop_paths(list, at + k, path.subrange(0, k)) == seq![path] + drop_paths(
            list,
            at + path.len() + 1,
            Seq::empty(),
        ),
    decreases path.len() - k,
{
    if k == path.len() {
        assert(path.subrange(0, k) =~= path);
    } else {
        assert(list[at + k] == path[k]);
        assert(path.subrange(0, k).push(path[k]) =~= path.subrange(0, k + 1));
        lemma_one_path(list, at, path, k + 1);
    }
}

proof fn lemma_closed_len(paths: Seq<Seq<u16>>, m: int, n: int)
    requires
        0 <= m <= n <= paths.len(),
    ensures
        closed_paths(paths, m).len() <= closed_paths(paths, n).len(),
        closed_paths(paths, n).subrange(0, closed_paths(paths, m).len() as int) == closed_paths(paths, m),
    decreases n - m,
{
    if m < n {
        lemma_closed_len(paths, m, n - 1);
        let a = closed_paths(paths, m);
        let b = closed_paths(paths, n - 1);
        let c = closed_paths(paths, n);
        assert(c.subrange(0, a.len() as int) =~= b.subrange(0, a.len() as int));
    } else {
        let a = closed_paths(paths, m);
        assert(a.subrange(0, a.len() as int) =~= a);
    }
}

proof fn lemma_paths_from(paths: Seq<Seq<u16>>, m: int)
    requires
        0 <= m <= paths.len(),
        forall|i: int| 0 <= i < paths.len() ==> (#[trigger] paths[i]).len() > 0,
        forall|i: int, j: int|
            0 <= i < paths.len() && 0 <= j < paths[i].len() ==> #[trigger] paths[i][j] != 0,
    ensures
        drop_paths(
            closed_paths(paths, paths.len() as int).push(0),
            closed_paths(paths, m).len() as int,
            Seq::empty(),
        ) == paths.subrange(m, paths.len() as int),
    decreases paths.len() - m,
{
    let n = paths.len() as int;
    let list = closed_paths(paths, n).push(0);
    let at = closed_paths(paths, m).len() as int;
    lemma_closed_len(paths, m, n);
    if m == n {
        assert(drop_paths(list, at, Seq::empty()) =~= paths.subrange(m, n));
    } else {
        lemma_closed_len(paths, m + 1, n);
        let path = paths[m];
        let next = closed_paths(paths, m + 1);
        assert(next == closed_paths(paths, m) + path.push(0));
        assert(closed_paths(paths, n).subrange(0, next.len() as int) == next);
        assert forall|j: int| 0 <= j < path.len() implies list[at + j] == #[trigger] path[j] by {
            assert(next[at + j] == path[j]);
            assert(closed_paths(paths, n).subrange(0, next.len() as int)[at + j] == next[at + j]);
        }
        assert(list[at + path.len()] == 0) by {
            let e = at + path.len();
            assert(next[e] == path.push(0)[path.len() as int]);
            assert(closed_paths(paths, n).subrange(0, next.len() as int)[e] == next[e]);
        }
        lemma_one_path(list, at, path, 0);
        assert(path.subrange(0, 0) =~= Seq::<u16>::empty());
        lemma_paths_from(paths, m + 1);
        assert(seq![path] + paths.subrange(m + 1, n) =~= paths.subrange(m, n));
    }
}

/// A drop list names the paths that it was made of, where none of them is empty
/// or holds a zero.
pub proof fn law_drop_lists_read_back(paths: Seq<Seq<u16>>)
    requires
        forall|i: int| 0 <= i < paths.len() ==> (#[trigger] paths[i]).len() > 0,
        forall|i: int, j: int|
            0 <= i < paths.len() && 0 <= j < paths[i].len() ==> #[trigger] paths[i][j] != 0,
    ensures
        drop_paths(closed_paths(paths, paths.len() as int).push(0), 0, Seq::empty()) == paths,
{
    lemma_paths_from(paths, 0);
    assert(paths.subrange(0, paths.len() as int) =~= paths);
}

/// Where the atoms differ, each form is served to those that ask for it, and what is asked
/// for under any other atom is refused.
pub proof fn law_each_form_is_served_as_asked(a: Atoms, target: u32)
    requires
        a.targets != a.uri_list,
        a.targets != a.gnome,
        a.uri_list != a.gnome,
    ensures
        a.serves(target) is Targets <==> target == a.targets,
        a.serves(target) is UriList <==> target == a.uri_list,
        a.serves(target) is Gnome <==> target == a.gnome,
        a.serves(target) is Refused <==> target != a.targets && target != a.uri_list && target
            != a.gnome,
{
}

/// A client hears of the property that it named, or of its target where it named none; of
/// none where it was refused or nothing was stored.
pub proof fn law_clients_hear_where_the_answer_is(
    target: u32,
    property: u32,
    served: Served,
    stored: bool,
)
    ensures
        property != 0 ==> answered_on(target, property) == property,
        property == 0 ==> answered_on(target, property) == target,
        stored && !(served is Refused) ==> told(served, property, stored) == property,
        !stored ==> told(served, property, stored) == 0,
        served is Refused ==> told(served, property, stored) == 0,
{
}

/// Every path of a drop list is closed by a zero.
pub proof fn law_paths_are_closed_one_by_one(paths: Seq<Seq<u16>>, n: int)
    requires
        0 < n <= paths.len(),
    ensures
        closed_paths(paths, n) == closed_paths(paths, n - 1) + paths[n - 1] + seq![0u16],
        closed_paths(paths, 0).len() == 0,
{
    assert(closed_paths(paths, n) =~= closed_paths(paths, n - 1) + paths[n - 1] + seq![0u16]);
}

} // verus!
