//! What two copies of a shared folder have to exchange to agree.
//!
//! A file that only one side has goes to the other, where the exchange runs
//! both ways or the local side is the one that has it. Of a file that both have
//! with different contents, the later one wins; where neither is later, the
//! user has to choose.

use crate::ids::same_bytes;
use crate::message::{FileEntry, Manifest};
use vstd::prelude::*;

verus! {

#[derive(Debug, PartialEq, Eq)]
pub enum SyncAction {
    /// Send the local copy.
    Push(String),
    /// Ask for the peer's copy.
    Pull(String),
    /// Both sides changed, and neither is later.
    Conflict(String),
    /// The copies agree.
    InSync(String),
}

/// What to do about one path.
pub enum SyncStep {
    Push(Seq<char>),
    Pull(Seq<char>),
    Conflict(Seq<char>),
    InSync(Seq<char>),
}

impl View for SyncAction {
    type V = SyncStep;

    open spec fn view(&self) -> SyncStep {
        match self {
            SyncAction::Push(p) => SyncStep::Push(p@),
            SyncAction::Pull(p) => SyncStep::Pull(p@),
            SyncAction::Conflict(p) => SyncStep::Conflict(p@),
            SyncAction::InSync(p) => SyncStep::InSync(p@),
        }
    }
}

/// The views of a list of actions.
pub open spec fn steps(v: Seq<SyncAction>) -> Seq<SyncStep> {
    v.map_values(|a: SyncAction| a@)
}

impl SyncStep {
    /// The path that the step is about.
    pub open spec fn path(self) -> Seq<char> {
        match self {
            SyncStep::Push(p) => p,
            SyncStep::Pull(p) => p,
            SyncStep::Conflict(p) => p,
            SyncStep::InSync(p) => p,
        }
    }
}

impl SyncAction {
    pub fn path(&self) -> (p: &str)
        ensures
            p@ == self@.path(),
    {
        match self {
            SyncAction::Push(p) => p.as_str(),
            SyncAction::Pull(p) => p.as_str(),
            SyncAction::Conflict(p) => p.as_str(),
            SyncAction::InSync(p) => p.as_str(),
        }
    }
}

/// Two entries hold the same: by their hashes where both are known, else by
/// size and time.
pub open spec fn alike(a: FileEntry, b: FileEntry) -> bool {
    match (a.hash, b.hash) {
        (Some(x), Some(y)) => x == y,
        _ => a.size == b.size && a.mtime == b.mtime,
    }
}

/// What to do about a file that both sides have.
pub open spec fn settled(local: FileEntry, remote: FileEntry) -> SyncStep {
    let path = local.rel_path@;
    if alike(local, remote) {
        SyncStep::InSync(path)
    } else {
        match (local.mtime, remote.mtime) {
            (Some(l), Some(r)) => if l > r {
                SyncStep::Push(path)
            } else if r > l {
                SyncStep::Pull(path)
            } else {
                SyncStep::Conflict(path)
            },
            _ => SyncStep::Conflict(path),
        }
    }
}

/// The last file, among the first `n` entries, with this path. Directories do
/// not count.
pub open spec fn file_named(fs: Seq<FileEntry>, path: Seq<char>, n: int) -> Option<int>
    decreases n,
{
    if n <= 0 {
        None
    } else if !fs[n - 1].is_dir && fs[n - 1].rel_path@ == path {
        Some(n - 1)
    } else {
        file_named(fs, path, n - 1)
    }
}

/// What to do about a local file.
pub open spec fn local_step(l: FileEntry, remote: Seq<FileEntry>) -> SyncStep {
    match file_named(remote, l.rel_path@, remote.len() as int) {
        Some(k) => settled(l, remote[k]),
        None => SyncStep::Push(l.rel_path@),
    }
}

/// What to do about the local files, in their order.
pub open spec fn local_steps(local: Seq<FileEntry>, remote: Seq<FileEntry>) -> Seq<SyncStep>
    decreases local.len(),
{
    if local.len() == 0 {
        Seq::empty()
    } else {
        let before = local_steps(local.drop_last(), remote);
        if local.last().is_dir {
            before
        } else {
            before.push(local_step(local.last(), remote))
        }
    }
}

/// What to do about the files that only the peer has, in their order.
pub open spec fn remote_steps(local: Seq<FileEntry>, remote: Seq<FileEntry>) -> Seq<SyncStep>
    decreases remote.len(),
{
    if remote.len() == 0 {
        Seq::empty()
    } else {
        let before = remote_steps(local, remote.drop_last());
        let r = remote.last();
        if r.is_dir || file_named(local, r.rel_path@, local.len() as int) is Some {
            before
        } else {
            before.push(SyncStep::Pull(r.rel_path@))
        }
    }
}

/// Everything that there is to do.
pub open spec fn planned(
    local: Seq<FileEntry>,
    remote: Seq<FileEntry>,
    bidirectional: bool,
) -> Seq<SyncStep> {
    if bidirectional {
        local_steps(local, remote) + remote_steps(local, remote)
    } else {
        local_steps(local, remote)
    }
}

fn same_content(a: &FileEntry, b: &FileEntry) -> (r: bool)
    ensures
        r == alike(*a, *b),
{
    match (&a.hash, &b.hash) {
        (Some(x), Some(y)) => same_bytes(x, y),
        _ => a.size == b.size && a.mtime == b.mtime,
    }
}

fn resolve(local: &FileEntry, remote: &FileEntry) -> (a: SyncAction)
    requires
        !alike(*local, *remote),
    ensures
        a@ == settled(*local, *remote),
{
    match (local.mtime, remote.mtime) {
        (Some(l), Some(r)) => {
            if l > r {
                SyncAction::Push(local.rel_path.clone())
            } else if r > l {
                SyncAction::Pull(local.rel_path.clone())
            } else {
                SyncAction::Conflict(local.rel_path.clone())
            }
        },
        _ => SyncAction::Conflict(local.rel_path.clone()),
    }
}

fn find_file(fs: &Vec<FileEntry>, path: &String) -> (r: Option<usize>)
    ensures
        match r {
            Some(k) => k < fs@.len() && file_named(fs@, path@, fs@.len() as int) == Some(k as int),
            None => file_named(fs@, path@, fs@.len() as int) is None,
        },
{
    let mut n: usize = fs.len();
    while n > 0
        invariant
            0 <= n <= fs.len(),
            file_named(fs@, path@, fs@.len() as int) == file_named(fs@, path@, n as int),
        decreases n,
    {
        if !fs[n - 1].is_dir && fs[n - 1].rel_path == *path {
            return Some(n - 1);
        }
        n = n - 1;
    }
    None
}

/// What has to be exchanged so that `local` and `remote` agree. Where the
/// exchange is not `bidirectional`, files that only the peer has stay there.
pub fn plan(local: &Manifest, remote: &Manifest, bidirectional: bool) -> (actions: Vec<SyncAction>)
    ensures
        steps(actions@) == planned(local.files@, remote.files@, bidirectional),
{
    let ghost ls = local.files@;
    let ghost rs = remote.files@;
    let mut actions: Vec<SyncAction> = Vec::new();
    let mut i: usize = 0;
    assert(steps(actions@) =~= local_steps(ls.subrange(0, 0), rs));
    while i < local.files.len()
        invariant
            0 <= i <= local.files.len(),
            ls == local.files@,
            rs == remote.files@,
            steps(actions@) == local_steps(ls.subrange(0, i as int), rs),
        decreases local.files.len() - i,
    {
        let ghost before = steps(actions@);
        proof {
            let now = ls.subrange(0, i + 1);
            assert(now.drop_last() =~= ls.subrange(0, i as int));
            assert(now.last() == ls[i as int]);
        }
        let l = &local.files[i];
        if !l.is_dir {
            let action = match find_file(&remote.files, &l.rel_path) {
                None => SyncAction::Push(l.rel_path.clone()),
                Some(k) => {
                    let r = &remote.files[k];
                    if same_content(l, r) {
                        SyncAction::InSync(l.rel_path.clone())
                    } else {
                        resolve(l, r)
                    }
                },
            };
            actions.push(action);
            assert(steps(actions@) =~= before.push(action@));
        }
        i = i + 1;
    }
    assert(ls.subrange(0, ls.len() as int) =~= ls);
    if bidirectional {
        let ghost done = steps(actions@);
        let mut k: usize = 0;
        assert(steps(actions@) =~= done + remote_steps(ls, rs.subrange(0, 0)));
        while k < remote.files.len()
            invariant
                0 <= k <= remote.files.len(),
                ls == local.files@,
                rs == remote.files@,
                steps(actions@) == done + remote_steps(ls, rs.subrange(0, k as int)),
            decreases remote.files.len() - k,
        {
            let ghost before = steps(actions@);
            proof {
                let now = rs.subrange(0, k + 1);
                assert(now.drop_last() =~= rs.subrange(0, k as int));
                assert(now.last() == rs[k as int]);
            }
            let r = &remote.files[k];
            if !r.is_dir && find_file(&local.files, &r.rel_path).is_none() {
                let action = SyncAction::Pull(r.rel_path.clone());
                actions.push(action);
                assert(steps(actions@) =~= before.push(action@));
            }
            k = k + 1;
        }
        assert(rs.subrange(0, rs.len() as int) =~= rs);
    }
    actions
}

/// What one side pushes the other pulls: the two sides settle a file that both
/// have in the same way.
pub proof fn law_both_sides_settle_alike(a: FileEntry, b: FileEntry)
    requires
        a.rel_path@ == b.rel_path@,
    ensures
        ({
            let p = a.rel_path@;
            &&& settled(a, b) == SyncStep::InSync(p) <==> settled(b, a) == SyncStep::InSync(p)
            &&& settled(a, b) == SyncStep::Push(p) <==> settled(b, a) == SyncStep::Pull(p)
            &&& settled(a, b) == SyncStep::Pull(p) <==> settled(b, a) == SyncStep::Push(p)
            &&& settled(a, b) == SyncStep::Conflict(p) <==> settled(b, a) == SyncStep::Conflict(p)
        }),
{
}

/// A search by path finds a file of that path, and none only where there is
/// none.
proof fn lemma_file_named(fs: Seq<FileEntry>, path: Seq<char>, n: int)
    requires
        0 <= n <= fs.len(),
    ensures
        match file_named(fs, path, n) {
            Some(k) => 0 <= k < n && !fs[k].is_dir && fs[k].rel_path@ == path,
            None => forall|j: int|
                0 <= j < n ==> (#[trigger] fs[j]).is_dir || fs[j].rel_path@ != path,
        },
    decreases n,
{
    if n > 0 {
        lemma_file_named(fs, path, n - 1);
    }
}

/// Every local file is dealt with, at its place among the files.
pub proof fn law_every_local_file_has_a_step(local: Seq<FileEntry>, remote: Seq<FileEntry>, i: int)
    requires
        0 <= i < local.len(),
        !local[i].is_dir,
    ensures
        local_steps(local, remote).contains(local_step(local[i], remote)),
        local_step(local[i], remote).path() == local[i].rel_path@,
    decreases local.len(),
{
    let init = local.drop_last();
    let out = local_steps(local, remote);
    if i == local.len() - 1 {
        assert(out[out.len() - 1] == local_step(local[i], remote));
    } else {
        law_every_local_file_has_a_step(init, remote, i);
        let before = local_steps(init, remote);
        let k = choose|k: int| 0 <= k < before.len() && before[k] == local_step(local[i], remote);
        assert(out[k] == before[k]);
    }
}

/// A file that only the peer has is pulled where the exchange runs both ways,
/// and only there; nothing else is pulled that the peer does not have.
pub proof fn law_remote_only_files_are_pulled_both_ways(
    local: Seq<FileEntry>,
    remote: Seq<FileEntry>,
    path: Seq<char>,
)
    requires
        file_named(local, path, local.len() as int) is None,
    ensures
        planned(local, remote, true).contains(SyncStep::Pull(path)) <==> file_named(
            remote,
            path,
            remote.len() as int,
        ) is Some,
        !planned(local, remote, false).contains(SyncStep::Pull(path)),
{
    lemma_local_steps_are_local(local, remote, path);
    lemma_pulls(local, remote, path);
    let a = local_steps(local, remote);
    let b = remote_steps(local, remote);
    if b.contains(SyncStep::Pull(path)) {
        let k = choose|k: int| 0 <= k < b.len() && b[k] == SyncStep::Pull(path);
        assert((a + b)[a.len() + k] == SyncStep::Pull(path));
    }
    if (a + b).contains(SyncStep::Pull(path)) {
        let k = choose|k: int| 0 <= k < (a + b).len() && (a + b)[k] == SyncStep::Pull(path);
        if k < a.len() {
            assert(a[k] == SyncStep::Pull(path));
        } else {
            assert(b[k - a.len()] == SyncStep::Pull(path));
        }
    }
}

proof fn lemma_local_steps_are_local(local: Seq<FileEntry>, remote: Seq<FileEntry>, path: Seq<char>)
    requires
        file_named(local, path, local.len() as int) is None,
    ensures
        !local_steps(local, remote).contains(SyncStep::Pull(path)),
    decreases local.len(),
{
    if local.len() > 0 {
        let init = local.drop_last();
        lemma_file_named(local, path, local.len() as int);
        lemma_file_named(init, path, init.len() as int);
        assert forall|j: int| 0 <= j < init.len() implies (#[trigger] init[j]).is_dir
            || init[j].rel_path@ != path by {
            assert(local[j] == init[j]);
        }
        if let Some(k) = file_named(init, path, init.len() as int) {
            assert(init[k].is_dir || init[k].rel_path@ != path);
        }
        lemma_local_steps_are_local(init, remote, path);
        let before = local_steps(init, remote);
        let out = local_steps(local, remote);
        assert(local[local.len() - 1] == local.last());
        if out.contains(SyncStep::Pull(path)) {
            let k = choose|k: int| 0 <= k < out.len() && out[k] == SyncStep::Pull(path);
            if k < before.len() {
                assert(before[k] == SyncStep::Pull(path));
                assert(before.contains(SyncStep::Pull(path)));
            }
        }
    }
}

proof fn lemma_pulls(local: Seq<FileEntry>, remote: Seq<FileEntry>, path: Seq<char>)
    requires
        file_named(local, path, local.len() as int) is None,
    ensures
        remote_steps(local, remote).contains(SyncStep::Pull(path)) <==> file_named(
            remote,
            path,
            remote.len() as int,
        ) is Some,
    decreases remote.len(),
{
    if remote.len() > 0 {
        let init = remote.drop_last();
        lemma_pulls(local, init, path);
        lemma_file_named(remote, path, remote.len() as int);
        lemma_file_named(init, path, init.len() as int);
        let before = remote_steps(local, init);
        let out = remote_steps(local, remote);
        let last = remote.last();
        assert(remote[remote.len() - 1] == last);
        if file_named(remote, path, remote.len() as int) is Some {
            let k = file_named(remote, path, remote.len() as int)->0;
            if k < init.len() {
                assert(init[k] == remote[k]);
                assert(file_named(init, path, init.len() as int) is Some);
                let m = choose|m: int| 0 <= m < before.len() && before[m] == SyncStep::Pull(path);
                assert(out[m] == SyncStep::Pull(path));
            } else {
                assert(out[out.len() - 1] == SyncStep::Pull(path));
            }
        }
        if out.contains(SyncStep::Pull(path)) {
            let m = choose|m: int| 0 <= m < out.len() && out[m] == SyncStep::Pull(path);
            if m < before.len() {
                assert(before[m] == SyncStep::Pull(path));
                assert(before.contains(SyncStep::Pull(path)));
                let k = file_named(init, path, init.len() as int)->0;
                assert(remote[k] == init[k]);
            }
        }
    } else {
        assert(!remote_steps(local, remote).contains(SyncStep::Pull(path)));
    }
}

/// Two copies of a file are left alone exactly where their contents are known to be the
/// same: both hashes are known and equal, or one is unknown, and size and time are
/// equal. Otherwise the later copy wins, and where neither is known to be later the user
/// is asked.
pub proof fn law_the_later_copy_wins(l: FileEntry, r: FileEntry)
    ensures
        ({
            let p = l.rel_path@;
            let step = settled(l, r);
            let known = l.hash is Some && r.hash is Some;
            &&& known && l.hash == r.hash ==> step == SyncStep::InSync(p)
            &&& !known && l.size == r.size && l.mtime == r.mtime ==> step == SyncStep::InSync(p)
            &&& step is InSync ==> (known && l.hash == r.hash) || (!known && l.size == r.size
                && l.mtime == r.mtime)
            &&& step is Push <==> !(step is InSync) && l.mtime is Some && r.mtime is Some
                && l.mtime->0 > r.mtime->0
            &&& step is Pull <==> !(step is InSync) && l.mtime is Some && r.mtime is Some
                && l.mtime->0 < r.mtime->0
            &&& !known && l.mtime is Some && r.mtime is Some && l.mtime->0 > r.mtime->0 ==> step
                == SyncStep::Push(p)
            &&& !known && l.mtime is Some && r.mtime is Some && l.mtime->0 < r.mtime->0 ==> step
                == SyncStep::Pull(p)
            &&& step.path() == p
        }),
{
}

/// A local file is settled with the last file of the same path that the peer has, and
/// sent where the peer has none; a directory of that name does not count.
pub proof fn law_files_are_matched_by_path(l: FileEntry, remote: Seq<FileEntry>, k: int)
    requires
        0 <= k < remote.len(),
    ensures
        !remote[k].is_dir && remote[k].rel_path@ == l.rel_path@ && (forall|j: int|
            k < j < remote.len() ==> (#[trigger] remote[j]).is_dir || remote[j].rel_path@
                != l.rel_path@) ==> local_step(l, remote) == settled(l, remote[k]),
        (forall|j: int|
            0 <= j < remote.len() ==> (#[trigger] remote[j]).is_dir || remote[j].rel_path@
                != l.rel_path@) ==> local_step(l, remote) == SyncStep::Push(l.rel_path@),
{
    lemma_last_file_named(remote, l.rel_path@, remote.len() as int);
}

proof fn lemma_last_file_named(fs: Seq<FileEntry>, path: Seq<char>, n: int)
    requires
        0 <= n <= fs.len(),
    ensures
        match file_named(fs, path, n) {
            Some(k) => {
                &&& 0 <= k < n && !fs[k].is_dir && fs[k].rel_path@ == path
                &&& forall|j: int|
                    k < j < n ==> (#[trigger] fs[j]).is_dir || fs[j].rel_path@ != path
            },
            None => forall|j: int|
                0 <= j < n ==> (#[trigger] fs[j]).is_dir || fs[j].rel_path@ != path,
        },
    decreases n,
{
    if n > 0 {
        lemma_last_file_named(fs, path, n - 1);
    }
}

/// A plan goes file by file: the local files come first, in their order, each with one
/// step, and directories with none; an exchange both ways adds the files that only the
/// peer has, in their order, and changes nothing about the others.
pub proof fn law_plans_go_file_by_file(
    a: Seq<FileEntry>,
    b: Seq<FileEntry>,
    l: FileEntry,
    remote: Seq<FileEntry>,
    more: Seq<FileEntry>,
)
    ensures
        planned(a + b, remote, false) == planned(a, remote, false) + planned(b, remote, false),
        l.is_dir ==> planned(seq![l], remote, false).len() == 0,
        !l.is_dir ==> planned(seq![l], remote, false) == seq![local_step(l, remote)],
        planned(a, remote, true).len() >= planned(a, remote, false).len(),
        planned(a, remote, true).subrange(0, planned(a, remote, false).len() as int) == planned(
            a,
            remote,
            false,
        ),
        planned(Seq::empty(), remote + more, true) == planned(Seq::empty(), remote, true) + planned(
            Seq::empty(),
            more,
            true,
        ),
        l.is_dir ==> planned(Seq::empty(), seq![l], true).len() == 0,
        !l.is_dir ==> planned(Seq::empty(), seq![l], true) == seq![SyncStep::Pull(l.rel_path@)],
    decreases b.len() + more.len(),
{
    reveal_with_fuel(local_steps, 2);
    reveal_with_fuel(remote_steps, 2);
    let none = Seq::<FileEntry>::empty();
    assert(seq![l].drop_last() =~= none);
    assert(local_steps(none, remote) =~= Seq::<SyncStep>::empty());
    assert(planned(seq![l], remote, false) =~= if l.is_dir {
        Seq::<SyncStep>::empty()
    } else {
        seq![local_step(l, remote)]
    });
    assert(planned(none, seq![l], true) =~= if l.is_dir {
        Seq::<SyncStep>::empty()
    } else {
        seq![SyncStep::Pull(l.rel_path@)]
    });
    assert(planned(a, remote, true).subrange(0, planned(a, remote, false).len() as int)
        =~= planned(a, remote, false));
    lemma_local_steps_add(a, b, remote);
    lemma_remote_steps_add(none, remote, more);
    assert(planned(none, remote + more, true) =~= planned(none, remote, true) + planned(
        none,
        more,
        true,
    )) by {
        assert(local_steps(none, remote + more) =~= Seq::<SyncStep>::empty());
        assert(local_steps(none, more) =~= Seq::<SyncStep>::empty());
    }
}

proof fn lemma_local_steps_add(a: Seq<FileEntry>, b: Seq<FileEntry>, remote: Seq<FileEntry>)
    ensures
        local_steps(a + b, remote) == local_steps(a, remote) + local_steps(b, remote),
    decreases b.len(),
{
    if b.len() == 0 {
        assert(a + b =~= a);
        assert(local_steps(a + b, remote) =~= local_steps(a, remote) + local_steps(b, remote));
    } else {
        lemma_local_steps_add(a, b.drop_last(), remote);
        assert((a + b).drop_last() =~= a + b.drop_last());
        assert((a + b).last() == b.last());
        assert(local_steps(a + b, remote) =~= local_steps(a, remote) + local_steps(b, remote));
    }
}

proof fn lemma_remote_steps_add(local: Seq<FileEntry>, a: Seq<FileEntry>, b: Seq<FileEntry>)
    ensures
        remote_steps(local, a + b) == remote_steps(local, a) + remote_steps(local, b),
    decreases b.len(),
{
    if b.len() == 0 {
        assert(a + b =~= a);
        assert(remote_steps(local, a + b) =~= remote_steps(local, a) + remote_steps(local, b));
    } else {
        lemma_remote_steps_add(local, a, b.drop_last());
        assert((a + b).drop_last() =~= a + b.drop_last());
        assert((a + b).last() == b.last());
        assert(remote_steps(local, a + b) =~= remote_steps(local, a) + remote_steps(local, b));
    }
}

/// An exchange both ways asks for a file of the peer exactly where no local file has
/// its path.
pub proof fn law_only_missing_files_are_asked_for(local: Seq<FileEntry>, r: FileEntry)
    requires
        !r.is_dir,
    ensures
        (forall|j: int|
            0 <= j < local.len() ==> (#[trigger] local[j]).is_dir || local[j].rel_path@
                != r.rel_path@) ==> planned(local, seq![r], true) == planned(
            local,
            seq![r],
            false,
        ).push(SyncStep::Pull(r.rel_path@)),
        (exists|j: int|
            0 <= j < local.len() && !(#[trigger] local[j]).is_dir && local[j].rel_path@
                == r.rel_path@) ==> planned(local, seq![r], true) == planned(local, seq![r], false),
{
    reveal_with_fuel(remote_steps, 2);
    lemma_last_file_named(local, r.rel_path@, local.len() as int);
    assert(seq![r].drop_last() =~= Seq::<FileEntry>::empty());
    assert(remote_steps(local, Seq::empty()) =~= Seq::<SyncStep>::empty());
    let base = planned(local, seq![r], false);
    assert(base + Seq::<SyncStep>::empty() =~= base);
    assert(base + Seq::<SyncStep>::empty().push(SyncStep::Pull(r.rel_path@)) =~= base.push(
        SyncStep::Pull(r.rel_path@),
    ));
}

} // verus!
