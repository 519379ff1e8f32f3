//! The manifest of a transfer, made from what a walk over the file system
//! found.

use crate::conflict::texts;
use crate::message::{FileEntry, Manifest};
use crate::text::chars_of;
use vstd::prelude::*;

verus! {

/// A file or a directory, as the file system describes it.
#[derive(Debug)]
pub struct Found {
    /// The names on the way to it, from the root of the walk on.
    pub path: Vec<String>,
    pub is_dir: bool,
    pub size: u64,
    /// Seconds since the epoch.
    pub mtime: Option<u64>,
    /// Permission bits.
    pub mode: Option<u32>,
}

/// What was found, with its path as sequences of characters.
pub struct FoundItem {
    pub path: Seq<Seq<char>>,
    pub is_dir: bool,
    pub size: int,
    pub mtime: Option<u64>,
    pub mode: Option<u32>,
}

impl View for Found {
    type V = FoundItem;

    open spec fn view(&self) -> FoundItem {
        FoundItem {
            path: texts(self.path@),
            is_dir: self.is_dir,
            size: self.size as int,
            mtime: self.mtime,
            mode: self.mode,
        }
    }
}

/// The views of what one walk found.
pub open spec fn items(v: Seq<Found>) -> Seq<FoundItem> {
    v.map_values(|f: Found| f@)
}

// --- Order -------------------------------------------------------------------

/// `a` does not come after `b`, by their characters from position `i` on.
pub open spec fn text_not_after(a: Seq<char>, b: Seq<char>, i: int) -> bool
    decreases a.len() - i,
{
    if i < 0 || i >= a.len() {
        true
    } else if i >= b.len() {
        false
    } else {
        a[i] < b[i] || (a[i] == b[i] && text_not_after(a, b, i + 1))
    }
}

/// `a` does not come after `b`, by their names from position `i` on.
pub open spec fn path_not_after(a: Seq<Seq<char>>, b: Seq<Seq<char>>, i: int) -> bool
    decreases a.len() - i,
{
    if i < 0 || i >= a.len() {
        true
    } else if i >= b.len() {
        false
    } else if a[i] == b[i] {
        path_not_after(a, b, i + 1)
    } else {
        text_not_after(a[i], b[i], 0)
    }
}

/// Of two texts one does not come after the other, and two texts of which
/// neither comes after the other are the same.
pub proof fn lemma_text_total(a: Seq<char>, b: Seq<char>, i: int)
    requires
        0 <= i <= a.len(),
        i <= b.len(),
        forall|j: int| 0 <= j < i ==> a[j] == b[j],
    ensures
        text_not_after(a, b, i) || text_not_after(b, a, i),
        text_not_after(a, b, i) && text_not_after(b, a, i) ==> a == b,
    decreases a.len() - i,
{
    if i < a.len() && i < b.len() {
        if a[i] == b[i] {
            lemma_text_total(a, b, i + 1);
        }
    } else if i == a.len() && i == b.len() {
        assert(a =~= b);
    }
}

pub proof fn lemma_text_transitive(a: Seq<char>, b: Seq<char>, c: Seq<char>, i: int)
    requires
        0 <= i,
        text_not_after(a, b, i),
        text_not_after(b, c, i),
    ensures
        text_not_after(a, c, i),
    decreases a.len() - i,
{
    if i < a.len() && a[i] == b[i] && b[i] == c[i] {
        lemma_text_transitive(a, b, c, i + 1);
    }
}

proof fn lemma_path_total(a: Seq<Seq<char>>, b: Seq<Seq<char>>, i: int)
    requires
        0 <= i,
    ensures
        path_not_after(a, b, i) || path_not_after(b, a, i),
    decreases a.len() - i,
{
    if i < a.len() && i < b.len() {
        if a[i] == b[i] {
            lemma_path_total(a, b, i + 1);
        } else {
            lemma_text_total(a[i], b[i], 0);
        }
    }
}

proof fn lemma_path_transitive(
    a: Seq<Seq<char>>,
    b: Seq<Seq<char>>,
    c: Seq<Seq<char>>,
    i: int,
)
    requires
        0 <= i,
        path_not_after(a, b, i),
        path_not_after(b, c, i),
    ensures
        path_not_after(a, c, i),
    decreases a.len() - i,
{
    if i < a.len() && i < b.len() && i < c.len() {
        if a[i] == b[i] && b[i] == c[i] {
            lemma_path_transitive(a, b, c, i + 1);
        } else if a[i] != b[i] && b[i] != c[i] {
            lemma_text_transitive(a[i], b[i], c[i], 0);
            if a[i] == c[i] {
                lemma_text_total(a[i], b[i], 0);
            }
        }
    }
}

/// Where an item goes into a row: before the first item, from position `i` on,
/// that comes after it.
pub open spec fn slot_for(row: Seq<FoundItem>, f: FoundItem, i: int) -> int
    decreases row.len() - i,
{
    if i < 0 || i >= row.len() {
        row.len() as int
    } else if !path_not_after(row[i].path, f.path, 0) {
        i
    } else {
        slot_for(row, f, i + 1)
    }
}

/// The items by their paths.
pub open spec fn walk_order(fs: Seq<FoundItem>) -> Seq<FoundItem>
    decreases fs.len(),
{
    if fs.len() == 0 {
        fs
    } else {
        let row = walk_order(fs.drop_last());
        row.insert(slot_for(row, fs.last(), 0), fs.last())
    }
}

/// No item comes before one that stands ahead of it.
pub open spec fn is_walk_ordered(row: Seq<FoundItem>) -> bool {
    forall|i: int, j: int|
        0 <= i < j < row.len() ==> path_not_after((#[trigger] row[i]).path, (#[trigger] row[j]).path, 0)
}

proof fn lemma_slot_for(row: Seq<FoundItem>, f: FoundItem, i: int)
    requires
        0 <= i <= row.len(),
    ensures
        i <= slot_for(row, f, i) <= row.len(),
        forall|j: int|
            i <= j < slot_for(row, f, i) ==> path_not_after((#[trigger] row[j]).path, f.path, 0),
        slot_for(row, f, i) < row.len() ==> !path_not_after(
            row[slot_for(row, f, i)].path,
            f.path,
            0,
        ),
    decreases row.len() - i,
{
    if i < row.len() && path_not_after(row[i].path, f.path, 0) {
        lemma_slot_for(row, f, i + 1);
    }
}

/// Ordering gives the same items, in the order of their paths.
pub proof fn law_walk_is_ordered(fs: Seq<FoundItem>)
    ensures
        is_walk_ordered(walk_order(fs)),
        walk_order(fs).to_multiset() == fs.to_multiset(),
        walk_order(fs).len() == fs.len(),
    decreases fs.len(),
{
    broadcast use vstd::seq_lib::group_to_multiset_ensures;

    if fs.len() > 0 {
        let row = walk_order(fs.drop_last());
        let f = fs.last();
        law_walk_is_ordered(fs.drop_last());
        lemma_slot_for(row, f, 0);
        let k = slot_for(row, f, 0);
        let out = row.insert(k, f);
        if k < row.len() {
            lemma_path_total(row[k].path, f.path, 0);
        }
        assert forall|i: int, j: int| 0 <= i < j < out.len() implies path_not_after(
            (#[trigger] out[i]).path,
            (#[trigger] out[j]).path,
            0,
        ) by {
            let a = if i < k {
                i
            } else {
                i - 1
            };
            let b = if j < k {
                j
            } else {
                j - 1
            };
            if i == k {
                assert(out[j] == row[b]);
                if k < b {
                    assert(path_not_after(row[k].path, row[b].path, 0));
                    lemma_path_transitive(f.path, row[k].path, row[b].path, 0);
                }
            } else if j == k {
                assert(out[i] == row[a]);
            } else {
                assert(out[i] == row[a] && out[j] == row[b]);
            }
        }
        vstd::seq_lib::to_multiset_insert(row, k, f);
        vstd::seq_lib::to_multiset_build(fs.drop_last(), f);
        assert(fs.drop_last().push(f) =~= fs);
    } else {
        assert(walk_order(fs) =~= fs);
    }
}

/// A directory does not come after what it holds.
pub proof fn law_directories_come_first(dir: Seq<Seq<char>>, below: Seq<Seq<char>>)
    requires
        dir.is_prefix_of(below),
    ensures
        path_not_after(dir, below, 0),
{
    lemma_prefix_first(dir, below, 0);
}

proof fn lemma_prefix_first(dir: Seq<Seq<char>>, below: Seq<Seq<char>>, i: int)
    requires
        dir.is_prefix_of(below),
        0 <= i <= dir.len(),
    ensures
        path_not_after(dir, below, i),
    decreases dir.len() - i,
{
    if i < dir.len() {
        assert(dir[i] == below.subrange(0, dir.len() as int)[i]);
        lemma_prefix_first(dir, below, i + 1);
    }
}

pub(crate) fn text_le(a: &String, b: &String) -> (r: bool)
    ensures
        r == text_not_after(a@, b@, 0),
{
    let x = chars_of(a.as_str());
    let y = chars_of(b.as_str());
    let mut i: usize = 0;
    while i < x.len()
        invariant
            0 <= i <= x.len(),
            x@ == a@,
            y@ == b@,
            text_not_after(a@, b@, 0) == text_not_after(a@, b@, i as int),
        decreases x.len() - i,
    {
        if i >= y.len() {
            return false;
        }
        if x[i] < y[i] {
            return true;
        }
        if x[i] > y[i] {
            return false;
        }
        i = i + 1;
    }
    true
}

fn path_le(a: &Vec<String>, b: &Vec<String>) -> (r: bool)
    ensures
        r == path_not_after(texts(a@), texts(b@), 0),
{
    let ghost x = texts(a@);
    let ghost y = texts(b@);
    let mut i: usize = 0;
    while i < a.len()
        invariant
            0 <= i <= a.len(),
            x == texts(a@),
            y == texts(b@),
            path_not_after(x, y, 0) == path_not_after(x, y, i as int),
        decreases a.len() - i,
    {
        if i >= b.len() {
            return false;
        }
        assert(x[i as int] == a@[i as int]@ && y[i as int] == b@[i as int]@);
        if a[i] != b[i] {
            return text_le(&a[i], &b[i]);
        }
        i = i + 1;
    }
    true
}

// --- Entries -----------------------------------------------------------------

/// A backslash becomes a slash.
pub open spec fn forward(s: Seq<char>) -> Seq<char> {
    s.map_values(
        |c: char|
            if c == '\\' {
                '/'
            } else {
                c
            },
    )
}

/// The first `n` names with slashes between them.
pub open spec fn joined_names(path: Seq<Seq<char>>, n: int) -> Seq<char>
    decreases n,
{
    if n <= 0 {
        Seq::empty()
    } else if n == 1 {
        path[0]
    } else {
        joined_names(path, n - 1) + "/"@ + path[n - 1]
    }
}

/// The path in an entry: the names with slashes between them, and slashes for
/// backslashes.
pub open spec fn rel_text(path: Seq<Seq<char>>) -> Seq<char> {
    forward(joined_names(path, path.len() as int))
}

/// The entry describes the item. A directory counts as having no bytes, and no
/// hash is known yet.
pub open spec fn describes(e: FileEntry, f: FoundItem) -> bool {
    &&& e.rel_path@ == rel_text(f.path)
    &&& e.is_dir == f.is_dir
    &&& e.size == if f.is_dir {
        0
    } else {
        f.size
    }
    &&& e.mtime == f.mtime
    &&& e.mode == f.mode
    &&& e.hash is None
}

/// The bytes in the files among the first `n` items.
pub open spec fn byte_sum(fs: Seq<FoundItem>, n: int) -> int
    decreases n,
{
    if n <= 0 {
        0
    } else if fs[n - 1].is_dir {
        byte_sum(fs, n - 1)
    } else {
        byte_sum(fs, n - 1) + fs[n - 1].size
    }
}

/// Everything that the first `n` walks found, each in the order of its paths.
pub open spec fn all_walks(roots: Seq<Vec<Found>>, n: int) -> Seq<FoundItem>
    decreases n,
{
    if n <= 0 {
        Seq::empty()
    } else {
        all_walks(roots, n - 1) + walk_order(items(roots[n - 1]@))
    }
}

fn rel_path(path: &Vec<String>) -> (s: String)
    ensures
        s@ == rel_text(texts(path@)),
{
    let ghost p = texts(path@);
    let mut s = String::new();
    let mut i: usize = 0;
    assert(s@ =~= forward(joined_names(p, 0)));
    while i < path.len()
        invariant
            0 <= i <= path.len(),
            p == texts(path@),
            s@ == forward(joined_names(p, i as int)),
        decreases path.len() - i,
    {
        assert(p[i as int] == path@[i as int]@);
        if i > 0 {
            s.push('/');
        }
        let ghost head = s@;
        let name = chars_of(path[i].as_str());
        let mut k: usize = 0;
        while k < name.len()
            invariant
                0 <= k <= name.len(),
                s@ =~= head + forward(name@.subrange(0, k as int)),
            decreases name.len() - k,
        {
            if name[k] == '\\' {
                s.push('/');
            } else {
                s.push(name[k]);
            }
            k = k + 1;
        }
        proof {
            reveal_strlit("/");
            assert(name@.subrange(0, name@.len() as int) =~= name@);
            assert(s@ =~= forward(joined_names(p, i + 1)));
        }
        i = i + 1;
    }
    s
}

fn entry_of(f: &Found) -> (e: FileEntry)
    ensures
        describes(e, f@),
{
    FileEntry {
        rel_path: rel_path(&f.path),
        size: if f.is_dir {
            0
        } else {
            f.size
        },
        is_dir: f.is_dir,
        mtime: f.mtime,
        mode: f.mode,
        hash: None,
    }
}

/// The views of a row of references.
pub open spec fn ref_items(v: Seq<&Found>) -> Seq<FoundItem> {
    v.map_values(|f: &Found| f@)
}

/// What one walk found, in the order of the paths.
fn in_walk_order(root: &Vec<Found>) -> (row: Vec<&Found>)
    ensures
        ref_items(row@) == walk_order(items(root@)),
{
    let ghost all = items(root@);
    let mut row: Vec<&Found> = Vec::new();
    let mut i: usize = 0;
    assert(all.subrange(0, 0) =~= Seq::<FoundItem>::empty());
    assert(ref_items(row@) =~= walk_order(all.subrange(0, 0)));
    while i < root.len()
        invariant
            0 <= i <= root.len(),
            all == items(root@),
            ref_items(row@) == walk_order(all.subrange(0, i as int)),
        decreases root.len() - i,
    {
        let ghost before = ref_items(row@);
        let f = &root[i];
        let mut k: usize = 0;
        while k < row.len() && path_le(&row[k].path, &f.path)
            invariant
                0 <= k <= row.len(),
                ref_items(row@) == before,
                slot_for(before, f@, 0) == slot_for(before, f@, k as int),
            decreases row.len() - k,
        {
            assert(before[k as int] == row@[k as int]@);
            k = k + 1;
        }
        proof {
            if k < row.len() {
                assert(before[k as int] == row@[k as int]@);
            }
            let now = all.subrange(0, i + 1);
            assert(now.drop_last() =~= all.subrange(0, i as int));
            assert(now.last() == f@);
        }
        row.insert(k, f);
        assert(ref_items(row@) =~= before.insert(k as int, f@));
        i = i + 1;
    }
    assert(all.subrange(0, all.len() as int) =~= all);
    row
}

proof fn lemma_byte_sum_grows(fs: Seq<FoundItem>, n: int, m: int)
    requires
        0 <= n <= m <= fs.len(),
        forall|i: int| 0 <= i < fs.len() ==> (#[trigger] fs[i]).size >= 0,
    ensures
        byte_sum(fs, n) <= byte_sum(fs, m),
    decreases m - n,
{
    if n < m {
        lemma_byte_sum_grows(fs, n, m - 1);
        assert(fs[m - 1].size >= 0);
    }
}

proof fn lemma_byte_sum_prefix(a: Seq<FoundItem>, b: Seq<FoundItem>, n: int)
    requires
        0 <= n <= a.len(),
    ensures
        byte_sum(a + b, n) == byte_sum(a, n),
    decreases n,
{
    if n > 0 {
        lemma_byte_sum_prefix(a, b, n - 1);
        assert((a + b)[n - 1] == a[n - 1]);
    }
}

proof fn lemma_walks_have_sizes(roots: Seq<Vec<Found>>, n: int)
    requires
        0 <= n <= roots.len(),
    ensures
        forall|i: int|
            0 <= i < all_walks(roots, n).len() ==> (#[trigger] all_walks(roots, n)[i]).size >= 0,
    decreases n,
{
    if n > 0 {
        lemma_walks_have_sizes(roots, n - 1);
        lemma_order_has_sizes(items(roots[n - 1]@));
    }
}

proof fn lemma_order_has_sizes(fs: Seq<FoundItem>)
    requires
        forall|i: int| 0 <= i < fs.len() ==> (#[trigger] fs[i]).size >= 0,
    ensures
        forall|i: int| 0 <= i < walk_order(fs).len() ==> (#[trigger] walk_order(fs)[i]).size >= 0,
    decreases fs.len(),
{
    if fs.len() > 0 {
        let init = fs.drop_last();
        assert forall|i: int| 0 <= i < init.len() implies (#[trigger] init[i]).size >= 0 by {
            assert(fs[i] == init[i]);
        }
        lemma_order_has_sizes(init);
        let row = walk_order(init);
        lemma_slot_for(row, fs.last(), 0);
        let k = slot_for(row, fs.last(), 0);
        assert(fs[fs.len() - 1].size >= 0);
        assert forall|i: int| 0 <= i < walk_order(fs).len() implies (#[trigger] walk_order(
            fs,
        )[i]).size >= 0 by {
            if i < k {
                assert(walk_order(fs)[i] == row[i]);
            } else if i > k {
                assert(walk_order(fs)[i] == row[i - 1]);
            }
        }
    }
}

proof fn lemma_all_walks_prefix(roots: Seq<Vec<Found>>, n: int, m: int)
    requires
        0 <= n <= m <= roots.len(),
    ensures
        all_walks(roots, n).is_prefix_of(all_walks(roots, m)),
    decreases m - n,
{
    if n < m {
        lemma_all_walks_prefix(roots, n, m - 1);
        let a = all_walks(roots, m - 1);
        let b = all_walks(roots, m);
        assert(all_walks(roots, n) =~= b.subrange(0, all_walks(roots, n).len() as int));
    } else {
        let a = all_walks(roots, n);
        assert(a =~= a.subrange(0, a.len() as int));
    }
}

/// The manifest of the walks, one after the other: a directory before what it
/// holds, names in order, and the number of bytes in all files.
pub fn build(roots: &Vec<Vec<Found>>) -> (m: Manifest)
    requires
        byte_sum(
            all_walks(roots@, roots@.len() as int),
            all_walks(roots@, roots@.len() as int).len() as int,
        ) <= u64::MAX,
    ensures
        ({
            let all = all_walks(roots@, roots@.len() as int);
            &&& m.files@.len() == all.len()
            &&& forall|i: int| 0 <= i < all.len() ==> describes(#[trigger] m.files@[i], all[i])
            &&& m.total_bytes == byte_sum(all, all.len() as int)
        }),
{
    let ghost all = all_walks(roots@, roots@.len() as int);
    let mut files: Vec<FileEntry> = Vec::new();
    let mut total: u64 = 0;
    let mut r: usize = 0;
    while r < roots.len()
        invariant
            0 <= r <= roots.len(),
            all == all_walks(roots@, roots@.len() as int),
            byte_sum(all, all.len() as int) <= u64::MAX,
            files@.len() == all_walks(roots@, r as int).len(),
            forall|i: int|
                0 <= i < files@.len() ==> describes(
                    #[trigger] files@[i],
                    all_walks(roots@, r as int)[i],
                ),
            total == byte_sum(all_walks(roots@, r as int), files@.len() as int),
        decreases roots.len() - r,
    {
        let row = in_walk_order(&roots[r]);
        let ghost head = all_walks(roots@, r as int);
        let ghost order = ref_items(row@);
        let ghost now = all_walks(roots@, r + 1);
        assert(now =~= head + order);
        proof {
            lemma_byte_sum_prefix(head, order, head.len() as int);
            lemma_walks_have_sizes(roots@, roots@.len() as int);
            lemma_all_walks_prefix(roots@, r + 1, roots@.len() as int);
        }
        let mut i: usize = 0;
        while i < row.len()
            invariant
                0 <= i <= row.len(),
                r < roots.len(),
                all == all_walks(roots@, roots@.len() as int),
                byte_sum(all, all.len() as int) <= u64::MAX,
                forall|j: int| 0 <= j < all.len() ==> (#[trigger] all[j]).size >= 0,
                now == all_walks(roots@, r + 1),
                now.is_prefix_of(all),
                order == ref_items(row@),
                now == head + order,
                files@.len() == head.len() + i,
                forall|j: int| 0 <= j < files@.len() ==> describes(#[trigger] files@[j], now[j]),
                total == byte_sum(now, files@.len() as int),
            decreases row.len() - i,
        {
            let f = row[i];
            let ghost at = files@.len() as int;
            proof {
                assert(now[at] == order[i as int]);
                assert(order[i as int] == f@);
                let rest = all.subrange(now.len() as int, all.len() as int);
                assert(all =~= now + rest);
                lemma_byte_sum_prefix(now, rest, at + 1);
                lemma_byte_sum_grows(all, at + 1, all.len() as int);
            }
            if !f.is_dir {
                total = total + f.size;
            }
            files.push(entry_of(f));
            i = i + 1;
        }
        r = r + 1;
    }
    Manifest { files, total_bytes: total }
}

/// Texts are ordered by the first character in which they differ, and a text that is the
/// beginning of another comes before it.
pub proof fn law_texts_are_ordered_by_their_first_difference(a: Seq<char>, b: Seq<char>, k: int)
    requires
        0 <= k <= a.len(),
        k <= b.len(),
        forall|i: int| 0 <= i < k ==> a[i] == b[i],
    ensures
        k < a.len() && k < b.len() && a[k] < b[k] ==> text_not_after(a, b, 0) && !text_not_after(b, a, 0),
        k == a.len() ==> text_not_after(a, b, 0),
        k == a.len() && k < b.len() ==> !text_not_after(b, a, 0),
{
    lemma_text_from(a, b, 0, k);
    lemma_text_from(b, a, 0, k);
}

proof fn lemma_text_from(a: Seq<char>, b: Seq<char>, i: int, k: int)
    requires
        0 <= i <= k <= a.len(),
        k <= b.len(),
        forall|j: int| 0 <= j < k ==> a[j] == b[j],
    ensures
        text_not_after(a, b, i) == text_not_after(a, b, k),
    decreases k - i,
{
    if i < k {
        lemma_text_from(a, b, i + 1, k);
    }
}

/// Paths are ordered by the first name in which they differ, and a directory comes before
/// what it holds.
pub proof fn law_paths_are_ordered_by_their_first_difference(
    a: Seq<Seq<char>>,
    b: Seq<Seq<char>>,
    k: int,
)
    requires
        0 <= k <= a.len(),
        k <= b.len(),
        forall|i: int| 0 <= i < k ==> a[i] == b[i],
    ensures
        k < a.len() && k < b.len() && a[k] != b[k] ==> path_not_after(a, b, 0) == text_not_after(
            a[k],
            b[k],
            0,
        ),
        k == a.len() ==> path_not_after(a, b, 0),
        k == a.len() && k < b.len() ==> !path_not_after(b, a, 0),
{
    lemma_path_from(a, b, 0, k);
    lemma_path_from(b, a, 0, k);
}

proof fn lemma_path_from(a: Seq<Seq<char>>, b: Seq<Seq<char>>, i: int, k: int)
    requires
        0 <= i <= k <= a.len(),
        k <= b.len(),
        forall|j: int| 0 <= j < k ==> a[j] == b[j],
    ensures
        path_not_after(a, b, i) == path_not_after(a, b, k),
    decreases k - i,
{
    if i < k {
        lemma_path_from(a, b, i + 1, k);
    }
}

/// The bytes of the entries of a manifest, added up.
pub open spec fn entry_sum(files: Seq<FileEntry>, n: int) -> int
    decreases n,
{
    if n <= 0 {
        0
    } else {
        entry_sum(files, n - 1) + files[n - 1].size
    }
}

/// The total of a manifest is the sum of the sizes of its entries; an entry says of a file
/// what was found, without a hash, and of a directory that it has no bytes.
pub proof fn law_the_total_is_the_sum_of_the_sizes(files: Seq<FileEntry>, fs: Seq<FoundItem>, n: int)
    requires
        0 <= n <= fs.len(),
        fs.len() == files.len(),
        forall|i: int| 0 <= i < fs.len() ==> describes(#[trigger] files[i], fs[i]),
    ensures
        byte_sum(fs, n) == entry_sum(files, n),
        n > 0 ==> {
            let (e, f) = (files[n - 1], fs[n - 1]);
            &&& e.is_dir == f.is_dir && e.mtime == f.mtime && e.mode == f.mode && e.hash is None
            &&& f.is_dir ==> e.size == 0
            &&& !f.is_dir ==> e.size == f.size
        },
    decreases n,
{
    if n > 0 {
        law_the_total_is_the_sum_of_the_sizes(files, fs, n - 1);
        assert(describes(files[n - 1], fs[n - 1]));
    }
}

/// The path in an entry has the names of the path in their order, with one slash between
/// two of them, and no backslash.
pub proof fn law_entry_paths_join_the_names(path: Seq<Seq<char>>, name: Seq<char>, i: int)
    ensures
        rel_text(seq![name]) == forward(name),
        path.len() > 0 ==> rel_text(path.push(name)) == rel_text(path) + seq!['/'] + forward(name),
        0 <= i < rel_text(path).len() ==> rel_text(path)[i] != '\\',
        0 <= i < name.len() && name[i] != '\\' ==> forward(name)[i] == name[i],
        0 <= i < name.len() && name[i] == '\\' ==> forward(name)[i] == '/',
        forward(name).len() == name.len(),
{
    reveal_strlit("/");
    assert("/"@ =~= seq!['/']);
    assert(joined_names(seq![name], 1) == name);
    if path.len() > 0 {
        let more = path.push(name);
        lemma_joined_prefix(path, more, path.len() as int);
        assert(joined_names(more, more.len() as int) == joined_names(path, path.len() as int) + "/"@
            + name);
        assert(rel_text(more) =~= rel_text(path) + seq!['/'] + forward(name));
    }
}

proof fn lemma_joined_prefix(a: Seq<Seq<char>>, b: Seq<Seq<char>>, n: int)
    requires
        0 <= n <= a.len(),
        n <= b.len(),
        forall|i: int| 0 <= i < n ==> a[i] == b[i],
    ensures
        joined_names(a, n) == joined_names(b, n),
    decreases n,
{
    if n > 1 {
        lemma_joined_prefix(a, b, n - 1);
    }
}

} // verus!
