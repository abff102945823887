//! The file explorer beside the editor: a tree of the project's directories
//! in which directories open and close. What a directory holds is read by the
//! caller and handed in as listings; the tree decides what is shown.
use vstd::prelude::*;
use crate::filepicker::is_skipped_name;
use crate::filepicker;
use crate::order::{chars_lt, seq_lt, strings_view};
use crate::order;
use crate::text::{chars_eq, chars_of, push_all, string_of, to_lowercase};
use crate::text;

verus! {

/// An entry read from a directory: its file name, and whether it is a directory.
pub struct DirItem {
    pub name: String,
    pub is_dir: bool,
}

/// What reading the directory at `path` gave.
pub struct DirListing {
    pub path: String,
    pub items: Vec<DirItem>,
}

/// A row of the tree.
pub struct FileEntry {
    pub path: String,
    pub name: String,
    pub depth: usize,
    pub is_dir: bool,
    pub expanded: bool,
}

pub struct FileTree {
    pub root: String,
    /// The directories that are open; opening and closing keep each
    /// listed once (`law_toggle_keeps_distinct`).
    pub expanded: Vec<String>,
    pub visible: Vec<FileEntry>,
    pub selected: usize,
}

/// A row of the tree, abstractly.
pub struct EntryView {
    pub path: Seq<char>,
    pub name: Seq<char>,
    pub depth: int,
    pub is_dir: bool,
    pub expanded: bool,
}

impl View for FileEntry {
    type V = EntryView;

    open spec fn view(&self) -> EntryView {
        EntryView {
            path: self.path@,
            name: self.name@,
            depth: self.depth as int,
            is_dir: self.is_dir,
            expanded: self.expanded,
        }
    }
}

pub open spec fn entries_view(v: Seq<FileEntry>) -> Seq<EntryView> {
    v.map_values(|e: FileEntry| e@)
}

pub open spec fn items_view(v: Seq<DirItem>) -> Seq<(Seq<char>, bool)> {
    v.map_values(|i: DirItem| (i.name@, i.is_dir))
}

pub open spec fn listings_view(v: Seq<DirListing>) -> Seq<(Seq<char>, Seq<(Seq<char>, bool)>)> {
    v.map_values(|l: DirListing| (l.path@, items_view(l.items@)))
}

/// `Path::join` of a file name onto a directory path.
pub open spec fn join_path(dir: Seq<char>, name: Seq<char>) -> Seq<char> {
    if dir.len() == 0 {
        name
    } else if dir.last() == '/' {
        dir + name
    } else {
        dir.push('/') + name
    }
}

/// The entries of the first listing of the directory `path`, if any.
pub open spec fn listing_of(ls: Seq<(Seq<char>, Seq<(Seq<char>, bool)>)>, path: Seq<char>) -> Option<Seq<(Seq<char>, bool)>>
    decreases ls.len(),
{
    if ls.len() == 0 {
        None
    } else if ls[0].0 == path {
        Some(ls[0].1)
    } else {
        listing_of(ls.drop_first(), path)
    }
}

/// The order of a directory's entries: directories first, then by name,
/// ignoring case.
pub open spec fn item_lt() -> spec_fn((Seq<char>, bool), (Seq<char>, bool)) -> bool {
    |a: (Seq<char>, bool), b: (Seq<char>, bool)|
        (a.1 && !b.1) || (a.1 == b.1 && seq_lt(text::lowercase(a.0), text::lowercase(b.0)))
}

/// A directory's entries are shown directories first, then by name
/// ignoring case, each entry once.
pub proof fn law_directory_order(items: Seq<(Seq<char>, bool)>)
    ensures
        order::sorted_by(order::insertion_sort(items, item_lt()), item_lt()),
        order::insertion_sort(items, item_lt()).to_multiset() == items.to_multiset(),
{
    assert forall|a: (Seq<char>, bool)| !#[trigger] item_lt()(a, a) by {
        order::lemma_seq_lt_irreflexive(text::lowercase(a.0));
    }
    assert forall|a: (Seq<char>, bool), b: (Seq<char>, bool), c: (Seq<char>, bool)|
        #[trigger] item_lt()(a, b) && #[trigger] item_lt()(b, c) implies item_lt()(a, c) by {
        if a.1 == b.1 && b.1 == c.1 {
            order::lemma_seq_lt_transitive(text::lowercase(a.0), text::lowercase(b.0), text::lowercase(c.0));
        }
    }
    order::law_insertion_sort(items, item_lt());
}

/// The length of the longest path in `ex`.
pub open spec fn max_len(ex: Seq<Seq<char>>) -> nat
    decreases ex.len(),
{
    if ex.len() == 0 {
        0
    } else {
        let m = max_len(ex.drop_last());
        if ex.last().len() > m { ex.last().len() } else { m }
    }
}

pub proof fn lemma_max_len(ex: Seq<Seq<char>>, p: Seq<char>)
    requires
        ex.contains(p),
    ensures
        p.len() <= max_len(ex),
    decreases ex.len(),
{
    if ex.last() != p {
        assert(ex.drop_last().contains(p)) by {
            let i = choose|i: int| 0 <= i < ex.len() && ex[i] == p;
            assert(ex.drop_last()[i] == p);
        }
        lemma_max_len(ex.drop_last(), p);
    }
}

/// How far a walk may still go down from `path`: the open directories are
/// finite, and each step down makes the path longer.
pub open spec fn depth_left(ex: Seq<Seq<char>>, path: Seq<char>) -> int {
    max_len(ex) + 1 - path.len()
}

/// The rows for the directory `path` at `depth`: its entries in order (the
/// left-out names skipped), each followed by its own rows when it is an open
/// directory.
pub open spec fn walk(
    ex: Seq<Seq<char>>,
    ls: Seq<(Seq<char>, Seq<(Seq<char>, bool)>)>,
    path: Seq<char>,
    depth: int,
) -> Seq<EntryView>
    decreases depth_left(ex, path), 1int, 0int,
{
    match listing_of(ls, path) {
        None => Seq::empty(),
        Some(items) => walk_items(ex, ls, path, depth, order::insertion_sort(items, item_lt()), 0),
    }
}

/// The rows for the entries `items[k..]` of the directory `path`.
pub open spec fn walk_items(
    ex: Seq<Seq<char>>,
    ls: Seq<(Seq<char>, Seq<(Seq<char>, bool)>)>,
    path: Seq<char>,
    depth: int,
    items: Seq<(Seq<char>, bool)>,
    k: int,
) -> Seq<EntryView>
    decreases depth_left(ex, path), 0int, items.len() - k,
{
    if k < 0 || k >= items.len() {
        Seq::empty()
    } else {
        let name = items[k].0;
        let is_dir = items[k].1;
        let rest = walk_items(ex, ls, path, depth, items, k + 1);
        if filepicker::skipped_name(name) {
            rest
        } else {
            let child = join_path(path, name);
            let open = is_dir && ex.contains(child);
            let row = EntryView { path: child, name, depth, is_dir, expanded: open };
            if open && name.len() > 0 {
                proof {
                    lemma_max_len(ex, child);
                }
                seq![row] + walk(ex, ls, child, depth + 1) + rest
            } else {
                seq![row] + rest
            }
        }
    }
}

} // verus!

verus! {

/// A directory entry with its name's characters and lowercase form.
struct KeyedItem {
    name: String,
    chars: Vec<char>,
    lower: Vec<char>,
    is_dir: bool,
}

impl KeyedItem {
    spec fn wf(&self) -> bool {
        self.chars@ == self.name@ && self.lower@ == text::lowercase(self.name@)
    }

    spec fn item(&self) -> (Seq<char>, bool) {
        (self.name@, self.is_dir)
    }
}

spec fn keyed_view(v: Seq<KeyedItem>) -> Seq<(Seq<char>, bool)> {
    v.map_values(|k: KeyedItem| k.item())
}

fn keyed_lt(a: &KeyedItem, b: &KeyedItem) -> (r: bool)
    requires
        a.wf(),
        b.wf(),
    ensures
        r == item_lt()(a.item(), b.item()),
{
    (a.is_dir && !b.is_dir) || (a.is_dir == b.is_dir && chars_lt(&a.lower, &b.lower))
}

/// The entries of a directory in the tree's order.
fn sort_items(items: &Vec<DirItem>) -> (r: Vec<KeyedItem>)
    ensures
        forall|k: int| 0 <= k < r.len() ==> #[trigger] r@[k].wf(),
        keyed_view(r@) == order::insertion_sort(items_view(items@), item_lt()),
{
    let ghost iv = items_view(items@);
    let mut out: Vec<KeyedItem> = Vec::new();
    let mut i: usize = 0;
    while i < items.len()
        invariant
            i <= items.len(),
            iv == items_view(items@),
            forall|k: int| 0 <= k < out.len() ==> #[trigger] out@[k].wf(),
            keyed_view(out@) == order::insertion_sort(iv.take(i as int), item_lt()),
        decreases items.len() - i,
    {
        let name = items[i].name.clone();
        let chars = chars_of(name.as_str());
        let low = to_lowercase(name.as_str());
        let lower = chars_of(low.as_str());
        let x = KeyedItem { name, chars, lower, is_dir: items[i].is_dir };
        let ghost prev = keyed_view(out@);
        proof {
            order::lemma_sort_len(iv.take(i as int), item_lt());
        }
        let mut p: usize = 0;
        while p < out.len() && !keyed_lt(&x, &out[p])
            invariant
                p <= out.len(),
                x.wf(),
                forall|k: int| 0 <= k < out.len() ==> #[trigger] out@[k].wf(),
                prev == keyed_view(out@),
                order::insert_pos(prev, x.item(), item_lt(), 0) == order::insert_pos(prev, x.item(), item_lt(), p as int),
            decreases out.len() - p,
        {
            p = p + 1;
        }
        let ghost before = out@;
        out.insert(p, x);
        assert(iv.take(i + 1).drop_last() =~= iv.take(i as int));
        assert(iv.take(i + 1).last() == x.item());
        assert(keyed_view(out@) =~= prev.insert(p as int, x.item()));
        assert forall|k: int| 0 <= k < out.len() implies #[trigger] out@[k].wf() by {
            if k < p {
                assert(out@[k] == before[k]);
            } else if k > p {
                assert(out@[k] == before[k - 1]);
            }
        }
        i = i + 1;
    }
    assert(iv.take(items.len() as int) =~= iv);
    out
}

} // verus!

verus! {

spec fn paths_view(v: Seq<Vec<char>>) -> Seq<Seq<char>> {
    v.map_values(|p: Vec<char>| p@)
}

fn join_path_chars(dir: &Vec<char>, name: &Vec<char>) -> (r: Vec<char>)
    ensures
        r@ == join_path(dir@, name@),
{
    let mut r = dir.clone();
    assert(r@ =~= dir@);
    if dir.len() > 0 && dir[dir.len() - 1] != '/' {
        r.push('/');
    }
    push_all(&mut r, name);
    r
}

fn contains_path(ex: &Vec<Vec<char>>, p: &Vec<char>) -> (r: bool)
    ensures
        r == paths_view(ex@).contains(p@),
{
    let mut i: usize = 0;
    while i < ex.len()
        invariant
            i <= ex.len(),
            forall|k: int| 0 <= k < i ==> ex@[k]@ != p@,
        decreases ex.len() - i,
    {
        if chars_eq(&ex[i], p) {
            assert(paths_view(ex@)[i as int] == p@);
            return true;
        }
        i = i + 1;
    }
    assert(!paths_view(ex@).contains(p@)) by {
        if paths_view(ex@).contains(p@) {
            let k = choose|k: int| 0 <= k < paths_view(ex@).len() && paths_view(ex@)[k] == p@;
            assert(ex@[k]@ == p@);
        }
    }
    false
}

fn find_listing(ls: &Vec<DirListing>, path: &Vec<char>) -> (r: Option<usize>)
    ensures
        match r {
            Some(i) => i < ls.len() && listing_of(listings_view(ls@), path@) == Some(items_view(ls@[i as int].items@)),
            None => listing_of(listings_view(ls@), path@) is None,
        },
{
    let ghost lv = listings_view(ls@);
    let mut i: usize = 0;
    assert(lv.skip(0) =~= lv);
    while i < ls.len()
        invariant
            i <= ls.len(),
            lv == listings_view(ls@),
            listing_of(lv, path@) == listing_of(lv.skip(i as int), path@),
        decreases ls.len() - i,
    {
        let pc = chars_of(ls[i].path.as_str());
        assert(lv.skip(i as int)[0] == lv[i as int]);
        if chars_eq(&pc, path) {
            return Some(i);
        }
        assert(lv.skip(i as int).drop_first() =~= lv.skip(i + 1));
        i = i + 1;
    }
    None
}

fn walk_exec(
    ex: &Vec<Vec<char>>,
    ls: &Vec<DirListing>,
    path: &Vec<char>,
    depth: usize,
    out: &mut Vec<FileEntry>,
)
    requires
        depth <= path.len(),
    ensures
        entries_view(final(out)@) == entries_view(old(out)@) + walk(paths_view(ex@), listings_view(ls@), path@, depth as int),
    decreases depth_left(paths_view(ex@), path@),
{
    let ghost exv = paths_view(ex@);
    let ghost lsv = listings_view(ls@);
    let ghost start = entries_view(out@);
    let idx = match find_listing(ls, path) {
        None => {
            assert(entries_view(out@) =~= start + Seq::<EntryView>::empty());
            return;
        },
        Some(i) => i,
    };
    let sorted = sort_items(&ls[idx].items);
    let ghost sv = keyed_view(sorted@);
    assert(walk(exv, lsv, path@, depth as int) == walk_items(exv, lsv, path@, depth as int, sv, 0));
    let mut k: usize = 0;
    assert(entries_view(out@) =~= start);
    while k < sorted.len()
        invariant
            k <= sorted.len(),
            depth <= path.len(),
            exv == paths_view(ex@),
            lsv == listings_view(ls@),
            sv == keyed_view(sorted@),
            forall|j: int| 0 <= j < sorted.len() ==> #[trigger] sorted@[j].wf(),
            entries_view(out@) + walk_items(exv, lsv, path@, depth as int, sv, k as int)
                == start + walk_items(exv, lsv, path@, depth as int, sv, 0),
        decreases sorted.len() - k,
    {
        let item = &sorted[k];
        assert(item.wf());
        let ghost rest = walk_items(exv, lsv, path@, depth as int, sv, k + 1);
        let ghost before = entries_view(out@);
        if !is_skipped_name(item.name.as_str()) {
            let child = join_path_chars(path, &item.chars);
            let open = item.is_dir && contains_path(ex, &child);
            let row = FileEntry {
                path: string_of(&child),
                name: item.name.clone(),
                depth,
                is_dir: item.is_dir,
                expanded: open,
            };
            out.push(row);
            assert(entries_view(out@) =~= before.push(row@));
            if open && item.chars.len() > 0 {
                proof {
                    lemma_max_len(exv, child@);
                }
                assert(child@.len() > path@.len());
                assert(depth < child.len());
                let ghost mid = entries_view(out@);
                walk_exec(ex, ls, &child, depth + 1, out);
                assert(entries_view(out@) + rest =~= before + (seq![row@] + walk(exv, lsv, child@, depth + 1) + rest));
            } else {
                assert(entries_view(out@) + rest =~= before + (seq![row@] + rest));
            }
        }
        k = k + 1;
    }
}

/// The rows of the tree under `root`, given the open directories and what
/// reading each directory gave (an entry with an empty name is shown but
/// never walked into).
pub fn compute_visible(root: &str, expanded: &Vec<String>, listings: &Vec<DirListing>) -> (r: Vec<FileEntry>)
    ensures
        entries_view(r@) == walk(strings_view(expanded@), listings_view(listings@), root@, 0),
{
    let mut ex: Vec<Vec<char>> = Vec::new();
    let mut i: usize = 0;
    while i < expanded.len()
        invariant
            i <= expanded.len(),
            paths_view(ex@) =~= strings_view(expanded@).take(i as int),
        decreases expanded.len() - i,
    {
        let ghost before = paths_view(ex@);
        ex.push(chars_of(expanded[i].as_str()));
        assert(paths_view(ex@) =~= before.push(expanded@[i as int]@));
        assert(strings_view(expanded@).take(i + 1) =~= strings_view(expanded@).take(i as int).push(expanded@[i as int]@));
        i = i + 1;
    }
    assert(strings_view(expanded@).take(expanded.len() as int) =~= strings_view(expanded@));
    let rc = chars_of(root);
    let mut out: Vec<FileEntry> = Vec::new();
    walk_exec(&ex, listings, &rc, 0, &mut out);
    assert(entries_view(out@) =~= entries_view(Seq::<FileEntry>::empty()) + walk(
        strings_view(expanded@),
        listings_view(listings@),
        root@,
        0,
    ));
    out
}

} // verus!

verus! {

/// The tree, abstractly.
pub struct TreeView {
    pub root: Seq<char>,
    pub expanded: Seq<Seq<char>>,
    pub visible: Seq<EntryView>,
    pub selected: int,
}

impl View for FileTree {
    type V = TreeView;

    open spec fn view(&self) -> TreeView {
        TreeView {
            root: self.root@,
            expanded: strings_view(self.expanded@),
            visible: entries_view(self.visible@),
            selected: self.selected as int,
        }
    }
}

/// The first row at or after `k` whose path is `p`.
pub open spec fn find_row(vis: Seq<EntryView>, p: Seq<char>, k: int) -> Option<int>
    decreases vis.len() - k,
{
    if k < 0 || k >= vis.len() {
        None
    } else if vis[k].path == p {
        Some(k)
    } else {
        find_row(vis, p, k + 1)
    }
}

/// The selection after the rows change from `old_vis` to `new_vis`: the
/// row of the entry that was selected, if it is still shown, or else the
/// same index, kept within the rows.
pub open spec fn reselect(old_vis: Seq<EntryView>, sel: int, new_vis: Seq<EntryView>) -> int {
    let kept = if 0 <= sel < old_vis.len() { find_row(new_vis, old_vis[sel].path, 0) } else { None };
    match kept {
        Some(pos) => pos,
        None => {
            let last = if new_vis.len() > 0 { new_vis.len() - 1 } else { 0 };
            if sel <= last { sel } else { last }
        },
    }
}

/// `ex` without `p`.
pub open spec fn without(ex: Seq<Seq<char>>, p: Seq<char>) -> Seq<Seq<char>> {
    ex.filter(other_than(p))
}

/// Whether a path is not `p`.
pub open spec fn other_than(p: Seq<char>) -> spec_fn(Seq<char>) -> bool {
    |x: Seq<char>| x != p
}

/// `ex` with `p` opened, or closed when it was open.
pub open spec fn toggled(ex: Seq<Seq<char>>, p: Seq<char>) -> Seq<Seq<char>> {
    if ex.contains(p) { without(ex, p) } else { ex.push(p) }
}

/// A tree rooted at `root` with only the root open and the first row selected.
pub open spec fn tree_at(root: Seq<char>, ls: Seq<(Seq<char>, Seq<(Seq<char>, bool)>)>) -> TreeView {
    TreeView { root, expanded: seq![root], visible: walk(seq![root], ls, root, 0), selected: 0 }
}

proof fn lemma_filter_keeps_all(ex: Seq<Seq<char>>, p: Seq<char>)
    requires
        !ex.contains(p),
    ensures
        without(ex, p) == ex,
    decreases ex.len(),
{
    reveal_with_fuel(Seq::<_>::filter, 1);
    if ex.len() > 0 {
        assert(!ex.drop_last().contains(p)) by {
            if ex.drop_last().contains(p) {
                let i = choose|i: int| 0 <= i < ex.drop_last().len() && ex.drop_last()[i] == p;
                assert(ex[i] == p);
            }
        }
        lemma_filter_keeps_all(ex.drop_last(), p);
        assert(ex.last() != p) by {
            assert(ex[ex.len() - 1] == ex.last());
        }
        assert(ex.drop_last().push(ex.last()) =~= ex);
    }
}

/// Opening a closed directory and closing it again gives back the open
/// directories.
pub proof fn law_open_then_close(ex: Seq<Seq<char>>, p: Seq<char>)
    requires
        !ex.contains(p),
    ensures
        toggled(toggled(ex, p), p) == ex,
{
    let ex2 = ex.push(p);
    assert(ex2.contains(p)) by {
        assert(ex2[ex.len() as int] == p);
    }
    reveal_with_fuel(Seq::<_>::filter, 1);
    assert(ex2.drop_last() =~= ex);
    lemma_filter_keeps_all(ex, p);
}

proof fn lemma_without_distinct(ex: Seq<Seq<char>>, p: Seq<char>)
    requires
        ex.no_duplicates(),
    ensures
        without(ex, p).no_duplicates(),
    decreases ex.len(),
{
    if ex.len() > 0 {
        let rest = ex.drop_last();
        let x = ex.last();
        assert(rest.push(x) =~= ex);
        assert(rest.no_duplicates()) by {
            assert forall|i: int, j: int| 0 <= i < rest.len() && 0 <= j < rest.len() && i != j implies rest[i]
                != rest[j] by {
                assert(rest[i] == ex[i] && rest[j] == ex[j]);
            }
        }
        lemma_without_distinct(rest, p);
        let f = other_than(p);
        rest.lemma_filter_push(x, f);
        if x != p {
            assert(!without(rest, p).contains(x)) by {
                if without(rest, p).contains(x) {
                    rest.lemma_filter_contains_rev(f, x);
                    let i = choose|i: int| 0 <= i < rest.len() && rest[i] == x;
                    assert(ex[i] == ex[ex.len() - 1]);
                }
            }
        }
    }
}

/// Opening or closing a directory keeps each open directory listed once.
pub proof fn law_toggle_keeps_distinct(ex: Seq<Seq<char>>, p: Seq<char>)
    requires
        ex.no_duplicates(),
    ensures
        toggled(ex, p).no_duplicates(),
        without(ex, p).no_duplicates(),
{
    lemma_without_distinct(ex, p);
    if !ex.contains(p) {
        assert forall|i: int, j: int| 0 <= i < ex.push(p).len() && 0 <= j < ex.push(p).len() && i != j implies
            ex.push(p)[i] != ex.push(p)[j] by {
            if i == ex.len() {
                assert(ex[j] == ex.push(p)[j]);
            } else if j == ex.len() {
                assert(ex[i] == ex.push(p)[i]);
            }
        }
    }
}

/// Whether some row has the path `p`.
pub open spec fn has_path(vis: Seq<EntryView>, p: Seq<char>) -> bool {
    exists|i: int| 0 <= i < vis.len() && vis[i].path == p
}

/// Opening more directories keeps every row's path shown.
proof fn lemma_walk_grows(
    ex: Seq<Seq<char>>,
    ex2: Seq<Seq<char>>,
    ls: Seq<(Seq<char>, Seq<(Seq<char>, bool)>)>,
    path: Seq<char>,
    depth: int,
    q: Seq<char>,
)
    requires
        forall|x: Seq<char>| ex.contains(x) ==> ex2.contains(x),
        has_path(walk(ex, ls, path, depth), q),
    ensures
        has_path(walk(ex2, ls, path, depth), q),
    decreases depth_left(ex2, path), 1int, 0int,
{
    match listing_of(ls, path) {
        None => {},
        Some(items) => {
            lemma_items_grow(ex, ex2, ls, path, depth, order::insertion_sort(items, item_lt()), 0, q);
        },
    }
}

proof fn lemma_items_grow(
    ex: Seq<Seq<char>>,
    ex2: Seq<Seq<char>>,
    ls: Seq<(Seq<char>, Seq<(Seq<char>, bool)>)>,
    path: Seq<char>,
    depth: int,
    items: Seq<(Seq<char>, bool)>,
    k: int,
    q: Seq<char>,
)
    requires
        forall|x: Seq<char>| ex.contains(x) ==> ex2.contains(x),
        has_path(walk_items(ex, ls, path, depth, items, k), q),
    ensures
        has_path(walk_items(ex2, ls, path, depth, items, k), q),
    decreases depth_left(ex2, path), 0int, items.len() - k,
{
    if 0 <= k < items.len() {
        let name = items[k].0;
        let is_dir = items[k].1;
        let w = walk_items(ex, ls, path, depth, items, k);
        let w2 = walk_items(ex2, ls, path, depth, items, k);
        let rest = walk_items(ex, ls, path, depth, items, k + 1);
        let rest2 = walk_items(ex2, ls, path, depth, items, k + 1);
        if filepicker::skipped_name(name) {
            lemma_items_grow(ex, ex2, ls, path, depth, items, k + 1, q);
        } else {
            let child = join_path(path, name);
            let open = is_dir && ex.contains(child);
            let open2 = is_dir && ex2.contains(child);
            let sub2 = if open2 && name.len() > 0 { walk(ex2, ls, child, depth + 1) } else { Seq::empty() };
            assert(w2.len() == 1 + sub2.len() + rest2.len());
            assert(w2[0].path == child);
            let i = choose|i: int| 0 <= i < w.len() && w[i].path == q;
            if i == 0 {
                assert(w2[0].path == q);
            } else {
                let sub = if open && name.len() > 0 { walk(ex, ls, child, depth + 1) } else { Seq::empty() };
                assert(w == seq![w[0]] + sub + rest);
                if i < 1 + sub.len() {
                    assert(sub[i - 1] == w[i]);
                    assert(has_path(walk(ex, ls, child, depth + 1), q));
                    assert(ex2.contains(child));
                    lemma_max_len(ex2, child);
                    assert(child.len() > path.len());
                    lemma_walk_grows(ex, ex2, ls, child, depth + 1, q);
                    let j = choose|j: int| 0 <= j < sub2.len() && sub2[j].path == q;
                    assert(w2[1 + j] == sub2[j]);
                } else {
                    assert(rest[i - 1 - sub.len()] == w[i]);
                    lemma_items_grow(ex, ex2, ls, path, depth, items, k + 1, q);
                    let j = choose|j: int| 0 <= j < rest2.len() && rest2[j].path == q;
                    assert(w2[1 + sub2.len() + j] == rest2[j]);
                }
            }
        }
    }
}

/// A path some row has at or after `k` is found there.
proof fn lemma_find_row_found(vis: Seq<EntryView>, p: Seq<char>, k: int, i: int)
    requires
        0 <= k <= i < vis.len(),
        vis[i].path == p,
    ensures
        find_row(vis, p, k) matches Some(j) && k <= j <= i && vis[j].path == p,
    decreases i - k,
{
    if vis[k].path != p {
        lemma_find_row_found(vis, p, k + 1, i);
    }
}

/// Closing a directory keeps the others open.
proof fn lemma_without_contains(ex: Seq<Seq<char>>, p: Seq<char>, x: Seq<char>)
    requires
        ex.contains(x),
        x != p,
    ensures
        without(ex, p).contains(x),
{
    let i = choose|i: int| 0 <= i < ex.len() && ex[i] == x;
    ex.lemma_filter_contains(other_than(p), i);
}

/// Closing the directory `p` keeps showing a row with the path `p`: it is
/// found at the level of its parent, which stays open.
proof fn lemma_walk_keeps_closed(
    ex: Seq<Seq<char>>,
    ls: Seq<(Seq<char>, Seq<(Seq<char>, bool)>)>,
    path: Seq<char>,
    depth: int,
    p: Seq<char>,
)
    requires
        has_path(walk(ex, ls, path, depth), p),
    ensures
        has_path(walk(without(ex, p), ls, path, depth), p),
    decreases depth_left(ex, path), 1int, 0int,
{
    match listing_of(ls, path) {
        None => {},
        Some(items) => {
            lemma_items_keep_closed(ex, ls, path, depth, order::insertion_sort(items, item_lt()), 0, p);
        },
    }
}

proof fn lemma_items_keep_closed(
    ex: Seq<Seq<char>>,
    ls: Seq<(Seq<char>, Seq<(Seq<char>, bool)>)>,
    path: Seq<char>,
    depth: int,
    items: Seq<(Seq<char>, bool)>,
    k: int,
    p: Seq<char>,
)
    requires
        has_path(walk_items(ex, ls, path, depth, items, k), p),
    ensures
        has_path(walk_items(without(ex, p), ls, path, depth, items, k), p),
    decreases depth_left(ex, path), 0int, items.len() - k,
{
    let ex2 = without(ex, p);
    if 0 <= k < items.len() {
        let name = items[k].0;
        let is_dir = items[k].1;
        let w = walk_items(ex, ls, path, depth, items, k);
        let w2 = walk_items(ex2, ls, path, depth, items, k);
        let rest = walk_items(ex, ls, path, depth, items, k + 1);
        let rest2 = walk_items(ex2, ls, path, depth, items, k + 1);
        if filepicker::skipped_name(name) {
            lemma_items_keep_closed(ex, ls, path, depth, items, k + 1, p);
        } else {
            let child = join_path(path, name);
            let open = is_dir && ex.contains(child);
            let open2 = is_dir && ex2.contains(child);
            let sub2 = if open2 && name.len() > 0 { walk(ex2, ls, child, depth + 1) } else { Seq::empty() };
            assert(w2.len() == 1 + sub2.len() + rest2.len());
            assert(w2[0].path == child);
            if child == p {
                assert(w2[0].path == p);
            } else {
                let i = choose|i: int| 0 <= i < w.len() && w[i].path == p;
                let sub = if open && name.len() > 0 { walk(ex, ls, child, depth + 1) } else { Seq::empty() };
                assert(w == seq![w[0]] + sub + rest);
                assert(i != 0);
                if i < 1 + sub.len() {
                    assert(sub[i - 1] == w[i]);
                    lemma_without_contains(ex, p, child);
                    assert(open2);
                    lemma_max_len(ex, child);
                    lemma_walk_keeps_closed(ex, ls, child, depth + 1, p);
                    let j = choose|j: int| 0 <= j < sub2.len() && sub2[j].path == p;
                    assert(w2[1 + j] == sub2[j]);
                } else {
                    assert(rest[i - 1 - sub.len()] == w[i]);
                    lemma_items_keep_closed(ex, ls, path, depth, items, k + 1, p);
                    let j = choose|j: int| 0 <= j < rest2.len() && rest2[j].path == p;
                    assert(w2[1 + sub2.len() + j] == rest2[j]);
                }
            }
        }
    }
}

/// Closing the selected directory keeps the selection on it: the tree read
/// again still has a row with its path, and the selection moves to the
/// first such row.
pub proof fn law_close_keeps_selection(t: TreeView, ls: Seq<(Seq<char>, Seq<(Seq<char>, bool)>)>)
    requires
        t.visible == walk(t.expanded, ls, t.root, 0),
        t.has_selection(),
        t.visible[t.selected].is_dir,
        t.expanded.contains(t.visible[t.selected].path),
    ensures
        ({
            let p = t.visible[t.selected].path;
            let t1 = t.collapsed(ls);
            &&& t1.expanded == without(t.expanded, p)
            &&& !t1.expanded.contains(p)
            &&& t1.visible == walk(without(t.expanded, p), ls, t.root, 0)
            &&& t1.has_selection()
            &&& t1.visible[t1.selected].path == p
            &&& find_row(t1.visible, p, 0) == Some(t1.selected)
        }),
{
    let p = t.visible[t.selected].path;
    assert(has_path(t.visible, p));
    lemma_walk_keeps_closed(t.expanded, ls, t.root, 0, p);
    let vis1 = walk(without(t.expanded, p), ls, t.root, 0);
    let i = choose|i: int| 0 <= i < vis1.len() && vis1[i].path == p;
    lemma_find_row_found(vis1, p, 0, i);
    if without(t.expanded, p).contains(p) {
        let j = choose|j: int| 0 <= j < without(t.expanded, p).len() && without(t.expanded, p)[j] == p;
        t.expanded.lemma_filter_pred(other_than(p), j);
    }
}

/// Opening the selected directory, when it was closed, keeps the selection
/// on it: the tree read again has a row with its path, and the selection
/// moves to the first such row.
pub proof fn law_open_keeps_selection(t: TreeView, ls: Seq<(Seq<char>, Seq<(Seq<char>, bool)>)>)
    requires
        t.visible == walk(t.expanded, ls, t.root, 0),
        t.has_selection(),
        t.visible[t.selected].is_dir,
        !t.expanded.contains(t.visible[t.selected].path),
    ensures
        ({
            let p = t.visible[t.selected].path;
            let t1 = t.expand_toggled(ls);
            &&& t1.expanded == t.expanded.push(p)
            &&& t1.visible == walk(t.expanded.push(p), ls, t.root, 0)
            &&& t1.has_selection()
            &&& t1.visible[t1.selected].path == p
            &&& find_row(t1.visible, p, 0) == Some(t1.selected)
        }),
{
    let p = t.visible[t.selected].path;
    let ex2 = t.expanded.push(p);
    assert forall|x: Seq<char>| t.expanded.contains(x) implies ex2.contains(x) by {
        let i = choose|i: int| 0 <= i < t.expanded.len() && t.expanded[i] == x;
        assert(ex2[i] == x);
    }
    assert(has_path(t.visible, p));
    lemma_walk_grows(t.expanded, ex2, ls, t.root, 0, p);
    let vis1 = walk(ex2, ls, t.root, 0);
    let i = choose|i: int| 0 <= i < vis1.len() && vis1[i].path == p;
    lemma_find_row_found(vis1, p, 0, i);
}

/// Opening the selected directory and toggling it again gives back the
/// tree: the open directories, the rows and the selection. This holds when
/// the selected row is the first with its path and the row the selection
/// lands on after opening is a directory (as on a file system, where a
/// path names one entry).
pub proof fn law_open_then_toggle_again(t: TreeView, ls: Seq<(Seq<char>, Seq<(Seq<char>, bool)>)>)
    requires
        t.visible == walk(t.expanded, ls, t.root, 0),
        t.has_selection(),
        t.visible[t.selected].is_dir,
        !t.expanded.contains(t.visible[t.selected].path),
        find_row(t.visible, t.visible[t.selected].path, 0) == Some(t.selected),
    ensures
        ({
            let t1 = t.expand_toggled(ls);
            t1.visible[t1.selected].is_dir ==> t1.expand_toggled(ls) == t
        }),
{
    let p = t.visible[t.selected].path;
    law_open_keeps_selection(t, ls);
    law_open_then_close(t.expanded, p);
    let t1 = t.expand_toggled(ls);
    assert(t1.expanded.contains(p)) by {
        assert(t1.expanded[t.expanded.len() as int] == p);
    }
}

impl TreeView {
    /// The tree after reading the directories again (`ls`) with `ex` open.
    pub open spec fn refreshed(self, ex: Seq<Seq<char>>, ls: Seq<(Seq<char>, Seq<(Seq<char>, bool)>)>) -> TreeView {
        let vis = walk(ex, ls, self.root, 0);
        TreeView { expanded: ex, visible: vis, selected: reselect(self.visible, self.selected, vis), ..self }
    }

    /// Whether a row is selected.
    pub open spec fn has_selection(self) -> bool {
        0 <= self.selected < self.visible.len()
    }

    /// Whether the selected row is a file.
    pub open spec fn selected_file(self) -> bool {
        self.has_selection() && !self.visible[self.selected].is_dir
    }

    pub open spec fn up(self) -> TreeView {
        TreeView { selected: if self.selected > 0 { self.selected - 1 } else { 0 }, ..self }
    }

    pub open spec fn down(self) -> TreeView {
        TreeView {
            selected: if self.selected + 1 < self.visible.len() { self.selected + 1 } else { self.selected },
            ..self
        }
    }

    /// The selected directory opened, or closed when it was open.
    pub open spec fn expand_toggled(self, ls: Seq<(Seq<char>, Seq<(Seq<char>, bool)>)>) -> TreeView {
        if self.has_selection() && self.visible[self.selected].is_dir {
            self.refreshed(toggled(self.expanded, self.visible[self.selected].path), ls)
        } else {
            self
        }
    }

    /// The selected directory closed when it is open; otherwise the row of
    /// its parent selected, if that is shown.
    pub open spec fn collapsed(self, ls: Seq<(Seq<char>, Seq<(Seq<char>, bool)>)>) -> TreeView {
        if self.has_selection() {
            let e = self.visible[self.selected];
            if e.is_dir && self.expanded.contains(e.path) {
                self.refreshed(without(self.expanded, e.path), ls)
            } else {
                match parent_of(e.path) {
                    Some(par) => match find_row(self.visible, par, 0) {
                        Some(pos) => TreeView { selected: pos, ..self },
                        None => self,
                    },
                    None => self,
                }
            }
        } else {
            self
        }
    }
}

/// What `Path::parent` returns for the path with the given characters.
pub uninterp spec fn parent_of(p: Seq<char>) -> Option<Seq<char>>;

/// `Path::parent`: the path without its last component, if it has one. The
/// contract names the result and claims nothing more of it.
#[verifier::external_body]
fn path_parent(p: &str) -> (r: Option<String>)
    ensures
        crate::editor::opt_view(r) == parent_of(p@),
{
    std::path::Path::new(p).parent().map(|q| q.to_string_lossy().into_owned())
}

fn find_row_exec(vis: &Vec<FileEntry>, p: &Vec<char>) -> (r: Option<usize>)
    ensures
        match r {
            Some(i) => find_row(entries_view(vis@), p@, 0) == Some(i as int),
            None => find_row(entries_view(vis@), p@, 0) is None,
        },
{
    let ghost ev = entries_view(vis@);
    let mut i: usize = 0;
    while i < vis.len()
        invariant
            i <= vis.len(),
            ev == entries_view(vis@),
            find_row(ev, p@, 0) == find_row(ev, p@, i as int),
        decreases vis.len() - i,
    {
        let pc = chars_of(vis[i].path.as_str());
        if chars_eq(&pc, p) {
            return Some(i);
        }
        i = i + 1;
    }
    None
}

fn without_path(ex: &Vec<String>, p: &Vec<char>) -> (r: Vec<String>)
    ensures
        strings_view(r@) == without(strings_view(ex@), p@),
{
    let ghost sv = strings_view(ex@);
    let mut out: Vec<String> = Vec::new();
    let mut i: usize = 0;
    while i < ex.len()
        invariant
            i <= ex.len(),
            sv == strings_view(ex@),
            strings_view(out@) == sv.take(i as int).filter(|x: Seq<char>| x != p@),
        decreases ex.len() - i,
    {
        let c = chars_of(ex[i].as_str());
        let same = chars_eq(&c, p);
        assert(sv.take(i + 1).drop_last() =~= sv.take(i as int));
        assert(sv.take(i + 1).last() == ex@[i as int]@);
        proof {
            reveal_with_fuel(Seq::<_>::filter, 1);
        }
        if !same {
            let ghost before = strings_view(out@);
            out.push(ex[i].clone());
            assert(strings_view(out@) =~= before.push(ex@[i as int]@));
        }
        i = i + 1;
    }
    assert(sv.take(ex.len() as int) =~= sv);
    out
}

fn contains_string(ex: &Vec<String>, p: &Vec<char>) -> (r: bool)
    ensures
        r == strings_view(ex@).contains(p@),
{
    let mut i: usize = 0;
    while i < ex.len()
        invariant
            i <= ex.len(),
            forall|k: int| 0 <= k < i ==> ex@[k]@ != p@,
        decreases ex.len() - i,
    {
        let c = chars_of(ex[i].as_str());
        if chars_eq(&c, p) {
            assert(strings_view(ex@)[i as int] == p@);
            return true;
        }
        i = i + 1;
    }
    assert(!strings_view(ex@).contains(p@)) by {
        if strings_view(ex@).contains(p@) {
            let k = choose|k: int| 0 <= k < strings_view(ex@).len() && strings_view(ex@)[k] == p@;
            assert(ex@[k]@ == p@);
        }
    }
    false
}

impl FileTree {
    /// A tree rooted at `root` with only the root open and the first row
    /// selected; `listings` holds what reading `root` gave.
    pub fn new(root: String, listings: &Vec<DirListing>) -> (r: Self)
        ensures
            r@ == tree_at(root@, listings_view(listings@)),
    {
        let mut expanded: Vec<String> = Vec::new();
        expanded.push(root.clone());
        assert(strings_view(expanded@) =~= seq![root@]);
        let visible = compute_visible(root.as_str(), &expanded, listings);
        FileTree { root, expanded, visible, selected: 0 }
    }

    /// Reads the tree again from `listings` (what reading the root and each
    /// open directory gave), keeping the selected entry selected if it is
    /// still shown.
    pub fn refresh(&mut self, listings: &Vec<DirListing>)
        ensures
            final(self)@ == old(self)@.refreshed(old(self)@.expanded, listings_view(listings@)),
    {
        let sel_path: Option<Vec<char>> = if self.selected < self.visible.len() {
            Some(chars_of(self.visible[self.selected].path.as_str()))
        } else {
            None
        };
        let ghost old_vis = entries_view(self.visible@);
        self.visible = compute_visible(self.root.as_str(), &self.expanded, listings);
        if let Some(prev) = sel_path {
            if let Some(pos) = find_row_exec(&self.visible, &prev) {
                self.selected = pos;
                return;
            }
        }
        let last = self.visible.len().saturating_sub(1);
        if self.selected > last {
            self.selected = last;
        }
    }

    pub fn key_up(&mut self)
        ensures
            final(self)@ == old(self)@.up(),
    {
        if self.selected > 0 {
            self.selected -= 1;
        }
    }

    pub fn key_down(&mut self)
        ensures
            final(self)@ == old(self)@.down(),
    {
        if self.visible.len() > 0 && self.selected < self.visible.len() - 1 {
            self.selected += 1;
        }
    }

    /// Opens the selected directory, or closes it when it is open, and reads
    /// the tree again from `listings` (which must hold the root, every open
    /// directory, and the selected one). Nothing happens on a file.
    pub fn toggle_expand(&mut self, listings: &Vec<DirListing>)
        ensures
            final(self)@ == old(self)@.expand_toggled(listings_view(listings@)),
    {
        if self.selected < self.visible.len() && self.visible[self.selected].is_dir {
            let p = chars_of(self.visible[self.selected].path.as_str());
            let found = contains_string(&self.expanded, &p);
            if found {
                self.expanded = without_path(&self.expanded, &p);
            } else {
                let ghost before = strings_view(self.expanded@);
                self.expanded.push(string_of(&p));
                assert(strings_view(self.expanded@) =~= before.push(p@));
            }
            self.refresh(listings);
        }
    }

    /// Closes the selected directory when it is open (reading the tree again
    /// from `listings`); otherwise selects the row of its parent directory,
    /// if that is shown.
    pub fn collapse_or_parent(&mut self, listings: &Vec<DirListing>)
        ensures
            final(self)@ == old(self)@.collapsed(listings_view(listings@)),
    {
        if self.selected < self.visible.len() {
            let p = chars_of(self.visible[self.selected].path.as_str());
            if self.visible[self.selected].is_dir && contains_string(&self.expanded, &p) {
                self.expanded = without_path(&self.expanded, &p);
                self.refresh(listings);
                return;
            }
            let parent = path_parent(self.visible[self.selected].path.as_str());
            if let Some(par) = parent {
                let pc = chars_of(par.as_str());
                if let Some(pos) = find_row_exec(&self.visible, &pc) {
                    self.selected = pos;
                }
            }
        }
    }

    /// The path of the selected entry.
    pub fn selected_path(&self) -> (r: Option<&String>)
        ensures
            r == if self.selected < self.visible.len() { Some(&self.visible@[self.selected as int].path) } else { None },
    {
        if self.selected < self.visible.len() {
            Some(&self.visible[self.selected].path)
        } else {
            None
        }
    }

    /// Whether the selected entry is a file.
    pub fn selected_is_file(&self) -> (r: bool)
        ensures
            r == (self.selected < self.visible.len() && !self.visible@[self.selected as int].is_dir),
    {
        self.selected < self.visible.len() && !self.visible[self.selected].is_dir
    }
}

} // verus!

verus! {

/// The index just past the last `'.'` of `name`, or 0 when it has none.
pub open spec fn ext_start(name: Seq<char>) -> int
    decreases name.len(),
{
    if name.len() == 0 {
        0
    } else if name.last() == '.' {
        name.len() as int
    } else {
        ext_start(name.drop_last())
    }
}

/// What follows the last `'.'` of a file name (the whole name when it has
/// no `'.'`), as `rsplit('.').next()` gives it.
pub open spec fn extension(name: Seq<char>) -> Seq<char> {
    name.skip(ext_start(name))
}

/// The two-character icon shown before a file in the tree.
pub open spec fn icon_for(ext: Seq<char>) -> Seq<char> {
    if ext == "rs"@ {
        "r "@
    } else if ext == "toml"@ || ext == "yaml"@ || ext == "yml"@ {
        "c "@
    } else if ext == "md"@ {
        "m "@
    } else if ext == "json"@ {
        "j "@
    } else if ext == "js"@ || ext == "ts"@ || ext == "jsx"@ || ext == "tsx"@ {
        "j "@
    } else if ext == "py"@ {
        "p "@
    } else if ext == "html"@ || ext == "htm"@ {
        "h "@
    } else if ext == "css"@ || ext == "scss"@ {
        "s "@
    } else if ext == "sh"@ || ext == "bash"@ {
        "$ "@
    } else if ext == "lock"@ {
        "l "@
    } else {
        "  "@
    }
}

proof fn lemma_ext_start(name: Seq<char>)
    ensures
        0 <= ext_start(name) <= name.len(),
        ext_start(name) > 0 ==> name[ext_start(name) - 1] == '.',
        forall|k: int| ext_start(name) <= k < name.len() ==> name[k] != '.',
    decreases name.len(),
{
    if name.len() > 0 && name.last() != '.' {
        lemma_ext_start(name.drop_last());
        assert forall|k: int| ext_start(name) <= k < name.len() implies name[k] != '.' by {
            if k < name.len() - 1 {
                assert(name.drop_last()[k] == name[k]);
            }
        }
    }
}

fn is(ext: &Vec<char>, lit: &str) -> (r: bool)
    ensures
        r == (ext@ == lit@),
{
    chars_eq(ext, &chars_of(lit))
}

/// What follows the last `'.'` of a file name (the whole name when it has
/// none), as `rsplit('.').next()` gives it.
pub fn extension_of(name: &str) -> (r: Vec<char>)
    ensures
        r@ == extension(name@),
{
    let n = chars_of(name);
    let mut k: usize = n.len();
    assert(n@.take(k as int) =~= n@);
    while k > 0 && n[k - 1] != '.'
        invariant
            k <= n.len(),
            ext_start(n@) == ext_start(n@.take(k as int)),
        decreases k,
    {
        assert(n@.take(k as int).drop_last() =~= n@.take(k - 1));
        k = k - 1;
    }
    assert(n@.take(k as int).len() == k);
    let mut ext: Vec<char> = Vec::new();
    let mut j = k;
    while j < n.len()
        invariant
            k <= j <= n.len(),
            ext@ =~= n@.subrange(k as int, j as int),
        decreases n.len() - j,
    {
        ext.push(n[j]);
        j = j + 1;
    }
    assert(ext@ =~= extension(name@));
    ext
}

/// The extension that picks the syntax for the editor's file: the file's
/// extension, or `txt` for a buffer without a file.
pub fn syntax_extension(path: Option<&str>) -> (r: String)
    ensures
        r@ == match path {
            Some(p) => extension(p@),
            None => "txt"@,
        },
{
    match path {
        Some(p) => string_of(&extension_of(p)),
        None => String::from_str("txt"),
    }
}

/// The icon of a file, chosen by its extension.
pub fn file_icon(name: &str) -> (r: &'static str)
    ensures
        r@ == icon_for(extension(name@)),
{
    let ext = extension_of(name);
    if is(&ext, "rs") {
        "r "
    } else if is(&ext, "toml") || is(&ext, "yaml") || is(&ext, "yml") {
        "c "
    } else if is(&ext, "md") {
        "m "
    } else if is(&ext, "json") {
        "j "
    } else if is(&ext, "js") || is(&ext, "ts") || is(&ext, "jsx") || is(&ext, "tsx") {
        "j "
    } else if is(&ext, "py") {
        "p "
    } else if is(&ext, "html") || is(&ext, "htm") {
        "h "
    } else if is(&ext, "css") || is(&ext, "scss") {
        "s "
    } else if is(&ext, "sh") || is(&ext, "bash") {
        "$ "
    } else if is(&ext, "lock") {
        "l "
    } else {
        "  "
    }
}

} // verus!
