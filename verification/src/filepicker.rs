//! The `@` file picker: the project's files, narrowed by a query typed after
//! `@`, with one of them selected.
use vstd::prelude::*;
use crate::order::{sort_strings, strings_view};
use crate::order;
use crate::text::{chars_eq, chars_of, contains_chars, string_of, to_lowercase};
use crate::text;

verus! {

pub struct FilePicker {
    pub files: Vec<String>,
    pub filtered: Vec<String>,
    pub selected: usize,
    pub query: String,
    /// If the picker was opened by typing `@`, the index of that `@` in the
    /// input line; `None` when it was opened with Ctrl+F.
    pub at_pos: Option<usize>,
}

/// The picker, abstractly.
pub struct PickerView {
    pub files: Seq<Seq<char>>,
    pub filtered: Seq<Seq<char>>,
    pub selected: int,
    pub query: Seq<char>,
    pub at_pos: Option<usize>,
}

impl View for FilePicker {
    type V = PickerView;

    open spec fn view(&self) -> PickerView {
        PickerView {
            files: strings_view(self.files@),
            filtered: strings_view(self.filtered@),
            selected: self.selected as int,
            query: self.query@,
            at_pos: self.at_pos,
        }
    }
}

/// A file is kept by a query when the query occurs in its path, ignoring case.
pub open spec fn matches_query(query: Seq<char>) -> spec_fn(Seq<char>) -> bool {
    |f: Seq<char>| text::contains_seq(text::lowercase(f), text::lowercase(query))
}

impl PickerView {
    /// The files that `query` keeps, with the first selected.
    pub open spec fn filtered_by(self, query: Seq<char>) -> PickerView {
        PickerView { query, filtered: self.files.filter(matches_query(query)), selected: 0, ..self }
    }

    pub open spec fn moved_up(self) -> PickerView {
        PickerView { selected: if self.selected > 0 { self.selected - 1 } else { 0 }, ..self }
    }

    pub open spec fn moved_down(self) -> PickerView {
        PickerView {
            selected: if self.selected + 1 < self.filtered.len() { self.selected + 1 } else { self.selected },
            ..self
        }
    }

    /// The selected file, if any.
    pub open spec fn current(self) -> Option<Seq<char>> {
        if 0 <= self.selected < self.filtered.len() { Some(self.filtered[self.selected]) } else { None }
    }
}

impl FilePicker {
    /// A picker over `files` (the result of `scan_files`), with every file
    /// shown and the first one selected.
    pub fn new(files: Vec<String>) -> (r: Self)
        ensures
            r.files@ == files@,
            r.filtered@ == files@,
            r.selected == 0,
            r.query@ == Seq::<char>::empty(),
            r.at_pos is None,
    {
        let filtered = files.clone();
        proof {
            assert(filtered@ =~= files@);
        }
        FilePicker { files, filtered, selected: 0, query: String::new(), at_pos: None }
    }

    /// Shows the files whose path contains `query` (ignoring case), in their
    /// order, and selects the first.
    pub fn update_filter(&mut self, query: &str)
        ensures
            final(self)@ == old(self)@.filtered_by(query@),
            final(self).query@ == query@,
            strings_view(final(self).filtered@) == strings_view(old(self).files@).filter(matches_query(query@)),
            final(self).selected == 0,
            final(self).files == old(self).files,
            final(self).at_pos == old(self).at_pos,
    {
        self.query = String::from_str(query);
        let q = to_lowercase(query);
        let qc = chars_of(q.as_str());
        let ghost fv = strings_view(self.files@);
        let mut out: Vec<String> = Vec::new();
        let mut i: usize = 0;
        while i < self.files.len()
            invariant
                i <= self.files.len(),
                fv == strings_view(self.files@),
                qc@ == text::lowercase(query@),
                strings_view(out@) == fv.take(i as int).filter(matches_query(query@)),
            decreases self.files.len() - i,
        {
            let f = to_lowercase(self.files[i].as_str());
            let fc = chars_of(f.as_str());
            let keep = contains_chars(&fc, &qc);
            assert(fv.take(i + 1).drop_last() =~= fv.take(i as int));
            assert(fv.take(i + 1).last() == self.files@[i as int]@);
            assert(keep == matches_query(query@)(fv.take(i + 1).last()));
            proof {
                reveal_with_fuel(Seq::<_>::filter, 1);
            }
            if keep {
                out.push(self.files[i].clone());
                assert(strings_view(out@) =~= fv.take(i as int).filter(matches_query(query@)).push(self.files@[i as int]@));
            }
            assert(strings_view(out@) == fv.take(i + 1).filter(matches_query(query@)));
            i = i + 1;
        }
        assert(fv.take(self.files.len() as int) =~= fv);
        self.filtered = out;
        self.selected = 0;
    }

    pub fn move_up(&mut self)
        ensures
            final(self)@ == old(self)@.moved_up(),
            final(self).selected == if old(self).selected > 0 { old(self).selected - 1 } else { 0 },
            final(self).files == old(self).files,
            final(self).filtered == old(self).filtered,
            final(self).query == old(self).query,
            final(self).at_pos == old(self).at_pos,
    {
        self.selected = self.selected.saturating_sub(1);
    }

    pub fn move_down(&mut self)
        ensures
            final(self)@ == old(self)@.moved_down(),
            final(self).selected == if old(self).selected + 1 < old(self).filtered.len() {
                old(self).selected + 1
            } else {
                old(self).selected as int
            },
            final(self).files == old(self).files,
            final(self).filtered == old(self).filtered,
            final(self).query == old(self).query,
            final(self).at_pos == old(self).at_pos,
    {
        if self.filtered.len() > 0 && self.selected < self.filtered.len() - 1 {
            self.selected += 1;
        }
    }

    /// The selected file, if any.
    pub fn current(&self) -> (r: Option<&String>)
        ensures
            r == if self.selected < self.filtered.len() { Some(&self.filtered@[self.selected as int]) } else { None },
            crate::editor::opt_view(match r { Some(f) => Some(*f), None => None }) == self@.current(),
    {
        if self.selected < self.filtered.len() {
            Some(&self.filtered[self.selected])
        } else {
            None
        }
    }
}

/// The project's files, as found while walking it, in sorted order.
pub fn scan_files(found: Vec<String>) -> (r: Vec<String>)
    ensures
        strings_view(r@) == order::insertion_sort(strings_view(found@), order::string_lt()),
{
    sort_strings(found)
}

/// Entries the scan leaves out: hidden ones, `target` and `node_modules`.
pub open spec fn skipped_name(name: Seq<char>) -> bool {
    (name.len() > 0 && name[0] == '.') || name == "target"@ || name == "node_modules"@
}

/// Whether a directory entry named `name` is left out of scans and trees.
pub fn is_skipped_name(name: &str) -> (r: bool)
    ensures
        r == skipped_name(name@),
{
    let n = chars_of(name);
    (n.len() > 0 && n[0] == '.') || chars_eq(&n, &chars_of("target")) || chars_eq(&n, &chars_of("node_modules"))
}

/// `s` without the `'/'` characters it starts with.
pub open spec fn drop_slashes(s: Seq<char>) -> Seq<char>
    decreases s.len(),
{
    if s.len() > 0 && s[0] == '/' { drop_slashes(s.skip(1)) } else { s }
}

/// The path of `name` relative to `base`: with `base` taken off its front
/// when it starts with it, and then without leading `'/'`.
pub open spec fn relative_to(base: Seq<char>, name: Seq<char>) -> Seq<char> {
    let r = if base.len() <= name.len() && name.take(base.len() as int) == base { name.skip(base.len() as int) } else { name };
    drop_slashes(r)
}

/// The path of a file found under `base`, relative to `base`.
pub fn relative_path(base: &str, name: &str) -> (r: String)
    ensures
        r@ == relative_to(base@, name@),
{
    let b = chars_of(base);
    let n = chars_of(name);
    let mut start: usize = 0;
    if b.len() <= n.len() {
        let mut k: usize = 0;
        while k < b.len() && b[k] == n[k]
            invariant
                b.len() <= n.len(),
                k <= b.len(),
                forall|j: int| 0 <= j < k ==> b@[j] == n@[j],
            decreases b.len() - k,
        {
            k = k + 1;
        }
        if k == b.len() {
            assert(n@.take(b.len() as int) =~= b@);
            start = k;
        } else {
            assert(n@.take(b.len() as int)[k as int] != b@[k as int]);
        }
    }
    let ghost r = n@.skip(start as int);
    assert(r == if b@.len() <= n@.len() && n@.take(b@.len() as int) == b@ { n@.skip(b@.len() as int) } else { n@ });
    let mut i = start;
    assert(n@.skip(i as int) == r);
    while i < n.len() && n[i] == '/'
        invariant
            start <= i <= n.len(),
            drop_slashes(r) == drop_slashes(n@.skip(i as int)),
        decreases n.len() - i,
    {
        assert(n@.skip(i as int).skip(1) =~= n@.skip(i + 1));
        i = i + 1;
    }
    let mut out: Vec<char> = Vec::new();
    let mut j = i;
    while j < n.len()
        invariant
            i <= j <= n.len(),
            out@ =~= n@.subrange(i as int, j as int),
        decreases n.len() - j,
    {
        out.push(n[j]);
        j = j + 1;
    }
    assert(out@ =~= n@.skip(i as int));
    string_of(&out)
}

/// What a scan does with one directory entry.
#[derive(Debug, Clone, Copy, PartialEq, Eq, Structural)]
pub enum ScanStep {
    Skip,
    Descend,
    Record,
}

/// What a scan does with an entry named `name`: leave it out, walk into it
/// (a directory), or record it (a file).
pub fn scan_step(name: &str, is_dir: bool) -> (r: ScanStep)
    ensures
        r == if skipped_name(name@) { ScanStep::Skip } else if is_dir { ScanStep::Descend } else { ScanStep::Record },
{
    if is_skipped_name(name) {
        ScanStep::Skip
    } else if is_dir {
        ScanStep::Descend
    } else {
        ScanStep::Record
    }
}

} // verus!
