//! Orders on text, and the stable insertion sort used to list files.
use vstd::prelude::*;

verus! {

/// `a` comes strictly before `b` in lexicographic order on characters (the
/// order of `str`'s `Ord`, which compares UTF-8 bytes: the same order).
pub open spec fn seq_lt(a: Seq<char>, b: Seq<char>) -> bool
    decreases a.len(),
{
    if a.len() == 0 {
        b.len() > 0
    } else if b.len() == 0 {
        false
    } else if a[0] != b[0] {
        (a[0] as u32) < (b[0] as u32)
    } else {
        seq_lt(a.drop_first(), b.drop_first())
    }
}

/// Whether `a` comes strictly before `b` (see `seq_lt`).
pub fn chars_lt(a: &Vec<char>, b: &Vec<char>) -> (r: bool)
    ensures
        r == seq_lt(a@, b@),
{
    let mut i: usize = 0;
    assert(a@.skip(0) =~= a@);
    assert(b@.skip(0) =~= b@);
    loop
        invariant
            i <= a.len(),
            i <= b.len(),
            seq_lt(a@, b@) == seq_lt(a@.skip(i as int), b@.skip(i as int)),
        decreases a.len() - i,
    {
        if i == a.len() {
            return i < b.len();
        }
        if i == b.len() {
            return false;
        }
        if a[i] != b[i] {
            return (a[i] as u32) < (b[i] as u32);
        }
        assert(a@.skip(i as int).drop_first() =~= a@.skip(i + 1));
        assert(b@.skip(i as int).drop_first() =~= b@.skip(i + 1));
        i = i + 1;
    }
}

/// The index where a stable insertion puts `x` into `s`: before the first
/// element (from index `i` on) that `x` is strictly less than.
pub open spec fn insert_pos<T>(s: Seq<T>, x: T, lt: spec_fn(T, T) -> bool, i: int) -> int
    decreases s.len() - i,
{
    if i >= s.len() {
        s.len() as int
    } else if lt(x, s[i]) {
        i
    } else {
        insert_pos(s, x, lt, i + 1)
    }
}

/// Stable insertion sort of `s` by the strict order `lt`: each element is
/// inserted, in turn, after every element that is not greater than it.
pub open spec fn insertion_sort<T>(s: Seq<T>, lt: spec_fn(T, T) -> bool) -> Seq<T>
    decreases s.len(),
{
    if s.len() == 0 {
        s
    } else {
        let r = insertion_sort(s.drop_last(), lt);
        r.insert(insert_pos(r, s.last(), lt, 0), s.last())
    }
}

pub proof fn lemma_insert_pos_bounds<T>(s: Seq<T>, x: T, lt: spec_fn(T, T) -> bool, i: int)
    requires
        0 <= i <= s.len(),
    ensures
        i <= insert_pos(s, x, lt, i) <= s.len(),
    decreases s.len() - i,
{
    if i < s.len() && !lt(x, s[i]) {
        lemma_insert_pos_bounds(s, x, lt, i + 1);
    }
}

pub proof fn lemma_sort_len<T>(s: Seq<T>, lt: spec_fn(T, T) -> bool)
    ensures
        insertion_sort(s, lt).len() == s.len(),
    decreases s.len(),
{
    if s.len() > 0 {
        lemma_sort_len(s.drop_last(), lt);
        lemma_insert_pos_bounds(insertion_sort(s.drop_last(), lt), s.last(), lt, 0);
    }
}

/// The strict order of strings, by their characters.
pub open spec fn string_lt() -> spec_fn(Seq<char>, Seq<char>) -> bool {
    |a: Seq<char>, b: Seq<char>| seq_lt(a, b)
}

/// The views of a sequence of strings.
pub open spec fn strings_view(v: Seq<String>) -> Seq<Seq<char>> {
    v.map_values(|s: String| s@)
}

/// `v` sorted as `slice::sort` sorts strings.
pub fn sort_strings(v: Vec<String>) -> (r: Vec<String>)
    ensures
        strings_view(r@) == insertion_sort(strings_view(v@), string_lt()),
{
    let ghost sv = strings_view(v@);
    let mut out: Vec<String> = Vec::new();
    let mut keys: Vec<Vec<char>> = Vec::new();
    let mut i: usize = 0;
    let n = v.len();
    while i < n
        invariant
            n == v.len(),
            i <= n,
            strings_view(v@) == sv,
            out.len() == keys.len(),
            forall|k: int| 0 <= k < keys.len() ==> keys@[k]@ == out@[k]@,
            strings_view(out@) == insertion_sort(sv.take(i as int), string_lt()),
        decreases n - i,
    {
        let x = v[i].clone();
        let xk = crate::text::chars_of(v[i].as_str());
        let ghost prev = strings_view(out@);
        proof {
            lemma_sort_len(sv.take(i as int), string_lt());
        }
        let mut p: usize = 0;
        while p < out.len() && !chars_lt(&xk, &keys[p])
            invariant
                p <= out.len() == keys.len(),
                forall|k: int| 0 <= k < keys.len() ==> keys@[k]@ == out@[k]@,
                prev == strings_view(out@),
                insert_pos(prev, xk@, string_lt(), 0) == insert_pos(prev, xk@, string_lt(), p as int),
            decreases out.len() - p,
        {
            p = p + 1;
        }
        out.insert(p, x);
        keys.insert(p, xk);
        assert(sv.take(i + 1).drop_last() =~= sv.take(i as int));
        assert(sv.take(i + 1).last() == xk@);
        assert(strings_view(out@) =~= prev.insert(p as int, xk@));
        i = i + 1;
    }
    assert(sv.take(n as int) =~= sv);
    out
}

} // verus!

verus! {

/// `lt` is a strict order: irreflexive and transitive.
pub open spec fn strict_order<T>(lt: spec_fn(T, T) -> bool) -> bool {
    &&& forall|a: T| !#[trigger] lt(a, a)
    &&& forall|a: T, b: T, c: T| #[trigger] lt(a, b) && #[trigger] lt(b, c) ==> lt(a, c)
}

/// No element of `s` is less than one before it.
pub open spec fn sorted_by<T>(s: Seq<T>, lt: spec_fn(T, T) -> bool) -> bool {
    forall|i: int, j: int| 0 <= i < j < s.len() ==> !lt(#[trigger] s[j], #[trigger] s[i])
}

proof fn lemma_insert_pos_props<T>(s: Seq<T>, x: T, lt: spec_fn(T, T) -> bool, i: int)
    requires
        0 <= i <= s.len(),
    ensures
        forall|k: int| i <= k < insert_pos(s, x, lt, i) ==> !lt(x, #[trigger] s[k]),
        insert_pos(s, x, lt, i) < s.len() ==> lt(x, s[insert_pos(s, x, lt, i)]),
        i <= insert_pos(s, x, lt, i) <= s.len(),
    decreases s.len() - i,
{
    if i < s.len() && !lt(x, s[i]) {
        lemma_insert_pos_props(s, x, lt, i + 1);
    }
}

proof fn lemma_insert_sorted<T>(r: Seq<T>, x: T, lt: spec_fn(T, T) -> bool)
    requires
        strict_order(lt),
        sorted_by(r, lt),
    ensures
        sorted_by(r.insert(insert_pos(r, x, lt, 0), x), lt),
{
    let p = insert_pos(r, x, lt, 0);
    lemma_insert_pos_props(r, x, lt, 0);
    let t = r.insert(p, x);
    assert forall|i: int, j: int| 0 <= i < j < t.len() implies !lt(#[trigger] t[j], #[trigger] t[i]) by {
        if j < p {
            assert(t[i] == r[i] && t[j] == r[j]);
        } else if j == p {
            assert(t[i] == r[i] && t[j] == x);
        } else if i < p {
            assert(t[i] == r[i] && t[j] == r[j - 1]);
            assert(!lt(x, r[i]));
            if lt(r[j - 1], r[i]) {
            }
            if p < r.len() {
                assert(lt(x, r[p]));
                assert(!lt(r[j - 1], r[p]) || j - 1 == p);
            }
            assert(!lt(r[j - 1], r[i]));
        } else if i == p {
            assert(t[i] == x && t[j] == r[j - 1]);
            assert(lt(x, r[p]));
            if j - 1 > p {
                assert(!lt(r[j - 1], r[p]));
            }
            if lt(r[j - 1], x) {
                assert(lt(r[j - 1], r[p]));
            }
        } else {
            assert(t[i] == r[i - 1] && t[j] == r[j - 1]);
        }
    }
}

/// Insertion sort by a strict order gives its elements back, each once, in
/// order.
pub proof fn law_insertion_sort<T>(s: Seq<T>, lt: spec_fn(T, T) -> bool)
    requires
        strict_order(lt),
    ensures
        sorted_by(insertion_sort(s, lt), lt),
        insertion_sort(s, lt).to_multiset() == s.to_multiset(),
    decreases s.len(),
{
    if s.len() == 0 {
        assert(sorted_by(s, lt));
    } else {
        let rest = s.drop_last();
        law_insertion_sort(rest, lt);
        let r = insertion_sort(rest, lt);
        lemma_insert_sorted(r, s.last(), lt);
        lemma_insert_pos_bounds(r, s.last(), lt, 0);
        vstd::seq_lib::to_multiset_insert(r, insert_pos(r, s.last(), lt, 0), s.last());
        vstd::seq_lib::to_multiset_build(rest, s.last());
        assert(rest.push(s.last()) =~= s);
    }
}

pub proof fn lemma_seq_lt_irreflexive(a: Seq<char>)
    ensures
        !seq_lt(a, a),
    decreases a.len(),
{
    if a.len() > 0 {
        lemma_seq_lt_irreflexive(a.drop_first());
    }
}

pub proof fn lemma_seq_lt_transitive(a: Seq<char>, b: Seq<char>, c: Seq<char>)
    requires
        seq_lt(a, b),
        seq_lt(b, c),
    ensures
        seq_lt(a, c),
    decreases a.len(),
{
    if a.len() > 0 && b.len() > 0 && c.len() > 0 && a[0] == b[0] && b[0] == c[0] {
        lemma_seq_lt_transitive(a.drop_first(), b.drop_first(), c.drop_first());
    }
}

/// The order of strings is a strict order.
pub proof fn lemma_string_order()
    ensures
        strict_order(string_lt()),
{
    assert forall|a: Seq<char>| !#[trigger] string_lt()(a, a) by {
        lemma_seq_lt_irreflexive(a);
    }
    assert forall|a: Seq<char>, b: Seq<char>, c: Seq<char>|
        #[trigger] string_lt()(a, b) && #[trigger] string_lt()(b, c) implies string_lt()(a, c) by {
        lemma_seq_lt_transitive(a, b, c);
    }
}

/// The files listed by the picker are in order, each found file once.
pub proof fn law_files_sorted(found: Seq<Seq<char>>)
    ensures
        sorted_by(insertion_sort(found, string_lt()), string_lt()),
        insertion_sort(found, string_lt()).to_multiset() == found.to_multiset(),
{
    lemma_string_order();
    law_insertion_sort(found, string_lt());
}

} // verus!
