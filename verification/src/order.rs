//! The order of `String` (lexicographic by character) and the stable sort of
//! name/path entries by name (`slice::sort_by` on the name).

use vstd::prelude::*;
use crate::text::{chars_of, string_of};

verus! {

/// `a < b` for strings: lexicographic order of the characters, by code
/// point (the order of `String`, which compares the UTF-8 bytes).
pub open spec fn lex_lt(a: Seq<char>, b: Seq<char>) -> bool
    decreases a.len(),
{
    if a.len() == 0 {
        b.len() > 0
    } else if b.len() == 0 {
        false
    } else if a[0] != b[0] {
        a[0] < b[0]
    } else {
        lex_lt(a.drop_first(), b.drop_first())
    }
}

pub proof fn lemma_lex_irreflexive(a: Seq<char>)
    ensures
        !lex_lt(a, a),
    decreases a.len(),
{
    if a.len() > 0 {
        lemma_lex_irreflexive(a.drop_first());
    }
}

pub proof fn lemma_lex_asymmetric(a: Seq<char>, b: Seq<char>)
    ensures
        lex_lt(a, b) ==> !lex_lt(b, a),
    decreases a.len(),
{
    if a.len() > 0 && b.len() > 0 && a[0] == b[0] {
        lemma_lex_asymmetric(a.drop_first(), b.drop_first());
    }
}

pub proof fn lemma_lex_transitive(a: Seq<char>, b: Seq<char>, c: Seq<char>)
    ensures
        lex_lt(a, b) && lex_lt(b, c) ==> lex_lt(a, c),
    decreases a.len(),
{
    if a.len() > 0 && b.len() > 0 && c.len() > 0 {
        lemma_lex_transitive(a.drop_first(), b.drop_first(), c.drop_first());
    }
}

pub proof fn lemma_lex_total(a: Seq<char>, b: Seq<char>)
    ensures
        a != b ==> lex_lt(a, b) || lex_lt(b, a),
    decreases a.len(),
{
    if a.len() > 0 && b.len() > 0 {
        if a[0] == b[0] {
            lemma_lex_total(a.drop_first(), b.drop_first());
            if a.drop_first() == b.drop_first() {
                assert(a =~= seq![a[0]] + a.drop_first());
                assert(b =~= seq![b[0]] + b.drop_first());
            }
        }
    } else if a.len() == 0 && b.len() == 0 {
        assert(a =~= b);
    }
}

/// Whether `a < b` as strings (`String`'s `<`).
pub fn lex_less(a: &Vec<char>, b: &Vec<char>) -> (r: bool)
    ensures
        r == lex_lt(a@, b@),
{
    let mut i: usize = 0;
    assert(a@.skip(0) =~= a@);
    assert(b@.skip(0) =~= b@);
    while i < a.len() && i < b.len() && a[i] == b[i]
        invariant
            i <= a.len(),
            i <= b.len(),
            lex_lt(a@, b@) == lex_lt(a@.skip(i as int), b@.skip(i as int)),
        decreases a.len() - i,
    {
        assert(a@.skip(i as int).drop_first() =~= a@.skip(i + 1));
        assert(b@.skip(i as int).drop_first() =~= b@.skip(i + 1));
        i = i + 1;
    }
    if i == a.len() {
        i < b.len()
    } else if i == b.len() {
        false
    } else {
        a[i] < b[i]
    }
}

/// Entries are sorted by name: no later name is less than an earlier one.
pub open spec fn sorted_by_name(s: Seq<(Seq<char>, Seq<char>)>) -> bool {
    forall|i: int, j: int| 0 <= i < j < s.len() ==> !lex_lt(#[trigger] s[j].0, #[trigger] s[i].0)
}

/// Where `x` goes in entries sorted by name: after every entry whose name is
/// not greater than its name.
pub open spec fn insert_pos(s: Seq<(Seq<char>, Seq<char>)>, x: (Seq<char>, Seq<char>)) -> int
    decreases s.len(),
{
    if s.len() == 0 {
        0
    } else if lex_lt(x.0, s.last().0) {
        insert_pos(s.drop_last(), x)
    } else {
        s.len() as int
    }
}

/// The stable sort by name (`sort_by(|a, b| a.0.cmp(&b.0))`): each entry, in
/// input order, is placed after the entries already placed whose name is not
/// greater than its own.
pub open spec fn sort_by_name(s: Seq<(Seq<char>, Seq<char>)>) -> Seq<(Seq<char>, Seq<char>)>
    decreases s.len(),
{
    if s.len() == 0 {
        s
    } else {
        let sorted = sort_by_name(s.drop_last());
        sorted.insert(insert_pos(sorted, s.last()), s.last())
    }
}

/// The entries with the name `k`, in order.
pub open spec fn with_name(s: Seq<(Seq<char>, Seq<char>)>, k: Seq<char>) -> Seq<
    (Seq<char>, Seq<char>),
>
    decreases s.len(),
{
    if s.len() == 0 {
        s
    } else if s.last().0 == k {
        with_name(s.drop_last(), k).push(s.last())
    } else {
        with_name(s.drop_last(), k)
    }
}

pub proof fn lemma_insert_pos_bounds(s: Seq<(Seq<char>, Seq<char>)>, x: (Seq<char>, Seq<char>))
    ensures
        0 <= insert_pos(s, x) <= s.len(),
        forall|k: int| insert_pos(s, x) <= k < s.len() ==> lex_lt(x.0, #[trigger] s[k].0),
        insert_pos(s, x) > 0 ==> !lex_lt(x.0, s[insert_pos(s, x) - 1].0),
    decreases s.len(),
{
    if s.len() > 0 && lex_lt(x.0, s.last().0) {
        lemma_insert_pos_bounds(s.drop_last(), x);
        assert forall|k: int| insert_pos(s, x) <= k < s.len() implies lex_lt(
            x.0,
            #[trigger] s[k].0,
        ) by {
            if k < s.len() - 1 {
                assert(s[k] == s.drop_last()[k]);
            }
        }
    }
}

/// The position of `x` is the one index after which every entry has a greater name.
pub proof fn lemma_insert_pos_unique(
    s: Seq<(Seq<char>, Seq<char>)>,
    x: (Seq<char>, Seq<char>),
    j: int,
)
    requires
        0 <= j <= s.len(),
        forall|k: int| j <= k < s.len() ==> lex_lt(x.0, #[trigger] s[k].0),
        j > 0 ==> !lex_lt(x.0, s[j - 1].0),
    ensures
        insert_pos(s, x) == j,
    decreases s.len(),
{
    if s.len() > 0 && j < s.len() {
        assert(lex_lt(x.0, s[s.len() - 1].0));
        assert forall|k: int| j <= k < s.drop_last().len() implies lex_lt(
            x.0,
            #[trigger] s.drop_last()[k].0,
        ) by {
            assert(s.drop_last()[k] == s[k]);
        }
        if j > 0 {
            assert(s.drop_last()[j - 1] == s[j - 1]);
        }
        lemma_insert_pos_unique(s.drop_last(), x, j);
    }
}

proof fn lemma_insert_sorted(s: Seq<(Seq<char>, Seq<char>)>, x: (Seq<char>, Seq<char>))
    requires
        sorted_by_name(s),
    ensures
        sorted_by_name(s.insert(insert_pos(s, x), x)),
{
    lemma_insert_pos_bounds(s, x);
    let p = insert_pos(s, x);
    let r = s.insert(p, x);
    assert forall|i: int, j: int| 0 <= i < j < r.len() implies !lex_lt(
        #[trigger] r[j].0,
        #[trigger] r[i].0,
    ) by {
        if j < p {
        } else if j == p {
            let a = s[p - 1];
            assert(!lex_lt(x.0, a.0));
            if i < p - 1 {
                assert(!lex_lt(a.0, s[i].0));
            }
            lemma_lex_transitive(x.0, s[i].0, a.0);
            lemma_lex_total(a.0, s[i].0);
        } else if i == p {
            lemma_lex_asymmetric(x.0, s[j - 1].0);
        } else if i < p {
            assert(r[j] == s[j - 1]);
        } else {
            assert(r[j] == s[j - 1]);
            assert(r[i] == s[i - 1]);
        }
    }
}

/// The sort gives entries sorted by name.
pub proof fn lemma_sort_sorted(s: Seq<(Seq<char>, Seq<char>)>)
    ensures
        sorted_by_name(sort_by_name(s)),
    decreases s.len(),
{
    if s.len() > 0 {
        lemma_sort_sorted(s.drop_last());
        lemma_insert_sorted(sort_by_name(s.drop_last()), s.last());
    }
}

/// The sort keeps every entry, as many times as it occurs.
pub proof fn lemma_sort_permutation(s: Seq<(Seq<char>, Seq<char>)>)
    ensures
        sort_by_name(s).to_multiset() == s.to_multiset(),
    decreases s.len(),
{
    broadcast use vstd::seq_lib::to_multiset_insert, vstd::seq_lib::to_multiset_build;

    if s.len() > 0 {
        lemma_sort_permutation(s.drop_last());
        let sorted = sort_by_name(s.drop_last());
        lemma_insert_pos_bounds(sorted, s.last());
        assert(s.drop_last().push(s.last()) =~= s);
    }
}

proof fn lemma_with_name_insert(
    s: Seq<(Seq<char>, Seq<char>)>,
    x: (Seq<char>, Seq<char>),
    k: Seq<char>,
)
    ensures
        with_name(s.insert(insert_pos(s, x), x), k) == if x.0 == k {
            with_name(s, k).push(x)
        } else {
            with_name(s, k)
        },
    decreases s.len(),
{
    lemma_insert_pos_bounds(s, x);
    let p = insert_pos(s, x);
    if s.len() == 0 {
        assert(s.insert(0, x).drop_last() =~= s);
    } else if lex_lt(x.0, s.last().0) {
        let d = s.drop_last();
        lemma_with_name_insert(d, x, k);
        assert(s.insert(p, x).drop_last() =~= d.insert(p, x));
        assert(s.insert(p, x).last() == s.last());
        if x.0 == k && s.last().0 == k {
            lemma_lex_irreflexive(k);
        }
    } else {
        assert(s.insert(p, x) =~= s.push(x));
        assert(s.push(x).drop_last() =~= s);
    }
}

/// The sort is stable: the entries of each name keep their input order.
pub proof fn lemma_sort_stable(s: Seq<(Seq<char>, Seq<char>)>, k: Seq<char>)
    ensures
        with_name(sort_by_name(s), k) == with_name(s, k),
    decreases s.len(),
{
    if s.len() > 0 {
        lemma_sort_stable(s.drop_last(), k);
        lemma_with_name_insert(sort_by_name(s.drop_last()), s.last(), k);
    }
}

/// The view of name/path entries held as character vectors.
pub open spec fn entries_view(s: Seq<(Vec<char>, Vec<char>)>) -> Seq<(Seq<char>, Seq<char>)> {
    s.map_values(|p: (Vec<char>, Vec<char>)| (p.0@, p.1@))
}

/// Sorts entries by name, stably (`sort_by(|a, b| a.0.cmp(&b.0))`).
pub fn sort_entries(v: Vec<(Vec<char>, Vec<char>)>) -> (r: Vec<(Vec<char>, Vec<char>)>)
    ensures
        entries_view(r@) == sort_by_name(entries_view(v@)),
{
    let ghost orig = entries_view(v@);
    let mut rest = v;
    let mut res: Vec<(Vec<char>, Vec<char>)> = Vec::new();
    let ghost mut k: int = 0;
    assert(orig.take(0) =~= Seq::<(Seq<char>, Seq<char>)>::empty());
    assert(entries_view(res@) =~= Seq::<(Seq<char>, Seq<char>)>::empty());
    while rest.len() > 0
        invariant
            0 <= k <= orig.len(),
            entries_view(rest@) == orig.skip(k),
            entries_view(res@) == sort_by_name(orig.take(k)),
        decreases rest.len(),
    {
        let ghost rv = entries_view(rest@);
        let x = rest.remove(0);
        assert(entries_view(rest@) =~= rv.drop_first());
        let ghost xv = (x.0@, x.1@);
        assert(xv == orig[k]) by {
            assert(rv[0] == orig.skip(k)[0]);
        }
        let ghost sv = entries_view(res@);
        let mut j: usize = res.len();
        while j > 0 && lex_less(&x.0, &res[j - 1].0)
            invariant
                j <= res.len(),
                sv == entries_view(res@),
                xv == (x.0@, x.1@),
                forall|i: int| j <= i < sv.len() ==> lex_lt(xv.0, #[trigger] sv[i].0),
            decreases j,
        {
            j = j - 1;
        }
        proof {
            lemma_insert_pos_unique(sv, xv, j as int);
        }
        res.insert(j, x);
        assert(entries_view(res@) =~= sv.insert(j as int, xv));
        proof {
            assert(orig.take(k + 1).drop_last() =~= orig.take(k));
            assert(orig.take(k + 1).last() == orig[k]);
            assert(orig.skip(k).drop_first() =~= orig.skip(k + 1));
            k = k + 1;
        }
    }
    assert(orig.take(k) =~= orig);
    res
}


/// The entries whose flag is set, in order (`keep[i]` for `s[i]`).
pub open spec fn kept(s: Seq<(Seq<char>, Seq<char>)>, keep: Seq<bool>) -> Seq<
    (Seq<char>, Seq<char>),
>
    decreases s.len(),
{
    if s.len() == 0 || keep.len() == 0 {
        Seq::empty()
    } else if keep.last() {
        kept(s.drop_last(), keep.drop_last()).push(s.last())
    } else {
        kept(s.drop_last(), keep.drop_last())
    }
}

/// The view of name/path entries held as strings.
pub open spec fn string_entries_view(s: Seq<(String, String)>) -> Seq<(Seq<char>, Seq<char>)> {
    s.map_values(|p: (String, String)| (p.0@, p.1@))
}

/// The entries as character vectors.
pub fn to_char_entries(v: &Vec<(String, String)>) -> (r: Vec<(Vec<char>, Vec<char>)>)
    ensures
        entries_view(r@) == string_entries_view(v@),
{
    let mut r: Vec<(Vec<char>, Vec<char>)> = Vec::new();
    let mut i: usize = 0;
    while i < v.len()
        invariant
            i <= v.len(),
            entries_view(r@) == string_entries_view(v@).take(i as int),
        decreases v.len() - i,
    {
        let e = &v[i];
        let a = chars_of(e.0.as_str());
        let b = chars_of(e.1.as_str());
        let ghost before = entries_view(r@);
        r.push((a, b));
        assert(entries_view(r@) =~= before.push((v@[i as int].0@, v@[i as int].1@)));
        i = i + 1;
        assert(entries_view(r@) =~= string_entries_view(v@).take(i as int));
    }
    assert(string_entries_view(v@).take(v@.len() as int) =~= string_entries_view(v@));
    r
}

/// The entries as strings.
pub fn to_string_entries(v: &Vec<(Vec<char>, Vec<char>)>) -> (r: Vec<(String, String)>)
    ensures
        string_entries_view(r@) == entries_view(v@),
{
    let mut r: Vec<(String, String)> = Vec::new();
    let mut i: usize = 0;
    while i < v.len()
        invariant
            i <= v.len(),
            string_entries_view(r@) == entries_view(v@).take(i as int),
        decreases v.len() - i,
    {
        let e = &v[i];
        let a = string_of(&e.0);
        let b = string_of(&e.1);
        let ghost before = string_entries_view(r@);
        r.push((a, b));
        assert(string_entries_view(r@) =~= before.push((v@[i as int].0@, v@[i as int].1@)));
        i = i + 1;
        assert(string_entries_view(r@) =~= entries_view(v@).take(i as int));
    }
    assert(entries_view(v@).take(v@.len() as int) =~= entries_view(v@));
    r
}

/// The entries whose flag is set, sorted by name: what the launchers' listings
/// return once each entry's directory was checked (`exists[i]` for
/// `entries[i]`).
pub fn select_entries(entries: &Vec<(String, String)>, exists: &Vec<bool>) -> (r: Vec<
    (String, String),
>)
    requires
        entries.len() == exists.len(),
    ensures
        string_entries_view(r@) == sort_by_name(kept(string_entries_view(entries@), exists@)),
{
    let all = to_char_entries(entries);
    let ghost sv = entries_view(all@);
    assert(all@.len() == sv.len() && sv.len() == string_entries_view(entries@).len());
    let mut chosen: Vec<(Vec<char>, Vec<char>)> = Vec::new();
    let mut i: usize = 0;
    assert(kept(sv.take(0), exists@.take(0)) =~= Seq::<(Seq<char>, Seq<char>)>::empty());
    assert(entries_view(chosen@) =~= Seq::<(Seq<char>, Seq<char>)>::empty());
    while i < all.len()
        invariant
            i <= all.len() == exists.len(),
            sv == entries_view(all@),
            entries_view(chosen@) == kept(sv.take(i as int), exists@.take(i as int)),
        decreases all.len() - i,
    {
        let ghost before = entries_view(chosen@);
        if exists[i] {
            let e = &all[i];
            chosen.push((crate::text::clone_chars(&e.0), crate::text::clone_chars(&e.1)));
            assert(entries_view(chosen@) =~= before.push(sv[i as int]));
        }
        proof {
            assert(sv.take(i + 1).drop_last() =~= sv.take(i as int));
            assert(exists@.take(i + 1).drop_last() =~= exists@.take(i as int));
        }
        i = i + 1;
    }
    assert(sv.take(all.len() as int) =~= sv);
    assert(exists@.take(all.len() as int) =~= exists@);
    let sorted = sort_entries(chosen);
    to_string_entries(&sorted)
}


/// The path of the first entry, if any.
pub open spec fn first_path(s: Seq<(Seq<char>, Seq<char>)>) -> Option<Seq<char>> {
    if s.len() > 0 {
        Some(s[0].1)
    } else {
        None
    }
}

/// The entries of a name in a prefix are a prefix of the entries of that name.
pub proof fn lemma_with_name_prefix(s: Seq<(Seq<char>, Seq<char>)>, k: Seq<char>, m: int)
    requires
        0 <= m <= s.len(),
    ensures
        with_name(s.take(m), k).len() <= with_name(s, k).len(),
        with_name(s.take(m), k) == with_name(s, k).take(with_name(s.take(m), k).len() as int),
    decreases s.len() - m,
{
    if m == s.len() {
        assert(s.take(m) =~= s);
        assert(with_name(s, k).take(with_name(s, k).len() as int) =~= with_name(s, k));
    } else {
        lemma_with_name_prefix(s.drop_last(), k, m);
        assert(s.drop_last().take(m) =~= s.take(m));
        let a = with_name(s.take(m), k);
        let d = with_name(s.drop_last(), k);
        if s.last().0 == k {
            assert(d.push(s.last()).take(a.len() as int) =~= d.take(a.len() as int));
        }
    }
}

/// The entries kept from a prefix are a prefix of the entries kept.
pub proof fn lemma_kept_prefix(s: Seq<(Seq<char>, Seq<char>)>, keep: Seq<bool>, m: int)
    requires
        keep.len() == s.len(),
        0 <= m <= s.len(),
    ensures
        kept(s.take(m), keep.take(m)).len() <= kept(s, keep).len(),
        kept(s.take(m), keep.take(m)) == kept(s, keep).take(
            kept(s.take(m), keep.take(m)).len() as int,
        ),
    decreases s.len() - m,
{
    if m < s.len() {
        let d = s.drop_last();
        let dk = keep.drop_last();
        lemma_kept_prefix(d, dk, m);
        assert(d.take(m) =~= s.take(m));
        assert(dk.take(m) =~= keep.take(m));
        let a = kept(s.take(m), keep.take(m));
        let full = kept(d, dk);
        if keep.last() {
            assert(full.push(s.last()).take(a.len() as int) =~= full.take(a.len() as int));
        }
    } else {
        assert(s.take(m) =~= s);
        assert(keep.take(m) =~= keep);
        let k = kept(s, keep);
        assert(k.take(k.len() as int) =~= k);
    }
}

/// An entry is in the listing exactly when it is one of the entries whose
/// directory answer is `true`.
pub proof fn lemma_listing_members(
    entries: Seq<(Seq<char>, Seq<char>)>,
    keep: Seq<bool>,
    x: (Seq<char>, Seq<char>),
)
    requires
        keep.len() == entries.len(),
    ensures
        sort_by_name(kept(entries, keep)).contains(x) <==> exists|i: int|
            0 <= i < entries.len() && keep[i] && #[trigger] entries[i] == x,
{
    lemma_sort_permutation(kept(entries, keep));
    lemma_kept_members(entries, keep, x);
    let s = sort_by_name(kept(entries, keep));
    let k = kept(entries, keep);
    assert(s.to_multiset().count(x) == k.to_multiset().count(x));
    vstd::seq_lib::to_multiset_contains(s, x);
    vstd::seq_lib::to_multiset_contains(k, x);
}

/// The kept entries are the entries whose flag is `true`.
pub proof fn lemma_kept_members(
    entries: Seq<(Seq<char>, Seq<char>)>,
    keep: Seq<bool>,
    x: (Seq<char>, Seq<char>),
)
    requires
        keep.len() == entries.len(),
    ensures
        kept(entries, keep).contains(x) <==> exists|i: int|
            0 <= i < entries.len() && keep[i] && #[trigger] entries[i] == x,
    decreases entries.len(),
{
    if entries.len() > 0 {
        let d = entries.drop_last();
        let dk = keep.drop_last();
        lemma_kept_members(d, dk, x);
        let y = kept(d, dk);
        let n = entries.len() - 1;
        if exists|i: int| 0 <= i < d.len() && dk[i] && #[trigger] d[i] == x {
            let i = choose|i: int| 0 <= i < d.len() && dk[i] && #[trigger] d[i] == x;
            assert(keep[i] && entries[i] == x);
        }
        if exists|i: int| 0 <= i < entries.len() && keep[i] && #[trigger] entries[i] == x {
            let i = choose|i: int| 0 <= i < entries.len() && keep[i] && #[trigger] entries[i] == x;
            if i < n {
                assert(dk[i] && d[i] == x);
            }
        }
        if keep.last() {
            let z = y.push(entries.last());
            assert(z.drop_last() =~= y);
            if z.contains(x) {
                let j = choose|j: int| 0 <= j < z.len() && z[j] == x;
                if j < y.len() {
                    assert(y[j] == x);
                } else {
                    assert(entries[n] == x && keep[n]);
                }
            }
            if y.contains(x) {
                let j = choose|j: int| 0 <= j < y.len() && y[j] == x;
                assert(z[j] == x);
            }
            if entries[n] == x {
                assert(z[y.len() as int] == x);
            }
        }
    }
}

} // verus!
