//! Character-level string operations with mathematical specifications.
//!
//! Strings are handled as `Vec<char>` internally; the specifications speak of
//! `Seq<char>`, the view of both `String` and `Vec<char>`.

use vstd::prelude::*;
use vstd::utf8::encode_scalar;
use vstd::utf8::encode_utf8;

verus! {

/// The view of an optional index as an optional mathematical integer.
pub open spec fn opt_int(r: Option<usize>) -> Option<int> {
    match r {
        Some(i) => Some(i as int),
        None => None,
    }
}

/// `char::is_whitespace`: the characters with the Unicode `White_Space` property.
pub open spec fn is_ws(c: char) -> bool {
    ||| ('\u{9}' <= c && c <= '\u{d}')
    ||| c == ' '
    ||| c == '\u{85}'
    ||| c == '\u{a0}'
    ||| c == '\u{1680}'
    ||| ('\u{2000}' <= c && c <= '\u{200a}')
    ||| c == '\u{2028}'
    ||| c == '\u{2029}'
    ||| c == '\u{202f}'
    ||| c == '\u{205f}'
    ||| c == '\u{3000}'
}

/// The sequence without its leading whitespace (`str::trim_start`).
pub open spec fn trim_start(s: Seq<char>) -> Seq<char>
    decreases s.len(),
{
    if s.len() > 0 && is_ws(s[0]) {
        trim_start(s.drop_first())
    } else {
        s
    }
}

/// The sequence without its trailing whitespace (`str::trim_end`).
pub open spec fn trim_end(s: Seq<char>) -> Seq<char>
    decreases s.len(),
{
    if s.len() > 0 && is_ws(s.last()) {
        trim_end(s.drop_last())
    } else {
        s
    }
}

/// `str::trim`: the sequence without leading and trailing whitespace.
pub open spec fn trim(s: Seq<char>) -> Seq<char> {
    trim_end(trim_start(s))
}

/// Whether `pat` occurs in `s` starting at index `i`.
pub open spec fn matches_at(s: Seq<char>, pat: Seq<char>, i: int) -> bool {
    0 <= i && i + pat.len() <= s.len() && s.subrange(i, i + pat.len()) == pat
}

/// The first index at or after `i` where `pat` occurs in `s`.
pub open spec fn find_from(s: Seq<char>, pat: Seq<char>, i: int) -> Option<int>
    decreases s.len() + 1 - i,
{
    if i < 0 || i + pat.len() > s.len() {
        None
    } else if matches_at(s, pat, i) {
        Some(i)
    } else {
        find_from(s, pat, i + 1)
    }
}

/// `str::find` with a string pattern: the first index where `pat` occurs.
pub open spec fn find(s: Seq<char>, pat: Seq<char>) -> Option<int> {
    find_from(s, pat, 0)
}

/// `str::contains` with a string pattern.
pub open spec fn contains(s: Seq<char>, pat: Seq<char>) -> bool {
    find(s, pat) is Some
}

/// `str::starts_with` with a string pattern.
pub open spec fn starts_with(s: Seq<char>, pat: Seq<char>) -> bool {
    matches_at(s, pat, 0)
}

/// The first index at or after `i` holding one of the characters of `set`.
pub open spec fn find_any_from(s: Seq<char>, set: Seq<char>, i: int) -> Option<int>
    decreases s.len() - i,
{
    if i < 0 || i >= s.len() {
        None
    } else if set.contains(s[i]) {
        Some(i)
    } else {
        find_any_from(s, set, i + 1)
    }
}

/// The last index before `i` holding the character `c`.
pub open spec fn rfind_before(s: Seq<char>, c: char, i: int) -> Option<int>
    decreases i,
{
    if i <= 0 || i > s.len() {
        None
    } else if s[i - 1] == c {
        Some(i - 1)
    } else {
        rfind_before(s, c, i - 1)
    }
}

/// `str::rfind` with a character pattern.
pub open spec fn rfind_char(s: Seq<char>, c: char) -> Option<int> {
    rfind_before(s, c, s.len() as int)
}

pub proof fn lemma_find_from_bounds(s: Seq<char>, pat: Seq<char>, i: int)
    ensures
        find_from(s, pat, i) matches Some(k) ==> i <= k && matches_at(s, pat, k),
    decreases s.len() + 1 - i,
{
    if i < 0 || i + pat.len() > s.len() {
    } else if matches_at(s, pat, i) {
    } else {
        lemma_find_from_bounds(s, pat, i + 1);
    }
}

pub proof fn lemma_find_any_from_bounds(s: Seq<char>, set: Seq<char>, i: int)
    ensures
        find_any_from(s, set, i) matches Some(k) ==> i <= k < s.len() && set.contains(s[k]),
        find_any_from(s, set, i) matches Some(k) ==> forall|j: int|
            i <= j < k ==> !set.contains(#[trigger] s[j]),
        (find_any_from(s, set, i) is None && 0 <= i) ==> forall|j: int|
            i <= j < s.len() ==> !set.contains(#[trigger] s[j]),
    decreases s.len() - i,
{
    if i < 0 || i >= s.len() {
    } else if set.contains(s[i]) {
    } else {
        lemma_find_any_from_bounds(s, set, i + 1);
    }
}

pub proof fn lemma_rfind_before_bounds(s: Seq<char>, c: char, i: int)
    ensures
        rfind_before(s, c, i) matches Some(k) ==> 0 <= k < i && s[k] == c,
    decreases i,
{
    if i <= 0 || i > s.len() {
    } else if s[i - 1] == c {
    } else {
        lemma_rfind_before_bounds(s, c, i - 1);
    }
}

/// Whether `c` is one of the whitespace characters of `char::is_whitespace`.
pub fn is_whitespace(c: char) -> (r: bool)
    ensures
        r == is_ws(c),
{
    ('\u{9}' <= c && c <= '\u{d}') || c == ' ' || c == '\u{85}' || c == '\u{a0}' || c == '\u{1680}'
        || ('\u{2000}' <= c && c <= '\u{200a}') || c == '\u{2028}' || c == '\u{2029}' || c
        == '\u{202f}' || c == '\u{205f}' || c == '\u{3000}'
}

/// A copy of `s[lo..hi]`.
pub fn subvec(s: &Vec<char>, lo: usize, hi: usize) -> (r: Vec<char>)
    requires
        lo <= hi <= s.len(),
    ensures
        r@ == s@.subrange(lo as int, hi as int),
{
    let mut r: Vec<char> = Vec::new();
    let mut i: usize = lo;
    while i < hi
        invariant
            lo <= i <= hi <= s.len(),
            r@ == s@.subrange(lo as int, i as int),
        decreases hi - i,
    {
        r.push(s[i]);
        i = i + 1;
        assert(r@ =~= s@.subrange(lo as int, i as int));
    }
    r
}

proof fn lemma_trim_start_skip(s: Seq<char>, i: int)
    requires
        0 <= i < s.len(),
        is_ws(s[i]),
    ensures
        trim_start(s.skip(i)) == trim_start(s.skip(i + 1)),
{
    assert(s.skip(i).drop_first() =~= s.skip(i + 1));
}

proof fn lemma_trim_end_take(s: Seq<char>, i: int)
    requires
        0 < i <= s.len(),
        is_ws(s[i - 1]),
    ensures
        trim_end(s.take(i)) == trim_end(s.take(i - 1)),
{
    assert(s.take(i).drop_last() =~= s.take(i - 1));
}

/// `str::trim` on a character vector.
pub fn trim_chars(s: &Vec<char>) -> (r: Vec<char>)
    ensures
        r@ == trim(s@),
{
    let n = s.len();
    let mut lo: usize = 0;
    assert(s@.skip(0) =~= s@);
    while lo < n && is_whitespace(s[lo])
        invariant
            lo <= n == s@.len(),
            trim_start(s@) == trim_start(s@.skip(lo as int)),
        decreases n - lo,
    {
        proof {
            lemma_trim_start_skip(s@, lo as int);
        }
        lo = lo + 1;
    }
    let ghost t = s@.skip(lo as int);
    assert(trim_start(t) == t);
    let mut hi: usize = n;
    assert(t.take(t.len() as int) =~= t);
    while hi > lo && is_whitespace(s[hi - 1])
        invariant
            lo <= hi <= n == s@.len(),
            t == s@.skip(lo as int),
            trim_end(t) == trim_end(t.take(hi - lo)),
        decreases hi,
    {
        proof {
            assert(t[hi - lo - 1] == s@[hi - 1]);
            lemma_trim_end_take(t, hi - lo);
        }
        hi = hi - 1;
    }
    assert(trim_end(t.take(hi - lo)) == t.take(hi - lo));
    assert(t.take(hi - lo) =~= s@.subrange(lo as int, hi as int));
    subvec(s, lo, hi)
}


/// Whether `pat` occurs in `s` at index `i` (a test of `matches_at`).
pub fn matches_at_exec(s: &Vec<char>, pat: &Vec<char>, i: usize) -> (r: bool)
    ensures
        r == matches_at(s@, pat@, i as int),
{
    if i > s.len() || pat.len() > s.len() - i {
        return false;
    }
    let mut k: usize = 0;
    while k < pat.len()
        invariant
            i + pat.len() <= s.len(),
            k <= pat.len(),
            forall|j: int| 0 <= j < k ==> s@[i + j] == pat@[j],
        decreases pat.len() - k,
    {
        if s[i + k] != pat[k] {
            assert(s@.subrange(i as int, i + pat.len())[k as int] != pat@[k as int]);
            return false;
        }
        k = k + 1;
    }
    assert(s@.subrange(i as int, i + pat.len()) =~= pat@);
    true
}

/// `str::find` with a string pattern, starting the search at index `from`.
pub fn find_exec(s: &Vec<char>, pat: &Vec<char>, from: usize) -> (r: Option<usize>)
    ensures
        opt_int(r) == find_from(s@, pat@, from as int),
{
    if pat.len() == 0 {
        if from <= s.len() {
            assert(s@.subrange(from as int, from as int) =~= pat@);
            return Some(from);
        }
        return None;
    }
    let mut i: usize = from;
    while i <= s.len() && pat.len() <= s.len() - i
        invariant
            from <= i,
            pat.len() > 0,
            find_from(s@, pat@, from as int) == find_from(s@, pat@, i as int),
        decreases s.len() + 1 - i,
    {
        if matches_at_exec(s, pat, i) {
            return Some(i);
        }
        i = i + 1;
    }
    None
}

/// `str::contains` with a string pattern.
pub fn contains_exec(s: &Vec<char>, pat: &Vec<char>) -> (r: bool)
    ensures
        r == contains(s@, pat@),
{
    find_exec(s, pat, 0).is_some()
}

/// `str::starts_with` with a string pattern.
pub fn starts_with_exec(s: &Vec<char>, pat: &Vec<char>) -> (r: bool)
    ensures
        r == starts_with(s@, pat@),
{
    matches_at_exec(s, pat, 0)
}

/// Whether two character vectors are equal.
pub fn chars_eq(a: &Vec<char>, b: &Vec<char>) -> (r: bool)
    ensures
        r == (a@ == b@),
{
    if a.len() != b.len() {
        return false;
    }
    let r = matches_at_exec(a, b, 0);
    assert(r ==> a@.subrange(0, b@.len() as int) =~= a@);
    assert(a@ == b@ ==> a@.subrange(0, b@.len() as int) =~= a@);
    r
}

/// Whether `c` is one of the characters of `set`.
pub fn contains_char(set: &Vec<char>, c: char) -> (r: bool)
    ensures
        r == set@.contains(c),
{
    let mut i: usize = 0;
    while i < set.len()
        invariant
            i <= set.len(),
            forall|j: int| 0 <= j < i ==> set@[j] != c,
        decreases set.len() - i,
    {
        if set[i] == c {
            assert(set@[i as int] == c);
            return true;
        }
        i = i + 1;
    }
    false
}

/// `str::find` with a set of characters as the pattern, from index `from`.
pub fn find_any_exec(s: &Vec<char>, set: &Vec<char>, from: usize) -> (r: Option<usize>)
    ensures
        opt_int(r) == find_any_from(s@, set@, from as int),
{
    let mut i: usize = from;
    while i < s.len()
        invariant
            from <= i,
            find_any_from(s@, set@, from as int) == find_any_from(s@, set@, i as int),
        decreases s.len() - i,
    {
        if contains_char(set, s[i]) {
            return Some(i);
        }
        i = i + 1;
    }
    None
}

/// `str::find` with a single character as the pattern, from index `from`.
pub fn find_char_exec(s: &Vec<char>, c: char, from: usize) -> (r: Option<usize>)
    ensures
        opt_int(r) == find_any_from(s@, seq![c], from as int),
{
    let mut i: usize = from;
    while i < s.len()
        invariant
            from <= i,
            find_any_from(s@, seq![c], from as int) == find_any_from(s@, seq![c], i as int),
        decreases s.len() - i,
    {
        if s[i] == c {
            assert(seq![c].contains(s@[i as int])) by {
                assert(seq![c][0] == c);
            }
            return Some(i);
        }
        assert(!seq![c].contains(s@[i as int]));
        i = i + 1;
    }
    None
}

/// `str::rfind` with a single character as the pattern.
pub fn rfind_char_exec(s: &Vec<char>, c: char) -> (r: Option<usize>)
    ensures
        opt_int(r) == rfind_char(s@, c),
{
    let mut i: usize = s.len();
    while i > 0
        invariant
            i <= s.len(),
            rfind_char(s@, c) == rfind_before(s@, c, i as int),
        decreases i,
    {
        if s[i - 1] == c {
            return Some(i - 1);
        }
        i = i - 1;
    }
    None
}

/// The concatenation of two character vectors.
pub fn concat_chars(a: &Vec<char>, b: &Vec<char>) -> (r: Vec<char>)
    ensures
        r@ == a@ + b@,
{
    let mut r = subvec(a, 0, a.len());
    let mut i: usize = 0;
    assert(a@.subrange(0, a@.len() as int) =~= a@);
    while i < b.len()
        invariant
            i <= b.len(),
            r@ == a@ + b@.take(i as int),
        decreases b.len() - i,
    {
        r.push(b[i]);
        i = i + 1;
        assert(r@ =~= a@ + b@.take(i as int));
    }
    assert(b@.take(b@.len() as int) =~= b@);
    r
}

/// The occurrences of `pat` from index `i` on, removed left to right without
/// overlap (`str::replace` with an empty replacement).
pub open spec fn remove_from(s: Seq<char>, pat: Seq<char>, i: int) -> Seq<char>
    decreases s.len() + 1 - i,
{
    if pat.len() == 0 || i < 0 || i > s.len() {
        s.subrange(i, s.len() as int)
    } else {
        match find_from(s, pat, i) {
            None => s.subrange(i, s.len() as int),
            Some(k) => {
                proof {
                    lemma_find_from_bounds(s, pat, i);
                }
                s.subrange(i, k) + remove_from(s, pat, k + pat.len())
            },
        }
    }
}

/// `s.replace(pat, "")` for a non-empty pattern.
pub open spec fn remove_all(s: Seq<char>, pat: Seq<char>) -> Seq<char> {
    remove_from(s, pat, 0)
}

/// `s.replace(pat, "")`: every occurrence of a non-empty `pat` removed, scanning left to right.
pub fn remove_all_exec(s: &Vec<char>, pat: &Vec<char>) -> (r: Vec<char>)
    requires
        pat.len() > 0,
    ensures
        r@ == remove_all(s@, pat@),
{
    let mut out: Vec<char> = Vec::new();
    let mut i: usize = 0;
    loop
        invariant
            i <= s.len(),
            pat.len() > 0,
            remove_all(s@, pat@) == out@ + remove_from(s@, pat@, i as int),
        decreases s.len() - i,
    {
        match find_exec(s, pat, i) {
            None => {
                let rest = subvec(s, i, s.len());
                let mut rest_mut = rest;
                out.append(&mut rest_mut);
                return out;
            },
            Some(k) => {
                proof {
                    lemma_find_from_bounds(s@, pat@, i as int);
                }
                let part = subvec(s, i, k);
                let mut part_mut = part;
                let ghost old_out = out@;
                out.append(&mut part_mut);
                assert(out@ == old_out + s@.subrange(i as int, k as int));
                assert(remove_from(s@, pat@, i as int) == s@.subrange(i as int, k as int)
                    + remove_from(s@, pat@, k + pat.len()));
                assert(remove_all(s@, pat@) == out@ + remove_from(s@, pat@, k + pat.len()));
                i = k + pat.len();
            },
        }
    }
}


/// The length in bytes of the UTF-8 encoding of `s` (`str::len`).
pub open spec fn utf8_len(s: Seq<char>) -> int {
    encode_utf8(s).len() as int
}

/// The length in bytes of the UTF-8 encoding of one character.
pub open spec fn utf8_width(c: char) -> int {
    encode_scalar(c as u32).len() as int
}

/// ASCII text takes one byte per character.
pub proof fn lemma_ascii_utf8_len(s: Seq<char>)
    requires
        all_ascii(s),
    ensures
        utf8_len(s) == s.len(),
    decreases s.len(),
{
    if s.len() > 0 {
        let d = s.drop_last();
        assert(is_ascii_char(s[s.len() - 1]));
        assert forall|i: int| 0 <= i < d.len() implies #[trigger] is_ascii_char(d[i]) by {
            assert(d[i] == s[i]);
        }
        lemma_ascii_utf8_len(d);
        lemma_utf8_len_push(d, s.last());
        assert(d.push(s.last()) =~= s);
    } else {
        assert(encode_utf8(s) =~= Seq::<u8>::empty());
    }
}

/// The char index of `s` at which the byte offset `b` falls, when `b` is on a
/// character boundary (`str::is_char_boundary`).
pub open spec fn char_index_at_byte(s: Seq<char>, b: int) -> Option<int> {
    if exists|j: int| 0 <= j <= s.len() && #[trigger] utf8_len(s.take(j)) == b {
        Some(choose|j: int| 0 <= j <= s.len() && #[trigger] utf8_len(s.take(j)) == b)
    } else {
        None
    }
}

pub proof fn lemma_utf8_len_push(s: Seq<char>, c: char)
    ensures
        utf8_len(s.push(c)) == utf8_len(s) + utf8_width(c),
    decreases s.len(),
{
    if s.len() == 0 {
        assert(s.push(c).drop_first() =~= s);
    } else {
        assert(s.push(c).drop_first() =~= s.drop_first().push(c));
        lemma_utf8_len_push(s.drop_first(), c);
    }
}

pub proof fn lemma_utf8_width_bounds(c: char)
    ensures
        1 <= utf8_width(c) <= 4,
{
}

pub proof fn lemma_utf8_len_take_step(s: Seq<char>, j: int)
    requires
        0 <= j < s.len(),
    ensures
        utf8_len(s.take(j + 1)) == utf8_len(s.take(j)) + utf8_width(s[j]),
        utf8_len(s.take(j)) < utf8_len(s.take(j + 1)),
{
    assert(s.take(j + 1) =~= s.take(j).push(s[j]));
    lemma_utf8_len_push(s.take(j), s[j]);
    lemma_utf8_width_bounds(s[j]);
}

/// The byte offsets of the char boundaries grow strictly with the char index.
pub proof fn lemma_utf8_len_take_strict(s: Seq<char>, i: int, j: int)
    requires
        0 <= i < j <= s.len(),
    ensures
        utf8_len(s.take(i)) < utf8_len(s.take(j)),
    decreases j - i,
{
    lemma_utf8_len_take_step(s, j - 1);
    if i < j - 1 {
        lemma_utf8_len_take_strict(s, i, j - 1);
    }
}

/// The number of bytes of the UTF-8 encoding of `c` (`char::len_utf8`).
pub fn char_width(c: char) -> (w: u8)
    ensures
        w == utf8_width(c),
{
    let u = c as u32;
    if u < 0x80 {
        1
    } else if u < 0x800 {
        2
    } else if u < 0x10000 {
        3
    } else {
        4
    }
}

/// The UTF-8 length in bytes of the first `n` characters of `s`.
pub fn utf8_len_exec(s: &Vec<char>, n: usize) -> (r: u128)
    requires
        n <= s.len(),
    ensures
        r == utf8_len(s@.take(n as int)),
        r <= 4 * n,
{
    let mut r: u128 = 0;
    let mut i: usize = 0;
    assert(s@.take(0) =~= Seq::<char>::empty());
    while i < n
        invariant
            i <= n <= s.len(),
            r == utf8_len(s@.take(i as int)),
            r <= 4 * i,
        decreases n - i,
    {
        proof {
            lemma_utf8_len_take_step(s@, i as int);
        }
        let w = char_width(s[i]);
        r = r + w as u128;
        i = i + 1;
    }
    r
}

/// The char index of `s` at byte offset `b`, if `b` lies on a char boundary.
pub fn char_index_at_byte_exec(s: &Vec<char>, b: u128) -> (r: Option<usize>)
    ensures
        opt_int(r) == char_index_at_byte(s@, b as int),
{
    let mut acc: u128 = 0;
    let mut j: usize = 0;
    assert(s@.take(0) =~= Seq::<char>::empty());
    while j < s.len() && acc < b
        invariant
            j <= s.len(),
            acc == utf8_len(s@.take(j as int)),
            acc <= 4 * j,
            forall|i: int| 0 <= i < j ==> #[trigger] utf8_len(s@.take(i)) < b,
        decreases s.len() - j,
    {
        proof {
            lemma_utf8_len_take_step(s@, j as int);
        }
        let w = char_width(s[j]);
        acc = acc + w as u128;
        j = j + 1;
    }
    if acc == b {
        proof {
            assert(utf8_len(s@.take(j as int)) == b);
            assert forall|i: int| 0 <= i <= s.len() && #[trigger] utf8_len(s@.take(i)) == b implies i
                == j by {
                if i < j {
                } else if i > j {
                    lemma_utf8_len_take_strict(s@, j as int, i);
                }
            }
        }
        Some(j)
    } else {
        proof {
            assert forall|i: int| 0 <= i <= s.len() implies #[trigger] utf8_len(s@.take(i)) != b by {
                if i < j {
                } else if i > j {
                    lemma_utf8_len_take_strict(s@, j as int, i);
                }
            }
        }
        None
    }
}


/// The end of the run of characters of `set` that starts at index `i`.
pub open spec fn span_from(s: Seq<char>, set: Seq<char>, i: int) -> int
    decreases s.len() - i,
{
    if i < 0 || i >= s.len() || !set.contains(s[i]) {
        i
    } else {
        span_from(s, set, i + 1)
    }
}

/// Whether `s` starts with the character `c` (`str::starts_with` with a `char`).
pub open spec fn starts_with_char(s: Seq<char>, c: char) -> bool {
    s.len() > 0 && s[0] == c
}

/// The end of the run of characters of `set` that starts at index `from`.
pub fn span_exec(s: &Vec<char>, set: &Vec<char>, from: usize) -> (r: usize)
    requires
        from <= s.len(),
    ensures
        r == span_from(s@, set@, from as int),
        from <= r <= s.len(),
{
    let mut i: usize = from;
    while i < s.len() && contains_char(set, s[i])
        invariant
            from <= i <= s.len(),
            span_from(s@, set@, from as int) == span_from(s@, set@, i as int),
        decreases s.len() - i,
    {
        i = i + 1;
    }
    i
}

/// A copy of a character vector.
pub fn clone_chars(s: &Vec<char>) -> (r: Vec<char>)
    ensures
        r@ == s@,
{
    assert(s@.subrange(0, s@.len() as int) =~= s@);
    subvec(s, 0, s.len())
}

/// What `str::to_lowercase` returns for a string, by its characters.
pub uninterp spec fn str_lowercase(s: Seq<char>) -> Seq<char>;

/// Whether a character is ASCII.
pub open spec fn is_ascii_char(c: char) -> bool {
    (c as u32) < 128
}

/// Whether every character of `s` is ASCII.
pub open spec fn all_ascii(s: Seq<char>) -> bool {
    forall|i: int| 0 <= i < s.len() ==> #[trigger] is_ascii_char(s[i])
}

/// `char::to_ascii_lowercase`: `A`..=`Z` to `a`..=`z`, every other character
/// unchanged.
pub open spec fn ascii_lower_char(c: char) -> char {
    if 65 <= (c as u32) && (c as u32) <= 90 {
        ((c as u32) + 32) as char
    } else {
        c
    }
}

/// `str::to_ascii_lowercase`, by characters.
pub open spec fn ascii_lowercase(s: Seq<char>) -> Seq<char> {
    Seq::new(s.len(), |i: int| ascii_lower_char(s[i]))
}

/// `str::to_lowercase`: the lowercase equivalent of the string, by the Unicode
/// `Lowercase` property. The contract names the result as a function of the
/// argument, and states that on ASCII text it is `to_ascii_lowercase` (the
/// Unicode mapping takes `A`..=`Z` to `a`..=`z` and keeps every other ASCII
/// character); the mapping of other characters is not stated.
#[verifier::external_body]
pub fn to_lowercase(s: &str) -> (r: String)
    ensures
        r@ == str_lowercase(s@),
        all_ascii(s@) ==> r@ == ascii_lowercase(s@),
{
    s.to_lowercase()
}

/// Copies a `str` into a vector of its characters (`s.chars().collect()`).
pub fn chars_of(s: &str) -> (r: Vec<char>)
    ensures
        r@ == s@,
{
    broadcast use vstd::string::axiom_spec_iter;
    let mut r: Vec<char> = Vec::new();
    for c in it: s.chars()
        invariant
            it.seq() == s@,
            r@.len() == it.index(),
            forall|i: int| 0 <= i < r@.len() ==> r@[i] == it.seq()[i],
    {
        r.push(c);
    }
    assert(r@ =~= s@);
    r
}

/// Builds a `String` from characters (`v.iter().collect()`).
#[verifier::external_body]
pub fn string_of(v: &Vec<char>) -> (r: String)
    ensures
        r@ == v@,
{
    v.iter().collect()
}

} // verus!
