//! The instances of PCL and PCL Community Edition: their `LaunchFolders`
//! setting lists `name>path` entries separated by `|`.

use vstd::prelude::*;
use crate::order::{
    entries_view, first_path, kept, lemma_kept_prefix, lemma_listing_members, lemma_sort_stable,
    lemma_with_name_prefix,
    select_entries, sort_by_name, string_entries_view, to_string_entries, with_name,
};
use crate::paths::{dir_answer, dir_exists};
use crate::text::{
    chars_of, find_any_from, find_char_exec, lemma_find_any_from_bounds, subvec, trim,
    trim_chars, chars_eq,
};

verus! {

/// The entry of one `|`-separated part: its trimmed `name>path`, with name
/// and path trimmed; none for an empty part or one without `>`.
pub open spec fn entry_of(seg: Seq<char>) -> Seq<(Seq<char>, Seq<char>)> {
    let t = trim(seg);
    if t.len() == 0 {
        Seq::empty()
    } else {
        match find_any_from(t, seq!['>'], 0) {
            None => Seq::empty(),
            Some(k) => seq![(trim(t.take(k)), trim(t.skip(k + 1)))],
        }
    }
}

/// The entries of the parts of `raw` from index `i` on (`raw[i..].split('|')`).
pub open spec fn entries_from(raw: Seq<char>, i: int) -> Seq<(Seq<char>, Seq<char>)>
    decreases raw.len() + 1 - i,
{
    if i < 0 || i > raw.len() {
        Seq::empty()
    } else {
        match find_any_from(raw, seq!['|'], i) {
            None => entry_of(raw.subrange(i, raw.len() as int)),
            Some(j) => {
                proof {
                    lemma_find_any_from_bounds(raw, seq!['|'], i);
                }
                entry_of(raw.subrange(i, j)) + entries_from(raw, j + 1)
            },
        }
    }
}

/// The name/path entries of a `LaunchFolders` value, in order.
pub open spec fn launch_entries(raw: Seq<char>) -> Seq<(Seq<char>, Seq<char>)> {
    entries_from(raw, 0)
}

/// The path of the first entry named `name` whose directory exists (by
/// `keep`), in the order of the entries.
pub open spec fn spec_find_instance_path(
    entries: Seq<(Seq<char>, Seq<char>)>,
    keep: Seq<bool>,
    name: Seq<char>,
) -> Option<Seq<char>> {
    first_path(with_name(kept(entries, keep), name))
}

/// The text of an optional string.
pub open spec fn opt_view(r: Option<String>) -> Option<Seq<char>> {
    match r {
        Some(v) => Some(v@),
        None => None,
    }
}

/// The text of an optional setting, empty where it is missing (`unwrap_or_default`).
pub open spec fn raw_or_empty(s: Option<String>) -> Seq<char> {
    match s {
        Some(v) => v@,
        None => Seq::empty(),
    }
}

/// The entry of one part (see [`entry_of`]).
fn entry_of_exec(seg: &Vec<char>) -> (r: Vec<(Vec<char>, Vec<char>)>)
    ensures
        entries_view(r@) == entry_of(seg@),
{
    let mut r: Vec<(Vec<char>, Vec<char>)> = Vec::new();
    let t = trim_chars(seg);
    if t.len() == 0 {
        assert(entries_view(r@) =~= entry_of(seg@));
        return r;
    }
    match find_char_exec(&t, '>', 0) {
        None => {
            assert(entries_view(r@) =~= entry_of(seg@));
            r
        },
        Some(k) => {
            proof {
                lemma_find_any_from_bounds(t@, seq!['>'], 0);
            }
            let name_part = subvec(&t, 0, k);
            let path_part = subvec(&t, k + 1, t.len());
            assert(name_part@ =~= t@.take(k as int));
            assert(path_part@ =~= t@.skip(k + 1));
            let name = trim_chars(&name_part);
            let path = trim_chars(&path_part);
            r.push((name, path));
            assert(entries_view(r@) =~= entry_of(seg@));
            r
        },
    }
}

/// The entries of a `LaunchFolders` value as character vectors.
fn launch_entries_chars(raw: &Vec<char>) -> (r: Vec<(Vec<char>, Vec<char>)>)
    ensures
        entries_view(r@) == launch_entries(raw@),
{
    let mut out: Vec<(Vec<char>, Vec<char>)> = Vec::new();
    let mut i: usize = 0;
    assert(entries_view(out@) =~= Seq::<(Seq<char>, Seq<char>)>::empty());
    assert(launch_entries(raw@) =~= entries_view(out@) + entries_from(raw@, 0));
    loop
        invariant
            i <= raw.len(),
            launch_entries(raw@) == entries_view(out@) + entries_from(raw@, i as int),
        decreases raw.len() - i,
    {
        let ghost before = entries_view(out@);
        match find_char_exec(raw, '|', i) {
            None => {
                let seg = subvec(raw, i, raw.len());
                let mut e = entry_of_exec(&seg);
                out.append(&mut e);
                assert(entries_view(out@) =~= before + entry_of(seg@));
                assert(entries_view(out@) =~= launch_entries(raw@));
                return out;
            },
            Some(j) => {
                proof {
                    lemma_find_any_from_bounds(raw@, seq!['|'], i as int);
                }
                let seg = subvec(raw, i, j);
                let mut e = entry_of_exec(&seg);
                out.append(&mut e);
                assert(entries_view(out@) =~= before + entry_of(seg@));
                assert(launch_entries(raw@) =~= entries_view(out@) + entries_from(raw@, j + 1));
                i = j + 1;
            },
        }
    }
}

/// The `name>path` entries of a `LaunchFolders` value, in order, with names
/// and paths trimmed.
pub fn launch_folder_entries(raw: &str) -> (r: Vec<(String, String)>)
    ensures
        string_entries_view(r@) == launch_entries(raw@),
{
    let e = launch_entries_chars(&chars_of(raw));
    to_string_entries(&e)
}

/// `keep` holds, for each entry, an answer that [`dir_exists`] gave for the
/// entry's path.
pub open spec fn dir_answers(entries: Seq<(Seq<char>, Seq<char>)>, keep: Seq<bool>) -> bool {
    &&& keep.len() == entries.len()
    &&& forall|i: int| 0 <= i < entries.len() ==> #[trigger] dir_answer(entries[i].1, keep[i])
}

/// `r` is the listing of the entries: those whose directory answer is `true`,
/// sorted by name, for answers that [`dir_exists`] gave for their paths.
pub open spec fn listed_by_answers(
    entries: Seq<(Seq<char>, Seq<char>)>,
    r: Seq<(Seq<char>, Seq<char>)>,
) -> bool {
    exists|keep: Seq<bool>| dir_answers(entries, keep) && r == sort_by_name(kept(entries, keep))
}

/// `parse_pcl_folders`: the entries of a `LaunchFolders` value whose path is a
/// directory, sorted by name. Each entry's path is checked with
/// [`dir_exists`], and an entry is listed exactly when the answer is `true`.
pub fn parse_pcl_folders(raw: &str) -> (r: Vec<(String, String)>)
    ensures
        listed_by_answers(launch_entries(raw@), string_entries_view(r@)),
{
    let entries = launch_folder_entries(raw);
    let ghost e = string_entries_view(entries@);
    let mut exists: Vec<bool> = Vec::new();
    let mut i: usize = 0;
    while i < entries.len()
        invariant
            i <= entries.len(),
            exists.len() == i,
            e == string_entries_view(entries@),
            forall|j: int| 0 <= j < i ==> #[trigger] dir_answer(e[j].1, exists@[j]),
        decreases entries.len() - i,
    {
        let path = entries[i].1.as_str();
        let b = dir_exists(path);
        proof {
            assert(call_ensures(dir_exists, (path,), b));
            assert(path@ == e[i as int].1);
            assert(dir_answer(e[i as int].1, b));
        }
        let ghost before = exists@;
        exists.push(b);
        proof {
            assert forall|j: int| 0 <= j < i + 1 implies #[trigger] dir_answer(
                e[j].1,
                exists@[j],
            ) by {
                if j < i {
                    assert(exists@[j] == before[j]);
                }
            }
        }
        i = i + 1;
    }
    let r = select_entries(&entries, &exists);
    assert(dir_answers(e, exists@));
    assert(string_entries_view(r@) == sort_by_name(kept(launch_entries(raw@), exists@)));
    r
}

/// `read_pcl_registry` on systems other than Windows, where PCL keeps no
/// registry: there is no `LaunchFolders` value. (On Windows the value is read
/// from the registry outside the library and handed to
/// [`get_pcl_instances`] and [`get_pcl_instance_path`].)
pub fn read_pcl_registry() -> (r: Option<String>)
    ensures
        r is None,
{
    None
}

/// `config_exists` (PCL CE): whether the PCL CE configuration gave a
/// `LaunchFolders` value (`read_pclce_config().is_some()`).
pub fn config_exists(launch_folders: &Option<String>) -> (r: bool)
    ensures
        r == launch_folders is Some,
{
    launch_folders.is_some()
}

/// `get_pcl_instances`: the PCL instances, from the `LaunchFolders` value of
/// PCL's registry key (empty where there is none; see [`read_pcl_registry`]).
pub fn get_pcl_instances(launch_folders: &Option<String>) -> (r: Vec<(String, String)>)
    ensures
        listed_by_answers(launch_entries(raw_or_empty(*launch_folders)), string_entries_view(r@)),
{
    list_launch_folders(launch_folders)
}

/// `get_pclce_instances`: the PCL CE instances, from the `LaunchFolders`
/// value of its configuration (empty where there is none).
pub fn get_pclce_instances(launch_folders: &Option<String>) -> (r: Vec<(String, String)>)
    ensures
        listed_by_answers(launch_entries(raw_or_empty(*launch_folders)), string_entries_view(r@)),
{
    list_launch_folders(launch_folders)
}

/// The instances of an optional `LaunchFolders` value
/// (`parse_pcl_folders(&raw.unwrap_or_default())`).
fn list_launch_folders(launch_folders: &Option<String>) -> (r: Vec<(String, String)>)
    ensures
        listed_by_answers(launch_entries(raw_or_empty(*launch_folders)), string_entries_view(r@)),
{
    let r = match launch_folders {
        Some(raw) => parse_pcl_folders(raw.as_str()),
        None => {
            let empty = String::new();
            assert(empty@ =~= raw_or_empty(*launch_folders));
            parse_pcl_folders(empty.as_str())
        },
    };
    r
}

/// The path of the first entry that is named `name` and whose directory
/// exists by `is_dir` (one answer per entry), in the order of the entries
/// (see [`spec_find_instance_path`]).
pub fn pick_instance_path(entries: &Vec<(String, String)>, is_dir: &Vec<bool>, name: &str) -> (r:
    Option<String>)
    requires
        entries.len() == is_dir.len(),
    ensures
        match r {
            Some(p) => spec_find_instance_path(string_entries_view(entries@), is_dir@, name@)
                == Some(p@),
            None => spec_find_instance_path(string_entries_view(entries@), is_dir@, name@) is None,
        },
{
    let key = chars_of(name);
    let ghost s = string_entries_view(entries@);
    let ghost keep = is_dir@;
    let mut i: usize = 0;
    assert(kept(s.take(0), keep.take(0)) =~= Seq::<(Seq<char>, Seq<char>)>::empty());
    while i < entries.len()
        invariant
            i <= entries.len(),
            entries.len() == is_dir.len(),
            s == string_entries_view(entries@),
            keep == is_dir@,
            key@ == name@,
            with_name(kept(s.take(i as int), keep.take(i as int)), key@) == Seq::<
                (Seq<char>, Seq<char>),
            >::empty(),
        decreases entries.len() - i,
    {
        let e = &entries[i];
        let ghost kp = kept(s.take(i + 1), keep.take(i + 1));
        let ghost k0 = kept(s.take(i as int), keep.take(i as int));
        proof {
            assert(s.take(i + 1).drop_last() =~= s.take(i as int));
            assert(keep.take(i + 1).drop_last() =~= keep.take(i as int));
            assert(s.take(i + 1).last() == s[i as int]);
            assert(keep.take(i + 1).last() == keep[i as int]);
            assert(s[i as int] == (e.0@, e.1@));
            if keep[i as int] {
                assert(kp == k0.push(s[i as int]));
                assert(kp.drop_last() =~= k0);
            } else {
                assert(kp == k0);
            }
        }
        if is_dir[i] && chars_eq(&chars_of(e.0.as_str()), &key) {
            proof {
                assert(with_name(kp, key@) =~= seq![s[i as int]]);
                lemma_kept_prefix(s, keep, i + 1);
                let all = kept(s, keep);
                lemma_with_name_prefix(all, key@, kp.len() as int);
                let w = with_name(all, key@);
                assert(w.take(1) == seq![s[i as int]]);
                assert(w.take(1)[0] == w[0]);
            }
            return Some(e.1.clone());
        }
        i = i + 1;
    }
    proof {
        assert(s.take(entries.len() as int) =~= s);
        assert(keep.take(entries.len() as int) =~= keep);
    }
    None
}

/// No answer before index `i` is `true`.
pub open spec fn none_before(keep: Seq<bool>, i: int) -> bool {
    forall|j: int| 0 <= j < i ==> !#[trigger] keep[j]
}

/// `keep` holds the answers of a lookup of `name`: only entries of that name
/// are `true`, and every entry of that name up to the first `true` one holds
/// an answer that [`dir_exists`] gave for its path.
pub open spec fn lookup_answers(
    entries: Seq<(Seq<char>, Seq<char>)>,
    keep: Seq<bool>,
    name: Seq<char>,
) -> bool {
    &&& keep.len() == entries.len()
    &&& forall|i: int| 0 <= i < entries.len() && #[trigger] keep[i] ==> entries[i].0 == name
    &&& forall|i: int|
        0 <= i < entries.len() && entries[i].0 == name && none_before(keep, i)
            ==> #[trigger] dir_answer(entries[i].1, keep[i])
}

/// The result of a lookup of `name` by the answers `keep`.
pub open spec fn found_by_answers(
    entries: Seq<(Seq<char>, Seq<char>)>,
    name: Seq<char>,
    r: Option<Seq<char>>,
) -> bool {
    exists|keep: Seq<bool>|
        lookup_answers(entries, keep, name) && r == spec_find_instance_path(entries, keep, name)
}

/// The path of the first entry of a `LaunchFolders` value that is named
/// `instance_name` and whose path is a directory. The directory of each entry
/// of that name is checked with [`dir_exists`] in order until one exists,
/// and [`pick_instance_path`] chooses by those answers (`false` for the other
/// entries).
pub fn find_instance_path(raw: &str, instance_name: &str) -> (r: Option<String>)
    ensures
        found_by_answers(launch_entries(raw@), instance_name@, opt_view(r)),
{
    let entries = launch_folder_entries(raw);
    let ghost e = string_entries_view(entries@);
    let key = chars_of(instance_name);
    let mut answers: Vec<bool> = Vec::new();
    let mut found = false;
    let mut i: usize = 0;
    while i < entries.len()
        invariant
            i <= entries.len(),
            answers.len() == i,
            e == string_entries_view(entries@),
            key@ == instance_name@,
            found == !none_before(answers@, i as int),
            forall|j: int| 0 <= j < i && #[trigger] answers@[j] ==> e[j].0 == instance_name@,
            forall|j: int|
                0 <= j < i && e[j].0 == instance_name@ && none_before(answers@, j)
                    ==> #[trigger] dir_answer(e[j].1, answers@[j]),
        decreases entries.len() - i,
    {
        let ghost before = answers@;
        let named = chars_eq(&chars_of(entries[i].0.as_str()), &key);
        proof {
            assert(e[i as int] == (entries@[i as int].0@, entries@[i as int].1@));
        }
        let hit = if !found && named {
            let path = entries[i].1.as_str();
            let b = dir_exists(path);
            proof {
                assert(call_ensures(dir_exists, (path,), b));
                assert(dir_answer(e[i as int].1, b));
            }
            b
        } else {
            false
        };
        if hit {
            found = true;
        }
        answers.push(hit);
        proof {
            assert forall|j: int| 0 <= j <= i implies none_before(answers@, j) == none_before(
                before,
                j,
            ) by {
                if none_before(answers@, j) {
                    assert forall|k: int| 0 <= k < j implies !#[trigger] before[k] by {
                        assert(answers@[k] == before[k]);
                    }
                }
                if none_before(before, j) {
                    assert forall|k: int| 0 <= k < j implies !#[trigger] answers@[k] by {
                        assert(answers@[k] == before[k]);
                    }
                }
            }
            if !found {
                assert forall|k: int| 0 <= k < i + 1 implies !#[trigger] answers@[k] by {
                    if k < i {
                        assert(answers@[k] == before[k]);
                    }
                }
            } else {
                if hit {
                    assert(answers@[i as int]);
                } else {
                    let k = choose|k: int| 0 <= k < i && before[k];
                    assert(answers@[k]);
                }
            }
            assert forall|j: int| 0 <= j < i + 1 && #[trigger] answers@[j] implies e[j].0
                == instance_name@ by {
                if j < i {
                    assert(answers@[j] == before[j]);
                }
            }
            assert forall|j: int|
                0 <= j < i + 1 && e[j].0 == instance_name@ && none_before(answers@, j) implies
                #[trigger] dir_answer(e[j].1, answers@[j]) by {
                if j < i {
                    assert(answers@[j] == before[j]);
                }
            }
        }
        i = i + 1;
    }
    let r = pick_instance_path(&entries, &answers, instance_name);
    assert(lookup_answers(e, answers@, instance_name@));
    r
}

/// `get_pcl_instance_path`: the path of a PCL instance, from the
/// `LaunchFolders` value of PCL's registry key; none where there is none.
pub fn get_pcl_instance_path(launch_folders: &Option<String>, instance_name: &str) -> (r: Option<
    String,
>)
    ensures
        match launch_folders {
            None => r is None,
            Some(raw) => found_by_answers(launch_entries(raw@), instance_name@, opt_view(r)),
        },
{
    match launch_folders {
        Some(raw) => find_instance_path(raw.as_str(), instance_name),
        None => None,
    }
}

/// `get_pclce_instance_path`: the path of a PCL CE instance, from the
/// `LaunchFolders` value of its configuration; none where there is none.
pub fn get_pclce_instance_path(launch_folders: &Option<String>, instance_name: &str) -> (r: Option<
    String,
>)
    ensures
        match launch_folders {
            None => r is None,
            Some(raw) => found_by_answers(launch_entries(raw@), instance_name@, opt_view(r)),
        },
{
    match launch_folders {
        Some(raw) => find_instance_path(raw.as_str(), instance_name),
        None => None,
    }
}

/// The lookup of an instance's path agrees with the listing: for the same
/// directories, it is the path of the first entry of that name in the sorted
/// listing.
pub proof fn lemma_lookup_agrees_with_listing(
    entries: Seq<(Seq<char>, Seq<char>)>,
    keep: Seq<bool>,
    name: Seq<char>,
)
    ensures
        spec_find_instance_path(entries, keep, name) == first_path(
            with_name(sort_by_name(kept(entries, keep)), name),
        ),
{
    lemma_sort_stable(kept(entries, keep), name);
}

/// With no kept entry of the name, the kept entries hold none of that name.
pub proof fn lemma_with_name_none(
    entries: Seq<(Seq<char>, Seq<char>)>,
    keep: Seq<bool>,
    name: Seq<char>,
)
    requires
        keep.len() == entries.len(),
        forall|j: int| 0 <= j < entries.len() && #[trigger] keep[j] ==> entries[j].0 != name,
    ensures
        with_name(kept(entries, keep), name).len() == 0,
    decreases entries.len(),
{
    if entries.len() > 0 {
        let d = entries.drop_last();
        let dk = keep.drop_last();
        assert forall|j: int| 0 <= j < d.len() && #[trigger] dk[j] implies d[j].0 != name by {
            assert(keep[j] == dk[j]);
        }
        lemma_with_name_none(d, dk, name);
        let x = kept(d, dk);
        if keep.last() {
            assert(keep[entries.len() - 1]);
            assert(x.push(entries.last()).drop_last() =~= x);
        }
    }
}

/// The first kept entry of a name is the first entry of that name that is
/// kept.
pub proof fn lemma_with_name_first(
    entries: Seq<(Seq<char>, Seq<char>)>,
    keep: Seq<bool>,
    name: Seq<char>,
    i: int,
)
    requires
        keep.len() == entries.len(),
        0 <= i < entries.len(),
        keep[i],
        entries[i].0 == name,
        forall|j: int| 0 <= j < i && #[trigger] keep[j] ==> entries[j].0 != name,
    ensures
        with_name(kept(entries, keep), name).len() > 0,
        with_name(kept(entries, keep), name)[0] == entries[i],
    decreases entries.len(),
{
    let d = entries.drop_last();
    let dk = keep.drop_last();
    let x = kept(d, dk);
    if i == entries.len() - 1 {
        assert forall|j: int| 0 <= j < d.len() && #[trigger] dk[j] implies d[j].0 != name by {
            assert(keep[j] == dk[j]);
        }
        lemma_with_name_none(d, dk, name);
        assert(keep.last());
        assert(x.push(entries.last()).drop_last() =~= x);
    } else {
        assert forall|j: int| 0 <= j < i && #[trigger] dk[j] implies d[j].0 != name by {
            assert(keep[j] == dk[j]);
        }
        lemma_with_name_first(d, dk, name, i);
        if keep.last() {
            assert(x.push(entries.last()).drop_last() =~= x);
        }
    }
}

/// What a lookup of `name` returns, by the directory answers it got: the path
/// of an entry of that name whose directory was answered to exist, where
/// every earlier entry of that name was answered not to be a directory; none
/// only where every entry of that name was answered not to be a directory.
pub proof fn lemma_lookup_result(
    entries: Seq<(Seq<char>, Seq<char>)>,
    keep: Seq<bool>,
    name: Seq<char>,
)
    requires
        lookup_answers(entries, keep, name),
    ensures
        spec_find_instance_path(entries, keep, name) matches Some(p) ==> exists|i: int|
            0 <= i < entries.len() && entries[i].0 == name && entries[i].1 == p && dir_answer(
                entries[i].1,
                true,
            ) && forall|j: int|
                0 <= j < i && entries[j].0 == name ==> #[trigger] dir_answer(entries[j].1, false),
        spec_find_instance_path(entries, keep, name) is None ==> forall|i: int|
            0 <= i < entries.len() && entries[i].0 == name ==> #[trigger] dir_answer(
                entries[i].1,
                false,
            ),
{
    if exists|i: int| 0 <= i < entries.len() && #[trigger] keep[i] {
        let i0 = choose|i: int| 0 <= i < entries.len() && #[trigger] keep[i];
        let i = first_true(keep, i0);
        assert(entries[i].0 == name);
        assert(none_before(keep, i));
        lemma_with_name_first(entries, keep, name, i);
        assert(dir_answer(entries[i].1, keep[i]));
        assert forall|j: int| 0 <= j < i && entries[j].0 == name implies #[trigger] dir_answer(
            entries[j].1,
            false,
        ) by {
            assert(!keep[j]);
            assert(none_before(keep, j));
            assert(dir_answer(entries[j].1, keep[j]));
        }
    } else {
        lemma_with_name_none(entries, keep, name);
        assert forall|i: int| 0 <= i < entries.len() && entries[i].0 == name implies #[trigger] dir_answer(
            entries[i].1,
            false,
        ) by {
            assert(!keep[i]);
            assert(none_before(keep, i));
        }
    }
}

/// The first index at or before `i` whose answer is `true`, where `keep[i]`.
proof fn first_true(keep: Seq<bool>, i: int) -> (k: int)
    requires
        0 <= i < keep.len(),
        keep[i],
    ensures
        0 <= k <= i,
        keep[k],
        none_before(keep, k),
    decreases i,
{
    if exists|j: int| 0 <= j < i && #[trigger] keep[j] {
        let j = choose|j: int| 0 <= j < i && #[trigger] keep[j];
        first_true(keep, j)
    } else {
        i
    }
}

/// The listing of the entries, by the directory answers its call got: an
/// entry whose path was not answered "not a directory" is listed, and every
/// listed entry is an entry whose path was answered to be a directory.
pub proof fn lemma_listed_by_answers(
    entries: Seq<(Seq<char>, Seq<char>)>,
    r: Seq<(Seq<char>, Seq<char>)>,
)
    requires
        listed_by_answers(entries, r),
    ensures
        forall|i: int|
            0 <= i < entries.len() ==> r.contains(entries[i]) || #[trigger] dir_answer(
                entries[i].1,
                false,
            ),
        forall|x: (Seq<char>, Seq<char>)|
            #[trigger] r.contains(x) ==> exists|i: int|
                0 <= i < entries.len() && entries[i] == x && #[trigger] dir_answer(
                    entries[i].1,
                    true,
                ),
{
    let keep = choose|keep: Seq<bool>|
        dir_answers(entries, keep) && r == sort_by_name(kept(entries, keep));
    assert forall|i: int| 0 <= i < entries.len() implies r.contains(entries[i])
        || #[trigger] dir_answer(entries[i].1, false) by {
        lemma_listing_members(entries, keep, entries[i]);
        assert(dir_answer(entries[i].1, keep[i]));
        if keep[i] {
            assert(exists|j: int| 0 <= j < entries.len() && keep[j] && #[trigger] entries[j]
                == entries[i]);
        }
    }
    assert forall|x: (Seq<char>, Seq<char>)| #[trigger] r.contains(x) implies exists|i: int|
        0 <= i < entries.len() && entries[i] == x && #[trigger] dir_answer(entries[i].1, true) by {
        lemma_listing_members(entries, keep, x);
        let i = choose|i: int| 0 <= i < entries.len() && keep[i] && #[trigger] entries[i] == x;
        assert(dir_answer(entries[i].1, keep[i]));
    }
}

/// What a lookup returns, by the directory answers its call got (see
/// [`lemma_lookup_result`]).
pub proof fn lemma_found_by_answers(
    entries: Seq<(Seq<char>, Seq<char>)>,
    name: Seq<char>,
    r: Option<Seq<char>>,
)
    requires
        found_by_answers(entries, name, r),
    ensures
        r matches Some(p) ==> exists|i: int|
            0 <= i < entries.len() && entries[i].0 == name && entries[i].1 == p && dir_answer(
                entries[i].1,
                true,
            ) && forall|j: int|
                0 <= j < i && entries[j].0 == name ==> #[trigger] dir_answer(entries[j].1, false),
        r is None ==> forall|i: int|
            0 <= i < entries.len() && entries[i].0 == name ==> #[trigger] dir_answer(
                entries[i].1,
                false,
            ),
{
    let keep = choose|keep: Seq<bool>|
        lookup_answers(entries, keep, name) && r == spec_find_instance_path(entries, keep, name);
    lemma_lookup_result(entries, keep, name);
}

} // verus!
