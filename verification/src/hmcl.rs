//! The instances of HMCL: its `.hmcl/hmcl.json` maps configuration keys to
//! game directories.

use vstd::prelude::*;
use crate::order::{
    first_path, kept, lemma_listing_members, lemma_sort_stable, lemma_with_name_prefix,
    select_entries, sort_by_name,
    string_entries_view,
    with_name,
};
use crate::paths::{
    absolute_path, dir_answer, dir_exists, exists_answer, is_absolute_text, join_text, joined_path,
    path_exists,
};
use crate::text::{chars_eq, chars_of};

verus! {

/// The path of HMCL's configuration under `base`:
/// `base.join(".hmcl").join("hmcl.json")`.
pub open spec fn spec_config_path(base: Seq<char>) -> Seq<char> {
    joined_path(joined_path(base, ".hmcl"@), "hmcl.json"@)
}

/// The directory that a configuration's game directory names: the text itself
/// where it is absolute, else the text joined to `base`.
pub open spec fn spec_resolved_game_dir(base: Seq<char>, game_dir: Seq<char>) -> Seq<char> {
    if absolute_path(game_dir) {
        game_dir
    } else {
        joined_path(base, game_dir)
    }
}

/// The path of HMCL's configuration under `base_path` (see [`spec_config_path`]).
pub fn config_path(base_path: &str) -> (r: String)
    ensures
        r@ == spec_config_path(base_path@),
{
    let dir = join_text(base_path, ".hmcl");
    join_text(dir.as_str(), "hmcl.json")
}

/// The directory that a game directory of the configuration names, relative
/// to `base_path` where it is not absolute (see [`spec_resolved_game_dir`]).
pub fn resolved_game_dir(base_path: &str, game_dir: &str) -> (r: String)
    ensures
        r@ == spec_resolved_game_dir(base_path@, game_dir@),
{
    if is_absolute_text(game_dir) {
        game_dir.to_string()
    } else {
        join_text(base_path, game_dir)
    }
}

/// `find_config`: the path of `.hmcl/hmcl.json` under `base_path`, where
/// something is at that path: it is checked with [`path_exists`], and the
/// result is that path exactly when the answer is `true`.
pub fn find_config(base_path: &str) -> (r: Option<String>)
    ensures
        match r {
            Some(p) => p@ == spec_config_path(base_path@) && exists_answer(p@, true),
            None => exists_answer(spec_config_path(base_path@), false),
        },
{
    let path = config_path(base_path);
    let p = path.as_str();
    let b = path_exists(p);
    proof {
        assert(call_ensures(path_exists, (p,), b));
    }
    if b {
        return Some(path);
    }
    None
}

/// `config_exists`: whether HMCL's configuration is under `base_path`
/// (`find_config(base_path).is_some()`): the answer that [`path_exists`] gave
/// for [`spec_config_path`].
pub fn config_exists(base_path: &str) -> (r: bool)
    ensures
        exists_answer(spec_config_path(base_path@), r),
{
    find_config(base_path).is_some()
}

/// The game directories of the configurations, each resolved against
/// `base_path` (see [`spec_resolved_game_dir`]), in order.
pub fn resolved_game_dirs(base_path: &str, configurations: &Vec<(String, String)>) -> (r: Vec<String>)
    ensures
        r@.len() == configurations@.len(),
        forall|i: int|
            0 <= i < r@.len() ==> #[trigger] r@[i]@ == spec_resolved_game_dir(
                base_path@,
                configurations@[i].1@,
            ),
{
    let mut r: Vec<String> = Vec::new();
    let mut i: usize = 0;
    while i < configurations.len()
        invariant
            i <= configurations.len(),
            r@.len() == i,
            forall|j: int|
                0 <= j < i ==> #[trigger] r@[j]@ == spec_resolved_game_dir(
                    base_path@,
                    configurations@[j].1@,
                ),
        decreases configurations.len() - i,
    {
        r.push(resolved_game_dir(base_path, configurations[i].1.as_str()));
        i = i + 1;
    }
    r
}

/// `keep` holds, for each configuration, an answer that [`dir_exists`] gave
/// for its resolved game directory (see [`spec_resolved_game_dir`]).
pub open spec fn resolved_dir_answers(
    base: Seq<char>,
    configurations: Seq<(Seq<char>, Seq<char>)>,
    keep: Seq<bool>,
) -> bool {
    &&& keep.len() == configurations.len()
    &&& forall|i: int|
        0 <= i < configurations.len() ==> #[trigger] dir_answer(
            spec_resolved_game_dir(base, configurations[i].1),
            keep[i],
        )
}

/// `r` is the listing of the configurations: those whose resolved game
/// directory was answered to be a directory, sorted by key.
pub open spec fn instances_by_answers(
    base: Seq<char>,
    configurations: Seq<(Seq<char>, Seq<char>)>,
    r: Seq<(Seq<char>, Seq<char>)>,
) -> bool {
    exists|keep: Seq<bool>|
        resolved_dir_answers(base, configurations, keep) && r == sort_by_name(
            kept(configurations, keep),
        )
}

/// `get_instances`: the configurations (key, game directory) whose resolved
/// game directory (see [`resolved_game_dirs`]) is a directory, sorted by key.
/// Each resolved directory is checked with [`dir_exists`], and a
/// configuration is listed exactly when the answer is `true`.
pub fn get_instances(base_path: &str, configurations: &Vec<(String, String)>) -> (r: Vec<
    (String, String),
>)
    ensures
        instances_by_answers(base_path@, string_entries_view(configurations@), string_entries_view(r@)),
{
    let dirs = resolved_game_dirs(base_path, configurations);
    let ghost c = string_entries_view(configurations@);
    let mut exists: Vec<bool> = Vec::new();
    let mut i: usize = 0;
    while i < dirs.len()
        invariant
            i <= dirs.len(),
            dirs@.len() == configurations@.len(),
            c == string_entries_view(configurations@),
            forall|j: int|
                0 <= j < dirs@.len() ==> #[trigger] dirs@[j]@ == spec_resolved_game_dir(
                    base_path@,
                    configurations@[j].1@,
                ),
            exists.len() == i,
            forall|j: int|
                0 <= j < i ==> #[trigger] dir_answer(
                    spec_resolved_game_dir(base_path@, c[j].1),
                    exists@[j],
                ),
        decreases dirs.len() - i,
    {
        let p = dirs[i].as_str();
        let b = dir_exists(p);
        proof {
            assert(call_ensures(dir_exists, (p,), b));
            assert(c[i as int].1 == configurations@[i as int].1@);
            assert(p@ == spec_resolved_game_dir(base_path@, c[i as int].1));
            assert(dir_answer(spec_resolved_game_dir(base_path@, c[i as int].1), b));
        }
        let ghost before = exists@;
        exists.push(b);
        proof {
            assert forall|j: int| 0 <= j < i + 1 implies #[trigger] dir_answer(
                spec_resolved_game_dir(base_path@, c[j].1),
                exists@[j],
            ) by {
                if j < i {
                    assert(exists@[j] == before[j]);
                }
            }
        }
        i = i + 1;
    }
    let r = select_entries(configurations, &exists);
    assert(resolved_dir_answers(base_path@, c, exists@));
    r
}

/// `get_instance_path`: the game directory of the instance `instance_key`
/// among the listed instances (the first with that key).
pub fn get_instance_path(instances: &Vec<(String, String)>, instance_key: &str) -> (r: Option<
    String,
>)
    ensures
        match r {
            Some(p) => first_path(with_name(string_entries_view(instances@), instance_key@))
                == Some(p@),
            None => first_path(with_name(string_entries_view(instances@), instance_key@)) is None,
        },
{
    let key = chars_of(instance_key);
    let ghost s = string_entries_view(instances@);
    let mut i: usize = 0;
    while i < instances.len()
        invariant
            i <= instances.len(),
            s == string_entries_view(instances@),
            key@ == instance_key@,
            with_name(s.take(i as int), key@) == Seq::<(Seq<char>, Seq<char>)>::empty(),
        decreases instances.len() - i,
    {
        let e = &instances[i];
        let k = chars_of(e.0.as_str());
        proof {
            assert(s.take(i + 1).drop_last() =~= s.take(i as int));
            assert(s[i as int] == (e.0@, e.1@));
        }
        if chars_eq(&k, &key) {
            proof {
                lemma_with_name_prefix(s, key@, i + 1);
                assert(with_name(s.take(i + 1), key@) =~= seq![s[i as int]]);
                let w = with_name(s, key@);
                assert(w.take(1) == seq![s[i as int]]);
                assert(w.take(1)[0] == w[0]);
                assert(w[0] == s[i as int]);
            }
            return Some(e.1.clone());
        }
        i = i + 1;
    }
    assert(s.take(instances.len() as int) =~= s);
    None
}

/// The flags keep at most the entries of each name that there were.
pub proof fn lemma_with_name_kept_len(s: Seq<(Seq<char>, Seq<char>)>, keep: Seq<bool>, k: Seq<char>)
    ensures
        with_name(kept(s, keep), k).len() <= with_name(s, k).len(),
    decreases s.len(),
{
    if s.len() > 0 && keep.len() > 0 {
        let d = kept(s.drop_last(), keep.drop_last());
        lemma_with_name_kept_len(s.drop_last(), keep.drop_last(), k);
        assert(d.push(s.last()).drop_last() =~= d);
    }
}

/// The listing holds no key more often than the configuration does (with the
/// configuration's keys distinct, each key at most once), and the lookup of a
/// key in it gives the game directory of that key's configuration.
pub proof fn lemma_listing_keys(
    configurations: Seq<(Seq<char>, Seq<char>)>,
    keep: Seq<bool>,
    key: Seq<char>,
)
    ensures
        with_name(sort_by_name(kept(configurations, keep)), key).len() <= with_name(
            configurations,
            key,
        ).len(),
        first_path(with_name(sort_by_name(kept(configurations, keep)), key)) == first_path(
            with_name(kept(configurations, keep), key),
        ),
{
    lemma_sort_stable(kept(configurations, keep), key);
    lemma_with_name_kept_len(configurations, keep, key);
}

/// The listing of the configurations, by the directory answers its call
/// got: a configuration whose resolved game directory was not answered "not a
/// directory" is listed, and every listed configuration is one whose resolved
/// game directory was answered to be a directory.
pub proof fn lemma_instances_by_answers(
    base: Seq<char>,
    configurations: Seq<(Seq<char>, Seq<char>)>,
    r: Seq<(Seq<char>, Seq<char>)>,
)
    requires
        instances_by_answers(base, configurations, r),
    ensures
        forall|i: int|
            0 <= i < configurations.len() ==> r.contains(configurations[i]) || #[trigger] dir_answer(
                spec_resolved_game_dir(base, configurations[i].1),
                false,
            ),
        forall|x: (Seq<char>, Seq<char>)|
            #[trigger] r.contains(x) ==> exists|i: int|
                0 <= i < configurations.len() && configurations[i] == x && #[trigger] dir_answer(
                    spec_resolved_game_dir(base, configurations[i].1),
                    true,
                ),
{
    let keep = choose|keep: Seq<bool>|
        resolved_dir_answers(base, configurations, keep) && r == sort_by_name(
            kept(configurations, keep),
        );
    assert forall|i: int| 0 <= i < configurations.len() implies r.contains(configurations[i])
        || #[trigger] dir_answer(spec_resolved_game_dir(base, configurations[i].1), false) by {
        lemma_listing_members(configurations, keep, configurations[i]);
        assert(dir_answer(spec_resolved_game_dir(base, configurations[i].1), keep[i]));
        if keep[i] {
            assert(exists|j: int|
                0 <= j < configurations.len() && keep[j] && #[trigger] configurations[j]
                    == configurations[i]);
        }
    }
    assert forall|x: (Seq<char>, Seq<char>)| #[trigger] r.contains(x) implies exists|i: int|
        0 <= i < configurations.len() && configurations[i] == x && #[trigger] dir_answer(
            spec_resolved_game_dir(base, configurations[i].1),
            true,
        ) by {
        lemma_listing_members(configurations, keep, x);
        let i = choose|i: int|
            0 <= i < configurations.len() && keep[i] && #[trigger] configurations[i] == x;
        assert(dir_answer(spec_resolved_game_dir(base, configurations[i].1), keep[i]));
    }
}

} // verus!
