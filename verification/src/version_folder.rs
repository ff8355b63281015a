//! Which JSON file of a version folder the detection reads: `<folder>.json`
//! where it exists, else the folder's only `.json` entry, else none.

use vstd::prelude::*;
use crate::text::{chars_of, concat_chars, string_of, subvec};

verus! {

/// The choice of a version folder's JSON file.
pub enum JsonChoice {
    /// `<folder name>.json`, read under the folder's name.
    ByName,
    /// The folder's only `.json` entry: its index in the listing, and its
    /// stem, under which it is read.
    Sole(usize, String),
}

/// The name of the folder's own JSON file: the folder name and `.json`.
pub open spec fn spec_primary_json_name(folder_name: Seq<char>) -> Seq<char> {
    folder_name + ".json"@
}

/// The stem of a directory entry's name whose extension is `json`
/// (`Path::extension` and `Path::file_stem` on a file name: the part after
/// the last `.` is the extension where something comes before that `.`).
pub open spec fn json_stem(name: Seq<char>) -> Option<Seq<char>> {
    if name.len() > 5 && name.skip(name.len() - 5) == ".json"@ {
        Some(name.take(name.len() - 5))
    } else {
        None
    }
}

/// The indices of the entries with a `json` extension, in order.
pub open spec fn json_indices(names: Seq<Seq<char>>) -> Seq<int>
    decreases names.len(),
{
    if names.len() == 0 {
        Seq::empty()
    } else {
        let d = json_indices(names.drop_last());
        if json_stem(names.last()) is Some {
            d.push(names.len() - 1)
        } else {
            d
        }
    }
}

/// The texts of a listing of names.
pub open spec fn names_view(names: Seq<String>) -> Seq<Seq<char>> {
    names.map_values(|s: String| s@)
}

/// The only entry of a listing with a `json` extension: its index and stem;
/// none where there is no such entry or several.
pub open spec fn sole_json(names: Seq<Seq<char>>) -> Option<(int, Seq<char>)> {
    let js = json_indices(names);
    if js.len() == 1 {
        match json_stem(names[js[0]]) {
            Some(stem) => Some((js[0], stem)),
            None => None,
        }
    } else {
        None
    }
}

/// The name of the folder's own JSON file (see [`spec_primary_json_name`]).
pub fn primary_json_name(folder_name: &str) -> (r: String)
    ensures
        r@ == spec_primary_json_name(folder_name@),
{
    string_of(&concat_chars(&chars_of(folder_name), &chars_of(".json")))
}

/// The stem of an entry name with a `json` extension (see [`json_stem`]).
fn json_stem_exec(name: &str) -> (r: Option<String>)
    ensures
        match r {
            Some(s) => json_stem(name@) == Some(s@),
            None => json_stem(name@) is None,
        },
{
    let c = chars_of(name);
    let suffix = chars_of(".json");
    proof {
        reveal_strlit(".json");
    }
    if c.len() <= 5 {
        return None;
    }
    let n = c.len() - 5;
    let mut i: usize = 0;
    while i < 5
        invariant
            c@ == name@,
            suffix@ == ".json"@,
            suffix@.len() == 5,
            n == c.len() - 5,
            i <= 5,
            forall|j: int| 0 <= j < i ==> c@[n + j] == suffix@[j],
        decreases 5 - i,
    {
        if c[n + i] != suffix[i] {
            assert(c@.skip(n as int)[i as int] != ".json"@[i as int]);
            return None;
        }
        i = i + 1;
    }
    assert(c@.skip(n as int) =~= ".json"@);
    let stem = subvec(&c, 0, n);
    assert(stem@ =~= c@.take(n as int));
    Some(string_of(&stem))
}

/// `find_json`'s choice of the JSON file of a version folder: `<folder>.json`
/// where it exists (`primary_exists`), else the only entry of the folder
/// listing (`file_names`) whose extension is `json`, read under its stem;
/// none where there is no such entry or several.
pub fn choose_version_json(primary_exists: bool, file_names: &Vec<String>) -> (r: Option<JsonChoice>)
    ensures
        match r {
            Some(JsonChoice::ByName) => primary_exists,
            Some(JsonChoice::Sole(i, stem)) => !primary_exists && sole_json(names_view(file_names@)) == Some(
                (i as int, stem@),
            ),
            None => !primary_exists && sole_json(names_view(file_names@)) is None,
        },
{
    if primary_exists {
        return Some(JsonChoice::ByName);
    }
    let ghost nv = names_view(file_names@);
    let mut count: usize = 0;
    let mut last: usize = 0;
    let mut last_stem: String = String::new();
    let mut i: usize = 0;
    while i < file_names.len()
        invariant
            i <= file_names.len(),
            nv == names_view(file_names@),
            count == json_indices(nv.take(i as int)).len(),
            count <= i,
            count > 0 ==> last == json_indices(nv.take(i as int)).last() && last < i
                && json_stem(nv[last as int]) == Some(last_stem@),
        decreases file_names.len() - i,
    {
        let ghost before = nv.take(i as int);
        proof {
            assert(nv.take(i + 1).drop_last() =~= before);
            assert(nv.take(i + 1).last() == nv[i as int]);
            assert(nv[i as int] == file_names@[i as int]@);
        }
        match json_stem_exec(file_names[i].as_str()) {
            Some(s) => {
                count = count + 1;
                last = i;
                last_stem = s;
            },
            None => {},
        }
        i = i + 1;
    }
    proof {
        assert(nv.take(file_names.len() as int) =~= nv);
    }
    if count == 1 {
        proof {
            let js = json_indices(nv);
            assert(js.len() == 1);
            assert(js[0] == js.last());
        }
        Some(JsonChoice::Sole(last, last_stem))
    } else {
        None
    }
}

} // verus!
