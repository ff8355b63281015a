//! Detection of the Minecraft version and mod loader of an instance from its
//! version JSON (the JSON text of a launcher's version folder).

use vstd::prelude::*;
use crate::json::{
    JsonValue, as_str, get, get_array, get_array_exec, get_str, get_str_exec, json_get, json_parse,
    json_str, parse_json,
};
use crate::text::{
    all_ascii, ascii_lower_char, ascii_lowercase, is_ascii_char, lemma_ascii_utf8_len,
    char_index_at_byte, char_index_at_byte_exec, chars_of, find_from, matches_at, clone_chars, concat_chars,
    contains, contains_char, contains_exec, find, find_any_exec, find_any_from, find_char_exec,
    find_exec, lemma_find_any_from_bounds, lemma_find_from_bounds, lemma_rfind_before_bounds,
    remove_all, remove_all_exec, rfind_char, rfind_char_exec, span_exec, span_from,
    starts_with, starts_with_char, starts_with_exec, str_lowercase, string_of, subvec,
    to_lowercase, trim, trim_chars, utf8_len, utf8_len_exec, chars_eq,
};

verus! {

/// What the detection found for an instance.
pub struct InstanceInfo {
    pub vanilla_name: String,
    pub loader: Option<String>,
    pub loader_version: Option<String>,
}

/// The mathematical value of an [`InstanceInfo`].
pub struct InstanceInfoView {
    pub vanilla_name: Seq<char>,
    pub loader: Option<Seq<char>>,
    pub loader_version: Option<Seq<char>>,
}

impl View for InstanceInfo {
    type V = InstanceInfoView;

    open spec fn view(&self) -> InstanceInfoView {
        InstanceInfoView {
            vanilla_name: self.vanilla_name@,
            loader: self.loader.deep_view(),
            loader_version: self.loader_version.deep_view(),
        }
    }
}

/// The view of an optional [`InstanceInfo`].
pub open spec fn info_view(r: Option<InstanceInfo>) -> Option<InstanceInfoView> {
    match r {
        Some(i) => Some(i@),
        None => None,
    }
}

/// The characters that end a library coordinate in the JSON text.
pub open spec fn terminators() -> Seq<char> {
    seq!['"', ',', '\n', '}']
}

/// The separators of the parts of an instance id.
pub open spec fn id_separators() -> Seq<char> {
    seq!['-', '_', ' ']
}

/// The ASCII digits (`char::is_ascii_digit`).
pub open spec fn digits() -> Seq<char> {
    seq!['0', '1', '2', '3', '4', '5', '6', '7', '8', '9']
}

/// The characters of a version number: digits and `.`.
pub open spec fn version_chars() -> Seq<char> {
    digits().push('.')
}

/// `Some(v)` only for a non-empty `v`.
pub open spec fn nonempty(o: Option<Seq<char>>) -> Option<Seq<char>> {
    match o {
        Some(v) => if v.len() > 0 {
            Some(v)
        } else {
            None
        },
        None => None,
    }
}

/// The version name with the launcher decorations removed: a bare `20.`/`21.`
/// version gets the `1.` prefix, `_unobfuscated` and ` Unobfuscated` are
/// removed, and the result is trimmed.
pub open spec fn spec_normalize_version(raw: Seq<char>) -> Seq<char> {
    let v = if (starts_with(raw, "20."@) || starts_with(raw, "21."@)) && !starts_with(raw, "1."@) {
        "1."@ + raw
    } else {
        raw
    };
    trim(remove_all(remove_all(v, "_unobfuscated"@), " Unobfuscated"@))
}

/// The text between the first occurrence of `needle` and the next terminator
/// after it, if both exist.
pub open spec fn value_after(content: Seq<char>, needle: Seq<char>) -> Option<Seq<char>> {
    match find(content, needle) {
        None => None,
        Some(p) => {
            let start = p + needle.len();
            match find_any_from(content, terminators(), start) {
                None => None,
                Some(e) => Some(content.subrange(start, e)),
            }
        },
    }
}

/// The part of `ver` before the first `c`, or all of it.
pub open spec fn before_first(ver: Seq<char>, c: char) -> Seq<char> {
    match find_any_from(ver, seq![c], 0) {
        Some(d) => ver.take(d),
        None => ver,
    }
}

/// The Minecraft version read from library coordinates in the JSON text:
/// Forge (`minecraftforge:forge:<mc>-...`), then OptiFine
/// (`optifine:OptiFine:<mc>_...`), then Fabric
/// (`net.fabricmc:fabric-loader:...-<mc>`).
pub open spec fn spec_version_from_libraries(content: Seq<char>) -> Option<Seq<char>> {
    match value_after(content, "minecraftforge:forge:"@) {
        Some(ver) => Some(before_first(ver, '-')),
        None => match value_after(content, "optifine:OptiFine:"@) {
            Some(ver) => Some(before_first(ver, '_')),
            None => match value_after(content, "net.fabricmc:fabric-loader:"@) {
                Some(ver) => match rfind_char(ver, '-') {
                    Some(d) => Some(ver.skip(d + 1)),
                    None => None,
                },
                None => None,
            },
        },
    }
}

/// Whether a version candidate looks like a Minecraft version: it starts
/// with `1.` or with `2`.
pub open spec fn looks_like_version(s: Seq<char>) -> bool {
    starts_with(s, "1."@) || starts_with_char(s, '2')
}

/// The leading version of an instance id; hash-like ids (32 bytes or more
/// without `.`, `-` or `_`) give none.
pub open spec fn spec_version_from_id(id: Seq<char>) -> Option<Seq<char>> {
    let ver = trim(id);
    if ver.len() == 0 {
        None
    } else if utf8_len(ver) >= 32 && !ver.contains('.') && !ver.contains('-') && !ver.contains(
        '_',
    ) {
        None
    } else {
        let lead = match find_any_from(ver, id_separators(), 0) {
            Some(k) => if looks_like_version(ver.take(k)) {
                Some(ver.take(k))
            } else {
                None
            },
            None => None,
        };
        match lead {
            Some(c) => Some(c),
            None => if looks_like_version(ver) {
                Some(ver)
            } else {
                None
            },
        }
    }
}

/// The loader names that the detection knows.
pub open spec fn is_loader_name(t: Seq<char>) -> bool {
    t == "forge"@ || t == "neoforge"@ || t == "fabric"@ || t == "quilt"@
}

/// The byte offset in the lowercased id just after the first occurrence of
/// the keyword.
pub open spec fn keyword_end_byte(id: Seq<char>, kw: Seq<char>) -> Option<int> {
    match find(str_lowercase(id), kw) {
        None => None,
        Some(k) => Some(utf8_len(str_lowercase(id).take(k)) + utf8_len(kw)),
    }
}

/// Whether slicing the id at the keyword's end (a byte offset found in the
/// lowercased id) stays on a character boundary of the id.
pub open spec fn loader_id_in_bounds(id: Seq<char>, t: Seq<char>) -> bool {
    is_loader_name(t) ==> match keyword_end_byte(id, t) {
        None => true,
        Some(b) => char_index_at_byte(id, b) is Some,
    }
}

/// The version that follows a loader keyword: after separators, a run of
/// digits and dots; else the first run starting at a digit.
pub open spec fn version_after_keyword(after: Seq<char>) -> Option<Seq<char>> {
    let t = after.skip(span_from(after, id_separators(), 0));
    let e1 = span_from(t, version_chars(), 0);
    if t.len() > 0 && digits().contains(t[0]) && e1 > 0 {
        Some(t.take(e1))
    } else {
        match find_any_from(after, digits(), 0) {
            Some(d) => {
                let v = after.skip(d);
                let e2 = span_from(v, version_chars(), 0);
                if e2 > 0 {
                    Some(v.take(e2))
                } else {
                    None
                }
            },
            None => None,
        }
    }
}

/// The loader version found in the instance id after the loader's keyword
/// (matched case-insensitively).
pub open spec fn spec_loader_version_from_id(id: Seq<char>, t: Seq<char>) -> Option<Seq<char>> {
    if !is_loader_name(t) {
        None
    } else {
        match keyword_end_byte(id, t) {
            None => None,
            Some(b) => match char_index_at_byte(id, b) {
                Some(j) => version_after_keyword(id.skip(j)),
                None => None,
            },
        }
    }
}

/// The library coordinate prefix of each loader.
pub open spec fn lib_needle(t: Seq<char>) -> Option<Seq<char>> {
    if t == "forge"@ {
        Some("minecraftforge:forge:"@)
    } else if t == "neoforge"@ {
        Some("net.neoforged:neoforge:"@)
    } else if t == "fabric"@ {
        Some("net.fabricmc:fabric-loader:"@)
    } else if t == "quilt"@ {
        Some("org.quiltmc:quilt-loader:"@)
    } else {
        None
    }
}

/// Whether the id of the JSON, if any, can be searched for the loader keyword
/// without leaving the id's character boundaries.
pub open spec fn id_in_bounds(json: JsonValue, t: Seq<char>) -> bool {
    match get_str(json, "id"@) {
        Some(id) => loader_id_in_bounds(id, t),
        None => true,
    }
}

/// The loader version: from the id first, else from the loader's library
/// coordinate (for Forge, the part after the last `-`).
pub open spec fn spec_loader_version(content: Seq<char>, json: JsonValue, t: Seq<char>) -> Option<
    Seq<char>,
> {
    let from_id = match get_str(json, "id"@) {
        Some(id) => spec_loader_version_from_id(id, t),
        None => None,
    };
    match from_id {
        Some(v) => Some(v),
        None => match lib_needle(t) {
            None => None,
            Some(needle) => match value_after(content, needle) {
                None => None,
                Some(ver) => Some(
                    if t == "forge"@ {
                        match rfind_char(ver, '-') {
                            Some(p) => ver.skip(p + 1),
                            None => ver,
                        }
                    } else {
                        ver
                    },
                ),
            },
        },
    }
}

/// The loader named by the JSON text: Fabric, then Quilt, then NeoForge,
/// then Forge.
pub open spec fn spec_loader_type(content: Seq<char>) -> Option<Seq<char>> {
    if contains(content, "net.fabricmc:fabric-loader"@) {
        Some("fabric"@)
    } else if contains(content, "org.quiltmc:quilt-loader"@) {
        Some("quilt"@)
    } else if contains(content, "net.neoforge"@) {
        Some("neoforge"@)
    } else if contains(content, "minecraftforge"@) {
        Some("forge"@)
    } else {
        None
    }
}

/// Whether the loader lookup of the detection stays on character boundaries.
pub open spec fn loader_in_bounds(json: JsonValue, content: Seq<char>) -> bool {
    match spec_loader_type(content) {
        Some(t) => id_in_bounds(json, t),
        None => true,
    }
}

/// The detected loader and its version.
pub open spec fn spec_detect_loader(content: Seq<char>, json: JsonValue) -> Option<
    (Seq<char>, Option<Seq<char>>),
> {
    match spec_loader_type(content) {
        None => None,
        Some(t) => Some((t, spec_loader_version(content, json, t))),
    }
}

/// The first patch from index `i` on whose id is `game` and whose version is
/// a non-empty string; its version.
pub open spec fn game_patch_from(ps: Seq<JsonValue>, i: int) -> Option<Seq<char>>
    decreases ps.len() - i,
{
    if i < 0 || i >= ps.len() {
        None
    } else if get_str(ps[i], "id"@) == Some("game"@) && nonempty(get_str(ps[i], "version"@)) is Some {
        nonempty(get_str(ps[i], "version"@))
    } else {
        game_patch_from(ps, i + 1)
    }
}

/// The first string argument after the first `--fml.mcVersion` from index
/// `i` on (`mark`: the marker was already seen).
pub open spec fn fml_from(args: Seq<JsonValue>, i: int, mark: bool) -> Option<Seq<char>>
    decreases args.len() - i,
{
    if i < 0 || i >= args.len() {
        None
    } else if mark && json_str(args[i]) is Some {
        json_str(args[i])
    } else {
        fml_from(args, i + 1, mark || json_str(args[i]) == Some("--fml.mcVersion"@))
    }
}

/// The version of the `game` patch (HMCL).
pub open spec fn patch_version(json: JsonValue) -> Option<Seq<char>> {
    match get_array(json, "patches"@) {
        Some(ps) => game_patch_from(ps, 0),
        None => None,
    }
}

/// The value of `--fml.mcVersion` in `arguments.game` (Forge, NeoForge).
pub open spec fn fml_version(json: JsonValue) -> Option<Seq<char>> {
    match json_get(json, "arguments"@) {
        Some(a) => match get_array(a, "game"@) {
            Some(args) => fml_from(args, 0, false),
            None => None,
        },
        None => None,
    }
}

/// The version led by the `id` field.
pub open spec fn id_version(json: JsonValue) -> Option<Seq<char>> {
    match get_str(json, "id"@) {
        Some(id) => spec_version_from_id(id),
        None => None,
    }
}

/// The Minecraft version of a version JSON, from the first of these sources
/// that gives one: `clientVersion`, the `game` patch, `--fml.mcVersion`,
/// `jar`, `inheritsFrom`, the library coordinates, the `id`; else empty.
pub open spec fn spec_extract_version(json: JsonValue, text: Seq<char>) -> Seq<char> {
    match nonempty(get_str(json, "clientVersion"@)) {
        Some(v) => v,
        None => match patch_version(json) {
            Some(v) => v,
            None => match fml_version(json) {
                Some(v) => v,
                None => match nonempty(get_str(json, "jar"@)) {
                    Some(v) => v,
                    None => match nonempty(get_str(json, "inheritsFrom"@)) {
                        Some(v) => v,
                        None => match spec_version_from_libraries(text) {
                            Some(v) => v,
                            None => match id_version(json) {
                                Some(v) => v,
                                None => Seq::empty(),
                            },
                        },
                    },
                },
            },
        },
    }
}

/// The instance information of a parsed version JSON and its text.
pub open spec fn spec_instance_info(json: JsonValue, text: Seq<char>) -> Option<InstanceInfoView> {
    let v = spec_extract_version(json, text);
    if v.len() == 0 {
        None
    } else {
        let loader = spec_detect_loader(text, json);
        Some(
            InstanceInfoView {
                vanilla_name: spec_normalize_version(v),
                loader: match loader {
                    Some(l) => Some(l.0),
                    None => None,
                },
                loader_version: match loader {
                    Some(l) => l.1,
                    None => None,
                },
            },
        )
    }
}


/// The characters that end a library coordinate.
fn terminators_exec() -> (r: Vec<char>)
    ensures
        r@ == terminators(),
{
    let mut v: Vec<char> = Vec::new();
    v.push('"');
    v.push(',');
    v.push('\n');
    v.push('}');
    assert(v@ =~= terminators());
    v
}

/// The separators of the parts of an instance id.
fn id_separators_exec() -> (r: Vec<char>)
    ensures
        r@ == id_separators(),
{
    let mut v: Vec<char> = Vec::new();
    v.push('-');
    v.push('_');
    v.push(' ');
    assert(v@ =~= id_separators());
    v
}

/// The ASCII digits.
fn digits_exec() -> (r: Vec<char>)
    ensures
        r@ == digits(),
{
    let mut v: Vec<char> = Vec::new();
    v.push('0');
    v.push('1');
    v.push('2');
    v.push('3');
    v.push('4');
    v.push('5');
    v.push('6');
    v.push('7');
    v.push('8');
    v.push('9');
    assert(v@ =~= digits());
    v
}

/// The digits and `.`.
fn version_chars_exec() -> (r: Vec<char>)
    ensures
        r@ == version_chars(),
{
    let mut v = digits_exec();
    v.push('.');
    v
}

/// The version name with launcher decorations removed (see [`spec_normalize_version`]).
pub fn normalize_version_chars(raw: &Vec<char>) -> (r: Vec<char>)
    ensures
        r@ == spec_normalize_version(raw@),
{
    let p20 = chars_of("20.");
    let p21 = chars_of("21.");
    let p1 = chars_of("1.");
    let v = if (starts_with_exec(raw, &p20) || starts_with_exec(raw, &p21)) && !starts_with_exec(
        raw,
        &p1,
    ) {
        concat_chars(&p1, raw)
    } else {
        clone_chars(raw)
    };
    let pat1 = chars_of("_unobfuscated");
    let pat2 = chars_of(" Unobfuscated");
    proof {
        reveal_strlit("_unobfuscated");
        reveal_strlit(" Unobfuscated");
    }
    let v = remove_all_exec(&v, &pat1);
    let v = remove_all_exec(&v, &pat2);
    trim_chars(&v)
}

/// `normalize_version`: the version name with launcher decorations removed.
pub fn normalize_version(raw: &str) -> (r: String)
    ensures
        r@ == spec_normalize_version(raw@),
{
    let v = normalize_version_chars(&chars_of(raw));
    string_of(&v)
}

/// The text between the first `needle` and the next terminator (see [`value_after`]).
fn value_after_exec(content: &Vec<char>, needle: &Vec<char>) -> (r: Option<Vec<char>>)
    ensures
        match r {
            Some(v) => value_after(content@, needle@) == Some(v@),
            None => value_after(content@, needle@) is None,
        },
{
    match find_exec(content, needle, 0) {
        None => None,
        Some(p) => {
            proof {
                lemma_find_from_bounds(content@, needle@, 0);
                assert(find_from(content@, needle@, 0) == Some(p as int));
                assert(matches_at(content@, needle@, p as int));
            }
            let nl = needle.len();
            let cl = content.len();
            assert(p + nl <= cl);
            let start = p + nl;
            let terms = terminators_exec();
            match find_any_exec(content, &terms, start) {
                None => None,
                Some(e) => {
                    proof {
                        lemma_find_any_from_bounds(content@, terms@, start as int);
                    }
                    Some(subvec(content, start, e))
                },
            }
        },
    }
}

/// The part of `ver` before the first `c`, or all of it.
fn before_first_exec(ver: Vec<char>, c: char) -> (r: Vec<char>)
    ensures
        r@ == before_first(ver@, c),
{
    match find_char_exec(&ver, c, 0) {
        Some(d) => {
            proof {
                lemma_find_any_from_bounds(ver@, seq![c], 0);
            }
            subvec(&ver, 0, d)
        },
        None => ver,
    }
}

/// The Minecraft version read from library coordinates (see [`spec_version_from_libraries`]).
pub fn version_from_libraries_chars(content: &Vec<char>) -> (r: Option<Vec<char>>)
    ensures
        match r {
            Some(v) => spec_version_from_libraries(content@) == Some(v@),
            None => spec_version_from_libraries(content@) is None,
        },
{
    let forge = chars_of("minecraftforge:forge:");
    if let Some(ver) = value_after_exec(content, &forge) {
        return Some(before_first_exec(ver, '-'));
    }
    let optifine = chars_of("optifine:OptiFine:");
    if let Some(ver) = value_after_exec(content, &optifine) {
        return Some(before_first_exec(ver, '_'));
    }
    let fabric = chars_of("net.fabricmc:fabric-loader:");
    if let Some(ver) = value_after_exec(content, &fabric) {
        if let Some(d) = rfind_char_exec(&ver, '-') {
            proof {
                lemma_rfind_before_bounds(ver@, '-', ver@.len() as int);
            }
            let tail = subvec(&ver, d + 1, ver.len());
            assert(tail@ =~= ver@.skip(d + 1));
            return Some(tail);
        }
    }
    None
}

/// `extract_version_from_libraries`: the Minecraft version read from the
/// Forge, OptiFine or Fabric library coordinates in the JSON text.
pub fn extract_version_from_libraries(content: &str) -> (r: Option<String>)
    ensures
        match r {
            Some(v) => spec_version_from_libraries(content@) == Some(v@),
            None => spec_version_from_libraries(content@) is None,
        },
{
    match version_from_libraries_chars(&chars_of(content)) {
        Some(v) => Some(string_of(&v)),
        None => None,
    }
}

/// Whether `s` starts with `1.` or `2`.
fn looks_like_version_exec(s: &Vec<char>) -> (r: bool)
    ensures
        r == looks_like_version(s@),
{
    let p1 = chars_of("1.");
    starts_with_exec(s, &p1) || (s.len() > 0 && s[0] == '2')
}

/// The leading version of an instance id (see [`spec_version_from_id`]).
pub fn version_from_id_chars(id: &Vec<char>) -> (r: Option<Vec<char>>)
    ensures
        match r {
            Some(v) => spec_version_from_id(id@) == Some(v@),
            None => spec_version_from_id(id@) is None,
        },
{
    let ver = trim_chars(id);
    if ver.len() == 0 {
        return None;
    }
    let n = utf8_len_exec(&ver, ver.len());
    assert(ver@.take(ver@.len() as int) =~= ver@);
    if n >= 32 && !contains_char(&ver, '.') && !contains_char(&ver, '-') && !contains_char(
        &ver,
        '_',
    ) {
        return None;
    }
    let seps = id_separators_exec();
    if let Some(k) = find_any_exec(&ver, &seps, 0) {
        proof {
            lemma_find_any_from_bounds(ver@, seps@, 0);
        }
        let cand = subvec(&ver, 0, k);
        assert(cand@ =~= ver@.take(k as int));
        if looks_like_version_exec(&cand) {
            return Some(cand);
        }
    }
    if looks_like_version_exec(&ver) {
        return Some(ver);
    }
    None
}

/// `extract_version_from_id`: the leading version number of an instance id,
/// e.g. `1.8.9` for `1.8.9-forge-11.15.1.1722`; none for hash-like ids.
pub fn extract_version_from_id(id: &str) -> (r: Option<String>)
    ensures
        match r {
            Some(v) => spec_version_from_id(id@) == Some(v@),
            None => spec_version_from_id(id@) is None,
        },
{
    match version_from_id_chars(&chars_of(id)) {
        Some(v) => Some(string_of(&v)),
        None => None,
    }
}


/// Whether `t` is one of the loader names `forge`, `neoforge`, `fabric`, `quilt`.
fn is_loader_name_exec(t: &Vec<char>) -> (r: bool)
    ensures
        r == is_loader_name(t@),
{
    chars_eq(t, &chars_of("forge")) || chars_eq(t, &chars_of("neoforge")) || chars_eq(
        t,
        &chars_of("fabric"),
    ) || chars_eq(t, &chars_of("quilt"))
}

/// The byte offset, in the lowercased id, just after the first occurrence of `kw`.
fn keyword_end_byte_exec(id: &Vec<char>, kw: &Vec<char>) -> (r: Option<u128>)
    ensures
        match r {
            Some(b) => keyword_end_byte(id@, kw@) == Some(b as int),
            None => keyword_end_byte(id@, kw@) is None,
        },
{
    let id_string = string_of(id);
    let lowered_string = to_lowercase(id_string.as_str());
    let lowered = chars_of(lowered_string.as_str());
    match find_exec(&lowered, kw, 0) {
        None => None,
        Some(k) => {
            proof {
                lemma_find_from_bounds(lowered@, kw@, 0);
                assert(find_from(lowered@, kw@, 0) == Some(k as int));
            }
            let a = utf8_len_exec(&lowered, k);
            let b = utf8_len_exec(kw, kw.len());
            assert(kw@.take(kw@.len() as int) =~= kw@);
            Some(a + b)
        },
    }
}

/// Whether the keyword lookup in `id` stays on `id`'s character boundaries
/// (see [`loader_id_in_bounds`]).
pub fn loader_id_in_bounds_exec(id: &Vec<char>, t: &Vec<char>) -> (r: bool)
    ensures
        r == loader_id_in_bounds(id@, t@),
{
    if !is_loader_name_exec(t) {
        return true;
    }
    match keyword_end_byte_exec(id, t) {
        None => true,
        Some(b) => char_index_at_byte_exec(id, b).is_some(),
    }
}

/// The version that follows a loader keyword (see [`version_after_keyword`]).
fn version_after_keyword_exec(after: &Vec<char>) -> (r: Option<Vec<char>>)
    ensures
        match r {
            Some(v) => version_after_keyword(after@) == Some(v@),
            None => version_after_keyword(after@) is None,
        },
{
    let seps = id_separators_exec();
    let digits = digits_exec();
    let vchars = version_chars_exec();
    let s0 = span_exec(after, &seps, 0);
    let t = subvec(after, s0, after.len());
    assert(t@ =~= after@.skip(s0 as int));
    let e1 = span_exec(&t, &vchars, 0);
    if t.len() > 0 && contains_char(&digits, t[0]) && e1 > 0 {
        let v = subvec(&t, 0, e1);
        assert(v@ =~= t@.take(e1 as int));
        return Some(v);
    }
    match find_any_exec(after, &digits, 0) {
        Some(d) => {
            proof {
                lemma_find_any_from_bounds(after@, digits@, 0);
            }
            let v = subvec(after, d, after.len());
            assert(v@ =~= after@.skip(d as int));
            let e2 = span_exec(&v, &vchars, 0);
            if e2 > 0 {
                let w = subvec(&v, 0, e2);
                assert(w@ =~= v@.take(e2 as int));
                Some(w)
            } else {
                None
            }
        },
        None => None,
    }
}

/// The loader version in an id (see [`spec_loader_version_from_id`]).
pub fn loader_version_from_id_chars(id: &Vec<char>, t: &Vec<char>) -> (r: Option<Vec<char>>)
    requires
        loader_id_in_bounds(id@, t@),
    ensures
        match r {
            Some(v) => spec_loader_version_from_id(id@, t@) == Some(v@),
            None => spec_loader_version_from_id(id@, t@) is None,
        },
{
    if !is_loader_name_exec(t) {
        return None;
    }
    match keyword_end_byte_exec(id, t) {
        None => None,
        Some(b) => match char_index_at_byte_exec(id, b) {
            Some(j) => {
                let after = subvec(id, j, id.len());
                assert(after@ =~= id@.skip(j as int));
                version_after_keyword_exec(&after)
            },
            None => None,
        },
    }
}

/// `parse_loader_version_from_id`: the loader version after the loader's
/// keyword in an instance id, e.g. `11.15.1.1722` for
/// `1.8.9-forge-11.15.1.1722` and `forge`.
pub fn parse_loader_version_from_id(id: &str, loader_type: &str) -> (r: Option<String>)
    requires
        loader_id_in_bounds(id@, loader_type@),
    ensures
        match r {
            Some(v) => spec_loader_version_from_id(id@, loader_type@) == Some(v@),
            None => spec_loader_version_from_id(id@, loader_type@) is None,
        },
{
    match loader_version_from_id_chars(&chars_of(id), &chars_of(loader_type)) {
        Some(v) => Some(string_of(&v)),
        None => None,
    }
}


/// [`parse_loader_version_from_id`] where slicing the id stays on its
/// character boundaries; `None` where it would not (where the id would be cut
/// inside a character).
pub fn checked_parse_loader_version_from_id(id: &str, loader_type: &str) -> (r: Option<
    Option<String>,
>)
    ensures
        r is None <==> !loader_id_in_bounds(id@, loader_type@),
        r matches Some(v) ==> match v {
            Some(s) => spec_loader_version_from_id(id@, loader_type@) == Some(s@),
            None => spec_loader_version_from_id(id@, loader_type@) is None,
        },
{
    if loader_id_in_bounds_exec(&chars_of(id), &chars_of(loader_type)) {
        Some(parse_loader_version_from_id(id, loader_type))
    } else {
        None
    }
}

/// The loader version from the id, else from the loader's library coordinate
/// (see [`spec_loader_version`]).
pub fn loader_version_chars(content: &Vec<char>, json: &JsonValue, t: &Vec<char>) -> (r: Option<
    Vec<char>,
>)
    requires
        id_in_bounds(*json, t@),
    ensures
        match r {
            Some(v) => spec_loader_version(content@, *json, t@) == Some(v@),
            None => spec_loader_version(content@, *json, t@) is None,
        },
{
    let id_key = chars_of("id");
    if let Some(id) = get_str_exec(json, &id_key) {
        if let Some(v) = loader_version_from_id_chars(id, t) {
            return Some(v);
        }
    }
    let is_forge = chars_eq(t, &chars_of("forge"));
    let needle = if is_forge {
        chars_of("minecraftforge:forge:")
    } else if chars_eq(t, &chars_of("neoforge")) {
        chars_of("net.neoforged:neoforge:")
    } else if chars_eq(t, &chars_of("fabric")) {
        chars_of("net.fabricmc:fabric-loader:")
    } else if chars_eq(t, &chars_of("quilt")) {
        chars_of("org.quiltmc:quilt-loader:")
    } else {
        return None;
    };
    match value_after_exec(content, &needle) {
        None => None,
        Some(ver) => {
            if is_forge {
                match rfind_char_exec(&ver, '-') {
                    Some(p) => {
                        proof {
                            lemma_rfind_before_bounds(ver@, '-', ver@.len() as int);
                        }
                        let tail = subvec(&ver, p + 1, ver.len());
                        assert(tail@ =~= ver@.skip(p + 1));
                        Some(tail)
                    },
                    None => Some(ver),
                }
            } else {
                Some(ver)
            }
        },
    }
}

/// `extract_loader_version`: the version of the given loader, from the id or
/// from the loader's library coordinate in the JSON text.
pub fn extract_loader_version(content: &str, json: &JsonValue, loader_type: &str) -> (r: Option<
    String,
>)
    requires
        id_in_bounds(*json, loader_type@),
    ensures
        match r {
            Some(v) => spec_loader_version(content@, *json, loader_type@) == Some(v@),
            None => spec_loader_version(content@, *json, loader_type@) is None,
        },
{
    match loader_version_chars(&chars_of(content), json, &chars_of(loader_type)) {
        Some(v) => Some(string_of(&v)),
        None => None,
    }
}

/// Whether the id of the JSON can be searched for the loader keyword without
/// leaving its character boundaries (see [`id_in_bounds`]).
pub fn id_in_bounds_exec(json: &JsonValue, t: &Vec<char>) -> (r: bool)
    ensures
        r == id_in_bounds(*json, t@),
{
    match get_str_exec(json, &chars_of("id")) {
        Some(id) => loader_id_in_bounds_exec(id, t),
        None => true,
    }
}

/// [`extract_loader_version`] where the id can be searched for the loader
/// keyword on its character boundaries; `None` where it cannot (where the id
/// would be cut inside a character).
pub fn checked_extract_loader_version(content: &str, json: &JsonValue, loader_type: &str) -> (r:
    Option<Option<String>>)
    ensures
        r is None <==> !id_in_bounds(*json, loader_type@),
        r matches Some(v) ==> match v {
            Some(s) => spec_loader_version(content@, *json, loader_type@) == Some(s@),
            None => spec_loader_version(content@, *json, loader_type@) is None,
        },
{
    if id_in_bounds_exec(json, &chars_of(loader_type)) {
        Some(extract_loader_version(content, json, loader_type))
    } else {
        None
    }
}

/// The loader named by the JSON text (see [`spec_loader_type`]).
fn loader_type_exec(content: &Vec<char>) -> (r: Option<Vec<char>>)
    ensures
        match r {
            Some(t) => spec_loader_type(content@) == Some(t@),
            None => spec_loader_type(content@) is None,
        },
{
    if contains_exec(content, &chars_of("net.fabricmc:fabric-loader")) {
        Some(chars_of("fabric"))
    } else if contains_exec(content, &chars_of("org.quiltmc:quilt-loader")) {
        Some(chars_of("quilt"))
    } else if contains_exec(content, &chars_of("net.neoforge")) {
        Some(chars_of("neoforge"))
    } else if contains_exec(content, &chars_of("minecraftforge")) {
        Some(chars_of("forge"))
    } else {
        None
    }
}

/// The detected loader and its version (see [`spec_detect_loader`]).
pub fn detect_loader_chars(content: &Vec<char>, json: &JsonValue) -> (r: Option<
    (Vec<char>, Option<Vec<char>>),
>)
    requires
        loader_in_bounds(*json, content@),
    ensures
        match r {
            Some((t, v)) => spec_detect_loader(content@, *json) == Some(
                (
                    t@,
                    match v {
                        Some(x) => Some(x@),
                        None => None,
                    },
                ),
            ),
            None => spec_detect_loader(content@, *json) is None,
        },
{
    match loader_type_exec(content) {
        None => None,
        Some(t) => {
            let v = loader_version_chars(content, json, &t);
            Some((t, v))
        },
    }
}

/// `detect_loader`: which installable loader the JSON text names (Fabric,
/// Quilt, NeoForge, Forge, in this order of precedence) and its version.
pub fn detect_loader(content: &str, json: &JsonValue) -> (r: Option<(String, Option<String>)>)
    requires
        loader_in_bounds(*json, content@),
    ensures
        match r {
            Some((t, v)) => spec_detect_loader(content@, *json) == Some((t@, v.deep_view())),
            None => spec_detect_loader(content@, *json) is None,
        },
{
    match detect_loader_chars(&chars_of(content), json) {
        None => None,
        Some((t, v)) => {
            let vs = match v {
                Some(x) => Some(string_of(&x)),
                None => None,
            };
            Some((string_of(&t), vs))
        },
    }
}

/// [`detect_loader`] where the loader lookup stays on the id's character
/// boundaries; `None` where it would not (see [`loader_in_bounds`]).
pub fn checked_detect_loader(content: &str, json: &JsonValue) -> (r: Option<
    Option<(String, Option<String>)>,
>)
    ensures
        r is None <==> !loader_in_bounds(*json, content@),
        r matches Some(d) ==> match d {
            Some((t, v)) => spec_detect_loader(content@, *json) == Some((t@, v.deep_view())),
            None => spec_detect_loader(content@, *json) is None,
        },
{
    if loader_in_bounds_exec(json, &chars_of(content)) {
        Some(detect_loader(content, json))
    } else {
        None
    }
}

/// The version of the `game` patch (see [`patch_version`]).
fn patch_version_exec(json: &JsonValue) -> (r: Option<Vec<char>>)
    ensures
        match r {
            Some(v) => patch_version(*json) == Some(v@),
            None => patch_version(*json) is None,
        },
{
    let patches_key = chars_of("patches");
    let id_key = chars_of("id");
    let version_key = chars_of("version");
    let game = chars_of("game");
    match get_array_exec(json, &patches_key) {
        None => None,
        Some(ps) => {
            let mut i: usize = 0;
            while i < ps.len()
                invariant
                    i <= ps.len(),
                    patch_version(*json) == game_patch_from(ps@, i as int),
                    id_key@ == "id"@,
                    version_key@ == "version"@,
                    game@ == "game"@,
                decreases ps.len() - i,
            {
                let p = &ps[i];
                let is_game = match get_str_exec(p, &id_key) {
                    Some(id) => chars_eq(id, &game),
                    None => false,
                };
                if is_game {
                    if let Some(v) = get_str_exec(p, &version_key) {
                        if v.len() > 0 {
                            return Some(clone_chars(v));
                        }
                    }
                }
                i = i + 1;
            }
            None
        },
    }
}

/// The value of `--fml.mcVersion` in `arguments.game` (see [`fml_version`]).
fn fml_version_exec(json: &JsonValue) -> (r: Option<Vec<char>>)
    ensures
        match r {
            Some(v) => fml_version(*json) == Some(v@),
            None => fml_version(*json) is None,
        },
{
    let arguments_key = chars_of("arguments");
    let game_key = chars_of("game");
    let marker = chars_of("--fml.mcVersion");
    let a = match get(json, &arguments_key) {
        Some(a) => a,
        None => return None,
    };
    let args = match get_array_exec(a, &game_key) {
        Some(args) => args,
        None => return None,
    };
    let mut mark = false;
    let mut i: usize = 0;
    while i < args.len()
        invariant
            i <= args.len(),
            fml_version(*json) == fml_from(args@, i as int, mark),
            marker@ == "--fml.mcVersion"@,
        decreases args.len() - i,
    {
        let arg = &args[i];
        let s = as_str(arg);
        if mark {
            if let Some(v) = s {
                return Some(clone_chars(v));
            }
        }
        let is_marker = match s {
            Some(v) => chars_eq(v, &marker),
            None => false,
        };
        if is_marker {
            mark = true;
        }
        i = i + 1;
    }
    None
}

/// A non-empty string field of the JSON, copied.
fn nonempty_str_field(json: &JsonValue, key: &str) -> (r: Option<Vec<char>>)
    ensures
        match r {
            Some(v) => nonempty(get_str(*json, key@)) == Some(v@),
            None => nonempty(get_str(*json, key@)) is None,
        },
{
    match get_str_exec(json, &chars_of(key)) {
        Some(v) => if v.len() > 0 {
            Some(clone_chars(v))
        } else {
            None
        },
        None => None,
    }
}

/// The Minecraft version of a version JSON (see [`spec_extract_version`]).
pub fn extract_version_chars(json: &JsonValue, text: &Vec<char>) -> (r: Vec<char>)
    ensures
        r@ == spec_extract_version(*json, text@),
{
    if let Some(v) = nonempty_str_field(json, "clientVersion") {
        return v;
    }
    if let Some(v) = patch_version_exec(json) {
        return v;
    }
    if let Some(v) = fml_version_exec(json) {
        return v;
    }
    if let Some(v) = nonempty_str_field(json, "jar") {
        return v;
    }
    if let Some(v) = nonempty_str_field(json, "inheritsFrom") {
        return v;
    }
    if let Some(v) = version_from_libraries_chars(text) {
        return v;
    }
    if let Some(id) = get_str_exec(json, &chars_of("id")) {
        if let Some(v) = version_from_id_chars(id) {
            return v;
        }
    }
    Vec::new()
}

/// `extract_version`: the Minecraft version of a parsed version JSON and its
/// text, or the empty string.
pub fn extract_version(json: &JsonValue, json_str: &str) -> (r: String)
    ensures
        r@ == spec_extract_version(*json, json_str@),
{
    let v = extract_version_chars(json, &chars_of(json_str));
    string_of(&v)
}

/// The instance information of a parsed version JSON and its text (see
/// [`spec_instance_info`]).
pub fn instance_info_from(json: &JsonValue, content: &str) -> (r: Option<InstanceInfo>)
    requires
        loader_in_bounds(*json, content@),
    ensures
        info_view(r) == spec_instance_info(*json, content@),
{
    let text = chars_of(content);
    let v = extract_version_chars(json, &text);
    if v.len() == 0 {
        return None;
    }
    let name = normalize_version_chars(&v);
    let loader = detect_loader_chars(&text, json);
    let (l, lv) = match loader {
        Some((t, ver)) => (
            Some(string_of(&t)),
            match ver {
                Some(x) => Some(string_of(&x)),
                None => None,
            },
        ),
        None => (None, None),
    };
    Some(InstanceInfo { vanilla_name: string_of(&name), loader: l, loader_version: lv })
}

/// Whether the detection's loader lookup stays on character boundaries (see
/// [`loader_in_bounds`]).
pub fn loader_in_bounds_exec(json: &JsonValue, content: &Vec<char>) -> (r: bool)
    ensures
        r == loader_in_bounds(*json, content@),
{
    match loader_type_exec(content) {
        None => true,
        Some(t) => match get_str_exec(json, &chars_of("id")) {
            Some(id) => loader_id_in_bounds_exec(id, &t),
            None => true,
        },
    }
}

/// The detection of `detect` on the text of a version JSON: parses it, then
/// reads version and loader. `None` where the text is no JSON, where no
/// version is found, or where the loader keyword's byte offset in the
/// lowercased id is no char boundary of the id (where slicing the id would
/// panic).
pub fn detect_from_json(content: &str) -> (r: Option<InstanceInfo>)
    ensures
        match json_parse(content@) {
            None => r is None,
            Some(json) => if loader_in_bounds(json, content@) {
                info_view(r) == spec_instance_info(json, content@)
            } else {
                r is None
            },
        },
{
    let json = match parse_json(content) {
        Some(j) => j,
        None => return None,
    };
    if !loader_in_bounds_exec(&json, &chars_of(content)) {
        return None;
    }
    instance_info_from(&json, content)
}


/// Hash-like ids are skipped: an id that, trimmed, has 32 bytes or more and
/// no `.`, `-` or `_` gives no version.
pub proof fn lemma_hash_like_ids_skipped(id: Seq<char>)
    requires
        utf8_len(trim(id)) >= 32,
        !trim(id).contains('.'),
        !trim(id).contains('-'),
        !trim(id).contains('_'),
    ensures
        spec_version_from_id(id) is None,
{
}

/// An ASCII id is never cut inside a character: where the lowercased id is
/// the ASCII lowercasing of the id (which `to_lowercase` states of ASCII
/// text), the keyword's byte offset is a character boundary of the id.
pub proof fn lemma_ascii_ids_in_bounds(id: Seq<char>, t: Seq<char>)
    requires
        all_ascii(id),
        str_lowercase(id) == ascii_lowercase(id),
    ensures
        loader_id_in_bounds(id, t),
{
    if is_loader_name(t) {
        reveal_strlit("forge");
        reveal_strlit("neoforge");
        reveal_strlit("fabric");
        reveal_strlit("quilt");
        let lower = str_lowercase(id);
        assert(all_ascii(t));
        lemma_find_from_bounds(lower, t, 0);
        match find(lower, t) {
            None => {},
            Some(k) => {
                assert forall|i: int| 0 <= i < lower.len() implies #[trigger] is_ascii_char(
                    lower[i],
                ) by {
                    assert(is_ascii_char(id[i]));
                    assert(lower[i] == ascii_lower_char(id[i]));
                }
                let pre = lower.take(k);
                assert forall|i: int| 0 <= i < pre.len() implies #[trigger] is_ascii_char(
                    pre[i],
                ) by {
                    assert(pre[i] == lower[i]);
                }
                lemma_ascii_utf8_len(pre);
                lemma_ascii_utf8_len(t);
                let b = k + t.len();
                let idt = id.take(b);
                assert forall|i: int| 0 <= i < idt.len() implies #[trigger] is_ascii_char(
                    idt[i],
                ) by {
                    assert(idt[i] == id[i]);
                }
                lemma_ascii_utf8_len(idt);
                assert(utf8_len(id.take(b)) == b);
                assert(keyword_end_byte(id, t) == Some(b));
                assert(char_index_at_byte(id, b) is Some);
            },
        }
    }
}

/// The loader version that the instance id gives for loader `t`, if any.
pub open spec fn version_in_id(json: JsonValue, t: Seq<char>) -> Option<Seq<char>> {
    match get_str(json, "id"@) {
        Some(id) => spec_loader_version_from_id(id, t),
        None => None,
    }
}

/// The loader version: what the id gives, where it gives one; else, for each
/// loader, the text after its own library coordinate up to the next
/// terminator (for Forge, the part of that after its last `-`): Fabric
/// `net.fabricmc:fabric-loader:`, Quilt `org.quiltmc:quilt-loader:`,
/// NeoForge `net.neoforged:neoforge:`, Forge `minecraftforge:forge:`.
pub proof fn lemma_loader_version_sources(content: Seq<char>, json: JsonValue)
    ensures
        forall|t: Seq<char>|
            #[trigger] version_in_id(json, t) matches Some(v) ==> spec_loader_version(
                content,
                json,
                t,
            ) == Some(v),
        version_in_id(json, "fabric"@) is None ==> spec_loader_version(content, json, "fabric"@)
            == value_after(content, "net.fabricmc:fabric-loader:"@),
        version_in_id(json, "quilt"@) is None ==> spec_loader_version(content, json, "quilt"@)
            == value_after(content, "org.quiltmc:quilt-loader:"@),
        version_in_id(json, "neoforge"@) is None ==> spec_loader_version(
            content,
            json,
            "neoforge"@,
        ) == value_after(content, "net.neoforged:neoforge:"@),
        version_in_id(json, "forge"@) is None ==> spec_loader_version(content, json, "forge"@)
            == match value_after(content, "minecraftforge:forge:"@) {
            Some(ver) => Some(
                match rfind_char(ver, '-') {
                    Some(p) => ver.skip(p + 1),
                    None => ver,
                },
            ),
            None => None,
        },
{
    reveal_strlit("forge");
    reveal_strlit("neoforge");
    reveal_strlit("fabric");
    reveal_strlit("quilt");
}

/// Which loader the JSON text names: Fabric wherever the Fabric loader
/// coordinate occurs; else Quilt wherever the Quilt loader coordinate occurs;
/// else NeoForge wherever `net.neoforge` occurs; else Forge wherever
/// `minecraftforge` occurs; else none. The version is the loader's version.
pub proof fn lemma_detected_loader(content: Seq<char>, json: JsonValue)
    ensures
        contains(content, "net.fabricmc:fabric-loader"@) ==> spec_detect_loader(content, json)
            == Some(("fabric"@, spec_loader_version(content, json, "fabric"@))),
        !contains(content, "net.fabricmc:fabric-loader"@) && contains(
            content,
            "org.quiltmc:quilt-loader"@,
        ) ==> spec_detect_loader(content, json) == Some(
            ("quilt"@, spec_loader_version(content, json, "quilt"@)),
        ),
        !contains(content, "net.fabricmc:fabric-loader"@) && !contains(
            content,
            "org.quiltmc:quilt-loader"@,
        ) && contains(content, "net.neoforge"@) ==> spec_detect_loader(content, json) == Some(
            ("neoforge"@, spec_loader_version(content, json, "neoforge"@)),
        ),
        !contains(content, "net.fabricmc:fabric-loader"@) && !contains(
            content,
            "org.quiltmc:quilt-loader"@,
        ) && !contains(content, "net.neoforge"@) && contains(content, "minecraftforge"@)
            ==> spec_detect_loader(content, json) == Some(
            ("forge"@, spec_loader_version(content, json, "forge"@)),
        ),
        !contains(content, "net.fabricmc:fabric-loader"@) && !contains(
            content,
            "org.quiltmc:quilt-loader"@,
        ) && !contains(content, "net.neoforge"@) && !contains(content, "minecraftforge"@)
            ==> spec_detect_loader(content, json) is None,
{
}

} // verus!
