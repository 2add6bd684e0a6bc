//! Helpers of the files view: which files are DNGs, how a file's lens is
//! shown, and the row and the rule that a file's metadata makes.

use vstd::prelude::*;
use crate::json::{JsonModel, JsonValue, text_of};
use crate::keyed::{has_key, index_of, lemma_index_of, lookup};
use crate::lens::mapping::{LENS_MAP_FIELDS, LensMap, LensMapEntry, lens_map_fields};
use crate::lens::metadata::{fields_model, fields_model_of, is_first_match, match_metadata, no_rule_matched};
use crate::ordmap::{FieldMap, field_entries, fields_get, fields_insert, fields_new, rule_entries};
use crate::paths::{file_name, file_name_of, join_of, path_order_of, strip_prefix, strip_prefix_of};
use crate::text::{eq_ignore_ascii_case, same_ignoring_ascii_case};
use crate::views::files::delegate::{FileRow, RowStatus};

verus! {

broadcast use lemma_index_of;

/// The index of the last `.` in a text, or -1.
pub open spec fn last_dot(s: Seq<char>) -> int
    decreases s.len(),
{
    if s.len() == 0 {
        -1
    } else if s.last() == '.' {
        s.len() - 1
    } else {
        last_dot(s.drop_last())
    }
}

/// The extension of a path, as `Path::extension` documents it: none if
/// there is no file name; none if the file name has no `.`, or begins with
/// `.` and has no other; otherwise the part of the file name after the last
/// `.`.
pub open spec fn extension_of(path: Seq<char>) -> Option<Seq<char>> {
    match file_name_of(path) {
        None => None,
        Some(name) => if last_dot(name) <= 0 {
            None
        } else {
            Some(name.subrange(last_dot(name) + 1, name.len() as int))
        },
    }
}

/// The extension of a file name (see [`extension_of`]).
fn name_extension(name: &str) -> (r: Option<String>)
    ensures
        match r {
            Some(e) => last_dot(name@) > 0 && e@ == name@.subrange(last_dot(name@) + 1, name@.len() as int),
            None => last_dot(name@) <= 0,
        },
{
    let n = name.unicode_len();
    let mut i: usize = n;
    proof {
        assert(name@.subrange(0, n as int) =~= name@);
    }
    while i > 0
        invariant
            n == name@.len(),
            i <= n,
            last_dot(name@) == last_dot(name@.subrange(0, i as int)),
        decreases i,
    {
        proof {
            assert(name@.subrange(0, i - 1) =~= name@.subrange(0, i as int).drop_last());
        }
        if name.get_char(i - 1) == '.' {
            if i - 1 == 0 {
                return None;
            }
            return Some(name.substring_char(i, n).to_owned());
        }
        i = i - 1;
    }
    None
}

/// Whether a file name has the extension `dng`, in any case: the part after
/// its last `.`, when that `.` is not its first character.
pub fn has_dng_extension(name: &str) -> (r: bool)
    ensures
        r == (last_dot(name@) > 0 && same_ignoring_ascii_case(
            name@.subrange(last_dot(name@) + 1, name@.len() as int),
            "dng"@,
        )),
{
    match name_extension(name) {
        None => false,
        Some(ext) => eq_ignore_ascii_case(ext.as_str(), "dng"),
    }
}

/// Whether the path names a DNG file: its extension is `dng` in any case.
pub fn is_dng(path: &str) -> (r: bool)
    ensures
        r == (extension_of(path@) matches Some(e) && same_ignoring_ascii_case(e, "dng"@)),
{
    match file_name(path) {
        None => false,
        Some(name) => has_dng_extension(name.as_str()),
    }
}

/// The lens shown for a file: its model, or its make when there is no
/// model.
pub fn format_lens_display(make: &str, model: &str) -> (r: String)
    ensures
        r@ == if model@.len() == 0 {
            make@
        } else {
            model@
        },
{
    if model.unicode_len() == 0 {
        make.to_owned()
    } else {
        model.to_owned()
    }
}

/// The relative path: what is left of `abs` after the root was stripped
/// from it, or `abs` itself when it was not under the root.
pub fn relative_or_whole(abs: &str, stripped: Option<String>) -> (r: String)
    ensures
        r@ == match stripped {
            Some(rest) => rest@,
            None => abs@,
        },
{
    match stripped {
        Some(rest) => rest,
        None => abs.to_owned(),
    }
}

/// A path relative to `root`, or the path itself when it is not under
/// `root`. A path under `root` is given back by joining the relative path
/// onto `root`.
pub fn relativize(abs: &str, root: &str) -> (r: String)
    ensures
        r@ == match strip_prefix_of(abs@, root@) {
            Some(rest) => rest,
            None => abs@,
        },
        strip_prefix_of(abs@, root@) is Some ==> path_order_of(join_of(root@, r@), abs@) == 0,
{
    relative_or_whole(abs, strip_prefix(abs, root))
}

/// The row's rule is present, with the same fields as `entry`.
pub open spec fn same_rule(found: Option<LensMapEntry>, entry: LensMapEntry) -> bool {
    match found {
        Some(e) => field_entries(e.tomatch) == field_entries(entry.tomatch) && field_entries(e.modify)
            == field_entries(entry.modify),
        None => false,
    }
}

/// What a rule made from a file is named after: the lens model when the
/// file has one as a string, else "New rule".
pub open spec fn rule_base_name(meta: Seq<(String, JsonValue)>) -> Seq<char> {
    if lookup(meta, "LensModel"@) matches Some(v) && text_of(v@) is Some {
        text_field(meta, "LensModel"@)
    } else {
        "New rule"@
    }
}

/// The text a field holds in the metadata, or the empty text when the field
/// is missing or not a string.
pub open spec fn text_field(meta: Seq<(String, JsonValue)>, key: Seq<char>) -> Seq<char> {
    match lookup(meta, key) {
        Some(v) => match text_of(v@) {
            Some(t) => t,
            None => Seq::empty(),
        },
        None => Seq::empty(),
    }
}

/// The lens shown for a file with this metadata.
pub open spec fn lens_display(meta: Seq<(String, JsonValue)>) -> Seq<char> {
    if text_field(meta, "LensModel"@).len() == 0 {
        text_field(meta, "LensMake"@)
    } else {
        text_field(meta, "LensModel"@)
    }
}

/// The fields and values of a rule made from a file: each of `fields` that
/// the metadata has, in order, with its value.
pub open spec fn present_fields(fields: Seq<Seq<char>>, meta: Seq<(String, JsonValue)>) -> Seq<(Seq<char>, JsonModel)>
    decreases fields.len(),
{
    if fields.len() == 0 {
        Seq::empty()
    } else {
        let before = present_fields(fields.drop_last(), meta);
        match lookup(meta, fields.last()) {
            Some(v) => before.push((fields.last(), v@)),
            None => before,
        }
    }
}

/// The text a field holds, if it is present and a string.
fn text_of_field<'a>(metadata: &'a FieldMap, key: &str) -> (r: Option<&'a str>)
    ensures
        match r {
            Some(t) => lookup(field_entries(*metadata), key@) matches Some(v) && text_of(v@) == Some(t@),
            None => !(lookup(field_entries(*metadata), key@) matches Some(v) && text_of(v@) is Some),
        },
{
    match fields_get(metadata, key) {
        Some(v) => v.as_str(),
        None => None,
    }
}

/// A row for a file that could not be read.
pub fn error_row(rel: String, abs: String, err: String) -> (r: FileRow)
    ensures
        r.rel_path == rel,
        r.abs_path == abs,
        r.current_lens@.len() == 0,
        r.matched_rule is None,
        r.matched_entry is None,
        r.error == Some(err),
        !r.selected,
        r.status is Pending,
{
    FileRow {
        rel_path: rel,
        abs_path: abs,
        current_lens: String::new(),
        matched_rule: None,
        matched_entry: None,
        error: Some(err),
        selected: false,
        status: RowStatus::Pending,
    }
}

/// The row for a file, from what reading its metadata gave: an error row
/// when the read failed; otherwise its lens, and the first rule that
/// matches it, if any, in which case the row is selected for applying.
/// `numeric` compares two values as numbers.
pub fn read_one<F: Fn(&JsonValue, &JsonValue) -> Option<bool>>(
    abs: &str,
    rel: String,
    lens_map: &LensMap,
    metadata: Result<FieldMap, String>,
    numeric: &F,
) -> (r: FileRow)
    requires
        forall|a: &JsonValue, b: &JsonValue| call_requires(*numeric, (a, b)),
    ensures
        r.rel_path == rel,
        r.abs_path@ == abs@,
        r.status is Pending,
        match metadata {
            Err(err) => {
                &&& r.error == Some(err)
                &&& r.current_lens@.len() == 0
                &&& r.matched_rule is None
                &&& r.matched_entry is None
                &&& !r.selected
            },
            Ok(m) => {
                let rules = rule_entries(*lens_map);
                let meta = field_entries(m);
                &&& r.error is None
                &&& r.current_lens@ == lens_display(meta)
                &&& r.selected == r.matched_rule is Some
                &&& match r.matched_rule {
                    Some(name) => exists|i: int|
                        is_first_match(rules, meta, *numeric, i) && name@ == rules[i].0@
                            && same_rule(r.matched_entry, rules[i].1),
                    None => no_rule_matched(rules, meta, *numeric) && r.matched_entry is None,
                }
            },
        },
{
    let metadata = match metadata {
        Ok(m) => m,
        Err(err) => return error_row(rel, abs.to_owned(), err),
    };
    proof {
        reveal_strlit("LensMake");
        reveal_strlit("LensModel");
        reveal_strlit("");
    }
    let make = match text_of_field(&metadata, "LensMake") {
        Some(t) => t,
        None => "",
    };
    let model = match text_of_field(&metadata, "LensModel") {
        Some(t) => t,
        None => "",
    };
    let current_lens = format_lens_display(make, model);
    let (matched_rule, matched_entry) = match match_metadata(lens_map, &metadata, numeric) {
        Some((name, entry)) => (Some(name.to_owned()), Some(entry.duplicate())),
        None => (None, None),
    };
    let selected = matched_rule.is_some();
    FileRow {
        rel_path: rel,
        abs_path: abs.to_owned(),
        current_lens,
        matched_rule,
        matched_entry,
        error: None,
        selected,
        status: RowStatus::Pending,
    }
}

/// A rule derived from a file's current lens metadata, named after its lens
/// model: it matches on each of [`LENS_MAP_FIELDS`] that the file has, and
/// modifies nothing yet. None when the file could not be read.
pub fn rule_from_file<E>(metadata: Result<FieldMap, E>) -> (r: Option<(String, LensMapEntry)>)
    ensures
        match metadata {
            Err(_) => r is None,
            Ok(m) => r matches Some((name, entry)) && name@ == "From "@ + rule_base_name(
                field_entries(m),
            ) && fields_model(entry.tomatch) == present_fields(lens_map_fields(), field_entries(m))
                && field_entries(entry.modify).len() == 0,
        },
{
    let metadata = match metadata {
        Ok(m) => m,
        Err(_) => return None,
    };
    let ghost meta = field_entries(metadata);
    let mut tomatch = fields_new();
    let mut i: usize = 0;
    proof {
        reveal_strlit("FocalLength");
        reveal_strlit("LensMake");
        reveal_strlit("LensModel");
        reveal_strlit("LensID");
        assert(lens_map_fields().subrange(0, 0) =~= Seq::<Seq<char>>::empty());
    }
    while i < 4
        invariant
            i <= 4,
            meta == field_entries(metadata),
            fields_model(tomatch) == present_fields(lens_map_fields().subrange(0, i as int), meta),
            forall|k: int| 0 <= k < field_entries(tomatch).len() ==> exists|j: int| 0 <= j < i && #[trigger] field_entries(tomatch)[k].0@ == lens_map_fields()[j],
        decreases 4 - i,
    {
        let field = LENS_MAP_FIELDS[i];
        assert(field@ == lens_map_fields()[i as int]);
        let ghost before = field_entries(tomatch);
        proof {
            assert(lens_map_fields().subrange(0, i + 1).drop_last() =~= lens_map_fields().subrange(0, i as int));
            assert(lens_map_fields().subrange(0, i + 1).last() == field@);
        }
        match fields_get(&metadata, field) {
            Some(v) => {
                proof {
                    assert forall|k: int| 0 <= k < before.len() implies before[k].0@ != field@ by {
                        let j = choose|j: int| 0 <= j < i && before[k].0@ == lens_map_fields()[j];
                        reveal_strlit("FocalLength");
                        reveal_strlit("LensMake");
                        reveal_strlit("LensModel");
                        reveal_strlit("LensID");
                        assert(lens_map_fields()[j].len() != lens_map_fields()[i as int].len());
                    }
                    assert(!has_key(before, field@));
                }
                fields_insert(&mut tomatch, field.to_owned(), v.duplicate());
                proof {
                    assert(fields_model(tomatch) =~= fields_model_of(before).push((field@, v@)));
                }
            },
            None => {},
        }
        i = i + 1;
    }
    proof {
        assert(lens_map_fields().subrange(0, 4) =~= lens_map_fields());
    }
    let model = match text_of_field(&metadata, "LensModel") {
        Some(t) => t,
        None => "New rule",
    };
    let mut name = "From ".to_owned();
    name.append(model);
    proof {
        reveal_strlit("From ");
        reveal_strlit("New rule");
    }
    Some((name, LensMapEntry { tomatch, modify: fields_new() }))
}

/// A file's lens is shown as its model whenever the file has a non-empty
/// string for it, whatever its make; otherwise as its make's string, or as
/// nothing.
pub proof fn lens_shown_is_the_model_first(meta: Seq<(String, JsonValue)>)
    ensures
        ({
            let model = match lookup(meta, "LensModel"@) {
                Some(JsonValue::Text(m)) => m@,
                _ => Seq::<char>::empty(),
            };
            let make = match lookup(meta, "LensMake"@) {
                Some(JsonValue::Text(m)) => m@,
                _ => Seq::<char>::empty(),
            };
            lens_display(meta) == if model.len() > 0 {
                model
            } else {
                make
            }
        }),
{
}

} // verus!
