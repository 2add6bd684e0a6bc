//! Matching a file's metadata against the lens rules.

use vstd::prelude::*;
use crate::json::{JsonModel, JsonValue, display_text, same_json};
use crate::keyed::{
    has_key, index_of, index_of_model, insert_model, lemma_index_of, lemma_index_of_push,
    lemma_index_of_same_keys, lookup,
};
use crate::lens::mapping::{LensMap, LensMapEntry, json_to_string};
use crate::ordmap::{
    FieldMap, field_entries, fields_get, fields_get_index, fields_insert, fields_len, fields_new,
    rule_entries, rules_get_index, rules_len,
};

verus! {

broadcast use lemma_index_of;

/// How one metadata value compares with a rule's expected value, given
/// what the numeric comparison said: when both read as numbers
/// (`numeric` is `Some`), their closeness decides; otherwise the values must
/// be the same JSON value (two strings compare as strings).
pub open spec fn values_match(actual: JsonModel, expected: JsonModel, numeric: Option<bool>) -> bool {
    match numeric {
        Some(close) => close,
        None => same_json(actual, expected),
    }
}

/// Compare a metadata value with a rule's expected value. `numeric` is the
/// outcome of comparing the two as numbers: `Some(close)` when both read as
/// numbers, `None` otherwise.
pub fn compare_values(actual: &JsonValue, expected: &JsonValue, numeric: Option<bool>) -> (r: bool)
    ensures
        r == values_match(actual@, expected@, numeric),
{
    if let Some(close) = numeric {
        return close;
    }
    match (actual.as_str(), expected.as_str()) {
        (Some(a), Some(e)) => a.to_owned() == e.to_owned(),
        _ => actual.same_as(expected),
    }
}

/// The metadata has the field `key`, and comparing its value with
/// `expected` can come out as a match: `numeric` may answer so.
pub open spec fn field_holds<F: Fn(&JsonValue, &JsonValue) -> Option<bool>>(
    meta: Seq<(String, JsonValue)>,
    key: Seq<char>,
    expected: JsonValue,
    numeric: F,
) -> bool {
    has_key(meta, key) && exists|n: Option<bool>|
        call_ensures(numeric, (&meta[index_of(meta, key)].1, &expected), n) && values_match(
            meta[index_of(meta, key)].1@,
            expected@,
            n,
        )
}

/// The metadata lacks the field `key`, or comparing its value with
/// `expected` can come out as a mismatch.
pub open spec fn field_fails<F: Fn(&JsonValue, &JsonValue) -> Option<bool>>(
    meta: Seq<(String, JsonValue)>,
    key: Seq<char>,
    expected: JsonValue,
    numeric: F,
) -> bool {
    !has_key(meta, key) || exists|n: Option<bool>|
        call_ensures(numeric, (&meta[index_of(meta, key)].1, &expected), n) && !values_match(
            meta[index_of(meta, key)].1@,
            expected@,
            n,
        )
}

/// A rule with at least one `match` field, every one of which holds.
pub open spec fn rule_matched<F: Fn(&JsonValue, &JsonValue) -> Option<bool>>(
    entry: LensMapEntry,
    meta: Seq<(String, JsonValue)>,
    numeric: F,
) -> bool {
    let fields = field_entries(entry.tomatch);
    fields.len() > 0 && forall|k: int|
        0 <= k < fields.len() ==> #[trigger] field_holds(meta, fields[k].0@, fields[k].1, numeric)
}

/// A rule with no `match` field, or one with a field that fails.
pub open spec fn rule_rejected<F: Fn(&JsonValue, &JsonValue) -> Option<bool>>(
    entry: LensMapEntry,
    meta: Seq<(String, JsonValue)>,
    numeric: F,
) -> bool {
    let fields = field_entries(entry.tomatch);
    fields.len() == 0 || exists|k: int|
        0 <= k < fields.len() && #[trigger] field_fails(meta, fields[k].0@, fields[k].1, numeric)
}

/// Rule `i` matched and every rule before it was rejected.
pub open spec fn is_first_match<F: Fn(&JsonValue, &JsonValue) -> Option<bool>>(
    rules: Seq<(String, LensMapEntry)>,
    meta: Seq<(String, JsonValue)>,
    numeric: F,
    i: int,
) -> bool {
    &&& 0 <= i < rules.len()
    &&& rule_matched(rules[i].1, meta, numeric)
    &&& forall|j: int| 0 <= j < i ==> #[trigger] rule_rejected(rules[j].1, meta, numeric)
}

/// Every rule was rejected.
pub open spec fn no_rule_matched<F: Fn(&JsonValue, &JsonValue) -> Option<bool>>(
    rules: Seq<(String, LensMapEntry)>,
    meta: Seq<(String, JsonValue)>,
    numeric: F,
) -> bool {
    forall|j: int| 0 <= j < rules.len() ==> #[trigger] rule_rejected(rules[j].1, meta, numeric)
}

/// A rule without `match` fields matches no file, whatever its metadata
/// and however numbers compare.
pub proof fn empty_rule_matches_nothing<F: Fn(&JsonValue, &JsonValue) -> Option<bool>>(
    entry: LensMapEntry,
    meta: Seq<(String, JsonValue)>,
    numeric: F,
)
    requires
        field_entries(entry.tomatch).len() == 0,
    ensures
        !rule_matched(entry, meta, numeric),
        rule_rejected(entry, meta, numeric),
{
}

/// Whether every `match` field of the rule is present in the metadata and
/// matches it; a rule without `match` fields matches nothing.
pub fn rule_matches<F: Fn(&JsonValue, &JsonValue) -> Option<bool>>(
    entry: &LensMapEntry,
    metadata: &FieldMap,
    numeric: &F,
) -> (r: bool)
    requires
        forall|a: &JsonValue, b: &JsonValue| call_requires(*numeric, (a, b)),
    ensures
        r ==> rule_matched(*entry, field_entries(*metadata), *numeric),
        !r ==> rule_rejected(*entry, field_entries(*metadata), *numeric),
{
    let ghost meta = field_entries(*metadata);
    let ghost fields = field_entries(entry.tomatch);
    let n = fields_len(&entry.tomatch);
    if n == 0 {
        return false;
    }
    let mut k: usize = 0;
    while k < n
        invariant
            meta == field_entries(*metadata),
            fields == field_entries(entry.tomatch),
            n == fields.len(),
            k <= n,
            forall|a: &JsonValue, b: &JsonValue| call_requires(*numeric, (a, b)),
            forall|j: int| 0 <= j < k ==> #[trigger] field_holds(meta, fields[j].0@, fields[j].1, *numeric),
        decreases n - k,
    {
        let (key, expected) = fields_get_index(&entry.tomatch, k).unwrap();
        match fields_get(metadata, key.as_str()) {
            None => {
                assert(field_fails(meta, fields[k as int].0@, fields[k as int].1, *numeric));
                return false;
            },
            Some(actual) => {
                let outcome = numeric(actual, expected);
                if !compare_values(actual, expected, outcome) {
                    assert(field_fails(meta, fields[k as int].0@, fields[k as int].1, *numeric));
                    return false;
                }
                assert(field_holds(meta, fields[k as int].0@, fields[k as int].1, *numeric));
            },
        }
        k = k + 1;
    }
    true
}

/// Find the first lens rule whose `match` fields all match the image's
/// metadata. `numeric` compares two values as numbers (see
/// [`compare_values`]).
pub fn match_metadata<'a, F: Fn(&JsonValue, &JsonValue) -> Option<bool>>(
    lens_map: &'a LensMap,
    metadata: &FieldMap,
    numeric: &F,
) -> (r: Option<(&'a str, &'a LensMapEntry)>)
    requires
        forall|a: &JsonValue, b: &JsonValue| call_requires(*numeric, (a, b)),
    ensures
        match r {
            Some((name, entry)) => exists|i: int|
                is_first_match(rule_entries(*lens_map), field_entries(*metadata), *numeric, i)
                    && name@ == rule_entries(*lens_map)[i].0@ && *entry == rule_entries(
                    *lens_map,
                )[i].1,
            None => no_rule_matched(rule_entries(*lens_map), field_entries(*metadata), *numeric),
        },
{
    let ghost rules = rule_entries(*lens_map);
    let ghost meta = field_entries(*metadata);
    let n = rules_len(lens_map);
    let mut i: usize = 0;
    while i < n
        invariant
            rules == rule_entries(*lens_map),
            meta == field_entries(*metadata),
            n == rules.len(),
            i <= n,
            forall|a: &JsonValue, b: &JsonValue| call_requires(*numeric, (a, b)),
            forall|j: int| 0 <= j < i ==> #[trigger] rule_rejected(rules[j].1, meta, *numeric),
        decreases n - i,
    {
        let (name, entry) = rules_get_index(lens_map, i).unwrap();
        if rule_matches(entry, metadata, numeric) {
            assert(is_first_match(rules, meta, *numeric, i as int));
            return Some((name.as_str(), entry));
        }
        i = i + 1;
    }
    None
}

/// Pairs of names and values as models.
pub open spec fn fields_model_of(s: Seq<(String, JsonValue)>) -> Seq<(Seq<char>, JsonModel)> {
    s.map_values(|p: (String, JsonValue)| (p.0@, p.1@))
}

/// The pairs of a field map as models.
pub open spec fn fields_model(m: FieldMap) -> Seq<(Seq<char>, JsonModel)> {
    fields_model_of(field_entries(m))
}

/// Names are found at the same place in pairs and in their models.
proof fn lemma_index_of_fields(s: Seq<(String, JsonValue)>, k: Seq<char>)
    ensures
        index_of(s, k) == index_of_model(fields_model_of(s), k),
    decreases s.len(),
{
    if s.len() > 0 {
        assert(fields_model_of(s).drop_last() =~= fields_model_of(s.drop_last()));
        lemma_index_of_fields(s.drop_last(), k);
    }
}

/// The metadata that a list of tags makes, as pairs in order: each tag
/// name where it first came, with the printed value of its last tag, as a
/// string.
pub open spec fn tags_model(tags: Seq<(String, String)>) -> Seq<(Seq<char>, JsonModel)>
    decreases tags.len(),
{
    if tags.len() == 0 {
        Seq::empty()
    } else {
        insert_model(tags_model(tags.drop_last()), tags.last().0@, JsonModel::Text(tags.last().1@))
    }
}

/// The metadata that a list of tags makes, each tag's printed value as a
/// string; a tag that comes again replaces the earlier value.
pub open spec fn tags_lookup(tags: Seq<(String, String)>, k: Seq<char>) -> Option<JsonModel>
    decreases tags.len(),
{
    if tags.len() == 0 {
        None
    } else if tags.last().0@ == k {
        Some(JsonModel::Text(tags.last().1@))
    } else {
        tags_lookup(tags.drop_last(), k)
    }
}

/// The value a map holds under `k`, as a model.
pub open spec fn lookup_model(s: Seq<(String, JsonValue)>, k: Seq<char>) -> Option<JsonModel> {
    match lookup(s, k) {
        Some(v) => Some(v@),
        None => None,
    }
}

/// The metadata of a file from its tags: each tag's name with its printed
/// value, as a string.
pub fn metadata_from_tags(tags: Vec<(String, String)>) -> (r: FieldMap)
    ensures
        fields_model(r) == tags_model(tags@),
        forall|k: Seq<char>| #[trigger] lookup_model(field_entries(r), k) == tags_lookup(tags@, k),
{
    let mut m = fields_new();
    let n = tags.len();
    let mut i: usize = 0;
    while i < n
        invariant
            n == tags.len(),
            i <= n,
            forall|k: Seq<char>|
                #[trigger] lookup_model(field_entries(m), k) == tags_lookup(tags@.subrange(0, i as int), k),
            fields_model(m) == tags_model(tags@.subrange(0, i as int)),
        decreases n - i,
    {
        let name = tags[i].0.clone();
        let print_value = tags[i].1.clone();
        let ghost before = field_entries(m);
        let ghost pre = tags@.subrange(0, i as int);
        let ghost key = name@;
        let ghost text = print_value@;
        proof {
            lemma_index_of_fields(before, key);
        }
        fields_insert(&mut m, name, JsonValue::Text(print_value));
        proof {
            let after = field_entries(m);
            assert(tags@.subrange(0, i + 1).drop_last() =~= pre);
            if index_of(before, key) >= 0 {
                assert(fields_model_of(after) =~= fields_model_of(before).update(
                    index_of(before, key),
                    (key, JsonModel::Text(text)),
                ));
            } else {
                assert(fields_model_of(after) =~= fields_model_of(before).push(
                    (key, JsonModel::Text(text)),
                ));
            }
            let now = tags@.subrange(0, i + 1);
            assert(now.last().0@ == key && now.last().1@ == text);
            assert forall|k: Seq<char>| #[trigger]
                lookup_model(after, k) == tags_lookup(now, k) by {
                assert(tags_lookup(now, k) == if k == key {
                    Some(JsonModel::Text(text))
                } else {
                    tags_lookup(pre, k)
                });
                assert(lookup_model(before, k) == tags_lookup(pre, k));
                if index_of(before, key) >= 0 {
                    let p = index_of(before, key);
                    assert(after == before.update(p, (before[p].0, JsonValue::Text(print_value))));
                    lemma_index_of_same_keys(before, after, k);
                    if k == key {
                        assert(index_of(after, k) == p);
                    } else {
                        let q = index_of(before, k);
                        if q >= 0 {
                            assert(q != p);
                            assert(after[q] == before[q]);
                        }
                    }
                } else {
                    let last = (name, JsonValue::Text(print_value));
                    assert(after == before.push(last));
                    lemma_index_of_push(before, last, k);
                    let q = index_of(before, k);
                    if q >= 0 {
                        assert(after[q] == before[q]);
                    }
                }
            }
        }
        i = i + 1;
    }
    proof {
        assert(tags@.subrange(0, n as int) =~= tags@);
    }
    m
}

/// The tags to write for a rule: each `modify` field, in order, with its
/// value as plain text.
pub fn tag_values(entry: &LensMapEntry) -> (r: Vec<(String, String)>)
    ensures
        r@.len() == field_entries(entry.modify).len(),
        forall|i: int|
            0 <= i < r@.len() ==> (#[trigger] r@[i]).0@ == field_entries(entry.modify)[i].0@ && r@[i].1@
                == display_text(field_entries(entry.modify)[i].1@),
{
    let n = fields_len(&entry.modify);
    let mut out: Vec<(String, String)> = Vec::new();
    let mut i: usize = 0;
    while i < n
        invariant
            n == field_entries(entry.modify).len(),
            i <= n,
            out@.len() == i,
            forall|j: int|
                0 <= j < i ==> (#[trigger] out@[j]).0@ == field_entries(entry.modify)[j].0@ && out@[j].1@
                    == display_text(field_entries(entry.modify)[j].1@),
        decreases n - i,
    {
        let (key, value) = fields_get_index(&entry.modify, i).unwrap();
        out.push((key.clone(), json_to_string(value)));
        i = i + 1;
    }
    out
}

/// The backup of a file: its path with `_original` appended.
pub fn backup_path(path: &str) -> (r: String)
    ensures
        r@ == path@ + "_original"@,
{
    let mut b = path.to_owned();
    b.append("_original");
    b
}

/// Where to copy a file before writing to it, if anywhere: its backup path,
/// when a backup is wanted and none exists yet. An existing backup is never
/// overwritten, so the first one made keeps the untouched original.
pub fn backup_target(path: &str, with_backup: bool, backup_exists: bool) -> (r: Option<String>)
    ensures
        r is Some == (with_backup && !backup_exists),
        r matches Some(b) ==> b@ == path@ + "_original"@,
{
    if with_backup && !backup_exists {
        Some(backup_path(path))
    } else {
        None
    }
}

/// Without a numeric outcome, two strings match exactly when their texts
/// are equal: neither a beginning nor any other near miss matches. A numeric
/// outcome, when there is one, decides alone.
pub proof fn strings_match_only_when_equal(x: Seq<char>, y: Seq<char>, close: bool)
    ensures
        values_match(JsonModel::Text(x), JsonModel::Text(y), None) == (x == y),
        values_match(JsonModel::Text(x), JsonModel::Text(y), Some(close)) == close,
{
}

} // verus!
