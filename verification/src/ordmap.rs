//! The ordered maps of the `indexmap` crate that rules and metadata are kept
//! in, and the operations on them that this library calls. Each operation is
//! a thin call into `indexmap` whose contract states, over the map's pairs in
//! order, what the crate documents for it.

use vstd::prelude::*;
use indexmap::IndexMap;
use crate::json::JsonValue;
use crate::keyed::{has_key, index_of};
use crate::lens::mapping::LensMapEntry;

verus! {

#[verifier::external_type_specification]
#[verifier::external_body]
#[verifier::reject_recursive_types(K)]
#[verifier::reject_recursive_types(V)]
#[verifier::reject_recursive_types(S)]
pub struct ExIndexMap<K, V, S>(IndexMap<K, V, S>);

/// `IndexMap::clone`, as the derived `Clone` of a rule calls it. Nothing is
/// stated of the copy here; [`fields_clone`] states what verified code needs.
pub assume_specification<K: Clone, V: Clone, S: Clone>[<IndexMap<K, V, S> as Clone>::clone](
    m: &IndexMap<K, V, S>,
) -> IndexMap<K, V, S>;

/// Field name to value, in insertion order: the `match` and `modify` halves
/// of a rule, and the metadata read from a file.
pub type FieldMap = IndexMap<String, JsonValue>;

/// A field's name and value, borrowed from a map.
pub type FieldRef<'a> = (&'a String, &'a JsonValue);

/// A rule's name and rule, borrowed from a map.
pub type RuleRef<'a> = (&'a String, &'a LensMapEntry);

/// A rule taken out of a map: where it stood, its name, and the rule.
pub type RemovedRule = (usize, String, LensMapEntry);

/// The pairs of a [`FieldMap`], in the map's order.
pub uninterp spec fn field_entries(m: IndexMap<String, JsonValue>) -> Seq<(String, JsonValue)>;

/// The pairs of a map of rules, in the map's order.
pub uninterp spec fn rule_entries(m: IndexMap<String, LensMapEntry>) -> Seq<(String, LensMapEntry)>;

/// `IndexMap::new`: an empty map.
#[verifier::external_body]
pub(crate) fn fields_new() -> (r: FieldMap)
    ensures
        field_entries(r) == Seq::<(String, JsonValue)>::empty(),
{
    IndexMap::new()
}

/// `IndexMap::len`: the number of pairs.
#[verifier::external_body]
pub(crate) fn fields_len(m: &FieldMap) -> (r: usize)
    ensures
        r == field_entries(*m).len(),
{
    m.len()
}

/// `IndexMap::get_index`: the pair at position `i`, if there is one.
#[verifier::external_body]
pub(crate) fn fields_get_index(m: &FieldMap, i: usize) -> (r: Option<FieldRef<'_>>)
    ensures
        match r {
            Some(p) => i < field_entries(*m).len() && *p.0 == field_entries(*m)[i as int].0 && *p.1 == field_entries(
                *m,
            )[i as int].1,
            None => i >= field_entries(*m).len(),
        },
{
    m.get_index(i)
}

/// `IndexMap::get`: the value stored under `k`, if any.
#[verifier::external_body]
pub(crate) fn fields_get<'a>(m: &'a FieldMap, k: &str) -> (r: Option<&'a JsonValue>)
    ensures
        match r {
            Some(v) => has_key(field_entries(*m), k@) && *v == field_entries(*m)[index_of(
                field_entries(*m),
                k@,
            )].1,
            None => !has_key(field_entries(*m), k@),
        },
{
    m.get(k)
}

/// `IndexMap::insert`: an existing key keeps its place and takes the new
/// value; a new key is appended last.
#[verifier::external_body]
pub(crate) fn fields_insert(m: &mut FieldMap, key: String, value: JsonValue) -> (r: Option<JsonValue>)
    ensures
        ({
            let e = field_entries(*old(m));
            let i = index_of(e, key@);
            if i >= 0 {
                field_entries(*final(m)) == e.update(i, (e[i].0, value)) && r == Some(e[i].1)
            } else {
                field_entries(*final(m)) == e.push((key, value)) && r is None
            }
        }),
{
    m.insert(key, value)
}

/// `IndexMap::shift_remove`: the pair with key `k` is removed and the pairs
/// after it move up one place, keeping their order. A map holds each key
/// once, so the key is then gone from it.
#[verifier::external_body]
pub(crate) fn fields_shift_remove(m: &mut FieldMap, k: &str) -> (r: Option<JsonValue>)
    ensures
        ({
            let e = field_entries(*old(m));
            let i = index_of(e, k@);
            if i >= 0 {
                field_entries(*final(m)) == e.remove(i) && r == Some(e[i].1) && !has_key(
                    field_entries(*final(m)),
                    k@,
                )
            } else {
                field_entries(*final(m)) == e && r is None
            }
        }),
{
    m.shift_remove(k)
}

/// `IndexMap::clone`: a map with the same pairs in the same order.
#[verifier::external_body]
pub(crate) fn fields_clone(m: &FieldMap) -> (r: FieldMap)
    ensures
        field_entries(r) == field_entries(*m),
{
    m.clone()
}

/// `IndexMap::new`: an empty map of rules.
#[verifier::external_body]
pub(crate) fn rules_new() -> (r: IndexMap<String, LensMapEntry>)
    ensures
        rule_entries(r) == Seq::<(String, LensMapEntry)>::empty(),
{
    IndexMap::new()
}

/// `IndexMap::len`: the number of rules, each held under a name of its
/// own (a map holds each key once).
#[verifier::external_body]
pub(crate) fn rules_len(m: &IndexMap<String, LensMapEntry>) -> (r: usize)
    ensures
        r == rule_entries(*m).len(),
        forall|i: int, j: int|
            0 <= i < j < r ==> #[trigger] rule_entries(*m)[i].0@ != #[trigger] rule_entries(*m)[j].0@,
{
    m.len()
}

/// `IndexMap::get_index`: the rule at position `i`, if there is one.
#[verifier::external_body]
pub(crate) fn rules_get_index(m: &IndexMap<String, LensMapEntry>, i: usize) -> (r: Option<RuleRef<'_>>)
    ensures
        match r {
            Some(p) => i < rule_entries(*m).len() && *p.0 == rule_entries(*m)[i as int].0 && *p.1 == rule_entries(
                *m,
            )[i as int].1,
            None => i >= rule_entries(*m).len(),
        },
{
    m.get_index(i)
}

/// `IndexMap::get`: the rule stored under `k`, if any.
#[verifier::external_body]
pub(crate) fn rules_get<'a>(m: &'a IndexMap<String, LensMapEntry>, k: &str) -> (r: Option<&'a LensMapEntry>)
    ensures
        match r {
            Some(v) => has_key(rule_entries(*m), k@) && *v == rule_entries(*m)[index_of(
                rule_entries(*m),
                k@,
            )].1,
            None => !has_key(rule_entries(*m), k@),
        },
{
    m.get(k)
}

/// `IndexMap::contains_key`.
#[verifier::external_body]
pub(crate) fn rules_contains_key(m: &IndexMap<String, LensMapEntry>, k: &str) -> (r: bool)
    ensures
        r == has_key(rule_entries(*m), k@),
{
    m.contains_key(k)
}

/// `IndexMap::insert`: an existing name keeps its place and takes the new
/// rule; a new name is appended last.
#[verifier::external_body]
pub(crate) fn rules_insert(m: &mut IndexMap<String, LensMapEntry>, key: String, value: LensMapEntry) -> (r: Option<LensMapEntry>)
    ensures
        ({
            let e = rule_entries(*old(m));
            let i = index_of(e, key@);
            if i >= 0 {
                rule_entries(*final(m)) == e.update(i, (e[i].0, value)) && r == Some(e[i].1)
            } else {
                rule_entries(*final(m)) == e.push((key, value)) && r is None
            }
        }),
{
    m.insert(key, value)
}

/// `IndexMap::shift_remove_full`: the rule named `k` is removed, the rules
/// after it move up one place, and its position, name and rule come back.
/// A map holds each key once, so the name is then gone from it.
#[verifier::external_body]
pub(crate) fn rules_shift_remove_full(m: &mut IndexMap<String, LensMapEntry>, k: &str) -> (r: Option<RemovedRule>)
    ensures
        ({
            let e = rule_entries(*old(m));
            let i = index_of(e, k@);
            if i >= 0 {
                rule_entries(*final(m)) == e.remove(i) && r is Some && r.unwrap().0 as int == i
                    && r.unwrap().1 == e[i].0 && r.unwrap().2 == e[i].1
                    && !has_key(rule_entries(*final(m)), k@)
            } else {
                rule_entries(*final(m)) == e && r is None
            }
        }),
{
    m.shift_remove_full(k)
}

/// `IndexMap::shift_insert` of a name that is not in the map: the rule is
/// inserted exactly at `index`, and the rules from there on move down one
/// place. (The crate panics for an index past the end.)
#[verifier::external_body]
pub(crate) fn rules_shift_insert(m: &mut IndexMap<String, LensMapEntry>, index: usize, key: String, value: LensMapEntry) -> (r: Option<LensMapEntry>)
    requires
        !has_key(rule_entries(*old(m)), key@),
        index <= rule_entries(*old(m)).len(),
    ensures
        rule_entries(*final(m)) == rule_entries(*old(m)).insert(index as int, (key, value)),
        r is None,
{
    m.shift_insert(index, key, value)
}

} // verus!
