//! The editor of one lens rule: its name, and the fields of its `match` and
//! `modify` halves, each a row of two inputs. Edits reach the store when
//! they are committed.

use vstd::prelude::*;
use crate::json::{JsonModel, JsonValue, display_text};
use crate::keyed::{
    has_key, index_of, index_of_model, insert_model, lemma_index_of, lemma_index_of_model,
    lemma_index_of_same_keys, pairs_model,
};
use crate::lens::mapping::{LensMapEntry, json_to_string};
use crate::lens::store::LensStore;
use crate::ordmap::{
    FieldMap, field_entries, fields_get_index, fields_insert, fields_len, fields_new,
    fields_shift_remove, rule_entries, rules_get,
};

verus! {

broadcast use lemma_index_of;

/// The two halves of a rule.
#[derive(Copy, Clone, PartialEq, Eq, Debug, Structural)]
pub enum Pane {
    Match,
    Modify,
}

/// One editable row: the texts of its two inputs, and the key it has in the
/// store (none for a row not yet committed).
#[derive(Clone, Debug)]
pub struct FieldRow {
    pub name: String,
    pub value: String,
    pub committed_key: Option<String>,
}

/// What the editor tells the view that holds it.
#[derive(Clone, Debug, PartialEq, Eq)]
pub enum LensRuleEditorEvent {
    Renamed { from: String, to: String },
}

/// The editor of the rule `rule_name`.
pub struct LensRuleEditor {
    pub rule_name: String,
    pub name_input: String,
    pub name_error: Option<String>,
    pub match_rows: Vec<FieldRow>,
    pub modify_rows: Vec<FieldRow>,
}

/// A value as the model of the JSON it is.
pub open spec fn value_model(v: JsonValue) -> JsonModel {
    v@
}

/// The pairs of a field map as models.
pub open spec fn fields_of(m: FieldMap) -> Seq<(Seq<char>, JsonModel)> {
    pairs_model(field_entries(m), |v: JsonValue| value_model(v))
}

/// A rule as the models of its two halves.
pub open spec fn entry_model(e: LensMapEntry) -> (Seq<(Seq<char>, JsonModel)>, Seq<(Seq<char>, JsonModel)>) {
    (fields_of(e.tomatch), fields_of(e.modify))
}

/// The rules of a store as models: each name with its two halves.
pub open spec fn rules_model(s: Seq<(String, LensMapEntry)>) -> Seq<(Seq<char>, (Seq<(Seq<char>, JsonModel)>, Seq<(Seq<char>, JsonModel)>))> {
    pairs_model(s, |e: LensMapEntry| entry_model(e))
}

/// The fields that a pane's rows make: each row with a name gives its value
/// as a string, in order; a name that comes again takes the later value in
/// the earlier place.
pub open spec fn collect_rows(rows: Seq<FieldRow>) -> Seq<(Seq<char>, JsonModel)>
    decreases rows.len(),
{
    if rows.len() == 0 {
        Seq::empty()
    } else {
        let before = collect_rows(rows.drop_last());
        if rows.last().name@.len() == 0 {
            before
        } else {
            insert_model(before, rows.last().name@, JsonModel::Text(rows.last().value@))
        }
    }
}

/// The row shows the field: its name, its value as text, and the field's
/// key as the committed key.
pub open spec fn row_shows(row: FieldRow, field: (String, JsonValue)) -> bool {
    row.name@ == field.0@ && row.value@ == display_text(field.1@) && committed_of(row) == Some(
        field.0@,
    )
}

/// The rows that the fields of a rule's half make: one per field, with its
/// name, its value as text, and the field's key as the committed key.
pub open spec fn rows_show_fields(rows: Seq<FieldRow>, fields: Seq<(String, JsonValue)>) -> bool {
    &&& rows.len() == fields.len()
    &&& forall|i: int|
        0 <= i < rows.len() ==> row_shows(#[trigger] rows[i], fields[i])
}

/// The rule that an editor of `name` opens with: the stored one, or an
/// empty one.
pub open spec fn opened_rule(store: Seq<(String, LensMapEntry)>, name: Seq<char>) -> (Seq<(String, JsonValue)>, Seq<(String, JsonValue)>) {
    if has_key(store, name) {
        (
            field_entries(store[index_of(store, name)].1.tomatch),
            field_entries(store[index_of(store, name)].1.modify),
        )
    } else {
        (Seq::empty(), Seq::empty())
    }
}

/// The committed key a row has after a commit: its name, if it has one.
pub open spec fn committed_after(row: FieldRow) -> Option<Seq<char>> {
    if row.name@.len() == 0 {
        None
    } else {
        Some(row.name@)
    }
}

/// The row's committed key, as text.
pub open spec fn committed_of(row: FieldRow) -> Option<Seq<char>> {
    match row.committed_key {
        Some(k) => Some(k@),
        None => None,
    }
}

/// The text of an error shown, if any.
pub open spec fn error_text(e: Option<String>) -> Option<Seq<char>> {
    match e {
        Some(m) => Some(m@),
        None => None,
    }
}

/// The message shown when the name typed is taken by another rule.
pub open spec fn taken_name_message(name: Seq<char>) -> Seq<char> {
    "A rule named \""@ + name + "\" already exists."@
}

/// The rows made for the fields of a map, in order.
fn rows_from_fields(m: &FieldMap) -> (r: Vec<FieldRow>)
    ensures
        rows_show_fields(r@, field_entries(*m)),
{
    let n = fields_len(m);
    let mut rows: Vec<FieldRow> = Vec::new();
    let mut i: usize = 0;
    while i < n
        invariant
            n == field_entries(*m).len(),
            i <= n,
            rows@.len() == i,
            forall|j: int|
                0 <= j < i ==> row_shows(#[trigger] rows@[j], field_entries(*m)[j]),
        decreases n - i,
    {
        let (key, value) = fields_get_index(m, i).unwrap();
        rows.push(FieldRow { name: key.clone(), value: json_to_string(value), committed_key: Some(key.clone()) });
        i = i + 1;
    }
    rows
}

/// The fields that rows make (see [`collect_rows`]).
fn collect(rows: &Vec<FieldRow>) -> (r: FieldMap)
    ensures
        fields_of(r) == collect_rows(rows@),
{
    let mut map = fields_new();
    let n = rows.len();
    let mut i: usize = 0;
    while i < n
        invariant
            n == rows@.len(),
            i <= n,
            fields_of(map) == collect_rows(rows@.subrange(0, i as int)),
        decreases n - i,
    {
        proof {
            assert(rows@.subrange(0, i + 1).drop_last() =~= rows@.subrange(0, i as int));
            assert(rows@.subrange(0, i + 1).last() == rows@[i as int]);
        }
        let row = &rows[i];
        if !row.name.as_str().is_empty() {
            let ghost before = field_entries(map);
            let key = row.name.clone();
            let value = JsonValue::Text(row.value.clone());
            proof {
                lemma_index_of_model(before, |v: JsonValue| value_model(v), key@);
            }
            fields_insert(&mut map, key, value);
            proof {
                let after = field_entries(map);
                let f = |v: JsonValue| value_model(v);
                if index_of(before, key@) >= 0 {
                    assert(pairs_model(after, f) =~= pairs_model(before, f).update(
                        index_of(before, key@),
                        (key@, JsonModel::Text(rows@[i as int].value@)),
                    ));
                } else {
                    assert(pairs_model(after, f) =~= pairs_model(before, f).push(
                        (key@, JsonModel::Text(rows@[i as int].value@)),
                    ));
                }
            }
        }
        i = i + 1;
    }
    proof {
        assert(rows@.subrange(0, n as int) =~= rows@);
    }
    map
}

/// The pairs with the key `k` taken out, as `shift_remove` leaves them.
pub open spec fn remove_model<V>(s: Seq<(Seq<char>, V)>, k: Seq<char>) -> Seq<(Seq<char>, V)> {
    if index_of_model(s, k) >= 0 {
        s.remove(index_of_model(s, k))
    } else {
        s
    }
}

/// A rule's halves with the field `k` taken out of one of them.
pub open spec fn remove_from_pane(
    halves: (Seq<(Seq<char>, JsonModel)>, Seq<(Seq<char>, JsonModel)>),
    pane: Pane,
    k: Seq<char>,
) -> (Seq<(Seq<char>, JsonModel)>, Seq<(Seq<char>, JsonModel)>) {
    match pane {
        Pane::Match => (remove_model(halves.0, k), halves.1),
        Pane::Modify => (halves.0, remove_model(halves.1, k)),
    }
}

/// The event says the rule was renamed from `from` to `to`.
pub open spec fn is_rename_event(r: Option<LensRuleEditorEvent>, from: Seq<char>, to: Seq<char>) -> bool {
    match r {
        Some(LensRuleEditorEvent::Renamed { from: f, to: t }) => f@ == from && t@ == to,
        None => false,
    }
}

/// The rows keep their texts, and each row's committed key becomes its name
/// (none for a row without one).
pub open spec fn rows_recommitted(before: Seq<FieldRow>, after: Seq<FieldRow>) -> bool {
    &&& after.len() == before.len()
    &&& forall|i: int|
        0 <= i < after.len() ==> #[trigger] after[i].name == before[i].name && after[i].value
            == before[i].value && committed_of(after[i]) == committed_after(before[i])
}

/// Taking a key out of a field map takes it out of the pairs' models.
proof fn lemma_remove_model(before: Seq<(String, JsonValue)>, after: Seq<(String, JsonValue)>, k: Seq<char>)
    requires
        index_of(before, k) >= 0 ==> after == before.remove(index_of(before, k)),
        index_of(before, k) < 0 ==> after == before,
    ensures
        pairs_model(after, |v: JsonValue| value_model(v)) == remove_model(
            pairs_model(before, |v: JsonValue| value_model(v)),
            k,
        ),
{
    let f = |v: JsonValue| value_model(v);
    lemma_index_of_model(before, f, k);
    if index_of(before, k) >= 0 {
        assert(pairs_model(after, f) =~= pairs_model(before, f).remove(index_of(before, k)));
    }
}

/// Make each row's committed key its name.
fn recommit(rows: &mut Vec<FieldRow>)
    ensures
        rows_recommitted(old(rows)@, final(rows)@),
{
    let ghost before = rows@;
    let n = rows.len();
    let mut i: usize = 0;
    while i < n
        invariant
            n == rows@.len(),
            n == before.len(),
            i <= n,
            forall|j: int|
                0 <= j < i ==> #[trigger] rows@[j].name == before[j].name && rows@[j].value == before[j].value
                    && committed_of(rows@[j]) == committed_after(before[j]),
            forall|j: int| i <= j < n ==> #[trigger] rows@[j] == before[j],
        decreases n - i,
    {
        let row = &mut rows[i];
        if row.name.as_str().is_empty() {
            row.committed_key = None;
        } else {
            row.committed_key = Some(row.name.clone());
        }
        i = i + 1;
    }
}

impl LensRuleEditor {
    /// The rows of a pane.
    pub open spec fn rows_of(&self, pane: Pane) -> Seq<FieldRow> {
        match pane {
            Pane::Match => self.match_rows@,
            Pane::Modify => self.modify_rows@,
        }
    }

    /// An editor of the rule `rule_name` as the store holds it (an empty
    /// rule if there is none), with no error shown.
    pub fn new(rule_name: String, store: &LensStore) -> (r: LensRuleEditor)
        ensures
            r.rule_name == rule_name,
            r.name_input@ == rule_name@,
            r.name_error is None,
            rows_show_fields(r.match_rows@, opened_rule(store.entries(), rule_name@).0),
            rows_show_fields(r.modify_rows@, opened_rule(store.entries(), rule_name@).1),
    {
        let (match_rows, modify_rows) = match rules_get(store.rules(), rule_name.as_str()) {
            Some(entry) => (rows_from_fields(&entry.tomatch), rows_from_fields(&entry.modify)),
            None => (Vec::new(), Vec::new()),
        };
        let name_input = rule_name.clone();
        LensRuleEditor { rule_name, name_input, name_error: None, match_rows, modify_rows }
    }

    /// Set the text of the name input.
    pub fn set_name_input(&mut self, text: String)
        ensures
            final(self).name_input == text,
            final(self).rule_name == old(self).rule_name,
            final(self).name_error == old(self).name_error,
            final(self).match_rows@ == old(self).match_rows@,
            final(self).modify_rows@ == old(self).modify_rows@,
    {
        self.name_input = text;
    }

    /// Set the texts of the row at `index` of a pane, if there is one.
    pub fn set_field(&mut self, pane: Pane, index: usize, name: String, value: String)
        ensures
            final(self).rows_of(pane) == if index < old(self).rows_of(pane).len() {
                old(self).rows_of(pane).update(
                    index as int,
                    FieldRow { name: name, value: value, committed_key: old(self).rows_of(pane)[index as int].committed_key },
                )
            } else {
                old(self).rows_of(pane)
            },
            pane == Pane::Match ==> final(self).modify_rows@ == old(self).modify_rows@,
            pane == Pane::Modify ==> final(self).match_rows@ == old(self).match_rows@,
            final(self).rule_name == old(self).rule_name,
            final(self).name_input == old(self).name_input,
            final(self).name_error == old(self).name_error,
    {
        let rows = match pane {
            Pane::Match => &mut self.match_rows,
            Pane::Modify => &mut self.modify_rows,
        };
        if index < rows.len() {
            let row = &mut rows[index];
            row.name = name;
            row.value = value;
        }
    }

    /// Delete the row at `index` of a pane, if there is one. A row that was
    /// committed takes its field out of the rule in the store too.
    pub fn delete_row(&mut self, pane: Pane, index: usize, store: &mut LensStore)
        ensures
            final(self).rule_name == old(self).rule_name,
            final(self).name_input == old(self).name_input,
            final(self).name_error == old(self).name_error,
            pane == Pane::Match ==> final(self).modify_rows@ == old(self).modify_rows@,
            pane == Pane::Modify ==> final(self).match_rows@ == old(self).match_rows@,
            final(store).file() == old(store).file(),
            ({
                let rows = old(self).rows_of(pane);
                let e = old(store).entries();
                let i = index_of(e, old(self).rule_name@);
                if index < rows.len() {
                    &&& final(self).rows_of(pane) == rows.remove(index as int)
                    &&& match committed_of(rows[index as int]) {
                        Some(k) => if i >= 0 {
                            &&& rules_model(final(store).entries()) == rules_model(e).update(
                                i,
                                (old(self).rule_name@, remove_from_pane(entry_model(e[i].1), pane, k)),
                            )
                            &&& final(store).unsaved()
                        } else {
                            final(store).entries() == e && final(store).unsaved() == old(store).unsaved()
                        },
                        None => final(store).entries() == e && final(store).unsaved() == old(
                            store,
                        ).unsaved(),
                    }
                } else {
                    final(self).rows_of(pane) == rows && final(store).entries() == e
                        && final(store).unsaved() == old(store).unsaved()
                }
            }),
    {
        let ghost e = store.entries();
        let rows = match pane {
            Pane::Match => &mut self.match_rows,
            Pane::Modify => &mut self.modify_rows,
        };
        if index >= rows.len() {
            return;
        }
        let row = rows.remove(index);
        if let Some(key) = row.committed_key {
            let ghost k = key@;
            let take_out = move |entry: LensMapEntry| -> (r: LensMapEntry)
                ensures
                    entry_model(r) == remove_from_pane(entry_model(entry), pane, k),
                {
                    let mut edited = entry;
                    match pane {
                        Pane::Match => {
                            let ghost before = field_entries(edited.tomatch);
                            fields_shift_remove(&mut edited.tomatch, key.as_str());
                            proof {
                                lemma_remove_model(before, field_entries(edited.tomatch), k);
                            }
                        },
                        Pane::Modify => {
                            let ghost before = field_entries(edited.modify);
                            fields_shift_remove(&mut edited.modify, key.as_str());
                            proof {
                                lemma_remove_model(before, field_entries(edited.modify), k);
                            }
                        },
                    }
                    edited
                };
            let ghost name = self.rule_name@;
            let found = store.update(self.rule_name.as_str(), take_out);
            proof {
                if found {
                    let i = index_of(e, name);
                    let edited = choose|edited: LensMapEntry|
                        call_ensures(take_out, (e[i].1,), edited) && store.entries() == e.update(
                            i,
                            (e[i].0, edited),
                        );
                    assert(rules_model(store.entries()) =~= rules_model(e).update(
                        i,
                        (name, remove_from_pane(entry_model(e[i].1), pane, k)),
                    ));
                }
            }
        }
    }

    /// Write the panes into the store's rule, then rename the rule if the
    /// name typed is new and not empty. A rename to a name another rule has
    /// is refused: the error is shown and the name input put back. Each row's
    /// committed key becomes its name. Returns the event of a rename.
    pub fn commit(&mut self, store: &mut LensStore) -> (r: Option<LensRuleEditorEvent>)
        ensures
            ({
                let e = old(store).entries();
                let oldn = old(self).rule_name@;
                let newn = old(self).name_input@;
                let wants = newn != oldn && newn.len() > 0;
                let i = index_of(e, oldn);
                let halves = (collect_rows(old(self).match_rows@), collect_rows(old(self).modify_rows@));
                let updated = if i >= 0 {
                    rules_model(e).update(i, (oldn, halves))
                } else {
                    rules_model(e)
                };
                let renamed = wants && i >= 0 && !has_key(e, newn);
                &&& rules_model(final(store).entries()) == if renamed {
                    updated.update(i, (newn, halves))
                } else {
                    updated
                }
                &&& i >= 0 ==> final(store).unsaved()
                &&& i < 0 ==> final(store).unsaved() == old(store).unsaved()
                &&& renamed ==> is_rename_event(r, oldn, newn) && final(self).rule_name@ == newn
                    && final(self).name_error is None && final(self).name_input == old(self).name_input
                &&& !renamed ==> r is None && final(self).rule_name == old(self).rule_name
                &&& (wants && !renamed) ==> error_text(final(self).name_error) == Some(
                    taken_name_message(newn),
                ) && final(self).name_input@ == oldn
                &&& !wants ==> final(self).name_error is None && final(self).name_input == old(
                    self,
                ).name_input
            }),
            rows_recommitted(old(self).match_rows@, final(self).match_rows@),
            rows_recommitted(old(self).modify_rows@, final(self).modify_rows@),
            final(store).file() == old(store).file(),
    {
        let ghost e = store.entries();
        let new_name = self.name_input.clone();
        let match_map = collect(&self.match_rows);
        let modify_map = collect(&self.modify_rows);
        let ghost halves = (fields_of(match_map), fields_of(modify_map));
        let old_name = self.rule_name.clone();
        let wants_rename = !(new_name == old_name) && !new_name.as_str().is_empty();
        let replace = move |entry: LensMapEntry| -> (r: LensMapEntry)
            ensures
                entry_model(r) == halves,
            { LensMapEntry { tomatch: match_map, modify: modify_map } };
        let found = store.update(old_name.as_str(), replace);
        let ghost u = store.entries();
        proof {
            let i = index_of(e, old_name@);
            if found {
                let edited = choose|edited: LensMapEntry|
                    call_ensures(replace, (e[i].1,), edited) && u == e.update(i, (e[i].0, edited));
                assert(rules_model(u) =~= rules_model(e).update(i, (old_name@, halves)));
                lemma_index_of_same_keys(e, u, new_name@);
                lemma_index_of_same_keys(e, u, old_name@);
            } else {
                assert(u == e);
            }
        }
        let renamed = wants_rename && store.rename(old_name.as_str(), new_name.clone());
        proof {
            let i = index_of(e, old_name@);
            if renamed {
                assert(rules_model(store.entries()) =~= rules_model(u).update(i, (new_name@, halves)));
            }
        }
        let event = if renamed {
            self.rule_name = new_name.clone();
            self.name_error = None;
            Some(LensRuleEditorEvent::Renamed { from: old_name, to: new_name })
        } else if wants_rename {
            let mut message = "A rule named \"".to_owned();
            message.append(new_name.as_str());
            message.append("\" already exists.");
            proof {
                reveal_strlit("A rule named \"");
                reveal_strlit("\" already exists.");
            }
            self.name_error = Some(message);
            self.name_input = old_name;
            None
        } else {
            self.name_error = None;
            None
        };
        recommit(&mut self.match_rows);
        recommit(&mut self.modify_rows);
        event
    }

    /// Add an empty, uncommitted row to a pane.
    pub fn add_row(&mut self, pane: Pane)
        ensures
            final(self).rows_of(pane).len() == old(self).rows_of(pane).len() + 1,
            final(self).rows_of(pane).drop_last() == old(self).rows_of(pane),
            final(self).rows_of(pane).last().name@.len() == 0,
            final(self).rows_of(pane).last().value@.len() == 0,
            final(self).rows_of(pane).last().committed_key is None,
            pane == Pane::Match ==> final(self).modify_rows@ == old(self).modify_rows@,
            pane == Pane::Modify ==> final(self).match_rows@ == old(self).match_rows@,
            final(self).rule_name == old(self).rule_name,
            final(self).name_input == old(self).name_input,
            final(self).name_error == old(self).name_error,
    {
        let row = FieldRow { name: String::new(), value: String::new(), committed_key: None };
        match pane {
            Pane::Match => self.match_rows.push(row),
            Pane::Modify => self.modify_rows.push(row),
        }
        proof {
            assert(final(self).rows_of(pane).drop_last() =~= old(self).rows_of(pane));
        }
    }
}

} // verus!
