//! The lens rules section of the settings: the list of rules, the one
//! selected, and its editor.

pub mod editor;

use vstd::prelude::*;
use crate::keyed::{has_key, index_of, lemma_index_of, removed};
use crate::lens::mapping::LensMapEntry;
use crate::lens::store::{LensStore, is_unique_name_for};
use crate::ordmap::{field_entries, rule_entries, rules_contains_key, rules_get_index, rules_len};
use crate::text::same_text;
use crate::views::settings::mapping::editor::{LensRuleEditor, opened_rule, rows_show_fields};

verus! {

broadcast use lemma_index_of;

/// The rules list and the editor of the selected rule.
pub struct LensMappingView {
    pub selected: Option<String>,
    pub editor: Option<LensRuleEditor>,
}

/// The name selected, as text.
pub open spec fn selected_name(selected: Option<String>) -> Option<Seq<char>> {
    match selected {
        Some(s) => Some(s@),
        None => None,
    }
}

/// The editor is open on the rule `name` as the store holds it.
pub open spec fn editor_on(editor: Option<LensRuleEditor>, store: Seq<(String, LensMapEntry)>, name: Seq<char>) -> bool {
    match editor {
        Some(ed) => {
            &&& ed.rule_name@ == name
            &&& ed.name_input@ == name
            &&& ed.name_error is None
            &&& rows_show_fields(ed.match_rows@, opened_rule(store, name).0)
            &&& rows_show_fields(ed.modify_rows@, opened_rule(store, name).1)
        },
        None => false,
    }
}

/// The view shows the first rule of the store, or nothing when there is
/// none.
pub open spec fn shows_first_rule(view: LensMappingView, store: Seq<(String, LensMapEntry)>) -> bool {
    if store.len() > 0 {
        selected_name(view.selected) == Some(store[0].0@) && editor_on(view.editor, store, store[0].0@)
    } else {
        view.selected is None && view.editor is None
    }
}

impl LensMappingView {
    /// The view opened on the first rule, if any.
    pub fn new(store: &LensStore) -> (r: LensMappingView)
        ensures
            shows_first_rule(r, store.entries()),
    {
        match rules_get_index(store.rules(), 0) {
            Some((name, _)) => {
                let editor = LensRuleEditor::new(name.clone(), store);
                LensMappingView { selected: Some(name.clone()), editor: Some(editor) }
            },
            None => LensMappingView { selected: None, editor: None },
        }
    }

    /// Select the rule `name` and open its editor, unless it is selected
    /// already. Returns whether the selection changed.
    pub fn select(&mut self, name: String, store: &LensStore) -> (r: bool)
        ensures
            r == (selected_name(old(self).selected) != Some(name@)),
            r ==> selected_name(final(self).selected) == Some(name@) && editor_on(
                final(self).editor,
                store.entries(),
                name@,
            ),
            !r ==> final(self).selected == old(self).selected && final(self).editor == old(self).editor,
    {
        if let Some(current) = &self.selected {
            if same_text(current.as_str(), name.as_str()) {
                return false;
            }
        }
        let editor = LensRuleEditor::new(name.clone(), store);
        self.editor = Some(editor);
        self.selected = Some(name);
        true
    }

    /// Select the rule `name` if the store has it. Returns whether it does;
    /// an unknown name changes nothing.
    pub fn select_by_name(&mut self, name: &str, store: &LensStore) -> (r: bool)
        ensures
            r == has_key(store.entries(), name@),
            r ==> selected_name(final(self).selected) == Some(name@),
            r && selected_name(old(self).selected) != Some(name@) ==> editor_on(
                final(self).editor,
                store.entries(),
                name@,
            ),
            (!r || selected_name(old(self).selected) == Some(name@)) ==> final(self).selected
                == old(self).selected && final(self).editor == old(self).editor,
    {
        if !rules_contains_key(store.rules(), name) {
            return false;
        }
        self.select(name.to_owned(), store);
        true
    }

    /// Add a new rule, named "New rule" or the first free numbered variant
    /// of it, last in the store, and select it.
    pub fn add_rule(&mut self, store: &mut LensStore)
        requires
            old(store).entries().len() + 2 <= u32::MAX,
        ensures
            final(store).entries().len() == old(store).entries().len() + 1,
            final(store).entries().drop_last() == old(store).entries(),
            is_unique_name_for(old(store).entries(), "New rule"@, final(store).entries().last().0@),
            field_entries(final(store).entries().last().1.tomatch).len() == 0,
            field_entries(final(store).entries().last().1.modify).len() == 0,
            final(store).unsaved(),
            final(store).file() == old(store).file(),
            selected_name(final(self).selected) == Some(final(store).entries().last().0@),
            editor_on(final(self).editor, final(store).entries(), final(store).entries().last().0@),
    {
        proof {
            reveal_strlit("New rule");
        }
        let ghost e = store.entries();
        let name = store.unique_name("New rule");
        store.add(name.clone(), LensMapEntry::default());
        proof {
            assert(store.entries().drop_last() =~= e);
        }
        self.select_fresh(name, store);
    }

    /// Select a rule that the store has, whether or not it was selected.
    fn select_fresh(&mut self, name: String, store: &LensStore)
        ensures
            selected_name(final(self).selected) == Some(name@),
            editor_on(final(self).editor, store.entries(), name@),
    {
        let editor = LensRuleEditor::new(name.clone(), store);
        self.editor = Some(editor);
        self.selected = Some(name);
    }

    /// Delete the selected rule from the store, then select the first rule
    /// left, if any. Nothing happens when no rule is selected.
    pub fn delete_selected(&mut self, store: &mut LensStore)
        ensures
            match selected_name(old(self).selected) {
                None => final(self).selected == old(self).selected && final(self).editor == old(
                    self,
                ).editor && final(store).entries() == old(store).entries() && final(store).unsaved()
                    == old(store).unsaved(),
                Some(name) => {
                    &&& final(store).entries() == removed(old(store).entries(), name)
                    &&& final(store).unsaved()
                    &&& shows_first_rule(*final(self), final(store).entries())
                },
            },
            final(store).file() == old(store).file(),
    {
        let name = match self.selected.take() {
            Some(name) => name,
            None => return,
        };
        store.remove(name.as_str());
        self.editor = None;
        match rules_get_index(store.rules(), 0) {
            Some((next, _)) => {
                let next = next.clone();
                self.select_fresh(next, store);
            },
            None => {},
        }
    }

    /// The sidebar: each rule's name, in order, and whether it is the one
    /// selected.
    pub fn sidebar_items(&self, store: &LensStore) -> (r: Vec<(String, bool)>)
        ensures
            r@.len() == store.entries().len(),
            forall|k: int|
                0 <= k < r@.len() ==> (#[trigger] r@[k]).0@ == store.entries()[k].0@ && r@[k].1 == (
                selected_name(self.selected) == Some(store.entries()[k].0@)),
    {
        let rules = store.rules();
        let n = rules_len(rules);
        let mut items: Vec<(String, bool)> = Vec::new();
        let mut k: usize = 0;
        while k < n
            invariant
                n == store.entries().len(),
                rule_entries(*rules) == store.entries(),
                k <= n,
                items@.len() == k,
                forall|j: int|
                    0 <= j < k ==> (#[trigger] items@[j]).0@ == store.entries()[j].0@ && items@[j].1 == (
                    selected_name(self.selected) == Some(store.entries()[j].0@)),
            decreases n - k,
        {
            let (name, _) = rules_get_index(rules, k).unwrap();
            let is_selected = match &self.selected {
                Some(current) => same_text(current.as_str(), name.as_str()),
                None => false,
            };
            items.push((name.clone(), is_selected));
            k = k + 1;
        }
        items
    }

    /// Whether the delete button can be pressed: a rule is selected.
    pub fn can_delete(&self) -> (r: bool)
        ensures
            r == (self.selected is Some),
    {
        self.selected.is_some()
    }

    /// Follow a rename of a rule: if it is the selected one, the selection
    /// takes the new name. Returns whether the selection changed.
    pub fn on_renamed(&mut self, from: &str, to: &str) -> (r: bool)
        ensures
            r == (selected_name(old(self).selected) == Some(from@)),
            r ==> selected_name(final(self).selected) == Some(to@),
            !r ==> final(self).selected == old(self).selected,
            final(self).editor == old(self).editor,
    {
        let matches = match &self.selected {
            Some(current) => same_text(current.as_str(), from),
            None => false,
        };
        if matches {
            self.selected = Some(to.to_owned());
        }
        matches
    }
}

} // verus!
