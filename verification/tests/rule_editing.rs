use sixbiter::json::JsonValue;
use sixbiter::lens::mapping::{LensMap, LensMapEntry};
use sixbiter::lens::store::LensStore;
use sixbiter::views::settings::mapping::editor::{LensRuleEditor, LensRuleEditorEvent, Pane};
use sixbiter::views::settings::mapping::LensMappingView;
use sixbiter::views::settings::{Section, SettingsIntent, SettingsView};

fn store_with(names: &[&str]) -> LensStore {
    let mut store = LensStore::new(LensMap::new(), String::new());
    for name in names {
        store.add(name.to_string(), LensMapEntry::default());
    }
    store
}

fn rule(store: &LensStore, name: &str) -> LensMapEntry {
    store.rules()[name].clone()
}

/// Add a row to a pane, type a field into it, and commit as a blur would.
fn set_field(editor: &mut LensRuleEditor, store: &mut LensStore, pane: Pane, name: &str, value: &str) {
    editor.add_row(pane);
    let last = match pane {
        Pane::Match => editor.match_rows.len() - 1,
        Pane::Modify => editor.modify_rows.len() - 1,
    };
    editor.set_field(pane, last, name.to_string(), value.to_string());
    editor.commit(store);
}

/// Type `value` into the name field, then commit as a blur would.
fn rename_to(editor: &mut LensRuleEditor, store: &mut LensStore, value: &str) -> Option<LensRuleEditorEvent> {
    editor.set_name_input(value.to_string());
    editor.commit(store)
}

#[test]
fn commit_writes_the_panes_into_the_store() {
    let mut store = store_with(&["A"]);
    let mut editor = LensRuleEditor::new("A".to_string(), &store);
    set_field(&mut editor, &mut store, Pane::Match, "LensModel", "Summicron");

    assert_eq!(rule(&store, "A").tomatch["LensModel"], JsonValue::Text("Summicron".to_string()));
}

#[test]
fn commit_skips_rows_with_no_field_name() {
    let mut store = store_with(&["A"]);
    let mut editor = LensRuleEditor::new("A".to_string(), &store);
    // A value with no key -- a half-filled row the user abandoned.
    set_field(&mut editor, &mut store, Pane::Modify, "", "orphan");

    assert!(rule(&store, "A").modify.is_empty());
}

#[test]
fn commit_renames_the_rule_and_announces_it() {
    let mut store = store_with(&["A", "B"]);
    let mut editor = LensRuleEditor::new("A".to_string(), &store);

    let event = rename_to(&mut editor, &mut store, "A-renamed");

    assert!(store.rules().contains_key("A-renamed"));
    assert!(!store.rules().contains_key("A"));
    assert_eq!(editor.rule_name, "A-renamed");
    let event = event.expect("a successful rename should emit Renamed");
    let LensRuleEditorEvent::Renamed { from, to } = event;
    assert_eq!(from, "A");
    assert_eq!(to, "A-renamed");
}

#[test]
fn an_empty_name_is_not_a_rename() {
    let mut store = store_with(&["A"]);
    let mut editor = LensRuleEditor::new("A".to_string(), &store);
    let event = rename_to(&mut editor, &mut store, "");

    assert!(store.rules().contains_key("A"));
    assert_eq!(editor.rule_name, "A");
    assert!(event.is_none());
}

#[test]
fn a_colliding_rename_is_refused_and_reverts_the_field() {
    let mut store = store_with(&["A", "B"]);
    let mut editor = LensRuleEditor::new("A".to_string(), &store);

    let event = rename_to(&mut editor, &mut store, "B");

    assert_eq!(editor.rule_name, "A", "the editor still edits A");
    assert!(editor.name_error.is_some(), "the refusal is surfaced, not silent");
    assert_eq!(editor.name_input, "A", "and the field is put back to match");
    assert!(event.is_none(), "no Renamed event -- the sidebar would have followed it");
}

#[test]
fn deleting_a_row_removes_the_field_from_the_store() {
    let mut store = store_with(&[]);
    let mut entry = LensMapEntry::default();
    entry.tomatch.insert("LensModel".to_string(), JsonValue::Text("Summicron".to_string()));
    entry.tomatch.insert("LensMake".to_string(), JsonValue::Text("Leica".to_string()));
    store.add("A".to_string(), entry);

    let mut editor = LensRuleEditor::new("A".to_string(), &store);
    editor.delete_row(Pane::Match, 0, &mut store);
    editor.commit(&mut store);

    let tomatch = rule(&store, "A").tomatch;
    assert!(!tomatch.contains_key("LensModel"));
    assert_eq!(tomatch["LensMake"], JsonValue::Text("Leica".to_string()));
}

#[test]
fn an_editor_shows_the_stored_fields_as_text() {
    let mut store = store_with(&[]);
    let mut entry = LensMapEntry::default();
    entry.modify.insert("FocalLength".to_string(), JsonValue::Number("35".to_string()));
    store.add("A".to_string(), entry);
    let editor = LensRuleEditor::new("A".to_string(), &store);
    assert_eq!(editor.modify_rows.len(), 1);
    assert_eq!(editor.modify_rows[0].name, "FocalLength");
    assert_eq!(editor.modify_rows[0].value, "35");
    assert_eq!(editor.modify_rows[0].committed_key.as_deref(), Some("FocalLength"));
    assert!(editor.match_rows.is_empty());
}

#[test]
fn renaming_a_field_in_place_replaces_it() {
    let mut store = store_with(&["A"]);
    let mut editor = LensRuleEditor::new("A".to_string(), &store);
    set_field(&mut editor, &mut store, Pane::Match, "LensModel", "Summicron");
    editor.set_field(Pane::Match, 0, "LensMake".to_string(), "Leica".to_string());
    editor.commit(&mut store);
    let tomatch = rule(&store, "A").tomatch;
    assert_eq!(tomatch.len(), 1);
    assert_eq!(tomatch["LensMake"], JsonValue::Text("Leica".to_string()));
}

#[test]
fn renaming_the_auto_selected_rule_moves_the_selection() {
    let store = store_with(&["A", "B"]);
    let mut view = LensMappingView::new(&store);
    assert_eq!(view.selected.as_deref(), Some("A"), "first rule should open");
    assert!(view.editor.is_some(), "an auto-selected rule should have an editor");

    assert!(view.on_renamed("A", "A-renamed"));
    assert_eq!(view.selected.as_deref(), Some("A-renamed"));
}

#[test]
fn renaming_a_different_rule_leaves_the_selection_alone() {
    let store = store_with(&["A", "B"]);
    let mut view = LensMappingView::new(&store);
    assert!(view.editor.is_some(), "an auto-selected rule should have an editor");

    assert!(!view.on_renamed("B", "B-renamed"));
    assert_eq!(view.selected.as_deref(), Some("A"));
}

#[test]
fn adding_a_rule_selects_a_fresh_new_rule() {
    let mut store = store_with(&["New rule"]);
    let mut view = LensMappingView::new(&store);
    view.add_rule(&mut store);
    assert_eq!(view.selected.as_deref(), Some("New rule 2"));
    let names: Vec<&str> = store.rules().keys().map(|k| k.as_str()).collect();
    assert_eq!(names, vec!["New rule", "New rule 2"]);
}

#[test]
fn deleting_the_selected_rule_selects_the_first_left() {
    let mut store = store_with(&["A", "B", "C"]);
    let mut view = LensMappingView::new(&store);
    assert!(view.select_by_name("B", &store));
    view.delete_selected(&mut store);
    assert_eq!(view.selected.as_deref(), Some("A"));
    assert!(!store.rules().contains_key("B"));
    assert!(!view.select_by_name("Z", &store));
}

#[test]
fn an_intent_switches_to_the_lens_rules_section() {
    let store = store_with(&["Ultron 35"]);
    let mut view = SettingsView::new(&store);
    assert_eq!(view.selected, Section::Appearance);

    view.apply_intent(SettingsIntent::SelectLensRule("Ultron 35".to_string()), &store);

    assert!(matches!(view.selected, Section::LensMapping));
    assert_eq!(view.lens_mapping.selected.as_deref(), Some("Ultron 35"));
}

#[test]
fn an_intent_for_an_unknown_rule_keeps_the_selection() {
    let store = store_with(&["A", "B"]);
    let mut view = SettingsView::new(&store);
    view.apply_intent(SettingsIntent::SelectLensRule("Z".to_string()), &store);
    assert_eq!(view.selected, Section::LensMapping);
    assert_eq!(view.lens_mapping.selected.as_deref(), Some("A"));
    assert!(!view.select(Section::LensMapping));
    assert!(view.select(Section::Appearance));
}

#[test]
fn the_sidebar_lists_the_rules_and_marks_the_selected_one() {
    let store = store_with(&["A", "B"]);
    let mut view = LensMappingView::new(&store);
    assert_eq!(
        view.sidebar_items(&store),
        vec![("A".to_string(), true), ("B".to_string(), false)]
    );
    assert!(view.can_delete());
    let mut store = store;
    view.delete_selected(&mut store);
    view.delete_selected(&mut store);
    assert!(!view.can_delete());
    assert!(view.sidebar_items(&store).is_empty());
}
