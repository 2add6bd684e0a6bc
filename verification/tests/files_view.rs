use indexmap::IndexMap;
use sixbiter::json::JsonValue;
use sixbiter::lens::mapping::{LensMap, LensMapEntry};
use sixbiter::lens::store::LensStore;
use sixbiter::preferences::{Preferences, PreferencesStore};
use sixbiter::views::files::delegate::{FileRow, RowStatus};
use sixbiter::views::files::{FilesBody, FilesView, HeaderMenuItem, file_count_label};

fn prefs_store() -> PreferencesStore {
    PreferencesStore::load_from("preferences.json".to_string(), None)
}

fn matched_row(path: &str, new_model: &str) -> FileRow {
    FileRow {
        rel_path: path.rsplit('/').next().unwrap().to_string(),
        abs_path: path.to_string(),
        current_lens: "Original".to_string(),
        matched_rule: Some("rule".to_string()),
        matched_entry: Some(LensMapEntry {
            tomatch: IndexMap::new(),
            modify: IndexMap::from([("LensModel".to_string(), JsonValue::Text(new_model.to_string()))]),
        }),
        error: None,
        selected: true,
        status: RowStatus::Pending,
    }
}

fn error_row(path: &str) -> FileRow {
    FileRow {
        matched_rule: None,
        matched_entry: None,
        error: Some("not a real dng".to_string()),
        selected: false,
        ..matched_row(path, "X")
    }
}

#[test]
fn a_new_view_takes_its_flags_and_folder_from_the_preferences() {
    let prefs = Preferences { recursive: true, apply_with_backup: false, last_folder: Some("/photos".to_string()) };
    let view = FilesView::new(&prefs);
    assert!(view.recursive);
    assert!(!view.apply_with_backup);
    assert_eq!(view.root.as_deref(), Some("/photos"));
    assert!(!view.has_scanned);
    assert_eq!(view.body(), FilesBody::NotScanned("/photos".to_string()));
    assert_eq!(view.open_label(), "Open recursive");
    assert_eq!(view.apply_label(), "Apply (no backup)");
}

#[test]
fn pick_folder_remembers_the_chosen_folder() {
    let mut prefs = prefs_store();
    let mut view = FilesView::new(prefs.get());
    let depth = view.choose_folder("/tmp/photos".to_string(), &mut prefs);
    assert_eq!(depth, 1);
    assert_eq!(view.root.as_deref(), Some("/tmp/photos"));
    assert_eq!(prefs.get().last_folder.as_deref(), Some("/tmp/photos"));
    assert!(prefs.take_unsaved());
    assert!(view.busy);
    assert_eq!(view.body(), FilesBody::Table);
}

#[test]
fn scan_adds_a_row_for_each_dng() {
    let mut view = FilesView::new(&Preferences::default());
    view.root = Some("/photos".to_string());
    let depth = view.begin_scan();
    assert_eq!(depth, 1);
    view.scanned_row(error_row("/photos/a.dng"));
    view.scanned_row(error_row("/photos/b.DNG"));
    view.finish();

    let errors = view.table.rows.iter().filter(|r| r.error.is_some()).count();
    assert_eq!(view.table.len(), 2);
    assert_eq!(errors, 2);
    assert!(!view.busy, "scan should clear the busy flag when it finishes");
    assert_eq!(view.header_note().as_deref(), Some("2 files"));
}

#[test]
fn a_recursive_scan_walks_every_level() {
    let mut view = FilesView::new(&Preferences { recursive: true, ..Preferences::default() });
    assert_eq!(view.begin_scan(), usize::MAX);
}

#[test]
fn reset_clears_the_folder_and_forgets_it() {
    let mut prefs = prefs_store();
    let mut view = FilesView::new(prefs.get());
    view.choose_folder("/photos".to_string(), &mut prefs);
    view.scanned_row(error_row("/photos/a.dng"));
    view.finish();

    assert!(view.reset(&mut prefs));
    assert_eq!(view.root, None);
    assert_eq!(view.table.len(), 0);
    assert_eq!(prefs.get().last_folder, None);
    assert_eq!(view.body(), FilesBody::NoFolder);
}

#[test]
fn reset_waits_while_busy() {
    let mut prefs = prefs_store();
    let mut view = FilesView::new(prefs.get());
    view.choose_folder("/photos".to_string(), &mut prefs);
    assert!(!view.reset(&mut prefs));
    assert_eq!(view.root.as_deref(), Some("/photos"));
}

#[test]
fn apply_hands_out_the_matched_rule_and_the_row_is_marked_applied() {
    let mut view = FilesView::new(&Preferences::default());
    view.scanned_row(matched_row("/p/sample.dng", "Ultron 35 mm f/2 aspherical VM"));
    let work = view.begin_apply();
    assert_eq!(work.len(), 1);
    assert_eq!(work[0].0, 0);
    assert_eq!(work[0].1, "/p/sample.dng");
    assert_eq!(
        work[0].2.modify["LensModel"],
        JsonValue::Text("Ultron 35 mm f/2 aspherical VM".to_string())
    );
    assert!(view.busy);

    view.record_status(0, RowStatus::Applying);
    view.record_status(0, RowStatus::Applied);
    view.finish();
    assert_eq!(view.table.rows[0].status, RowStatus::Applied);
    assert!(!view.busy, "apply should clear the busy flag when it finishes");
    assert!(!view.can_apply());
}

#[test]
fn apply_marks_unwritable_files_as_failed() {
    let mut view = FilesView::new(&Preferences::default());
    view.scanned_row(matched_row("/p/broken.dng", "Whatever"));
    let work = view.begin_apply();
    view.record_status(work[0].0, RowStatus::Failed("failed to write metadata".to_string()));
    view.finish();
    assert!(matches!(view.table.rows[0].status, RowStatus::Failed(_)));
    assert!(!view.busy, "a failed row should still clear the busy flag");
}

#[test]
fn apply_leaves_unselected_rows_pending() {
    let mut view = FilesView::new(&Preferences::default());
    let mut skipped = matched_row("/p/b.dng", "X");
    skipped.selected = false;
    view.scanned_row(matched_row("/p/a.dng", "X"));
    view.scanned_row(skipped);

    let work = view.begin_apply();
    let indices: Vec<usize> = work.iter().map(|w| w.0).collect();
    assert_eq!(indices, vec![0], "only the checked row is attempted");
    for (idx, _, _) in &work {
        view.record_status(*idx, RowStatus::Applied);
    }
    view.finish();
    assert_ne!(view.table.rows[0].status, RowStatus::Pending, "checked row was attempted");
    assert_eq!(view.table.rows[1].status, RowStatus::Pending, "unchecked row was skipped");
}

#[test]
fn nothing_is_applied_while_busy_or_with_nothing_selected() {
    let mut view = FilesView::new(&Preferences::default());
    assert!(view.begin_apply().is_empty());
    assert!(!view.busy);
    view.scanned_row(matched_row("/p/a.dng", "X"));
    view.set_busy(true);
    assert!(view.begin_apply().is_empty());
    assert_eq!(view.footer_note().as_deref(), Some("Working\u{2026}"));
}

#[test]
fn the_footer_counts_the_rows_ready() {
    let mut view = FilesView::new(&Preferences::default());
    view.scanned_row(matched_row("/p/a.dng", "X"));
    view.scanned_row(matched_row("/p/b.dng", "X"));
    assert_eq!(view.footer_note().as_deref(), Some("2 ready"));
    assert!(view.can_apply());
}

#[test]
fn rescan_needs_a_folder_and_an_idle_view() {
    let mut view = FilesView::new(&Preferences::default());
    assert_eq!(view.rescan(), None);
    view.root = Some("/photos".to_string());
    assert_eq!(view.rescan(), Some(("/photos".to_string(), 1)));
    assert_eq!(view.rescan(), None, "busy with the first scan");
    view.cancel_current();
    assert!(!view.busy);
}

#[test]
fn toggles_flip_and_are_remembered() {
    let mut prefs = prefs_store();
    let mut view = FilesView::new(prefs.get());
    view.toggle_recursive(&mut prefs);
    assert!(view.recursive && prefs.get().recursive);
    view.toggle_backup(&mut prefs);
    assert!(!view.apply_with_backup && !prefs.get().apply_with_backup);
    assert_eq!(view.apply_label(), "Apply (no backup)");
    view.scanned_row(error_row("/p/a.dng"));
    view.toggle_matches_only();
    assert!(view.matches_only);
    assert!(view.table.visible.is_empty());
}

#[test]
fn file_counts_are_said_in_words() {
    assert_eq!(file_count_label(0), "0 files");
    assert_eq!(file_count_label(1), "1 file");
    assert_eq!(file_count_label(12), "12 files");
}

#[test]
fn create_rule_from_file_picks_a_free_name() {
    let mut store = LensStore::new(LensMap::new(), String::new());
    let found = Some((
        "From Summilux-M 1:1.5/90 ASPH.".to_string(),
        LensMapEntry::default(),
    ));
    let name = FilesView::create_rule_from_file(found, &mut store);
    assert_eq!(name.as_deref(), Some("From Summilux-M 1:1.5/90 ASPH."));
    let again = FilesView::create_rule_from_file(
        Some(("From Summilux-M 1:1.5/90 ASPH.".to_string(), LensMapEntry::default())),
        &mut store,
    );
    assert_eq!(again.as_deref(), Some("From Summilux-M 1:1.5/90 ASPH. 2"));
    assert_eq!(FilesView::create_rule_from_file(None, &mut store), None);
    assert_eq!(store.rules().len(), 2);
}

#[test]
fn the_open_menu_offers_folder_items_only_with_a_folder() {
    let mut prefs = prefs_store();
    let mut view = FilesView::new(prefs.get());
    assert!(view.can_open());
    assert_eq!(view.header_menu(), vec![HeaderMenuItem::RecurseSubfolders { checked: false }]);

    view.choose_folder("/photos".to_string(), &mut prefs);
    assert!(!view.can_open(), "no opening while a scan runs");
    assert_eq!(
        view.header_menu(),
        vec![
            HeaderMenuItem::RecurseSubfolders { checked: false },
            HeaderMenuItem::RevealInFinder,
            HeaderMenuItem::RescanFolder { enabled: false },
            HeaderMenuItem::CloseFolder { enabled: false },
            HeaderMenuItem::Cancel,
        ]
    );
    view.finish();
    view.toggle_recursive(&mut prefs);
    assert_eq!(
        view.header_menu(),
        vec![
            HeaderMenuItem::RecurseSubfolders { checked: true },
            HeaderMenuItem::RevealInFinder,
            HeaderMenuItem::RescanFolder { enabled: true },
            HeaderMenuItem::CloseFolder { enabled: true },
        ]
    );
}
