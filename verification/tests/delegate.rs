use sixbiter::lens::mapping::LensMapEntry;
use sixbiter::views::files::delegate::{
    FileRow, FilesDelegate, HeaderSelection, RowAction, RowStatus, header_checkbox, lens_cell_text,
    rule_cell_text, status_label,
};

fn row(matched: bool) -> FileRow {
    FileRow {
        rel_path: "a.dng".to_string(),
        abs_path: "/a.dng".to_string(),
        current_lens: String::new(),
        matched_rule: if matched { Some("rule".to_string()) } else { None },
        matched_entry: if matched { Some(LensMapEntry::default()) } else { None },
        error: None,
        selected: false,
        status: RowStatus::Pending,
    }
}

/// A row that matched a rule but could not be read.
fn errored_row() -> FileRow {
    FileRow { error: Some("unreadable".to_string()), ..row(true) }
}

fn named_row(path: &str) -> FileRow {
    FileRow { rel_path: path.to_string(), abs_path: format!("/{path}"), ..row(true) }
}

#[test]
fn visible_includes_all_when_filter_off() {
    let mut d = FilesDelegate::new();
    d.push(row(true));
    d.push(row(false));
    d.push(row(true));
    assert_eq!(d.visible, vec![0, 1, 2]);
}

#[test]
fn visible_excludes_unmatched_when_filter_on() {
    let mut d = FilesDelegate::new();
    d.push(row(true));
    d.push(row(false));
    d.push(row(true));
    d.set_matches_only(true);
    assert_eq!(d.visible, vec![0, 2]);
}

#[test]
fn visible_rebuilds_when_filter_toggled() {
    let mut d = FilesDelegate::new();
    d.push(row(true));
    d.push(row(false));
    d.set_matches_only(true);
    d.set_matches_only(false);
    assert_eq!(d.visible, vec![0, 1]);
}

#[test]
fn visible_rebuilds_after_clear() {
    let mut d = FilesDelegate::new();
    d.push(row(true));
    d.push(row(false));
    d.set_matches_only(true);
    d.clear();
    assert!(d.visible.is_empty());
}

#[test]
fn a_row_pushed_under_the_filter_is_shown_only_if_matched() {
    let mut d = FilesDelegate::new();
    d.set_matches_only(true);
    d.push(row(false));
    d.push(row(true));
    assert_eq!(d.visible, vec![1]);
    assert_eq!(d.rows_count(), 1);
    assert_eq!(d.len(), 2);
    assert_eq!(d.visible_row(0), 1);
}

#[test]
fn toggle_selected_takes_an_absolute_row_index() {
    let mut d = FilesDelegate::new();
    d.push(row(true));
    d.push(row(false));
    d.push(row(true));
    d.set_matches_only(true);

    // Visible position 1 is absolute row 2, and that is the row that has
    // to flip -- not row 1, which the filter is hiding.
    d.toggle_selected(d.visible[1]);

    assert!(d.rows[2].selected);
    assert!(!d.rows[0].selected);
}

#[test]
fn toggle_selected_ignores_rows_that_cannot_be_applied() {
    let mut d = FilesDelegate::new();
    d.push(row(false));
    d.push(errored_row());
    d.toggle_selected(0);
    d.toggle_selected(1);
    d.toggle_selected(7);
    assert!(!d.rows[0].selected);
    assert!(!d.rows[1].selected);
}

#[test]
fn toggling_twice_restores_the_selection() {
    let mut d = FilesDelegate::new();
    d.push(row(true));
    d.toggle_selected(0);
    d.toggle_selected(0);
    assert!(!d.rows[0].selected);
}

#[test]
fn pending_apply_lists_only_selected_matched_rows() {
    let mut d = FilesDelegate::new();
    d.push(row(true));
    d.push(row(false));
    d.push(row(true));
    d.toggle_selected(0);
    assert_eq!(d.pending_apply_indices(), vec![0]);
}

#[test]
fn pending_apply_skips_rows_already_applied() {
    let mut d = FilesDelegate::new();
    d.push(row(true));
    d.push(row(true));
    d.select_all_eligible();
    d.set_status(0, RowStatus::Applied);
    assert_eq!(d.pending_apply_indices(), vec![1]);
}

#[test]
fn a_failed_row_stays_pending_for_another_try() {
    let mut d = FilesDelegate::new();
    d.push(row(true));
    d.select_all_eligible();
    d.set_status(0, RowStatus::Failed("disk full".to_string()));
    assert_eq!(d.pending_apply_indices(), vec![0]);
    assert_eq!(d.rows[0].status, RowStatus::Failed("disk full".to_string()));
}

#[test]
fn select_all_skips_ineligible_rows() {
    let mut d = FilesDelegate::new();
    d.push(row(true));
    d.push(row(false));
    d.push(errored_row());
    d.select_all_eligible();
    assert_eq!(d.pending_apply_indices(), vec![0]);
}

#[test]
fn deselect_all_clears_every_row() {
    let mut d = FilesDelegate::new();
    d.push(row(true));
    d.push(row(true));
    d.select_all_eligible();
    d.deselect_all();
    assert!(d.pending_apply_indices().is_empty());
}

#[test]
fn header_is_disabled_when_no_row_can_be_applied() {
    let mut d = FilesDelegate::new();
    d.push(row(false));
    d.push(errored_row());
    assert_eq!(d.header_selection_state(), HeaderSelection::NothingEligible);
}

#[test]
fn header_reports_all_only_once_every_eligible_row_is_selected() {
    let mut d = FilesDelegate::new();
    d.push(row(true));
    d.push(row(true));
    assert_eq!(d.header_selection_state(), HeaderSelection::NotAll);
    d.toggle_selected(0);
    assert_eq!(d.header_selection_state(), HeaderSelection::NotAll);
    d.toggle_selected(1);
    assert_eq!(d.header_selection_state(), HeaderSelection::All);
}

#[test]
fn header_ignores_unmatched_rows_when_deciding_all() {
    let mut d = FilesDelegate::new();
    d.push(row(true));
    d.push(row(false));
    d.toggle_selected(0);
    assert_eq!(d.header_selection_state(), HeaderSelection::All);
}

#[test]
fn header_shows_all_after_select_all() {
    let mut d = FilesDelegate::new();
    d.push(row(true));
    d.push(errored_row());
    d.push(row(true));
    d.select_all_eligible();
    assert_eq!(d.header_selection_state(), HeaderSelection::All);
    d.deselect_all();
    assert_eq!(d.header_selection_state(), HeaderSelection::NotAll);
}

#[test]
fn only_the_data_columns_are_sortable() {
    let d = FilesDelegate::new();
    assert!(d.is_sortable("path"));
    assert!(d.is_sortable("lens"));
    assert!(d.is_sortable("rule"));
    assert!(!d.is_sortable("selected"));
    assert!(!d.is_sortable("status"));
}

#[test]
fn nothing_is_sortable_while_a_task_is_running() {
    let mut d = FilesDelegate::new();
    d.set_busy(true);
    assert!(!d.is_sortable("path"));

    d.set_busy(false);
    assert!(d.is_sortable("path"));
}

#[test]
fn sorting_by_path_orders_the_rows_and_the_shown_ones() {
    let mut d = FilesDelegate::new();
    d.push(named_row("b.dng"));
    d.push(FileRow { rel_path: "c.dng".to_string(), ..row(false) });
    d.push(named_row("a.dng"));
    d.set_matches_only(true);
    d.perform_sort("path", false);
    let order: Vec<&str> = d.rows.iter().map(|r| r.rel_path.as_str()).collect();
    assert_eq!(order, vec!["a.dng", "b.dng", "c.dng"]);
    assert_eq!(d.visible, vec![0, 1]);

    d.perform_sort("path", true);
    let order: Vec<&str> = d.rows.iter().map(|r| r.rel_path.as_str()).collect();
    assert_eq!(order, vec!["c.dng", "b.dng", "a.dng"]);
    assert_eq!(d.visible, vec![1, 2]);
}

#[test]
fn paths_sort_by_component() {
    let mut d = FilesDelegate::new();
    d.push(named_row("a-b/x.dng"));
    d.push(named_row("a/y.dng"));
    d.perform_sort("path", false);
    let order: Vec<&str> = d.rows.iter().map(|r| r.rel_path.as_str()).collect();
    assert_eq!(order, vec!["a/y.dng", "a-b/x.dng"]);
}

#[test]
fn sorting_by_rule_puts_unmatched_rows_first_and_keeps_ties_in_order() {
    let mut d = FilesDelegate::new();
    d.push(FileRow { matched_rule: Some("Summicron".to_string()), ..named_row("1.dng") });
    d.push(FileRow { rel_path: "2.dng".to_string(), ..row(false) });
    d.push(FileRow { matched_rule: Some("Nokton".to_string()), ..named_row("3.dng") });
    d.push(FileRow { matched_rule: Some("Nokton".to_string()), ..named_row("4.dng") });
    d.perform_sort("rule", false);
    let order: Vec<&str> = d.rows.iter().map(|r| r.rel_path.as_str()).collect();
    assert_eq!(order, vec!["2.dng", "3.dng", "4.dng", "1.dng"]);
}

#[test]
fn sorting_by_lens_compares_the_lens_text() {
    let mut d = FilesDelegate::new();
    d.push(FileRow { current_lens: "Summilux".to_string(), ..named_row("1.dng") });
    d.push(FileRow { current_lens: "Elmarit".to_string(), ..named_row("2.dng") });
    d.push(FileRow { current_lens: "Summicron".to_string(), ..named_row("3.dng") });
    d.perform_sort("lens", true);
    let order: Vec<&str> = d.rows.iter().map(|r| r.current_lens.as_str()).collect();
    assert_eq!(order, vec!["Summilux", "Summicron", "Elmarit"]);
}

#[test]
fn sorting_by_another_column_leaves_the_rows() {
    let mut d = FilesDelegate::new();
    d.push(named_row("b.dng"));
    d.push(named_row("a.dng"));
    d.perform_sort("status", false);
    let order: Vec<&str> = d.rows.iter().map(|r| r.rel_path.as_str()).collect();
    assert_eq!(order, vec!["b.dng", "a.dng"]);
}

#[test]
fn the_header_checkbox_selects_all_then_none() {
    let mut d = FilesDelegate::new();
    d.push(row(true));
    d.push(row(false));
    d.push(row(true));
    d.toggle_all();
    assert_eq!(d.header_selection_state(), HeaderSelection::All);
    assert_eq!(header_checkbox(d.header_selection_state()), (true, false));
    d.toggle_all();
    assert_eq!(d.header_selection_state(), HeaderSelection::NotAll);
    assert!(d.pending_apply_indices().is_empty());
    assert_eq!(header_checkbox(HeaderSelection::NothingEligible), (false, true));
}

#[test]
fn the_context_menu_offers_what_fits_the_row() {
    let mut d = FilesDelegate::new();
    d.push(named_row("a.dng"));
    d.push(FileRow { abs_path: "/b.dng".to_string(), ..row(false) });
    d.push(errored_row());
    let menu = d.row_menu(0);
    assert_eq!(menu.reveal_path, "/a.dng");
    assert_eq!(menu.action, Some(RowAction::EditRule("rule".to_string())));
    assert_eq!(d.row_menu(1).action, Some(RowAction::CreateRule("/b.dng".to_string())));
    assert_eq!(d.row_menu(2).action, None);
}

#[test]
fn cells_say_what_the_row_holds() {
    assert_eq!(status_label(&RowStatus::Pending), (None, None));
    assert_eq!(status_label(&RowStatus::Applying).0, Some("Applying\u{2026}"));
    assert_eq!(status_label(&RowStatus::Applied), (Some("Applied"), None));
    assert_eq!(
        status_label(&RowStatus::Failed("disk full".to_string())),
        (Some("Failed"), Some("disk full".to_string()))
    );
    assert_eq!(lens_cell_text(&row(true)), "\u{2014}");
    assert_eq!(lens_cell_text(&FileRow { current_lens: "Summicron".to_string(), ..row(true) }), "Summicron");
    assert_eq!(rule_cell_text(&row(true)), "rule");
    assert_eq!(rule_cell_text(&row(false)), "\u{2014}");
}

#[test]
fn a_new_table_has_its_five_columns_and_no_rows() {
    let d = FilesDelegate::new();
    assert_eq!(d.columns, vec!["selected", "path", "lens", "rule", "status"]);
    assert!(d.rows.is_empty());
    assert!(d.visible.is_empty());
    assert!(!d.matches_only && !d.busy);
}
