use indexmap::IndexMap;
use sixbiter::json::JsonValue;
use sixbiter::lens::mapping::{LensMap, LensMapEntry};
use sixbiter::ordmap::FieldMap;
use sixbiter::views::files::delegate::RowStatus;
use sixbiter::views::files::helpers::{
    error_row, format_lens_display, has_dng_extension, is_dng, read_one, relative_or_whole, relativize,
    rule_from_file,
};

fn text(s: &str) -> JsonValue {
    JsonValue::Text(s.to_string())
}

fn as_number(v: &JsonValue) -> Option<f64> {
    match v {
        JsonValue::Number(s) | JsonValue::Text(s) => s.parse().ok(),
        JsonValue::Other(_) => None,
    }
}

fn numeric(a: &JsonValue, b: &JsonValue) -> Option<bool> {
    match (as_number(a), as_number(b)) {
        (Some(x), Some(y)) => Some((x - y).abs() < 1e-6),
        _ => None,
    }
}

fn rule(name: &str, tomatch: FieldMap) -> LensMap {
    let mut map = LensMap::new();
    map.insert(
        name.to_string(),
        LensMapEntry {
            tomatch,
            modify: IndexMap::from([("LensModel".to_string(), text("Corrected"))]),
        },
    );
    map
}

/// The lens tags of the sample DNG, a Leica with a Summilux 90.
fn sample_metadata() -> FieldMap {
    IndexMap::from([
        ("Make".to_string(), text("Leica Camera AG")),
        ("FocalLength".to_string(), text("90.0 mm")),
        ("LensMake".to_string(), text("Leica Camera AG")),
        ("LensModel".to_string(), text("Summilux-M 1:1.5/90 ASPH.")),
    ])
}

#[test]
fn format_lens_display_prefers_model_over_make() {
    assert_eq!(
        format_lens_display("Leica Camera AG", "Summicron-M 1:2/35 ASPH."),
        "Summicron-M 1:2/35 ASPH."
    );
}

#[test]
fn format_lens_display_falls_back_to_make() {
    assert_eq!(format_lens_display("Leica", ""), "Leica");
    assert_eq!(format_lens_display("", ""), "");
}

#[test]
fn relativize_strips_root_prefix() {
    let abs = "/Users/will/Photos/2024/IMG_001.dng";
    let root = "/Users/will/Photos";
    assert_eq!(relativize(abs, root), "2024/IMG_001.dng");
}

#[test]
fn relativize_path_equal_to_root_returns_empty() {
    let path = "/Users/will/Photos";
    assert_eq!(relativize(path, path), "");
}

#[test]
fn relativize_returns_original_when_not_under_root() {
    let abs = "/etc/hosts";
    let root = "/Users/will/Photos";
    assert_eq!(relativize(abs, root), "/etc/hosts");
}

#[test]
fn relativize_goes_by_whole_components() {
    assert_eq!(relativize("/Users/will/Photos2/a.dng", "/Users/will/Photos"), "/Users/will/Photos2/a.dng");
}

#[test]
fn is_dng_accepts_any_case() {
    assert!(is_dng("a.dng"));
    assert!(is_dng("a.DNG"));
    assert!(is_dng("a.Dng"));
}

#[test]
fn is_dng_rejects_everything_else() {
    assert!(!is_dng("a.jpg"));
    assert!(!is_dng("a.dng.bak"), "only the last extension counts");
    assert!(!is_dng("noextension"));
    // `.dng` is a dotfile, with no extension at all.
    assert!(!is_dng(".dng"));
}

#[test]
fn is_dng_looks_at_the_file_name_only() {
    assert!(is_dng("/photos/2024.dng/IMG_1.DNG"));
    assert!(!is_dng("/photos/x.dng/notes"));
}

#[test]
fn read_one_matches_a_rule_and_pre_checks_the_row() {
    let map = rule(
        "Summilux 90",
        IndexMap::from([
            ("LensMake".to_string(), text("Leica Camera AG")),
            ("LensModel".to_string(), text("Summilux-M 1:1.5/90 ASPH.")),
        ]),
    );

    let row = read_one("/photos/sample.dng", "sample.dng".to_string(), &map, Ok(sample_metadata()), &numeric);

    assert_eq!(row.matched_rule.as_deref(), Some("Summilux 90"));
    assert!(row.matched_entry.is_some(), "the entry is what gets written");
    assert!(row.selected, "a matched file is armed for apply");
    assert_eq!(row.current_lens, "Summilux-M 1:1.5/90 ASPH.");
    assert!(row.error.is_none());
    assert_eq!(row.status, RowStatus::Pending);
    assert_eq!(row.rel_path, "sample.dng");
    assert_eq!(row.abs_path, "/photos/sample.dng");
}

#[test]
fn read_one_leaves_an_unmatched_file_unchecked() {
    let map = rule(
        "Some other lens",
        IndexMap::from([("LensModel".to_string(), text("Nokton 50mm f/1.5"))]),
    );

    let row = read_one("/photos/sample.dng", "sample.dng".to_string(), &map, Ok(sample_metadata()), &numeric);

    assert!(row.matched_rule.is_none());
    assert!(row.matched_entry.is_none());
    assert!(!row.selected, "an unmatched file must not be armed for writing");
    // It still reports the lens it actually has, so the user can build a rule.
    assert_eq!(row.current_lens, "Summilux-M 1:1.5/90 ASPH.");
}

#[test]
fn read_one_reports_an_unreadable_file_as_an_error_row() {
    let row = read_one(
        "/tmp/broken.dng",
        "broken.dng".to_string(),
        &LensMap::new(),
        Err("failed to read metadata: not a real dng".to_string()),
        &numeric,
    );

    assert!(row.error.is_some(), "a failed read must surface, not vanish");
    assert!(!row.selected);
    assert!(row.matched_rule.is_none());
    assert_eq!(row.current_lens, "");
}

#[test]
fn read_one_shows_the_make_when_there_is_no_model() {
    let meta: FieldMap = IndexMap::from([("LensMake".to_string(), text("Leica"))]);
    let row = read_one("/a.dng", "a.dng".to_string(), &LensMap::new(), Ok(meta), &numeric);
    assert_eq!(row.current_lens, "Leica");
}

#[test]
fn read_one_compares_numbers_as_numbers() {
    let map = rule("Fifty", IndexMap::from([("FocalLength".to_string(), JsonValue::Number("50".to_string()))]));
    let meta: FieldMap = IndexMap::from([("FocalLength".to_string(), text("50.0"))]);
    let row = read_one("/a.dng", "a.dng".to_string(), &map, Ok(meta), &numeric);
    assert_eq!(row.matched_rule.as_deref(), Some("Fifty"));
}

#[test]
fn error_row_is_unmatched_and_unselected() {
    let row = error_row("a.dng".to_string(), "/a.dng".to_string(), "boom".to_string());
    assert_eq!(row.error.as_deref(), Some("boom"));
    assert!(!row.selected);
    assert!(row.matched_entry.is_none());
}

#[test]
fn rule_from_file_matches_on_the_lens_it_found() {
    let (name, entry) =
        rule_from_file(Ok::<FieldMap, String>(sample_metadata())).expect("the fixture is readable");

    assert_eq!(name, "From Summilux-M 1:1.5/90 ASPH.");
    assert_eq!(entry.tomatch["LensMake"], text("Leica Camera AG"));
    assert_eq!(entry.tomatch["LensModel"], text("Summilux-M 1:1.5/90 ASPH."));
    assert!(entry.modify.is_empty(), "the corrected values are the user's to fill in");
}

#[test]
fn rule_from_file_takes_the_lens_fields_in_order() {
    let (_, entry) = rule_from_file(Ok::<FieldMap, String>(sample_metadata())).unwrap();
    let keys: Vec<&str> = entry.tomatch.keys().map(|k| k.as_str()).collect();
    assert_eq!(keys, vec!["FocalLength", "LensMake", "LensModel"]);
}

#[test]
fn rule_from_file_names_a_rule_without_a_model() {
    let meta: FieldMap = IndexMap::from([("LensMake".to_string(), text("Leica"))]);
    let (name, _) = rule_from_file(Ok::<FieldMap, String>(meta)).unwrap();
    assert_eq!(name, "From New rule");
}

#[test]
fn rule_from_file_gives_up_on_an_unreadable_file() {
    assert!(rule_from_file(Err::<FieldMap, String>("not a real dng".to_string())).is_none());
}

#[test]
fn the_extension_is_what_follows_the_last_dot() {
    assert!(has_dng_extension("IMG_1.DnG"));
    assert!(has_dng_extension("a.b.dng"));
    assert!(!has_dng_extension(".dng"));
    assert!(!has_dng_extension("dng"));
    assert!(!has_dng_extension("a.dngx"));
}

#[test]
fn a_path_not_under_the_root_stays_whole() {
    assert_eq!(relative_or_whole("/a/b.dng", Some("b.dng".to_string())), "b.dng");
    assert_eq!(relative_or_whole("/a/b.dng", None), "/a/b.dng");
}

#[test]
fn relativize_then_join_gives_back_the_path() {
    let abs = "/Users/will/Photos/2024/IMG_001.dng";
    let root = "/Users/will/Photos";
    let rel = relativize(abs, root);
    assert_eq!(std::path::Path::new(root).join(&rel), std::path::Path::new(abs));
}
