use sixbiter::appearance::{AppearancePref, ResolvedAppearance, WindowAppearance, resolve, theme_for_appearance};
use sixbiter::bundle::{bundle_resources, resolve_root, resources, root_from, themes_dir};
use sixbiter::preferences::{Preferences, PreferencesStore, app_data_file};
use std::collections::HashSet;

#[test]
fn system_preference_follows_os() {
    assert_eq!(resolve(AppearancePref::System, WindowAppearance::Dark), ResolvedAppearance::Dark);
    assert_eq!(resolve(AppearancePref::System, WindowAppearance::Light), ResolvedAppearance::Light);
}

#[test]
fn explicit_preference_overrides_os() {
    assert_eq!(resolve(AppearancePref::Light, WindowAppearance::Dark), ResolvedAppearance::Light);
    assert_eq!(resolve(AppearancePref::Dark, WindowAppearance::Light), ResolvedAppearance::Dark);
}

#[test]
fn vibrant_system_appearances_count_as_theirs() {
    assert_eq!(resolve(AppearancePref::System, WindowAppearance::VibrantDark), ResolvedAppearance::Dark);
    assert_eq!(resolve(AppearancePref::System, WindowAppearance::VibrantLight), ResolvedAppearance::Light);
    assert_eq!(theme_for_appearance(AppearancePref::System, WindowAppearance::VibrantDark), "macOS Classic Dark");
    assert_eq!(theme_for_appearance(AppearancePref::Light, WindowAppearance::Dark), "macOS Classic Light");
}

#[test]
fn the_default_appearance_follows_the_system() {
    assert_eq!(AppearancePref::default(), AppearancePref::System);
}

fn exists_in(set: &HashSet<String>) -> impl Fn(&str) -> bool + '_ {
    move |p: &str| set.contains(p)
}

#[test]
fn resolve_root_returns_bundle_path() {
    let exe = "/Applications/Foo.app/Contents/MacOS/foo";
    let files: HashSet<String> = ["/Applications/Foo.app/Contents/Resources".to_string()].into();
    assert_eq!(
        resolve_root(Some(exe), exists_in(&files), None),
        Some("/Applications/Foo.app/Contents/Resources".to_string()),
    );
}

#[test]
fn resolve_root_falls_back_to_dev_in_debug() {
    let exe = "/Applications/Foo.app/Contents/MacOS/foo";
    let files: HashSet<String> = HashSet::new();
    let expected = "/Users/will/src/sixbiter/resources".to_string();
    assert_eq!(resolve_root(Some(exe), exists_in(&files), Some(expected.clone())), Some(expected));
}

#[test]
fn resolve_root_has_no_fallback_in_release() {
    let exe = "/Applications/Foo.app/Contents/MacOS/foo";
    let files: HashSet<String> = HashSet::new();
    assert_eq!(resolve_root(Some(exe), exists_in(&files), None), None);
}

#[test]
fn resources_finds_a_bundled_subdirectory() {
    let exe = "/Applications/Foo.app/Contents/MacOS/foo";
    let files: HashSet<String> = [
        "/Applications/Foo.app/Contents/Resources".to_string(),
        "/Applications/Foo.app/Contents/Resources/themes".to_string(),
    ]
    .into();
    let found = resources("themes", Some(exe), exists_in(&files), None);
    assert_eq!(found.as_deref(), Some("/Applications/Foo.app/Contents/Resources/themes"));
    assert_eq!(themes_dir(found), "/Applications/Foo.app/Contents/Resources/themes");
    assert_eq!(resources("icons", Some(exe), exists_in(&files), None), None);
    assert_eq!(themes_dir(None), "./themes");
}

#[test]
fn defaults_are_non_recursive_with_backups_on() {
    let prefs = Preferences::default();
    assert!(!prefs.recursive);
    assert!(prefs.apply_with_backup);
    assert!(prefs.last_folder.is_none());
}

#[test]
fn a_store_without_saved_preferences_starts_from_the_defaults() {
    let store = PreferencesStore::load_from("prefs.json".to_string(), None);
    assert!(store.get().apply_with_backup);
    assert_eq!(store.path(), "prefs.json");
}

#[test]
fn load_reads_the_file_in_the_data_folder() {
    let mut asked = String::new();
    let store = PreferencesStore::load(|path: &str| {
        asked = path.to_string();
        Some(Preferences { recursive: true, apply_with_backup: false, last_folder: None })
    });
    assert!(asked.ends_with("Sixbiter/preferences.json"));
    assert_eq!(store.path(), asked);
    assert!(store.get().recursive);
    assert!(!store.get().apply_with_backup);
}

#[test]
fn changes_mark_the_preferences_unsaved() {
    let mut store = PreferencesStore::load_from("prefs.json".to_string(), None);
    assert!(!store.take_unsaved());
    store.set_recursive(true);
    store.set_last_folder(Some("/tmp/photos".to_string()));
    assert!(store.take_unsaved());
    assert!(!store.take_unsaved());
    assert!(store.get().recursive);
    assert_eq!(store.get().last_folder.as_deref(), Some("/tmp/photos"));
    store.update(|p: Preferences| Preferences { apply_with_backup: false, ..p });
    assert!(!store.get().apply_with_backup);
    assert!(store.take_unsaved());
}

#[test]
fn data_files_live_in_the_sixbiter_folder() {
    assert_eq!(app_data_file(Some("/data".to_string()), "lens_map.json"), "/data/Sixbiter/lens_map.json");
    assert_eq!(app_data_file(None, "preferences.json"), "./Sixbiter/preferences.json");
}

#[test]
fn the_bundle_keeps_resources_beside_the_executable_folder() {
    assert_eq!(
        bundle_resources("/Applications/Foo.app/Contents/MacOS/foo").as_deref(),
        Some("/Applications/Foo.app/Contents/Resources")
    );
    assert_eq!(bundle_resources("foo"), None);
}

#[test]
fn the_root_is_the_bundle_only_when_it_exists() {
    let dev = Some("/dev/resources".to_string());
    assert_eq!(root_from(Some("/b".to_string()), true, dev.clone()).as_deref(), Some("/b"));
    assert_eq!(root_from(Some("/b".to_string()), false, dev.clone()), dev);
    assert_eq!(root_from(None, true, None), None);
}

#[test]
fn resources_prefer_the_bundle_and_fall_back_to_the_dev_folder() {
    let exe = "/Applications/Foo.app/Contents/MacOS/foo";
    let dev = Some("/src/sixbiter/resources".to_string());
    let both: HashSet<String> = [
        "/Applications/Foo.app/Contents/Resources".to_string(),
        "/Applications/Foo.app/Contents/Resources/themes".to_string(),
        "/src/sixbiter/resources/themes".to_string(),
    ]
    .into();
    assert_eq!(
        resources("themes", Some(exe), exists_in(&both), dev.clone()).as_deref(),
        Some("/Applications/Foo.app/Contents/Resources/themes"),
        "the bundle comes first"
    );
    let dev_only: HashSet<String> = [
        "/Applications/Foo.app/Contents/Resources".to_string(),
        "/src/sixbiter/resources/themes".to_string(),
    ]
    .into();
    assert_eq!(
        resources("themes", Some(exe), exists_in(&dev_only), dev.clone()).as_deref(),
        Some("/src/sixbiter/resources/themes"),
        "a bundle without the subdirectory falls back to the dev folder"
    );
    assert_eq!(resources("themes", None, exists_in(&HashSet::new()), dev), None);
}
