//! The user's preferences, and the store that keeps them with the file
//! they are saved in.

use vstd::prelude::*;
use crate::paths::{join, join_of};

verus! {

/// The user's preferences.
#[derive(Clone, Debug)]
pub struct Preferences {
    pub recursive: bool,
    pub apply_with_backup: bool,
    pub last_folder: Option<String>,
}

/// Not recursive, with backups, no folder remembered.
pub open spec fn default_preferences() -> Preferences {
    Preferences { recursive: false, apply_with_backup: true, last_folder: None }
}

impl Default for Preferences {
    /// Not recursive, with backups, no folder remembered.
    fn default() -> (r: Preferences)
        ensures
            r == default_preferences(),
    {
        Preferences { recursive: false, apply_with_backup: true, last_folder: None }
    }
}

/// The preferences with the remembered folder replaced.
pub open spec fn with_last_folder(p: Preferences, folder: Option<String>) -> Preferences {
    Preferences { recursive: p.recursive, apply_with_backup: p.apply_with_backup, last_folder: folder }
}

/// The preferences with the recursive flag replaced.
pub open spec fn with_recursive(p: Preferences, recursive: bool) -> Preferences {
    Preferences { recursive: recursive, apply_with_backup: p.apply_with_backup, last_folder: p.last_folder }
}

/// The preferences with the backup flag replaced.
pub open spec fn with_backup(p: Preferences, backup: bool) -> Preferences {
    Preferences { recursive: p.recursive, apply_with_backup: backup, last_folder: p.last_folder }
}

/// The preferences, with the file they are saved in. Every change marks the
/// store as unsaved; whoever owns the file saves it and clears the mark.
pub struct PreferencesStore {
    prefs: Preferences,
    path: String,
    unsaved: bool,
}

impl PreferencesStore {
    /// The preferences held.
    pub closed spec fn prefs(&self) -> Preferences {
        self.prefs
    }

    /// The file they are saved in.
    pub closed spec fn file(&self) -> Seq<char> {
        self.path@
    }

    /// Whether a change has been made since they were last saved.
    pub closed spec fn unsaved(&self) -> bool {
        self.unsaved
    }

    /// The preferences saved in the application's data folder: `read` is
    /// handed the file's path and gives what it holds, if anything could be
    /// read; the defaults stand in for nothing.
    pub fn load<F: FnOnce(&str) -> Option<Preferences>>(read: F) -> (r: PreferencesStore)
        requires
            forall|path: &str| call_requires(read, (path,)),
        ensures
            exists|d: Option<String>| r.file() == #[trigger] data_file_of(d, "preferences.json"@),
            !r.unsaved(),
            exists|path: &str, loaded: Option<Preferences>|
                #![trigger call_ensures(read, (path,), loaded)]
                path@ == r.file() && call_ensures(read, (path,), loaded) && match loaded {
                    Some(p) => r.prefs() == p,
                    None => r.prefs() == default_preferences(),
                },
    {
        let path = preferences_path();
        let loaded = read(path.as_str());
        Self::load_from(path, loaded)
    }

    /// Start from what reading `path` gave: the preferences read, or the
    /// defaults when there were none to read.
    pub fn load_from(path: String, loaded: Option<Preferences>) -> (r: PreferencesStore)
        ensures
            r.file() == path@,
            !r.unsaved(),
            match loaded {
                Some(p) => r.prefs() == p,
                None => r.prefs() == default_preferences(),
            },
    {
        let prefs = match loaded {
            Some(p) => p,
            None => Preferences::default(),
        };
        PreferencesStore { prefs, path, unsaved: false }
    }

    /// The preferences.
    pub fn get(&self) -> (r: &Preferences)
        ensures
            *r == self.prefs(),
    {
        &self.prefs
    }

    /// The file they are saved in.
    pub fn path(&self) -> (r: &str)
        ensures
            r@ == self.file(),
    {
        self.path.as_str()
    }

    /// Apply an edit to the preferences; they are then to be saved.
    pub fn update<F: FnOnce(Preferences) -> Preferences>(&mut self, f: F)
        requires
            call_requires(f, (old(self).prefs(),)),
        ensures
            call_ensures(f, (old(self).prefs(),), final(self).prefs()),
            final(self).unsaved(),
            final(self).file() == old(self).file(),
    {
        let mut prefs = Preferences::default();
        std::mem::swap(&mut prefs, &mut self.prefs);
        self.prefs = f(prefs);
        self.unsaved = true;
    }

    /// Remember `folder` as the last folder opened, or forget it.
    pub fn set_last_folder(&mut self, folder: Option<String>)
        ensures
            final(self).prefs() == with_last_folder(old(self).prefs(), folder),
            final(self).unsaved(),
            final(self).file() == old(self).file(),
    {
        self.prefs.last_folder = folder;
        self.unsaved = true;
    }

    /// Set whether scans recurse into subfolders.
    pub fn set_recursive(&mut self, recursive: bool)
        ensures
            final(self).prefs() == with_recursive(old(self).prefs(), recursive),
            final(self).unsaved(),
            final(self).file() == old(self).file(),
    {
        self.prefs.recursive = recursive;
        self.unsaved = true;
    }

    /// Set whether applying keeps a backup of each file.
    pub fn set_apply_with_backup(&mut self, backup: bool)
        ensures
            final(self).prefs() == with_backup(old(self).prefs(), backup),
            final(self).unsaved(),
            final(self).file() == old(self).file(),
    {
        self.prefs.apply_with_backup = backup;
        self.unsaved = true;
    }

    /// Report whether there are changes to save, and mark them saved.
    pub fn take_unsaved(&mut self) -> (r: bool)
        ensures
            r == old(self).unsaved(),
            !final(self).unsaved(),
            final(self).prefs() == old(self).prefs(),
            final(self).file() == old(self).file(),
    {
        let r = self.unsaved;
        self.unsaved = false;
        r
    }
}

/// `dirs::data_dir`: the user's data directory, if the platform has one.
/// What it is depends on the platform and the environment; nothing is
/// stated of it.
#[verifier::external_body]
fn data_dir() -> (r: Option<String>) {
    dirs::data_dir().map(|d| d.to_string_lossy().into_owned())
}

/// The path of `file` in the application's data folder: `Sixbiter` under
/// the data directory, or under `.` when there is none.
pub open spec fn data_file_of(data_dir: Option<String>, file: Seq<char>) -> Seq<char> {
    join_of(
        join_of(
            match data_dir {
                Some(d) => d@,
                None => "."@,
            },
            "Sixbiter"@,
        ),
        file,
    )
}

/// The file `file` in the application's data folder: `Sixbiter` under
/// `data_dir`, or under `.` when there is no data directory.
pub fn app_data_file(data_dir: Option<String>, file: &str) -> (r: String)
    ensures
        r@ == data_file_of(data_dir, file@),
{
    proof {
        reveal_strlit(".");
        reveal_strlit("Sixbiter");
    }
    let base = match data_dir {
        Some(d) => d,
        None => ".".to_owned(),
    };
    let folder = join(base.as_str(), "Sixbiter");
    join(folder.as_str(), file)
}

/// `~/Library/Application Support/Sixbiter/preferences.json` on macOS.
pub fn preferences_path() -> (r: String)
    ensures
        exists|d: Option<String>| r@ == #[trigger] data_file_of(d, "preferences.json"@),
{
    app_data_file(data_dir(), "preferences.json")
}

/// `~/Library/Application Support/Sixbiter/lens_map.json` on macOS.
pub fn lens_map_path() -> (r: String)
    ensures
        exists|d: Option<String>| r@ == #[trigger] data_file_of(d, "lens_map.json"@),
{
    app_data_file(data_dir(), "lens_map.json")
}

} // verus!
