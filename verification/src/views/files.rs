//! The files view: a scanned folder of DNG files, each matched against the
//! lens rules, and the corrections to apply.
//!
//! The view decides; whoever runs it walks the folder, reads and writes the
//! files, and reports back. A scan is `begin_scan`, one `scanned_row` per
//! file found, then `finish`; an apply is `begin_apply`, one `record_status`
//! per file written, then `finish`.

pub mod delegate;
pub mod helpers;

use vstd::prelude::*;
use crate::lens::mapping::LensMapEntry;
use crate::lens::store::{LensStore, is_unique_name_for};
use crate::keyed::{index_of};
use crate::ordmap::field_entries;
use crate::preferences::{Preferences, PreferencesStore, with_backup, with_last_folder, with_recursive};
use crate::text::{decimal, decimal_string};
use crate::views::files::delegate::{
    FileRow, FilesDelegate, RowStatus, indices_where, row_pending, status_set,
};

verus! {

/// What the body of the view shows.
#[derive(Clone, Debug, PartialEq, Eq)]
pub enum FilesBody {
    /// No folder is open.
    NoFolder,
    /// A folder is remembered but not scanned yet: offer to scan it.
    NotScanned(String),
    /// The table of scanned files.
    Table,
}

/// An item of the open button's dropdown menu.
#[derive(Copy, Clone, Debug, PartialEq, Eq, Structural)]
pub enum HeaderMenuItem {
    /// "Recurse subfolders", with a check mark when scans recurse.
    RecurseSubfolders { checked: bool },
    /// "Reveal in Finder".
    RevealInFinder,
    /// "Rescan folder".
    RescanFolder { enabled: bool },
    /// "Close folder".
    CloseFolder { enabled: bool },
    /// "Cancel".
    Cancel,
}

/// The items of the open button's dropdown: the recurse toggle; with a
/// folder open, revealing, rescanning and closing it, the last two not
/// while busy; and while busy, cancelling.
pub open spec fn header_menu_items(recursive: bool, has_root: bool, busy: bool) -> Seq<HeaderMenuItem> {
    let first = seq![HeaderMenuItem::RecurseSubfolders { checked: recursive }];
    let folder = if has_root {
        seq![
            HeaderMenuItem::RevealInFinder,
            HeaderMenuItem::RescanFolder { enabled: !busy },
            HeaderMenuItem::CloseFolder { enabled: !busy },
        ]
    } else {
        Seq::empty()
    };
    let cancel = if busy {
        seq![HeaderMenuItem::Cancel]
    } else {
        Seq::empty()
    };
    first + folder + cancel
}

/// One file to write: its row, its path, and the rule to write to it.
pub type ApplyJob = (usize, String, LensMapEntry);

/// The state of the files view.
pub struct FilesView {
    pub recursive: bool,
    pub apply_with_backup: bool,
    pub matches_only: bool,
    pub has_scanned: bool,
    pub root: Option<String>,
    pub busy: bool,
    pub table: FilesDelegate,
}

/// How deep a scan walks: every level when recursive, else the folder
/// itself.
pub open spec fn scan_depth(recursive: bool) -> usize {
    if recursive {
        usize::MAX
    } else {
        1
    }
}

/// The rows to write, as `begin_apply` hands them out.
pub open spec fn pending_rows(rows: Seq<FileRow>) -> Seq<usize> {
    indices_where(rows, |row: FileRow| row_pending(row))
}

/// `"{count} file"`, with an `s` unless there is one.
pub open spec fn file_count_text(count: nat) -> Seq<char> {
    decimal(count) + " file"@ + if count == 1 {
        ""@
    } else {
        "s"@
    }
}

/// `"{count} ready"`.
pub open spec fn ready_text(count: nat) -> Seq<char> {
    decimal(count) + " ready"@
}

impl FilesView {
    /// The view's flags agree with its table's, and the table shows what its
    /// filter lets through.
    pub open spec fn wf(&self) -> bool {
        &&& self.table.wf()
        &&& self.table.matches_only == self.matches_only
        &&& self.table.busy == self.busy
    }

    /// The view as the preferences leave it: their flags and folder, no scan
    /// yet, an empty table showing all rows.
    pub fn new(prefs: &Preferences) -> (r: FilesView)
        ensures
            r.wf(),
            r.recursive == prefs.recursive,
            r.apply_with_backup == prefs.apply_with_backup,
            r.root == prefs.last_folder,
            !r.matches_only,
            !r.has_scanned,
            !r.busy,
            r.table.rows@.len() == 0,
    {
        let root = match &prefs.last_folder {
            Some(f) => Some(f.clone()),
            None => None,
        };
        FilesView {
            recursive: prefs.recursive,
            apply_with_backup: prefs.apply_with_backup,
            matches_only: false,
            has_scanned: false,
            root,
            busy: false,
            table: FilesDelegate::new(),
        }
    }

    /// Mark a scan or an apply as running or finished.
    pub fn set_busy(&mut self, busy: bool)
        requires
            old(self).wf(),
        ensures
            final(self).wf(),
            final(self).busy == busy,
            final(self).table.rows@ == old(self).table.rows@,
            final(self).root == old(self).root,
            final(self).has_scanned == old(self).has_scanned,
            final(self).recursive == old(self).recursive,
            final(self).apply_with_backup == old(self).apply_with_backup,
            final(self).matches_only == old(self).matches_only,
    {
        self.busy = busy;
        self.table.set_busy(busy);
    }

    /// Start a scan of the open folder: the table is emptied and the view is
    /// busy. Returns how deep to walk.
    pub fn begin_scan(&mut self) -> (depth: usize)
        requires
            old(self).wf(),
        ensures
            depth == scan_depth(old(self).recursive),
            final(self).wf(),
            final(self).has_scanned,
            final(self).busy,
            final(self).table.rows@.len() == 0,
            final(self).root == old(self).root,
            final(self).recursive == old(self).recursive,
            final(self).apply_with_backup == old(self).apply_with_backup,
            final(self).matches_only == old(self).matches_only,
    {
        self.has_scanned = true;
        self.set_busy(true);
        self.table.clear();
        if self.recursive {
            usize::MAX
        } else {
            1
        }
    }

    /// A file the scan found, read and matched.
    pub fn scanned_row(&mut self, row: FileRow)
        requires
            old(self).wf(),
        ensures
            final(self).wf(),
            final(self).table.rows@ == old(self).table.rows@.push(row),
            final(self).busy == old(self).busy,
            final(self).root == old(self).root,
            final(self).has_scanned == old(self).has_scanned,
            final(self).recursive == old(self).recursive,
            final(self).apply_with_backup == old(self).apply_with_backup,
            final(self).matches_only == old(self).matches_only,
    {
        self.table.push(row);
    }

    /// The scan or apply that was running is over.
    pub fn finish(&mut self)
        requires
            old(self).wf(),
        ensures
            final(self).wf(),
            !final(self).busy,
            final(self).table.rows@ == old(self).table.rows@,
            final(self).root == old(self).root,
            final(self).has_scanned == old(self).has_scanned,
            final(self).recursive == old(self).recursive,
            final(self).apply_with_backup == old(self).apply_with_backup,
            final(self).matches_only == old(self).matches_only,
    {
        self.set_busy(false);
    }

    /// The user chose a folder: open it, remember it in the preferences and
    /// start scanning it. Returns how deep to walk.
    pub fn choose_folder(&mut self, root: String, prefs: &mut PreferencesStore) -> (depth: usize)
        requires
            old(self).wf(),
        ensures
            depth == scan_depth(old(self).recursive),
            final(self).wf(),
            final(self).root == Some(root),
            final(self).has_scanned,
            final(self).busy,
            final(self).table.rows@.len() == 0,
            final(self).recursive == old(self).recursive,
            final(self).apply_with_backup == old(self).apply_with_backup,
            final(self).matches_only == old(self).matches_only,
            final(prefs).prefs() == with_last_folder(old(prefs).prefs(), Some(root)),
            final(prefs).unsaved(),
            final(prefs).file() == old(prefs).file(),
    {
        let folder = root.clone();
        self.root = Some(root);
        prefs.set_last_folder(Some(folder));
        self.begin_scan()
    }

    /// Start writing the selected rules: unless a scan or apply is running,
    /// each row the user wants applied is handed out with its path and
    /// rule, in row order, and the view is busy if there is any. While busy
    /// nothing is handed out and nothing changes.
    pub fn begin_apply(&mut self) -> (work: Vec<ApplyJob>)
        requires
            old(self).wf(),
        ensures
            final(self).wf(),
            final(self).table.rows@ == old(self).table.rows@,
            final(self).root == old(self).root,
            final(self).has_scanned == old(self).has_scanned,
            final(self).recursive == old(self).recursive,
            final(self).apply_with_backup == old(self).apply_with_backup,
            final(self).matches_only == old(self).matches_only,
            old(self).busy ==> work@.len() == 0 && final(self).busy,
            !old(self).busy ==> {
                let rows = old(self).table.rows@;
                let idx = pending_rows(rows);
                &&& work@.len() == idx.len()
                &&& final(self).busy == (idx.len() > 0)
                &&& forall|k: int|
                    0 <= k < idx.len() ==> {
                        let row = rows[#[trigger] idx[k] as int];
                        &&& work@[k].0 == idx[k]
                        &&& work@[k].1@ == row.abs_path@
                        &&& field_entries(work@[k].2.tomatch) == field_entries(
                            row.matched_entry->0.tomatch,
                        )
                        &&& field_entries(work@[k].2.modify) == field_entries(
                            row.matched_entry->0.modify,
                        )
                    }
            },
    {
        let mut work: Vec<ApplyJob> = Vec::new();
        if self.busy {
            return work;
        }
        let indices = self.table.pending_apply_indices();
        let ghost rows = self.table.rows@;
        let _total = self.table.len();
        proof {
            crate::views::files::delegate::lemma_indices_where(rows, |row: FileRow| row_pending(row));
        }
        let n = indices.len();
        let mut k: usize = 0;
        while k < n
            invariant
                n == indices@.len(),
                indices@ == pending_rows(rows),
                rows == self.table.rows@,
                k <= n,
                work@.len() == k,
                forall|m: int| 0 <= m < n ==> #[trigger] indices@[m] < rows.len() && row_pending(rows[indices@[m] as int]),
                forall|m: int|
                    0 <= m < k ==> {
                        let row = rows[#[trigger] indices@[m] as int];
                        &&& work@[m].0 == indices@[m]
                        &&& work@[m].1@ == row.abs_path@
                        &&& field_entries(work@[m].2.tomatch) == field_entries(
                            row.matched_entry->0.tomatch,
                        )
                        &&& field_entries(work@[m].2.modify) == field_entries(
                            row.matched_entry->0.modify,
                        )
                    },
            decreases n - k,
        {
            let i = indices[k];
            let row = &self.table.rows[i];
            match &row.matched_entry {
                Some(entry) => {
                    work.push((i, row.abs_path.clone(), entry.duplicate()));
                },
                None => {},
            }
            k = k + 1;
        }
        if n > 0 {
            self.set_busy(true);
        }
        work
    }

    /// How the write of the row at `row_ix` went.
    pub fn record_status(&mut self, row_ix: usize, status: RowStatus)
        requires
            old(self).wf(),
        ensures
            final(self).wf(),
            final(self).table.rows@ == status_set(old(self).table.rows@, row_ix as int, status),
            final(self).busy == old(self).busy,
            final(self).root == old(self).root,
            final(self).has_scanned == old(self).has_scanned,
            final(self).recursive == old(self).recursive,
            final(self).apply_with_backup == old(self).apply_with_backup,
            final(self).matches_only == old(self).matches_only,
    {
        self.table.set_status(row_ix, status);
    }

    /// Scan the open folder again: nothing happens when no folder is open or
    /// the view is busy; otherwise the scan starts and the folder and depth
    /// are returned.
    pub fn rescan(&mut self) -> (r: Option<(String, usize)>)
        requires
            old(self).wf(),
        ensures
            final(self).wf(),
            final(self).root == old(self).root,
            final(self).recursive == old(self).recursive,
            final(self).apply_with_backup == old(self).apply_with_backup,
            final(self).matches_only == old(self).matches_only,
            (old(self).root is None || old(self).busy) ==> r is None && final(self).table.rows@
                == old(self).table.rows@ && final(self).busy == old(self).busy
                && final(self).has_scanned == old(self).has_scanned,
            (old(self).root is Some && !old(self).busy) ==> r == Some(
                (old(self).root->0, scan_depth(old(self).recursive)),
            ) && final(self).has_scanned && final(self).busy && final(self).table.rows@.len() == 0,
    {
        let root = match &self.root {
            Some(r) => r.clone(),
            None => {
                return None;
            },
        };
        if self.busy {
            return None;
        }
        let depth = self.begin_scan();
        Some((root, depth))
    }

    /// Close the folder and forget it, unless the view is busy. Returns
    /// whether it was closed.
    pub fn reset(&mut self, prefs: &mut PreferencesStore) -> (r: bool)
        requires
            old(self).wf(),
        ensures
            r == !old(self).busy,
            final(self).wf(),
            final(self).busy == old(self).busy,
            final(self).recursive == old(self).recursive,
            final(self).apply_with_backup == old(self).apply_with_backup,
            final(self).matches_only == old(self).matches_only,
            r ==> final(self).root is None && !final(self).has_scanned && final(self).table.rows@.len()
                == 0 && final(prefs).prefs() == with_last_folder(old(prefs).prefs(), None)
                && final(prefs).unsaved() && final(prefs).file() == old(prefs).file(),
            !r ==> final(self).root == old(self).root && final(self).has_scanned == old(self).has_scanned
                && final(self).table.rows@ == old(self).table.rows@ && *final(prefs) == *old(prefs),
    {
        if self.busy {
            return false;
        }
        self.root = None;
        self.has_scanned = false;
        prefs.set_last_folder(None);
        self.table.clear();
        true
    }

    /// Stop whatever was running; the view is no longer busy.
    pub fn cancel_current(&mut self)
        requires
            old(self).wf(),
        ensures
            final(self).wf(),
            !final(self).busy,
            final(self).table.rows@ == old(self).table.rows@,
            final(self).root == old(self).root,
            final(self).has_scanned == old(self).has_scanned,
    {
        self.set_busy(false);
    }

    /// Flip whether scans recurse into subfolders, and remember it.
    pub fn toggle_recursive(&mut self, prefs: &mut PreferencesStore)
        ensures
            final(self).recursive == !old(self).recursive,
            final(self).apply_with_backup == old(self).apply_with_backup,
            final(self).matches_only == old(self).matches_only,
            final(self).busy == old(self).busy,
            final(self).root == old(self).root,
            final(self).has_scanned == old(self).has_scanned,
            final(self).table == old(self).table,
            final(prefs).prefs() == with_recursive(old(prefs).prefs(), !old(self).recursive),
            final(prefs).unsaved(),
            final(prefs).file() == old(prefs).file(),
    {
        self.recursive = !self.recursive;
        let value = self.recursive;
        prefs.set_recursive(value);
    }

    /// Flip whether unmatched rows are hidden.
    pub fn toggle_matches_only(&mut self)
        requires
            old(self).wf(),
        ensures
            final(self).wf(),
            final(self).matches_only == !old(self).matches_only,
            final(self).table.rows@ == old(self).table.rows@,
            final(self).busy == old(self).busy,
            final(self).root == old(self).root,
            final(self).has_scanned == old(self).has_scanned,
            final(self).recursive == old(self).recursive,
            final(self).apply_with_backup == old(self).apply_with_backup,
    {
        self.matches_only = !self.matches_only;
        let value = self.matches_only;
        self.table.set_matches_only(value);
    }

    /// Flip whether applying keeps a backup of each file, and remember it.
    pub fn toggle_backup(&mut self, prefs: &mut PreferencesStore)
        ensures
            final(self).apply_with_backup == !old(self).apply_with_backup,
            final(self).recursive == old(self).recursive,
            final(self).matches_only == old(self).matches_only,
            final(self).busy == old(self).busy,
            final(self).root == old(self).root,
            final(self).has_scanned == old(self).has_scanned,
            final(self).table == old(self).table,
            final(prefs).prefs() == with_backup(old(prefs).prefs(), !old(self).apply_with_backup),
            final(prefs).unsaved(),
            final(prefs).file() == old(prefs).file(),
    {
        self.apply_with_backup = !self.apply_with_backup;
        let value = self.apply_with_backup;
        prefs.set_apply_with_backup(value);
    }

    /// The label of the open button.
    pub fn open_label(&self) -> (r: &'static str)
        ensures
            r@ == if self.recursive {
                "Open recursive"@
            } else {
                "Open"@
            },
    {
        if self.recursive {
            "Open recursive"
        } else {
            "Open"
        }
    }

    /// Whether the open button can be pressed: not while busy.
    pub fn can_open(&self) -> (r: bool)
        ensures
            r == !self.busy,
    {
        !self.busy
    }

    /// The items of the open button's dropdown menu, in order.
    pub fn header_menu(&self) -> (r: Vec<HeaderMenuItem>)
        ensures
            r@ == header_menu_items(self.recursive, self.root is Some, self.busy),
    {
        let mut items: Vec<HeaderMenuItem> = Vec::new();
        items.push(HeaderMenuItem::RecurseSubfolders { checked: self.recursive });
        if self.root.is_some() {
            items.push(HeaderMenuItem::RevealInFinder);
            items.push(HeaderMenuItem::RescanFolder { enabled: !self.busy });
            items.push(HeaderMenuItem::CloseFolder { enabled: !self.busy });
        }
        if self.busy {
            items.push(HeaderMenuItem::Cancel);
        }
        assert(items@ =~= header_menu_items(self.recursive, self.root is Some, self.busy));
        items
    }

    /// The label of the apply button.
    pub fn apply_label(&self) -> (r: &'static str)
        ensures
            r@ == if self.apply_with_backup {
                "Apply"@
            } else {
                "Apply (no backup)"@
            },
    {
        if self.apply_with_backup {
            "Apply"
        } else {
            "Apply (no backup)"
        }
    }

    /// Whether the apply button can be pressed: not busy, and some row is
    /// waiting to be applied.
    pub fn can_apply(&self) -> (r: bool)
        ensures
            r == (!self.busy && pending_rows(self.table.rows@).len() > 0),
    {
        !self.busy && self.table.pending_apply_indices().len() > 0
    }

    /// What the header says beside the folder: that work is running, or
    /// how many files the open folder holds.
    pub fn header_note(&self) -> (r: Option<String>)
        ensures
            self.busy ==> r is Some && r->0@ == "Working\u{2026}"@,
            !self.busy && self.root is Some ==> r is Some && r->0@ == file_count_text(
                self.table.rows@.len(),
            ),
            !self.busy && self.root is None ==> r is None,
    {
        if self.busy {
            Some("Working\u{2026}".to_owned())
        } else if self.root.is_some() {
            Some(file_count_label(self.table.len()))
        } else {
            None
        }
    }

    /// What the footer says beside the apply button: that work is running,
    /// or how many rows are ready to apply.
    pub fn footer_note(&self) -> (r: Option<String>)
        ensures
            self.busy ==> r is Some && r->0@ == "Working\u{2026}"@,
            !self.busy && pending_rows(self.table.rows@).len() > 0 ==> r is Some && r->0@
                == ready_text(pending_rows(self.table.rows@).len()),
            !self.busy && pending_rows(self.table.rows@).len() == 0 ==> r is None,
    {
        if self.busy {
            return Some("Working\u{2026}".to_owned());
        }
        let n = self.table.pending_apply_indices().len();
        if n > 0 {
            let mut s = decimal_string(n as u64);
            s.append(" ready");
            Some(s)
        } else {
            None
        }
    }

    /// What the body shows: nothing open, a remembered folder to scan, or
    /// the table.
    pub fn body(&self) -> (r: FilesBody)
        ensures
            self.root is None ==> r == FilesBody::NoFolder,
            self.root is Some && !self.has_scanned ==> r == FilesBody::NotScanned(self.root->0),
            self.root is Some && self.has_scanned ==> r == FilesBody::Table,
    {
        match &self.root {
            None => FilesBody::NoFolder,
            Some(root) => if self.has_scanned {
                FilesBody::Table
            } else {
                FilesBody::NotScanned(root.clone())
            },
        }
    }

    /// Add the rule made from a file to the store, under a name no rule
    /// has, and return that name. Nothing happens when the file gave no
    /// rule.
    pub fn create_rule_from_file(found: Option<(String, LensMapEntry)>, store: &mut LensStore) -> (r:
        Option<String>)
        requires
            old(store).entries().len() + 2 <= u32::MAX,
        ensures
            final(store).file() == old(store).file(),
            match found {
                None => r is None && *final(store) == *old(store),
                Some((base, entry)) => {
                    &&& r is Some
                    &&& is_unique_name_for(old(store).entries(), base@, r->0@)
                    &&& final(store).entries() == old(store).entries().push((r->0, entry))
                    &&& final(store).unsaved()
                },
            },
    {
        match found {
            None => None,
            Some((base, entry)) => {
                let name = store.unique_name(base.as_str());
                let ghost e = store.entries();
                proof {
                    assert(index_of(e, name@) < 0);
                }
                store.add(name.clone(), entry);
                Some(name)
            },
        }
    }
}

/// `"{count} file"`, with an `s` unless there is one.
pub fn file_count_label(count: usize) -> (r: String)
    ensures
        r@ == file_count_text(count as nat),
{
    proof {
        reveal_strlit(" file");
        reveal_strlit("s");
        reveal_strlit("");
    }
    let mut s = decimal_string(count as u64);
    s.append(" file");
    if count != 1 {
        s.append("s");
    }
    assert(s@ =~= file_count_text(count as nat));
    s
}

} // verus!
