//! The rows of the files table: which are shown, which are selected, and
//! which are ready to have their rule applied.

use vstd::prelude::*;
use crate::lens::mapping::LensMapEntry;
use crate::paths::{compare_paths, path_order_of};
use crate::text::{compare_text, lemma_text_order_flips, same_text, text_order};

verus! {

/// What the header checkbox of the table shows.
#[derive(Copy, Clone, Debug, PartialEq, Eq, Structural)]
pub enum HeaderSelection {
    /// No row can be applied, so the header checkbox is disabled.
    NothingEligible,
    /// At least one eligible row is unselected.
    NotAll,
    /// Every eligible row is selected.
    All,
}

/// Where a row's correction stands.
#[derive(Clone, Debug, PartialEq, Eq)]
pub enum RowStatus {
    Pending,
    Applying,
    Applied,
    Failed(String),
}

/// One file of the scanned folder.
#[derive(Debug)]
pub struct FileRow {
    pub rel_path: String,
    pub abs_path: String,
    pub current_lens: String,
    pub matched_rule: Option<String>,
    pub matched_entry: Option<LensMapEntry>,
    pub error: Option<String>,
    pub selected: bool,
    pub status: RowStatus,
}

/// The row with its selection set to `selected`.
pub open spec fn with_selected(row: FileRow, selected: bool) -> FileRow {
    FileRow { selected: selected, ..row }
}

/// The row with its status set to `status`.
pub open spec fn with_status(row: FileRow, status: RowStatus) -> FileRow {
    FileRow { status: status, ..row }
}

/// Whether the row is shown: all rows are, unless only matches are.
pub open spec fn row_shown(row: FileRow, matches_only: bool) -> bool {
    !matches_only || row.matched_rule is Some
}

/// Whether a row can be applied: it matched a rule and was read without error.
pub open spec fn row_eligible(row: FileRow) -> bool {
    row.matched_rule is Some && row.error is None
}

/// Whether the user wants the row applied: selected, matched, read without
/// error, and not applied already.
pub open spec fn row_pending(row: FileRow) -> bool {
    row.selected && row.matched_entry is Some && row.error is None && !(row.status is Applied)
}

/// An eligible row that is selected.
pub open spec fn row_eligible_selected(row: FileRow) -> bool {
    row_eligible(row) && row.selected
}

/// Every row that can be applied selected; the others as they were.
pub open spec fn eligible_all_selected(rows: Seq<FileRow>) -> Seq<FileRow> {
    rows.map_values(|r: FileRow| if row_eligible(r) { with_selected(r, true) } else { r })
}

/// Every row unselected.
pub open spec fn all_deselected(rows: Seq<FileRow>) -> Seq<FileRow> {
    rows.map_values(|r: FileRow| with_selected(r, false))
}

/// The selection of the row at `ix` flipped, if there is such a row and it
/// can be applied.
pub open spec fn toggled(rows: Seq<FileRow>, ix: int) -> Seq<FileRow> {
    if 0 <= ix < rows.len() && row_eligible(rows[ix]) {
        rows.update(ix, with_selected(rows[ix], !rows[ix].selected))
    } else {
        rows
    }
}

/// The status of the row at `ix` set, if there is such a row.
pub open spec fn status_set(rows: Seq<FileRow>, ix: int, status: RowStatus) -> Seq<FileRow> {
    if 0 <= ix < rows.len() {
        rows.update(ix, with_status(rows[ix], status))
    } else {
        rows
    }
}

/// The indices, in increasing order, of the rows for which `p` holds.
pub open spec fn indices_where(rows: Seq<FileRow>, p: spec_fn(FileRow) -> bool) -> Seq<usize>
    decreases rows.len(),
{
    if rows.len() == 0 {
        Seq::empty()
    } else {
        let before = indices_where(rows.drop_last(), p);
        if p(rows.last()) {
            before.push((rows.len() - 1) as usize)
        } else {
            before
        }
    }
}

/// The number of rows for which `p` holds.
pub open spec fn count_where(rows: Seq<FileRow>, p: spec_fn(FileRow) -> bool) -> nat
    decreases rows.len(),
{
    if rows.len() == 0 {
        0
    } else {
        count_where(rows.drop_last(), p) + if p(rows.last()) {
            1nat
        } else {
            0nat
        }
    }
}

/// What the header checkbox shows for these rows.
pub open spec fn header_state(rows: Seq<FileRow>) -> HeaderSelection {
    let eligible = count_where(rows, |r: FileRow| row_eligible(r));
    let selected = count_where(rows, |r: FileRow| row_eligible_selected(r));
    if eligible == 0 {
        HeaderSelection::NothingEligible
    } else if selected == eligible {
        HeaderSelection::All
    } else {
        HeaderSelection::NotAll
    }
}

/// `indices_where` holds exactly the indices whose rows satisfy `p`, in
/// increasing order.
pub proof fn lemma_indices_where(rows: Seq<FileRow>, p: spec_fn(FileRow) -> bool)
    requires
        rows.len() <= usize::MAX,
    ensures
        forall|k: int|
            0 <= k < indices_where(rows, p).len() ==> #[trigger] indices_where(rows, p)[k] < rows.len()
                && p(rows[indices_where(rows, p)[k] as int]),
        forall|k1: int, k2: int|
            0 <= k1 < k2 < indices_where(rows, p).len() ==> #[trigger] indices_where(rows, p)[k1]
                < #[trigger] indices_where(rows, p)[k2],
        forall|i: int|
            0 <= i < rows.len() && p(#[trigger] rows[i]) ==> indices_where(rows, p).contains(
                i as usize,
            ),
    decreases rows.len(),
{
    if rows.len() > 0 {
        let d = rows.drop_last();
        lemma_indices_where(d, p);
        let before = indices_where(d, p);
        assert forall|k: int|
            0 <= k < before.len() implies before[k] < d.len() && rows[before[k] as int] == d[before[k] as int] by {}
        if p(rows.last()) {
            let after = before.push((rows.len() - 1) as usize);
            assert(after[before.len() as int] == rows.len() - 1);
            assert forall|i: int| 0 <= i < rows.len() && p(#[trigger] rows[i]) implies after.contains(
                i as usize,
            ) by {
                if i < d.len() {
                    assert(rows[i] == d[i]);
                    let k = choose|k: int| 0 <= k < before.len() && before[k] == i as usize;
                    assert(after[k] == i as usize);
                }
            }
        } else {
            assert forall|i: int| 0 <= i < rows.len() && p(#[trigger] rows[i]) implies before.contains(
                i as usize,
            ) by {
                assert(i < d.len());
                assert(rows[i] == d[i]);
            }
        }
    }
}

/// Rows that agree on `p` give the same indices and counts.
pub proof fn lemma_where_congruent(
    a: Seq<FileRow>,
    b: Seq<FileRow>,
    p: spec_fn(FileRow) -> bool,
    q: spec_fn(FileRow) -> bool,
)
    requires
        a.len() == b.len(),
        forall|i: int| 0 <= i < a.len() ==> p(a[i]) == q(b[i]),
    ensures
        indices_where(a, p) == indices_where(b, q),
        count_where(a, p) == count_where(b, q),
    decreases a.len(),
{
    if a.len() > 0 {
        lemma_where_congruent(a.drop_last(), b.drop_last(), p, q);
    }
}

/// Among the rows satisfying `p`, those also satisfying `q` are as many as
/// all of them exactly when every row satisfying `p` satisfies `q`.
pub proof fn lemma_count_all(
    rows: Seq<FileRow>,
    p: spec_fn(FileRow) -> bool,
    pq: spec_fn(FileRow) -> bool,
    q: spec_fn(FileRow) -> bool,
)
    requires
        forall|r: FileRow| #[trigger] pq(r) == (p(r) && q(r)),
    ensures
        count_where(rows, pq) <= count_where(rows, p),
        (count_where(rows, pq) == count_where(rows, p)) == (forall|i: int|
            0 <= i < rows.len() && p(#[trigger] rows[i]) ==> q(rows[i])),
    decreases rows.len(),
{
    if rows.len() > 0 {
        let d = rows.drop_last();
        lemma_count_all(d, p, pq, q);
        assert forall|i: int| 0 <= i < d.len() implies #[trigger] d[i] == rows[i] by {}
        if (forall|i: int| 0 <= i < rows.len() && p(#[trigger] rows[i]) ==> q(rows[i])) {
            assert forall|i: int| 0 <= i < d.len() && p(#[trigger] d[i]) implies q(d[i]) by {
                assert(d[i] == rows[i]);
            }
        }
        if (forall|i: int| 0 <= i < d.len() && p(#[trigger] d[i]) ==> q(d[i])) && (p(rows.last()) ==> q(rows.last())) {
            assert forall|i: int| 0 <= i < rows.len() && p(#[trigger] rows[i]) implies q(rows[i]) by {
                if i < d.len() {
                    assert(d[i] == rows[i]);
                }
            }
        }
    }
}

/// No row satisfying `p` leaves no index and a count of none, and the other
/// way round.
pub proof fn lemma_where_none(rows: Seq<FileRow>, p: spec_fn(FileRow) -> bool)
    ensures
        (count_where(rows, p) == 0) == (forall|i: int| 0 <= i < rows.len() ==> !p(#[trigger] rows[i])),
        (forall|i: int| 0 <= i < rows.len() ==> !p(#[trigger] rows[i])) ==> indices_where(rows, p).len() == 0,
    decreases rows.len(),
{
    if rows.len() > 0 {
        let d = rows.drop_last();
        lemma_where_none(d, p);
        assert forall|i: int| 0 <= i < d.len() implies #[trigger] d[i] == rows[i] by {}
        if forall|i: int| 0 <= i < rows.len() ==> !p(#[trigger] rows[i]) {
            assert(!p(rows[rows.len() - 1]));
            assert forall|i: int| 0 <= i < d.len() implies !p(#[trigger] d[i]) by {
                assert(d[i] == rows[i]);
            }
        }
        if count_where(rows, p) == 0 {
            assert forall|i: int| 0 <= i < rows.len() implies !p(#[trigger] rows[i]) by {
                if i < d.len() {
                    assert(d[i] == rows[i]);
                }
            }
        }
    }
}

/// The header checkbox shows "all" exactly when some row can be applied
/// and every row that can be applied is selected, and shows "nothing
/// eligible" exactly when no row can be applied.
pub proof fn header_all_iff_every_eligible_selected(rows: Seq<FileRow>)
    ensures
        (header_state(rows) == HeaderSelection::All) == ((exists|i: int|
            0 <= i < rows.len() && row_eligible(#[trigger] rows[i])) && (forall|i: int|
            0 <= i < rows.len() && row_eligible(#[trigger] rows[i]) ==> rows[i].selected)),
        (header_state(rows) == HeaderSelection::NothingEligible) == (forall|i: int|
            0 <= i < rows.len() ==> !row_eligible(#[trigger] rows[i])),
{
    let pe = |r: FileRow| row_eligible(r);
    let ps = |r: FileRow| row_eligible_selected(r);
    let q = |r: FileRow| r.selected;
    lemma_count_all(rows, pe, ps, q);
    lemma_where_none(rows, pe);
    assert((forall|i: int| 0 <= i < rows.len() ==> !pe(#[trigger] rows[i])) == (forall|i: int|
        0 <= i < rows.len() ==> !row_eligible(#[trigger] rows[i])));
}

/// After every eligible row is selected, the header checkbox never shows
/// "not all".
pub proof fn select_all_fills_the_header(rows: Seq<FileRow>)
    ensures
        header_state(eligible_all_selected(rows)) != HeaderSelection::NotAll,
{
    let after = eligible_all_selected(rows);
    header_all_iff_every_eligible_selected(after);
    assert forall|i: int| 0 <= i < after.len() && row_eligible(#[trigger] after[i]) implies after[i].selected by {
        assert(row_eligible(rows[i]));
    }
}

/// After every row is unselected, no row is waiting to be applied, and the
/// header checkbox shows "not all" unless no row can be applied.
pub proof fn deselect_all_leaves_nothing_pending(rows: Seq<FileRow>)
    ensures
        indices_where(all_deselected(rows), |r: FileRow| row_pending(r)).len() == 0,
        header_state(all_deselected(rows)) == if header_state(rows) == HeaderSelection::NothingEligible {
            HeaderSelection::NothingEligible
        } else {
            HeaderSelection::NotAll
        },
{
    let after = all_deselected(rows);
    lemma_where_none(after, |r: FileRow| row_pending(r));
    header_all_iff_every_eligible_selected(after);
    header_all_iff_every_eligible_selected(rows);
    assert forall|i: int| 0 <= i < rows.len() implies row_eligible(#[trigger] rows[i]) == row_eligible(after[i]) by {}
    if header_state(after) == HeaderSelection::All {
        let i = choose|i: int| 0 <= i < after.len() && row_eligible(#[trigger] after[i]);
        assert(!after[i].selected);
    }
    if header_state(rows) != HeaderSelection::NothingEligible {
        let i = choose|i: int| 0 <= i < rows.len() && row_eligible(#[trigger] rows[i]);
        assert(row_eligible(after[i]));
    } else {
        assert forall|i: int| 0 <= i < after.len() implies !row_eligible(#[trigger] after[i]) by {
            assert(!row_eligible(rows[i]));
        }
    }
}

/// Toggling the same row twice leaves the rows as they were.
pub proof fn toggle_twice_restores(rows: Seq<FileRow>, ix: int)
    ensures
        toggled(toggled(rows, ix), ix) == rows,
{
    if 0 <= ix < rows.len() && row_eligible(rows[ix]) {
        assert(toggled(toggled(rows, ix), ix) =~= rows);
    }
}

/// A row marked applied is no longer waiting to be applied.
pub proof fn applied_rows_are_not_pending(rows: Seq<FileRow>, ix: int)
    requires
        rows.len() <= usize::MAX,
        0 <= ix < rows.len(),
    ensures
        !indices_where(status_set(rows, ix, RowStatus::Applied), |r: FileRow| row_pending(r)).contains(
            ix as usize,
        ),
{
    let after = status_set(rows, ix, RowStatus::Applied);
    let p = |r: FileRow| row_pending(r);
    lemma_indices_where(after, p);
    if indices_where(after, p).contains(ix as usize) {
        let k = choose|k: int| 0 <= k < indices_where(after, p).len() && indices_where(after, p)[k] == ix as usize;
        assert(p(after[indices_where(after, p)[k] as int]));
    }
}

/// With the filter off every row is shown, in order.
pub proof fn all_rows_shown_without_filter(rows: Seq<FileRow>)
    requires
        rows.len() <= usize::MAX,
    ensures
        indices_where(rows, |r: FileRow| row_shown(r, false)) == Seq::new(rows.len(), |i: int| i as usize),
    decreases rows.len(),
{
    if rows.len() > 0 {
        all_rows_shown_without_filter(rows.drop_last());
        assert(indices_where(rows, |r: FileRow| row_shown(r, false)) =~= Seq::new(rows.len(), |i: int| i as usize));
    } else {
        assert(indices_where(rows, |r: FileRow| row_shown(r, false)) =~= Seq::new(rows.len(), |i: int| i as usize));
    }
}

/// The keys of the table's columns, in order: the selection checkbox, the
/// path, the current lens, the matched rule and the status.
pub open spec fn column_keys() -> Seq<Seq<char>> {
    seq!["selected"@, "path"@, "lens"@, "rule"@, "status"@]
}

/// The column keys that can be sorted by.
pub open spec fn sortable_key(key: Seq<char>) -> bool {
    key == "path"@ || key == "lens"@ || key == "rule"@
}

/// The columns the table can be sorted by.
#[derive(Copy, Clone, Debug, PartialEq, Eq, Structural)]
pub enum SortColumn {
    Path,
    Lens,
    Rule,
}

/// The column a key names, if it can be sorted by.
pub open spec fn sort_column_of(key: Seq<char>) -> Option<SortColumn> {
    if key == "path"@ {
        Some(SortColumn::Path)
    } else if key == "lens"@ {
        Some(SortColumn::Lens)
    } else if key == "rule"@ {
        Some(SortColumn::Rule)
    } else {
        None
    }
}

/// The order of two matched rules, as -1, 0 or 1: no rule first, then by
/// name.
pub open spec fn rule_order(a: Option<String>, b: Option<String>) -> int {
    match (a, b) {
        (None, None) => 0,
        (None, Some(_)) => -1,
        (Some(_), None) => 1,
        (Some(x), Some(y)) => text_order(x@, y@),
    }
}

/// The order of two rows by a column, as -1, 0 or 1: by path, by the lens
/// shown, or by the rule matched.
pub open spec fn row_order(column: SortColumn, a: FileRow, b: FileRow) -> int {
    match column {
        SortColumn::Path => path_order_of(a.rel_path@, b.rel_path@),
        SortColumn::Lens => text_order(a.current_lens@, b.current_lens@),
        SortColumn::Rule => rule_order(a.matched_rule, b.matched_rule),
    }
}

/// The order of two rows by a column, ascending or descending.
pub open spec fn directed_order(column: SortColumn, descending: bool, a: FileRow, b: FileRow) -> int {
    if descending {
        row_order(column, b, a)
    } else {
        row_order(column, a, b)
    }
}

/// The rows at places `k` and `k + 1` of `order` are in order, and if they
/// sort alike, the one that came first in `rows` comes first.
pub open spec fn adjacent_in_order(
    rows: Seq<FileRow>,
    column: SortColumn,
    descending: bool,
    order: Seq<usize>,
    k: int,
) -> bool {
    let c = directed_order(column, descending, rows[order[k] as int], rows[order[k + 1] as int]);
    c <= 0 && (c == 0 ==> order[k] < order[k + 1])
}

/// `order` names each of the rows once, and lists them sorted by the
/// column, stably: as a stable sort leaves them.
pub open spec fn sorts(rows: Seq<FileRow>, column: SortColumn, descending: bool, order: Seq<usize>) -> bool {
    &&& order.len() == rows.len()
    &&& forall|k: int| 0 <= k < order.len() ==> #[trigger] order[k] < rows.len()
    &&& forall|k1: int, k2: int| 0 <= k1 < k2 < order.len() ==> #[trigger] order[k1] != #[trigger] order[k2]
    &&& forall|k: int| 0 <= k < order.len() - 1 ==> #[trigger] adjacent_in_order(rows, column, descending, order, k)
}

/// What the context menu of a row offers beyond revealing the file.
#[derive(Clone, Debug, PartialEq, Eq)]
pub enum RowAction {
    /// Open the settings on the rule the file matched.
    EditRule(String),
    /// Make a rule from the file at this path.
    CreateRule(String),
}

/// The context menu of a row: the file to reveal, and what else it offers.
#[derive(Clone, Debug, PartialEq, Eq)]
pub struct RowMenu {
    pub reveal_path: String,
    pub action: Option<RowAction>,
}

/// How the header checkbox is drawn for a state: (checked, disabled).
pub fn header_checkbox(state: HeaderSelection) -> (r: (bool, bool))
    ensures
        r == match state {
            HeaderSelection::NothingEligible => (false, true),
            HeaderSelection::NotAll => (false, false),
            HeaderSelection::All => (true, false),
        },
{
    match state {
        HeaderSelection::NothingEligible => (false, true),
        HeaderSelection::NotAll => (false, false),
        HeaderSelection::All => (true, false),
    }
}

/// The text of the status cell: none while pending; a failure's message is
/// shown beside it as a tooltip.
pub fn status_label(status: &RowStatus) -> (r: (Option<&'static str>, Option<String>))
    ensures
        match status {
            RowStatus::Pending => r.0 is None && r.1 is None,
            RowStatus::Applying => r.0 matches Some(t) && t@ == "Applying\u{2026}"@ && r.1 is None,
            RowStatus::Applied => r.0 matches Some(t) && t@ == "Applied"@ && r.1 is None,
            RowStatus::Failed(err) => r.0 matches Some(t) && t@ == "Failed"@ && r.1 == Some(*err),
        },
{
    match status {
        RowStatus::Pending => (None, None),
        RowStatus::Applying => (Some("Applying\u{2026}"), None),
        RowStatus::Applied => (Some("Applied"), None),
        RowStatus::Failed(err) => (Some("Failed"), Some(err.clone())),
    }
}

/// What a text cell shows: the text, or a dash when there is none.
pub open spec fn cell_text_of(text: Option<Seq<char>>) -> Seq<char> {
    match text {
        Some(t) => if t.len() == 0 {
            "\u{2014}"@
        } else {
            t
        },
        None => "\u{2014}"@,
    }
}

/// The text of the lens cell: the lens, or a dash when it is unknown.
pub fn lens_cell_text(row: &FileRow) -> (r: String)
    ensures
        r@ == cell_text_of(Some(row.current_lens@)),
{
    if row.current_lens.unicode_len() == 0 {
        "\u{2014}".to_owned()
    } else {
        row.current_lens.clone()
    }
}

/// The text of the rule cell: the rule matched, or a dash.
pub fn rule_cell_text(row: &FileRow) -> (r: String)
    ensures
        r@ == match row.matched_rule {
            Some(name) => name@,
            None => "\u{2014}"@,
        },
{
    match &row.matched_rule {
        Some(name) => name.clone(),
        None => "\u{2014}".to_owned(),
    }
}

/// The rows of the files table, with the ones currently shown.
pub struct FilesDelegate {
    pub rows: Vec<FileRow>,
    pub columns: Vec<String>,
    pub matches_only: bool,
    pub busy: bool,
    pub visible: Vec<usize>,
}

impl FilesDelegate {
    /// The shown rows are exactly those that the filter lets through, in
    /// order.
    pub open spec fn wf(&self) -> bool {
        self.visible@ == indices_where(self.rows@, |r: FileRow| row_shown(r, self.matches_only))
    }

    /// An empty table, showing all rows, not busy.
    pub fn new() -> (r: FilesDelegate)
        ensures
            r.wf(),
            r.rows@.len() == 0,
            r.visible@.len() == 0,
            r.columns@.map_values(|c: String| c@) == column_keys(),
            !r.matches_only,
            !r.busy,
    {
        proof {
            reveal_strlit("selected");
            reveal_strlit("path");
            reveal_strlit("lens");
            reveal_strlit("rule");
            reveal_strlit("status");
        }
        let mut columns: Vec<String> = Vec::new();
        columns.push("selected".to_owned());
        columns.push("path".to_owned());
        columns.push("lens".to_owned());
        columns.push("rule".to_owned());
        columns.push("status".to_owned());
        assert(columns@.map_values(|c: String| c@) =~= column_keys());
        FilesDelegate { rows: Vec::new(), columns, matches_only: false, busy: false, visible: Vec::new() }
    }

    /// Mark a scan or an apply as running or finished.
    pub fn set_busy(&mut self, busy: bool)
        ensures
            final(self).busy == busy,
            final(self).rows@ == old(self).rows@,
            final(self).visible@ == old(self).visible@,
            final(self).matches_only == old(self).matches_only,
    {
        self.busy = busy;
    }

    /// Whether the column with this key can be sorted by: the data columns,
    /// and nothing while busy.
    pub fn is_sortable(&self, key: &str) -> (r: bool)
        ensures
            r == (!self.busy && sortable_key(key@)),
    {
        proof {
            reveal_strlit("path");
            reveal_strlit("lens");
            reveal_strlit("rule");
        }
        !self.busy && (same_text(key, "path") || same_text(key, "lens") || same_text(key, "rule"))
    }

    /// Recompute which rows are shown.
    fn rebuild_visible(&mut self)
        ensures
            final(self).wf(),
            final(self).rows@ == old(self).rows@,
            final(self).matches_only == old(self).matches_only,
            final(self).busy == old(self).busy,
    {
        let ghost p = |r: FileRow| row_shown(r, self.matches_only);
        let mut visible: Vec<usize> = Vec::new();
        let n = self.rows.len();
        let mut i: usize = 0;
        while i < n
            invariant
                n == self.rows@.len(),
                i <= n,
                p == |r: FileRow| row_shown(r, self.matches_only),
                visible@ == indices_where(self.rows@.subrange(0, i as int), p),
            decreases n - i,
        {
            proof {
                assert(self.rows@.subrange(0, i + 1).drop_last() =~= self.rows@.subrange(0, i as int));
            }
            if !self.matches_only || self.rows[i].matched_rule.is_some() {
                visible.push(i);
            }
            i = i + 1;
        }
        proof {
            assert(self.rows@.subrange(0, n as int) =~= self.rows@);
        }
        self.visible = visible;
    }

    /// Show only matched rows, or all rows.
    pub fn set_matches_only(&mut self, value: bool)
        requires
            old(self).wf(),
        ensures
            final(self).wf(),
            final(self).matches_only == value,
            final(self).rows@ == old(self).rows@,
            final(self).busy == old(self).busy,
    {
        if self.matches_only == value {
            return;
        }
        self.matches_only = value;
        self.rebuild_visible();
    }

    /// Drop every row.
    pub fn clear(&mut self)
        ensures
            final(self).wf(),
            final(self).rows@.len() == 0,
            final(self).matches_only == old(self).matches_only,
            final(self).busy == old(self).busy,
    {
        self.rows.clear();
        self.rebuild_visible();
    }

    /// Add a row at the end; it is shown if the filter lets it through.
    pub fn push(&mut self, row: FileRow)
        requires
            old(self).wf(),
        ensures
            final(self).wf(),
            final(self).rows@ == old(self).rows@.push(row),
            final(self).matches_only == old(self).matches_only,
            final(self).busy == old(self).busy,
    {
        let index = self.rows.len();
        let is_visible = !self.matches_only || row.matched_rule.is_some();
        let ghost before = self.rows@;
        self.rows.push(row);
        let _count = self.rows.len();
        if is_visible {
            self.visible.push(index);
        }
        proof {
            assert(self.rows@.drop_last() =~= before);
        }
    }

    /// The number of rows.
    pub fn len(&self) -> (r: usize)
        ensures
            r == self.rows@.len(),
    {
        self.rows.len()
    }

    /// The number of rows shown.
    pub fn rows_count(&self) -> (r: usize)
        ensures
            r == self.visible@.len(),
    {
        self.visible.len()
    }

    /// Flip the selection of the row at this index among all rows (not
    /// among the shown ones), if it can be applied; otherwise nothing
    /// changes.
    pub fn toggle_selected(&mut self, row_ix: usize)
        requires
            old(self).wf(),
        ensures
            final(self).wf(),
            final(self).matches_only == old(self).matches_only,
            final(self).busy == old(self).busy,
            final(self).rows@ == toggled(old(self).rows@, row_ix as int),
    {
        let ghost before = self.rows@;
        if row_ix < self.rows.len() && self.rows[row_ix].matched_rule.is_some()
            && self.rows[row_ix].error.is_none() {
            let row = &mut self.rows[row_ix];
            row.selected = !row.selected;
            proof {
                lemma_where_congruent(
                    before,
                    self.rows@,
                    |r: FileRow| row_shown(r, self.matches_only),
                    |r: FileRow| row_shown(r, self.matches_only),
                );
            }
        }
    }

    /// Indices of the rows the user wants applied: selected, matched, no
    /// read error, not already applied.
    pub fn pending_apply_indices(&self) -> (r: Vec<usize>)
        ensures
            r@ == indices_where(self.rows@, |row: FileRow| row_pending(row)),
    {
        let ghost p = |row: FileRow| row_pending(row);
        let mut out: Vec<usize> = Vec::new();
        let n = self.rows.len();
        let mut i: usize = 0;
        while i < n
            invariant
                n == self.rows@.len(),
                i <= n,
                p == |row: FileRow| row_pending(row),
                out@ == indices_where(self.rows@.subrange(0, i as int), p),
            decreases n - i,
        {
            proof {
                assert(self.rows@.subrange(0, i + 1).drop_last() =~= self.rows@.subrange(0, i as int));
            }
            let row = &self.rows[i];
            if row.selected && row.matched_entry.is_some() && row.error.is_none() && !matches!(
                row.status,
                RowStatus::Applied
            ) {
                out.push(i);
            }
            i = i + 1;
        }
        proof {
            assert(self.rows@.subrange(0, n as int) =~= self.rows@);
        }
        out
    }

    /// Select every row that can be applied; the others keep their
    /// selection.
    pub fn select_all_eligible(&mut self)
        requires
            old(self).wf(),
        ensures
            final(self).wf(),
            final(self).matches_only == old(self).matches_only,
            final(self).busy == old(self).busy,
            final(self).rows@ == eligible_all_selected(old(self).rows@),
    {
        let ghost before = self.rows@;
        let n = self.rows.len();
        let mut i: usize = 0;
        while i < n
            invariant
                n == self.rows@.len(),
                n == before.len(),
                i <= n,
                self.matches_only == old(self).matches_only,
                self.busy == old(self).busy,
                self.visible@ == old(self).visible@,
                old(self).wf(),
                before == old(self).rows@,
                forall|j: int|
                    0 <= j < i ==> #[trigger] self.rows@[j] == if row_eligible(before[j]) {
                        with_selected(before[j], true)
                    } else {
                        before[j]
                    },
                forall|j: int| i <= j < n ==> #[trigger] self.rows@[j] == before[j],
            decreases n - i,
        {
            if self.rows[i].matched_rule.is_some() && self.rows[i].error.is_none() {
                let row = &mut self.rows[i];
                row.selected = true;
            }
            i = i + 1;
        }
        proof {
            assert(self.rows@ =~= eligible_all_selected(before));
            lemma_where_congruent(
                before,
                self.rows@,
                |r: FileRow| row_shown(r, self.matches_only),
                |r: FileRow| row_shown(r, self.matches_only),
            );
        }
    }

    /// Unselect every row.
    pub fn deselect_all(&mut self)
        requires
            old(self).wf(),
        ensures
            final(self).wf(),
            final(self).matches_only == old(self).matches_only,
            final(self).busy == old(self).busy,
            final(self).rows@ == all_deselected(old(self).rows@),
    {
        let ghost before = self.rows@;
        let n = self.rows.len();
        let mut i: usize = 0;
        while i < n
            invariant
                n == self.rows@.len(),
                n == before.len(),
                i <= n,
                self.matches_only == old(self).matches_only,
                self.busy == old(self).busy,
                self.visible@ == old(self).visible@,
                old(self).wf(),
                before == old(self).rows@,
                forall|j: int| 0 <= j < i ==> #[trigger] self.rows@[j] == with_selected(before[j], false),
                forall|j: int| i <= j < n ==> #[trigger] self.rows@[j] == before[j],
            decreases n - i,
        {
            let row = &mut self.rows[i];
            row.selected = false;
            i = i + 1;
        }
        proof {
            assert(self.rows@ =~= all_deselected(before));
            lemma_where_congruent(
                before,
                self.rows@,
                |r: FileRow| row_shown(r, self.matches_only),
                |r: FileRow| row_shown(r, self.matches_only),
            );
        }
    }

    /// What the header checkbox should show, based on the rows that can
    /// actually be applied.
    pub fn header_selection_state(&self) -> (r: HeaderSelection)
        ensures
            r == header_state(self.rows@),
    {
        let ghost pe = |r: FileRow| row_eligible(r);
        let ghost ps = |r: FileRow| row_eligible_selected(r);
        let n = self.rows.len();
        let mut eligible: usize = 0;
        let mut selected: usize = 0;
        let mut i: usize = 0;
        while i < n
            invariant
                n == self.rows@.len(),
                i <= n,
                pe == |r: FileRow| row_eligible(r),
                ps == |r: FileRow| row_eligible_selected(r),
                eligible == count_where(self.rows@.subrange(0, i as int), pe),
                selected == count_where(self.rows@.subrange(0, i as int), ps),
                selected <= eligible <= i,
            decreases n - i,
        {
            proof {
                assert(self.rows@.subrange(0, i + 1).drop_last() =~= self.rows@.subrange(0, i as int));
            }
            let row = &self.rows[i];
            if row.matched_rule.is_some() && row.error.is_none() {
                eligible = eligible + 1;
                if row.selected {
                    selected = selected + 1;
                }
            }
            i = i + 1;
        }
        proof {
            assert(self.rows@.subrange(0, n as int) =~= self.rows@);
        }
        if eligible == 0 {
            HeaderSelection::NothingEligible
        } else if selected == eligible {
            HeaderSelection::All
        } else {
            HeaderSelection::NotAll
        }
    }

    /// The index among all rows of the row shown at `row_ix`.
    pub fn visible_row(&self, row_ix: usize) -> (r: usize)
        requires
            self.wf(),
            row_ix < self.visible@.len(),
        ensures
            r == self.visible@[row_ix as int],
            r < self.rows@.len(),
    {
        let _ = self.rows.len();
        proof {
            lemma_indices_where(self.rows@, |r: FileRow| row_shown(r, self.matches_only));
        }
        self.visible[row_ix]
    }

    /// The column a key names, if it can be sorted by.
    fn sort_column(key: &str) -> (r: Option<SortColumn>)
        ensures
            r == sort_column_of(key@),
    {
        proof {
            reveal_strlit("path");
            reveal_strlit("lens");
            reveal_strlit("rule");
        }
        if same_text(key, "path") {
            Some(SortColumn::Path)
        } else if same_text(key, "lens") {
            Some(SortColumn::Lens)
        } else if same_text(key, "rule") {
            Some(SortColumn::Rule)
        } else {
            None
        }
    }

    /// The order of the rows at `a` and `b` by a column, ascending or
    /// descending, as -1, 0 or 1; the other way round it is the opposite.
    fn compare_rows(&self, column: SortColumn, descending: bool, a: usize, b: usize) -> (r: i8)
        requires
            a < self.rows@.len(),
            b < self.rows@.len(),
        ensures
            r == directed_order(column, descending, self.rows@[a as int], self.rows@[b as int]),
            directed_order(column, descending, self.rows@[b as int], self.rows@[a as int]) == -r,
    {
        let (x, y) = if descending {
            (b, a)
        } else {
            (a, b)
        };
        let rx = &self.rows[x];
        let ry = &self.rows[y];
        match column {
            SortColumn::Path => compare_paths(rx.rel_path.as_str(), ry.rel_path.as_str()),
            SortColumn::Lens => {
                proof {
                    lemma_text_order_flips(rx.current_lens@, ry.current_lens@);
                }
                compare_text(rx.current_lens.as_str(), ry.current_lens.as_str())
            },
            SortColumn::Rule => match (&rx.matched_rule, &ry.matched_rule) {
                (None, None) => 0,
                (None, Some(_)) => -1,
                (Some(_), None) => 1,
                (Some(p), Some(q)) => {
                    proof {
                        lemma_text_order_flips(p@, q@);
                    }
                    compare_text(p.as_str(), q.as_str())
                },
            },
        }
    }

    /// The order that sorts the rows by a column, stably, as an insertion
    /// sort finds it.
    fn sorted_order(&self, column: SortColumn, descending: bool) -> (order: Vec<usize>)
        ensures
            sorts(self.rows@, column, descending, order@),
    {
        let ghost rows = self.rows@;
        let n = self.rows.len();
        let mut order: Vec<usize> = Vec::new();
        let mut i: usize = 0;
        while i < n
            invariant
                rows == self.rows@,
                n == rows.len(),
                i <= n,
                order@.len() == i,
                forall|k: int| 0 <= k < i ==> #[trigger] order@[k] < i,
                forall|k1: int, k2: int| 0 <= k1 < k2 < i ==> #[trigger] order@[k1] != #[trigger] order@[k2],
                forall|k: int| 0 <= k < i - 1 ==> #[trigger] adjacent_in_order(rows, column, descending, order@, k),
            decreases n - i,
        {
            let mut j: usize = i;
            let mut moving = true;
            while moving && j > 0
                invariant
                    rows == self.rows@,
                    n == rows.len(),
                    i < n,
                    j <= i,
                    order@.len() == i,
                    forall|k: int| 0 <= k < i ==> #[trigger] order@[k] < i,
                    j < i ==> directed_order(column, descending, rows[i as int], rows[order@[j as int] as int]) < 0,
                    !moving && j > 0 ==> directed_order(column, descending, rows[order@[j - 1] as int], rows[i as int]) <= 0,
                decreases j + if moving { 1int } else { 0int },
            {
                let c = self.compare_rows(column, descending, i, order[j - 1]);
                if c < 0 {
                    j = j - 1;
                } else {
                    moving = false;
                }
            }
            let ghost before = order@;
            order.insert(j, i);
            proof {
                assert(order@ == before.insert(j as int, i));
                assert forall|k: int| 0 <= k < i + 1 implies #[trigger] order@[k] < i + 1 by {
                    if k < j {
                        assert(order@[k] == before[k]);
                    } else if k > j {
                        assert(order@[k] == before[k - 1]);
                    }
                }
                assert forall|k1: int, k2: int| 0 <= k1 < k2 < i + 1 implies #[trigger] order@[k1] != #[trigger] order@[k2] by {
                    let a = if k1 < j { k1 } else { k1 - 1 };
                    let b = if k2 < j { k2 } else { k2 - 1 };
                    if k1 != j && k2 != j {
                        assert(order@[k1] == before[a]);
                        assert(order@[k2] == before[b]);
                    } else if k1 == j {
                        assert(order@[k2] == before[b]);
                    } else {
                        assert(order@[k1] == before[a]);
                    }
                }
                assert forall|k: int| 0 <= k < i implies #[trigger] adjacent_in_order(rows, column, descending, order@, k) by {
                    if k < j - 1 {
                        assert(order@[k] == before[k]);
                        assert(order@[k + 1] == before[k + 1]);
                        assert(adjacent_in_order(rows, column, descending, before, k));
                    } else if k == j - 1 {
                        assert(order@[k] == before[k]);
                        assert(order@[k + 1] == i);
                    } else if k == j {
                        assert(order@[k] == i);
                        assert(order@[k + 1] == before[j as int]);
                    } else {
                        assert(order@[k] == before[k - 1]);
                        assert(order@[k + 1] == before[k]);
                        assert(adjacent_in_order(rows, column, descending, before, k - 1));
                    }
                }
            }
            i = i + 1;
        }
        order
    }

    /// Sort the rows by the column with this key, ascending or descending,
    /// as a stable sort does: rows that sort alike keep their order. A key
    /// that is not sortable leaves the rows as they are. Which rows are
    /// shown is worked out again.
    pub fn perform_sort(&mut self, key: &str, descending: bool)
        requires
            old(self).wf(),
        ensures
            final(self).wf(),
            final(self).matches_only == old(self).matches_only,
            final(self).busy == old(self).busy,
            match sort_column_of(key@) {
                None => final(self).rows@ == old(self).rows@,
                Some(column) => exists|order: Seq<usize>|
                    sorts(old(self).rows@, column, descending, order) && final(self).rows@
                        == order.map_values(|k: usize| old(self).rows@[k as int]),
            },
    {
        match Self::sort_column(key) {
            None => {
                self.rebuild_visible();
            },
            Some(column) => {
                let order = self.sorted_order(column, descending);
                let _ = self.reorder(order);
            },
        }
    }

    /// Put the rows in a new order: row `k` becomes the row that was at
    /// `order[k]`. `order` must name each row once; if it does not, nothing
    /// changes and the result is `false`. Which rows are shown is worked out
    /// again for the new order.
    fn reorder(&mut self, order: Vec<usize>) -> (r: bool)
        requires
            old(self).wf(),
        ensures
            final(self).wf(),
            final(self).matches_only == old(self).matches_only,
            final(self).busy == old(self).busy,
            r == (order@.len() == old(self).rows@.len() && (forall|k: int|
                0 <= k < order@.len() ==> #[trigger] order@[k] < old(self).rows@.len()) && (forall|
                k1: int,
                k2: int,
            | 0 <= k1 < k2 < order@.len() ==> #[trigger] order@[k1] != #[trigger] order@[k2])),
            r ==> final(self).rows@ == order@.map_values(|k: usize| old(self).rows@[k as int]),
            !r ==> final(self).rows@ == old(self).rows@,
    {
        let n = self.rows.len();
        if order.len() != n {
            return false;
        }
        let mut seen: Vec<bool> = Vec::new();
        let mut j: usize = 0;
        while j < n
            invariant
                j <= n,
                seen@.len() == j,
                forall|k: int| 0 <= k < j ==> !#[trigger] seen@[k],
            decreases n - j,
        {
            seen.push(false);
            j = j + 1;
        }
        let mut i: usize = 0;
        while i < n
            invariant
                n == self.rows@.len(),
                n == order@.len(),
                seen@.len() == n,
                self.rows@ == old(self).rows@,
                self.visible@ == old(self).visible@,
                self.matches_only == old(self).matches_only,
                self.busy == old(self).busy,
                old(self).wf(),
                i <= n,
                forall|k: int| 0 <= k < i ==> #[trigger] order@[k] < n,
                forall|k1: int, k2: int| 0 <= k1 < k2 < i ==> #[trigger] order@[k1] != #[trigger] order@[k2],
                forall|x: int| 0 <= x < n ==> (#[trigger] seen@[x] <==> exists|k: int| 0 <= k < i && order@[k] == x),
            decreases n - i,
        {
            let x = order[i];
            if x >= n {
                return false;
            }
            if seen[x] {
                proof {
                    let k = choose|k: int| 0 <= k < i && order@[k] == x;
                    assert(order@[k] == order@[i as int]);
                }
                return false;
            }
            seen.set(x, true);
            i = i + 1;
        }
        let ghost before = self.rows@;
        let mut slots: Vec<Option<FileRow>> = Vec::new();
        while self.rows.len() > 0
            invariant
                slots@.len() + self.rows@.len() == n,
                n == before.len(),
                self.matches_only == old(self).matches_only,
                self.busy == old(self).busy,
                forall|x: int| 0 <= x < slots@.len() ==> #[trigger] slots@[x] == Some(before[x]),
                self.rows@ == before.subrange(slots@.len() as int, n as int),
            decreases self.rows@.len(),
        {
            let row = self.rows.remove(0);
            slots.push(Some(row));
        }
        let mut sorted: Vec<FileRow> = Vec::new();
        let mut k: usize = 0;
        while k < n
            invariant
                n == before.len(),
                n == order@.len(),
                slots@.len() == n,
                k <= n,
                self.matches_only == old(self).matches_only,
                self.busy == old(self).busy,
                sorted@.len() == k,
                forall|m: int| 0 <= m < n ==> #[trigger] order@[m] < n,
                forall|k1: int, k2: int| 0 <= k1 < k2 < n ==> #[trigger] order@[k1] != #[trigger] order@[k2],
                forall|j: int| 0 <= j < k ==> #[trigger] sorted@[j] == before[order@[j] as int],
                forall|x: int|
                    0 <= x < n ==> #[trigger] slots@[x] == if exists|j: int| 0 <= j < k && order@[j] == x {
                        None
                    } else {
                        Some(before[x])
                    },
            decreases n - k,
        {
            let x = order[k];
            proof {
                if exists|j: int| 0 <= j < k && order@[j] == x {
                    let j = choose|j: int| 0 <= j < k && order@[j] == x;
                    assert(order@[j] != order@[k as int]);
                }
            }
            let mut taken: Option<FileRow> = None;
            slots.set_and_swap(x, &mut taken);
            match taken {
                Some(row) => sorted.push(row),
                None => {},
            }
            proof {
                assert forall|y: int| 0 <= y < n implies #[trigger] slots@[y] == if exists|j: int|
                    0 <= j < k + 1 && order@[j] == y {
                    None
                } else {
                    Some(before[y])
                } by {
                    if y == x {
                        assert(order@[k as int] == y);
                    } else if exists|j: int| 0 <= j < k + 1 && order@[j] == y {
                        let j = choose|j: int| 0 <= j < k + 1 && order@[j] == y;
                        assert(j < k);
                    }
                }
            }
            k = k + 1;
        }
        self.rows = sorted;
        self.rebuild_visible();
        proof {
            assert(self.rows@ =~= order@.map_values(|m: usize| before[m as int]));
        }
        true
    }

    /// What a click on the header checkbox does: unselect every row when
    /// all that can be applied are selected, else select them all.
    pub fn toggle_all(&mut self)
        requires
            old(self).wf(),
        ensures
            final(self).wf(),
            final(self).matches_only == old(self).matches_only,
            final(self).busy == old(self).busy,
            final(self).rows@ == if header_state(old(self).rows@) == HeaderSelection::All {
                all_deselected(old(self).rows@)
            } else {
                eligible_all_selected(old(self).rows@)
            },
    {
        if self.header_selection_state() == HeaderSelection::All {
            self.deselect_all();
        } else {
            self.select_all_eligible();
        }
    }

    /// What the context menu of the row shown at `row_ix` offers besides
    /// revealing the file: nothing for a row that could not be read, else
    /// editing the rule it matched or making a rule from it.
    pub fn row_menu(&self, row_ix: usize) -> (r: RowMenu)
        requires
            self.wf(),
            row_ix < self.visible@.len(),
        ensures
            ({
                let row = self.rows@[self.visible@[row_ix as int] as int];
                &&& r.reveal_path == row.abs_path
                &&& row.error is Some ==> r.action is None
                &&& row.error is None ==> r.action == Some(match row.matched_rule {
                    Some(name) => RowAction::EditRule(name),
                    None => RowAction::CreateRule(row.abs_path),
                })
            }),
    {
        let abs_ix = self.visible_row(row_ix);
        let row = &self.rows[abs_ix];
        let action = if row.error.is_some() {
            None
        } else {
            match &row.matched_rule {
                Some(name) => Some(RowAction::EditRule(name.clone())),
                None => Some(RowAction::CreateRule(row.abs_path.clone())),
            }
        };
        RowMenu { reveal_path: row.abs_path.clone(), action }
    }

    /// Set the status of the row at this index, if there is one.
    pub fn set_status(&mut self, row_ix: usize, status: RowStatus)
        requires
            old(self).wf(),
        ensures
            final(self).wf(),
            final(self).matches_only == old(self).matches_only,
            final(self).busy == old(self).busy,
            final(self).rows@ == status_set(old(self).rows@, row_ix as int, status),
    {
        let ghost before = self.rows@;
        if row_ix < self.rows.len() {
            let row = &mut self.rows[row_ix];
            row.status = status;
            proof {
                lemma_where_congruent(
                    before,
                    self.rows@,
                    |r: FileRow| row_shown(r, self.matches_only),
                    |r: FileRow| row_shown(r, self.matches_only),
                );
            }
        }
    }
}

} // verus!
