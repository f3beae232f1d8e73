//! What the table and the detail windows put on screen, as plain values for
//! whoever draws them.

use vstd::prelude::*;
use vstd::string::*;

use crate::dice::{die_faces, faces, ints, DICE_NUM};
use crate::history::{LineView, RecordManager, RecordWindow, WindowView};
use crate::roll::{RecordView, RollRecord};
use crate::tools::{decimal, push_int};

verus! {

/// One row of a detail window: a die kind and what its dice showed.
pub struct DieRow {
    pub label: String,
    pub outcomes: Vec<i32>,
}

/// What a row of a detail window holds.
pub struct DieRowView {
    pub label: Seq<char>,
    pub outcomes: Seq<int>,
}

impl View for DieRow {
    type V = DieRowView;

    open spec fn view(&self) -> DieRowView {
        DieRowView { label: self.label@, outcomes: ints(self.outcomes@) }
    }
}

/// The content of a detail window.
pub struct DetailSheet {
    pub title: String,
    pub rows: Vec<DieRow>,
    pub constant: Option<i32>,
    pub total: i32,
}

/// What a detail window holds: its title, a row per die kind that was
/// rolled, the modifier if there is one, and the total.
pub struct SheetView {
    pub title: Seq<char>,
    pub rows: Seq<DieRowView>,
    pub constant: Option<int>,
    pub total: int,
}

/// The views of the rows of a sheet.
pub open spec fn row_views(rows: Seq<DieRow>) -> Seq<DieRowView> {
    rows.map_values(|r: DieRow| r@)
}

impl View for DetailSheet {
    type V = SheetView;

    open spec fn view(&self) -> SheetView {
        SheetView {
            title: self.title@,
            rows: row_views(self.rows@),
            constant: match self.constant {
                Some(c) => Some(c as int),
                None => None,
            },
            total: self.total as int,
        }
    }
}

/// The label of die kind `kind`, as in `D20`.
pub open spec fn die_label(kind: int) -> Seq<char> {
    seq!['D'] + decimal(faces(kind))
}

/// The rows for the first `kinds` die kinds of a record: one for each kind
/// with a non-zero count, in canonical kind order.
pub open spec fn rows_upto(record: RecordView, kinds: nat) -> Seq<DieRowView>
    decreases kinds,
{
    if kinds == 0 {
        Seq::empty()
    } else {
        let kind = kinds - 1;
        if record.dice.counts[kind] != 0 {
            rows_upto(record, kind as nat).push(
                DieRowView { label: die_label(kind), outcomes: record.outcomes[kind] },
            )
        } else {
            rows_upto(record, kind as nat)
        }
    }
}

/// The title of a record's detail window, as in `[12:30:05]  => 9`.
pub open spec fn title_of(record: RecordView) -> Seq<char> {
    seq!['['] + record.time.face() + seq![']', ' ', ' ', '=', '>', ' '] + decimal(record.total)
}

/// The content of a record's detail window.
pub open spec fn sheet_of(record: RecordView) -> SheetView {
    SheetView {
        title: title_of(record),
        rows: rows_upto(record, record.dice.counts.len()),
        constant: if record.dice.modifier != 0 {
            Some(record.dice.modifier)
        } else {
            None
        },
        total: record.total,
    }
}

/// One row of the history table.
pub struct TableRow {
    pub time: String,
    pub description: String,
    pub total: i32,
    pub detail: Option<DetailSheet>,
    pub newest: bool,
}

/// What a row of the history table holds: the time, description and total
/// of its record, the content of the record's detail window if it shows,
/// and whether the row is the newest, which is drawn apart from the others.
pub struct TableRowView {
    pub time: Seq<char>,
    pub description: Seq<char>,
    pub total: int,
    pub detail: Option<SheetView>,
    pub newest: bool,
}

/// The view of a sheet that may be absent.
pub open spec fn sheet_view(sheet: Option<DetailSheet>) -> Option<SheetView> {
    match sheet {
        Some(s) => Some(s@),
        None => None,
    }
}

impl View for TableRow {
    type V = TableRowView;

    open spec fn view(&self) -> TableRowView {
        TableRowView {
            time: self.time@,
            description: self.description@,
            total: self.total as int,
            detail: sheet_view(self.detail),
            newest: self.newest,
        }
    }
}

/// The row that shows `line`.
pub open spec fn table_row(line: LineView, newest: bool) -> TableRowView {
    TableRowView {
        time: line.record.time.face(),
        description: line.record.description,
        total: line.record.total,
        detail: if line.detail {
            Some(sheet_of(line.record))
        } else {
            None
        },
        newest,
    }
}

/// The rows of the table, oldest line first; the last row is the newest.
pub open spec fn table_rows(history: Seq<LineView>) -> Seq<TableRowView> {
    Seq::new(history.len(), |i: int| table_row(history[i], i == history.len() - 1))
}

/// The sheet of a detached window, or `None` once it has been dismissed.
pub open spec fn window_sheet(window: WindowView) -> Option<SheetView> {
    if window.open {
        Some(sheet_of(window.record))
    } else {
        None
    }
}

/// The sheets of the detached windows, in the windows' order.
pub open spec fn window_sheets(windows: Seq<WindowView>) -> Seq<Option<SheetView>> {
    windows.map_values(|w: WindowView| window_sheet(w))
}

/// The views of sheets that may be absent.
pub open spec fn sheet_views(sheets: Seq<Option<DetailSheet>>) -> Seq<Option<SheetView>> {
    sheets.map_values(|s: Option<DetailSheet>| sheet_view(s))
}

/// The views of the rows of a table.
pub open spec fn table_row_views(rows: Seq<TableRow>) -> Seq<TableRowView> {
    rows.map_values(|r: TableRow| r@)
}

fn copy_of(values: &Vec<i32>) -> (copy: Vec<i32>)
    ensures
        copy@ == values@,
{
    let mut copy: Vec<i32> = Vec::new();
    let mut i: usize = 0;
    while i < values.len()
        invariant
            i <= values.len(),
            copy@ == values@.take(i as int),
        decreases values.len() - i,
    {
        copy.push(values[i]);
        assert(copy@ =~= values@.take(i + 1));
        i += 1;
    }
    assert(values@.take(values.len() as int) =~= values@);
    copy
}

impl<const N: usize> RecordWindow<N> {
    /// The content of the detail window of `record`.
    pub fn show(record: &RollRecord<N>) -> (sheet: DetailSheet)
        ensures
            sheet@ == sheet_of(record@),
    {
        let state = record.state();
        let total: i32 = record.total();
        let mut title = String::new();
        proof {
            reveal_strlit("[");
            reveal_strlit("]  => ");
        }
        title.append("[");
        let clock = record.time().clock_text();
        title.append(clock.as_str());
        title.append("]  => ");
        push_int(&mut title, total);
        assert(title@ =~= title_of(record@));

        let mut rows: Vec<DieRow> = Vec::new();
        let mut kind: usize = 0;
        assert(record@.dice.counts.len() == N);
        while kind < N
            invariant
                kind <= N,
                state@ == record@.dice,
                record@.sound(),
                record@.dice.counts.len() == N,
                row_views(rows@) == rows_upto(record@, kind as nat),
            decreases N - kind,
        {
            if state.dice_num[kind] != 0 {
                assert(record@.dice.counts[kind as int] != 0);
                assert(kind < DICE_NUM);
                let mut label = String::new();
                proof {
                    reveal_strlit("D");
                }
                label.append("D");
                push_int(&mut label, die_faces(kind));
                assert(label@ =~= die_label(kind as int));
                let outcomes = copy_of(record.outcomes(kind));
                let ghost before = rows@;
                let row = DieRow { label, outcomes };
                rows.push(row);
                assert(row_views(rows@) =~= row_views(before).push(row@));
            }
            kind += 1;
        }
        let constant: Option<i32> = if state.constant != 0 {
            Some(state.constant)
        } else {
            None
        };
        DetailSheet { title, rows, constant, total }
    }
}

impl<const N: usize> RecordManager<N> {
    /// The rows of the history table, oldest line first.
    pub fn show_record_table(&self) -> (rows: Vec<TableRow>)
        ensures
            table_row_views(rows@) == table_rows(self@.history),
    {
        let count: usize = self.len();
        let mut rows: Vec<TableRow> = Vec::new();
        let mut i: usize = 0;
        while i < count
            invariant
                i <= count == self@.history.len(),
                rows.len() == i,
                forall|j: int|
                    0 <= j < i ==> (#[trigger] rows[j])@ == table_row(
                        self@.history[j],
                        j == count - 1,
                    ),
            decreases count - i,
        {
            let line = self.line(i);
            let detail: Option<DetailSheet> = if line.is_detail_show {
                Some(RecordWindow::show(&line.record))
            } else {
                None
            };
            let row = TableRow {
                time: line.record.time().clock_text(),
                description: line.record.description().clone(),
                total: line.record.total(),
                detail,
                newest: i + 1 == count,
            };
            rows.push(row);
            i += 1;
        }
        assert(table_row_views(rows@) =~= table_rows(self@.history));
        rows
    }

    /// The content of each detached window, in the windows' order; `None`
    /// stands for a window that was dismissed and is not drawn.
    pub fn show_remain_windows(&self) -> (sheets: Vec<Option<DetailSheet>>)
        ensures
            sheet_views(sheets@) == window_sheets(self@.windows),
    {
        let count: usize = self.window_count();
        let mut sheets: Vec<Option<DetailSheet>> = Vec::new();
        let mut i: usize = 0;
        while i < count
            invariant
                i <= count == self@.windows.len(),
                sheets.len() == i,
                forall|j: int|
                    0 <= j < i ==> sheet_view(#[trigger] sheets[j]) == window_sheet(
                        self@.windows[j],
                    ),
            decreases count - i,
        {
            let window = self.window(i);
            let sheet: Option<DetailSheet> = if window.should_open {
                Some(RecordWindow::show(&window.record))
            } else {
                None
            };
            sheets.push(sheet);
            i += 1;
        }
        assert(sheet_views(sheets@) =~= window_sheets(self@.windows));
        sheets
    }
}

} // verus!
