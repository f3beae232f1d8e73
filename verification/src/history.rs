//! The bounded history of rolls and the detail windows that outlive it.
//!
//! A record sits in a line of the history table. While its line is in the
//! table, the line's flag says whether the record's detail window shows. When
//! a line leaves the table with its flag set, the record moves into a window
//! of its own, so that what the user has open stays open.

use std::collections::VecDeque;
use vstd::prelude::*;

use crate::dice::DiceView;
use crate::roll::{RecordView, RollRecord};

verus! {

/// The most lines the history table holds.
pub const RECORD_MAX_NUM: usize = 1024;

/// A detail window that no longer has a line in the table.
pub struct RecordWindow<const N: usize> {
    pub record: Box<RollRecord<N>>,
    pub should_open: bool,
}

/// What a detached window holds: its record and whether it is still open.
pub struct WindowView {
    pub record: RecordView,
    pub open: bool,
}

impl<const N: usize> View for RecordWindow<N> {
    type V = WindowView;

    open spec fn view(&self) -> WindowView {
        WindowView { record: self.record@, open: self.should_open }
    }
}

/// One line of the history table.
pub struct RecordLine<const N: usize> {
    pub record: Box<RollRecord<N>>,
    pub is_detail_show: bool,
}

/// What a line holds: its record and whether its detail window shows.
pub struct LineView {
    pub record: RecordView,
    pub detail: bool,
}

impl<const N: usize> View for RecordLine<N> {
    type V = LineView;

    open spec fn view(&self) -> LineView {
        LineView { record: self.record@, detail: self.is_detail_show }
    }
}

/// The windows that the lines of `lines` leave behind when they are removed
/// from the table: an open window for each line whose detail shows, in the
/// lines' order.
pub open spec fn windows_of(lines: Seq<LineView>) -> Seq<WindowView>
    decreases lines.len(),
{
    if lines.len() == 0 {
        Seq::empty()
    } else if lines.last().detail {
        windows_of(lines.drop_last()).push(WindowView { record: lines.last().record, open: true })
    } else {
        windows_of(lines.drop_last())
    }
}

/// The records of the lines whose detail window shows, in the lines' order.
pub open spec fn shown(lines: Seq<LineView>) -> Seq<RecordView>
    decreases lines.len(),
{
    if lines.len() == 0 {
        Seq::empty()
    } else if lines.last().detail {
        shown(lines.drop_last()).push(lines.last().record)
    } else {
        shown(lines.drop_last())
    }
}

/// The records of the windows that are still open, in the windows' order.
pub open spec fn still_open(windows: Seq<WindowView>) -> Seq<RecordView>
    decreases windows.len(),
{
    if windows.len() == 0 {
        Seq::empty()
    } else if windows.last().open {
        still_open(windows.drop_last()).push(windows.last().record)
    } else {
        still_open(windows.drop_last())
    }
}

/// The windows of `windows` that are still open, in their order.
pub open spec fn open_windows(windows: Seq<WindowView>) -> Seq<WindowView>
    decreases windows.len(),
{
    if windows.len() == 0 {
        Seq::empty()
    } else if windows.last().open {
        open_windows(windows.drop_last()).push(windows.last())
    } else {
        open_windows(windows.drop_last())
    }
}

/// `lines` with every detail window closed.
pub open spec fn all_hidden(lines: Seq<LineView>) -> Seq<LineView> {
    lines.map_values(|l: LineView| LineView { record: l.record, detail: false })
}

/// What the manager holds: the history table, oldest line first, and the
/// detached windows in the order they left the table.
pub struct ManagerView {
    pub history: Seq<LineView>,
    pub windows: Seq<WindowView>,
}

impl ManagerView {
    /// The table is within its capacity.
    pub open spec fn wf(self) -> bool {
        self.history.len() <= RECORD_MAX_NUM
    }

    /// Every record that a detail window currently shows: the detached
    /// windows that are still open, then the lines whose detail shows.
    pub open spec fn open_details(self) -> Seq<RecordView> {
        still_open(self.windows) + shown(self.history)
    }

    /// After a record is added: a full table first gives up its oldest line,
    /// which leaves an open window behind if its detail shows; then the new
    /// record takes the newest line, its detail hidden.
    pub open spec fn added(self, record: RecordView) -> ManagerView {
        let line = LineView { record, detail: false };
        if self.history.len() >= RECORD_MAX_NUM {
            ManagerView {
                history: self.history.drop_first().push(line),
                windows: self.windows + windows_of(self.history.take(1)),
            }
        } else {
            ManagerView { history: self.history.push(line), windows: self.windows }
        }
    }

    /// After the table is cleared down to its newest line. A table of one
    /// line or none is left alone.
    pub open spec fn cleared_to_last(self) -> ManagerView {
        if self.history.len() > 1 {
            ManagerView {
                history: seq![self.history.last()],
                windows: self.windows + windows_of(self.history.drop_last()),
            }
        } else {
            self
        }
    }

    /// After the table is emptied.
    pub open spec fn cleared(self) -> ManagerView {
        ManagerView { history: Seq::empty(), windows: self.windows + windows_of(self.history) }
    }

    /// After every detail window is closed.
    pub open spec fn closed_details(self) -> ManagerView {
        ManagerView { history: all_hidden(self.history), windows: Seq::empty() }
    }

    /// After the detail window of line `index` is opened or closed.
    pub open spec fn toggled(self, index: int, show: bool) -> ManagerView {
        ManagerView {
            history: self.history.update(
                index,
                LineView { record: self.history[index].record, detail: show },
            ),
            windows: self.windows,
        }
    }

    /// After the user dismisses detached window `index`.
    pub open spec fn dismissed(self, index: int) -> ManagerView {
        ManagerView {
            history: self.history,
            windows: self.windows.update(
                index,
                WindowView { record: self.windows[index].record, open: false },
            ),
        }
    }

    /// After the dismissed windows are dropped.
    pub open spec fn pruned(self) -> ManagerView {
        ManagerView { history: self.history, windows: open_windows(self.windows) }
    }

    /// `after` is this manager with the record of one roll of `dice` added.
    pub open spec fn gained_roll(self, after: ManagerView, dice: DiceView) -> bool {
        &&& after.history.len() > 0
        &&& after.history.last().record.sound()
        &&& after.history.last().record.dice == dice
        &&& after == self.added(after.history.last().record)
    }

    /// After one frame's clicks on the clear button: a click clears down to
    /// the newest line, a double click then empties the table.
    pub open spec fn updated(self, clicked: bool, double_clicked: bool) -> ManagerView {
        let once = if clicked {
            self.cleared_to_last()
        } else {
            self
        };
        if double_clicked {
            once.cleared()
        } else {
            once
        }
    }
}

impl<const N: usize> RecordWindow<N> {
    /// An open window for a record that has left the table.
    pub fn new(record: Box<RollRecord<N>>) -> (window: RecordWindow<N>)
        ensures
            window@ == (WindowView { record: record@, open: true }),
    {
        RecordWindow { record, should_open: true }
    }
}

impl<const N: usize> RecordLine<N> {
    /// A line for a fresh record, its detail window hidden.
    pub fn new(record: Box<RollRecord<N>>) -> (line: RecordLine<N>)
        ensures
            line@ == (LineView { record: record@, detail: false }),
    {
        RecordLine { record, is_detail_show: false }
    }
}

/// The views of the lines of a table.
pub open spec fn line_views<const N: usize>(lines: Seq<RecordLine<N>>) -> Seq<LineView> {
    lines.map_values(|l: RecordLine<N>| l@)
}

/// The views of a row of detached windows.
pub open spec fn window_views<const N: usize>(windows: Seq<RecordWindow<N>>) -> Seq<WindowView> {
    windows.map_values(|w: RecordWindow<N>| w@)
}

/// The views of a stretch of a table are that stretch of the table's views.
proof fn lemma_line_views_subrange<const N: usize>(lines: Seq<RecordLine<N>>, from: int, to: int)
    requires
        0 <= from <= to <= lines.len(),
    ensures
        line_views(lines.subrange(from, to)) == line_views(lines).subrange(from, to),
{
    assert(line_views(lines.subrange(from, to)) =~= line_views(lines).subrange(from, to));
}

/// The views of a table with one more line are the table's views with the line's view.
proof fn lemma_line_views_push<const N: usize>(lines: Seq<RecordLine<N>>, line: RecordLine<N>)
    ensures
        line_views(lines.push(line)) == line_views(lines).push(line@),
{
    assert(line_views(lines.push(line)) =~= line_views(lines).push(line@));
}

/// The views of a stretch of a row of windows are that stretch of the row's views.
proof fn lemma_window_views_subrange<const N: usize>(
    windows: Seq<RecordWindow<N>>,
    from: int,
    to: int,
)
    requires
        0 <= from <= to <= windows.len(),
    ensures
        window_views(windows.subrange(from, to)) == window_views(windows).subrange(from, to),
{
    assert(window_views(windows.subrange(from, to)) =~= window_views(windows).subrange(from, to));
}

/// The views of a row with one more window are the row's views with the window's view.
proof fn lemma_window_views_push<const N: usize>(
    windows: Seq<RecordWindow<N>>,
    window: RecordWindow<N>,
)
    ensures
        window_views(windows.push(window)) == window_views(windows).push(window@),
{
    assert(window_views(windows.push(window)) =~= window_views(windows).push(window@));
}

/// Owner of the history table and of the windows detached from it.
pub struct RecordManager<const N: usize> {
    table: VecDeque<RecordLine<N>>,
    remain_windows: VecDeque<RecordWindow<N>>,
}

impl<const N: usize> View for RecordManager<N> {
    type V = ManagerView;

    closed spec fn view(&self) -> ManagerView {
        ManagerView {
            history: line_views(self.table@),
            windows: window_views(self.remain_windows@),
        }
    }
}

impl<const N: usize> Default for RecordManager<N> {
    /// A manager with an empty table and no windows.
    fn default() -> (manager: RecordManager<N>)
        ensures
            manager@.history.len() == 0,
            manager@.windows.len() == 0,
            manager@.wf(),
    {
        RecordManager::new()
    }
}

impl<const N: usize> RecordManager<N> {
    /// A manager with an empty table and no windows.
    pub fn new() -> (manager: RecordManager<N>)
        ensures
            manager@.history.len() == 0,
            manager@.windows.len() == 0,
            manager@.wf(),
    {
        RecordManager { table: VecDeque::new(), remain_windows: VecDeque::new() }
    }

    /// Adds a record as the newest line. A table at capacity first gives up
    /// its oldest line; if that line's detail window shows, the record moves
    /// into a detached window, which stays open.
    pub fn add_record(&mut self, record: Box<RollRecord<N>>)
        requires
            old(self)@.wf(),
        ensures
            final(self)@ == old(self)@.added(record@),
            final(self)@.wf(),
            final(self)@.history.last() == (LineView { record: record@, detail: false }),
            final(self)@.open_details() == old(self)@.open_details(),
    {
        let ghost before = self@;
        if self.table.len() >= RECORD_MAX_NUM {
            let front = self.table.pop_front().unwrap();
            let ghost head = before.history.take(1);
            proof {
                assert(head.drop_last() =~= Seq::<LineView>::empty());
                assert(head.last() == front@);
                assert(windows_of(head.drop_last()) =~= Seq::<WindowView>::empty());
                assert(line_views(self.table@) =~= before.history.drop_first());
            }
            if front.is_detail_show {
                self.remain_windows.push_back(RecordWindow::new(front.record));
            }
            assert(window_views(self.remain_windows@) =~= before.windows + windows_of(head));
        }
        self.table.push_back(RecordLine::new(record));
        proof {
            let line = LineView { record: record@, detail: false };
            if before.history.len() >= RECORD_MAX_NUM {
                assert(line_views(self.table@) =~= before.history.drop_first().push(line));
            } else {
                assert(line_views(self.table@) =~= before.history.push(line));
            }
            lemma_added_keeps_details(before, record@);
        }
    }

    /// Moves every line out of the table, oldest first; each line whose
    /// detail window shows leaves an open window behind.
    fn detach_lines(&mut self)
        ensures
            final(self)@ == old(self)@.cleared(),
    {
        let ghost before = self@;
        let ghost mut moved: int = 0;
        proof {
            assert(before.history.skip(0) =~= before.history);
            assert(before.history.take(0) =~= Seq::<LineView>::empty());
            assert(before.windows + windows_of(before.history.take(0)) =~= before.windows);
        }
        while self.table.len() > 0
            invariant
                0 <= moved <= before.history.len(),
                self.table@.len() == before.history.len() - moved,
                line_views(self.table@) == before.history.skip(moved),
                window_views(self.remain_windows@) == before.windows + windows_of(
                    before.history.take(moved),
                ),
            decreases self.table@.len(),
        {
            let ghost rest = self.table@;
            let ghost kept = self.remain_windows@;
            let line = self.table.pop_front().unwrap();
            proof {
                lemma_line_views_subrange(rest, 1, rest.len() as int);
                assert(line@ == line_views(rest)[0]);
                assert(line@ == before.history[moved]);
                assert(before.history.skip(moved).subrange(1, rest.len() as int)
                    =~= before.history.skip(moved + 1));
                assert(before.history.take(moved + 1).drop_last() =~= before.history.take(moved));
                assert(before.history.take(moved + 1).last() == line@);
            }
            if line.is_detail_show {
                let ghost shown_line = line@;
                let window = RecordWindow::new(line.record);
                proof {
                    lemma_window_views_push(kept, window);
                    assert(window@ == (WindowView { record: shown_line.record, open: true }));
                }
                self.remain_windows.push_back(window);
                assert(window_views(self.remain_windows@) =~= before.windows + windows_of(
                    before.history.take(moved + 1),
                ));
            }
            proof {
                moved = moved + 1;
            }
        }
        proof {
            assert(before.history.take(moved) =~= before.history);
            assert(line_views(self.table@) =~= Seq::<LineView>::empty());
        }
    }

    /// Clears the table down to its newest line. A table of one line or none
    /// is left alone. Each removed line whose detail window shows leaves an
    /// open window behind.
    pub fn clear_to_last(&mut self)
        requires
            old(self)@.wf(),
        ensures
            final(self)@ == old(self)@.cleared_to_last(),
            final(self)@.wf(),
            final(self)@.history.len() <= 1,
            final(self)@.open_details() == old(self)@.open_details(),
    {
        let ghost before = self@;
        if self.table.len() > 1 {
            let last = self.table.pop_back().unwrap();
            proof {
                assert(line_views(self.table@) =~= before.history.drop_last());
                assert(last@ == before.history.last());
            }
            self.detach_lines();
            self.table.push_back(last);
            assert(line_views(self.table@) =~= seq![before.history.last()]);
        }
        proof {
            lemma_cleared_to_last_keeps_details(before);
        }
    }

    /// Empties the table. Each removed line whose detail window shows leaves
    /// an open window behind.
    pub fn clear_all(&mut self)
        requires
            old(self)@.wf(),
        ensures
            final(self)@ == old(self)@.cleared(),
            final(self)@.wf(),
            final(self)@.history.len() == 0,
            final(self)@.open_details() == old(self)@.open_details(),
    {
        proof {
            lemma_cleared_keeps_details(self@);
        }
        self.detach_lines();
    }

    /// Applies one frame's clicks on the clear button: a click clears down
    /// to the newest line, a double click empties the table.
    pub fn update(&mut self, clicked: bool, double_clicked: bool)
        requires
            old(self)@.wf(),
        ensures
            final(self)@ == old(self)@.updated(clicked, double_clicked),
            final(self)@.wf(),
            final(self)@.open_details() == old(self)@.open_details(),
            double_clicked ==> final(self)@.history.len() == 0,
            clicked ==> final(self)@.history.len() <= 1,
    {
        if clicked {
            self.clear_to_last();
        }
        if double_clicked {
            self.clear_all();
        }
    }

    /// Closes every detail window, detached or not. The table keeps its
    /// lines.
    pub fn close_all_details(&mut self)
        requires
            old(self)@.wf(),
        ensures
            final(self)@ == old(self)@.closed_details(),
            final(self)@.wf(),
            final(self)@.open_details().len() == 0,
            final(self)@.history.len() == old(self)@.history.len(),
    {
        let ghost before = self@;
        self.remain_windows.clear();
        let count: usize = self.table.len();
        let mut turned: usize = 0;
        proof {
            assert(before.history.skip(0) + all_hidden(before.history.take(0))
                =~= before.history);
        }
        while turned < count
            invariant
                turned <= count == before.history.len(),
                self.table@.len() == count,
                line_views(self.table@) == before.history.skip(turned as int) + all_hidden(
                    before.history.take(turned as int),
                ),
                window_views(self.remain_windows@) == Seq::<WindowView>::empty(),
            decreases count - turned,
        {
            let ghost rest = self.table@;
            let mut line = self.table.pop_front().unwrap();
            proof {
                assert(line@ == line_views(rest)[0]);
                assert(line@ == before.history[turned as int]);
            }
            line.is_detail_show = false;
            let ghost popped = self.table@;
            self.table.push_back(line);
            proof {
                lemma_line_views_subrange(rest, 1, rest.len() as int);
                lemma_line_views_push(popped, line);
                let done = all_hidden(before.history.take(turned as int));
                assert((before.history.skip(turned as int) + done).subrange(1, rest.len() as int)
                    =~= before.history.skip(turned + 1) + done);
                assert(done.push(line@) =~= all_hidden(before.history.take(turned + 1)));
                assert(line_views(self.table@) =~= before.history.skip(turned + 1) + all_hidden(
                    before.history.take(turned + 1),
                ));
            }
            turned += 1;
        }
        proof {
            assert(before.history.take(count as int) =~= before.history);
            assert(line_views(self.table@) =~= all_hidden(before.history));
            assert(window_views(self.remain_windows@) =~= Seq::<WindowView>::empty());
            lemma_closed_details_show_nothing(before);
        }
    }

    /// Opens or closes the detail window of line `index`, counted from the
    /// oldest line. An index past the table changes nothing.
    pub fn toggle_detail(&mut self, index: usize, show: bool)
        requires
            old(self)@.wf(),
        ensures
            final(self)@ == if index < old(self)@.history.len() {
                old(self)@.toggled(index as int, show)
            } else {
                old(self)@
            },
            final(self)@.wf(),
    {
        let ghost before = self@;
        if index < self.table.len() {
            let mut line = self.table.remove(index).unwrap();
            line.is_detail_show = show;
            self.table.insert(index, line);
            assert(line_views(self.table@) =~= before.toggled(index as int, show).history);
        }
    }

    /// Marks detached window `index` as dismissed by the user. An index past
    /// the windows changes nothing.
    pub fn dismiss(&mut self, index: usize)
        ensures
            final(self)@ == if index < old(self)@.windows.len() {
                old(self)@.dismissed(index as int)
            } else {
                old(self)@
            },
            final(self)@.history == old(self)@.history,
    {
        let ghost before = self@;
        if index < self.remain_windows.len() {
            let mut window = self.remain_windows.remove(index).unwrap();
            window.should_open = false;
            self.remain_windows.insert(index, window);
            assert(window_views(self.remain_windows@) =~= before.dismissed(index as int).windows);
        }
    }

    /// Drops the detached windows that the user has dismissed.
    pub fn prune(&mut self)
        ensures
            final(self)@ == old(self)@.pruned(),
            final(self)@.history == old(self)@.history,
            final(self)@.open_details() == old(self)@.open_details(),
    {
        let ghost before = self@;
        let count: usize = self.remain_windows.len();
        let mut seen: usize = 0;
        proof {
            assert(before.windows.skip(0) + open_windows(before.windows.take(0))
                =~= before.windows);
        }
        while seen < count
            invariant
                seen <= count == before.windows.len(),
                self.remain_windows@.len() == (count - seen) + open_windows(
                    before.windows.take(seen as int),
                ).len(),
                line_views(self.table@) == before.history,
                window_views(self.remain_windows@) == before.windows.skip(seen as int)
                    + open_windows(before.windows.take(seen as int)),
            decreases count - seen,
        {
            let ghost rest = self.remain_windows@;
            let window = self.remain_windows.pop_front().unwrap();
            proof {
                assert(window@ == window_views(rest)[0]);
                assert(window@ == before.windows[seen as int]);
                assert(before.windows.take(seen + 1).drop_last() =~= before.windows.take(
                    seen as int,
                ));
                assert(before.windows.take(seen + 1).last() == window@);
            }
            let ghost popped = self.remain_windows@;
            let ghost done = open_windows(before.windows.take(seen as int));
            proof {
                lemma_window_views_subrange(rest, 1, rest.len() as int);
                assert(before.windows.skip(seen as int).len() == count - seen);
                assert(rest.len() == (count - seen) + done.len());
                assert((before.windows.skip(seen as int) + done).subrange(1, rest.len() as int)
                    =~= before.windows.skip(seen + 1) + done);
            }
            if window.should_open {
                proof {
                    lemma_window_views_push(popped, window);
                }
                self.remain_windows.push_back(window);
                assert(window_views(self.remain_windows@) =~= before.windows.skip(seen + 1)
                    + done.push(window@));
            }
            seen += 1;
        }
        proof {
            assert(before.windows.take(count as int) =~= before.windows);
            assert(window_views(self.remain_windows@) =~= open_windows(before.windows));
            lemma_pruned_keeps_details(before);
        }
    }

    /// Number of lines in the table.
    pub fn len(&self) -> (n: usize)
        ensures
            n == self@.history.len(),
    {
        self.table.len()
    }

    /// Line `index` of the table, counted from the oldest.
    pub fn line(&self, index: usize) -> (line: &RecordLine<N>)
        requires
            index < self@.history.len(),
        ensures
            line@ == self@.history[index as int],
    {
        &self.table[index]
    }

    /// Number of detached windows, dismissed ones included.
    pub fn window_count(&self) -> (n: usize)
        ensures
            n == self@.windows.len(),
    {
        self.remain_windows.len()
    }

    /// Detached window `index`, counted from the one detached first.
    pub fn window(&self, index: usize) -> (window: &RecordWindow<N>)
        requires
            index < self@.windows.len(),
        ensures
            window@ == self@.windows[index as int],
    {
        &self.remain_windows[index]
    }
}

/// The windows left behind by two runs of lines are those of the first run
/// followed by those of the second.
pub proof fn lemma_windows_of_concat(a: Seq<LineView>, b: Seq<LineView>)
    ensures
        windows_of(a + b) == windows_of(a) + windows_of(b),
    decreases b.len(),
{
    if b.len() == 0 {
        assert(a + b =~= a);
        assert(windows_of(a) + windows_of(b) =~= windows_of(a));
    } else {
        assert((a + b).drop_last() =~= a + b.drop_last());
        assert((a + b).last() == b.last());
        lemma_windows_of_concat(a, b.drop_last());
        if b.last().detail {
            let w = WindowView { record: b.last().record, open: true };
            assert((windows_of(a) + windows_of(b.drop_last())).push(w) =~= windows_of(a)
                + windows_of(b.drop_last()).push(w));
        }
    }
}

/// The shown records of two runs of lines are those of the first run
/// followed by those of the second.
pub proof fn lemma_shown_concat(a: Seq<LineView>, b: Seq<LineView>)
    ensures
        shown(a + b) == shown(a) + shown(b),
    decreases b.len(),
{
    if b.len() == 0 {
        assert(a + b =~= a);
        assert(shown(a) + shown(b) =~= shown(a));
    } else {
        assert((a + b).drop_last() =~= a + b.drop_last());
        assert((a + b).last() == b.last());
        lemma_shown_concat(a, b.drop_last());
        if b.last().detail {
            assert((shown(a) + shown(b.drop_last())).push(b.last().record) =~= shown(a) + shown(
                b.drop_last(),
            ).push(b.last().record));
        }
    }
}

/// The open records of two rows of windows are those of the first row
/// followed by those of the second.
pub proof fn lemma_still_open_concat(a: Seq<WindowView>, b: Seq<WindowView>)
    ensures
        still_open(a + b) == still_open(a) + still_open(b),
    decreases b.len(),
{
    if b.len() == 0 {
        assert(a + b =~= a);
        assert(still_open(a) + still_open(b) =~= still_open(a));
    } else {
        assert((a + b).drop_last() =~= a + b.drop_last());
        assert((a + b).last() == b.last());
        lemma_still_open_concat(a, b.drop_last());
        if b.last().open {
            assert((still_open(a) + still_open(b.drop_last())).push(b.last().record)
                =~= still_open(a) + still_open(b.drop_last()).push(b.last().record));
        }
    }
}

/// The windows that lines leave behind are all open, and show exactly the
/// records that the lines showed.
pub proof fn lemma_windows_of_open(lines: Seq<LineView>)
    ensures
        still_open(windows_of(lines)) == shown(lines),
        open_windows(windows_of(lines)) == windows_of(lines),
    decreases lines.len(),
{
    if lines.len() > 0 {
        lemma_windows_of_open(lines.drop_last());
        if lines.last().detail {
            let w = WindowView { record: lines.last().record, open: true };
            let longer = windows_of(lines.drop_last()).push(w);
            assert(longer.drop_last() =~= windows_of(lines.drop_last()));
            assert(longer.last() == w);
        }
    }
}

/// Adding a record changes nothing about which records the detail windows
/// show: a line evicted with its window open keeps the window, and the new
/// line's window is hidden.
pub proof fn lemma_added_keeps_details(manager: ManagerView, record: RecordView)
    requires
        manager.wf(),
    ensures
        manager.added(record).open_details() == manager.open_details(),
        manager.added(record).wf(),
{
    let line = LineView { record, detail: false };
    let after = manager.added(record);
    if manager.history.len() >= RECORD_MAX_NUM {
        let head = manager.history.take(1);
        let rest = manager.history.drop_first();
        assert(manager.history =~= head + rest);
        lemma_shown_concat(head, rest);
        lemma_still_open_concat(manager.windows, windows_of(head));
        lemma_windows_of_open(head);
        assert(rest.push(line).drop_last() =~= rest);
        assert(shown(rest.push(line)) == shown(rest));
        assert(after.open_details() =~= manager.open_details());
    } else {
        assert(manager.history.push(line).drop_last() =~= manager.history);
    }
}

/// Clearing down to the newest line changes nothing about which records
/// the detail windows show, and leaves at most one line.
pub proof fn lemma_cleared_to_last_keeps_details(manager: ManagerView)
    ensures
        manager.cleared_to_last().open_details() == manager.open_details(),
        manager.cleared_to_last().history.len() <= 1,
{
    if manager.history.len() > 1 {
        let front = manager.history.drop_last();
        let last = seq![manager.history.last()];
        assert(manager.history =~= front + last);
        lemma_shown_concat(front, last);
        lemma_still_open_concat(manager.windows, windows_of(front));
        lemma_windows_of_open(front);
        assert(manager.cleared_to_last().open_details() =~= manager.open_details());
    }
}

/// Emptying the table changes nothing about which records the detail
/// windows show.
pub proof fn lemma_cleared_keeps_details(manager: ManagerView)
    ensures
        manager.cleared().open_details() == manager.open_details(),
        manager.cleared().history.len() == 0,
{
    lemma_still_open_concat(manager.windows, windows_of(manager.history));
    lemma_windows_of_open(manager.history);
    assert(manager.cleared().open_details() =~= manager.open_details());
}

/// A click followed by a double click ends where the double click alone
/// would have.
pub proof fn lemma_click_then_double_click(manager: ManagerView)
    ensures
        manager.cleared_to_last().cleared() == manager.cleared(),
{
    if manager.history.len() > 1 {
        let front = manager.history.drop_last();
        let last = seq![manager.history.last()];
        assert(manager.history =~= front + last);
        lemma_windows_of_concat(front, last);
        assert(manager.windows + windows_of(front) + windows_of(last) =~= manager.windows + (
        windows_of(front) + windows_of(last)));
    }
}

/// Lines with every detail window closed show no record.
pub proof fn lemma_hidden_show_nothing(lines: Seq<LineView>)
    ensures
        shown(all_hidden(lines)).len() == 0,
    decreases lines.len(),
{
    if lines.len() > 0 {
        assert(all_hidden(lines).drop_last() =~= all_hidden(lines.drop_last()));
        lemma_hidden_show_nothing(lines.drop_last());
    }
}

/// After every detail window is closed none shows a record, whatever the
/// table and the windows held.
pub proof fn lemma_closed_details_show_nothing(manager: ManagerView)
    ensures
        manager.closed_details().open_details().len() == 0,
        manager.closed_details().history.len() == manager.history.len(),
{
    lemma_hidden_show_nothing(manager.history);
}

/// The open windows of a row show the records that the row's open windows
/// showed.
pub proof fn lemma_open_windows_keep_records(windows: Seq<WindowView>)
    ensures
        still_open(open_windows(windows)) == still_open(windows),
    decreases windows.len(),
{
    if windows.len() > 0 {
        lemma_open_windows_keep_records(windows.drop_last());
        if windows.last().open {
            let longer = open_windows(windows.drop_last()).push(windows.last());
            assert(longer.drop_last() =~= open_windows(windows.drop_last()));
            assert(longer.last() == windows.last());
        }
    }
}

/// Dropping the dismissed windows changes nothing about which records the
/// detail windows show.
pub proof fn lemma_pruned_keeps_details(manager: ManagerView)
    ensures
        manager.pruned().open_details() == manager.open_details(),
{
    lemma_open_windows_keep_records(manager.windows);
}

/// Adding a record to a full table evicts the oldest line and no other:
/// every other line moves up by one and the new record comes last.
pub proof fn lemma_added_evicts_oldest(manager: ManagerView, record: RecordView)
    requires
        manager.wf(),
        manager.history.len() == RECORD_MAX_NUM,
    ensures
        manager.added(record).history.len() == RECORD_MAX_NUM,
        forall|i: int|
            0 <= i < RECORD_MAX_NUM - 1 ==> manager.added(record).history[i]
                == manager.history[i + 1],
        manager.added(record).history.last() == (LineView { record, detail: false }),
{
}

/// Adding a record to a table with room evicts nothing.
pub proof fn lemma_added_with_room(manager: ManagerView, record: RecordView)
    requires
        manager.history.len() < RECORD_MAX_NUM,
    ensures
        manager.added(record).history == manager.history.push(LineView { record, detail: false }),
        manager.added(record).windows == manager.windows,
{
}

/// A line evicted while its detail window shows leaves that window behind,
/// open and with the line's record, after all the windows detached before.
/// A line evicted with its window hidden leaves nothing.
pub proof fn lemma_evicted_window(manager: ManagerView, record: RecordView)
    requires
        manager.wf(),
        manager.history.len() == RECORD_MAX_NUM,
    ensures
        manager.added(record).windows == if manager.history[0].detail {
            manager.windows.push(WindowView { record: manager.history[0].record, open: true })
        } else {
            manager.windows
        },
{
    let head = manager.history.take(1);
    assert(head.drop_last() =~= Seq::<LineView>::empty());
    assert(head.last() == manager.history[0]);
    assert(windows_of(head.drop_last()) =~= Seq::<WindowView>::empty());
    if manager.history[0].detail {
        assert(manager.windows + windows_of(head) =~= manager.windows.push(
            WindowView { record: manager.history[0].record, open: true },
        ));
    } else {
        assert(manager.windows + windows_of(head) =~= manager.windows);
    }
}

} // verus!
