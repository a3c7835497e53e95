//! State of the views that show a run and its report: what they keep
//! between two frames, and the arithmetic of their scrolling columns.
//! Drawing is left to the caller.

use crate::report::{SyncEvent, SyncReport, SyncReportView};
use crate::text::{
    chars_of, find_from, first_index, join, lemma_first_index, lemma_split_head, split,
};
use vstd::prelude::*;
use vstd::string::*;

verus! {

/// What the progress view keeps: the events seen so far and two switches.
pub struct UiState {
    pub log: Vec<SyncEvent>,
    pub show_full_ui: bool,
    pub finished: bool,
}

impl UiState {
    /// The state before any event: an empty log, both switches off.
    pub fn new() -> (state: Self)
        ensures
            state.log@.len() == 0,
            !state.show_full_ui,
            !state.finished,
    {
        UiState { log: Vec::new(), show_full_ui: false, finished: false }
    }
}

/// One of the four columns of the transaction log, a bucket of the report
/// each.
#[derive(Clone, Copy, Debug, PartialEq, Eq)]
pub enum Column {
    Downloaded,
    Unchanged,
    Removed,
    Failed,
}

impl Column {
    /// Place of the column from the left, starting at 0.
    pub open spec fn spec_index(self) -> int {
        match self {
            Column::Downloaded => 0,
            Column::Unchanged => 1,
            Column::Removed => 2,
            Column::Failed => 3,
        }
    }

    /// Place of the column from the left, starting at 0.
    pub fn index(self) -> (i: usize)
        ensures
            i == self.spec_index(),
            i < 4,
    {
        match self {
            Column::Downloaded => 0,
            Column::Unchanged => 1,
            Column::Removed => 2,
            Column::Failed => 3,
        }
    }

    /// The column at place `i` from the left, if there is one.
    pub fn from_index(i: usize) -> (c: Option<Column>)
        ensures
            match c {
                Some(column) => column.spec_index() == i,
                None => i >= 4,
            },
    {
        if i == 0 {
            Some(Column::Downloaded)
        } else if i == 1 {
            Some(Column::Unchanged)
        } else if i == 2 {
            Some(Column::Removed)
        } else if i == 3 {
            Some(Column::Failed)
        } else {
            None
        }
    }
}

/// The rows of a column that are drawn: the items from `start` up to, not
/// including, `end`, and whether a mark stands for hidden items above and
/// below them.
#[derive(Clone, Copy, Debug, PartialEq, Eq)]
pub struct Visible {
    pub start: usize,
    pub end: usize,
    pub hide_top: bool,
    pub hide_bottom: bool,
}

/// The scroll offset of a column of `total` items of which `items_fit` fit,
/// moved back where the column would otherwise show empty rows at its end.
pub open spec fn settled_offset(offset: int, items_fit: int, total: int) -> int {
    if offset + items_fit > total {
        if total > items_fit {
            total - items_fit
        } else {
            0
        }
    } else {
        offset
    }
}

/// The scroll offset after one step down or up. A column that shows all its
/// items does not scroll; no step leads past either end.
pub open spec fn scrolled_offset(offset: int, items_fit: int, total: int, down: bool) -> int {
    if total > items_fit {
        if down {
            if offset + 1 < total - items_fit {
                offset + 1
            } else {
                total - items_fit
            }
        } else {
            if offset > 0 {
                offset - 1
            } else {
                0
            }
        }
    } else {
        offset
    }
}

/// The rows drawn at a settled `offset`. Where items are hidden above or
/// below, the first or last row is given up for the mark that says so, as
/// long as a row is left to give up.
pub open spec fn visible_rows(offset: int, items_fit: int, total: int) -> (int, int, bool, bool) {
    let first = offset;
    let last = if offset + items_fit < total {
        offset + items_fit
    } else {
        total
    };
    let hide_top = first > 0;
    let hide_bottom = last < total;
    let start = if hide_top && last > first {
        first + 1
    } else {
        first
    };
    let end = if hide_bottom && last > start {
        last - 1
    } else {
        last
    };
    (start, end, hide_top, hide_bottom)
}

/// A decimal digit.
pub open spec fn is_digit(c: char) -> bool {
    '0' <= c && c <= '9'
}

/// The part starts with a decimal digit: it is taken for a version number.
pub open spec fn starts_with_digit(part: Seq<char>) -> bool {
    part.len() > 0 && is_digit(part[0])
}

/// The leading parts up to, not including, the first that starts with a
/// digit.
pub open spec fn name_parts(parts: Seq<Seq<char>>) -> Seq<Seq<char>>
    decreases parts.len(),
{
    if parts.len() == 0 || starts_with_digit(parts[0]) {
        Seq::empty()
    } else {
        seq![parts[0]] + name_parts(parts.drop_first())
    }
}

/// The readable form of a file name: of its parts between hyphens, those
/// that come before the first part that starts with a digit, joined by
/// hyphens again.
pub open spec fn readable_name(filename: Seq<char>) -> Seq<char> {
    join(name_parts(split(filename, '-')), '-')
}

/// The readable form of a text, in terms of its first part and of what
/// follows the first hyphen.
proof fn lemma_readable_step(s: Seq<char>)
    ensures
        starts_with_digit(split(s, '-')[0]) <==> starts_with_digit(s),
        ({
            let i = first_index(s, '-');
            let rest = s.skip(i + 1);
            readable_name(s) == if starts_with_digit(s) {
                Seq::<char>::empty()
            } else if i >= s.len() {
                s
            } else if starts_with_digit(rest) {
                s.take(i)
            } else {
                s.take(i) + seq!['-'] + readable_name(rest)
            }
        }),
{
    lemma_split_head(s, '-');
    lemma_first_index(s, '-');
    let i = first_index(s, '-');
    let parts = split(s, '-');
    if starts_with_digit(s) {
        assert(i > 0);
    } else if i >= s.len() {
        assert(parts.drop_first() =~= Seq::empty());
        assert(name_parts(parts.drop_first()) =~= Seq::empty());
        assert(name_parts(parts) =~= seq![s]);
    } else {
        let rest = s.skip(i + 1);
        lemma_split_head(rest, '-');
        lemma_first_index(rest, '-');
        let tail = split(rest, '-');
        assert(parts.drop_first() =~= tail);
        if starts_with_digit(rest) {
            assert(first_index(rest, '-') > 0);
            assert(name_parts(tail) =~= Seq::empty());
            assert(name_parts(parts) =~= seq![s.take(i)]);
        } else {
            let kept = name_parts(tail);
            assert(kept.len() >= 1);
            assert(name_parts(parts) =~= seq![s.take(i)] + kept);
            assert(name_parts(parts).drop_first() =~= kept);
        }
    }
}

/// The view that shows the final report in four columns.
pub struct TransactionLogApp {
    report: SyncReport,
    scroll_offsets: [usize; 4],
    human_readable: bool,
}

/// Mathematical value of a `TransactionLogApp`.
pub struct TransactionLogView {
    pub report: SyncReportView,
    /// For each column, the number of items scrolled out of sight at its top.
    pub scroll_offsets: Seq<usize>,
    pub human_readable: bool,
}

impl TransactionLogView {
    /// Number of items in `column`.
    pub open spec fn column_len(self, column: Column) -> nat {
        match column {
            Column::Downloaded => self.report.downloaded.len(),
            Column::Unchanged => self.report.unchanged.len(),
            Column::Removed => self.report.removed.len(),
            Column::Failed => self.report.failed.len(),
        }
    }

    /// The name under which a file is listed.
    pub open spec fn display_filename(self, filename: Seq<char>) -> Seq<char> {
        if self.human_readable {
            readable_name(filename)
        } else {
            filename
        }
    }
}

impl View for TransactionLogApp {
    type V = TransactionLogView;

    closed spec fn view(&self) -> TransactionLogView {
        TransactionLogView {
            report: self.report@,
            scroll_offsets: self.scroll_offsets@,
            human_readable: self.human_readable,
        }
    }
}

impl TransactionLogApp {
    /// The view of `report` with every column at its top and readable names
    /// switched on.
    pub fn new(report: SyncReport) -> (app: Self)
        ensures
            app@.report == report@,
            app@.scroll_offsets == seq![0usize, 0usize, 0usize, 0usize],
            app@.human_readable,
    {
        let app = TransactionLogApp { report, scroll_offsets: [0, 0, 0, 0], human_readable: true };
        assert(app@.scroll_offsets =~= seq![0usize, 0usize, 0usize, 0usize]);
        app
    }

    /// The report that is shown.
    pub fn report(&self) -> (r: &SyncReport)
        ensures
            r@ == self@.report,
    {
        &self.report
    }

    /// Whether readable names are shown.
    pub fn human_readable(&self) -> (r: bool)
        ensures
            r == self@.human_readable,
    {
        self.human_readable
    }

    /// Switches between readable names and file names as they are.
    pub fn toggle_human_readable(&mut self)
        ensures
            final(self)@.human_readable == !old(self)@.human_readable,
            final(self)@.report == old(self)@.report,
            final(self)@.scroll_offsets == old(self)@.scroll_offsets,
    {
        self.human_readable = !self.human_readable;
    }

    /// Number of items in `column`.
    pub fn column_len(&self, column: Column) -> (n: usize)
        ensures
            n == self@.column_len(column),
    {
        match column {
            Column::Downloaded => self.report.downloaded.len(),
            Column::Unchanged => self.report.unchanged.len(),
            Column::Removed => self.report.removed.len(),
            Column::Failed => self.report.failed.len(),
        }
    }

    /// Number of items scrolled out of sight at the top of `column`.
    pub fn scroll_offset(&self, column: Column) -> (n: usize)
        ensures
            self@.scroll_offsets.len() == 4,
            n == self@.scroll_offsets[column.spec_index()],
    {
        self.scroll_offsets[column.index()]
    }

    /// Settles the scroll offset of `column`, of which `items_fit` rows fit
    /// on the screen, and returns the rows to draw.
    pub fn visible(&mut self, column: Column, items_fit: usize) -> (rows: Visible)
        ensures
            final(self)@.report == old(self)@.report,
            final(self)@.human_readable == old(self)@.human_readable,
            final(self)@.scroll_offsets == old(self)@.scroll_offsets.update(
                column.spec_index(),
                settled_offset(
                    old(self)@.scroll_offsets[column.spec_index()] as int,
                    items_fit as int,
                    old(self)@.column_len(column) as int,
                ) as usize,
            ),
            (rows.start as int, rows.end as int, rows.hide_top, rows.hide_bottom) == visible_rows(
                final(self)@.scroll_offsets[column.spec_index()] as int,
                items_fit as int,
                old(self)@.column_len(column) as int,
            ),
            rows.start <= rows.end <= old(self)@.column_len(column),
    {
        let total = self.column_len(column);
        let i = column.index();
        let offset = self.scroll_offsets[i];
        let settled = if items_fit > total {
            0
        } else if offset > total - items_fit {
            if total > items_fit {
                total - items_fit
            } else {
                0
            }
        } else {
            offset
        };
        self.scroll_offsets[i] = settled;
        let first = settled;
        let last = if items_fit < total - settled {
            settled + items_fit
        } else {
            total
        };
        let hide_top = first > 0;
        let hide_bottom = last < total;
        let start = if hide_top && last > first {
            first + 1
        } else {
            first
        };
        let end = if hide_bottom && last > start {
            last - 1
        } else {
            last
        };
        Visible { start, end, hide_top, hide_bottom }
    }

    /// Scrolls `column`, of which `items_fit` rows fit on the screen, by one
    /// row: down the list if `down`, else up.
    pub fn scroll(&mut self, column: Column, down: bool, items_fit: usize)
        ensures
            final(self)@.report == old(self)@.report,
            final(self)@.human_readable == old(self)@.human_readable,
            final(self)@.scroll_offsets == old(self)@.scroll_offsets.update(
                column.spec_index(),
                scrolled_offset(
                    old(self)@.scroll_offsets[column.spec_index()] as int,
                    items_fit as int,
                    old(self)@.column_len(column) as int,
                    down,
                ) as usize,
            ),
    {
        let total = self.column_len(column);
        let i = column.index();
        let offset = self.scroll_offsets[i];
        let moved = if total > items_fit {
            if down {
                if offset < total - items_fit - 1 {
                    offset + 1
                } else {
                    total - items_fit
                }
            } else {
                if offset > 0 {
                    offset - 1
                } else {
                    0
                }
            }
        } else {
            offset
        };
        self.scroll_offsets[i] = moved;
        assert(final(self)@.scroll_offsets =~= old(self)@.scroll_offsets.update(
            i as int,
            moved,
        ));
    }

    /// The name under which a file is listed: the file name as it is, or,
    /// with readable names switched on, without its version and what follows.
    pub fn display_filename(&self, filename: &str) -> (name: String)
        ensures
            name@ == self@.display_filename(filename@),
    {
        if !self.human_readable {
            return filename.to_owned();
        }
        let chars = chars_of(filename);
        let n = chars.len();
        proof {
            lemma_readable_step(filename@);
        }
        if n > 0 && '0' <= chars[0] && chars[0] <= '9' {
            return String::new();
        }
        let mut pos: usize = 0;
        assert(filename@.skip(0) =~= filename@);
        assert(filename@.take(0) + readable_name(filename@) =~= readable_name(filename@));
        loop
            invariant
                self@.human_readable,
                chars@ == filename@,
                n == chars.len(),
                pos <= n,
                !starts_with_digit(filename@.skip(pos as int)),
                readable_name(filename@) == filename@.take(pos as int) + readable_name(
                    filename@.skip(pos as int),
                ),
            decreases n - pos,
        {
            let ghost rest = filename@.skip(pos as int);
            assert(rest =~= chars@.subrange(pos as int, n as int));
            let p = find_from(&chars, pos, n, '-');
            proof {
                lemma_readable_step(rest);
                lemma_first_index(rest, '-');
                assert(rest.take(p - pos) =~= filename@.subrange(pos as int, p as int));
            }
            if p == n {
                assert(filename@.take(pos as int) + rest =~= filename@);
                return filename.to_owned();
            }
            let ghost after = rest.skip(p - pos + 1);
            assert(after =~= filename@.skip(p + 1));
            if p + 1 < n && '0' <= chars[p + 1] && chars[p + 1] <= '9' {
                assert(after[0] == chars@[p + 1]);
                assert(filename@.take(pos as int) + rest.take(p - pos) =~= filename@.subrange(
                    0,
                    p as int,
                ));
                return filename.substring_char(0, p).to_owned();
            }
            proof {
                if after.len() > 0 {
                    assert(after[0] == chars@[p + 1]);
                }
                assert(filename@.take(pos as int) + (rest.take(p - pos) + seq!['-']
                    + readable_name(after)) =~= filename@.take(p + 1) + readable_name(after));
            }
            pos = p + 1;
        }
    }
}

} // verus!
