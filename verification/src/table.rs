//! A table of rows that can be filtered, sorted by a column, and paged
//! through.
//!
//! The table holds the rows and the settings. What is specific to the rows
//! (which of them pass the filter, how a column orders them, how a row is
//! labelled) is handed to each call as a function.

use vstd::prelude::*;
use vstd::string::StringExecFns;
use crate::text::{grouped, prettyprint_usize};

verus! {

/// How many rows one page shows.
pub const ROWS: usize = 8;

/// The kind of a column.
#[derive(Clone, Copy, Debug, PartialEq, Eq, Structural)]
pub enum Col {
    /// The rows cannot be ordered by this column.
    Static,
    /// The rows can be ordered by this column.
    Sortable,
}

/// A column: its name, which its header shows, and its kind.
#[derive(Debug, PartialEq, Eq)]
pub struct Column {
    pub name: String,
    pub col: Col,
}

/// The state of the controls by which the user filters the rows.
pub struct Filter<F> {
    pub state: F,
}

/// What the header of a column shows.
#[derive(Clone, Copy, Debug, PartialEq, Eq, Structural)]
pub enum Header {
    /// The rows are ordered by this column: its name, with an arrow that
    /// points down for descending order and up for ascending order.
    SortedBy { descending: bool },
    /// A button that orders the rows by this column.
    SortButton,
    /// The name alone.
    Label,
}

/// The line below the rows, and the two buttons beside it.
#[derive(Clone, Copy, Debug, PartialEq, Eq, Structural)]
pub struct Pagination {
    /// The number before the dash: one more than the rows skipped, or 0 when
    /// there is no row.
    pub first: usize,
    /// The number after the dash.
    pub last: usize,
    /// The number of rows that pass the filter.
    pub total: usize,
    /// Whether the button for the previous page is disabled.
    pub prev_disabled: bool,
    /// Whether the button for the next page is disabled.
    pub next_disabled: bool,
}

/// The line below `total` rows of which `skip` are skipped.
pub open spec fn pagination(total: usize, skip: usize) -> Pagination {
    Pagination {
        first: if total > 0 {
            (skip + 1) as usize
        } else {
            0
        },
        last: if skip + 1 + ROWS <= total {
            (skip + 1 + ROWS) as usize
        } else {
            total
        },
        total,
        prev_disabled: skip == 0,
        next_disabled: skip + 1 + ROWS >= total,
    }
}

/// Computes the line below the rows.
pub fn make_pagination(total: usize, skip: usize) -> (p: Pagination)
    requires
        skip + 1 + ROWS <= usize::MAX,
    ensures
        p == pagination(total, skip),
{
    let end: usize = skip + 1 + ROWS;
    Pagination {
        first: if total > 0 {
            skip + 1
        } else {
            0
        },
        last: if end <= total {
            end
        } else {
            total
        },
        total,
        prev_disabled: skip == 0,
        next_disabled: end >= total,
    }
}

impl Pagination {
    /// The line as text: the first and the last number with a dash between
    /// them, then "of" and the total; each number with commas between the
    /// thousands.
    pub open spec fn line(self) -> Seq<char> {
        grouped(self.first as nat) + "-"@ + grouped(self.last as nat) + " of "@ + grouped(
            self.total as nat,
        )
    }

    /// Writes the line.
    pub fn text(&self) -> (s: String)
        ensures
            s@ == self.line(),
    {
        let mut s = prettyprint_usize(self.first);
        s.append("-");
        let last = prettyprint_usize(self.last);
        s.append(last.as_str());
        s.append(" of ");
        let total = prettyprint_usize(self.total);
        s.append(total.as_str());
        s
    }
}

/// While some row is left to show, the numbers of the line are in order:
/// the first is that of the first row shown, the last is not before it and
/// not beyond the total. The button for the previous page is disabled on
/// the first page only.
pub proof fn lemma_pagination_in_order(total: usize, skip: usize)
    requires
        skip + 1 + ROWS <= usize::MAX,
        skip < total,
    ensures
        pagination(total, skip).first == skip + 1,
        pagination(total, skip).first <= pagination(total, skip).last <= total,
        pagination(total, skip).prev_disabled <==> skip == 0,
{
}

/// A page never holds more than `ROWS` rows; it holds `ROWS` of them while
/// that many are left after those skipped, and else what is left.
pub proof fn lemma_page_length<T>(data: Seq<T>, skip: usize)
    ensures
        page_rows(data, skip).len() <= ROWS,
        skip + ROWS <= data.len() ==> page_rows(data, skip).len() == ROWS,
        skip <= data.len() < skip + ROWS ==> page_rows(data, skip).len() == data.len() - skip,
        skip > data.len() ==> page_rows(data, skip).len() == 0,
        forall|k: int|
            0 <= k < page_rows(data, skip).len() ==> #[trigger] page_rows(data, skip)[k] == data[skip
                + k],
{
}

/// The first column at or after `from` that is named `sort_by` and sortable.
pub open spec fn sort_column(columns: Seq<Column>, sort_by: Seq<char>, from: int) -> Option<int>
    decreases columns.len() - from,
{
    if from < 0 || from >= columns.len() {
        None
    } else if columns[from].name@ == sort_by && columns[from].col == Col::Sortable {
        Some(from)
    } else {
        sort_column(columns, sort_by, from + 1)
    }
}

/// The column that orders the rows is named as the table is sorted by and
/// is sortable, and no column before it is both.
pub proof fn lemma_sort_column(columns: Seq<Column>, sort_by: Seq<char>, from: int)
    requires
        0 <= from,
    ensures
        match sort_column(columns, sort_by, from) {
            Some(c) => {
                &&& from <= c < columns.len()
                &&& columns[c].name@ == sort_by
                &&& columns[c].col == Col::Sortable
                &&& forall|k: int|
                    from <= k < c ==> !((#[trigger] columns[k]).name@ == sort_by && columns[k].col
                        == Col::Sortable)
            },
            None => forall|k: int|
                from <= k < columns.len() ==> !((#[trigger] columns[k]).name@ == sort_by
                    && columns[k].col == Col::Sortable),
        },
    decreases columns.len() - from,
{
    if from < columns.len() && !(columns[from].name@ == sort_by && columns[from].col
        == Col::Sortable) {
        lemma_sort_column(columns, sort_by, from + 1);
    }
}

/// Whether some column is named `name`.
pub open spec fn has_column(columns: Seq<Column>, name: Seq<char>) -> bool {
    exists|i: int| 0 <= i < columns.len() && (#[trigger] columns[i]).name@ == name
}

/// The header of a column, given what the rows are ordered by.
pub open spec fn header_of(column: Column, sort_by: Seq<char>, descending: bool) -> Header {
    if sort_by == column.name@ {
        Header::SortedBy { descending }
    } else if column.col == Col::Sortable {
        Header::SortButton
    } else {
        Header::Label
    }
}

/// Of the first `n` rows, those that `keep` marks, in order.
pub open spec fn picked<T>(data: Seq<T>, keep: Seq<bool>, n: nat) -> Seq<T>
    decreases n,
{
    if n == 0 {
        Seq::empty()
    } else {
        let rest = picked(data, keep, (n - 1) as nat);
        if n - 1 < data.len() && n - 1 < keep.len() && keep[n - 1] {
            rest.push(data[n - 1])
        } else {
            rest
        }
    }
}

/// `picked` looks at the first `n` marks only.
pub proof fn lemma_picked_prefix<T>(data: Seq<T>, a: Seq<bool>, b: Seq<bool>, n: nat)
    requires
        n <= a.len(),
        n <= b.len(),
        forall|i: int| 0 <= i < n ==> a[i] == b[i],
    ensures
        picked(data, a, n) == picked(data, b, n),
    decreases n,
{
    if n > 0 {
        lemma_picked_prefix(data, a, b, (n - 1) as nat);
    }
}

/// The rows of one page: those of `data` from `skip` on, `ROWS` at most.
pub open spec fn page_rows<T>(data: Seq<T>, skip: usize) -> Seq<T> {
    if skip >= data.len() {
        Seq::empty()
    } else if skip + ROWS <= data.len() {
        data.subrange(skip as int, skip + ROWS)
    } else {
        data.subrange(skip as int, data.len() as int)
    }
}

/// Rows with a column for each thing to show, a filter, an order, and the
/// page that is shown.
pub struct Table<T, F> {
    pub id: String,
    pub data: Vec<T>,
    pub columns: Vec<Column>,
    pub filter: Filter<F>,
    pub sort_by: String,
    pub descending: bool,
    pub skip: usize,
}

impl Filter<()> {
    /// A filter without controls, for a table whose rows are all shown; used
    /// with [`keep_all`].
    pub fn empty() -> (f: Filter<()>)
        ensures
            f.state == (),
    {
        Filter { state: () }
    }
}

/// The test of [`Filter::empty`]: every row passes.
pub fn keep_all<T>(state: &(), row: &T) -> (r: bool)
    ensures
        r,
{
    true
}

impl<T, F> Table<T, F> {
    /// A table without columns, ordered by `default_sort_by`, descending, on
    /// its first page.
    pub fn new(id: String, data: Vec<T>, default_sort_by: &str, filter: Filter<F>) -> (t: Table<
        T,
        F,
    >)
        ensures
            t.id == id,
            t.data == data,
            t.columns@.len() == 0,
            t.filter == filter,
            t.sort_by@ == default_sort_by@,
            t.descending,
            t.skip == 0,
    {
        Table {
            id,
            data,
            columns: Vec::new(),
            filter,
            sort_by: default_sort_by.to_owned(),
            descending: true,
            skip: 0,
        }
    }

    /// Adds a column at the end.
    pub fn column(&mut self, name: &str, col: Col)
        ensures
            final(self).columns@.len() == old(self).columns@.len() + 1,
            final(self).columns@.drop_last() == old(self).columns@,
            final(self).columns@.last().name@ == name@,
            final(self).columns@.last().col == col,
            final(self).id == old(self).id,
            final(self).data == old(self).data,
            final(self).filter == old(self).filter,
            final(self).sort_by == old(self).sort_by,
            final(self).descending == old(self).descending,
            final(self).skip == old(self).skip,
    {
        self.columns.push(Column { name: name.to_owned(), col });
        assert(self.columns@.drop_last() =~= old(self).columns@);
    }

    /// Adds a column by which the rows cannot be ordered.
    pub fn static_col(&mut self, name: &str)
        ensures
            final(self).columns@.len() == old(self).columns@.len() + 1,
            final(self).columns@.drop_last() == old(self).columns@,
            final(self).columns@.last().name@ == name@,
            final(self).columns@.last().col == Col::Static,
            final(self).id == old(self).id,
            final(self).data == old(self).data,
            final(self).filter == old(self).filter,
            final(self).sort_by == old(self).sort_by,
            final(self).descending == old(self).descending,
            final(self).skip == old(self).skip,
    {
        self.column(name, Col::Static);
    }

    /// Takes the new state of the filter's controls and goes back to the
    /// first page.
    pub fn panel_changed(&mut self, state: F)
        ensures
            final(self).filter.state == state,
            final(self).skip == 0,
            final(self).id == old(self).id,
            final(self).data == old(self).data,
            final(self).columns == old(self).columns,
            final(self).sort_by == old(self).sort_by,
            final(self).descending == old(self).descending,
    {
        self.filter.state = state;
        self.skip = 0;
    }
}


impl<T, F> Table<T, F> {
    /// `keep` holds, for each row, an answer of `apply` to the row under the
    /// filter's present state.
    pub open spec fn filter_marks<P: Fn(&F, &T) -> bool>(&self, apply: P, keep: Seq<bool>) -> bool {
        &&& keep.len() == self.data@.len()
        &&& forall|i: int|
            0 <= i < keep.len() ==> call_ensures(
                apply,
                (&self.filter.state, &self.data@[i]),
                #[trigger] keep[i],
            )
    }

    /// `sorted` is what ordering `kept` by the present sort column gives:
    /// an answer of `sorter` for that column, or `kept` itself where no
    /// sortable column has the name.
    pub open spec fn sort_answer<'a, S: Fn(usize, Vec<&'a T>) -> Vec<&'a T>>(
        &self,
        sorter: S,
        kept: Vec<&'a T>,
        sorted: Vec<&'a T>,
    ) -> bool {
        match sort_column(self.columns@, self.sort_by@, 0) {
            Some(c) => c <= usize::MAX && call_ensures(sorter, (c as usize, kept), sorted),
            None => sorted == kept,
        }
    }

    /// `rows` is what the table shows in all, given that the filter keeps the
    /// rows marked in `keep`, and that ordering `kept` gave `sorted`.
    pub open spec fn shows<'a, P: Fn(&F, &T) -> bool, S: Fn(usize, Vec<&'a T>) -> Vec<&'a T>>(
        &self,
        apply: P,
        sorter: S,
        keep: Seq<bool>,
        kept: Vec<&'a T>,
        sorted: Vec<&'a T>,
        rows: Seq<&'a T>,
    ) -> bool {
        &&& self.filter_marks(apply, keep)
        &&& kept@.unref() == picked(self.data@, keep, self.data@.len())
        &&& self.sort_answer(sorter, kept, sorted)
        &&& rows == if self.descending {
            sorted@.reverse()
        } else {
            sorted@
        }
    }

    /// The column that orders the rows: the first that is named as
    /// `sort_by` says and is sortable.
    pub fn sorting_column(&self) -> (r: Option<usize>)
        ensures
            match r {
                Some(c) => sort_column(self.columns@, self.sort_by@, 0) == Some(c as int),
                None => sort_column(self.columns@, self.sort_by@, 0) is None,
            },
    {
        let mut i: usize = 0;
        while i < self.columns.len()
            invariant
                i <= self.columns.len(),
                sort_column(self.columns@, self.sort_by@, 0) == sort_column(
                    self.columns@,
                    self.sort_by@,
                    i as int,
                ),
            decreases self.columns.len() - i,
        {
            if self.columns[i].name == self.sort_by {
                match self.columns[i].col {
                    Col::Sortable => {
                        return Some(i);
                    },
                    Col::Static => {},
                }
            }
            i += 1;
        }
        None
    }

    /// All rows that pass the filter, ordered by the present sort column,
    /// and turned round where the order is descending.
    ///
    /// `apply` says whether a row passes under the filter's state. `sorter`
    /// orders rows by the column whose position it is given.
    pub fn get_filtered_data<'a, P: Fn(&F, &T) -> bool, S: Fn(usize, Vec<&'a T>) -> Vec<&'a T>>(
        &'a self,
        apply: P,
        sorter: S,
    ) -> (r: Vec<&'a T>)
        requires
            forall|row: &T| call_requires(apply, (&self.filter.state, row)),
            forall|c: usize, rows: Vec<&'a T>| call_requires(sorter, (c, rows)),
        ensures
            exists|keep: Seq<bool>, kept: Vec<&'a T>, sorted: Vec<&'a T>| #[trigger]
                self.shows(apply, sorter, keep, kept, sorted, r@),
    {
        // Filter
        let mut data: Vec<&'a T> = Vec::new();
        let ghost mut keep: Seq<bool> = Seq::empty();
        let mut i: usize = 0;
        while i < self.data.len()
            invariant
                i <= self.data.len(),
                keep.len() == i,
                forall|row: &T| call_requires(apply, (&self.filter.state, row)),
                forall|k: int|
                    0 <= k < i ==> call_ensures(
                        apply,
                        (&self.filter.state, &self.data@[k]),
                        #[trigger] keep[k],
                    ),
                data@.unref() == picked(self.data@, keep, i as nat),
            decreases self.data.len() - i,
        {
            let row = &self.data[i];
            let ok = apply(&self.filter.state, row);
            let ghost before = keep;
            let ghost rows = data@;
            proof {
                keep = keep.push(ok);
                lemma_picked_prefix(self.data@, before, keep, i as nat);
            }
            if ok {
                data.push(row);
                assert(data@.unref() =~= rows.unref().push(*row));
            }
            i += 1;
        }
        let ghost kept = data;

        // Sort
        let sorted = match self.sorting_column() {
            Some(c) => sorter(c, data),
            None => data,
        };
        let out = if self.descending {
            reversed(sorted)
        } else {
            sorted
        };
        assert(self.shows(apply, sorter, keep, kept, sorted, out@));
        out
    }

    /// What the header of each column shows.
    pub fn headers(&self) -> (r: Vec<Header>)
        ensures
            r@.len() == self.columns@.len(),
            forall|i: int|
                0 <= i < r@.len() ==> #[trigger] r@[i] == header_of(
                    self.columns@[i],
                    self.sort_by@,
                    self.descending,
                ),
    {
        let mut out: Vec<Header> = Vec::new();
        let mut i: usize = 0;
        while i < self.columns.len()
            invariant
                i <= self.columns.len(),
                out@.len() == i,
                forall|k: int|
                    0 <= k < i ==> #[trigger] out@[k] == header_of(
                        self.columns@[k],
                        self.sort_by@,
                        self.descending,
                    ),
            decreases self.columns.len() - i,
        {
            let header = if self.sort_by == self.columns[i].name {
                Header::SortedBy { descending: self.descending }
            } else {
                match self.columns[i].col {
                    Col::Sortable => Header::SortButton,
                    Col::Static => Header::Label,
                }
            };
            out.push(header);
            i += 1;
        }
        out
    }
}

/// What a table shows: the headers, the rows of the present page, each with
/// its label, and the line below them.
pub struct Page<'a, T> {
    pub headers: Vec<Header>,
    pub rows: Vec<(String, &'a T)>,
    pub pagination: Pagination,
}

impl<T, F> Table<T, F> {
    /// `shown` holds the rows of the present page out of `rows`, each with a
    /// label that `label_per_row` gave for it.
    pub open spec fn page_of<'a, L: Fn(&T) -> String>(
        &self,
        label_per_row: L,
        rows: Seq<&'a T>,
        shown: Seq<(String, &'a T)>,
    ) -> bool {
        &&& shown.len() == page_rows(rows, self.skip).len()
        &&& forall|i: int|
            0 <= i < shown.len() ==> (#[trigger] shown[i]).1 == page_rows(rows, self.skip)[i]
                && call_ensures(label_per_row, (shown[i].1,), shown[i].0)
    }

    /// The rows of the present page out of `data`, each with its label.
    pub fn page<'a, L: Fn(&T) -> String>(&self, data: Vec<&'a T>, label_per_row: L) -> (r: Vec<
        (String, &'a T),
    >)
        requires
            forall|row: &T| call_requires(label_per_row, (row,)),
        ensures
            self.page_of(label_per_row, data@, r@),
    {
        let mut out: Vec<(String, &'a T)> = Vec::new();
        let mut i: usize = self.skip;
        let ghost page = page_rows(data@, self.skip);
        while i < data.len() && out.len() < ROWS
            invariant
                forall|row: &T| call_requires(label_per_row, (row,)),
                page == page_rows(data@, self.skip),
                self.skip <= i,
                i - self.skip == out@.len(),
                out@.len() <= ROWS,
                out@.len() <= page.len(),
                forall|k: int|
                    0 <= k < out@.len() ==> (#[trigger] out@[k]).1 == page[k] && call_ensures(
                        label_per_row,
                        (out@[k].1,),
                        out@[k].0,
                    ),
            decreases data.len() - i,
        {
            let row = data[i];
            assert(row == page[i - self.skip]);
            let label = label_per_row(row);
            out.push((label, row));
            i += 1;
        }
        out
    }

    /// What the table shows now: see [`Self::get_filtered_data`] for the rows
    /// and the two functions, and [`Self::page`] for the labels.
    pub fn render<
        'a,
        P: Fn(&F, &T) -> bool,
        S: Fn(usize, Vec<&'a T>) -> Vec<&'a T>,
        L: Fn(&T) -> String,
    >(&'a self, apply: P, sorter: S, label_per_row: L) -> (r: Page<'a, T>)
        requires
            self.skip + 1 + ROWS <= usize::MAX,
            forall|row: &T| call_requires(apply, (&self.filter.state, row)),
            forall|c: usize, rows: Vec<&'a T>| call_requires(sorter, (c, rows)),
            forall|row: &T| call_requires(label_per_row, (row,)),
        ensures
            r.headers@.len() == self.columns@.len(),
            forall|i: int|
                0 <= i < r.headers@.len() ==> #[trigger] r.headers@[i] == header_of(
                    self.columns@[i],
                    self.sort_by@,
                    self.descending,
                ),
            exists|keep: Seq<bool>, kept: Vec<&'a T>, sorted: Vec<&'a T>, rows: Seq<&'a T>|
                {
                    &&& #[trigger] self.shows(apply, sorter, keep, kept, sorted, rows)
                    &&& self.page_of(label_per_row, rows, r.rows@)
                    &&& rows.len() <= usize::MAX
                    &&& r.pagination == pagination(rows.len() as usize, self.skip)
                },
    {
        let data = self.get_filtered_data(apply, sorter);
        let ghost rows = data@;
        let num_filtered = data.len();
        let headers = self.headers();
        let shown = self.page(data, label_per_row);
        Page { headers, rows: shown, pagination: make_pagination(num_filtered, self.skip) }
    }

    /// Reacts to a click on the button named `action`. "previous" and "next"
    /// turn one page back or on. The name of a column goes back to the first
    /// page, and orders the rows by that column, descending; where they are
    /// ordered by it already, the order is turned round. True if the click
    /// was for this table, which must then be drawn anew.
    pub fn clicked(&mut self, action: &str) -> (r: bool)
        requires
            action@ == "previous"@ ==> old(self).skip >= ROWS,
            action@ != "previous"@ && action@ == "next"@ ==> old(self).skip + ROWS <= usize::MAX,
        ensures
            final(self).id == old(self).id,
            final(self).data == old(self).data,
            final(self).columns == old(self).columns,
            final(self).filter == old(self).filter,
            if action@ == "previous"@ {
                &&& r
                &&& final(self).skip == old(self).skip - ROWS
                &&& final(self).sort_by == old(self).sort_by
                &&& final(self).descending == old(self).descending
            } else if action@ == "next"@ {
                &&& r
                &&& final(self).skip == old(self).skip + ROWS
                &&& final(self).sort_by == old(self).sort_by
                &&& final(self).descending == old(self).descending
            } else if has_column(old(self).columns@, action@) {
                &&& r
                &&& final(self).skip == 0
                &&& final(self).sort_by@ == action@
                &&& final(self).descending == if old(self).sort_by@ == action@ {
                    !old(self).descending
                } else {
                    true
                }
            } else {
                &&& !r
                &&& final(self).skip == old(self).skip
                &&& final(self).sort_by == old(self).sort_by
                &&& final(self).descending == old(self).descending
            },
    {
        let name = action.to_owned();
        if name == "previous".to_owned() {
            self.skip -= ROWS;
            return true;
        }
        if name == "next".to_owned() {
            self.skip += ROWS;
            return true;
        }
        let mut i: usize = 0;
        while i < self.columns.len()
            invariant
                i <= self.columns.len(),
                *self == *old(self),
                name@ == action@,
                action@ != "previous"@,
                action@ != "next"@,
                forall|k: int| 0 <= k < i ==> (#[trigger] self.columns@[k]).name@ != action@,
            decreases self.columns.len() - i,
        {
            if self.columns[i].name == name {
                assert(has_column(old(self).columns@, action@)) by {
                    assert(old(self).columns@[i as int].name@ == action@);
                }
                self.skip = 0;
                if self.sort_by == name {
                    self.descending = !self.descending;
                } else {
                    self.sort_by = name;
                    self.descending = true;
                }
                return true;
            }
            i += 1;
        }
        false
    }
}

/// The same rows, last first.
pub fn reversed<T>(rows: Vec<T>) -> (r: Vec<T>)
    ensures
        r@ == rows@.reverse(),
{
    let mut rows = rows;
    let ghost given = rows@;
    let mut out: Vec<T> = Vec::new();
    while rows.len() > 0
        invariant
            rows@.len() + out@.len() == given.len(),
            rows@ == given.take(rows@.len() as int),
            forall|k: int| 0 <= k < out@.len() ==> #[trigger] out@[k] == given[given.len() - 1 - k],
        decreases rows.len(),
    {
        let ghost len = rows@.len();
        match rows.pop() {
            Some(row) => {
                out.push(row);
            },
            None => {},
        }
        assert(rows@ =~= given.take(len - 1));
    }
    assert(out@ =~= given.reverse());
    out
}

} // verus!
