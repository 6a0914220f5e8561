//! A column as it is shown: its labels beside its values.
use vstd::prelude::*;
use vstd::string::StringExecFns;
use crate::engine::block_manager::column::{Cell, CellView};
use crate::engine::block_manager::format::{
    cell_views, row_views, Grid, GridView, SHOWN_AT_EACH_END, SHOWN_WHOLE,
};
use crate::engine::series::{Scalar, Series, SeriesView};
use crate::text::{decimal, texts, usize_to_string};

verus! {

impl<T: Scalar> SeriesView<T> {
    /// The titles above a column that is shown.
    pub open spec fn titles() -> Seq<Seq<char>> {
        seq!["index"@, "values"@]
    }

    /// Position `i` as it is shown: its label, then its value.
    pub open spec fn row(self, i: int) -> Seq<CellView> {
        seq![CellView::Text(self.index[i]), self.values[i].cell_of()]
    }

    /// The positions from `start` up to `end`, as they are shown.
    pub open spec fn rows(self, start: int, end: int) -> Seq<Seq<CellView>> {
        Seq::new((end - start) as nat, |k: int| self.row(start + k))
    }

    /// The last row of a column that is shown: its name and its tag, and
    /// its length where not all of it is shown.
    pub open spec fn summary_row(self) -> Seq<CellView> {
        let short = seq![
            CellView::Text("name:"@ + self.name),
            CellView::Text("dtype:"@ + T::tag().label_text()),
        ];
        if self.values.len() <= SHOWN_WHOLE {
            short
        } else {
            short.push(CellView::Text("length:"@ + decimal(self.values.len())))
        }
    }

    /// The column as it is shown: all of it and an empty line, or, of a
    /// column of more than ten values, the first and the last five around an
    /// empty line; and then the row that sums it up.
    pub open spec fn rendered(self) -> GridView {
        GridView {
            titles: Self::titles(),
            rows: if self.values.len() <= SHOWN_WHOLE {
                self.rows(0, self.values.len() as int) + seq![
                    Seq::<CellView>::empty(),
                    self.summary_row(),
                ]
            } else {
                self.rows(0, SHOWN_AT_EACH_END as int) + seq![Seq::<CellView>::empty()] + self.rows(
                    self.values.len() - SHOWN_AT_EACH_END,
                    self.values.len() as int,
                ) + seq![self.summary_row()]
            },
        }
    }
}

impl<T: Scalar> Series<T> {
    /// The titles above a column that is shown.
    fn titles() -> (titles: Vec<String>)
        ensures
            texts(titles@) == SeriesView::<T>::titles(),
    {
        let mut titles: Vec<String> = Vec::new();
        titles.push(String::from_str("index"));
        titles.push(String::from_str("values"));
        assert(texts(titles@) =~= SeriesView::<T>::titles());
        titles
    }

    /// Puts the positions from `start` up to `end` below the rows of `rows`.
    fn format(&self, start: usize, end: usize, rows: &mut Vec<Vec<Cell>>)
        requires
            start <= end <= self@.values.len(),
        ensures
            row_views(final(rows)@)
                == row_views(old(rows)@) + self@.rows(
                start as int,
                end as int,
            ),
    {
        proof {
            use_type_invariant(self);
        }
        let ghost before = row_views(rows@);
        let mut i: usize = start;
        while i < end
            invariant
                start <= i <= end,
                end <= self.array@.len(),
                self.index@.len() == self.array@.len(),
                row_views(rows@) == before + self@.rows(
                    start as int,
                    i as int,
                ),
            decreases end - i,
        {
            let mut row: Vec<Cell> = Vec::new();
            row.push(Cell::Text(self.index[i].clone()));
            row.push(self.array[i].cell());
            let ghost shown = row_views(rows@);
            proof {
                assert(cell_views(row@) =~= self@.row(i as int));
            }
            rows.push(row);
            proof {
                assert(row_views(rows@) =~= shown.push(
                    self@.row(i as int),
                ));
                assert(self@.rows(start as int, i + 1) =~= self@.rows(start as int, i as int).push(
                    self@.row(i as int),
                ));
                assert(before + self@.rows(start as int, i + 1) =~= (before + self@.rows(
                    start as int,
                    i as int,
                )).push(self@.row(i as int)));
            }
            i += 1;
        }
    }

    /// The column as it is shown.
    pub fn real_formatter(&self) -> (table: Grid)
        ensures
            table@ == self@.rendered(),
    {
        let mut rows: Vec<Vec<Cell>> = Vec::new();
        let n = self.array.len();
        proof {
            assert(row_views(rows@) =~= Seq::empty());
        }
        if n <= SHOWN_WHOLE {
            self.format(0, n, &mut rows);
        } else {
            self.format(0, SHOWN_AT_EACH_END, &mut rows);
        }
        let ghost top = row_views(rows@);
        rows.push(Vec::new());
        proof {
            assert(cell_views(Seq::<Cell>::empty()) =~= Seq::<CellView>::empty());
            assert(row_views(rows@) =~= top.push(
                Seq::<CellView>::empty(),
            ));
        }
        if n > SHOWN_WHOLE {
            self.format(n - SHOWN_AT_EACH_END, n, &mut rows);
        }
        let mut last: Vec<Cell> = Vec::new();
        let mut name = String::from_str("name:");
        name.append(self.name.as_str());
        last.push(Cell::Text(name));
        let mut kind = String::from_str("dtype:");
        let label = T::kind().label();
        kind.append(label.as_str());
        last.push(Cell::Text(kind));
        if n > SHOWN_WHOLE {
            let mut length = String::from_str("length:");
            let number = usize_to_string(n);
            length.append(number.as_str());
            last.push(Cell::Text(length));
        }
        let ghost body = row_views(rows@);
        proof {
            assert(cell_views(last@) =~= self@.summary_row());
        }
        rows.push(last);
        proof {
            assert(row_views(rows@) =~= body.push(
                self@.summary_row(),
            ));
            assert(row_views(rows@) =~= self@.rendered().rows);
        }
        Grid { titles: Self::titles(), rows }
    }

    /// The first `n` positions as they are shown.
    pub fn head(&self, n: usize) -> (table: Grid)
        requires
            n <= self@.values.len(),
        ensures
            table@.titles == SeriesView::<T>::titles(),
            table@.rows == self@.rows(0, n as int),
    {
        let mut rows: Vec<Vec<Cell>> = Vec::new();
        proof {
            assert(row_views(rows@) =~= Seq::empty());
        }
        self.format(0, n, &mut rows);
        proof {
            assert(row_views(rows@) =~= self@.rows(0, n as int));
        }
        Grid { titles: Self::titles(), rows }
    }

    /// The last `n` positions as they are shown.
    pub fn tail(&self, n: usize) -> (table: Grid)
        requires
            n <= self@.values.len(),
        ensures
            table@.titles == SeriesView::<T>::titles(),
            table@.rows == self@.rows(self@.values.len() - n, self@.values.len() as int),
    {
        let mut rows: Vec<Vec<Cell>> = Vec::new();
        let len = self.array.len();
        proof {
            assert(row_views(rows@) =~= Seq::empty());
        }
        self.format(len - n, len, &mut rows);
        proof {
            assert(row_views(rows@) =~= self@.rows(
                len - n,
                len as int,
            ));
        }
        Grid { titles: Self::titles(), rows }
    }
}

impl<T: Scalar> Series<T> {
    /// The first `n` positions as they are shown; nothing where the column
    /// has fewer than `n` values.
    pub fn try_head(&self, n: usize) -> (r: Option<Grid>)
        ensures
            r is Some <==> n <= self@.values.len(),
            r matches Some(table) ==> table@.titles == SeriesView::<T>::titles() && table@.rows
                == self@.rows(0, n as int),
    {
        if n <= self.len() {
            Some(self.head(n))
        } else {
            None
        }
    }

    /// The last `n` positions as they are shown; nothing where the column
    /// has fewer than `n` values.
    pub fn try_tail(&self, n: usize) -> (r: Option<Grid>)
        ensures
            r is Some <==> n <= self@.values.len(),
            r matches Some(table) ==> table@.titles == SeriesView::<T>::titles() && table@.rows
                == self@.rows(self@.values.len() - n, self@.values.len() as int),
    {
        if n <= self.len() {
            Some(self.tail(n))
        } else {
            None
        }
    }
}

} // verus!
