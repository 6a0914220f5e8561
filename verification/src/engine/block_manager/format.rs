//! The cells of a table as they are shown: a grid of titles and rows.
use vstd::prelude::*;
use vstd::string::StringExecFns;
use crate::engine::block_manager::column::{Cell, CellView};
use crate::engine::block_manager::{BlockManager, FrameView};
use crate::engine::series::{Float32, Float64};
use crate::text::{chars_of, decimal, texts, usize_to_string};

verus! {

/// A table as it is shown: a line of titles, and rows of cells below it.
pub struct Grid {
    /// The titles of the columns.
    pub titles: Vec<String>,
    /// The rows, from top to bottom. A row without cells shows as an empty line.
    pub rows: Vec<Vec<Cell>>,
}

/// What a [`Grid`] stands for.
pub struct GridView {
    /// The titles of the columns.
    pub titles: Seq<Seq<char>>,
    /// The rows, from top to bottom.
    pub rows: Seq<Seq<CellView>>,
}

/// The views of the cells of a row.
pub open spec fn cell_views(row: Seq<Cell>) -> Seq<CellView> {
    row.map_values(|c: Cell| c@)
}

/// The views of the rows of a grid.
pub open spec fn row_views(rows: Seq<Vec<Cell>>) -> Seq<Seq<CellView>> {
    rows.map_values(|r: Vec<Cell>| cell_views(r@))
}

impl View for Grid {
    type V = GridView;

    open spec fn view(&self) -> GridView {
        GridView { titles: texts(self.titles@), rows: row_views(self.rows@) }
    }
}

/// The number of rows up to which a table is shown whole.
pub const SHOWN_WHOLE: usize = 10;

/// The number of rows that are shown of the top and of the bottom of a longer table.
pub const SHOWN_AT_EACH_END: usize = 5;

/// The number of rows from which on a rendered table says how large it is.
pub const SUMMARY_FROM: usize = 50;

impl FrameView {
    /// The number of rows: that of the columns, and 0 for a table without columns.
    pub open spec fn row_count(self) -> nat {
        if self.columns.len() == 0 {
            0
        } else {
            self.len
        }
    }

    /// The titles: a blank above the row labels, then the names of the columns.
    pub open spec fn titles(self) -> Seq<Seq<char>> {
        seq![" "@] + self.names()
    }

    /// Row `i` as it is shown: its label, then the cell of every column.
    pub open spec fn row(self, i: int) -> Seq<CellView> {
        seq![CellView::Text(self.index[i])] + Seq::new(
            self.columns.len(),
            |j: int| self.columns[j].cell(i),
        )
    }

    /// The rows from `start` up to `end`, as they are shown.
    pub open spec fn rows(self, start: int, end: int) -> Seq<Seq<CellView>> {
        Seq::new((end - start) as nat, |k: int| self.row(start + k))
    }

    /// The row that stands for the rows that are left out.
    pub open spec fn dots(self) -> Seq<CellView> {
        Seq::new(self.columns.len() + 1, |j: int| CellView::Text("...."@))
    }

    /// The row that shows the tag of every column.
    pub open spec fn types_row(self) -> Seq<CellView> {
        seq![CellView::Text("types"@)] + Seq::new(
            self.columns.len(),
            |j: int| CellView::Text(self.columns[j].tag().label_text()),
        )
    }

    /// The rows of the table as they are shown: all of them, or, of a table
    /// of more than [`SHOWN_WHOLE`] rows, the first and the last
    /// [`SHOWN_AT_EACH_END`] with a row of dots between them.
    pub open spec fn shown_rows(self) -> Seq<Seq<CellView>> {
        if self.row_count() <= SHOWN_WHOLE {
            self.rows(0, self.row_count() as int)
        } else {
            self.rows(0, SHOWN_AT_EACH_END as int) + seq![self.dots()] + self.rows(
                self.row_count() - SHOWN_AT_EACH_END,
                self.row_count() as int,
            )
        }
    }

    /// The table as it is shown; with `debug`, an empty line and the tags of
    /// the columns follow the rows.
    pub open spec fn rendered(self, debug: bool) -> GridView {
        GridView {
            titles: self.titles(),
            rows: if debug {
                self.shown_rows() + seq![Seq::<CellView>::empty(), self.types_row()]
            } else {
                self.shown_rows()
            },
        }
    }

    /// The line that tells the size of a table of [`SUMMARY_FROM`] rows or more.
    pub open spec fn summary(self, debug: bool) -> Seq<char> {
        if debug {
            "\n["@ + decimal(self.row_count()) + " rows x "@ + decimal(self.columns.len())
                + " columns]"@
        } else {
            "\n"@ + decimal(self.row_count()) + "[rows x "@ + decimal(self.columns.len())
                + " columns]"@
        }
    }
}

impl BlockManager {
    /// Row `i` as it is shown.
    fn format_row(&self, i: usize) -> (row: Vec<Cell>)
        requires
            i < self@.row_count(),
        ensures
            cell_views(row@) == self@.row(i as int),
    {
        proof {
            use_type_invariant(self);
        }
        let mut row: Vec<Cell> = Vec::new();
        row.push(Cell::Text(self.index[i].clone()));
        let n = self.columns.len();
        let mut j: usize = 0;
        while j < n
            invariant
                j <= n,
                n == self.columns@.len(),
                self@.valid(),
                i < self@.row_count(),
                row@.len() == j + 1,
                row@[0]@ == CellView::Text(self@.index[i as int]),
                forall|k: int| 0 <= k < j ==> (#[trigger] row@[k + 1])@ == self@.columns[k].cell(i as int),
            decreases n - j,
        {
            let column = &self.columns[j];
            assert(column@ == self@.columns[j as int]);
            row.push(column.cell(i));
            j += 1;
        }
        proof {
            let shown = self@.row(i as int);
            assert(cell_views(row@).len() == shown.len());
            assert forall|k: int| 0 <= k < shown.len() implies cell_views(row@)[k] == shown[k] by {
                if k > 0 {
                    assert(row@[(k - 1) + 1]@ == self@.columns[k - 1].cell(i as int));
                }
            }
            assert(cell_views(row@) =~= shown);
        }
        row
    }

    /// Puts the rows from `start` up to `end` below the rows of `table`, and,
    /// with `add_titles`, the titles of this store in place of its titles.
    pub fn format(&self, start: usize, end: usize, add_titles: bool, table: &mut Grid)
        requires
            start <= end <= self@.row_count(),
        ensures
            final(table)@.rows == old(table)@.rows + self@.rows(start as int, end as int),
            final(table)@.titles == if add_titles {
                self@.titles()
            } else {
                old(table)@.titles
            },
    {
        let ghost before = table@;
        if add_titles {
            let mut titles: Vec<String> = Vec::new();
            titles.push(String::from_str(" "));
            let n = self.columns.len();
            let mut j: usize = 0;
            while j < n
                invariant
                    j <= n,
                    n == self.columns@.len(),
                    titles@.len() == j + 1,
                    titles@[0]@ == " "@,
                    forall|k: int| 0 <= k < j ==> (#[trigger] titles@[k + 1])@ == self@.names()[k],
                decreases n - j,
            {
                titles.push(self.columns[j].name());
                j += 1;
            }
            proof {
                let shown = self@.titles();
                assert(texts(titles@).len() == shown.len());
                assert forall|k: int| 0 <= k < shown.len() implies texts(titles@)[k] == shown[k] by {
                    if k > 0 {
                        assert(titles@[(k - 1) + 1]@ == self@.names()[k - 1]);
                    }
                }
                assert(texts(titles@) =~= shown);
            }
            table.titles = titles;
        }
        let mut i: usize = start;
        while i < end
            invariant
                start <= i <= end,
                end <= self@.row_count(),
                table@.titles == if add_titles {
                    self@.titles()
                } else {
                    before.titles
                },
                table@.rows == before.rows + self@.rows(start as int, i as int),
            decreases end - i,
        {
            let row = self.format_row(i);
            let ghost rows = table@.rows;
            table.rows.push(row);
            proof {
                assert(table@.rows =~= rows.push(self@.row(i as int)));
                assert(self@.rows(start as int, i + 1) =~= self@.rows(start as int, i as int).push(
                    self@.row(i as int),
                ));
                assert(before.rows + self@.rows(start as int, i + 1) =~= (before.rows + self@.rows(
                    start as int,
                    i as int,
                )).push(self@.row(i as int)));
            }
            i += 1;
        }
    }

    /// The store as it is shown; with `debug`, an empty line and the tags of
    /// the columns follow the rows.
    pub fn real_formatter(&self, debug: bool) -> (table: Grid)
        ensures
            table@ == self@.rendered(debug),
    {
        let mut table = Grid { titles: Vec::new(), rows: Vec::new() };
        assert(table@.rows =~= Seq::empty());
        let count = self.rows();
        if count <= SHOWN_WHOLE {
            self.format(0, count, true, &mut table);
            assert(table@.rows =~= self@.shown_rows());
        } else {
            self.format(0, SHOWN_AT_EACH_END, true, &mut table);
            let mut dots: Vec<Cell> = Vec::new();
            dots.push(Cell::Text(String::from_str("....")));
            let n = self.columns.len();
            let mut j: usize = 0;
            while j < n
                invariant
                    j <= n,
                    n == self.columns@.len(),
                    dots@.len() == j + 1,
                    forall|k: int| 0 <= k <= j ==> (#[trigger] dots@[k])@ == CellView::Text("...."@),
                decreases n - j,
            {
                dots.push(Cell::Text(String::from_str("....")));
                j += 1;
            }
            assert(cell_views(dots@) =~= self@.dots());
            let ghost rows = table@.rows;
            table.rows.push(dots);
            assert(table@.rows =~= rows.push(self@.dots()));
            self.format(count - SHOWN_AT_EACH_END, count, false, &mut table);
            assert(table@.rows =~= self@.shown_rows());
        }
        if debug {
            let ghost rows = table@.rows;
            table.rows.push(Vec::new());
            let mut types: Vec<Cell> = Vec::new();
            types.push(Cell::Text(String::from_str("types")));
            let n = self.columns.len();
            let mut j: usize = 0;
            while j < n
                invariant
                    j <= n,
                    n == self.columns@.len(),
                    types@.len() == j + 1,
                    types@[0]@ == CellView::Text("types"@),
                    forall|k: int|
                        0 <= k < j ==> (#[trigger] types@[k + 1])@ == CellView::Text(
                            self@.columns[k].tag().label_text(),
                        ),
                decreases n - j,
            {
                let tag = self.columns[j].tag();
                types.push(Cell::Text(tag.label()));
                j += 1;
            }
            proof {
                let shown = self@.types_row();
                assert(cell_views(types@).len() == shown.len());
                assert forall|k: int| 0 <= k < shown.len() implies cell_views(types@)[k] == shown[k] by {
                    if k > 0 {
                        assert(types@[(k - 1) + 1]@ == CellView::Text(
                            self@.columns[k - 1].tag().label_text(),
                        ));
                    }
                }
                assert(cell_views(types@) =~= shown);
            }
            let ghost with_blank = table@.rows;
            proof {
                assert(cell_views(Seq::<Cell>::empty()) =~= Seq::<CellView>::empty());
                assert(with_blank =~= rows.push(Seq::<CellView>::empty()));
            }
            table.rows.push(types);
            assert(table@.rows =~= with_blank.push(self@.types_row()));
            assert(table@.rows =~= rows + seq![Seq::<CellView>::empty(), self@.types_row()]);
        }
        table
    }

    /// The first `n` rows as they are shown, below the titles.
    pub fn head(&self, n: usize) -> (table: Grid)
        requires
            n <= self@.row_count(),
        ensures
            table@.titles == self@.titles(),
            table@.rows == self@.rows(0, n as int),
    {
        let mut table = Grid { titles: Vec::new(), rows: Vec::new() };
        assert(table@.rows =~= Seq::empty());
        self.format(0, n, true, &mut table);
        assert(table@.rows =~= self@.rows(0, n as int));
        table
    }

    /// The last `n` rows as they are shown, below the titles.
    pub fn tail(&self, n: usize) -> (table: Grid)
        requires
            n <= self@.row_count(),
        ensures
            table@.titles == self@.titles(),
            table@.rows == self@.rows(self@.row_count() - n, self@.row_count() as int),
    {
        let mut table = Grid { titles: Vec::new(), rows: Vec::new() };
        assert(table@.rows =~= Seq::empty());
        let count = self.rows();
        self.format(count - n, count, true, &mut table);
        assert(table@.rows =~= self@.rows(self@.row_count() - n, self@.row_count() as int));
        table
    }

    /// The first `n` rows as they are shown, below the titles; nothing where
    /// the table has fewer than `n` rows.
    pub fn try_head(&self, n: usize) -> (r: Option<Grid>)
        ensures
            r is Some <==> n <= self@.row_count(),
            r matches Some(table) ==> table@.titles == self@.titles() && table@.rows == self@.rows(
                0,
                n as int,
            ),
    {
        if n <= self.rows() {
            Some(self.head(n))
        } else {
            None
        }
    }

    /// The last `n` rows as they are shown, below the titles; nothing where
    /// the table has fewer than `n` rows.
    pub fn try_tail(&self, n: usize) -> (r: Option<Grid>)
        ensures
            r is Some <==> n <= self@.row_count(),
            r matches Some(table) ==> table@.titles == self@.titles() && table@.rows == self@.rows(
                self@.row_count() - n,
                self@.row_count() as int,
            ),
    {
        if n <= self.rows() {
            Some(self.tail(n))
        } else {
            None
        }
    }

    /// The grid that [`BlockManager::head`] gives, for display in a notebook.
    pub fn head_evcxr(&self, n: usize) -> (table: Grid)
        requires
            n <= self@.row_count(),
        ensures
            table@.titles == self@.titles(),
            table@.rows == self@.rows(0, n as int),
    {
        self.head(n)
    }

    /// The grid that [`BlockManager::tail`] gives, for display in a notebook.
    pub fn tail_evcxr(&self, n: usize) -> (table: Grid)
        requires
            n <= self@.row_count(),
        ensures
            table@.titles == self@.titles(),
            table@.rows == self@.rows(self@.row_count() - n, self@.row_count() as int),
    {
        self.tail(n)
    }

    /// The line that tells the size of the table, for a table of
    /// [`SUMMARY_FROM`] rows or more.
    pub fn footer(&self, debug: bool) -> (r: Option<String>)
        ensures
            r is Some <==> self@.row_count() >= SUMMARY_FROM,
            r matches Some(s) ==> s@ == self@.summary(debug),
    {
        let count = self.rows();
        if count < SUMMARY_FROM {
            return None;
        }
        let rows = usize_to_string(count);
        let columns = usize_to_string(self.columns.len());
        let mut s = String::from_str("\n");
        if debug {
            s.append("[");
            s.append(rows.as_str());
            s.append(" rows x ");
        } else {
            s.append(rows.as_str());
            s.append("[rows x ");
        }
        s.append(columns.as_str());
        s.append(" columns]");
        proof {
            reveal_strlit("\n");
            reveal_strlit("[");
            reveal_strlit("\n[");
            assert("\n["@ =~= "\n"@ + "["@);
            assert(s@ =~= self@.summary(debug));
        }
        Some(s)
    }
}

/// The text that `prettytable` makes of a table with the given titles and
/// rows of cells, in its format without borders.
pub uninterp spec fn table_text(titles: Seq<Seq<char>>, rows: Seq<Seq<Seq<char>>>) -> Seq<char>;

/// The views of the rows of a grid of text.
pub open spec fn text_rows(rows: Seq<Vec<String>>) -> Seq<Seq<Seq<char>>> {
    rows.map_values(|r: Vec<String>| texts(r@))
}

/// The character that begins an escape sequence of a terminal.
pub open spec fn escape() -> char {
    '\u{1b}'
}

/// Whether `text` holds no escape character.
pub open spec fn plain(text: Seq<char>) -> bool {
    forall|i: int| 0 <= i < text.len() ==> #[trigger] text[i] != escape()
}

/// Whether none of `line` holds an escape character.
pub open spec fn line_plain(line: Seq<Seq<char>>) -> bool {
    forall|i: int| 0 <= i < line.len() ==> plain(#[trigger] line[i])
}

/// Whether no text of `rows` holds an escape character.
pub open spec fn rows_plain(rows: Seq<Seq<Seq<char>>>) -> bool {
    forall|i: int| 0 <= i < rows.len() ==> line_plain(#[trigger] rows[i])
}

/// `prettytable`'s `Table::to_string` on the table that has `titles` as its
/// title line and one row of cells for each of `rows`, in the format
/// `FORMAT_CLEAN`: the text depends on the titles and the cells alone.
/// `prettytable` measures every text and counts what stands inside an
/// escape sequence on its own; on some texts with an escape character that
/// count ends in a panic, so such texts are not handed to it.
#[verifier::external_body]
pub(crate) fn render_table(titles: &Vec<String>, rows: &Vec<Vec<String>>) -> (s: String)
    requires
        line_plain(texts(titles@)),
        rows_plain(text_rows(rows@)),
    ensures
        s@ == table_text(texts(titles@), text_rows(rows@)),
{
    let mut table = prettytable::Table::new();
    table.set_format(*prettytable::format::consts::FORMAT_CLEAN);
    table.set_titles(prettytable::Row::new(titles.iter().map(|c| prettytable::Cell::new(c)).collect()));
    for row in rows {
        table.add_row(prettytable::Row::new(row.iter().map(|c| prettytable::Cell::new(c)).collect()));
    }
    table.to_string()
}

/// Whether `text` holds no escape character.
pub fn is_plain(text: &str) -> (b: bool)
    ensures
        b == plain(text@),
{
    let all = chars_of(text);
    let n = all.len();
    let mut i: usize = 0;
    while i < n
        invariant
            i <= n,
            n == all@.len(),
            all@ == text@,
            forall|k: int| 0 <= k < i ==> #[trigger] all@[k] != escape(),
        decreases n - i,
    {
        if all[i] == '\u{1b}' {
            assert(text@[i as int] == escape());
            return false;
        }
        i += 1;
    }
    true
}

/// Whether none of `line` holds an escape character.
pub fn is_line_plain(line: &Vec<String>) -> (b: bool)
    ensures
        b == line_plain(texts(line@)),
{
    let n = line.len();
    let mut i: usize = 0;
    while i < n
        invariant
            i <= n,
            n == line@.len(),
            forall|k: int| 0 <= k < i ==> plain(#[trigger] texts(line@)[k]),
        decreases n - i,
    {
        assert(texts(line@)[i as int] == line@[i as int]@);
        if !is_plain(line[i].as_str()) {
            return false;
        }
        i += 1;
    }
    true
}

/// Whether no text of `rows` holds an escape character.
pub fn are_rows_plain(rows: &Vec<Vec<String>>) -> (b: bool)
    ensures
        b == rows_plain(text_rows(rows@)),
{
    let n = rows.len();
    let mut i: usize = 0;
    while i < n
        invariant
            i <= n,
            n == rows@.len(),
            forall|k: int| 0 <= k < i ==> line_plain(#[trigger] text_rows(rows@)[k]),
        decreases n - i,
    {
        assert(text_rows(rows@)[i as int] == texts(rows@[i as int]@));
        if !is_line_plain(&rows[i]) {
            return false;
        }
        i += 1;
    }
    true
}

/// `text` is what `func` returned for `value`.
pub open spec fn formatted<V, F: Fn(V) -> String>(func: F, value: V, text: Seq<char>) -> bool {
    exists|s: String| s@ == text && #[trigger] call_ensures(func, (value,), s)
}

/// `text` is the text of `cell`: the cell's own text, or what `wide` or
/// `narrow` returned for its floating point value.
pub open spec fn cell_text<F: Fn(Float64) -> String, G: Fn(Float32) -> String>(
    wide: F,
    narrow: G,
    cell: CellView,
    text: Seq<char>,
) -> bool {
    match cell {
        CellView::Text(t) => text == t,
        CellView::F64(v) => formatted(wide, v, text),
        CellView::F32(v) => formatted(narrow, v, text),
    }
}

/// `out` holds the text of every cell of `rows`, row by row.
pub open spec fn rows_as_text<F: Fn(Float64) -> String, G: Fn(Float32) -> String>(
    wide: F,
    narrow: G,
    rows: Seq<Seq<CellView>>,
    out: Seq<Seq<Seq<char>>>,
) -> bool {
    &&& out.len() == rows.len()
    &&& forall|i: int| 0 <= i < rows.len() ==> (#[trigger] out[i]).len() == rows[i].len()
    &&& forall|i: int, j: int|
        0 <= i < rows.len() && 0 <= j < rows[i].len() ==> cell_text(
            wide,
            narrow,
            rows[i][j],
            #[trigger] out[i][j],
        )
}

/// `wide` and `narrow` may be called on every floating point value.
pub open spec fn formats_all<F: Fn(Float64) -> String, G: Fn(Float32) -> String>(wide: F, narrow: G) -> bool {
    &&& forall|v: Float64| #[trigger] call_requires(wide, (v,))
    &&& forall|v: Float32| #[trigger] call_requires(narrow, (v,))
}

impl Grid {
    /// The text of every cell, row by row. Floating point values are turned
    /// into text by `wide` and `narrow`.
    pub fn cell_texts<F: Fn(Float64) -> String, G: Fn(Float32) -> String>(&self, wide: &F, narrow: &G) -> (out:
        Vec<Vec<String>>)
        requires
            formats_all(*wide, *narrow),
        ensures
            rows_as_text(*wide, *narrow, self@.rows, text_rows(out@)),
    {
        let mut out: Vec<Vec<String>> = Vec::new();
        let n = self.rows.len();
        let mut i: usize = 0;
        while i < n
            invariant
                i <= n,
                n == self.rows@.len(),
                formats_all(*wide, *narrow),
                out@.len() == i,
                forall|a: int| 0 <= a < i ==> (#[trigger] out@[a])@.len() == self.rows@[a]@.len(),
                forall|a: int, b: int|
                    0 <= a < i && 0 <= b < self.rows@[a]@.len() ==> cell_text(
                        *wide,
                        *narrow,
                        self.rows@[a]@[b]@,
                        #[trigger] out@[a]@[b]@,
                    ),
            decreases n - i,
        {
            let row = &self.rows[i];
            let mut line: Vec<String> = Vec::new();
            let m = row.len();
            let mut j: usize = 0;
            while j < m
                invariant
                    j <= m,
                    m == row@.len(),
                    formats_all(*wide, *narrow),
                    line@.len() == j,
                    forall|b: int|
                        0 <= b < j ==> cell_text(*wide, *narrow, row@[b]@, (#[trigger] line@[b])@),
                decreases m - j,
            {
                let text = match &row[j] {
                    Cell::Text(t) => {
                        let made = t.clone();
                        assert(cell_text(*wide, *narrow, row@[j as int]@, made@));
                        made
                    },
                    Cell::F64(v) => {
                        let made = wide(*v);
                        assert(call_ensures(*wide, (*v,), made));
                        assert(formatted(*wide, *v, made@));
                        assert(cell_text(*wide, *narrow, row@[j as int]@, made@));
                        made
                    },
                    Cell::F32(v) => {
                        let made = narrow(*v);
                        assert(call_ensures(*narrow, (*v,), made));
                        assert(formatted(*narrow, *v, made@));
                        assert(cell_text(*wide, *narrow, row@[j as int]@, made@));
                        made
                    },
                };
                line.push(text);
                j += 1;
            }
            out.push(line);
            i += 1;
        }
        proof {
            let shown = text_rows(out@);
            assert forall|a: int, b: int| 0 <= a < self@.rows.len() && 0 <= b < self@.rows[a].len() implies cell_text(
                *wide,
                *narrow,
                self@.rows[a][b],
                #[trigger] shown[a][b],
            ) by {
                assert(self@.rows[a][b] == self.rows@[a]@[b]@);
                assert(shown[a][b] == out@[a]@[b]@);
            }
            assert forall|a: int| 0 <= a < self@.rows.len() implies (#[trigger] shown[a]).len()
                == self@.rows[a].len() by {
                assert(shown[a].len() == out@[a]@.len());
            }
        }
        out
    }

    /// The grid as text, as `prettytable` lays it out. Floating point values
    /// are turned into text by `wide` and `narrow`. There is no text where
    /// a title or the text of a cell holds an escape character.
    pub fn render<F: Fn(Float64) -> String, G: Fn(Float32) -> String>(&self, wide: F, narrow: G) -> (r:
        Option<String>)
        requires
            formats_all(wide, narrow),
        ensures
            exists|cells: Seq<Seq<Seq<char>>>|
                #[trigger] rows_as_text(wide, narrow, self@.rows, cells) && match r {
                    Some(s) => line_plain(self@.titles) && rows_plain(cells) && s@ == table_text(
                        self@.titles,
                        cells,
                    ),
                    None => !(line_plain(self@.titles) && rows_plain(cells)),
                },
    {
        let cells = self.cell_texts(&wide, &narrow);
        assert(rows_as_text(wide, narrow, self@.rows, text_rows(cells@)));
        if is_line_plain(&self.titles) && are_rows_plain(&cells) {
            Some(render_table(&self.titles, &cells))
        } else {
            None
        }
    }
}

} // verus!
