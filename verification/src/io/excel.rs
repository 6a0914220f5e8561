//! Tables from the sheets of a spreadsheet, cell by cell.
use vstd::prelude::*;
use vstd::string::StringExecFns;
use crate::engine::block_manager::{admitted, lemma_names_push, names_of, FrameView};
use crate::engine::dataframe::DataFrame;
use crate::engine::series::{
    default_name, numbered_labels, ColumnView, Float32, Float64, Scalar, Series, SeriesView,
};
use crate::enums::{DataFrameErrors, DataFrameErrorsView, DataTypes};
use crate::text::scan::{pieces_of, split};
use crate::engine::laws::lemma_insert;
use crate::engine::series::generic::position_of;
use crate::text::texts;

verus! {

/// What a cell of a spreadsheet can show in place of a value.
#[derive(Clone, Copy, Debug, PartialEq, Eq, Structural)]
pub enum CellFault {
    /// A division by zero.
    Div0,
    /// A value that is not available.
    NA,
    /// A name that is not known.
    Name,
    /// Ranges that do not meet.
    Null,
    /// A number that cannot be shown.
    Num,
    /// A reference to a cell that is not there.
    Ref,
    /// A value of the wrong kind.
    Value,
    /// A value that is still being fetched.
    GettingData,
}

/// A cell of a spreadsheet.
#[derive(Debug)]
pub enum SheetCell {
    /// An integer.
    Int(i64),
    /// A floating point number.
    Float(Float64),
    /// A text.
    Text(String),
    /// A truth value.
    Bool(bool),
    /// A cell without a value.
    Empty,
    /// A cell that shows an error.
    Fault(CellFault),
    /// Anything else, such as a date or a duration.
    Other,
}

/// What a [`SheetCell`] stands for.
pub enum SheetCellView {
    /// See [`SheetCell::Int`].
    Int(i64),
    /// See [`SheetCell::Float`].
    Float(Float64),
    /// See [`SheetCell::Text`].
    Text(Seq<char>),
    /// See [`SheetCell::Bool`].
    Bool(bool),
    /// See [`SheetCell::Empty`].
    Empty,
    /// See [`SheetCell::Fault`].
    Fault(CellFault),
    /// See [`SheetCell::Other`].
    Other,
}

impl View for SheetCell {
    type V = SheetCellView;

    open spec fn view(&self) -> SheetCellView {
        match self {
            SheetCell::Int(v) => SheetCellView::Int(*v),
            SheetCell::Float(v) => SheetCellView::Float(*v),
            SheetCell::Text(s) => SheetCellView::Text(s@),
            SheetCell::Bool(b) => SheetCellView::Bool(*b),
            SheetCell::Empty => SheetCellView::Empty,
            SheetCell::Fault(f) => SheetCellView::Fault(*f),
            SheetCell::Other => SheetCellView::Other,
        }
    }
}

/// A sheet of a spreadsheet: its name and its rows of cells, from top to
/// bottom. The first row tells how many columns the sheet has; where a row
/// is shorter, the cells that it lacks count as empty.
pub struct Sheet {
    /// The name of the sheet.
    pub name: String,
    /// The rows of the sheet.
    pub rows: Vec<Vec<SheetCell>>,
}

/// What a [`Sheet`] stands for.
pub struct SheetView {
    /// The name of the sheet.
    pub name: Seq<char>,
    /// The rows of the sheet.
    pub rows: Seq<Seq<SheetCellView>>,
}

/// The views of the cells of a row.
pub open spec fn sheet_cells(row: Seq<SheetCell>) -> Seq<SheetCellView> {
    row.map_values(|c: SheetCell| c@)
}

/// The views of the rows of a sheet.
pub open spec fn sheet_rows(rows: Seq<Vec<SheetCell>>) -> Seq<Seq<SheetCellView>> {
    rows.map_values(|r: Vec<SheetCell>| sheet_cells(r@))
}

impl View for Sheet {
    type V = SheetView;

    open spec fn view(&self) -> SheetView {
        SheetView { name: self.name@, rows: sheet_rows(self.rows@) }
    }
}

/// The views of the sheets of a spreadsheet.
pub open spec fn sheet_views(sheets: Seq<Sheet>) -> Seq<SheetView> {
    sheets.map_values(|s: Sheet| s@)
}

/// Why the sheets of a spreadsheet are not laid out as a table.
#[derive(Debug)]
pub enum SheetError {
    /// The first row is to name the columns, and its cell at this position
    /// is no text.
    Header(usize),
    /// The sheet has the first number of columns, and the second number of
    /// types was given for them.
    Width(usize, usize),
    /// The column at this position is to hold integers, and one of its cells
    /// holds none.
    Integer(usize),
    /// The table refused a column.
    Frame(DataFrameErrors),
}

/// What a [`SheetError`] stands for.
pub enum SheetErrorView {
    /// See [`SheetError::Header`].
    Header(int),
    /// See [`SheetError::Width`].
    Width(int, int),
    /// See [`SheetError::Integer`].
    Integer(int),
    /// See [`SheetError::Frame`].
    Frame(DataFrameErrorsView),
}

impl View for SheetError {
    type V = SheetErrorView;

    open spec fn view(&self) -> SheetErrorView {
        match self {
            SheetError::Header(pos) => SheetErrorView::Header(*pos as int),
            SheetError::Width(sheet, given) => SheetErrorView::Width(*sheet as int, *given as int),
            SheetError::Integer(pos) => SheetErrorView::Integer(*pos as int),
            SheetError::Frame(e) => SheetErrorView::Frame(e@),
        }
    }
}

/// The cell at position `pos` of a row: a row that is too short counts as
/// one with empty cells behind it.
pub open spec fn cell_at(row: Seq<SheetCellView>, pos: int) -> SheetCellView {
    if 0 <= pos < row.len() {
        row[pos]
    } else {
        SheetCellView::Empty
    }
}

/// Whether a cell makes its row unusable: it is empty, or it shows an error
/// other than that its value is not available.
pub open spec fn spoils(cell: SheetCellView) -> bool {
    match cell {
        SheetCellView::Empty => true,
        SheetCellView::Fault(f) => f != CellFault::NA,
        _ => false,
    }
}

/// Whether none of the first `width` cells of a row spoils it.
pub open spec fn usable(row: Seq<SheetCellView>, width: nat) -> bool {
    forall|pos: int| 0 <= pos < width ==> !spoils(#[trigger] cell_at(row, pos))
}

/// The number of columns of a sheet: the length of its first row.
pub open spec fn sheet_width(rows: Seq<Seq<SheetCellView>>) -> nat {
    if rows.len() == 0 {
        0
    } else {
        rows[0].len()
    }
}

/// Of the first `n` rows, the usable ones, in order; with `headers`, without
/// the first row of the sheet, which names the columns.
pub open spec fn body_upto(rows: Seq<Seq<SheetCellView>>, headers: bool, n: nat) -> Seq<
    Seq<SheetCellView>,
>
    decreases n,
{
    if n == 0 {
        Seq::empty()
    } else {
        let before = body_upto(rows, headers, (n - 1) as nat);
        if usable(rows[n - 1], sheet_width(rows)) && !(headers && n == 1) {
            before.push(rows[n - 1])
        } else {
            before
        }
    }
}

/// The rows of a sheet that hold its values.
pub open spec fn body_of(rows: Seq<Seq<SheetCellView>>, headers: bool) -> Seq<Seq<SheetCellView>> {
    body_upto(rows, headers, rows.len())
}

/// The least position below `n` at which a row holds no text.
pub open spec fn first_untitled(row: Seq<SheetCellView>, n: nat) -> Option<int>
    decreases n,
{
    if n == 0 {
        None
    } else {
        match first_untitled(row, (n - 1) as nat) {
            Some(pos) => Some(pos),
            None => if cell_at(row, n - 1) is Text {
                None
            } else {
                Some(n - 1)
            },
        }
    }
}

/// The name under which column `pos` of a sheet is offered to the table:
/// with `headers` the text at the top of the column, else the name of a
/// column that was given none.
pub open spec fn title_at(rows: Seq<Seq<SheetCellView>>, headers: bool, pos: int) -> Seq<char> {
    if headers {
        match cell_at(rows[0], pos) {
            SheetCellView::Text(s) => s,
            _ => default_name(),
        }
    } else {
        default_name()
    }
}

/// The integers at position `pos` of the first `n` rows, unless one of
/// these cells holds no integer.
pub open spec fn ints_upto(body: Seq<Seq<SheetCellView>>, pos: int, n: nat) -> Option<Seq<i64>>
    decreases n,
{
    if n == 0 {
        Some(Seq::empty())
    } else {
        match (ints_upto(body, pos, (n - 1) as nat), cell_at(body[n - 1], pos)) {
            (Some(before), SheetCellView::Int(v)) => Some(before.push(v)),
            _ => None,
        }
    }
}

/// The floating point numbers at position `pos` of the first `n` rows; a
/// cell that holds none is passed over.
pub open spec fn floats_upto(body: Seq<Seq<SheetCellView>>, pos: int, n: nat) -> Seq<Float64>
    decreases n,
{
    if n == 0 {
        Seq::empty()
    } else {
        let before = floats_upto(body, pos, (n - 1) as nat);
        match cell_at(body[n - 1], pos) {
            SheetCellView::Float(v) => before.push(v),
            _ => before,
        }
    }
}

/// The texts at position `pos` of the first `n` rows; a cell that holds
/// none is passed over.
pub open spec fn texts_upto(body: Seq<Seq<SheetCellView>>, pos: int, n: nat) -> Seq<Seq<char>>
    decreases n,
{
    if n == 0 {
        Seq::empty()
    } else {
        let before = texts_upto(body, pos, (n - 1) as nat);
        match cell_at(body[n - 1], pos) {
            SheetCellView::Text(s) => before.push(s),
            _ => before,
        }
    }
}

/// The values of a column, strings by their characters.
pub enum ColumnValues {
    /// Double precision floating point values.
    F64(Seq<Float64>),
    /// Single precision floating point values.
    F32(Seq<Float32>),
    /// 64-bit integers.
    I64(Seq<i64>),
    /// 32-bit integers.
    I32(Seq<i32>),
    /// Owned strings.
    Text(Seq<Seq<char>>),
    /// Borrowed strings.
    Str(Seq<Seq<char>>),
    /// Truth values.
    Bool(Seq<bool>),
}

impl ColumnValues {
    /// The number of values.
    pub open spec fn len(self) -> nat {
        match self {
            ColumnValues::F64(v) => v.len(),
            ColumnValues::F32(v) => v.len(),
            ColumnValues::I64(v) => v.len(),
            ColumnValues::I32(v) => v.len(),
            ColumnValues::Text(v) => v.len(),
            ColumnValues::Str(v) => v.len(),
            ColumnValues::Bool(v) => v.len(),
        }
    }
}

/// The values of a stored column.
pub open spec fn values_of(col: ColumnView) -> ColumnValues {
    match col {
        ColumnView::F64(s) => ColumnValues::F64(s.values),
        ColumnView::F32(s) => ColumnValues::F32(s.values),
        ColumnView::I64(s) => ColumnValues::I64(s.values),
        ColumnView::I32(s) => ColumnValues::I32(s.values),
        ColumnView::Text(s) => ColumnValues::Text(texts(s.values)),
        ColumnView::Str(s) => ColumnValues::Str(s.values.map_values(|t: &'static str| t@)),
        ColumnView::Bool(s) => ColumnValues::Bool(s.values),
    }
}

/// A table by the names and the values of its columns.
pub struct Layout {
    /// The names of the columns, in presentation order.
    pub names: Seq<Seq<char>>,
    /// The number of rows. Meaningful while there is a column.
    pub len: nat,
    /// The values of the columns, in presentation order.
    pub columns: Seq<ColumnValues>,
}

impl Layout {
    /// The table without columns.
    pub open spec fn empty() -> Self {
        Layout { names: Seq::empty(), len: 0, columns: Seq::empty() }
    }

    /// The table after the offer of a column of `values` as `name`, which
    /// is to be preserved: see [`admitted`].
    pub open spec fn taking(self, name: Seq<char>, values: ColumnValues) -> Result<
        Self,
        SheetErrorView,
    > {
        match admitted(self.names, self.len, name, values.len(), true) {
            Ok(given) => Ok(
                Layout {
                    names: self.names.push(given),
                    len: values.len(),
                    columns: self.columns.push(values),
                },
            ),
            Err(e) => Err(SheetErrorView::Frame(e)),
        }
    }
}

/// The labels `0`, `1`, ... of `len` rows.
pub open spec fn counted(len: nat) -> Seq<Seq<char>> {
    numbered_labels(len, Seq::empty(), Seq::empty())
}

/// `frame` is the table that `layout` describes, with its rows labelled
/// `0`, `1`, ...
pub open spec fn lays_out(frame: FrameView, layout: Layout) -> bool {
    &&& frame.valid()
    &&& frame.names() == layout.names
    &&& frame.columns.len() == layout.columns.len()
    &&& frame.columns.len() > 0 ==> frame.len == layout.len && frame.index == counted(layout.len)
    &&& forall|k: int|
        0 <= k < frame.columns.len() ==> values_of(#[trigger] frame.columns[k])
            == layout.columns[k] && frame.columns[k].index() == counted(layout.len)
}

/// The table after column `pos` of a sheet was offered to it as a column of
/// `kind` under the name `title`.
///
/// A column of integers holds the integer of every row of `body`, and is
/// refused where a row has none. A column of floating point numbers or of
/// texts holds what the rows have of that kind, and is passed over where
/// they have nothing. Columns of other kinds are passed over.
pub open spec fn column_laid(
    layout: Layout,
    body: Seq<Seq<SheetCellView>>,
    pos: int,
    kind: DataTypes,
    title: Seq<char>,
) -> Result<Layout, SheetErrorView> {
    match kind {
        DataTypes::I64 | DataTypes::I32 => match ints_upto(body, pos, body.len()) {
            Some(v) => layout.taking(title, ColumnValues::I64(v)),
            None => Err(SheetErrorView::Integer(pos)),
        },
        DataTypes::F64 | DataTypes::F32 => {
            let v = floats_upto(body, pos, body.len());
            if v.len() == 0 {
                Ok(layout)
            } else {
                layout.taking(title, ColumnValues::F64(v))
            }
        },
        DataTypes::STR | DataTypes::STRING => {
            let v = texts_upto(body, pos, body.len());
            if v.len() == 0 {
                Ok(layout)
            } else {
                layout.taking(title, ColumnValues::Text(v))
            }
        },
        _ => Ok(layout),
    }
}

/// The table after the first `n` columns of a sheet were offered to it,
/// one after the other, as columns of `kinds`; the first column that is
/// refused ends it.
pub open spec fn columns_laid(
    layout: Layout,
    rows: Seq<Seq<SheetCellView>>,
    headers: bool,
    kinds: Seq<DataTypes>,
    n: nat,
) -> Result<Layout, SheetErrorView>
    decreases n,
{
    if n == 0 {
        Ok(layout)
    } else {
        match columns_laid(layout, rows, headers, kinds, (n - 1) as nat) {
            Ok(before) => column_laid(
                before,
                body_of(rows, headers),
                n - 1,
                kinds[n - 1],
                title_at(rows, headers, n - 1),
            ),
            Err(e) => Err(e),
        }
    }
}

/// The table after a sheet was read into it.
///
/// A sheet without rows changes nothing. With `headers`, every cell of the
/// first row must hold a text. Without `kinds` nothing more is done; else
/// there must be one kind for every column, and the columns are offered to
/// the table from left to right.
pub open spec fn sheet_laid(
    layout: Layout,
    rows: Seq<Seq<SheetCellView>>,
    headers: bool,
    kinds: Option<Seq<DataTypes>>,
) -> Result<Layout, SheetErrorView> {
    let width = sheet_width(rows);
    if rows.len() == 0 {
        Ok(layout)
    } else if headers && first_untitled(rows[0], width) is Some {
        Err(SheetErrorView::Header(first_untitled(rows[0], width)->0))
    } else {
        match kinds {
            None => Ok(layout),
            Some(k) => if k.len() != width {
                Err(SheetErrorView::Width(width as int, k.len() as int))
            } else {
                columns_laid(layout, rows, headers, k, width)
            },
        }
    }
}

/// The table after the first `n` sheets of a spreadsheet were read into
/// it, one after the other: those whose names are among `wanted`. The first
/// sheet that cannot be read ends it.
pub open spec fn book_laid(
    layout: Layout,
    sheets: Seq<SheetView>,
    wanted: Seq<Seq<char>>,
    headers: bool,
    kinds: Option<Seq<DataTypes>>,
    n: nat,
) -> Result<Layout, SheetErrorView>
    decreases n,
{
    if n == 0 {
        Ok(layout)
    } else {
        match book_laid(layout, sheets, wanted, headers, kinds, (n - 1) as nat) {
            Ok(before) => if wanted.contains(sheets[n - 1].name) {
                sheet_laid(before, sheets[n - 1].rows, headers, kinds)
            } else {
                Ok(before)
            },
            Err(e) => Err(e),
        }
    }
}

/// The rows of `rows` at the positions `at`.
pub open spec fn rows_at(rows: Seq<Seq<SheetCellView>>, at: Seq<usize>) -> Seq<Seq<SheetCellView>> {
    Seq::new(at.len(), |k: int| rows[at[k] as int])
}

/// The kinds that were given for the columns of a sheet.
pub open spec fn kinds_of(dtypes: Option<Vec<DataTypes>>) -> Option<Seq<DataTypes>> {
    match dtypes {
        Some(k) => Some(k@),
        None => None,
    }
}

/// Whether none of the first `width` cells of `row` spoils it.
fn is_usable(row: &Vec<SheetCell>, width: usize) -> (b: bool)
    ensures
        b == usable(sheet_cells(row@), width as nat),
{
    let ghost cells = sheet_cells(row@);
    let mut pos: usize = 0;
    while pos < width
        invariant
            pos <= width,
            cells == sheet_cells(row@),
            forall|p: int| 0 <= p < pos ==> !spoils(#[trigger] cell_at(cells, p)),
        decreases width - pos,
    {
        if pos >= row.len() {
            assert(spoils(cell_at(cells, pos as int)));
            return false;
        }
        assert(cell_at(cells, pos as int) == row@[pos as int]@);
        match &row[pos] {
            SheetCell::Empty => {
                return false;
            },
            SheetCell::Fault(f) => {
                match f {
                    CellFault::NA => {},
                    _ => {
                        return false;
                    },
                }
            },
            _ => {},
        }
        pos += 1;
    }
    true
}

impl Sheet {
    /// The number of columns of the sheet.
    pub fn width(&self) -> (w: usize)
        ensures
            w == sheet_width(self@.rows),
    {
        if self.rows.len() == 0 {
            0
        } else {
            self.rows[0].len()
        }
    }

    /// The positions of the rows that hold the values of the sheet, in
    /// rising order.
    fn body_rows(&self, headers: bool) -> (at: Vec<usize>)
        ensures
            forall|k: int| 0 <= k < at@.len() ==> #[trigger] at@[k] < self.rows@.len(),
            rows_at(self@.rows, at@) == body_of(self@.rows, headers),
    {
        let width = self.width();
        let n = self.rows.len();
        let ghost rows = self@.rows;
        let mut at: Vec<usize> = Vec::new();
        let mut i: usize = 0;
        assert(rows_at(rows, at@) =~= body_upto(rows, headers, 0));
        while i < n
            invariant
                i <= n,
                n == self.rows@.len(),
                rows == self@.rows,
                width == sheet_width(rows),
                forall|k: int| 0 <= k < at@.len() ==> #[trigger] at@[k] < n,
                rows_at(rows, at@) == body_upto(rows, headers, i as nat),
            decreases n - i,
        {
            let ghost before = at@;
            assert(rows[i as int] == sheet_cells(self.rows@[i as int]@));
            if is_usable(&self.rows[i], width) && !(headers && i == 0) {
                at.push(i);
                assert(rows_at(rows, at@) =~= rows_at(rows, before).push(rows[i as int]));
            }
            i += 1;
        }
        at
    }

    /// The texts of the first row, which name the columns.
    fn titles(&self) -> (r: Result<Vec<String>, SheetError>)
        requires
            self.rows@.len() > 0,
        ensures
            match first_untitled(self@.rows[0], sheet_width(self@.rows)) {
                Some(pos) => r matches Err(e) && e@ == SheetErrorView::Header(pos),
                None => r matches Ok(t) && t@.len() == sheet_width(self@.rows) && forall|p: int|
                    0 <= p < t@.len() ==> cell_at(self@.rows[0], p) == SheetCellView::Text(
                        (#[trigger] t@[p])@,
                    ),
            },
    {
        let row = &self.rows[0];
        let width = row.len();
        let ghost cells = self@.rows[0];
        assert(cells == sheet_cells(row@));
        assert(sheet_width(self@.rows) == width);
        let mut out: Vec<String> = Vec::new();
        let mut pos: usize = 0;
        while pos < width
            invariant
                pos <= width,
                width == row@.len(),
                cells == sheet_cells(row@),
                cells == self@.rows[0],
                width == sheet_width(self@.rows),
                first_untitled(cells, pos as nat) is None,
                out@.len() == pos,
                forall|p: int|
                    0 <= p < pos ==> cell_at(cells, p) == SheetCellView::Text((#[trigger] out@[p])@),
            decreases width - pos,
        {
            assert(cell_at(cells, pos as int) == row@[pos as int]@);
            match &row[pos] {
                SheetCell::Text(s) => {
                    out.push(s.clone());
                },
                _ => {
                    proof {
                        assert(first_untitled(cells, (pos + 1) as nat) == Some(pos as int));
                        lemma_untitled(cells, (pos + 1) as nat, width as nat);
                    }
                    return Err(SheetError::Header(pos));
                },
            }
            pos += 1;
        }
        Ok(out)
    }

    /// The integers at position `pos` of the rows at `at`.
    fn ints_at(&self, at: &Vec<usize>, pos: usize) -> (r: Option<Vec<i64>>)
        requires
            forall|k: int| 0 <= k < at@.len() ==> #[trigger] at@[k] < self.rows@.len(),
        ensures
            match ints_upto(rows_at(self@.rows, at@), pos as int, at@.len()) {
                Some(v) => r matches Some(out) && out@ == v,
                None => r is None,
            },
    {
        let ghost body = rows_at(self@.rows, at@);
        let n = at.len();
        let mut out: Vec<i64> = Vec::new();
        let mut k: usize = 0;
        while k < n
            invariant
                k <= n,
                n == at@.len(),
                body == rows_at(self@.rows, at@),
                forall|j: int| 0 <= j < at@.len() ==> #[trigger] at@[j] < self.rows@.len(),
                ints_upto(body, pos as int, k as nat) == Some(out@),
            decreases n - k,
        {
            let row = &self.rows[at[k]];
            assert(body[k as int] == sheet_cells(row@));
            if pos >= row.len() {
                proof {
                    lemma_no_integer(body, pos as int, (k + 1) as nat, n as nat);
                }
                return None;
            }
            assert(cell_at(body[k as int], pos as int) == row@[pos as int]@);
            match &row[pos] {
                SheetCell::Int(v) => {
                    out.push(*v);
                },
                _ => {
                    proof {
                        lemma_no_integer(body, pos as int, (k + 1) as nat, n as nat);
                    }
                    return None;
                },
            }
            k += 1;
        }
        Some(out)
    }

    /// The floating point numbers at position `pos` of the rows at `at`.
    fn floats_at(&self, at: &Vec<usize>, pos: usize) -> (out: Vec<Float64>)
        requires
            forall|k: int| 0 <= k < at@.len() ==> #[trigger] at@[k] < self.rows@.len(),
        ensures
            out@ == floats_upto(rows_at(self@.rows, at@), pos as int, at@.len()),
    {
        let ghost body = rows_at(self@.rows, at@);
        let n = at.len();
        let mut out: Vec<Float64> = Vec::new();
        let mut k: usize = 0;
        while k < n
            invariant
                k <= n,
                n == at@.len(),
                body == rows_at(self@.rows, at@),
                forall|j: int| 0 <= j < at@.len() ==> #[trigger] at@[j] < self.rows@.len(),
                out@ == floats_upto(body, pos as int, k as nat),
            decreases n - k,
        {
            let row = &self.rows[at[k]];
            assert(body[k as int] == sheet_cells(row@));
            if pos < row.len() {
                assert(cell_at(body[k as int], pos as int) == row@[pos as int]@);
                match &row[pos] {
                    SheetCell::Float(v) => {
                        out.push(*v);
                    },
                    _ => {},
                }
            }
            k += 1;
        }
        out
    }

    /// The texts at position `pos` of the rows at `at`.
    fn texts_at(&self, at: &Vec<usize>, pos: usize) -> (out: Vec<String>)
        requires
            forall|k: int| 0 <= k < at@.len() ==> #[trigger] at@[k] < self.rows@.len(),
        ensures
            texts(out@) == texts_upto(rows_at(self@.rows, at@), pos as int, at@.len()),
    {
        let ghost body = rows_at(self@.rows, at@);
        let n = at.len();
        let mut out: Vec<String> = Vec::new();
        let mut k: usize = 0;
        assert(texts(out@) =~= texts_upto(body, pos as int, 0));
        while k < n
            invariant
                k <= n,
                n == at@.len(),
                body == rows_at(self@.rows, at@),
                forall|j: int| 0 <= j < at@.len() ==> #[trigger] at@[j] < self.rows@.len(),
                texts(out@) == texts_upto(body, pos as int, k as nat),
            decreases n - k,
        {
            let row = &self.rows[at[k]];
            assert(body[k as int] == sheet_cells(row@));
            if pos < row.len() {
                assert(cell_at(body[k as int], pos as int) == row@[pos as int]@);
                match &row[pos] {
                    SheetCell::Text(s) => {
                        let ghost before = out@;
                        out.push(s.clone());
                        assert(texts(out@) =~= texts(before).push(s@));
                    },
                    _ => {},
                }
            }
            k += 1;
        }
        out
    }
}

/// Once a cell that holds no text was found, it stays the first one.
proof fn lemma_untitled(row: Seq<SheetCellView>, n: nat, m: nat)
    requires
        n <= m,
        first_untitled(row, n) is Some,
    ensures
        first_untitled(row, m) == first_untitled(row, n),
    decreases m - n,
{
    if n < m {
        lemma_untitled(row, n, (m - 1) as nat);
    }
}

/// Once a cell that holds no integer was found, the column has no integers.
proof fn lemma_no_integer(body: Seq<Seq<SheetCellView>>, pos: int, n: nat, m: nat)
    requires
        n <= m,
        ints_upto(body, pos, n) is None,
    ensures
        ints_upto(body, pos, m) is None,
    decreases m - n,
{
    if n < m {
        lemma_no_integer(body, pos, n, (m - 1) as nat);
    }
}

/// Offers a column of `values` to the table, under the name `title`.
fn lay<T: Scalar>(
    frame: &mut DataFrame,
    values: Vec<T>,
    title: &str,
    Ghost(layout): Ghost<Layout>,
    Ghost(plain): Ghost<ColumnValues>,
) -> (r: Result<(), SheetError>)
    requires
        lays_out(old(frame)@, layout),
        T::tag().is_supported(),
        plain.len() == values@.len(),
        forall|s: SeriesView<T>|
            s.values == values@ ==> (#[trigger] T::embed(s) matches Some(col) && values_of(col)
                == plain),
    ensures
        match layout.taking(title@, plain) {
            Ok(after) => r is Ok && lays_out(final(frame)@, after),
            Err(e) => r matches Err(x) && x@ == e,
        },
{
    let mut series = Series::from_vec(values);
    series.set_name(title);
    let ghost view = series@;
    let ghost before = frame@;
    match frame.add_series(series, true) {
        Ok(()) => {
            proof {
                let name = before.admitted_name(view.name, view.values.len(), true)->Ok_0;
                let named = view.renamed(name);
                let col = T::embed(named)->0;
                T::lemma_stored(named, col);
                lemma_insert::<T>(before, view, true);
                let after = layout.taking(title@, plain)->Ok_0;
                if before.columns.len() == 0 {
                    assert(names_of(seq![col]) =~= seq![name]);
                    assert(before.names() =~= Seq::empty());
                    assert(frame@.names() =~= after.names);
                } else {
                    lemma_names_push(before.columns, col);
                }
                assert forall|k: int| 0 <= k < frame@.columns.len() implies values_of(
                    #[trigger] frame@.columns[k],
                ) == after.columns[k] && frame@.columns[k].index() == counted(after.len) by {
                    if k < before.columns.len() {
                        assert(frame@.columns[k] == before.columns[k]);
                    }
                }
            }
            Ok(())
        },
        Err(e) => Err(SheetError::Frame(e)),
    }
}

/// Reads a sheet into the table.
fn read_sheet(
    frame: &mut DataFrame,
    sheet: &Sheet,
    headers: bool,
    kinds: &Option<Vec<DataTypes>>,
    Ghost(layout): Ghost<Layout>,
) -> (r: Result<(), SheetError>)
    requires
        lays_out(old(frame)@, layout),
    ensures
        match sheet_laid(layout, sheet@.rows, headers, kinds_of(*kinds)) {
            Ok(after) => r is Ok && lays_out(final(frame)@, after),
            Err(e) => r matches Err(x) && x@ == e,
        },
{
    let ghost rows = sheet@.rows;
    if sheet.rows.len() == 0 {
        return Ok(());
    }
    let width = sheet.width();
    let titles = if headers {
        match sheet.titles() {
            Ok(t) => t,
            Err(e) => {
                return Err(e);
            },
        }
    } else {
        Vec::new()
    };
    let types = match kinds {
        Some(k) => k,
        None => {
            return Ok(());
        },
    };
    if types.len() != width {
        return Err(SheetError::Width(width, types.len()));
    }
    let at = sheet.body_rows(headers);
    let ghost body = body_of(rows, headers);
    let ghost mut now = layout;
    let mut pos: usize = 0;
    while pos < width
        invariant
            pos <= width,
            rows == sheet@.rows,
            rows.len() > 0,
            width == sheet_width(rows),
            width == types@.len(),
            kinds_of(*kinds) == Some(types@),
            headers ==> first_untitled(rows[0], width as nat) is None,
            headers ==> titles@.len() == width && forall|p: int|
                0 <= p < width ==> cell_at(rows[0], p) == SheetCellView::Text((#[trigger] titles@[p])@),
            forall|k: int| 0 <= k < at@.len() ==> #[trigger] at@[k] < sheet.rows@.len(),
            body == body_of(rows, headers),
            rows_at(rows, at@) == body,
            columns_laid(layout, rows, headers, types@, pos as nat) == Ok::<Layout, SheetErrorView>(
                now,
            ),
            lays_out(frame@, now),
        decreases width - pos,
    {
        let ghost title = title_at(rows, headers, pos as int);
        let ghost before = now;
        let step = match types[pos] {
            DataTypes::I64 | DataTypes::I32 => {
                match sheet.ints_at(&at, pos) {
                    Some(values) => {
                        let ghost plain = ColumnValues::I64(values@);
                        if headers {
                            lay(frame, values, titles[pos].as_str(), Ghost(now), Ghost(plain))
                        } else {
                            proof {
                                reveal_strlit("series");
                            }
                            lay(frame, values, "series", Ghost(now), Ghost(plain))
                        }
                    },
                    None => Err(SheetError::Integer(pos)),
                }
            },
            DataTypes::F64 | DataTypes::F32 => {
                let values = sheet.floats_at(&at, pos);
                if values.len() == 0 {
                    Ok(())
                } else {
                    let ghost plain = ColumnValues::F64(values@);
                    if headers {
                        lay(frame, values, titles[pos].as_str(), Ghost(now), Ghost(plain))
                    } else {
                        proof {
                            reveal_strlit("series");
                        }
                        lay(frame, values, "series", Ghost(now), Ghost(plain))
                    }
                }
            },
            DataTypes::STR | DataTypes::STRING => {
                let values = sheet.texts_at(&at, pos);
                if values.len() == 0 {
                    Ok(())
                } else {
                    let ghost plain = ColumnValues::Text(texts(values@));
                    if headers {
                        lay(frame, values, titles[pos].as_str(), Ghost(now), Ghost(plain))
                    } else {
                        proof {
                            reveal_strlit("series");
                        }
                        lay(frame, values, "series", Ghost(now), Ghost(plain))
                    }
                }
            },
            _ => Ok(()),
        };
        match step {
            Ok(()) => {
                proof {
                    now = column_laid(before, body, pos as int, types@[pos as int], title)->Ok_0;
                }
            },
            Err(e) => {
                proof {
                    lemma_columns_refused(layout, rows, headers, types@, (pos + 1) as nat, width as nat);
                }
                return Err(e);
            },
        }
        pos += 1;
    }
    Ok(())
}

/// Once a column was refused, the columns are not laid out.
proof fn lemma_columns_refused(
    layout: Layout,
    rows: Seq<Seq<SheetCellView>>,
    headers: bool,
    kinds: Seq<DataTypes>,
    n: nat,
    m: nat,
)
    requires
        n <= m,
        columns_laid(layout, rows, headers, kinds, n) is Err,
    ensures
        columns_laid(layout, rows, headers, kinds, m) == columns_laid(layout, rows, headers, kinds, n),
    decreases m - n,
{
    if n < m {
        lemma_columns_refused(layout, rows, headers, kinds, n, (m - 1) as nat);
    }
}

/// Once a sheet could not be read, the spreadsheet is not laid out.
proof fn lemma_book_refused(
    layout: Layout,
    sheets: Seq<SheetView>,
    wanted: Seq<Seq<char>>,
    headers: bool,
    kinds: Option<Seq<DataTypes>>,
    n: nat,
    m: nat,
)
    requires
        n <= m,
        book_laid(layout, sheets, wanted, headers, kinds, n) is Err,
    ensures
        book_laid(layout, sheets, wanted, headers, kinds, m) == book_laid(
            layout,
            sheets,
            wanted,
            headers,
            kinds,
            n,
        ),
    decreases m - n,
{
    if n < m {
        lemma_book_refused(layout, sheets, wanted, headers, kinds, n, (m - 1) as nat);
    }
}

/// Whether the sheet named `name` is among those that `sheet` asks for, a
/// list of names between commas.
pub fn is_wanted(name: &str, sheet: &str) -> (b: bool)
    ensures
        b == pieces_of(sheet@, ","@).contains(name@),
{
    let wanted = split(sheet, ",");
    position_of(&wanted, name).is_some()
}

/// The table of the sheets of a spreadsheet whose names stand in `sheet`, a
/// list of names between commas. With `headers` the first row of a sheet
/// names its columns; `dtypes` tell the kind of each column, and without
/// them no column is read. The rows of the table are labelled `0`, `1`, ...
///
/// See [`book_laid`] for the columns of the table and for what is refused.
pub fn read_excel(sheets: &Vec<Sheet>, sheet: &str, headers: bool, dtypes: Option<Vec<DataTypes>>) -> (r:
    Result<DataFrame, SheetError>)
    ensures
        match book_laid(
            Layout::empty(),
            sheet_views(sheets@),
            pieces_of(sheet@, ","@),
            headers,
            kinds_of(dtypes),
            sheets@.len(),
        ) {
            Ok(layout) => r matches Ok(df) && lays_out(df@, layout),
            Err(e) => r matches Err(x) && x@ == e,
        },
{
    let wanted = split(sheet, ",");
    let ghost names = pieces_of(sheet@, ","@);
    let ghost book = sheet_views(sheets@);
    let ghost kinds = kinds_of(dtypes);
    let mut frame = DataFrame::new();
    let ghost mut now = Layout::empty();
    assert(frame@.names() =~= now.names);
    let n = sheets.len();
    let mut i: usize = 0;
    while i < n
        invariant
            i <= n,
            n == sheets@.len(),
            book == sheet_views(sheets@),
            names == texts(wanted@),
            names == pieces_of(sheet@, ","@),
            kinds == kinds_of(dtypes),
            book_laid(Layout::empty(), book, names, headers, kinds, i as nat) == Ok::<
                Layout,
                SheetErrorView,
            >(now),
            lays_out(frame@, now),
        decreases n - i,
    {
        let current = &sheets[i];
        assert(book[i as int] == current@);
        if position_of(&wanted, current.name.as_str()).is_some() {
            let ghost before = now;
            match read_sheet(&mut frame, current, headers, &dtypes, Ghost(now)) {
                Ok(()) => {
                    proof {
                        now = sheet_laid(before, current@.rows, headers, kinds)->Ok_0;
                    }
                },
                Err(e) => {
                    proof {
                        lemma_book_refused(
                            Layout::empty(),
                            book,
                            names,
                            headers,
                            kinds,
                            (i + 1) as nat,
                            n as nat,
                        );
                    }
                    return Err(e);
                },
            }
        }
        i += 1;
    }
    Ok(frame)
}

} // verus!
