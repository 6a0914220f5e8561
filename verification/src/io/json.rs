//! From columns of JSON values to a table.
use vstd::prelude::*;
use crate::engine::block_manager::{names_of, FrameView};
use crate::engine::dataframe::DataFrame;
use crate::engine::series::{numbered_labels, ColumnView, Float64, Series};
use crate::enums::DataTypes;
use crate::io::infer::{admitted_names, lemma_names_refused, lemma_took_in, CSVError, SAMPLE};
use crate::text::texts;

verus! {

/// A value of a JSON document, as far as tables are made of such values.
pub enum JsonValue {
    /// A truth value.
    Bool(bool),
    /// A number that is an integer within the range of `i64`.
    Int(i64),
    /// A number that is written as a floating point number.
    Float(Float64),
    /// A string.
    Text(String),
    /// Anything else: `null`, an array, an object, or an integer beyond `i64`.
    Other,
}

/// What a [`JsonValue`] stands for.
pub enum JsonView {
    /// See [`JsonValue::Bool`].
    Bool(bool),
    /// See [`JsonValue::Int`].
    Int(i64),
    /// See [`JsonValue::Float`].
    Float(Float64),
    /// See [`JsonValue::Text`].
    Text(Seq<char>),
    /// See [`JsonValue::Other`].
    Other,
}

impl View for JsonValue {
    type V = JsonView;

    open spec fn view(&self) -> JsonView {
        match self {
            JsonValue::Bool(b) => JsonView::Bool(*b),
            JsonValue::Int(i) => JsonView::Int(*i),
            JsonValue::Float(f) => JsonView::Float(*f),
            JsonValue::Text(t) => JsonView::Text(t@),
            JsonValue::Other => JsonView::Other,
        }
    }
}

/// The views of a column of JSON values.
pub open spec fn json_views(col: Seq<JsonValue>) -> Seq<JsonView> {
    col.map_values(|v: JsonValue| v@)
}

/// The views of columns of JSON values.
pub open spec fn json_columns(data: Seq<Vec<JsonValue>>) -> Seq<Seq<JsonView>> {
    data.map_values(|c: Vec<JsonValue>| json_views(c@))
}

/// The bit pattern of the floating point value that is not a number.
pub const NOT_A_NUMBER: u64 = 0x7ff8000000000000;

/// Whether every one of `val` is an integer.
pub open spec fn all_int(val: Seq<JsonView>) -> bool {
    forall|i: int| 0 <= i < val.len() ==> #[trigger] val[i] is Int
}

/// Whether every one of `val` is written as a floating point number.
pub open spec fn all_float(val: Seq<JsonView>) -> bool {
    forall|i: int| 0 <= i < val.len() ==> #[trigger] val[i] is Float
}

/// Whether every one of `val` is a truth value.
pub open spec fn all_bool(val: Seq<JsonView>) -> bool {
    forall|i: int| 0 <= i < val.len() ==> #[trigger] val[i] is Bool
}

/// Whether every one of `val` is a string.
pub open spec fn all_text(val: Seq<JsonView>) -> bool {
    forall|i: int| 0 <= i < val.len() ==> #[trigger] val[i] is Text
}

/// Whether every one of `val` is an integer.
pub fn json_is_int(val: &[JsonValue]) -> (b: bool)
    ensures
        b == all_int(json_views(val@)),
{
    let n = val.len();
    let mut i: usize = 0;
    while i < n
        invariant
            i <= n,
            n == val@.len(),
            forall|k: int| 0 <= k < i ==> #[trigger] json_views(val@)[k] is Int,
        decreases n - i,
    {
        match &val[i] {
            JsonValue::Int(_) => {},
            _ => {
                assert(!(json_views(val@)[i as int] is Int));
                return false;
            },
        }
        i += 1;
    }
    true
}

/// Whether every one of `val` is written as a floating point number.
pub fn json_is_float(val: &[JsonValue]) -> (b: bool)
    ensures
        b == all_float(json_views(val@)),
{
    let n = val.len();
    let mut i: usize = 0;
    while i < n
        invariant
            i <= n,
            n == val@.len(),
            forall|k: int| 0 <= k < i ==> #[trigger] json_views(val@)[k] is Float,
        decreases n - i,
    {
        match &val[i] {
            JsonValue::Float(_) => {},
            _ => {
                assert(!(json_views(val@)[i as int] is Float));
                return false;
            },
        }
        i += 1;
    }
    true
}

/// Whether every one of `val` is a truth value.
pub fn json_is_bool(val: &[JsonValue]) -> (b: bool)
    ensures
        b == all_bool(json_views(val@)),
{
    let n = val.len();
    let mut i: usize = 0;
    while i < n
        invariant
            i <= n,
            n == val@.len(),
            forall|k: int| 0 <= k < i ==> #[trigger] json_views(val@)[k] is Bool,
        decreases n - i,
    {
        match &val[i] {
            JsonValue::Bool(_) => {},
            _ => {
                assert(!(json_views(val@)[i as int] is Bool));
                return false;
            },
        }
        i += 1;
    }
    true
}

/// The integers that `val` hold, where all of them are integers.
pub fn json_value_to_int(val: &[JsonValue]) -> (r: Option<Vec<i64>>)
    ensures
        r is Some <==> all_int(json_views(val@)),
        r matches Some(out) ==> out@.len() == val@.len() && forall|i: int|
            0 <= i < val@.len() ==> json_views(val@)[i] == JsonView::Int(#[trigger] out@[i]),
{
    let mut out: Vec<i64> = Vec::new();
    let n = val.len();
    let mut i: usize = 0;
    while i < n
        invariant
            i <= n,
            n == val@.len(),
            out@.len() == i,
            forall|k: int| 0 <= k < i ==> #[trigger] json_views(val@)[k] is Int,
            forall|k: int| 0 <= k < i ==> json_views(val@)[k] == JsonView::Int(#[trigger] out@[k]),
        decreases n - i,
    {
        match &val[i] {
            JsonValue::Int(v) => out.push(*v),
            _ => {
                assert(!(json_views(val@)[i as int] is Int));
                return None;
            },
        }
        i += 1;
    }
    Some(out)
}

/// The truth values that `val` hold, where all of them are truth values.
pub fn json_value_to_bool(val: &[JsonValue]) -> (r: Option<Vec<bool>>)
    ensures
        r is Some <==> all_bool(json_views(val@)),
        r matches Some(out) ==> out@.len() == val@.len() && forall|i: int|
            0 <= i < val@.len() ==> json_views(val@)[i] == JsonView::Bool(#[trigger] out@[i]),
{
    let mut out: Vec<bool> = Vec::new();
    let n = val.len();
    let mut i: usize = 0;
    while i < n
        invariant
            i <= n,
            n == val@.len(),
            out@.len() == i,
            forall|k: int| 0 <= k < i ==> #[trigger] json_views(val@)[k] is Bool,
            forall|k: int| 0 <= k < i ==> json_views(val@)[k] == JsonView::Bool(#[trigger] out@[k]),
        decreases n - i,
    {
        match &val[i] {
            JsonValue::Bool(v) => out.push(*v),
            _ => {
                assert(!(json_views(val@)[i as int] is Bool));
                return None;
            },
        }
        i += 1;
    }
    Some(out)
}

/// The strings that `val` hold, where all of them are strings.
pub fn json_value_to_string(val: &[JsonValue]) -> (r: Option<Vec<String>>)
    ensures
        r is Some <==> all_text(json_views(val@)),
        r matches Some(out) ==> out@.len() == val@.len() && forall|i: int|
            0 <= i < val@.len() ==> json_views(val@)[i] == JsonView::Text((#[trigger] out@[i])@),
{
    let mut out: Vec<String> = Vec::new();
    let n = val.len();
    let mut i: usize = 0;
    while i < n
        invariant
            i <= n,
            n == val@.len(),
            out@.len() == i,
            forall|k: int| 0 <= k < i ==> #[trigger] json_views(val@)[k] is Text,
            forall|k: int|
                0 <= k < i ==> json_views(val@)[k] == JsonView::Text((#[trigger] out@[k])@),
        decreases n - i,
    {
        match &val[i] {
            JsonValue::Text(v) => out.push(v.clone()),
            _ => {
                assert(!(json_views(val@)[i as int] is Text));
                return None;
            },
        }
        i += 1;
    }
    Some(out)
}

/// `to` is the floating point value of `from`: the value itself where it
/// is written as one, what `widen` returned for an integer, and the value
/// that is not a number for anything else.
pub open spec fn as_float<F: Fn(i64) -> Float64>(widen: F, from: JsonView, to: Float64) -> bool {
    match from {
        JsonView::Float(v) => to == v,
        JsonView::Int(i) => call_ensures(widen, (i,), to),
        _ => to.bits == NOT_A_NUMBER,
    }
}

/// `widen` may be called on any integer.
pub open spec fn widens_all<F: Fn(i64) -> Float64>(widen: F) -> bool {
    forall|i: i64| #[trigger] call_requires(widen, (i,))
}

/// The floating point values of `val`; see [`as_float`].
pub fn json_value_to_float<F: Fn(i64) -> Float64>(val: &[JsonValue], widen: &F) -> (out: Vec<Float64>)
    requires
        widens_all(*widen),
    ensures
        out@.len() == val@.len(),
        forall|i: int| 0 <= i < val@.len() ==> as_float(*widen, json_views(val@)[i], #[trigger] out@[i]),
{
    let mut out: Vec<Float64> = Vec::new();
    let n = val.len();
    let mut i: usize = 0;
    while i < n
        invariant
            i <= n,
            n == val@.len(),
            widens_all(*widen),
            out@.len() == i,
            forall|k: int|
                0 <= k < i ==> as_float(*widen, json_views(val@)[k], #[trigger] out@[k]),
        decreases n - i,
    {
        let v = match &val[i] {
            JsonValue::Float(v) => *v,
            JsonValue::Int(k) => widen(*k),
            _ => Float64 { bits: NOT_A_NUMBER },
        };
        out.push(v);
        i += 1;
    }
    out
}

/// The tag of the column that is made of the JSON values `col`, told from
/// its first `size` values: the first of integer, floating point number and
/// truth value that all of them are, and string else.
pub open spec fn told_json_tag(col: Seq<JsonView>, size: nat) -> DataTypes {
    let sample = col.take(size as int);
    if all_int(sample) {
        DataTypes::I64
    } else if all_float(sample) {
        DataTypes::F64
    } else if all_bool(sample) {
        DataTypes::BOOL
    } else {
        DataTypes::STRING
    }
}

/// Whether all values of `col` can be turned into values of the tag that
/// its first `size` values tell: integers, truth values and strings must be
/// what the tag says; every value has a floating point value.
pub open spec fn json_fits(col: Seq<JsonView>, size: nat) -> bool {
    match told_json_tag(col, size) {
        DataTypes::I64 => all_int(col),
        DataTypes::F64 => true,
        DataTypes::BOOL => all_bool(col),
        _ => all_text(col),
    }
}

/// `out` is the column that is made of the JSON values `col`, of the tag
/// that [`told_json_tag`] tells.
pub open spec fn json_column_told<F: Fn(i64) -> Float64>(
    widen: F,
    col: Seq<JsonView>,
    size: nat,
    out: ColumnView,
) -> bool {
    match told_json_tag(col, size) {
        DataTypes::I64 => out matches ColumnView::I64(s) && s.values.len() == col.len() && forall|
            i: int,
        |
            0 <= i < col.len() ==> col[i] == JsonView::Int(#[trigger] s.values[i]),
        DataTypes::F64 => out matches ColumnView::F64(s) && s.values.len() == col.len() && forall|
            i: int,
        |
            0 <= i < col.len() ==> as_float(widen, col[i], #[trigger] s.values[i]),
        DataTypes::BOOL => out matches ColumnView::Bool(s) && s.values.len() == col.len() && forall|
            i: int,
        |
            0 <= i < col.len() ==> col[i] == JsonView::Bool(#[trigger] s.values[i]),
        _ => out matches ColumnView::Text(s) && s.values.len() == col.len() && forall|i: int|
            0 <= i < col.len() ==> col[i] == JsonView::Text((#[trigger] s.values[i])@),
    }
}

/// The number of values that are looked at in each column of `data`.
pub open spec fn json_sample_size(data: Seq<Seq<JsonView>>) -> nat {
    if data.len() == 0 {
        0
    } else if data[0].len() < SAMPLE {
        data[0].len()
    } else {
        SAMPLE as nat
    }
}

/// Whether the columns of JSON values `data` with the names `headers` can
/// be laid out as a table: there is a column, every column has its header,
/// as many values as the first one and values that fit its tag, and no
/// column is refused for its name.
pub open spec fn json_tabulable(data: Seq<Seq<JsonView>>, headers: Seq<Seq<char>>) -> bool {
    &&& data.len() > 0
    &&& headers.len() >= data.len()
    &&& forall|k: int| 0 <= k < data.len() ==> (#[trigger] data[k]).len() == data[0].len()
    &&& forall|k: int| 0 <= k < data.len() ==> json_fits(#[trigger] data[k], json_sample_size(data))
    &&& admitted_names(headers, data.len()) is Some
}

/// `frame` is the table of the columns of JSON values `data` under the
/// names `headers`. Its rows are labelled `0`, `1`, ...
pub open spec fn json_table_told<F: Fn(i64) -> Float64>(
    widen: F,
    data: Seq<Seq<JsonView>>,
    headers: Seq<Seq<char>>,
    frame: FrameView,
) -> bool {
    &&& frame.columns.len() == data.len()
    &&& Some(frame.names()) == admitted_names(headers, data.len())
    &&& frame.len == data[0].len()
    &&& frame.index == numbered_labels(data[0].len(), Seq::empty(), Seq::empty())
    &&& frame.valid()
    &&& forall|k: int|
        0 <= k < data.len() ==> json_column_told(
            widen,
            data[k],
            json_sample_size(data),
            #[trigger] frame.columns[k],
        ) && frame.columns[k].index() == frame.index
}

/// What a [`JsonReader`] stands for.
pub struct JsonReaderView {
    /// The columns that were read.
    pub data: Seq<Seq<JsonView>>,
    /// The names of the columns.
    pub headers: Seq<Seq<char>>,
}

/// A reader of JSON objects, each of which gives one value to every column.
pub struct JsonReader {
    pub(crate) data: Vec<Vec<JsonValue>>,
    pub(crate) headers: Vec<String>,
}

impl View for JsonReader {
    type V = JsonReaderView;

    open(crate) spec fn view(&self) -> JsonReaderView {
        JsonReaderView { data: json_columns(self.data@), headers: texts(self.headers@) }
    }
}

/// The columns `data` with the values of `record` put below them, value
/// `k` below column `k`; a value for which there is no column begins one.
pub open spec fn with_values(data: Seq<Seq<JsonView>>, record: Seq<JsonView>) -> Seq<Seq<JsonView>> {
    Seq::new(
        if data.len() >= record.len() {
            data.len()
        } else {
            record.len()
        },
        |k: int|
            (if k < data.len() {
                data[k]
            } else {
                Seq::empty()
            }) + (if k < record.len() {
                seq![record[k]]
            } else {
                Seq::empty()
            }),
    )
}

impl JsonReader {
    /// A reader that has read nothing yet.
    pub fn new() -> (r: Self)
        ensures
            r@ == JsonReaderView::fresh(),
    {
        let r = JsonReader { data: Vec::new(), headers: Vec::new() };
        proof {
            assert(r@.data =~= Seq::empty());
            assert(r@.headers =~= Seq::empty());
        }
        r
    }

    /// Whether the reader has no names of columns yet.
    pub fn needs_headers(&self) -> (b: bool)
        ensures
            b == (self@.headers.len() == 0),
    {
        self.headers.len() == 0
    }

    /// Takes the names of the columns, behind those that the reader has.
    pub fn push_headers(&mut self, names: Vec<String>)
        ensures
            final(self)@ == (JsonReaderView {
                headers: old(self)@.headers + texts(names@),
                ..old(self)@
            }),
    {
        let ghost before = texts(self.headers@);
        let mut given = names;
        self.headers.append(&mut given);
        proof {
            assert(texts(self.headers@) =~= before + texts(names@));
        }
    }

    /// Puts the values of one object below the columns.
    pub fn smart_push(&mut self, data: Vec<JsonValue>)
        ensures
            final(self)@ == (JsonReaderView {
                data: with_values(old(self)@.data, json_views(data@)),
                ..old(self)@
            }),
    {
        let ghost old_data = json_columns(self.data@);
        let ghost fields = json_views(data@);
        let mut taken: Vec<Vec<JsonValue>> = Vec::new();
        core::mem::swap(&mut self.data, &mut taken);
        let columns = taken.len();
        let cells = data.len();
        let total = if columns >= cells {
            columns
        } else {
            cells
        };
        let ghost all_columns = taken@;
        let ghost all_cells = data@;
        let mut rest = crate::engine::block_manager::bulk::reversed(taken);
        let mut values = crate::engine::block_manager::bulk::reversed(data);
        let mut out: Vec<Vec<JsonValue>> = Vec::new();
        let mut k: usize = 0;
        while k < total
            invariant
                k <= total,
                total == (if columns >= cells {
                    columns
                } else {
                    cells
                }),
                columns == all_columns.len(),
                cells == all_cells.len(),
                old_data == json_columns(all_columns),
                fields == json_views(all_cells),
                rest@.len() == (if k < columns {
                    columns - k
                } else {
                    0
                }),
                values@.len() == (if k < cells {
                    cells - k
                } else {
                    0
                }),
                forall|j: int| 0 <= j < rest@.len() ==> #[trigger] rest@[j] == all_columns[columns - 1 - j],
                forall|j: int| 0 <= j < values@.len() ==> #[trigger] values@[j] == all_cells[cells - 1 - j],
                out@.len() == k,
                forall|j: int|
                    0 <= j < k ==> json_views((#[trigger] out@[j])@) == with_values(old_data, fields)[j],
            decreases total - k,
        {
            let mut column: Vec<JsonValue> = if k < columns {
                rest.pop().unwrap()
            } else {
                Vec::new()
            };
            proof {
                if k < columns {
                    assert(column == all_columns[k as int]);
                    assert(json_views(column@) == old_data[k as int]);
                } else {
                    assert(json_views(column@) =~= Seq::empty());
                }
            }
            if k < cells {
                let ghost before = json_views(column@);
                let value = values.pop().unwrap();
                column.push(value);
                proof {
                    assert(json_views(column@) =~= before + seq![fields[k as int]]);
                }
            } else {
                proof {
                    assert(json_views(column@) =~= json_views(column@) + Seq::empty());
                }
            }
            out.push(column);
            k += 1;
        }
        proof {
            assert(json_columns(out@) =~= with_values(old_data, fields));
        }
        self.data = out;
    }

    /// The table of what the reader has read. The tag of each column is told
    /// from its first values; integers in a column of floating point numbers
    /// are turned into such by `widen`.
    pub fn to_dataframe<F: Fn(i64) -> Float64>(&self, widen: F) -> (r: Result<DataFrame, CSVError>)
        requires
            widens_all(widen),
        ensures
            r is Ok <==> json_tabulable(self@.data, self@.headers),
            r matches Ok(df) ==> json_table_told(widen, self@.data, self@.headers, df@),
    {
        let ghost raw = self@.data;
        let ghost names = self@.headers;
        let count = self.data.len();
        if count == 0 || self.headers.len() < count {
            return Err(CSVError::ParseError);
        }
        let rows = self.data[0].len();
        assert(raw[0] == json_views(self.data@[0]@));
        let size = if rows < SAMPLE {
            rows
        } else {
            SAMPLE
        };
        let mut df = DataFrame::new();
        let mut i: usize = 0;
        proof {
            assert(names_of(Seq::<ColumnView>::empty()) =~= Seq::empty());
        }
        while i < count
            invariant
                i <= count,
                count == self.data@.len(),
                count <= self.headers@.len(),
                raw == self@.data,
                names == self@.headers,
                rows == raw[0].len(),
                size == json_sample_size(raw),
                widens_all(widen),
                forall|k: int| 0 <= k < i ==> (#[trigger] raw[k]).len() == rows,
                forall|k: int| 0 <= k < i ==> json_fits(#[trigger] raw[k], size as nat),
                df@.columns.len() == i,
                df@.valid(),
                Some(df@.names()) == admitted_names(names, i as nat),
                i > 0 ==> df@.len == rows && df@.index == numbered_labels(
                    rows as nat,
                    Seq::empty(),
                    Seq::empty(),
                ),
                forall|k: int|
                    0 <= k < i ==> json_column_told(
                        widen,
                        raw[k],
                        size as nat,
                        #[trigger] df@.columns[k],
                    ) && df@.columns[k].index() == numbered_labels(
                        rows as nat,
                        Seq::empty(),
                        Seq::empty(),
                    ),
            decreases count - i,
        {
            let col = &self.data[i];
            assert(raw[i as int] == json_views(col@));
            if col.len() != rows {
                return Err(CSVError::ParseError);
            }
            let sample = vstd::slice::slice_subrange(col.as_slice(), 0, size);
            let header = self.headers[i].as_str();
            proof {
                assert(header@ == names[i as int]);
                let taken = raw[i as int].take(size as int);
                assert(json_views(sample@) =~= taken);
            }
            let ghost before = df@;
            let added = if json_is_int(sample) {
                match json_value_to_int(col.as_slice()) {
                    None => {
                        assert(!json_fits(raw[i as int], size as nat));
                        return Err(CSVError::ParseError);
                    },
                    Some(values) => {
                        let mut series = Series::from_vec(values);
                        series.set_name(header);
                        let ghost view = series@;
                        let r = df.add_series(series, true);
                        proof {
                            lemma_took_in::<i64>(before, view, df@, r is Ok);
                            if r is Ok {
                                assert(json_column_told(
                                    widen,
                                    raw[i as int],
                                    size as nat,
                                    df@.columns.last(),
                                ));
                            }
                        }
                        r
                    },
                }
            } else if json_is_float(sample) {
                let mut series = Series::from_vec(json_value_to_float(col.as_slice(), &widen));
                series.set_name(header);
                let ghost view = series@;
                let r = df.add_series(series, true);
                proof {
                    lemma_took_in::<Float64>(before, view, df@, r is Ok);
                    if r is Ok {
                        assert(json_column_told(widen, raw[i as int], size as nat, df@.columns.last()));
                    }
                }
                r
            } else if json_is_bool(sample) {
                match json_value_to_bool(col.as_slice()) {
                    None => {
                        assert(!json_fits(raw[i as int], size as nat));
                        return Err(CSVError::ParseError);
                    },
                    Some(values) => {
                        let mut series = Series::from_vec(values);
                        series.set_name(header);
                        let ghost view = series@;
                        let r = df.add_series(series, true);
                        proof {
                            lemma_took_in::<bool>(before, view, df@, r is Ok);
                            if r is Ok {
                                assert(json_column_told(
                                    widen,
                                    raw[i as int],
                                    size as nat,
                                    df@.columns.last(),
                                ));
                            }
                        }
                        r
                    },
                }
            } else {
                match json_value_to_string(col.as_slice()) {
                    None => {
                        assert(!json_fits(raw[i as int], size as nat));
                        return Err(CSVError::ParseError);
                    },
                    Some(values) => {
                        let mut series = Series::from_vec(values);
                        series.set_name(header);
                        let ghost view = series@;
                        let r = df.add_series(series, true);
                        proof {
                            lemma_took_in::<String>(before, view, df@, r is Ok);
                            if r is Ok {
                                assert(json_column_told(
                                    widen,
                                    raw[i as int],
                                    size as nat,
                                    df@.columns.last(),
                                ));
                            }
                        }
                        r
                    },
                }
            };
            match added {
                Ok(()) => {},
                Err(_) => {
                    proof {
                        lemma_names_refused(names, (i + 1) as nat, count as nat);
                    }
                    return Err(CSVError::ParseError);
                },
            }
            i += 1;
        }
        Ok(df)
    }
}

/// The views of the fields of a JSON object.
pub open spec fn fields_view(fields: Seq<(String, JsonValue)>) -> Seq<(Seq<char>, JsonView)> {
    fields.map_values(|f: (String, JsonValue)| (f.0@, f.1@))
}

/// The fields of the JSON object that `text` writes, each a name and a
/// value, in the order in which `serde_json` holds them; `None` where
/// `text` does not write a JSON object.
pub uninterp spec fn json_object(text: Seq<char>) -> Option<Seq<(Seq<char>, JsonView)>>;

/// `serde_json::from_str` on `text` and, where that gives an object, its
/// fields in the order of the object's map, each value turned into a
/// [`JsonValue`] by its kind. The outcome depends on `text` alone.
#[verifier::external_body]
pub(crate) fn parse_object(text: &str) -> (r: Option<Vec<(String, JsonValue)>>)
    ensures
        match json_object(text@) {
            Some(fields) => r matches Some(v) && fields_view(v@) == fields,
            None => r is None,
        },
{
    let value: serde_json::Value = serde_json::from_str(text).ok()?;
    let fields = value.as_object()?.iter().map(|(k, v)| (k.clone(), match v {
        serde_json::Value::Bool(b) => JsonValue::Bool(*b),
        serde_json::Value::String(s) => JsonValue::Text(s.clone()),
        serde_json::Value::Number(n) if n.is_i64() => JsonValue::Int(n.as_i64().unwrap()),
        serde_json::Value::Number(n) if n.is_f64() => JsonValue::Float(
            Float64 { bits: n.as_f64().unwrap().to_bits() }),
        _ => JsonValue::Other,
    }));
    Some(fields.collect())
}

/// The names of the fields of an object.
pub open spec fn field_names(fields: Seq<(Seq<char>, JsonView)>) -> Seq<Seq<char>> {
    fields.map_values(|f: (Seq<char>, JsonView)| f.0)
}

/// The values of the fields of an object.
pub open spec fn field_values(fields: Seq<(Seq<char>, JsonView)>) -> Seq<JsonView> {
    fields.map_values(|f: (Seq<char>, JsonView)| f.1)
}

impl JsonReaderView {
    /// The reader that has read nothing yet.
    pub open spec fn fresh() -> Self {
        JsonReaderView { data: Seq::empty(), headers: Seq::empty() }
    }

    /// The reader after it has taken in an object as one row: the names of
    /// its fields name the columns where the reader has no names yet, and
    /// its values are put below the columns.
    pub open spec fn with_object(self, fields: Seq<(Seq<char>, JsonView)>) -> Self {
        JsonReaderView {
            headers: if self.headers.len() == 0 {
                field_names(fields)
            } else {
                self.headers
            },
            data: with_values(self.data, field_values(fields)),
        }
    }

    /// The reader after the first `n` of `lines`, each of which is taken in
    /// as one row where it writes an object, and skipped where it does not.
    pub open spec fn with_rows(self, lines: Seq<Seq<char>>, n: nat) -> Self
        decreases n,
    {
        if n == 0 {
            self
        } else {
            let before = self.with_rows(lines, (n - 1) as nat);
            match json_object(lines[n - 1]) {
                Some(fields) => before.with_object(fields),
                None => before,
            }
        }
    }

    /// The columns after the first `n` of `values` have been put below the
    /// first column, one after the other.
    pub open spec fn stacked(data: Seq<Seq<JsonView>>, values: Seq<JsonView>, n: nat) -> Seq<Seq<JsonView>>
        decreases n,
    {
        if n == 0 {
            data
        } else {
            with_values(Self::stacked(data, values, (n - 1) as nat), seq![values[n - 1]])
        }
    }

    /// The reader after it has taken in an object as a whole table: the
    /// names of its fields name the columns where the reader holds no
    /// values yet, and its values are put below the first column.
    pub open spec fn with_whole(self, fields: Seq<(Seq<char>, JsonView)>) -> Self {
        JsonReaderView {
            headers: if self.data.len() == 0 {
                self.headers + field_names(fields)
            } else {
                self.headers
            },
            data: Self::stacked(self.data, field_values(fields), fields.len()),
        }
    }

    /// The reader after it has read `text`: with `lines`, every line that
    /// writes an object is a row; without, the text is one object that is
    /// taken in as a whole, or nothing where it writes none.
    pub open spec fn after_text(self, text: Seq<char>, lines: bool) -> Self {
        if lines {
            self.with_rows(crate::text::scan::lines_of(text), crate::text::scan::lines_of(text).len())
        } else {
            match json_object(text) {
                Some(fields) => self.with_whole(fields),
                None => self,
            }
        }
    }
}

/// The names and the values of the fields of an object.
fn split_fields(fields: Vec<(String, JsonValue)>) -> (r: (Vec<String>, Vec<JsonValue>))
    ensures
        texts(r.0@) == field_names(fields_view(fields@)),
        json_views(r.1@) == field_values(fields_view(fields@)),
{
    let ghost all = fields_view(fields@);
    let total = fields.len();
    let mut rest = crate::engine::block_manager::bulk::reversed(fields);
    let mut names: Vec<String> = Vec::new();
    let mut values: Vec<JsonValue> = Vec::new();
    let mut k: usize = 0;
    while k < total
        invariant
            k <= total,
            total == all.len(),
            all == fields_view(fields@),
            rest@.len() == total - k,
            forall|j: int| 0 <= j < rest@.len() ==> #[trigger] rest@[j] == fields@[total - 1 - j],
            names@.len() == k,
            values@.len() == k,
            forall|j: int| 0 <= j < k ==> (#[trigger] names@[j])@ == all[j].0,
            forall|j: int| 0 <= j < k ==> (#[trigger] values@[j])@ == all[j].1,
        decreases total - k,
    {
        let (name, value) = rest.pop().unwrap();
        proof {
            assert(all[k as int] == (name@, value@));
        }
        names.push(name);
        values.push(value);
        k += 1;
    }
    proof {
        assert(texts(names@) =~= field_names(all));
        assert(json_views(values@) =~= field_values(all));
    }
    (names, values)
}

impl JsonReader {
    /// Reads JSON text: with `lines`, every line that writes an object is
    /// taken in as a row; without, the text is one object whose values are
    /// put below the first column.
    pub fn parse_string_json(&mut self, data: &str, lines: bool)
        ensures
            final(self)@ == old(self)@.after_text(data@, lines),
    {
        let ghost start = self@;
        if lines {
            let all = crate::text::scan::lines(data);
            let n = all.len();
            let mut i: usize = 0;
            while i < n
                invariant
                    i <= n,
                    n == all@.len(),
                    texts(all@) == crate::text::scan::lines_of(data@),
                    self@ == start.with_rows(texts(all@), i as nat),
                decreases n - i,
            {
                assert(texts(all@)[i as int] == all@[i as int]@);
                match parse_object(all[i].as_str()) {
                    Some(fields) => {
                        let (names, values) = split_fields(fields);
                        if self.needs_headers() {
                            proof {
                                assert(self@.headers + texts(names@) =~= texts(names@));
                            }
                            self.push_headers(names);
                        }
                        self.smart_push(values);
                    },
                    None => {},
                }
                i += 1;
            }
        } else {
            match parse_object(data) {
                Some(fields) => {
                    let ghost all = fields_view(fields@);
                    let (names, values) = split_fields(fields);
                    if self.data.len() == 0 {
                        self.push_headers(names);
                    }
                    let ghost headers = self@.headers;
                    let ghost shown = json_views(values@);
                    let total = values.len();
                    let mut rest = crate::engine::block_manager::bulk::reversed(values);
                    let mut k: usize = 0;
                    while k < total
                        invariant
                            k <= total,
                            total == shown.len(),
                            rest@.len() == total - k,
                            forall|j: int|
                                0 <= j < rest@.len() ==> (#[trigger] rest@[j])@ == shown[total - 1 - j],
                            self@ == (JsonReaderView {
                                headers,
                                data: JsonReaderView::stacked(start.data, shown, k as nat),
                            }),
                        decreases total - k,
                    {
                        let value = rest.pop().unwrap();
                        let mut one: Vec<JsonValue> = Vec::new();
                        one.push(value);
                        proof {
                            assert(json_views(one@) =~= seq![shown[k as int]]);
                        }
                        self.smart_push(one);
                        k += 1;
                    }
                },
                None => {},
            }
        }
    }
}

impl Default for JsonReader {
    fn default() -> (r: Self)
        ensures
            r@ == JsonReaderView::fresh(),
    {
        JsonReader::new()
    }
}

} // verus!
