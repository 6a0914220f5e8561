//! From columns of raw text to a table: the type of each column is told
//! from a sample of its values.
use vstd::prelude::*;
use crate::engine::block_manager::{lemma_names_push, names_of, FrameView};
use crate::engine::dataframe::DataFrame;
use crate::engine::series::generic::copy_labels;
use crate::engine::series::{numbered_labels, ColumnView, Float64, Scalar, Series, SeriesView};
use crate::enums::DataTypes;
use crate::io::dtypes::{
    bool_or_false, int_or_zero, is_bool, is_float, is_float_text, is_int, parsed_bool, parsed_i32,
    str_to_bool, str_to_int,
};
use vstd::string::StringExecFns;
use crate::text::{decimal, texts};

verus! {

/// The number of values at the top of a column from which its type is told.
pub const SAMPLE: usize = 10;

/// The error of turning raw text into a table.
#[derive(Debug, Clone, Copy, PartialEq, Eq, Structural)]
pub enum CSVError {
    /// The text cannot be laid out as a table.
    ParseError,
}

impl CSVError {
    /// The sentence that describes the error.
    pub fn message(&self) -> (s: String)
        ensures
            s@ == "Could not parse csv"@,
    {
        String::from_str("Could not parse csv")
    }
}

/// The number of values that are looked at in each column of `data`.
pub open spec fn sample_size(data: Seq<Seq<Seq<char>>>) -> nat {
    if data.len() == 0 {
        0
    } else if data[0].len() < SAMPLE {
        data[0].len()
    } else {
        SAMPLE as nat
    }
}

/// The tag of the column that is made of the raw values `col`, told from
/// its first `size` values: the first of integer, floating point number,
/// truth value and string that all of them write.
pub open spec fn told_tag(col: Seq<Seq<char>>, size: nat) -> DataTypes {
    let sample = col.take(size as int);
    if forall|i: int| 0 <= i < sample.len() ==> parsed_i32(#[trigger] sample[i]) is Some {
        DataTypes::I32
    } else if forall|i: int| 0 <= i < sample.len() ==> is_float_text(#[trigger] sample[i]) {
        DataTypes::F64
    } else if forall|i: int| 0 <= i < sample.len() ==> parsed_bool(#[trigger] sample[i]) is Some {
        DataTypes::BOOL
    } else {
        DataTypes::STRING
    }
}

/// The names under which a table without columns takes in the first `n`
/// columns of one length that are offered under `headers`, one after the
/// other; or `None` where one of them is refused for its name.
pub open spec fn admitted_names(headers: Seq<Seq<char>>, n: nat) -> Option<Seq<Seq<char>>>
    decreases n,
{
    if n == 0 {
        Some(Seq::empty())
    } else {
        match admitted_names(headers, (n - 1) as nat) {
            None => None,
            Some(taken) => {
                let name = headers[n - 1];
                if taken.contains(name) {
                    let number = decimal(taken.len());
                    if taken.contains(number) {
                        None
                    } else {
                        Some(taken.push(number))
                    }
                } else {
                    Some(taken.push(name))
                }
            },
        }
    }
}

/// Whether the columns of raw text `data` with the names `headers` can be
/// laid out as a table: there is a column, every column has its header and
/// as many values as the first one, and no column is refused for its name.
pub open spec fn tabulable(data: Seq<Seq<Seq<char>>>, headers: Seq<Seq<char>>) -> bool {
    &&& data.len() > 0
    &&& headers.len() >= data.len()
    &&& forall|k: int| 0 <= k < data.len() ==> (#[trigger] data[k]).len() == data[0].len()
    &&& admitted_names(headers, data.len()) is Some
}

/// `value` is what `parse` returned for the text `text`.
pub open spec fn float_of<F: Fn(&str) -> Float64>(parse: F, text: Seq<char>, value: Float64) -> bool {
    exists|s: &str| s@ == text && #[trigger] call_ensures(parse, (s,), value)
}

/// `out` holds, for every one of the raw values `col`, what `parse` returned for it.
pub open spec fn floats_parsed<F: Fn(&str) -> Float64>(parse: F, col: Seq<Seq<char>>, out: Seq<Float64>) -> bool {
    &&& out.len() == col.len()
    &&& forall|i: int| 0 <= i < col.len() ==> float_of(parse, col[i], #[trigger] out[i])
}

/// `out` is the column that is made of the raw values `col`: of the tag
/// that [`told_tag`] tells, with every value turned into a value of that
/// type. A raw value that does not write an integer gives 0, one that does
/// not write a truth value gives `false`; floating point numbers are made
/// by `parse`.
pub open spec fn column_told<F: Fn(&str) -> Float64>(
    parse: F,
    col: Seq<Seq<char>>,
    size: nat,
    out: ColumnView,
) -> bool {
    match told_tag(col, size) {
        DataTypes::I32 => out matches ColumnView::I32(s) && s.values.len() == col.len() && forall|
            i: int,
        |
            0 <= i < col.len() ==> #[trigger] s.values[i] == int_or_zero(col[i]),
        DataTypes::F64 => out matches ColumnView::F64(s) && floats_parsed(parse, col, s.values),
        DataTypes::BOOL => out matches ColumnView::Bool(s) && s.values.len() == col.len() && forall|
            i: int,
        |
            0 <= i < col.len() ==> #[trigger] s.values[i] == bool_or_false(col[i]),
        _ => out matches ColumnView::Text(s) && texts(s.values) == col,
    }
}

/// `frame` is the table of the columns of raw text `data` under the names
/// `headers`: see [`column_told`] and [`admitted_names`]. Its rows are
/// labelled `0`, `1`, ...
pub open spec fn table_told<F: Fn(&str) -> Float64>(
    parse: F,
    data: Seq<Seq<Seq<char>>>,
    headers: Seq<Seq<char>>,
    frame: FrameView,
) -> bool {
    &&& frame.columns.len() == data.len()
    &&& Some(frame.names()) == admitted_names(headers, data.len())
    &&& frame.len == data[0].len()
    &&& frame.index == numbered_labels(data[0].len(), Seq::empty(), Seq::empty())
    &&& frame.valid()
    &&& forall|k: int|
        0 <= k < data.len() ==> column_told(
            parse,
            data[k],
            sample_size(data),
            #[trigger] frame.columns[k],
        ) && frame.columns[k].index() == frame.index
}

/// The views of the columns of raw text.
pub open spec fn raw_views(data: Seq<Vec<String>>) -> Seq<Seq<Seq<char>>> {
    data.map_values(|c: Vec<String>| texts(c@))
}

/// `parse` may be called on any text.
pub open spec fn parses_all<F: Fn(&str) -> Float64>(parse: F) -> bool {
    forall|s: &str| #[trigger] call_requires(parse, (s,))
}

/// The floating point number that `parse` makes of each of `col`.
pub fn str_to_float<F: Fn(&str) -> Float64>(col: &Vec<String>, parse: &F) -> (out: Vec<Float64>)
    requires
        parses_all(*parse),
    ensures
        floats_parsed(*parse, texts(col@), out@),
{
    let mut out: Vec<Float64> = Vec::new();
    let n = col.len();
    let mut i: usize = 0;
    while i < n
        invariant
            i <= n,
            n == col@.len(),
            parses_all(*parse),
            out@.len() == i,
            forall|k: int| 0 <= k < i ==> float_of(*parse, texts(col@)[k], #[trigger] out@[k]),
        decreases n - i,
    {
        let s = col[i].as_str();
        let v = parse(s);
        out.push(v);
        assert(s@ == texts(col@)[i as int] && call_ensures(*parse, (s,), out@[i as int]));
        assert(float_of(*parse, texts(col@)[i as int], out@[i as int]));
        i += 1;
    }
    out
}

/// The first `size` values of `col`.
fn sample_of(col: &Vec<String>, size: usize) -> (out: Vec<String>)
    requires
        size <= col@.len(),
    ensures
        texts(out@) == texts(col@).take(size as int),
{
    let mut out: Vec<String> = Vec::new();
    let mut i: usize = 0;
    while i < size
        invariant
            i <= size,
            size <= col@.len(),
            out@.len() == i,
            forall|k: int| 0 <= k < i ==> (#[trigger] out@[k])@ == col@[k]@,
        decreases size - i,
    {
        out.push(col[i].clone());
        i += 1;
    }
    assert(texts(out@) =~= texts(col@).take(size as int));
    out
}

/// The table of the columns of raw text `data` under the names `headers`.
/// The type of each column is told from its first values; floating point
/// numbers are made by `parse_float`.
pub fn tabulate<F: Fn(&str) -> Float64>(data: &Vec<Vec<String>>, headers: &Vec<String>, parse_float: F) -> (r:
    Result<DataFrame, CSVError>)
    requires
        parses_all(parse_float),
    ensures
        r is Ok <==> tabulable(raw_views(data@), texts(headers@)),
        r matches Ok(df) ==> table_told(parse_float, raw_views(data@), texts(headers@), df@),
{
    let ghost raw = raw_views(data@);
    let ghost names = texts(headers@);
    let count = data.len();
    if count == 0 || headers.len() < count {
        return Err(CSVError::ParseError);
    }
    let rows = data[0].len();
    assert(raw[0] == texts(data@[0]@));
    let size = if rows < SAMPLE {
        rows
    } else {
        SAMPLE
    };
    let mut df = DataFrame::new();
    let mut i: usize = 0;
    proof {
        assert(names_of(Seq::<ColumnView>::empty()) =~= Seq::empty());
    }
    while i < count
        invariant
            i <= count,
            count == data@.len(),
            count <= headers@.len(),
            raw == raw_views(data@),
            names == texts(headers@),
            rows == raw[0].len(),
            size == sample_size(raw),
            parses_all(parse_float),
            forall|k: int| 0 <= k < i ==> (#[trigger] raw[k]).len() == rows,
            df@.columns.len() == i,
            df@.valid(),
            Some(df@.names()) == admitted_names(names, i as nat),
            i > 0 ==> df@.len == rows && df@.index == numbered_labels(
                rows as nat,
                Seq::empty(),
                Seq::empty(),
            ),
            forall|k: int|
                0 <= k < i ==> column_told(parse_float, raw[k], size as nat, #[trigger] df@.columns[k])
                    && df@.columns[k].index() == numbered_labels(
                    rows as nat,
                    Seq::empty(),
                    Seq::empty(),
                ),
        decreases count - i,
    {
        let col = &data[i];
        assert(raw[i as int] == texts(col@));
        if col.len() != rows {
            return Err(CSVError::ParseError);
        }
        let sample = sample_of(col, size);
        let header = headers[i].as_str();
        let ghost before = df@;
        proof {
            let taken = raw[i as int].take(size as int);
            assert(texts(sample@) == taken);
            assert forall|k: int| 0 <= k < taken.len() implies #[trigger] taken[k] == sample@[k]@ by {
                assert(texts(sample@)[k] == sample@[k]@);
            }
            assert forall|k: int| 0 <= k < sample@.len() implies (#[trigger] sample@[k])@ == taken[k] by {
                assert(texts(sample@)[k] == sample@[k]@);
            }
            assert(sample@.len() == taken.len());
            assert(header@ == names[i as int]);
        }
        let added = if is_int(sample.as_slice()) {
            let mut series = Series::from_vec(str_to_int(col.as_slice()));
            series.set_name(header);
            let ghost view = series@;
            let r = df.add_series(series, true);
            proof {
                lemma_took_in::<i32>(before, view, df@, r is Ok);
                if r is Ok {
                    assert(column_told(parse_float, raw[i as int], size as nat, df@.columns.last()));
                }
            }
            r
        } else if is_float(sample.as_slice()) {
            let mut series = Series::from_vec(str_to_float(col, &parse_float));
            series.set_name(header);
            let ghost view = series@;
            let r = df.add_series(series, true);
            proof {
                lemma_took_in::<Float64>(before, view, df@, r is Ok);
                if r is Ok {
                    assert(column_told(parse_float, raw[i as int], size as nat, df@.columns.last()));
                }
            }
            r
        } else if is_bool(sample.as_slice()) {
            let mut series = Series::from_vec(str_to_bool(col.as_slice()));
            series.set_name(header);
            let ghost view = series@;
            let r = df.add_series(series, true);
            proof {
                lemma_took_in::<bool>(before, view, df@, r is Ok);
                if r is Ok {
                    assert(column_told(parse_float, raw[i as int], size as nat, df@.columns.last()));
                }
            }
            r
        } else {
            let mut series = Series::from_vec(copy_labels(col));
            series.set_name(header);
            let ghost view = series@;
            let r = df.add_series(series, true);
            proof {
                lemma_took_in::<String>(before, view, df@, r is Ok);
                if r is Ok {
                    assert(column_told(parse_float, raw[i as int], size as nat, df@.columns.last()));
                }
            }
            r
        };
        match added {
            Ok(()) => {},
            Err(_) => {
                proof {
                    lemma_names_refused(names, (i + 1) as nat, count as nat);
                }
                return Err(CSVError::ParseError);
            },
        }
        i += 1;
    }
    Ok(df)
}

/// Once a column was refused for its name, the names are not admitted.
pub proof fn lemma_names_refused(headers: Seq<Seq<char>>, n: nat, m: nat)
    requires
        n <= m,
        admitted_names(headers, n) is None,
    ensures
        admitted_names(headers, m) is None,
    decreases m - n,
{
    if n < m {
        lemma_names_refused(headers, n, (m - 1) as nat);
    }
}

/// `after` is `before` with the column `series` behind the others, under
/// whatever name.
pub open spec fn took_in<T: Scalar>(before: FrameView, series: SeriesView<T>, after: FrameView) -> bool {
    &&& after.columns.len() == before.columns.len() + 1
    &&& after.valid()
    &&& T::project(after.columns.last()) matches Some(s)
    &&& T::project(after.columns.last())->0.values == series.values
    &&& T::project(after.columns.last())->0.index == series.index
    &&& after.columns.last().index() == series.index
    &&& after.len == series.values.len()
    &&& before.columns.len() > 0 ==> after.index == before.index
    &&& before.columns.len() == 0 ==> after.index == series.index
    &&& forall|k: int|
        0 <= k < before.columns.len() ==> #[trigger] after.columns[k] == before.columns[k]
}

/// What a valid table that holds columns of the length of `series` makes
/// of the offer of `series`, a column that tables store: it takes the
/// column in behind the others, under the name that [`admitted_names`]
/// gives it, unless it refuses the column for its name.
pub proof fn lemma_took_in<T: Scalar>(before: FrameView, series: SeriesView<T>, after: FrameView, ok: bool)
    requires
        T::tag().is_supported(),
        before.valid(),
        series.aligned(),
        before.columns.len() > 0 ==> series.values.len() == before.len,
        match before.insert(series, true) {
            Ok(f) => ok && after == f,
            Err(_) => !ok,
        },
    ensures
        ok ==> took_in::<T>(before, series, after),
        forall|headers: Seq<Seq<char>>, n: nat|
            n > 0 && headers[n - 1] == series.name && #[trigger] admitted_names(
                headers,
                (n - 1) as nat,
            ) == Some(before.names()) ==> (ok ==> admitted_names(headers, n) == Some(
                after.names(),
            )) && (!ok ==> admitted_names(headers, n) is None),
{
    match before.admitted_name(series.name, series.values.len(), true) {
        Ok(name) => {
            let named = series.renamed(name);
            let col = T::embed(named)->0;
            T::lemma_stored(named, col);
            T::lemma_stored(named, T::embed(named)->0);
            if before.columns.len() == 0 {
                assert(names_of(seq![col]) =~= seq![name]);
                assert(before.names() =~= Seq::empty());
                assert(after.names() =~= before.names().push(name));
            } else {
                lemma_names_push(before.columns, col);
                assert(!before.names().contains(name));
            }
        },
        Err(_) => {},
    }
}

} // verus!
