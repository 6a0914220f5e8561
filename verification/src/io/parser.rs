//! The settings that readers take, by name.
use vstd::prelude::*;
use crate::engine::dataframe::DataFrame;
use crate::engine::series::Float64;
use crate::io::csv::{Reader, ReaderView};
use crate::io::fwf::{FWFReader, FWFReaderView};
use crate::io::infer::{parses_all, table_told, tabulable, CSVError};
use crate::io::json::{json_table_told, json_tabulable, widens_all, JsonReader, JsonReaderView};
use crate::text::scan::{pieces_of, split};
use vstd::string::StringExecFns;
use crate::text::{same_text, texts};

verus! {

/// The views of a list of settings, each a name and a value.
pub open spec fn settings_view(v: Seq<(&str, &str)>) -> Seq<(Seq<char>, Seq<char>)> {
    v.map_values(|p: (&str, &str)| (p.0@, p.1@))
}

/// The value that `settings` gives to `key`: that of the last entry of that name.
pub open spec fn setting(settings: Seq<(Seq<char>, Seq<char>)>, key: Seq<char>) -> Option<Seq<char>>
    decreases settings.len(),
{
    if settings.len() == 0 {
        None
    } else if settings.last().0 == key {
        Some(settings.last().1)
    } else {
        setting(settings.drop_last(), key)
    }
}

/// The value that `settings` gives to `key`, and `fallback` where it gives none.
pub open spec fn setting_or(
    settings: Seq<(Seq<char>, Seq<char>)>,
    key: Seq<char>,
    fallback: Seq<char>,
) -> Seq<char> {
    match setting(settings, key) {
        Some(v) => v,
        None => fallback,
    }
}

/// The settings without the entries named `key`.
pub open spec fn without_setting(settings: Seq<(Seq<char>, Seq<char>)>, key: Seq<char>) -> Seq<
    (Seq<char>, Seq<char>),
> {
    settings.filter(|p: (Seq<char>, Seq<char>)| p.0 != key)
}

/// The value that `settings` gives to `key`.
pub fn lookup<'a>(settings: &Vec<(&'a str, &'a str)>, key: &str) -> (r: Option<&'a str>)
    ensures
        match setting(settings_view(settings@), key@) {
            Some(v) => r matches Some(found) && found@ == v,
            None => r is None,
        },
{
    let mut i: usize = settings.len();
    proof {
        assert(settings_view(settings@).take(i as int) =~= settings_view(settings@));
    }
    while i > 0
        invariant
            i <= settings@.len(),
            setting(settings_view(settings@), key@) == setting(
                settings_view(settings@).take(i as int),
                key@,
            ),
        decreases i,
    {
        let entry = settings[i - 1];
        proof {
            let shown = settings_view(settings@).take(i as int);
            assert(shown.last() == (entry.0@, entry.1@));
            assert(shown.drop_last() =~= settings_view(settings@).take(i - 1));
        }
        if same_text(entry.0, key) {
            return Some(entry.1);
        }
        i -= 1;
    }
    None
}

/// The settings without the entries named `key`.
pub fn remove_setting<'a>(settings: &Vec<(&'a str, &'a str)>, key: &str) -> (out: Vec<(&'a str, &'a str)>)
    ensures
        settings_view(out@) == without_setting(settings_view(settings@), key@),
{
    let mut out: Vec<(&'a str, &'a str)> = Vec::new();
    let n = settings.len();
    let mut i: usize = 0;
    let ghost keep = |p: (Seq<char>, Seq<char>)| p.0 != key@;
    proof {
        assert(settings_view(settings@).take(0) =~= Seq::empty());
        assert(settings_view(out@) =~= Seq::empty());
    }
    while i < n
        invariant
            i <= n,
            n == settings@.len(),
            keep == |p: (Seq<char>, Seq<char>)| p.0 != key@,
            settings_view(out@) == settings_view(settings@).take(i as int).filter(keep),
        decreases n - i,
    {
        let entry = settings[i];
        let ghost before = settings_view(out@);
        proof {
            let done = settings_view(settings@).take(i as int);
            assert(settings_view(settings@).take(i + 1) =~= done.push((entry.0@, entry.1@)));
            done.lemma_filter_push((entry.0@, entry.1@), keep);
        }
        if !same_text(entry.0, key) {
            out.push(entry);
            proof {
                assert(settings_view(out@) =~= before.push((entry.0@, entry.1@)));
            }
        }
        i += 1;
    }
    proof {
        assert(settings_view(settings@).take(n as int) =~= settings_view(settings@));
    }
    out
}

/// The settings that a reader of delimited text starts from.
pub open spec fn default_settings() -> Seq<(Seq<char>, Seq<char>)> {
    seq![
        ("escape_char"@, ""@),
        ("quoting"@, "\""@),
        ("doublequote"@, "true"@),
        ("header"@, "infer"@),
        ("prefix"@, ""@),
        ("skiprows"@, ""@),
        ("skipfooter"@, "0"@),
        ("nrows"@, ""@),
        ("na_values"@, ""@),
        ("true_values"@, ""@),
        ("false_values"@, ""@),
        ("thousands"@, ""@),
        ("comment"@, ""@),
        ("decimal"@, "."@),
        ("skip_blank_lines"@, "true"@),
        ("delimiter"@, ","@),
        ("line_terminator"@, "\n"@),
        ("names"@, ""@),
    ]
}

/// The settings that a reader of delimited text starts from.
pub fn defaults() -> (out: Vec<(&'static str, &'static str)>)
    ensures
        settings_view(out@) == default_settings(),
{
    let mut out: Vec<(&'static str, &'static str)> = Vec::new();
    out.push(("escape_char", ""));
    out.push(("quoting", "\""));
    out.push(("doublequote", "true"));
    out.push(("header", "infer"));
    out.push(("prefix", ""));
    out.push(("skiprows", ""));
    out.push(("skipfooter", "0"));
    out.push(("nrows", ""));
    out.push(("na_values", ""));
    out.push(("true_values", ""));
    out.push(("false_values", ""));
    out.push(("thousands", ""));
    out.push(("comment", ""));
    out.push(("decimal", "."));
    out.push(("skip_blank_lines", "true"));
    out.push(("delimiter", ","));
    out.push(("line_terminator", "\n"));
    out.push(("names", ""));
    assert(settings_view(out@) =~= default_settings());
    out
}

/// The settings `base`, each with the value that `kwargs` gives to its
/// name where it gives one. Names that `base` does not know are left out.
pub fn update_kwargs<'a>(base: &Vec<(&'a str, &'a str)>, kwargs: &Vec<(&'a str, &'a str)>) -> (out: Vec<
    (&'a str, &'a str),
>)
    ensures
        out@.len() == base@.len(),
        forall|i: int|
            0 <= i < base@.len() ==> (#[trigger] out@[i]).0@ == base@[i].0@ && out@[i].1@
                == setting_or(settings_view(kwargs@), base@[i].0@, base@[i].1@),
{
    let mut out: Vec<(&'a str, &'a str)> = Vec::new();
    let n = base.len();
    let mut i: usize = 0;
    while i < n
        invariant
            i <= n,
            n == base@.len(),
            out@.len() == i,
            forall|k: int|
                0 <= k < i ==> (#[trigger] out@[k]).0@ == base@[k].0@ && out@[k].1@ == setting_or(
                    settings_view(kwargs@),
                    base@[k].0@,
                    base@[k].1@,
                ),
        decreases n - i,
    {
        let entry = base[i];
        let value = match lookup(kwargs, entry.0) {
            Some(v) => v,
            None => entry.1,
        };
        out.push((entry.0, value));
        i += 1;
    }
    out
}

/// The error of a list of column names.
#[derive(Debug, Clone, Copy, PartialEq, Eq, Structural)]
pub enum Errors {
    /// A name stands in the list twice.
    NameError,
}

impl Errors {
    /// The sentence that describes the error.
    pub fn message(&self) -> (s: String)
        ensures
            s@ == "Duplicate names are not allowed."@,
    {
        String::from_str("Duplicate names are not allowed.")
    }
}

/// Checks that no name stands twice in `names`, a list of names between commas.
pub fn validate_names(names: &str) -> (r: Result<(), Errors>)
    ensures
        r is Ok <==> pieces_of(names@, ","@).no_duplicates(),
{
    let broken = split(names, ",");
    let n = broken.len();
    let mut i: usize = 0;
    while i < n
        invariant
            i <= n,
            n == broken@.len(),
            texts(broken@) == pieces_of(names@, ","@),
            forall|a: int, b: int|
                0 <= a < i && 0 <= b < n && a != b ==> texts(broken@)[a] != texts(broken@)[b],
        decreases n - i,
    {
        let mut j: usize = 0;
        while j < n
            invariant
                j <= n,
                i < n,
                n == broken@.len(),
                texts(broken@) == pieces_of(names@, ","@),
                forall|b: int| 0 <= b < j && b != i ==> texts(broken@)[i as int] != texts(broken@)[b],
            decreases n - j,
        {
            if j != i && broken[i] == broken[j] {
                proof {
                    assert(texts(broken@)[i as int] == texts(broken@)[j as int]);
                }
                return Err(Errors::NameError);
            }
            j += 1;
        }
        i += 1;
    }
    Ok(())
}

/// The settings that a reader starts from, each with the value that
/// `options` give to its name where they give one.
pub open spec fn merged_settings(options: Seq<(Seq<char>, Seq<char>)>) -> Seq<(Seq<char>, Seq<char>)> {
    Seq::new(
        default_settings().len(),
        |i: int| (default_settings()[i].0, setting_or(options, default_settings()[i].0, default_settings()[i].1)),
    )
}

/// The settings that a reader starts from, each with the value that
/// `options` give to its name where they give one.
pub fn merge_settings<'a>(options: Option<Vec<(&'a str, &'a str)>>) -> (out: Vec<(&'a str, &'a str)>)
    ensures
        settings_view(out@) == merged_settings(
            match options {
                Some(o) => settings_view(o@),
                None => Seq::empty(),
            },
        ),
{
    let given: Vec<(&'a str, &'a str)> = match options {
        Some(o) => o,
        None => Vec::new(),
    };
    proof {
        assert(settings_view(Seq::<(&str, &str)>::empty()) =~= Seq::empty());
    }
    let base = defaults();
    let mut copy: Vec<(&'a str, &'a str)> = Vec::new();
    let n = base.len();
    let mut i: usize = 0;
    while i < n
        invariant
            i <= n,
            n == base@.len(),
            copy@.len() == i,
            forall|k: int| 0 <= k < i ==> (#[trigger] copy@[k]).0@ == base@[k].0@ && copy@[k].1@ == base@[k].1@,
        decreases n - i,
    {
        let entry: (&'a str, &'a str) = (base[i].0, base[i].1);
        copy.push(entry);
        i += 1;
    }
    let out = update_kwargs(&copy, &given);
    proof {
        let shown = settings_view(out@);
        let want = merged_settings(settings_view(given@));
        assert(shown.len() == want.len());
        assert forall|k: int| 0 <= k < want.len() implies shown[k] == want[k] by {
            assert(settings_view(base@)[k] == (base@[k].0@, base@[k].1@));
            assert(shown[k] == (out@[k].0@, out@[k].1@));
        }
        assert(shown =~= want);
    }
    out
}

/// The settings `options`, where there are any.
pub open spec fn given(options: Option<Vec<(&str, &str)>>) -> Seq<(Seq<char>, Seq<char>)> {
    match options {
        Some(o) => settings_view(o@),
        None => Seq::empty(),
    }
}

/// `r` is the table of what a reader of delimited text holds in the end,
/// or an error where it holds nothing that can be laid out as a table.
pub open spec fn csv_outcome<F: Fn(&str) -> Float64>(
    parse_float: F,
    read: Option<ReaderView>,
    r: Result<DataFrame, CSVError>,
) -> bool {
    match read {
        None => r is Err,
        Some(after) => (r is Ok <==> tabulable(after.data, after.headers)) && (r matches Ok(df)
            ==> table_told(parse_float, after.data, after.headers, df@)),
    }
}

/// The names that the settings a reader starts from give to the columns,
/// with `options` on top of them: a list of names between commas.
pub open spec fn names_given(options: Seq<(Seq<char>, Seq<char>)>) -> Seq<char> {
    setting_or(merged_settings(options), "names"@, Seq::empty())
}

/// Whether no name stands twice among the names that `options` give to
/// the columns.
pub open spec fn names_allowed(options: Seq<(Seq<char>, Seq<char>)>) -> bool {
    pieces_of(names_given(options), ","@).no_duplicates()
}

/// A copy of a list of settings.
fn copy_settings<'a>(settings: &Vec<(&'a str, &'a str)>) -> (out: Vec<(&'a str, &'a str)>)
    ensures
        settings_view(out@) == settings_view(settings@),
{
    let mut out: Vec<(&'a str, &'a str)> = Vec::new();
    let n = settings.len();
    let mut i: usize = 0;
    while i < n
        invariant
            i <= n,
            n == settings@.len(),
            out@.len() == i,
            forall|k: int|
                0 <= k < i ==> (#[trigger] out@[k]).0@ == settings@[k].0@ && out@[k].1@
                    == settings@[k].1@,
        decreases n - i,
    {
        let entry: (&'a str, &'a str) = (settings[i].0, settings[i].1);
        out.push(entry);
        i += 1;
    }
    assert(settings_view(out@) =~= settings_view(settings@));
    out
}

/// Checks that no name stands twice among the names that `options` give
/// to the columns.
pub fn check_names<'a>(options: &Option<Vec<(&'a str, &'a str)>>) -> (r: Result<(), Errors>)
    ensures
        r is Ok <==> names_allowed(given(*options)),
{
    let copy = match options {
        Some(o) => Some(copy_settings(o)),
        None => None,
    };
    let settings = merge_settings(copy);
    let names: &str = match lookup(&settings, "names") {
        Some(v) => v,
        None => "",
    };
    proof {
        reveal_strlit("");
        assert(""@ =~= Seq::<char>::empty());
    }
    validate_names(names)
}

/// The table of the delimited text `text`, read with the settings that a
/// reader starts from and the `options` on top of them. No name may stand
/// twice among the names that they give to the columns: see
/// [`check_names`]. Floating point numbers are made by `parse_float`.
pub fn read_csv<'a, F: Fn(&str) -> Float64>(text: &str, options: Option<Vec<(&'a str, &'a str)>>, parse_float: F) -> (r:
    Result<DataFrame, CSVError>)
    requires
        parses_all(parse_float),
        names_allowed(given(options)),
    ensures
        csv_outcome(
            parse_float,
            ReaderView::fresh().after_kwargs(merged_settings(given(options))).after_text(text@),
            r,
        ),
{
    let settings = merge_settings(options);
    let mut reader = Reader::new();
    reader.parse_csv(text, settings, parse_float)
}

/// The table of the text `text` in columns of fixed width: with
/// `colspecs`, the fields stand at these extents of every line; without,
/// they stand between delimiters. Floating point numbers are made by
/// `parse_float`.
pub fn read_fwf<'a, F: Fn(&str) -> Float64>(
    text: &str,
    colspecs: Option<Vec<(usize, usize)>>,
    options: Option<Vec<(&'a str, &'a str)>>,
    parse_float: F,
) -> (r: Result<DataFrame, CSVError>)
    requires
        parses_all(parse_float),
    ensures
        ({
            let after = FWFReaderView::fresh().after_text(
                text@,
                match colspecs {
                    Some(specs) => Some(specs@),
                    None => None,
                },
                merged_settings(given(options)),
            );
            (r is Ok <==> tabulable(after.data, after.headers)) && (r matches Ok(df) ==> table_told(
                parse_float,
                after.data,
                after.headers,
                df@,
            ))
        }),
{
    let settings = merge_settings(options);
    let mut reader = FWFReader::new();
    match colspecs {
        Some(specs) => reader.read_with_colspecs(text, specs.as_slice(), settings),
        None => reader.read(text, settings),
    }
    reader.to_dataframe(parse_float)
}

/// The table of delimited text that was taken from the clipboard, with
/// `sep` between the fields of a line.
pub fn read_clipboard<'a, F: Fn(&str) -> Float64>(
    text: &str,
    sep: &'a str,
    options: Option<Vec<(&'a str, &'a str)>>,
    parse_float: F,
) -> (r: Result<DataFrame, CSVError>)
    requires
        parses_all(parse_float),
    ensures
        csv_outcome(
            parse_float,
            ReaderView::fresh().after_kwargs(merged_settings(given(options)).push(("sep"@, sep@))).after_text(
                text@,
            ),
            r,
        ),
{
    let mut settings = merge_settings(options);
    let ghost before = settings_view(settings@);
    settings.push(("sep", sep));
    proof {
        assert(settings_view(settings@) =~= before.push(("sep"@, sep@)));
    }
    let mut reader = Reader::new();
    reader.parse_csv(text, settings, parse_float)
}

/// The table of the JSON text `text`: with `lines`, of the objects that its
/// lines write, one row for each; without, of the one object that the text
/// writes, whose values stand below the first column. The names of the
/// fields of the first object name the columns. Integers in a column of
/// floating point numbers are turned into such by `widen`.
pub fn read_json<F: Fn(i64) -> Float64>(text: &str, lines: bool, widen: F) -> (r: Result<DataFrame, CSVError>)
    requires
        widens_all(widen),
    ensures
        ({
            let after = JsonReaderView::fresh().after_text(text@, lines);
            (r is Ok <==> json_tabulable(after.data, after.headers)) && (r matches Ok(df)
                ==> json_table_told(widen, after.data, after.headers, df@))
        }),
{
    let mut reader = JsonReader::new();
    reader.parse_string_json(text, lines);
    reader.to_dataframe(widen)
}

} // verus!
