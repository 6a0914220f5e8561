//! Delimited text: the settings of the reader, and the reader itself.
use vstd::prelude::*;
use vstd::string::StringExecFns;
use crate::engine::dataframe::DataFrame;
use crate::engine::series::generic::copy_labels;
use crate::engine::series::Float64;
use crate::io::infer::{parses_all, raw_views, table_told, tabulable, tabulate, CSVError};
use crate::text::scan::{
    begins_with, contains, holds, lines, lines_of, pieces_of, split, starts_with, trim, trimmed,
};
use crate::engine::block_manager::bulk::reversed;
use crate::io::parser::{lookup, remove_setting, setting, setting_or, settings_view, without_setting};
use crate::text::{chars_of, string_from_chars, texts};

verus! {

/// The settings of a reader of delimited text.
#[derive(Debug, Clone, Copy)]
pub struct Builder<'a> {
    /// Whether the first line holds the names of the columns.
    pub(crate) has_headers: bool,
    /// What stands between two fields of a line.
    pub(crate) delimiter: &'a str,
    /// What stands between two lines.
    pub(crate) line_terminator: &'a str,
    /// Whether lines may differ in their number of fields.
    pub(crate) flexible: bool,
    /// What stands around a field that may hold the delimiter.
    pub(crate) quote_char: &'a str,
    /// What a line begins with that is to be skipped.
    pub(crate) ignore: &'a str,
}

/// What a [`Builder`] stands for.
pub struct BuilderView {
    /// See [`Builder::headers`].
    pub has_headers: bool,
    /// See [`Builder::delimiter`].
    pub delimiter: Seq<char>,
    /// See [`Builder::line_terminator`].
    pub line_terminator: Seq<char>,
    /// See [`Builder::flexible`].
    pub flexible: bool,
    /// The quote character.
    pub quote_char: Seq<char>,
    /// See [`Builder::ignore`].
    pub ignore: Seq<char>,
}

impl<'a> View for Builder<'a> {
    type V = BuilderView;

    open(crate) spec fn view(&self) -> BuilderView {
        BuilderView {
            has_headers: self.has_headers,
            delimiter: self.delimiter@,
            line_terminator: self.line_terminator@,
            flexible: self.flexible,
            quote_char: self.quote_char@,
            ignore: self.ignore@,
        }
    }
}

impl BuilderView {
    /// The settings that suit most delimited text: a first line of names,
    /// fields between commas, lines between line feeds, double quotes around
    /// fields, lines that begin with `#` skipped, and lines of any length.
    pub open spec fn standard() -> Self {
        BuilderView {
            has_headers: true,
            delimiter: ","@,
            line_terminator: "\n"@,
            flexible: true,
            quote_char: "\""@,
            ignore: "#"@,
        }
    }
}

impl<'a> Builder<'a> {
    /// The settings that suit most delimited text.
    pub fn new() -> (r: Self)
        ensures
            r@ == BuilderView::standard(),
    {
        Builder {
            has_headers: true,
            delimiter: ",",
            line_terminator: "\n",
            flexible: true,
            quote_char: "\"",
            ignore: "#",
        }
    }

    /// What stands between two fields of a line.
    pub fn delimiter(self) -> (r: &'a str)
        ensures
            r@ == self@.delimiter,
    {
        self.delimiter
    }

    /// Sets what stands between two fields of a line.
    pub fn set_delimiter(&mut self, delimiter: &'a str)
        ensures
            final(self)@ == (BuilderView { delimiter: delimiter@, ..old(self)@ }),
    {
        self.delimiter = delimiter;
    }

    /// Whether the first line holds the names of the columns.
    pub fn headers(&self) -> (r: bool)
        ensures
            r == self@.has_headers,
    {
        self.has_headers
    }

    /// Sets whether the first line holds the names of the columns.
    pub fn set_headers(&mut self, value: bool)
        ensures
            final(self)@ == (BuilderView { has_headers: value, ..old(self)@ }),
    {
        self.has_headers = value;
    }

    /// What stands between two lines.
    pub fn line_terminator(&self) -> (r: &'a str)
        ensures
            r@ == self@.line_terminator,
    {
        self.line_terminator
    }

    /// Sets what stands between two lines.
    pub fn set_line_terminator(&mut self, terminator: &'a str)
        ensures
            final(self)@ == (BuilderView { line_terminator: terminator@, ..old(self)@ }),
    {
        self.line_terminator = terminator;
    }

    /// Whether lines may differ in their number of fields.
    pub fn flexible(&self) -> (r: bool)
        ensures
            r == self@.flexible,
    {
        self.flexible
    }

    /// Sets whether lines may differ in their number of fields.
    pub fn set_flexible(&mut self, flexibility: bool)
        ensures
            final(self)@ == (BuilderView { flexible: flexibility, ..old(self)@ }),
    {
        self.flexible = flexibility;
    }

    /// What a line begins with that is to be skipped.
    pub fn ignore(self) -> (r: &'a str)
        ensures
            r@ == self@.ignore,
    {
        self.ignore
    }

    /// Sets what a line begins with that is to be skipped.
    pub fn set_ignore(&mut self, ignore: &'a str)
        ensures
            final(self)@ == (BuilderView { ignore: ignore@, ..old(self)@ }),
    {
        self.ignore = ignore;
    }

    /// A copy of the settings.
    pub fn build(&self) -> (r: Self)
        ensures
            r@ == self@,
    {
        Builder {
            has_headers: self.has_headers,
            delimiter: self.delimiter,
            line_terminator: self.line_terminator,
            flexible: self.flexible,
            quote_char: self.quote_char,
            ignore: self.ignore,
        }
    }
}

/// Where the splitting of a line with quoted fields stands.
pub struct SplitState {
    /// The fields that are complete.
    pub fields: Seq<Seq<char>>,
    /// The field that is being read.
    pub current: Seq<char>,
    /// Whether the characters that are being read stand between quotes.
    pub inside: bool,
}

/// The next state of the splitting after the character `c`. A quote turns
/// quoting on or off and stays part of its field; outside quotes, the
/// delimiter ends the field.
pub open spec fn split_step(st: SplitState, c: char, split_at: Seq<char>, quote: Seq<char>) -> SplitState {
    let inside = if quote == seq![c] {
        !st.inside
    } else {
        st.inside
    };
    if !inside && split_at == seq![c] {
        SplitState { fields: st.fields.push(st.current), current: Seq::empty(), inside }
    } else {
        SplitState { fields: st.fields, current: st.current.push(c), inside }
    }
}

/// The state of the splitting after the first `n` characters of `s`.
pub open spec fn split_run(s: Seq<char>, n: nat, split_at: Seq<char>, quote: Seq<char>) -> SplitState
    decreases n,
{
    if n == 0 {
        SplitState { fields: Seq::empty(), current: Seq::empty(), inside: false }
    } else {
        split_step(split_run(s, (n - 1) as nat, split_at, quote), s[n - 1], split_at, quote)
    }
}

/// The fields of a line that holds a quote: the delimiter, a single
/// character, ends a field only outside quotes, and a last field that is
/// empty is left out.
pub open spec fn quoted_fields(s: Seq<char>, split_at: Seq<char>, quote: Seq<char>) -> Seq<Seq<char>> {
    let st = split_run(s, s.len(), split_at, quote);
    if st.current.len() > 0 {
        st.fields.push(st.current)
    } else {
        st.fields
    }
}

/// The fields of a line: those of [`quoted_fields`] where the line holds
/// the quote, else the pieces between the delimiters.
pub open spec fn smart_fields(s: Seq<char>, split_at: Seq<char>, quote: Seq<char>) -> Seq<Seq<char>> {
    if holds(s, quote) {
        quoted_fields(s, split_at, quote)
    } else {
        pieces_of(s, split_at)
    }
}

/// The fields of the line `string`.
pub fn smart_split(string: &str, split_at: &str, quote_char: &str) -> (out: Vec<String>)
    ensures
        texts(out@) == smart_fields(string@, split_at@, quote_char@),
{
    if !contains(string, quote_char) {
        return split(string, split_at);
    }
    let s = chars_of(string);
    let sep = chars_of(split_at);
    let quote = chars_of(quote_char);
    let mut out: Vec<String> = Vec::new();
    let mut current: Vec<char> = Vec::new();
    let mut inside = false;
    let n = s.len();
    let mut i: usize = 0;
    proof {
        assert(texts(out@) =~= Seq::empty());
    }
    while i < n
        invariant
            i <= n,
            n == s@.len(),
            s@ == string@,
            sep@ == split_at@,
            quote@ == quote_char@,
            split_run(s@, i as nat, sep@, quote@) == (SplitState {
                fields: texts(out@),
                current: current@,
                inside,
            }),
        decreases n - i,
    {
        let c = s[i];
        let is_quote = quote.len() == 1 && quote[0] == c;
        let is_sep = sep.len() == 1 && sep[0] == c;
        proof {
            assert(is_quote == (quote@ == seq![c])) by {
                if is_quote {
                    assert(quote@ =~= seq![c]);
                } else if quote@ == seq![c] {
                    assert(quote@[0] == c);
                }
            }
            assert(is_sep == (sep@ == seq![c])) by {
                if is_sep {
                    assert(sep@ =~= seq![c]);
                } else if sep@ == seq![c] {
                    assert(sep@[0] == c);
                }
            }
        }
        if is_quote {
            inside = !inside;
        }
        if !inside && is_sep {
            let ghost before = texts(out@);
            out.push(string_from_chars(&current));
            proof {
                assert(texts(out@) =~= before.push(current@));
            }
            current = Vec::new();
        } else {
            current.push(c);
        }
        i += 1;
    }
    if current.len() > 0 {
        let ghost before = texts(out@);
        out.push(string_from_chars(&current));
        proof {
            assert(texts(out@) =~= before.push(current@));
        }
    }
    out
}

/// The fields of a record, each without white space around it.
pub open spec fn trimmed_all(record: Seq<Seq<char>>) -> Seq<Seq<char>> {
    record.map_values(|f: Seq<char>| trimmed(f))
}

/// The columns `data` with the fields of `record` put below them, field
/// `k` below column `k`; a field for which there is no column begins one.
pub open spec fn with_fields(data: Seq<Seq<Seq<char>>>, record: Seq<Seq<char>>) -> Seq<Seq<Seq<char>>> {
    Seq::new(
        if data.len() >= record.len() {
            data.len()
        } else {
            record.len()
        },
        |k: int|
            (if k < data.len() {
                data[k]
            } else {
                Seq::empty()
            }) + (if k < record.len() {
                seq![record[k]]
            } else {
                Seq::empty()
            }),
    )
}

/// The columns `data` with the fields of `record` put below them, each
/// without white space around it.
pub open spec fn with_record(data: Seq<Seq<Seq<char>>>, record: Seq<Seq<char>>) -> Seq<Seq<Seq<char>>> {
    with_fields(data, trimmed_all(record))
}

/// Whether all columns have one length.
pub open spec fn even(data: Seq<Seq<Seq<char>>>) -> bool {
    forall|k: int| 0 <= k < data.len() ==> (#[trigger] data[k]).len() == data[0].len()
}

/// The columns `data` after the first `n` of `lines` have been read:
/// lines that begin with what is to be ignored are skipped, and the fields
/// of every other line are put below the columns. `None` where the lines
/// must be of one length and a line left the columns uneven.
pub open spec fn ingested(
    data: Seq<Seq<Seq<char>>>,
    lines: Seq<Seq<char>>,
    n: nat,
    builder: BuilderView,
) -> Option<Seq<Seq<Seq<char>>>>
    decreases n,
{
    if n == 0 {
        Some(data)
    } else {
        match ingested(data, lines, (n - 1) as nat, builder) {
            None => None,
            Some(before) => {
                let line = lines[n - 1];
                if begins_with(line, builder.ignore) {
                    Some(before)
                } else {
                    let after = with_record(
                        before,
                        smart_fields(line, builder.delimiter, builder.quote_char),
                    );
                    if !builder.flexible && !even(after) {
                        None
                    } else {
                        Some(after)
                    }
                }
            },
        }
    }
}

/// What a [`Reader`] stands for.
pub struct ReaderView {
    /// The columns that were read, each a sequence of raw fields.
    pub data: Seq<Seq<Seq<char>>>,
    /// The settings of the reader.
    pub builder: BuilderView,
    /// The names of the columns.
    pub headers: Seq<Seq<char>>,
    /// Whether the names of the columns were given with the settings.
    pub has_headers: bool,
    /// The settings that were given by name.
    pub settings: Seq<(Seq<char>, Seq<char>)>,
}

impl ReaderView {
    /// The reader that has the settings that suit most delimited text and
    /// has read nothing yet.
    pub open spec fn fresh() -> Self {
        ReaderView {
            data: Seq::empty(),
            builder: BuilderView::standard(),
            headers: Seq::empty(),
            has_headers: true,
            settings: Seq::empty(),
        }
    }

    /// The reader after it has read `text`: the first line gives the names
    /// of the columns where the text is to hold them and the reader has
    /// none yet; all other lines are read as [`ingested`] says. `None` where
    /// the names are missing or a line does not fit.
    pub open spec fn after_text(self, text: Seq<char>) -> Option<Self> {
        let lines = lines_of(text);
        if self.builder.has_headers && self.headers.len() == 0 {
            if lines.len() == 0 {
                None
            } else {
                let headers = trimmed_all(
                    smart_fields(lines[0], self.builder.delimiter, self.builder.quote_char),
                );
                match ingested(self.data, lines.skip(1), (lines.len() - 1) as nat, self.builder) {
                    None => None,
                    Some(data) => Some(ReaderView { data, headers, ..self }),
                }
            }
        } else {
            match ingested(self.data, lines, lines.len(), self.builder) {
                None => None,
                Some(data) => Some(ReaderView { data, ..self }),
            }
        }
    }

    /// The reader after it has taken the settings `kwargs`: the delimiter
    /// from `sep` or `delimiter`, the line terminator, what to ignore, and,
    /// where `names` are given, the names of the columns.
    pub open spec fn after_kwargs(self, kwargs: Seq<(Seq<char>, Seq<char>)>) -> Self {
        let delimiter = match setting(kwargs, "sep"@) {
            Some(v) => v,
            None => setting_or(kwargs, "delimiter"@, self.builder.delimiter),
        };
        let builder = BuilderView {
            delimiter,
            line_terminator: setting_or(kwargs, "line_terminator"@, "\n"@),
            ignore: setting_or(kwargs, "ignore"@, "#"@),
            ..self.builder
        };
        let names = setting_or(kwargs, "names"@, Seq::empty());
        if names.len() == 0 {
            ReaderView { builder, ..self }
        } else {
            ReaderView {
                builder: BuilderView { has_headers: false, ..builder },
                headers: self.headers + trimmed_all(
                    smart_fields(names, builder.delimiter, builder.quote_char),
                ),
                has_headers: true,
                settings: without_setting(kwargs, "names"@),
                ..self
            }
        }
    }
}

/// A reader of delimited text.
pub struct Reader<'a> {
    pub(crate) data: Vec<Vec<String>>,
    pub(crate) builder: Builder<'a>,
    pub(crate) headers: Vec<String>,
    pub(crate) has_headers: bool,
    pub(crate) settings: Vec<(&'a str, &'a str)>,
}

impl<'a> View for Reader<'a> {
    type V = ReaderView;

    open(crate) spec fn view(&self) -> ReaderView {
        ReaderView {
            data: raw_views(self.data@),
            builder: self.builder@,
            headers: texts(self.headers@),
            has_headers: self.has_headers,
            settings: settings_view(self.settings@),
        }
    }
}

/// The fields of `record` put below the columns `data`.
pub(crate) fn push_fields(data: Vec<Vec<String>>, record: Vec<String>) -> (out: Vec<Vec<String>>)
    ensures
        raw_views(out@) == with_fields(raw_views(data@), texts(record@)),
{
    let ghost old_data = raw_views(data@);
    let ghost fields = texts(record@);
    let columns = data.len();
    let cells = record.len();
    let total = if columns >= cells {
        columns
    } else {
        cells
    };
    let mut rest = reversed(data);
    let mut out: Vec<Vec<String>> = Vec::new();
    let mut k: usize = 0;
    while k < total
        invariant
            k <= total,
            total == (if columns >= cells {
                columns
            } else {
                cells
            }),
            columns == old_data.len(),
            cells == record@.len(),
            fields == texts(record@),
            old_data == raw_views(data@),
            rest@.len() == (if k < columns {
                columns - k
            } else {
                0
            }),
            forall|j: int| 0 <= j < rest@.len() ==> #[trigger] rest@[j] == data@[columns - 1 - j],
            out@.len() == k,
            forall|j: int| 0 <= j < k ==> texts((#[trigger] out@[j])@) == with_fields(old_data, fields)[j],
        decreases total - k,
    {
        let mut column: Vec<String> = if k < columns {
            rest.pop().unwrap()
        } else {
            Vec::new()
        };
        proof {
            if k < columns {
                assert(column == data@[k as int]);
                assert(texts(column@) == old_data[k as int]);
            } else {
                assert(texts(column@) =~= Seq::empty());
            }
        }
        if k < cells {
            let ghost before = texts(column@);
            column.push(record[k].clone());
            proof {
                assert(texts(column@) =~= before + seq![fields[k as int]]);
            }
        } else {
            proof {
                assert(texts(column@) =~= texts(column@) + Seq::empty());
            }
        }
        out.push(column);
        k += 1;
    }
    proof {
        assert(raw_views(out@) =~= with_fields(old_data, fields));
    }
    out
}

/// Whether all columns have one length.
pub(crate) fn is_even(data: &Vec<Vec<String>>) -> (b: bool)
    ensures
        b == even(raw_views(data@)),
{
    let n = data.len();
    let mut i: usize = 0;
    while i < n
        invariant
            i <= n,
            n == data@.len(),
            forall|k: int| 0 <= k < i ==> (#[trigger] raw_views(data@)[k]).len() == raw_views(data@)[0].len(),
        decreases n - i,
    {
        if data[i].len() != data[0].len() {
            proof {
                assert(raw_views(data@)[i as int].len() == data@[i as int]@.len());
                assert(raw_views(data@)[0].len() == data@[0]@.len());
            }
            return false;
        }
        proof {
            assert(raw_views(data@)[i as int].len() == data@[i as int]@.len());
            assert(raw_views(data@)[0].len() == data@[0]@.len());
        }
        i += 1;
    }
    true
}

/// The fields of a record, each without white space around it.
pub(crate) fn trim_all(record: &Vec<String>) -> (out: Vec<String>)
    ensures
        texts(out@) == trimmed_all(texts(record@)),
{
    let mut out: Vec<String> = Vec::new();
    let n = record.len();
    let mut i: usize = 0;
    while i < n
        invariant
            i <= n,
            n == record@.len(),
            out@.len() == i,
            forall|k: int| 0 <= k < i ==> (#[trigger] out@[k])@ == trimmed(record@[k]@),
        decreases n - i,
    {
        out.push(trim(record[i].as_str()));
        i += 1;
    }
    assert(texts(out@) =~= trimmed_all(texts(record@)));
    out
}

impl<'a> Reader<'a> {
    /// A reader with the settings that suit most delimited text, which has
    /// read nothing yet.
    pub fn new() -> (r: Reader<'a>)
        ensures
            r@ == ReaderView::fresh(),
    {
        let r = Reader {
            data: Vec::new(),
            builder: Builder::new(),
            headers: Vec::new(),
            has_headers: true,
            settings: Vec::new(),
        };
        proof {
            assert(r@.data =~= Seq::empty());
            assert(r@.headers =~= Seq::empty());
            assert(r@.settings =~= Seq::empty());
        }
        r
    }

    /// A copy of the reader.
    pub fn own_it(&self) -> (r: Self)
        ensures
            r@ == self@,
    {
        let mut data: Vec<Vec<String>> = Vec::new();
        let n = self.data.len();
        let mut i: usize = 0;
        while i < n
            invariant
                i <= n,
                n == self.data@.len(),
                data@.len() == i,
                forall|k: int| 0 <= k < i ==> (#[trigger] data@[k])@ == self.data@[k]@,
            decreases n - i,
        {
            let column = copy_labels(&self.data[i]);
            proof {
                assert(column@ =~= self.data@[i as int]@);
            }
            data.push(column);
            i += 1;
        }
        proof {
            assert(raw_views(data@) =~= raw_views(self.data@));
        }
        let mut settings: Vec<(&'a str, &'a str)> = Vec::new();
        let m = self.settings.len();
        let mut j: usize = 0;
        while j < m
            invariant
                j <= m,
                m == self.settings@.len(),
                settings@ == self.settings@.take(j as int),
            decreases m - j,
        {
            settings.push(self.settings[j]);
            j += 1;
        }
        proof {
            assert(settings@ =~= self.settings@);
        }
        Reader {
            data,
            builder: self.builder.build(),
            headers: copy_labels(&self.headers),
            has_headers: self.has_headers,
            settings,
        }
    }

    /// Takes in a record: as names of columns, behind those that the reader
    /// has, or as fields, below the columns. Where lines must be of one
    /// length, fields that leave the columns uneven are an error.
    pub fn smart_push(&mut self, data: Vec<String>, is_headers: bool) -> (r: Result<(), CSVError>)
        ensures
            is_headers ==> r is Ok && final(self)@ == (ReaderView {
                headers: old(self)@.headers + trimmed_all(texts(data@)),
                ..old(self)@
            }),
            !is_headers ==> final(self)@ == (ReaderView {
                data: with_record(old(self)@.data, texts(data@)),
                ..old(self)@
            }) && (r is Ok <==> old(self)@.builder.flexible || even(final(self)@.data)),
    {
        if is_headers {
            let ghost before = texts(self.headers@);
            let mut names = trim_all(&data);
            self.headers.append(&mut names);
            proof {
                assert(texts(self.headers@) =~= before + trimmed_all(texts(data@)));
            }
            Ok(())
        } else {
            let mut taken: Vec<Vec<String>> = Vec::new();
            core::mem::swap(&mut self.data, &mut taken);
            self.data = push_fields(taken, trim_all(&data));
            if !self.builder.flexible && !is_even(&self.data) {
                return Err(CSVError::ParseError);
            }
            Ok(())
        }
    }

    /// Takes the settings `new_kwargs`: the delimiter from `sep` or
    /// `delimiter`, the line terminator from `line_terminator`, what to
    /// ignore from `ignore`, and the names of the columns from `names`.
    pub fn update_kwargs(&mut self, new_kwargs: Vec<(&'a str, &'a str)>)
        ensures
            final(self)@ == old(self)@.after_kwargs(settings_view(new_kwargs@)),
    {
        match lookup(&new_kwargs, "sep") {
            Some(v) => self.builder.set_delimiter(v),
            None => match lookup(&new_kwargs, "delimiter") {
                Some(v) => self.builder.set_delimiter(v),
                None => {},
            },
        }
        match lookup(&new_kwargs, "line_terminator") {
            Some(v) => self.builder.set_line_terminator(v),
            None => self.builder.set_line_terminator("\n"),
        }
        match lookup(&new_kwargs, "ignore") {
            Some(v) => self.builder.set_ignore(v),
            None => self.builder.set_ignore("#"),
        }
        let names: &str = match lookup(&new_kwargs, "names") {
            Some(v) => v,
            None => "",
        };
        proof {
            reveal_strlit("");
            assert(""@ =~= Seq::<char>::empty());
        }
        if chars_of(names).len() > 0 {
            let headers = smart_split(names, self.builder.delimiter, self.builder.quote_char);
            let _ = self.smart_push(headers, true);
            self.has_headers = true;
            self.builder.set_headers(false);
            self.settings = remove_setting(&new_kwargs, "names");
        }
    }

    /// The table of what the reader has read; see [`tabulate`].
    pub fn to_dataframe<F: Fn(&str) -> Float64>(&self, parse_float: F) -> (r: Result<DataFrame, CSVError>)
        requires
            parses_all(parse_float),
        ensures
            r is Ok <==> tabulable(self@.data, self@.headers),
            r matches Ok(df) ==> table_told(parse_float, self@.data, self@.headers, df@),
    {
        tabulate(&self.data, &self.headers, parse_float)
    }

    /// Reads delimited text and gives the table of it. The first line gives
    /// the names of the columns where the text is to hold them and the
    /// reader has none yet.
    pub fn parse_string_csv<F: Fn(&str) -> Float64>(&mut self, data: &str, parse_float: F) -> (r: Result<
        DataFrame,
        CSVError,
    >)
        requires
            parses_all(parse_float),
        ensures
            match old(self)@.after_text(data@) {
                None => r is Err,
                Some(after) => final(self)@ == after && (r is Ok <==> tabulable(
                    after.data,
                    after.headers,
                )) && (r matches Ok(df) ==> table_told(parse_float, after.data, after.headers, df@)),
            },
    {
        let ghost start = self@;
        let all = lines(data);
        let n = all.len();
        let mut i: usize = 0;
        let ghost body = texts(all@);
        if self.builder.has_headers && self.headers.len() == 0 {
            if n == 0 {
                return Err(CSVError::ParseError);
            }
            let names = smart_split(
                all[0].as_str(),
                self.builder.delimiter,
                self.builder.quote_char,
            );
            let _ = self.smart_push(names, true);
            proof {
                assert(start.headers + trimmed_all(
                    smart_fields(texts(all@)[0], start.builder.delimiter, start.builder.quote_char),
                ) =~= trimmed_all(
                    smart_fields(texts(all@)[0], start.builder.delimiter, start.builder.quote_char),
                ));
                body = texts(all@).skip(1);
            }
            i = 1;
        }
        let first = i;
        let ghost headers = self@.headers;
        while i < n
            invariant
                first <= i <= n,
                first <= 1,
                n == all@.len(),
                start == old(self)@,
                texts(all@) == lines_of(data@),
                first == 1 <==> start.builder.has_headers && start.headers.len() == 0,
                first == 1 ==> headers == trimmed_all(
                    smart_fields(texts(all@)[0], start.builder.delimiter, start.builder.quote_char),
                ),
                first == 0 ==> headers == start.headers,
                body == texts(all@).skip(first as int),
                self@ == (ReaderView { data: self@.data, headers, ..start }),
                Some(self@.data) == ingested(start.data, body, (i - first) as nat, start.builder),
            decreases n - i,
        {
            let line = all[i].as_str();
            proof {
                assert(body[i - first] == line@);
            }
            if !starts_with(line, self.builder.ignore) {
                let fields = smart_split(line, self.builder.delimiter, self.builder.quote_char);
                let ghost before = self@.data;
                match self.smart_push(fields, false) {
                    Ok(()) => {},
                    Err(e) => {
                        proof {
                            assert(ingested(start.data, body, (i - first + 1) as nat, start.builder)
                                is None);
                            assert(texts(all@).skip(0) =~= texts(all@));
                            lemma_ingested_none(
                                start.data,
                                body,
                                (i - first + 1) as nat,
                                (n - first) as nat,
                                start.builder,
                            );
                        }
                        return Err(e);
                    },
                }
            }
            i += 1;
        }
        proof {
            assert(texts(all@).skip(0) =~= texts(all@));
        }
        self.to_dataframe(parse_float)
    }

    /// Takes the settings `kwargs`, reads the delimited text `text` and
    /// gives the table of it.
    pub fn parse_csv<F: Fn(&str) -> Float64>(
        &mut self,
        text: &str,
        kwargs: Vec<(&'a str, &'a str)>,
        parse_float: F,
    ) -> (r: Result<DataFrame, CSVError>)
        requires
            parses_all(parse_float),
        ensures
            match old(self)@.after_kwargs(settings_view(kwargs@)).after_text(text@) {
                None => r is Err,
                Some(after) => final(self)@ == after && (r is Ok <==> tabulable(
                    after.data,
                    after.headers,
                )) && (r matches Ok(df) ==> table_told(parse_float, after.data, after.headers, df@)),
            },
    {
        self.update_kwargs(kwargs);
        self.parse_string_csv(text, parse_float)
    }
}

/// Once a line did not fit, the lines cannot be read.
pub proof fn lemma_ingested_none(
    data: Seq<Seq<Seq<char>>>,
    lines: Seq<Seq<char>>,
    n: nat,
    m: nat,
    builder: BuilderView,
)
    requires
        n <= m,
        ingested(data, lines, n, builder) is None,
    ensures
        ingested(data, lines, m, builder) is None,
    decreases m - n,
{
    if n < m {
        lemma_ingested_none(data, lines, n, (m - 1) as nat, builder);
    }
}

impl<'a> Default for Builder<'a> {
    fn default() -> (r: Self)
        ensures
            r@ == BuilderView::standard(),
    {
        Builder::new()
    }
}

impl<'a> Default for Reader<'a> {
    fn default() -> (r: Self)
        ensures
            r@ == ReaderView::fresh(),
    {
        Reader::new()
    }
}

} // verus!
