//! Text in columns of fixed width.
use vstd::prelude::*;
use crate::engine::dataframe::DataFrame;
use crate::engine::series::Float64;
use crate::io::csv::{push_fields, with_fields};
use crate::io::infer::{parses_all, raw_views, table_told, tabulable, tabulate, CSVError};
use crate::io::parser::{lookup, setting, setting_or, settings_view};
use crate::text::scan::{
    begins_with, pieces_of, slice_of, split, starts_with, trim, trimmed,
};
use crate::text::{chars_of, texts};

verus! {

/// What a [`FWFReader`] stands for.
pub struct FWFReaderView {
    /// The columns that were read, each a sequence of raw fields.
    pub data: Seq<Seq<Seq<char>>>,
    /// The settings that were given by name.
    pub settings: Seq<(Seq<char>, Seq<char>)>,
    /// The names of the columns.
    pub headers: Seq<Seq<char>>,
}

/// A reader of text in columns of fixed width.
pub struct FWFReader<'a> {
    pub(crate) data: Vec<Vec<String>>,
    pub(crate) settings: Vec<(&'a str, &'a str)>,
    pub(crate) headers: Vec<String>,
}

impl<'a> View for FWFReader<'a> {
    type V = FWFReaderView;

    open(crate) spec fn view(&self) -> FWFReaderView {
        FWFReaderView {
            data: raw_views(self.data@),
            settings: settings_view(self.settings@),
            headers: texts(self.headers@),
        }
    }
}

/// A field between delimiters as it is kept: without white space around
/// it where it begins with the delimiter, else as it is.
pub open spec fn kept_field(field: Seq<char>, delimiter: Seq<char>) -> Seq<char> {
    if begins_with(field, delimiter) {
        trimmed(field)
    } else {
        field
    }
}

/// The fields of a line between delimiters, as they are kept.
pub open spec fn delimited_fields(line: Seq<char>, delimiter: Seq<char>) -> Seq<Seq<char>> {
    pieces_of(line, delimiter).map_values(|f: Seq<char>| kept_field(f, delimiter))
}

/// The fields of `line` at the first `n` of the extents `colspecs`, each
/// from a position up to another: a field is the text of its extent
/// without white space around it; an extent that does not lie within the
/// line, and one that holds nothing but white space, gives no field.
pub open spec fn extent_fields(line: Seq<char>, colspecs: Seq<(usize, usize)>, n: nat) -> Seq<Seq<char>>
    decreases n,
{
    if n == 0 {
        Seq::empty()
    } else {
        let before = extent_fields(line, colspecs, (n - 1) as nat);
        let (from, to) = colspecs[n - 1];
        if from <= to <= line.len() && trimmed(line.subrange(from as int, to as int)).len() > 0 {
            before.push(trimmed(line.subrange(from as int, to as int)))
        } else {
            before
        }
    }
}

impl FWFReaderView {
    /// The reader that has read nothing yet.
    pub open spec fn fresh() -> Self {
        FWFReaderView { data: Seq::empty(), settings: Seq::empty(), headers: Seq::empty() }
    }

    /// The reader after it has read the text `data` with the settings
    /// `settings`: the lines stand between the line terminator that the
    /// settings name; the fields of a line stand at the extents `colspecs`
    /// where these are given, else between the delimiter that the settings name.
    pub open spec fn after_text(
        self,
        data: Seq<char>,
        colspecs: Option<Seq<(usize, usize)>>,
        settings: Seq<(Seq<char>, Seq<char>)>,
    ) -> Self {
        let lines = pieces_of(data, line_terminator_of(settings));
        let records = match colspecs {
            Some(specs) => lines.map_values(|line: Seq<char>| extent_fields(line, specs, specs.len())),
            None => lines.map_values(|line: Seq<char>| delimited_fields(line, delimiter_of(settings))),
        };
        FWFReaderView { settings, ..self.with_lines(records, lines.len()) }
    }

    /// The reader after it has taken in `record`: as the names of the
    /// columns while it has none, else as fields below the columns.
    pub open spec fn with_line(self, record: Seq<Seq<char>>) -> Self {
        if self.headers.len() == 0 {
            FWFReaderView { headers: record, ..self }
        } else {
            FWFReaderView { data: with_fields(self.data, record), ..self }
        }
    }

    /// The reader after the first `n` of `records`.
    pub open spec fn with_lines(self, records: Seq<Seq<Seq<char>>>, n: nat) -> Self
        decreases n,
    {
        if n == 0 {
            self
        } else {
            self.with_lines(records, (n - 1) as nat).with_line(records[n - 1])
        }
    }
}

/// The line terminator that `settings` name, and the line feed where they name none.
pub open spec fn line_terminator_of(settings: Seq<(Seq<char>, Seq<char>)>) -> Seq<char> {
    setting_or(settings, "line_terminator"@, "\n"@)
}

/// The delimiter that `settings` name under `sep` or `delimiter`, and a
/// blank where they name none.
pub open spec fn delimiter_of(settings: Seq<(Seq<char>, Seq<char>)>) -> Seq<char> {
    match setting(settings, "sep"@) {
        Some(v) => v,
        None => setting_or(settings, "delimiter"@, " "@),
    }
}

impl<'a> FWFReader<'a> {
    /// A reader that has read nothing yet.
    pub fn new() -> (r: FWFReader<'a>)
        ensures
            r@ == FWFReaderView::fresh(),
    {
        let r = FWFReader { data: Vec::new(), settings: Vec::new(), headers: Vec::new() };
        proof {
            assert(r@.data =~= Seq::empty());
            assert(r@.headers =~= Seq::empty());
            assert(r@.settings =~= Seq::empty());
        }
        r
    }

    /// Takes in a record: as names of columns, behind those that the reader
    /// has, or as fields, below the columns.
    pub fn smart_push(&mut self, data: Vec<String>, headers: bool)
        ensures
            headers ==> final(self)@ == (FWFReaderView {
                headers: old(self)@.headers + texts(data@),
                ..old(self)@
            }),
            !headers ==> final(self)@ == (FWFReaderView {
                data: with_fields(old(self)@.data, texts(data@)),
                ..old(self)@
            }),
    {
        if headers {
            let ghost before = texts(self.headers@);
            let mut names = data;
            self.headers.append(&mut names);
            proof {
                assert(texts(self.headers@) =~= before + texts(data@));
            }
        } else {
            let mut taken: Vec<Vec<String>> = Vec::new();
            core::mem::swap(&mut self.data, &mut taken);
            self.data = push_fields(taken, data);
        }
    }

    /// Takes in a record as the names of the columns while the reader has
    /// none, else as fields below the columns.
    fn push_line(&mut self, record: Vec<String>)
        ensures
            final(self)@ == old(self)@.with_line(texts(record@)),
    {
        if self.headers.len() == 0 {
            proof {
                assert(texts(self.headers@) + texts(record@) =~= texts(record@));
            }
            self.smart_push(record, true);
        } else {
            self.smart_push(record, false);
        }
    }

    /// Reads text whose fields stand between delimiters. The lines stand
    /// between the line terminator that `settings` name, the fields between
    /// the delimiter that they name. The first line gives the names of the
    /// columns where the reader has none.
    pub fn read(&mut self, data: &str, settings: Vec<(&'a str, &'a str)>)
        ensures
            final(self)@ == old(self)@.after_text(data@, None, settings_view(settings@)),
    {
        let ghost start = self@;
        let sep: &str = match lookup(&settings, "line_terminator") {
            Some(v) => v,
            None => "\n",
        };
        let delimiter: &str = match lookup(&settings, "sep") {
            Some(v) => v,
            None => match lookup(&settings, "delimiter") {
                Some(v) => v,
                None => " ",
            },
        };
        let ghost records = pieces_of(data@, sep@).map_values(
            |line: Seq<char>| delimited_fields(line, delimiter@),
        );
        let all = split(data, sep);
        let n = all.len();
        let mut i: usize = 0;
        while i < n
            invariant
                i <= n,
                n == all@.len(),
                texts(all@) == pieces_of(data@, sep@),
                records == pieces_of(data@, sep@).map_values(
                    |line: Seq<char>| delimited_fields(line, delimiter@),
                ),
                self@ == start.with_lines(records, i as nat),
            decreases n - i,
        {
            let pieces = split(all[i].as_str(), delimiter);
            let mut record: Vec<String> = Vec::new();
            let m = pieces.len();
            let mut j: usize = 0;
            while j < m
                invariant
                    j <= m,
                    m == pieces@.len(),
                    record@.len() == j,
                    forall|k: int|
                        0 <= k < j ==> (#[trigger] record@[k])@ == kept_field(pieces@[k]@, delimiter@),
                decreases m - j,
            {
                let field = pieces[j].as_str();
                if starts_with(field, delimiter) {
                    record.push(trim(field));
                } else {
                    record.push(pieces[j].clone());
                }
                j += 1;
            }
            proof {
                assert(texts(all@)[i as int] == all@[i as int]@);
                assert(texts(record@) =~= delimited_fields(all@[i as int]@, delimiter@));
                assert(records[i as int] == delimited_fields(all@[i as int]@, delimiter@));
            }
            self.push_line(record);
            i += 1;
        }
        self.settings = settings;
    }

    /// Reads text whose fields stand at the extents `colspecs` of every
    /// line, each from a position up to another, counted in characters. The
    /// lines stand between the line terminator that `settings` name. The
    /// first line gives the names of the columns where the reader has none.
    pub fn read_with_colspecs(&mut self, data: &str, colspecs: &[(usize, usize)], settings: Vec<
        (&'a str, &'a str),
    >)
        ensures
            final(self)@ == old(self)@.after_text(data@, Some(colspecs@), settings_view(settings@)),
    {
        let ghost start = self@;
        let sep: &str = match lookup(&settings, "line_terminator") {
            Some(v) => v,
            None => "\n",
        };
        let ghost records = pieces_of(data@, sep@).map_values(
            |line: Seq<char>| extent_fields(line, colspecs@, colspecs@.len()),
        );
        let all = split(data, sep);
        let n = all.len();
        let count = colspecs.len();
        let mut i: usize = 0;
        while i < n
            invariant
                i <= n,
                n == all@.len(),
                count == colspecs@.len(),
                texts(all@) == pieces_of(data@, sep@),
                records == pieces_of(data@, sep@).map_values(
                    |line: Seq<char>| extent_fields(line, colspecs@, colspecs@.len()),
                ),
                self@ == start.with_lines(records, i as nat),
            decreases n - i,
        {
            let line = chars_of(all[i].as_str());
            let mut holder: Vec<String> = Vec::new();
            let mut j: usize = 0;
            proof {
                assert(texts(holder@) =~= Seq::empty());
            }
            while j < count
                invariant
                    j <= count,
                    count == colspecs@.len(),
                    texts(holder@) == extent_fields(line@, colspecs@, j as nat),
                decreases count - j,
            {
                let (from, to) = colspecs[j];
                if from <= to && to <= line.len() {
                    let piece = slice_of(&line, from, to);
                    let kept = trim(piece.as_str());
                    if chars_of(kept.as_str()).len() > 0 {
                        let ghost before = texts(holder@);
                        holder.push(kept);
                        proof {
                            assert(texts(holder@) =~= before.push(
                                trimmed(line@.subrange(from as int, to as int)),
                            ));
                        }
                    }
                }
                j += 1;
            }
            proof {
                assert(texts(all@)[i as int] == all@[i as int]@);
                assert(records[i as int] == extent_fields(all@[i as int]@, colspecs@, colspecs@.len()));
            }
            self.push_line(holder);
            i += 1;
        }
        self.settings = settings;
    }

    /// The table of what the reader has read; see [`tabulate`].
    pub fn to_dataframe<F: Fn(&str) -> Float64>(&self, parse_float: F) -> (r: Result<DataFrame, CSVError>)
        requires
            parses_all(parse_float),
        ensures
            r is Ok <==> tabulable(self@.data, self@.headers),
            r matches Ok(df) ==> table_told(parse_float, self@.data, self@.headers, df@),
    {
        tabulate(&self.data, &self.headers, parse_float)
    }
}

impl<'a> Default for FWFReader<'a> {
    fn default() -> (r: Self)
        ensures
            r@ == FWFReaderView::fresh(),
    {
        FWFReader::new()
    }
}

} // verus!
