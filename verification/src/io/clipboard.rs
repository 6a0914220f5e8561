//! Delimited text that was taken from the clipboard.
use vstd::prelude::*;
use vstd::string::StringExecFns;
use crate::engine::dataframe::DataFrame;
use crate::engine::series::Float64;
use crate::io::csv::{Reader, ReaderView};
use crate::io::infer::{parses_all, CSVError};
use crate::io::parser::{csv_outcome, settings_view};

verus! {

/// A reader of delimited text that was taken from the clipboard. It keeps
/// the text that it was given.
pub struct ClipReader<'a> {
    pub(crate) data: String,
    pub(crate) csv_reader: Reader<'a>,
}

impl<'a> ClipReader<'a> {
    /// The text that the reader was given so far.
    pub closed spec fn text(&self) -> Seq<char> {
        self.data@
    }

    /// What the reader of delimited text inside stands for.
    pub closed spec fn reader(&self) -> ReaderView {
        self.csv_reader@
    }

    /// A reader that was given nothing yet.
    pub fn new() -> (r: ClipReader<'a>)
        ensures
            r.text() == Seq::<char>::empty(),
            r.reader() == ReaderView::fresh(),
    {
        ClipReader { data: String::new(), csv_reader: Reader::new() }
    }

    /// Takes `contents`, the text of the clipboard, behind the text that the
    /// reader was given before, and reads all of it as delimited text with
    /// `sep` between the fields of a line and with the settings `options`.
    pub fn read<F: Fn(&str) -> Float64>(
        &mut self,
        contents: &str,
        sep: &'a str,
        options: Option<Vec<(&'a str, &'a str)>>,
        parse_float: F,
    ) -> (r: Result<DataFrame, CSVError>)
        requires
            parses_all(parse_float),
        ensures
            final(self).text() == old(self).text() + contents@,
            csv_outcome(
                parse_float,
                old(self).reader().after_kwargs(
                    (match options {
                        Some(o) => settings_view(o@),
                        None => Seq::empty(),
                    }).push(("sep"@, sep@)),
                ).after_text(final(self).text()),
                r,
            ),
    {
        let mut options: Vec<(&'a str, &'a str)> = match options {
            Some(o) => o,
            None => Vec::new(),
        };
        let ghost before = settings_view(options@);
        proof {
            assert(settings_view(Seq::<(&str, &str)>::empty()) =~= Seq::empty());
        }
        options.push(("sep", sep));
        proof {
            assert(settings_view(options@) =~= before.push(("sep"@, sep@)));
        }
        self.data.append(contents);
        self.csv_reader.update_kwargs(options);
        let text = self.data.clone();
        self.csv_reader.parse_string_csv(text.as_str(), parse_float)
    }

    /// The text that the reader was given so far.
    pub fn data(&self) -> (s: String)
        ensures
            s@ == self.text(),
    {
        self.data.clone()
    }
}

impl<'a> Default for ClipReader<'a> {
    fn default() -> (r: Self)
        ensures
            r.text() == Seq::<char>::empty(),
            r.reader() == ReaderView::fresh(),
    {
        ClipReader::new()
    }
}

} // verus!
