//! The `pls load` command.

use crate::command::{Example, WholeStreamCommand};
use crate::errors::{ShellError, ShellErrorView};
use crate::span::{Span, Spanned, Tag};
use crate::text::{
    byte_len, byte_length, char_width, chars_of, lemma_byte_len_bounds, same_text,
};
use crate::value::{Primitive, UntaggedValue, Value};
use crate::shape::SyntaxShape;
use crate::signature::{NamedType, PositionalTypeView, Signature, SignatureView};
use vstd::prelude::*;

verus! {

/// The `pls load` command.
pub struct DataFrame;

impl WholeStreamCommand for DataFrame {
    open spec fn spec_name(&self) -> Seq<char> {
        "pls load"@
    }

    open spec fn spec_usage(&self) -> Seq<char> {
        "Loads dataframe form csv file"@
    }

    open spec fn spec_signature(&self) -> SignatureView {
        SignatureView::new("pls load"@)
            .with_positional(
                PositionalTypeView::Mandatory("file"@, SyntaxShape::FilePath),
                "the file path to load values from"@,
            )
            .with_named(
                "delimiter"@,
                NamedType::Optional(Some('d'), SyntaxShape::String),
                "file delimiter character. CSV file"@,
            )
            .with_named(
                "no_header"@,
                NamedType::Switch(None),
                "Indicates if file doesn't have header. CSV file"@,
            )
            .with_named(
                "infer_schema"@,
                NamedType::Optional(None, SyntaxShape::Number),
                "Set number of row to infer the schema of the file. CSV file"@,
            )
            .with_named(
                "skip_rows"@,
                NamedType::Optional(None, SyntaxShape::Number),
                "Number of rows to skip from file. CSV file"@,
            )
            .with_named(
                "columns"@,
                NamedType::Optional(None, SyntaxShape::Table),
                "Columns to be selected from csv file. CSV file"@,
            )
    }

    fn name(&self) -> (n: &str) {
        "pls load"
    }

    fn signature(&self) -> (s: Signature) {
        Signature::build("pls load")
            .required("file", SyntaxShape::FilePath, "the file path to load values from")
            .named(
                "delimiter",
                SyntaxShape::String,
                "file delimiter character. CSV file",
                Some('d'),
            )
            .switch("no_header", "Indicates if file doesn't have header. CSV file", None)
            .named(
                "infer_schema",
                SyntaxShape::Number,
                "Set number of row to infer the schema of the file. CSV file",
                None,
            )
            .named(
                "skip_rows",
                SyntaxShape::Number,
                "Number of rows to skip from file. CSV file",
                None,
            )
            .named(
                "columns",
                SyntaxShape::Table,
                "Columns to be selected from csv file. CSV file",
                None,
            )
    }

    fn usage(&self) -> (u: &str) {
        "Loads dataframe form csv file"
    }
}

impl DataFrame {
    /// Command lines that show how the command is used.
    pub fn examples(&self) -> (r: Vec<Example>)
        ensures
            r.len() == 1,
            r[0].description@ == "Takes a file name and creates a dataframe"@
                && r[0].example@ == "pls load test.csv"@
                && r[0].result is None,
    {
        let mut r: Vec<Example> = Vec::new();
        r.push(
            Example {
                description: "Takes a file name and creates a dataframe",
                example: "pls load test.csv",
                result: None,
            },
        );
        r
    }
}

/// The kinds of file that a dataframe is loaded from.
#[derive(Clone, Copy, Debug, PartialEq, Eq, Structural)]
pub enum FileFormat {
    Csv,
    Parquet,
    Json,
}

/// The error for a file whose name has an extension that stands for no kind
/// of file that can be loaded.
pub open spec fn unknown_format(tag: Tag) -> ShellErrorView {
    ShellErrorView::Labeled {
        msg: "Error with file"@,
        label: "Not a csv, parquet or json file"@,
        span: tag.span,
    }
}

/// The error for a file whose name has no extension.
pub open spec fn no_extension(tag: Tag) -> ShellErrorView {
    ShellErrorView::Labeled {
        msg: "Error with file"@,
        label: "File without extension"@,
        span: tag.span,
    }
}

/// The kind of a file, by the extension of its name.
pub open spec fn format_for(extension: Option<Seq<char>>, tag: Tag) -> Result<
    FileFormat,
    ShellErrorView,
> {
    match extension {
        Some(e) => if e == "csv"@ {
            Ok(FileFormat::Csv)
        } else if e == "parquet"@ {
            Ok(FileFormat::Parquet)
        } else if e == "json"@ {
            Ok(FileFormat::Json)
        } else {
            Err(unknown_format(tag))
        },
        None => Err(no_extension(tag)),
    }
}

/// The kind of a file, by the extension of its name; `tag` is the place of
/// the file's name in the source.
pub fn file_format(extension: Option<&str>, tag: Tag) -> (r: Result<FileFormat, ShellError>)
    ensures
        match r {
            Ok(f) => format_for(extension.deep_view(), tag) == Ok::<FileFormat, ShellErrorView>(f),
            Err(e) => format_for(extension.deep_view(), tag) == Err::<FileFormat, ShellErrorView>(
                e.deep_view(),
            ),
        },
{
    match extension {
        Some(e) => {
            assert(extension.deep_view() == Some(e@));
            if same_text(e, "csv") {
                Ok(FileFormat::Csv)
            } else if same_text(e, "parquet") {
                Ok(FileFormat::Parquet)
            } else if same_text(e, "json") {
                Ok(FileFormat::Json)
            } else {
                Err(
                    ShellError::labeled_error(
                        "Error with file",
                        "Not a csv, parquet or json file",
                        tag.span,
                    ),
                )
            }
        },
        None => {
            assert(extension.deep_view() is None);
            Err(ShellError::labeled_error("Error with file", "File without extension", tag.span))
        },
    }
}

/// How a CSV file is read.
#[derive(Debug, PartialEq, Eq)]
pub struct CsvOptions {
    /// The byte between two cells, where it is not the comma.
    pub delimiter: Option<u8>,
    /// Whether the first line holds the names of the columns.
    pub has_header: bool,
    /// The number of rows from which the types of the columns are taken.
    pub infer_schema: Option<usize>,
    /// The number of rows to leave out at the start.
    pub skip_rows: Option<usize>,
    /// The columns to read, where not all are read.
    pub columns: Option<Vec<String>>,
}

/// How a CSV file is read, by what it holds.
pub struct CsvOptionsView {
    pub delimiter: Option<u8>,
    pub has_header: bool,
    pub infer_schema: Option<usize>,
    pub skip_rows: Option<usize>,
    pub columns: Option<Seq<Seq<char>>>,
}

impl DeepView for CsvOptions {
    type V = CsvOptionsView;

    open spec fn deep_view(&self) -> CsvOptionsView {
        CsvOptionsView {
            delimiter: self.delimiter,
            has_header: self.has_header,
            infer_schema: self.infer_schema,
            skip_rows: self.skip_rows,
            columns: match self.columns {
                Some(c) => Some(c.deep_view()),
                None => None,
            },
        }
    }
}

/// The error for a delimiter that is not one byte long.
pub open spec fn bad_delimiter(span: Span) -> ShellErrorView {
    ShellErrorView::Labeled {
        msg: "Incorrect delimiter"@,
        label: "Delimiter has to be one char"@,
        span,
    }
}

/// The error for a column that is not named by a string.
pub open spec fn bad_column(tag: Tag) -> ShellErrorView {
    ShellErrorView::Labeled {
        msg: "Incorrect type for column"@,
        label: "Only string as columns"@,
        span: tag.span,
    }
}

/// The string that a value holds, if it holds one.
pub open spec fn column_name(v: Value) -> Option<Seq<char>> {
    match v.value {
        UntaggedValue::Primitive(Primitive::String(s)) => Some(s@),
        _ => None,
    }
}

/// Index of the first of the first `n` values that is no string; `n` if
/// there is none.
pub open spec fn first_unnamed(values: Seq<Value>, n: int) -> int
    decreases n,
{
    if n <= 0 {
        0
    } else if first_unnamed(values, n - 1) < n - 1 {
        first_unnamed(values, n - 1)
    } else if column_name(values[n - 1]) is None {
        n - 1
    } else {
        n
    }
}

/// The names that the values hold, or an error at the first that is no
/// string.
pub open spec fn column_names(values: Seq<Value>) -> Result<Seq<Seq<char>>, ShellErrorView> {
    let stop = first_unnamed(values, values.len() as int);
    if stop < values.len() {
        Err(bad_column(values[stop].tag))
    } else {
        Ok(Seq::new(values.len(), |i: int| column_name(values[i])->0))
    }
}

/// The byte that a delimiter stands for: the only byte of a string that is
/// one byte long.
pub open spec fn delimiter_byte(d: Spanned<Seq<char>>) -> Result<u8, ShellErrorView> {
    if byte_len(d.item) == 1 {
        Ok(d.item[0] as u8)
    } else {
        Err(bad_delimiter(d.span))
    }
}

/// How a CSV file is read, for the flags of a call: the delimiter, whether
/// `no_header` is set, the two numbers as given, and the names of the
/// columns. The delimiter is looked at before the columns.
pub open spec fn options_for(
    delimiter: Option<Spanned<Seq<char>>>,
    no_header: bool,
    infer_schema: Option<usize>,
    skip_rows: Option<usize>,
    columns: Option<Seq<Value>>,
) -> Result<CsvOptionsView, ShellErrorView> {
    let byte = match delimiter {
        Some(d) => match delimiter_byte(d) {
            Ok(b) => Ok(Some(b)),
            Err(e) => Err(e),
        },
        None => Ok(None),
    };
    let names = match columns {
        Some(c) => match column_names(c) {
            Ok(n) => Ok(Some(n)),
            Err(e) => Err(e),
        },
        None => Ok(None),
    };
    match (byte, names) {
        (Err(e), _) => Err(e),
        (Ok(_), Err(e)) => Err(e),
        (Ok(b), Ok(n)) => Ok(
            CsvOptionsView {
                delimiter: b,
                has_header: !no_header,
                infer_schema,
                skip_rows,
                columns: n,
            },
        ),
    }
}

proof fn lemma_first_unnamed_stays(values: Seq<Value>, n: int, m: int)
    requires
        0 <= n <= m,
        first_unnamed(values, n) < n,
    ensures
        first_unnamed(values, m) == first_unnamed(values, n),
    decreases m - n,
{
    if n < m {
        lemma_first_unnamed_stays(values, n, m - 1);
    }
}

/// The names that the values hold, or an error at the first that is no
/// string.
pub fn names_of(values: &Vec<Value>) -> (r: Result<Vec<String>, ShellError>)
    ensures
        match r {
            Ok(names) => column_names(values@) == Ok::<Seq<Seq<char>>, ShellErrorView>(
                names.deep_view(),
            ),
            Err(e) => column_names(values@) == Err::<Seq<Seq<char>>, ShellErrorView>(
                e.deep_view(),
            ),
        },
{
    let mut names: Vec<String> = Vec::new();
    let mut i: usize = 0;
    while i < values.len()
        invariant
            i <= values.len(),
            names.len() == i,
            first_unnamed(values@, i as int) == i,
            forall|j: int| 0 <= j < i ==> column_name(values@[j]) == Some(#[trigger] names[j]@),
        decreases values.len() - i,
    {
        match &values[i].value {
            UntaggedValue::Primitive(Primitive::String(s)) => {
                names.push(s.clone());
            },
            _ => {
                proof {
                    lemma_first_unnamed_stays(values@, i + 1, values@.len() as int);
                }
                return Err(
                    ShellError::labeled_error(
                        "Incorrect type for column",
                        "Only string as columns",
                        values[i].tag.span,
                    ),
                );
            },
        }
        i += 1;
    }
    assert(names.deep_view() =~= Seq::new(values@.len(), |i: int| column_name(values@[i])->0));
    Ok(names)
}

/// How a CSV file is read, for the flags of a call.
pub fn csv_options(
    delimiter: Option<&Spanned<String>>,
    no_header: bool,
    infer_schema: Option<usize>,
    skip_rows: Option<usize>,
    columns: Option<&Vec<Value>>,
) -> (r: Result<CsvOptions, ShellError>)
    ensures
        match r {
            Ok(o) => options_for(
                delimiter.deep_view(),
                no_header,
                infer_schema,
                skip_rows,
                match columns {
                    Some(c) => Some(c@),
                    None => None,
                },
            ) == Ok::<CsvOptionsView, ShellErrorView>(o.deep_view()),
            Err(e) => options_for(
                delimiter.deep_view(),
                no_header,
                infer_schema,
                skip_rows,
                match columns {
                    Some(c) => Some(c@),
                    None => None,
                },
            ) == Err::<CsvOptionsView, ShellErrorView>(e.deep_view()),
        },
{
    let byte = match delimiter {
        Some(d) => {
            assert(delimiter.deep_view() == Some(d.deep_view()));
            if byte_length(d.item.as_str()) != 1 {
                return Err(
                    ShellError::labeled_error(
                        "Incorrect delimiter",
                        "Delimiter has to be one char",
                        d.span,
                    ),
                );
            }
            let chars = chars_of(d.item.as_str());
            proof {
                lemma_byte_len_bounds(d.item@);
                assert(d.item@.len() == 1) by {
                    if d.item@.len() == 0 {
                        assert(byte_len(d.item@) == 0);
                    }
                }
                assert(d.item@.drop_last() =~= Seq::<char>::empty());
                assert(byte_len(d.item@.drop_last()) == 0);
                assert(char_width(d.item@[0]) == 1);
            }
            let c = chars[0];
            Some(c as u8)
        },
        None => {
            assert(delimiter.deep_view() is None);
            None
        },
    };
    let names = match columns {
        Some(c) => match names_of(c) {
            Ok(n) => Some(n),
            Err(e) => {
                return Err(e);
            },
        },
        None => None,
    };
    Ok(CsvOptions { delimiter: byte, has_header: !no_header, infer_schema, skip_rows, columns: names })
}

} // verus!
