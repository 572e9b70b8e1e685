//! The `to md` command: lays out a table as Markdown.

use crate::command::{Example, WholeStreamCommand};
use crate::signature::{NamedType, Signature, SignatureView};
use crate::text::{
    byte_len, byte_length, decimal, decimal_of, digits_of, repeat_char, repeated, same_text,
    string_of,
};
use crate::span::Tag;
use crate::value::{
    cell, lemma_row_view, Primitive, PrimitiveView, UntaggedValue, UntaggedValueView, Value,
    ValueView,
};
use vstd::string::StringExecFns;
use vstd::prelude::*;

verus! {

/// The `to md` command.
pub struct ToMarkdown;

/// The arguments of `to md`.
#[derive(Debug, PartialEq, Eq)]
pub struct ToMarkdownArgs {
    /// Whether the columns are padded so that they line up.
    pub pretty: bool,
}

impl WholeStreamCommand for ToMarkdown {
    open spec fn spec_name(&self) -> Seq<char> {
        "to md"@
    }

    open spec fn spec_usage(&self) -> Seq<char> {
        "Convert table into simple Markdown"@
    }

    open spec fn spec_signature(&self) -> SignatureView {
        SignatureView::new("to md"@)
            .with_named(
                "pretty"@,
                NamedType::Switch(Some('p')),
                "Formats the Markdown table to vertically align items"@,
            )
    }

    fn name(&self) -> (n: &str) {
        "to md"
    }

    fn signature(&self) -> (s: Signature) {
        Signature::build("to md")
            .switch("pretty", "Formats the Markdown table to vertically align items", Some('p'))
    }

    fn usage(&self) -> (u: &str) {
        "Convert table into simple Markdown"
    }
}

impl ToMarkdown {
    /// Command lines that show how the command is used.
    pub fn examples(&self) -> (r: Vec<Example>)
        ensures
            r.len() == 2,
            r[0].description@ == "Outputs an unformatted md string representing the contents of ls"@
                && r[0].example@ == "ls | to md"@
                && r[0].result is None,
            r[1].description@ == "Outputs a formatted md string representing the contents of ls"@
                && r[1].example@ == "ls | to md -p"@
                && r[1].result is None,
    {
        let mut r: Vec<Example> = Vec::new();
        r.push(
            Example {
                description: "Outputs an unformatted md string representing the contents of ls",
                example: "ls | to md",
                result: None,
            },
        );
        r.push(
            Example {
                description: "Outputs a formatted md string representing the contents of ls",
                example: "ls | to md -p",
                result: None,
            },
        );
        r
    }
}

/// What stands for the character `c` in HTML text.
pub open spec fn entity(c: char) -> Seq<char> {
    if c == '"' {
        seq!['&', 'q', 'u', 'o', 't', ';']
    } else if c == '&' {
        seq!['&', 'a', 'm', 'p', ';']
    } else if c == '\'' {
        seq!['&', '#', 'x', '2', '7', ';']
    } else if c == '<' {
        seq!['&', 'l', 't', ';']
    } else if c == '>' {
        seq!['&', 'g', 't', ';']
    } else {
        seq![c]
    }
}

/// `s` with `"`, `&`, `'`, `<` and `>` replaced by their entities.
pub open spec fn escaped(s: Seq<char>) -> Seq<char>
    decreases s.len(),
{
    if s.len() == 0 {
        Seq::empty()
    } else {
        escaped(s.drop_last()) + entity(s.last())
    }
}

/// `htmlescape::encode_minimal`: the text with each of the characters `"`,
/// `&`, `'`, `<` and `>` replaced by its entity (`&quot;`, `&amp;`, `&#x27;`,
/// `&lt;`, `&gt;`), and every other character as it is.
#[verifier::external_body]
fn encode_minimal(s: &str) -> (r: String)
    ensures
        r@ == escaped(s@),
{
    htmlescape::encode_minimal(s)
}

/// The names of the columns of a value: those of its cells if it is a row,
/// none otherwise.
pub open spec fn descriptors(v: ValueView) -> Seq<Seq<char>> {
    match v.value {
        UntaggedValueView::Row(entries) => Seq::new(entries.len(), |i: int| entries[i].0),
        _ => Seq::empty(),
    }
}

/// `names` with `name` added behind, unless it is among them.
pub open spec fn add_one(names: Seq<Seq<char>>, name: Seq<char>) -> Seq<Seq<char>> {
    if names.contains(name) {
        names
    } else {
        names.push(name)
    }
}

/// `names` with those of `more` added that it lacks, in their order.
pub open spec fn add_missing(names: Seq<Seq<char>>, more: Seq<Seq<char>>) -> Seq<Seq<char>>
    decreases more.len(),
{
    if more.len() == 0 {
        names
    } else {
        add_one(add_missing(names, more.drop_last()), more.last())
    }
}

/// The columns of a value, where a value without columns counts as one with
/// the single column that has the empty name.
pub open spec fn columns_of(v: ValueView) -> Seq<Seq<char>> {
    if descriptors(v).len() == 0 {
        seq![Seq::<char>::empty()]
    } else {
        descriptors(v)
    }
}

/// The names of the columns of all the values, each once, in the order in
/// which they first appear.
pub open spec fn merged_descriptors(values: Seq<ValueView>) -> Seq<Seq<char>>
    decreases values.len(),
{
    if values.len() == 0 {
        Seq::empty()
    } else {
        add_missing(merged_descriptors(values.drop_last()), columns_of(values.last()))
    }
}

fn has_name(names: &Vec<String>, name: &str) -> (b: bool)
    ensures
        b == names.deep_view().contains(name@),
{
    let mut i: usize = 0;
    while i < names.len()
        invariant
            i <= names.len(),
            forall|j: int| 0 <= j < i ==> names.deep_view()[j] != name@,
        decreases names.len() - i,
    {
        assert(names.deep_view()[i as int] == names@[i as int]@);
        if same_text(names[i].as_str(), name) {
            return true;
        }
        i += 1;
    }
    false
}

fn add_name(names: &mut Vec<String>, name: &str)
    ensures
        final(names).deep_view() == add_one(old(names).deep_view(), name@),
{
    let ghost before = names.deep_view();
    if !has_name(names, name) {
        names.push(name.to_owned());
        assert(names.deep_view() =~= before.push(name@));
    }
}

/// The names of the columns of all the values, each once, in the order in
/// which they first appear. A value that is no row counts as one with the
/// single column that has the empty name.
pub fn merge_descriptors(values: &Vec<Value>) -> (ret: Vec<String>)
    ensures
        ret.deep_view() == merged_descriptors(values.deep_view()),
{
    let mut ret: Vec<String> = Vec::new();
    let ghost all = values.deep_view();
    let mut i: usize = 0;
    assert(ret.deep_view() =~= Seq::<Seq<char>>::empty());
    assert(all.take(0) =~= Seq::<ValueView>::empty());
    while i < values.len()
        invariant
            i <= values.len(),
            all == values.deep_view(),
            ret.deep_view() == merged_descriptors(all.take(i as int)),
        decreases values.len() - i,
    {
        let ghost v = all[i as int];
        assert(v == values@[i as int].deep_view());
        assert(all.take(i + 1).drop_last() =~= all.take(i as int));
        let ghost start = ret.deep_view();
        match &values[i].value {
            UntaggedValue::Row(d) => {
                proof {
                    lemma_row_view(*d, values@[i as int].tag);
                }
                if d.entries.len() == 0 {
                    add_name(&mut ret, "");
                    assert(""@ =~= Seq::<char>::empty()) by {
                        reveal_strlit("");
                    }
                    assert(columns_of(v) =~= seq![Seq::<char>::empty()]);
                    assert(columns_of(v).drop_last() =~= Seq::<Seq<char>>::empty());
                    assert(add_missing(start, columns_of(v)) == add_one(
                        add_missing(start, columns_of(v).drop_last()),
                        columns_of(v).last(),
                    ));
                } else {
                    let ghost cols = columns_of(v);
                    let mut k: usize = 0;
                    assert(cols.take(0) =~= Seq::<Seq<char>>::empty());
                    while k < d.entries.len()
                        invariant
                            k <= d.entries.len(),
                            cols == columns_of(v),
                            cols.len() == d.entries.len(),
                            forall|j: int| 0 <= j < cols.len() ==> cols[j] == d.entries@[j].0@,
                            ret.deep_view() == add_missing(start, cols.take(k as int)),
                        decreases d.entries.len() - k,
                    {
                        add_name(&mut ret, d.entries[k].0.as_str());
                        assert(cols.take(k + 1).drop_last() =~= cols.take(k as int));
                        assert(cols.take(k + 1).last() == cols[k as int]);
                        k += 1;
                    }
                    assert(cols.take(d.entries.len() as int) =~= cols);
                }
            },
            _ => {
                add_name(&mut ret, "");
                assert(""@ =~= Seq::<char>::empty()) by {
                    reveal_strlit("");
                }
                assert(columns_of(v) =~= seq![Seq::<char>::empty()]);
                assert(columns_of(v).drop_last() =~= Seq::<Seq<char>>::empty());
                assert(add_missing(start, columns_of(v)) == add_one(
                    add_missing(start, columns_of(v).drop_last()),
                    columns_of(v).last(),
                ));
            },
        }
        i += 1;
    }
    assert(all.take(values.len() as int) =~= all);
    ret
}

/// The text that stands for a value in a cell.
pub open spec fn plain(v: ValueView) -> Seq<char> {
    match v.value {
        UntaggedValueView::Primitive(p) => match p {
            PrimitiveView::Nothing => Seq::empty(),
            PrimitiveView::Int(i) => decimal(i as int),
            PrimitiveView::Decimal(d) => decimal(d.unscaled as int) + seq!['e', '-'] + decimal(
                d.scale as int,
            ),
            PrimitiveView::Filesize(n) => decimal(n as int),
            PrimitiveView::String(s) => s,
            PrimitiveView::Line(s) => s,
            PrimitiveView::Pattern(s) => s,
            PrimitiveView::Boolean(b) => if b {
                seq!['Y', 'e', 's']
            } else {
                seq!['N', 'o']
            },
            PrimitiveView::Path(s) => s,
            PrimitiveView::Binary(_) => seq!['<', 'b', 'i', 'n', 'a', 'r', 'y', '>'],
            PrimitiveView::BeginningOfStream => Seq::empty(),
            PrimitiveView::EndOfStream => Seq::empty(),
        },
        UntaggedValueView::Row(_) => seq!['[', 'r', 'o', 'w', ']'],
        UntaggedValueView::Table(_) => seq!['[', 't', 'a', 'b', 'l', 'e', ']'],
        UntaggedValueView::Error(_) => seq!['[', 'e', 'r', 'r', 'o', 'r', ']'],
    }
}

fn text_of(cs: Vec<char>) -> (s: String)
    ensures
        s@ == cs@,
{
    string_of(&cs)
}

/// The text that stands for a value in a cell.
pub fn plain_string(v: &Value) -> (s: String)
    ensures
        s@ == plain(v.deep_view()),
{
    match &v.value {
        UntaggedValue::Primitive(p) => match p {
            Primitive::Nothing => String::new(),
            Primitive::Int(i) => decimal_of(*i),
            Primitive::Decimal(d) => {
                let mut s = decimal_of(d.unscaled);
                s.push('e');
                s.push('-');
                let scale = decimal_of(d.scale as i64);
                s.append(scale.as_str());
                assert(s@ =~= decimal(d.unscaled as int) + seq!['e', '-'] + decimal(d.scale as int));
                s
            },
            Primitive::Filesize(n) => {
                let ds = digits_of(*n);
                string_of(&ds)
            },
            Primitive::String(s) => s.clone(),
            Primitive::Line(s) => s.clone(),
            Primitive::Pattern(s) => s.clone(),
            Primitive::Boolean(b) => {
                let mut s = String::new();
                if *b {
                    s.push('Y');
                    s.push('e');
                    s.push('s');
                    assert(s@ =~= seq!['Y', 'e', 's']);
                } else {
                    s.push('N');
                    s.push('o');
                    assert(s@ =~= seq!['N', 'o']);
                }
                s
            },
            Primitive::Path(s) => s.clone(),
            Primitive::Binary(_) => {
                let s = text_of(vec!['<', 'b', 'i', 'n', 'a', 'r', 'y', '>']);
                assert(s@ =~= seq!['<', 'b', 'i', 'n', 'a', 'r', 'y', '>']);
                s
            },
            Primitive::BeginningOfStream => String::new(),
            Primitive::EndOfStream => String::new(),
        },
        UntaggedValue::Row(_) => {
            let s = text_of(vec!['[', 'r', 'o', 'w', ']']);
            assert(s@ =~= seq!['[', 'r', 'o', 'w', ']']);
            s
        },
        UntaggedValue::Table(_) => {
            let s = text_of(vec!['[', 't', 'a', 'b', 'l', 'e', ']']);
            assert(s@ =~= seq!['[', 't', 'a', 'b', 'l', 'e', ']']);
            s
        },
        UntaggedValue::Error(_) => {
            let s = text_of(vec!['[', 'e', 'r', 'r', 'o', 'r', ']']);
            assert(s@ =~= seq!['[', 'e', 'r', 'r', 'o', 'r', ']']);
            s
        },
    }
}

/// `text` filled up to `width` bytes with the character `pad`.
pub open spec fn padded(text: Seq<char>, width: int, pad: char) -> Seq<char> {
    text + repeated(pad, width - byte_len(text))
}

/// `text` filled up to `desired_length` bytes with `padding_character`. The
/// text must not be longer than that.
pub fn get_padded_string(text: String, desired_length: usize, padding_character: char) -> (r:
    String)
    requires
        byte_len(text@) <= desired_length,
    ensures
        r@ == padded(text@, desired_length as int, padding_character),
{
    let len = byte_length(text.as_str());
    let fill = repeat_char(padding_character, desired_length - len);
    let mut r = text;
    r.append(fill.as_str());
    r
}

/// A cell of the table: in pretty form the text filled up to the width of the
/// column, with a blank on either side; else the text alone.
pub open spec fn cell_text(text: Seq<char>, width: int, pad: char, pretty: bool) -> Seq<char> {
    if pretty {
        seq![' '] + padded(text, width, pad) + seq![' ']
    } else {
        text
    }
}

/// The first `n` cells of a line, each followed by `|`.
pub open spec fn cells_line(
    cells: Seq<Seq<char>>,
    widths: Seq<usize>,
    pad: char,
    pretty: bool,
    n: int,
) -> Seq<char>
    decreases n,
{
    if n <= 0 {
        Seq::empty()
    } else {
        cells_line(cells, widths, pad, pretty, n - 1) + cell_text(
            cells[n - 1],
            widths[n - 1] as int,
            pad,
            pretty,
        ) + seq!['|']
    }
}

/// The first `n` cells of the line that separates the headers from the rows.
pub open spec fn rule_line(widths: Seq<usize>, pretty: bool, n: int) -> Seq<char>
    decreases n,
{
    if n <= 0 {
        Seq::empty()
    } else {
        rule_line(widths, pretty, n - 1) + cell_text(seq!['-'], widths[n - 1] as int, '-', pretty)
            + seq!['|']
    }
}

/// The lines of the first `n` rows, each with the cells of the first
/// `columns` columns.
pub open spec fn row_lines(
    rows: Seq<Seq<Seq<char>>>,
    widths: Seq<usize>,
    pretty: bool,
    columns: int,
    n: int,
) -> Seq<char>
    decreases n,
{
    if n <= 0 {
        Seq::empty()
    } else {
        row_lines(rows, widths, pretty, columns, n - 1) + seq!['|'] + cells_line(
            rows[n - 1],
            widths,
            ' ',
            pretty,
            columns,
        ) + seq!['\n']
    }
}

/// The Markdown table with the given headers and rows.
pub open spec fn output_string(
    headers: Seq<Seq<char>>,
    rows: Seq<Seq<Seq<char>>>,
    widths: Seq<usize>,
    pretty: bool,
) -> Seq<char> {
    let n = headers.len() as int;
    let head = if n > 0 {
        seq!['|'] + cells_line(headers, widths, ' ', pretty, n) + seq!['\n', '|'] + rule_line(
            widths,
            pretty,
            n,
        ) + seq!['\n']
    } else {
        Seq::empty()
    };
    head + row_lines(rows, widths, pretty, n, rows.len() as int)
}

/// Whether the cells and widths are such that the table can be laid out:
/// every row has a cell for every header and, in pretty form, every column
/// has a width of at least one byte that no cell of it exceeds.
pub open spec fn lays_out(
    headers: Seq<Seq<char>>,
    rows: Seq<Seq<Seq<char>>>,
    widths: Seq<usize>,
    pretty: bool,
) -> bool {
    &&& forall|r: int| 0 <= r < rows.len() ==> (#[trigger] rows[r]).len() >= headers.len()
    &&& pretty ==> {
        &&& widths.len() >= headers.len()
        &&& forall|i: int|
            0 <= i < headers.len() ==> 1 <= #[trigger] widths[i] && byte_len(headers[i])
                <= widths[i]
        &&& forall|r: int, i: int|
            0 <= r < rows.len() && 0 <= i < headers.len() ==> byte_len(#[trigger] rows[r][i])
                <= widths[i]
    }
}

fn push_cell(out: &mut String, text: &str, width: usize, pad: char, pretty: bool)
    requires
        pretty ==> byte_len(text@) <= width,
    ensures
        final(out)@ == old(out)@ + cell_text(text@, width as int, pad, pretty) + seq!['|'],
{
    let ghost before = out@;
    if pretty {
        out.push(' ');
        let p = get_padded_string(text.to_owned(), width, pad);
        out.append(p.as_str());
        out.push(' ');
    } else {
        out.append(text);
    }
    out.push('|');
    assert(out@ =~= before + cell_text(text@, width as int, pad, pretty) + seq!['|']);
}

fn push_cells(out: &mut String, cells: &Vec<String>, widths: &Vec<usize>, pretty: bool, n: usize)
    requires
        n <= cells.len(),
        pretty ==> n <= widths.len(),
        pretty ==> forall|i: int| 0 <= i < n ==> byte_len(#[trigger] cells.deep_view()[i]) <= widths[i],
    ensures
        final(out)@ == old(out)@ + cells_line(cells.deep_view(), widths@, ' ', pretty, n as int),
{
    let ghost before = out@;
    let mut i: usize = 0;
    assert(out@ =~= before + cells_line(cells.deep_view(), widths@, ' ', pretty, 0));
    while i < n
        invariant
            i <= n <= cells.len(),
            pretty ==> n <= widths.len(),
            pretty ==> forall|j: int|
                0 <= j < n ==> byte_len(#[trigger] cells.deep_view()[j]) <= widths[j],
            out@ == before + cells_line(cells.deep_view(), widths@, ' ', pretty, i as int),
        decreases n - i,
    {
        let ghost so_far = out@;
        assert(cells.deep_view()[i as int] == cells@[i as int]@);
        let width = if pretty {
            widths[i]
        } else {
            0
        };
        push_cell(out, cells[i].as_str(), width, ' ', pretty);
        assert(cell_text(cells@[i as int]@, width as int, ' ', pretty) == cell_text(
            cells.deep_view()[i as int],
            widths@[i as int] as int,
            ' ',
            pretty,
        ));
        assert(out@ =~= before + cells_line(cells.deep_view(), widths@, ' ', pretty, i + 1));
        i += 1;
    }
}

/// Lays out the Markdown table with the given headers and rows: the line of
/// the headers and the line that separates them from the rows, if there are
/// headers, and then one line for each row.
pub fn get_output_string(
    headers: &Vec<String>,
    rows: &Vec<Vec<String>>,
    column_width_vector: &Vec<usize>,
    pretty: bool,
) -> (output_string: String)
    requires
        lays_out(headers.deep_view(), rows.deep_view(), column_width_vector@, pretty),
    ensures
        output_string@ == self::output_string(
            headers.deep_view(),
            rows.deep_view(),
            column_width_vector@,
            pretty,
        ),
{
    let mut out = String::new();
    let ghost hs = headers.deep_view();
    let ghost rs = rows.deep_view();
    let ghost ws = column_width_vector@;
    let n = headers.len();
    if n > 0 {
        out.push('|');
        push_cells(&mut out, headers, column_width_vector, pretty, n);
        out.push('\n');
        out.push('|');
        let ghost start = out@;
        let mut i: usize = 0;
        assert(out@ =~= start + rule_line(ws, pretty, 0));
        while i < n
            invariant
                i <= n,
                n == headers.len(),
                lays_out(hs, rs, ws, pretty),
                hs == headers.deep_view(),
                ws == column_width_vector@,
                out@ == start + rule_line(ws, pretty, i as int),
            decreases n - i,
        {
            let width = if pretty {
                assert(1 <= ws[i as int]);
                column_width_vector[i]
            } else {
                0
            };
            assert(byte_len(seq!['-']) == 1) by {
                assert(seq!['-'].drop_last() =~= Seq::<char>::empty());
                assert(byte_len(Seq::<char>::empty()) == 0);
            }
            let mut dash = String::new();
            dash.push('-');
            assert(dash@ =~= seq!['-']);
            push_cell(&mut out, dash.as_str(), width, '-', pretty);
            assert(out@ =~= start + rule_line(ws, pretty, i + 1));
            i += 1;
        }
        out.push('\n');
        assert(out@ =~= seq!['|'] + cells_line(hs, ws, ' ', pretty, n as int) + seq!['\n', '|']
            + rule_line(ws, pretty, n as int) + seq!['\n']);
    } else {
        assert(out@ =~= Seq::<char>::empty());
    }
    let ghost head = out@;
    let mut r: usize = 0;
    assert(out@ =~= head + row_lines(rs, ws, pretty, n as int, 0));
    while r < rows.len()
        invariant
            r <= rows.len(),
            n == headers.len(),
            lays_out(hs, rs, ws, pretty),
            hs == headers.deep_view(),
            rs == rows.deep_view(),
            ws == column_width_vector@,
            out@ == head + row_lines(rs, ws, pretty, n as int, r as int),
        decreases rows.len() - r,
    {
        let ghost so_far = out@;
        let row = &rows[r];
        assert(rs[r as int] == row.deep_view());
        assert(rs[r as int].len() >= hs.len());
        out.push('|');
        push_cells(&mut out, row, column_width_vector, pretty, n);
        out.push('\n');
        assert(out@ =~= head + row_lines(rs, ws, pretty, n as int, r + 1));
        r += 1;
    }
    out
}

/// Whether the names of the columns are shown: there is more than one, or
/// the only one is not the empty name.
pub open spec fn shows_headers(headers: Seq<Seq<char>>) -> bool {
    headers.len() > 0 && (headers.len() > 1 || headers[0].len() != 0)
}

/// The headers of the table: the names of the columns with the characters
/// that Markdown takes for markup replaced, or none if the names are not
/// shown.
pub open spec fn shown_headers(headers: Seq<Seq<char>>) -> Seq<Seq<char>> {
    if shows_headers(headers) {
        Seq::new(headers.len(), |i: int| escaped(headers[i]))
    } else {
        Seq::empty()
    }
}

/// The text of the cell of the row `v` in the column `header`; the empty text
/// if the row has no such cell.
pub open spec fn cell_of(v: ValueView, header: Seq<char>) -> Seq<char> {
    match v.value {
        UntaggedValueView::Row(entries) => match cell(entries, header) {
            Some(c) => plain(c),
            None => Seq::empty(),
        },
        _ => Seq::empty(),
    }
}

/// The texts of the cells of the row `v`, one for each column.
pub open spec fn row_of(v: ValueView, headers: Seq<Seq<char>>) -> Seq<Seq<char>> {
    Seq::new(headers.len(), |i: int| cell_of(v, headers[i]))
}

/// The rows of the table: one for each value that is a row, in their order.
pub open spec fn rows_of(values: Seq<ValueView>, headers: Seq<Seq<char>>) -> Seq<Seq<Seq<char>>>
    decreases values.len(),
{
    if values.len() == 0 {
        Seq::empty()
    } else {
        let prev = rows_of(values.drop_last(), headers);
        if values.last().value is Row {
            prev.push(row_of(values.last(), headers))
        } else {
            prev
        }
    }
}

/// The greatest of `base` and the numbers of bytes of the cells of column `i`
/// in the first `n` rows.
pub open spec fn widest(base: int, rows: Seq<Seq<Seq<char>>>, i: int, n: int) -> int
    decreases n,
{
    if n <= 0 {
        base
    } else {
        let w = widest(base, rows, i, n - 1);
        let l = byte_len(rows[n - 1][i]);
        if w < l {
            l
        } else {
            w
        }
    }
}

/// The least width of column `i`: the number of bytes of its header, if it is
/// shown, and at least one.
pub open spec fn base_width(shown: Seq<Seq<char>>, i: int) -> int {
    let b = if 0 <= i < shown.len() {
        byte_len(shown[i])
    } else {
        0
    };
    if b < 1 {
        1
    } else {
        b
    }
}

/// The widths of the columns: each as wide as its widest cell and its header,
/// and at least one byte wide.
pub open spec fn column_widths(shown: Seq<Seq<char>>, rows: Seq<Seq<Seq<char>>>, count: nat) -> Seq<
    usize,
> {
    Seq::new(count, |i: int| widest(base_width(shown, i), rows, i, rows.len() as int) as usize)
}

/// The Markdown text for the values `values`.
pub open spec fn markdown(pretty: bool, values: Seq<ValueView>) -> Seq<char> {
    let headers = merged_descriptors(values);
    let shown = shown_headers(headers);
    let rows = rows_of(values, headers);
    output_string(shown, rows, column_widths(shown, rows, headers.len()), pretty)
}

proof fn lemma_widest(base: int, rows: Seq<Seq<Seq<char>>>, i: int, n: int)
    requires
        0 <= n,
    ensures
        base <= widest(base, rows, i, n),
        forall|k: int| 0 <= k < n ==> byte_len(#[trigger] rows[k][i]) <= widest(base, rows, i, n),
    decreases n,
{
    if n > 0 {
        lemma_widest(base, rows, i, n - 1);
    }
}

proof fn lemma_widest_prefix(
    base: int,
    rows: Seq<Seq<Seq<char>>>,
    more: Seq<Seq<Seq<char>>>,
    i: int,
    n: int,
)
    requires
        0 <= n <= rows.len() <= more.len(),
        forall|k: int| 0 <= k < rows.len() ==> rows[k] == more[k],
    ensures
        widest(base, more, i, n) == widest(base, rows, i, n),
    decreases n,
{
    if n > 0 {
        lemma_widest_prefix(base, rows, more, i, n - 1);
    }
}

/// The texts of the cells of `row`, one for each header.
fn cells_of_row(row: &Value, headers: &Vec<String>) -> (cells: Vec<String>)
    ensures
        cells.deep_view() == row_of(row.deep_view(), headers.deep_view()),
{
    let mut cells: Vec<String> = Vec::new();
    let ghost hs = headers.deep_view();
    let mut i: usize = 0;
    assert(cells.deep_view() =~= row_of(row.deep_view(), hs).take(0));
    while i < headers.len()
        invariant
            i <= headers.len(),
            hs == headers.deep_view(),
            cells.deep_view() == row_of(row.deep_view(), hs).take(i as int),
        decreases headers.len() - i,
    {
        let ghost before = cells.deep_view();
        assert(hs[i as int] == headers@[i as int]@);
        let text = match &row.value {
            UntaggedValue::Row(d) => {
                proof {
                    lemma_row_view(*d, row.tag);
                }
                match d.get_data(headers[i].as_str()) {
                    Some(v) => plain_string(v),
                    None => String::new(),
                }
            },
            _ => String::new(),
        };
        assert(text@ == cell_of(row.deep_view(), hs[i as int]));
        cells.push(text);
        assert(cells.deep_view() =~= before.push(text@));
        assert(cells.deep_view() =~= row_of(row.deep_view(), hs).take(i + 1));
        i += 1;
    }
    assert(row_of(row.deep_view(), hs).take(headers.len() as int) =~= row_of(row.deep_view(), hs));
    cells
}

/// The values of the input as a Markdown table, in one string with the tag
/// `name_tag`. Values that are no rows give no line.
pub fn to_md(args: ToMarkdownArgs, input: &Vec<Value>, name_tag: Tag) -> (out: Value)
    ensures
        out.deep_view() == (ValueView {
            value: UntaggedValueView::Primitive(
                PrimitiveView::String(markdown(args.pretty, input.deep_view())),
            ),
            tag: name_tag,
        }),
{
    let headers = merge_descriptors(input);
    let ghost hs = headers.deep_view();
    let ghost values = input.deep_view();
    let shows = headers.len() > 0 && (headers.len() > 1 || !headers[0].as_str().is_empty());
    assert(headers.len() > 0 ==> hs[0] == headers@[0]@);
    assert(shows == shows_headers(hs));
    let ghost shown = shown_headers(hs);

    let mut escaped_headers: Vec<String> = Vec::new();
    let mut column_width_vector: Vec<usize> = Vec::new();
    let ghost no_rows = Seq::<Seq<Seq<char>>>::empty();
    let mut i: usize = 0;
    assert(escaped_headers.deep_view() =~= Seq::<Seq<char>>::empty());
    while i < headers.len()
        invariant
            i <= headers.len(),
            hs == headers.deep_view(),
            shown == shown_headers(hs),
            shows == shows_headers(hs),
            column_width_vector.len() == i,
            shows ==> escaped_headers.deep_view() == shown.take(i as int),
            !shows ==> escaped_headers.deep_view() == Seq::<Seq<char>>::empty(),
            forall|j: int| 0 <= j < i ==> #[trigger] column_width_vector@[j] == base_width(shown, j),
        decreases headers.len() - i,
    {
        let mut width: usize = 0;
        if shows {
            let ghost before = escaped_headers.deep_view();
            assert(hs[i as int] == headers@[i as int]@);
            let escaped_header_string = encode_minimal(headers[i].as_str());
            width = byte_length(escaped_header_string.as_str());
            escaped_headers.push(escaped_header_string);
            assert(escaped_headers.deep_view() =~= before.push(shown[i as int]));
            assert(escaped_headers.deep_view() =~= shown.take(i + 1));
        }
        if width < 1 {
            width = 1;
        }
        column_width_vector.push(width);
        i += 1;
    }
    assert(shows ==> shown.take(headers.len() as int) =~= shown);
    assert(escaped_headers.deep_view() == shown);

    let mut escaped_rows: Vec<Vec<String>> = Vec::new();
    let count = headers.len();
    let mut r: usize = 0;
    assert(escaped_rows.deep_view() =~= no_rows);
    assert(values.take(0) =~= Seq::<ValueView>::empty());
    while r < input.len()
        invariant
            r <= input.len(),
            values == input.deep_view(),
            hs == headers.deep_view(),
            count == headers.len(),
            column_width_vector.len() == count,
            escaped_rows.deep_view() == rows_of(values.take(r as int), hs),
            forall|j: int|
                0 <= j < count ==> #[trigger] column_width_vector@[j] == widest(
                    base_width(shown, j),
                    escaped_rows.deep_view(),
                    j,
                    escaped_rows.len() as int,
                ),
        decreases input.len() - r,
    {
        let row = &input[r];
        assert(values[r as int] == row.deep_view());
        assert(values.take(r + 1).drop_last() =~= values.take(r as int));
        if row.is_row() {
            let ghost rows_before = escaped_rows.deep_view();
            let cells = cells_of_row(row, &headers);
            let ghost cv = cells.deep_view();
            assert(cv.len() == hs.len());
            assert(cells.len() == count);
            let mut j: usize = 0;
            let ghost n = escaped_rows.len() as int;
            let ghost rows_after = rows_before.push(cv);
            while j < count
                invariant
                    j <= count,
                    count == headers.len(),
                    cells.len() == count,
                    cv == cells.deep_view(),
                    column_width_vector.len() == count,
                    rows_after == rows_before.push(cv),
                    n == rows_before.len(),
                    forall|k: int|
                        0 <= k < j ==> #[trigger] column_width_vector@[k] == widest(
                            base_width(shown, k),
                            rows_after,
                            k,
                            n + 1,
                        ),
                    forall|k: int|
                        j <= k < count ==> #[trigger] column_width_vector@[k] == widest(
                            base_width(shown, k),
                            rows_before,
                            k,
                            n,
                        ),
                decreases count - j,
            {
                assert(cv[j as int] == cells@[j as int]@);
                let new_column_width = byte_length(cells[j].as_str());
                proof {
                    lemma_widest_prefix(base_width(shown, j as int), rows_before, rows_after, j as int, n);
                    assert(rows_after[n][j as int] == cv[j as int]);
                }
                if column_width_vector[j] < new_column_width {
                    column_width_vector.set(j, new_column_width);
                }
                j += 1;
            }
            escaped_rows.push(cells);
            assert(escaped_rows.deep_view() =~= rows_after);
        }
        r += 1;
    }
    assert(values.take(input.len() as int) =~= values);
    let ghost rows = escaped_rows.deep_view();
    assert(column_width_vector@ =~= column_widths(shown, rows, hs.len()));
    proof {
        assert forall|k: int| 0 <= k < rows.len() implies (#[trigger] rows[k]).len()
            >= shown.len() by {
            lemma_rows_width(values, hs, k);
        }
        if args.pretty {
            assert forall|i: int| 0 <= i < shown.len() implies 1 <= #[trigger] column_width_vector@[i]
                && byte_len(shown[i]) <= column_width_vector@[i] by {
                lemma_widest(base_width(shown, i), rows, i, rows.len() as int);
            }
            assert forall|k: int, i: int|
                0 <= k < rows.len() && 0 <= i < shown.len() implies byte_len(#[trigger] rows[k][i])
                <= column_width_vector@[i] by {
                lemma_widest(base_width(shown, i), rows, i, rows.len() as int);
            }
        }
    }
    let output_string = get_output_string(
        &escaped_headers,
        &escaped_rows,
        &column_width_vector,
        args.pretty,
    );
    let out = UntaggedValue::string(output_string.as_str()).into_value(name_tag);
    assert(out.deep_view().value == out.value.deep_view());
    out
}

/// Every row of the table has a cell for every column.
proof fn lemma_rows_width(values: Seq<ValueView>, headers: Seq<Seq<char>>, k: int)
    requires
        0 <= k < rows_of(values, headers).len(),
    ensures
        rows_of(values, headers)[k].len() == headers.len(),
    decreases values.len(),
{
    if values.len() > 0 {
        let prev = rows_of(values.drop_last(), headers);
        if k < prev.len() {
            lemma_rows_width(values.drop_last(), headers, k);
        }
    }
}

} // verus!
