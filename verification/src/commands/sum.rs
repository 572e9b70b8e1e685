//! The `sum` command: the total of the values, or of each column.

use crate::command::{Example, WholeStreamCommand};
use crate::signature::{Signature, SignatureView};
use crate::commands::to_md::{add_missing, descriptors};
use crate::errors::{ShellError, ShellErrorView};
use crate::span::Tag;
use crate::value::{
    cell, int_view, lemma_row_view, Dictionary, Primitive, PrimitiveView, UntaggedValue,
    UntaggedValueView, Value, ValueView,
};
use vstd::prelude::*;

verus! {

/// The `sum` command.
pub struct Sum;

impl WholeStreamCommand for Sum {
    open spec fn spec_name(&self) -> Seq<char> {
        "sum"@
    }

    open spec fn spec_usage(&self) -> Seq<char> {
        "Sums the values."@
    }

    open spec fn spec_signature(&self) -> SignatureView {
        SignatureView::new("sum"@)
    }

    fn name(&self) -> (n: &str) {
        "sum"
    }

    fn signature(&self) -> (s: Signature) {
        Signature::build("sum")
    }

    fn usage(&self) -> (u: &str) {
        "Sums the values."
    }
}

impl Sum {
    /// Command lines that show how the command is used.
    pub fn examples(&self) -> (r: Vec<Example>)
        ensures
            r.len() == 2,
            r[0].description@ == "Sum a list of numbers"@
                && r[0].example@ == "echo [1 2 3] | sum"@
                && r[0].result is None,
            r[1].description@ == "Get the disk usage for the current directory"@
                && r[1].example@ == "ls --all --du | get size | sum"@
                && r[1].result is None,
    {
        let mut r: Vec<Example> = Vec::new();
        r.push(
            Example {
                description: "Sum a list of numbers",
                example: "echo [1 2 3] | sum",
                result: None,
            },
        );
        r.push(
            Example {
                description: "Get the disk usage for the current directory",
                example: "ls --all --du | get size | sum",
                result: None,
            },
        );
        r
    }
}

/// The whole number that a value holds, if it holds one.
pub open spec fn whole(v: ValueView) -> Option<int> {
    match v.value {
        UntaggedValueView::Primitive(PrimitiveView::Int(i)) => Some(i as int),
        _ => None,
    }
}

/// The sum of the first `n` values, if each of them is a whole number.
pub open spec fn total(values: Seq<ValueView>, n: int) -> Option<int>
    decreases n,
{
    if n <= 0 {
        Some(0)
    } else {
        match (total(values, n - 1), whole(values[n - 1])) {
            (Some(a), Some(b)) => Some(a + b),
            _ => None,
        }
    }
}

/// The error for a value that is no number.
pub open spec fn not_a_number(tag: Tag) -> ShellErrorView {
    ShellErrorView::Labeled {
        msg: "Could not sum the values"@,
        label: "not a number"@,
        span: tag.span,
    }
}

/// The error for a sum that is too large or too small.
pub open spec fn out_of_range() -> ShellErrorView {
    ShellErrorView::Unexpected { reason: "The sum is out of range"@ }
}

/// Index of the first of the values that is no whole number.
pub open spec fn first_other(values: Seq<ValueView>, n: int) -> int
    decreases n,
{
    if n <= 0 {
        0
    } else if first_other(values, n - 1) < n - 1 {
        first_other(values, n - 1)
    } else if whole(values[n - 1]) is None {
        n - 1
    } else {
        n
    }
}

/// What summing the values comes to: their sum; an error at the first value
/// that is no whole number; or an error if the sum does not fit.
pub open spec fn summed(values: Seq<ValueView>) -> Result<ValueView, ShellErrorView> {
    match total(values, values.len() as int) {
        Some(t) => if i64::MIN <= t <= i64::MAX {
            Ok(int_view(t as i64))
        } else {
            Err(out_of_range())
        },
        None => Err(not_a_number(values[first_other(values, values.len() as int)].tag)),
    }
}

proof fn lemma_first_other(values: Seq<ValueView>, n: int)
    requires
        0 <= n <= values.len(),
    ensures
        0 <= first_other(values, n) <= n,
        total(values, n) is Some <==> first_other(values, n) == n,
        first_other(values, n) < n ==> whole(values[first_other(values, n)]) is None,
    decreases n,
{
    if n > 0 {
        lemma_first_other(values, n - 1);
    }
}

proof fn lemma_first_other_stays(values: Seq<ValueView>, n: int, m: int)
    requires
        0 <= n <= m,
        first_other(values, n) < n,
    ensures
        first_other(values, m) == first_other(values, n),
    decreases m - n,
{
    if n < m {
        lemma_first_other_stays(values, n, m - 1);
    }
}

/// The sum of the values, which must be whole numbers.
pub fn sum_numbers(values: &Vec<Value>) -> (r: Result<Value, ShellError>)
    ensures
        match r {
            Ok(v) => summed(values.deep_view()) == Ok::<ValueView, ShellErrorView>(v.deep_view()),
            Err(e) => summed(values.deep_view()) == Err::<ValueView, ShellErrorView>(
                e.deep_view(),
            ),
        },
{
    let ghost all = values.deep_view();
    let mut acc: i128 = 0;
    let mut i: usize = 0;
    while i < values.len()
        invariant
            i <= values.len(),
            all == values.deep_view(),
            total(all, i as int) == Some(acc as int),
            -(i as int) * 0x8000_0000_0000_0000 <= acc <= (i as int) * 0x8000_0000_0000_0000,
        decreases values.len() - i,
    {
        assert(all[i as int] == values@[i as int].deep_view());
        match &values[i].value {
            UntaggedValue::Primitive(Primitive::Int(n)) => {
                assert(-(i as int + 1) * 0x8000_0000_0000_0000 <= acc + *n <= (i as int + 1)
                    * 0x8000_0000_0000_0000) by (nonlinear_arith)
                    requires
                        -(i as int) * 0x8000_0000_0000_0000 <= acc <= (i as int)
                            * 0x8000_0000_0000_0000,
                        -0x8000_0000_0000_0000 <= *n < 0x8000_0000_0000_0000,
                ;
                assert((i as int + 1) * 0x8000_0000_0000_0000
                    <= 0x7fff_ffff_ffff_ffff_ffff_ffff_ffff_ffff) by (nonlinear_arith)
                    requires
                        0 <= i < 0xffff_ffff_ffff_ffff,
                ;
                acc = acc + (*n as i128);
            },
            _ => {
                proof {
                    lemma_first_other(all, i as int);
                    assert(first_other(all, i + 1) == i);
                    lemma_first_other_stays(all, i + 1, values.len() as int);
                    lemma_first_other(all, values.len() as int);
                }
                return Err(
                    ShellError::labeled_error(
                        "Could not sum the values",
                        "not a number",
                        values[i].tag.span,
                    ),
                );
            },
        }
        i += 1;
    }
    if acc < i64::MIN as i128 || acc > i64::MAX as i128 {
        Err(ShellError::unexpected("The sum is out of range"))
    } else {
        Ok(Value::from_int(acc as i64))
    }
}

/// Whether each of the values is a primitive.
pub fn all_primitive(values: &Vec<Value>) -> (b: bool)
    ensures
        b == forall|i: int| 0 <= i < values.len() ==> (#[trigger] values[i]).value is Primitive,
{
    let mut i: usize = 0;
    while i < values.len()
        invariant
            i <= values.len(),
            forall|j: int| 0 <= j < i ==> (#[trigger] values[j]).value is Primitive,
        decreases values.len() - i,
    {
        if !values[i].is_primitive() {
            return false;
        }
        i += 1;
    }
    true
}

/// The names of the columns of the rows among the values, each once, in the
/// order in which they first appear.
pub open spec fn column_names(values: Seq<ValueView>) -> Seq<Seq<char>>
    decreases values.len(),
{
    if values.len() == 0 {
        Seq::empty()
    } else {
        add_missing(column_names(values.drop_last()), descriptors(values.last()))
    }
}

/// The cells of the column `name` in the rows among the values.
pub open spec fn column_cells(values: Seq<ValueView>, name: Seq<char>) -> Seq<ValueView>
    decreases values.len(),
{
    if values.len() == 0 {
        Seq::empty()
    } else {
        let prev = column_cells(values.drop_last(), name);
        match values.last().value {
            UntaggedValueView::Row(entries) => match cell(entries, name) {
                Some(c) => prev.push(c),
                None => prev,
            },
            _ => prev,
        }
    }
}

/// The cells of the column `name` in the rows among the values.
pub fn cells_of_column(values: &Vec<Value>, name: &str) -> (cells: Vec<Value>)
    ensures
        cells.deep_view() == column_cells(values.deep_view(), name@),
{
    let mut cells: Vec<Value> = Vec::new();
    let ghost all = values.deep_view();
    let mut i: usize = 0;
    assert(all.take(0) =~= Seq::<ValueView>::empty());
    assert(cells.deep_view() =~= Seq::<ValueView>::empty());
    while i < values.len()
        invariant
            i <= values.len(),
            all == values.deep_view(),
            cells.deep_view() == column_cells(all.take(i as int), name@),
        decreases values.len() - i,
    {
        assert(all.take(i + 1).drop_last() =~= all.take(i as int));
        assert(all.take(i + 1).last() == values@[i as int].deep_view());
        match &values[i].value {
            UntaggedValue::Row(d) => {
                proof {
                    lemma_row_view(*d, values@[i as int].tag);
                }
                match d.get_data(name) {
                    Some(c) => {
                        let ghost before = cells.deep_view();
                        let copy = c.clone();
                        cells.push(copy);
                        assert(cells.deep_view() =~= before.push(c.deep_view()));
                    },
                    None => {},
                }
            },
            _ => {},
        }
        i += 1;
    }
    assert(all.take(values.len() as int) =~= all);
    cells
}

/// The names of the columns of the rows among the values.
pub fn columns(values: &Vec<Value>) -> (names: Vec<String>)
    ensures
        names.deep_view() == column_names(values.deep_view()),
{
    let mut names: Vec<String> = Vec::new();
    let ghost all = values.deep_view();
    let mut i: usize = 0;
    assert(all.take(0) =~= Seq::<ValueView>::empty());
    assert(names.deep_view() =~= Seq::<Seq<char>>::empty());
    while i < values.len()
        invariant
            i <= values.len(),
            all == values.deep_view(),
            names.deep_view() == column_names(all.take(i as int)),
        decreases values.len() - i,
    {
        let ghost v = all[i as int];
        assert(v == values@[i as int].deep_view());
        assert(all.take(i + 1).drop_last() =~= all.take(i as int));
        let ghost start = names.deep_view();
        match &values[i].value {
            UntaggedValue::Row(d) => {
                proof {
                    lemma_row_view(*d, values@[i as int].tag);
                }
                let ghost cols = descriptors(v);
                let mut k: usize = 0;
                assert(cols.take(0) =~= Seq::<Seq<char>>::empty());
                while k < d.entries.len()
                    invariant
                        k <= d.entries.len(),
                        cols == descriptors(v),
                        cols.len() == d.entries.len(),
                        forall|j: int| 0 <= j < cols.len() ==> cols[j] == d.entries@[j].0@,
                        names.deep_view() == add_missing(start, cols.take(k as int)),
                    decreases d.entries.len() - k,
                {
                    let ghost before = names.deep_view();
                    if !holds_name(&names, d.entries[k].0.as_str()) {
                        names.push(d.entries[k].0.clone());
                        assert(names.deep_view() =~= before.push(cols[k as int]));
                    }
                    assert(cols.take(k + 1).drop_last() =~= cols.take(k as int));
                    assert(cols.take(k + 1).last() == cols[k as int]);
                    k += 1;
                }
                assert(cols.take(d.entries.len() as int) =~= cols);
            },
            _ => {
                assert(descriptors(v) =~= Seq::<Seq<char>>::empty());
            },
        }
        i += 1;
    }
    assert(all.take(values.len() as int) =~= all);
    names
}

fn holds_name(names: &Vec<String>, name: &str) -> (b: bool)
    ensures
        b == names.deep_view().contains(name@),
{
    let mut i: usize = 0;
    while i < names.len()
        invariant
            i <= names.len(),
            forall|j: int| 0 <= j < i ==> names.deep_view()[j] != name@,
        decreases names.len() - i,
    {
        assert(names.deep_view()[i as int] == names@[i as int]@);
        if crate::text::same_text(names[i].as_str(), name) {
            return true;
        }
        i += 1;
    }
    false
}

/// What the sums of the first `n` columns come to: the errors for the columns
/// that cannot be summed, and the cells of the row of totals.
pub struct ColumnTotals {
    pub errors: Seq<ShellErrorView>,
    pub totals: Seq<(Seq<char>, ValueView)>,
}

/// The sums of the first `n` of the columns `names`.
pub open spec fn column_totals(values: Seq<ValueView>, names: Seq<Seq<char>>, n: int) -> ColumnTotals
    decreases n,
{
    if n <= 0 {
        ColumnTotals { errors: Seq::empty(), totals: Seq::empty() }
    } else {
        let prev = column_totals(values, names, n - 1);
        match summed(column_cells(values, names[n - 1])) {
            Ok(t) => ColumnTotals { totals: prev.totals.push((names[n - 1], t)), ..prev },
            Err(e) => ColumnTotals { errors: prev.errors.push(e), ..prev },
        }
    }
}

/// What `sum` hands on for values that are not all primitives: an error for
/// each column that cannot be summed, and then the row of the totals of the
/// other columns.
pub fn sum_columns(values: &Vec<Value>) -> (r: (Vec<ShellError>, Value))
    ensures
        ({
            let names = column_names(values.deep_view());
            let expected = column_totals(values.deep_view(), names, names.len() as int);
            &&& r.0.deep_view() == expected.errors
            &&& r.1.deep_view() == (ValueView {
                value: UntaggedValueView::Row(expected.totals),
                tag: Tag::spec_unknown(),
            })
        }),
{
    let names = columns(values);
    let ghost vs = values.deep_view();
    let ghost ns = names.deep_view();
    let mut errors: Vec<ShellError> = Vec::new();
    let mut totals: Vec<(String, Value)> = Vec::new();
    let mut i: usize = 0;
    assert(errors.deep_view() =~= Seq::<ShellErrorView>::empty());
    assert(totals.deep_view() =~= Seq::<(Seq<char>, ValueView)>::empty());
    while i < names.len()
        invariant
            i <= names.len(),
            vs == values.deep_view(),
            ns == names.deep_view(),
            errors.deep_view() == column_totals(vs, ns, i as int).errors,
            totals.deep_view() == column_totals(vs, ns, i as int).totals,
        decreases names.len() - i,
    {
        assert(ns[i as int] == names@[i as int]@);
        let cells = cells_of_column(values, names[i].as_str());
        match sum_numbers(&cells) {
            Ok(value) => {
                let ghost before = totals.deep_view();
                let e = (names[i].clone(), value);
                assert(e.deep_view() == (e.0@, e.1.deep_view()));
                totals.push(e);
                assert(totals.deep_view() =~= before.push((ns[i as int], value.deep_view())));
            },
            Err(err) => {
                let ghost before = errors.deep_view();
                errors.push(err);
                assert(errors.deep_view() =~= before.push(err.deep_view()));
            },
        }
        i += 1;
    }
    let d = Dictionary { entries: totals };
    assert(d.deep_view() =~= totals.deep_view());
    proof {
        lemma_row_view(d, Tag::spec_unknown());
    }
    (errors, UntaggedValue::Row(d).into_untagged_value())
}

} // verus!
