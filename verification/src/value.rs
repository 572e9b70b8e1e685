//! The values that flow between commands.

use crate::errors::{ShellError, ShellErrorView};
use crate::span::{Span, Tag};
use crate::text::same_text;
use vstd::prelude::*;

verus! {

/// A decimal number: `unscaled` divided by ten to the power of `scale`.
#[derive(Clone, Copy, Debug, PartialEq, Eq, Structural)]
pub struct Decimal {
    pub unscaled: i64,
    pub scale: u8,
}

/// A value that has no parts.
#[derive(Debug, PartialEq, Eq)]
pub enum Primitive {
    /// No value.
    Nothing,
    /// A whole number.
    Int(i64),
    /// A decimal number.
    Decimal(Decimal),
    /// A size in bytes.
    Filesize(u64),
    /// A string.
    String(String),
    /// A line of text, without its line ending.
    Line(String),
    /// A glob pattern.
    Pattern(String),
    /// A truth value.
    Boolean(bool),
    /// A path in the file system.
    Path(String),
    /// Raw bytes.
    Binary(Vec<u8>),
    /// The mark before the first value of a stream.
    BeginningOfStream,
    /// The mark behind the last value of a stream.
    EndOfStream,
}

/// A value without its tag.
#[derive(Debug, PartialEq, Eq)]
pub enum UntaggedValue {
    /// A value that has no parts.
    Primitive(Primitive),
    /// A row: named cells, in column order.
    Row(Dictionary),
    /// A list of values.
    Table(Vec<Value>),
    /// An error that travels down the pipeline as a value.
    Error(ShellError),
}

/// The cells of a row by column name, in column order.
#[derive(Debug, PartialEq, Eq)]
pub struct Dictionary {
    pub entries: Vec<(String, Value)>,
}

/// A value with the place in the source that it came from.
#[derive(Debug, PartialEq, Eq)]
pub struct Value {
    pub value: UntaggedValue,
    pub tag: Tag,
}

/// [`Primitive`] with text as character sequences.
pub enum PrimitiveView {
    Nothing,
    Int(i64),
    Decimal(Decimal),
    Filesize(u64),
    String(Seq<char>),
    Line(Seq<char>),
    Pattern(Seq<char>),
    Boolean(bool),
    Path(Seq<char>),
    Binary(Seq<u8>),
    BeginningOfStream,
    EndOfStream,
}

/// [`UntaggedValue`] with text as character sequences.
pub enum UntaggedValueView {
    Primitive(PrimitiveView),
    Row(Seq<(Seq<char>, ValueView)>),
    Table(Seq<ValueView>),
    Error(ShellErrorView),
}

/// [`Value`] with text as character sequences.
pub struct ValueView {
    pub value: UntaggedValueView,
    pub tag: Tag,
}

impl DeepView for Primitive {
    type V = PrimitiveView;

    open spec fn deep_view(&self) -> PrimitiveView {
        match *self {
            Primitive::Nothing => PrimitiveView::Nothing,
            Primitive::Int(i) => PrimitiveView::Int(i),
            Primitive::Decimal(d) => PrimitiveView::Decimal(d),
            Primitive::Filesize(n) => PrimitiveView::Filesize(n),
            Primitive::String(s) => PrimitiveView::String(s@),
            Primitive::Line(s) => PrimitiveView::Line(s@),
            Primitive::Pattern(s) => PrimitiveView::Pattern(s@),
            Primitive::Boolean(b) => PrimitiveView::Boolean(b),
            Primitive::Path(s) => PrimitiveView::Path(s@),
            Primitive::Binary(b) => PrimitiveView::Binary(b@),
            Primitive::BeginningOfStream => PrimitiveView::BeginningOfStream,
            Primitive::EndOfStream => PrimitiveView::EndOfStream,
        }
    }
}

/// The view of a value.
pub open spec fn value_view(v: Value) -> ValueView
    decreases v,
{
    ValueView {
        value: match v.value {
            UntaggedValue::Primitive(p) => UntaggedValueView::Primitive(p.deep_view()),
            UntaggedValue::Row(d) => UntaggedValueView::Row(
                Seq::new(
                    d.entries@.len(),
                    |i: int|
                        if 0 <= i < d.entries@.len() {
                            (d.entries@[i].0@, value_view(d.entries@[i].1))
                        } else {
                            (Seq::empty(), nothing_view())
                        },
                ),
            ),
            UntaggedValue::Table(rows) => UntaggedValueView::Table(
                Seq::new(
                    rows@.len(),
                    |i: int|
                        if 0 <= i < rows@.len() {
                            value_view(rows@[i])
                        } else {
                            nothing_view()
                        },
                ),
            ),
            UntaggedValue::Error(e) => UntaggedValueView::Error(e.deep_view()),
        },
        tag: v.tag,
    }
}

/// The view of the whole number `i` without a place in the source.
pub open spec fn int_view(i: i64) -> ValueView {
    ValueView { value: UntaggedValueView::Primitive(PrimitiveView::Int(i)), tag: Tag::spec_unknown() }
}

/// The view of the string `s` without a place in the source.
pub open spec fn string_view(s: Seq<char>) -> ValueView {
    ValueView {
        value: UntaggedValueView::Primitive(PrimitiveView::String(s)),
        tag: Tag::spec_unknown(),
    }
}

/// The view of the truth value `b` without a place in the source.
pub open spec fn bool_view(b: bool) -> ValueView {
    ValueView {
        value: UntaggedValueView::Primitive(PrimitiveView::Boolean(b)),
        tag: Tag::spec_unknown(),
    }
}

/// The view of the value that holds nothing and has no place in the source.
pub open spec fn nothing_view() -> ValueView {
    ValueView {
        value: UntaggedValueView::Primitive(PrimitiveView::Nothing),
        tag: Tag::spec_unknown(),
    }
}

impl DeepView for Value {
    type V = ValueView;

    open spec fn deep_view(&self) -> ValueView {
        value_view(*self)
    }
}

impl DeepView for UntaggedValue {
    type V = UntaggedValueView;

    open spec fn deep_view(&self) -> UntaggedValueView {
        value_view(Value { value: *self, tag: Tag::spec_unknown() }).value
    }
}

impl DeepView for Dictionary {
    type V = Seq<(Seq<char>, ValueView)>;

    open spec fn deep_view(&self) -> Seq<(Seq<char>, ValueView)> {
        Seq::new(self.entries@.len(), |i: int| (self.entries@[i].0@, value_view(self.entries@[i].1)))
    }
}

/// The view of a list of values is the list of their views.
pub proof fn lemma_table_view(rows: Vec<Value>, tag: Tag)
    ensures
        (Value { value: UntaggedValue::Table(rows), tag }).deep_view() == (ValueView {
            value: UntaggedValueView::Table(rows.deep_view()),
            tag,
        }),
{
    let v = Value { value: UntaggedValue::Table(rows), tag };
    assert(v.deep_view().value->Table_0 =~= rows.deep_view());
}

/// The view of a row is the list of its cells' names and views.
pub proof fn lemma_row_view(d: Dictionary, tag: Tag)
    ensures
        (Value { value: UntaggedValue::Row(d), tag }).deep_view() == (ValueView {
            value: UntaggedValueView::Row(d.deep_view()),
            tag,
        }),
{
    let v = Value { value: UntaggedValue::Row(d), tag };
    assert(v.deep_view().value->Row_0 =~= d.deep_view());
}

impl Clone for Primitive {
    fn clone(&self) -> (res: Self)
        ensures
            res.deep_view() == self.deep_view(),
    {
        match self {
            Primitive::Nothing => Primitive::Nothing,
            Primitive::Int(i) => Primitive::Int(*i),
            Primitive::Decimal(d) => Primitive::Decimal(*d),
            Primitive::Filesize(n) => Primitive::Filesize(*n),
            Primitive::String(s) => Primitive::String(s.clone()),
            Primitive::Line(s) => Primitive::Line(s.clone()),
            Primitive::Pattern(s) => Primitive::Pattern(s.clone()),
            Primitive::Boolean(b) => Primitive::Boolean(*b),
            Primitive::Path(s) => Primitive::Path(s.clone()),
            Primitive::Binary(b) => {
                let mut out: Vec<u8> = Vec::new();
                let mut i: usize = 0;
                while i < b.len()
                    invariant
                        i <= b.len(),
                        out@ == b@.take(i as int),
                    decreases b.len() - i,
                {
                    out.push(b[i]);
                    assert(b@.take(i + 1) =~= b@.take(i as int).push(b@[i as int]));
                    i += 1;
                }
                assert(b@.take(b.len() as int) =~= b@);
                Primitive::Binary(out)
            },
            Primitive::BeginningOfStream => Primitive::BeginningOfStream,
            Primitive::EndOfStream => Primitive::EndOfStream,
        }
    }
}

impl Clone for Value {
    #[verifier::loop_isolation(false)]
    fn clone(&self) -> (res: Self)
        ensures
            res.deep_view() == self.deep_view(),
        decreases self,
    {
        match &self.value {
            UntaggedValue::Primitive(p) => Value {
                value: UntaggedValue::Primitive(p.clone()),
                tag: self.tag,
            },
            UntaggedValue::Row(d) => {
                let mut out: Vec<(String, Value)> = Vec::new();
                let mut i: usize = 0;
                while i < d.entries.len()
                    invariant
                        i <= d.entries.len(),
                        out.len() == i,
                        forall|j: int|
                            0 <= j < i ==> out@[j].0@ == d.entries@[j].0@ && value_view(out@[j].1)
                                == value_view(d.entries@[j].1),
                    decreases d.entries.len() - i,
                {
                    let k = d.entries[i].0.clone();
                    let v = d.entries[i].1.clone();
                    out.push((k, v));
                    i += 1;
                }
                let r = Value { value: UntaggedValue::Row(Dictionary { entries: out }), tag: self.tag };
                assert(r.deep_view().value->Row_0 =~= self.deep_view().value->Row_0);
                r
            },
            UntaggedValue::Table(rows) => {
                let mut out: Vec<Value> = Vec::new();
                let mut i: usize = 0;
                while i < rows.len()
                    invariant
                        i <= rows.len(),
                        out.len() == i,
                        forall|j: int| 0 <= j < i ==> value_view(out@[j]) == value_view(rows@[j]),
                    decreases rows.len() - i,
                {
                    let v = rows[i].clone();
                    out.push(v);
                    i += 1;
                }
                let r = Value { value: UntaggedValue::Table(out), tag: self.tag };
                assert(r.deep_view().value->Table_0 =~= self.deep_view().value->Table_0);
                r
            },
            UntaggedValue::Error(e) => Value {
                value: UntaggedValue::Error(e.clone()),
                tag: self.tag,
            },
        }
    }
}

impl UntaggedValue {
    /// A whole number.
    pub fn integer(i: i64) -> (v: UntaggedValue)
        ensures
            v == UntaggedValue::Primitive(Primitive::Int(i)),
    {
        UntaggedValue::Primitive(Primitive::Int(i))
    }

    /// A string.
    pub fn string(s: &str) -> (v: UntaggedValue)
        ensures
            v.deep_view() == UntaggedValueView::Primitive(PrimitiveView::String(s@)),
    {
        UntaggedValue::Primitive(Primitive::String(s.to_owned()))
    }

    /// A truth value.
    pub fn boolean(b: bool) -> (v: UntaggedValue)
        ensures
            v == UntaggedValue::Primitive(Primitive::Boolean(b)),
    {
        UntaggedValue::Primitive(Primitive::Boolean(b))
    }

    /// No value.
    pub fn nothing() -> (v: UntaggedValue)
        ensures
            v == UntaggedValue::Primitive(Primitive::Nothing),
    {
        UntaggedValue::Primitive(Primitive::Nothing)
    }

    /// A list of values.
    pub fn table(rows: Vec<Value>) -> (v: UntaggedValue)
        ensures
            v == UntaggedValue::Table(rows),
    {
        UntaggedValue::Table(rows)
    }

    /// A row with the cells `entries`, in that order.
    pub fn row(entries: Vec<(String, Value)>) -> (v: UntaggedValue)
        ensures
            v == UntaggedValue::Row(Dictionary { entries }),
    {
        UntaggedValue::Row(Dictionary { entries })
    }

    /// This value with the tag `tag`.
    pub fn into_value(self, tag: Tag) -> (v: Value)
        ensures
            v == (Value { value: self, tag }),
    {
        Value { value: self, tag }
    }

    /// This value with the tag of something that has no place in the source.
    pub fn into_untagged_value(self) -> (v: Value)
        ensures
            v == (Value { value: self, tag: Tag::spec_unknown() }),
    {
        Value { value: self, tag: Tag::unknown() }
    }
}

impl ValueView {
    /// The text of a value that is a string or a line.
    pub open spec fn text(self) -> Option<Seq<char>> {
        match self.value {
            UntaggedValueView::Primitive(PrimitiveView::String(s)) => Some(s),
            UntaggedValueView::Primitive(PrimitiveView::Line(s)) => Some(s),
            _ => None,
        }
    }

    /// The truth value of a value that is one.
    pub open spec fn truth(self) -> Option<bool> {
        match self.value {
            UntaggedValueView::Primitive(PrimitiveView::Boolean(b)) => Some(b),
            _ => None,
        }
    }
}

/// The error for a value that should have been a string.
pub open spec fn expected_string(span: Span) -> ShellErrorView {
    ShellErrorView::Labeled { msg: "Expected a string"@, label: "expected a string"@, span }
}

/// The error for a value that should have been a truth value.
pub open spec fn expected_boolean(span: Span) -> ShellErrorView {
    ShellErrorView::Labeled { msg: "Expected a boolean"@, label: "expected a boolean"@, span }
}

impl Value {
    /// The value that holds nothing and has no place in the source.
    pub fn nothing() -> (v: Value)
        ensures
            v.deep_view() == nothing_view(),
    {
        UntaggedValue::nothing().into_untagged_value()
    }

    /// The string `s` as a value without a place in the source.
    pub fn from_string(s: &str) -> (v: Value)
        ensures
            v.deep_view() == string_view(s@),
    {
        UntaggedValue::string(s).into_untagged_value()
    }

    /// The whole number `i` as a value without a place in the source.
    pub fn from_int(i: i64) -> (v: Value)
        ensures
            v.deep_view() == int_view(i),
    {
        UntaggedValue::integer(i).into_untagged_value()
    }

    /// The truth value `b` as a value without a place in the source.
    pub fn from_bool(b: bool) -> (v: Value)
        ensures
            v.deep_view() == bool_view(b),
    {
        UntaggedValue::boolean(b).into_untagged_value()
    }

    pub fn tag(&self) -> (t: Tag)
        ensures
            t == self.tag,
    {
        self.tag
    }

    /// The text of a string or a line; any other value is an error at the
    /// value's place in the source.
    pub fn as_string(&self) -> (r: Result<String, ShellError>)
        ensures
            match r {
                Ok(s) => self.deep_view().text() == Some(s@),
                Err(e) => self.deep_view().text() is None && e.deep_view() == expected_string(
                    self.tag.span,
                ),
            },
    {
        match &self.value {
            UntaggedValue::Primitive(Primitive::String(s)) => Ok(s.clone()),
            UntaggedValue::Primitive(Primitive::Line(s)) => Ok(s.clone()),
            _ => Err(ShellError::labeled_error("Expected a string", "expected a string", self.tag.span)),
        }
    }

    /// The truth value of a boolean; any other value is an error at the
    /// value's place in the source.
    pub fn as_bool(&self) -> (r: Result<bool, ShellError>)
        ensures
            match r {
                Ok(b) => self.deep_view().truth() == Some(b),
                Err(e) => self.deep_view().truth() is None && e.deep_view() == expected_boolean(
                    self.tag.span,
                ),
            },
    {
        match &self.value {
            UntaggedValue::Primitive(Primitive::Boolean(b)) => Ok(*b),
            _ => Err(
                ShellError::labeled_error("Expected a boolean", "expected a boolean", self.tag.span),
            ),
        }
    }

    /// Whether the value is the boolean `true`.
    pub fn is_true(&self) -> (b: bool)
        ensures
            b == (self.deep_view().truth() == Some(true)),
    {
        match &self.value {
            UntaggedValue::Primitive(Primitive::Boolean(b)) => *b,
            _ => false,
        }
    }

    /// Whether the value is a row.
    pub fn is_row(&self) -> (b: bool)
        ensures
            b == (self.value is Row),
    {
        match &self.value {
            UntaggedValue::Row(_) => true,
            _ => false,
        }
    }

    /// Whether the value is a primitive.
    pub fn is_primitive(&self) -> (b: bool)
        ensures
            b == (self.value is Primitive),
    {
        match &self.value {
            UntaggedValue::Primitive(_) => true,
            _ => false,
        }
    }
}

/// The value of the first cell of `entries` whose name is `key`.
pub open spec fn cell(entries: Seq<(Seq<char>, ValueView)>, key: Seq<char>) -> Option<ValueView>
    decreases entries.len(),
{
    if entries.len() == 0 {
        None
    } else if entries[0].0 == key {
        Some(entries[0].1)
    } else {
        cell(entries.drop_first(), key)
    }
}

impl Dictionary {
    /// A row without cells.
    pub fn new() -> (d: Dictionary)
        ensures
            d.deep_view() == Seq::<(Seq<char>, ValueView)>::empty(),
    {
        let d = Dictionary { entries: Vec::new() };
        assert(d.deep_view() =~= Seq::<(Seq<char>, ValueView)>::empty());
        d
    }

    /// The value of the first cell called `key`, if there is one.
    pub fn get_data(&self, key: &str) -> (r: Option<&Value>)
        ensures
            match r {
                Some(v) => cell(self.deep_view(), key@) == Some(v.deep_view()),
                None => cell(self.deep_view(), key@) is None,
            },
    {
        let mut i: usize = 0;
        let ghost all = self.deep_view();
        assert(all.skip(0) =~= all);
        while i < self.entries.len()
            invariant
                i <= self.entries.len(),
                all == self.deep_view(),
                cell(all.skip(i as int), key@) == cell(all, key@),
            decreases self.entries.len() - i,
        {
            proof {
                assert(all.skip(i as int).drop_first() =~= all.skip(i + 1));
            }
            if same_text(self.entries[i].0.as_str(), key) {
                return Some(&self.entries[i].1);
            }
            i += 1;
        }
        None
    }
}

} // verus!
