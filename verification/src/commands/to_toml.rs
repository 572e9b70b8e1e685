//! The `to toml` command: turns a value into a TOML document.

use crate::command::WholeStreamCommand;
use crate::errors::{ShellError, ShellErrorView};
use crate::signature::{Signature, SignatureView};
use crate::span::{Span, Tag};
use crate::text::has_suffix;
use crate::value::{
    Decimal, Primitive, PrimitiveView, UntaggedValue, UntaggedValueView, Value, ValueView,
};
use bigdecimal::{BigDecimal, ToPrimitive};
use bigdecimal::num_bigint::BigInt;
use vstd::prelude::*;
use vstd::string::StringExecFns;

verus! {

/// The `to toml` command.
pub struct ToTOML;

impl WholeStreamCommand for ToTOML {
    open spec fn spec_name(&self) -> Seq<char> {
        "to toml"@
    }

    open spec fn spec_usage(&self) -> Seq<char> {
        "Convert table into .toml text"@
    }

    open spec fn spec_signature(&self) -> SignatureView {
        SignatureView::new("to toml"@)
    }

    fn name(&self) -> (n: &str) {
        "to toml"
    }

    fn signature(&self) -> (s: Signature) {
        Signature::build("to toml")
    }

    fn usage(&self) -> (u: &str) {
        "Convert table into .toml text"
    }
}

/// A TOML value, as the `toml` crate holds it.
#[verifier::external_body]
#[derive(Debug)]
pub struct TomlValue {
    inner: toml::Value,
}

/// What a TOML value holds.
pub enum TomlModel {
    String(Seq<char>),
    Integer(i64),
    /// A float. Which float it is, the library does not look at.
    Float,
    Boolean(bool),
    Datetime(Seq<char>),
    Array(Seq<TomlModel>),
    Table(Map<Seq<char>, TomlModel>),
}

/// What the TOML value `v` holds.
pub uninterp spec fn toml_contents(v: TomlValue) -> TomlModel;

/// What `toml::de::from_str` makes of the text `s`: the value that the
/// document stands for, if it is one.
pub uninterp spec fn parsed_toml(s: Seq<char>) -> Option<TomlModel>;

/// What `toml::ser::to_string` makes of the value `v`: the document that
/// stands for it, if there is one.
pub uninterp spec fn toml_text(v: TomlValue) -> Option<Seq<char>>;

/// `toml::Value::String`: the string as a TOML value.
#[verifier::external_body]
fn toml_string(s: String) -> (v: TomlValue)
    ensures
        toml_contents(v) == TomlModel::String(s@),
{
    TomlValue { inner: toml::Value::String(s) }
}

/// `toml::Value::Integer`: the whole number as a TOML value.
#[verifier::external_body]
fn toml_integer(i: i64) -> (v: TomlValue)
    ensures
        toml_contents(v) == TomlModel::Integer(i),
{
    TomlValue { inner: toml::Value::Integer(i) }
}

/// `toml::Value::Boolean`: the truth value as a TOML value.
#[verifier::external_body]
fn toml_boolean(b: bool) -> (v: TomlValue)
    ensures
        toml_contents(v) == TomlModel::Boolean(b),
{
    TomlValue { inner: toml::Value::Boolean(b) }
}

/// `toml::Value::Float` of `BigDecimal::to_f64`: where the decimal can be
/// read as a float, that float as a TOML value. Nothing is said of which
/// float it is, nor of when the decimal can be read as one.
#[verifier::external_body]
fn toml_float(d: Decimal) -> (r: Option<TomlValue>)
    ensures
        r matches Some(v) ==> toml_contents(v) is Float,
{
    match BigDecimal::new(BigInt::from(d.unscaled), i64::from(d.scale)).to_f64() {
        Some(float) => Some(TomlValue { inner: toml::Value::Float(float) }),
        None => None,
    }
}

/// `toml::Value::Array`: the values, in their order, as a TOML array.
#[verifier::external_body]
fn toml_array(items: Vec<TomlValue>) -> (v: TomlValue)
    ensures
        toml_contents(v) == TomlModel::Array(
            Seq::new(items@.len(), |i: int| toml_contents(items@[i])),
        ),
{
    TomlValue { inner: toml::Value::Array(items.into_iter().map(|x| x.inner).collect()) }
}

/// `toml::Value::Table` of `toml::map::Map::new`: a table without entries.
#[verifier::external_body]
fn toml_table() -> (v: TomlValue)
    ensures
        toml_contents(v) == TomlModel::Table(Map::<Seq<char>, TomlModel>::empty()),
{
    TomlValue { inner: toml::Value::Table(toml::map::Map::new()) }
}

/// `toml::map::Map::insert`: the table holds the value under the key,
/// instead of what it held under that key before.
#[verifier::external_body]
fn toml_insert(table: &mut TomlValue, k: String, v: TomlValue)
    requires
        toml_contents(*old(table)) is Table,
    ensures
        toml_contents(*final(table)) == TomlModel::Table(
            toml_contents(*old(table))->Table_0.insert(k@, toml_contents(v)),
        ),
{
    if let toml::Value::Table(entries) = &mut table.inner {
        entries.insert(k, v.inner);
    }
}

/// `toml::de::from_str`: the value that the document `s` stands for, or
/// nothing if `s` is no TOML document.
#[verifier::external_body]
fn toml_from_str(s: &str) -> (r: Option<TomlValue>)
    ensures
        match r {
            Some(v) => parsed_toml(s@) == Some(toml_contents(v)),
            None => parsed_toml(s@) is None,
        },
{
    match toml::de::from_str::<toml::Value>(s) {
        Ok(inner) => Some(TomlValue { inner }),
        Err(_) => None,
    }
}

/// `toml::ser::to_string`: the document that stands for the value, or
/// nothing if there is none.
#[verifier::external_body]
fn toml_to_string(v: &TomlValue) -> (r: Option<String>)
    ensures
        match r {
            Some(s) => toml_text(*v) == Some(s@),
            None => toml_text(*v) is None,
        },
{
    toml::ser::to_string(&v.inner).ok()
}

/// The error for a number that a TOML integer cannot hold.
pub open spec fn integer_out_of_range(tag: Tag) -> ShellErrorView {
    ShellErrorView::Labeled {
        msg: "converting to TOML integer"@,
        label: "out of range"@,
        span: tag.span,
    }
}

/// `format!("{:?}", ..)` on a string: the string as std shows it to a
/// programmer. Nothing is said of the text.
#[verifier::external_body]
fn shown_string(s: &str) -> (r: String) {
    format!("{:?}", s)
}

/// `format!("{:?}", ..)` on what a value holds: the value as std shows it to
/// a programmer. Nothing is said of the text.
#[verifier::external_body]
fn shown_value(v: &UntaggedValue) -> (r: String) {
    format!("{:?}", v)
}

/// The error for a decimal that cannot be read as a float.
pub open spec fn float_out_of_range(tag: Tag) -> ShellErrorView {
    ShellErrorView::Labeled {
        msg: "converting to TOML float"@,
        label: "out of range"@,
        span: tag.span,
    }
}

/// Whether the error says that some decimal could not be read as a float.
/// No rule of the library decides that: it is left to the conversion, so an
/// error of this kind may come wherever a value holds a decimal.
pub open spec fn is_float_failure(e: ShellErrorView) -> bool {
    exists|tag: Tag| e == float_out_of_range(tag)
}

/// The error for a string that is no TOML document. In the error that is
/// handed out, the string stands before the message, as it is shown to a
/// programmer: see [`told_as`].
pub open spec fn not_a_document(tag: Tag) -> ShellErrorView {
    ShellErrorView::Labeled {
        msg: "unable to de-serialize string to TOML"@,
        label: "invalid TOML"@,
        span: tag.span,
    }
}

/// The error for a value that cannot stand at the top of a TOML document. In
/// the error that is handed out, the value stands before the message, as it
/// is shown to a programmer: see [`told_as`].
pub open spec fn not_top_level(tag: Tag) -> ShellErrorView {
    ShellErrorView::Labeled {
        msg: "is not a valid top-level TOML"@,
        label: "invalid TOML"@,
        span: tag.span,
    }
}

/// Whether `told` tells the error `e`: it is `e` itself, or it is `e` with
/// some text and a blank put before its message. How a value is shown to a
/// programmer is not the library's to say, so the text is left open.
pub open spec fn told_as(e: ShellErrorView, told: ShellErrorView) -> bool {
    told == e || match (e, told) {
        (
            ShellErrorView::Labeled { msg, label, span },
            ShellErrorView::Labeled { msg: told_msg, label: told_label, span: told_span },
        ) => told_label == label && told_span == span && has_suffix(told_msg, seq![' '] + msg),
        _ => false,
    }
}

/// Whether the error `told` is what may come where `expected` is due: the
/// error that is due, told with or without the value it speaks of, or the
/// failure of a decimal.
pub open spec fn comes_as<T>(expected: Result<T, ShellErrorView>, told: ShellErrorView) -> bool {
    is_float_failure(told) || (expected matches Err(e) && told_as(e, told))
}

/// The TOML integers for the first `n` bytes.
pub open spec fn byte_items(bytes: Seq<u8>, n: int) -> Seq<TomlModel>
    decreases n,
{
    if n <= 0 {
        Seq::empty()
    } else {
        byte_items(bytes, n - 1).push(TomlModel::Integer(bytes[n - 1] as i64))
    }
}

/// What a value inside a document becomes. Numbers, truth values and text
/// stay what they are, a decimal becoming some float; values that TOML has no
/// form for become a text that
/// names them; bytes become an array of whole numbers; a row becomes a table;
/// a list becomes the array of the documents that its values stand for.
pub open spec fn nested(v: Value) -> Result<TomlModel, ShellErrorView>
    decreases v, 0int,
{
    match v.value {
        UntaggedValue::Primitive(p) => match p {
            Primitive::Boolean(b) => Ok(TomlModel::Boolean(b)),
            Primitive::Filesize(b) => if b <= i64::MAX {
                Ok(TomlModel::Integer(b as i64))
            } else {
                Err(integer_out_of_range(v.tag))
            },
            Primitive::Int(i) => Ok(TomlModel::Integer(i)),
            Primitive::Decimal(_) => Ok(TomlModel::Float),
            Primitive::Nothing => Ok(TomlModel::String("<Nothing>"@)),
            Primitive::BeginningOfStream => Ok(TomlModel::String("<Beginning of Stream>"@)),
            Primitive::EndOfStream => Ok(TomlModel::String("<End of Stream>"@)),
            Primitive::String(s) => Ok(TomlModel::String(s@)),
            Primitive::Line(s) => Ok(TomlModel::String(s@)),
            Primitive::Pattern(s) => Ok(TomlModel::String(s@)),
            Primitive::Path(s) => Ok(TomlModel::String(s@)),
            Primitive::Binary(b) => Ok(TomlModel::Array(byte_items(b@, b@.len() as int))),
        },
        UntaggedValue::Table(l) => match documents(l, l@.len() as int) {
            Ok(items) => Ok(TomlModel::Array(items)),
            Err(e) => Err(e),
        },
        UntaggedValue::Error(e) => Err(e.deep_view()),
        UntaggedValue::Row(o) => match cells(o.entries, o.entries@.len() as int) {
            Ok(m) => Ok(TomlModel::Table(m)),
            Err(e) => Err(e),
        },
    }
}

/// The table that the first `n` cells of a row become, or the first error
/// among them.
pub open spec fn cells(entries: Vec<(String, Value)>, n: int) -> Result<
    Map<Seq<char>, TomlModel>,
    ShellErrorView,
>
    decreases entries, n,
{
    if n <= 0 || n > entries@.len() {
        Ok(Map::empty())
    } else {
        match cells(entries, n - 1) {
            Err(e) => Err(e),
            Ok(m) => match nested(entries@[n - 1].1) {
                Ok(t) => Ok(m.insert(entries@[n - 1].0@, t)),
                Err(e) => Err(e),
            },
        }
    }
}

/// The documents that the first `n` values of a list stand for, or the first
/// error among them.
pub open spec fn documents(items: Vec<Value>, n: int) -> Result<Seq<TomlModel>, ShellErrorView>
    decreases items, n,
{
    if n <= 0 || n > items@.len() {
        Ok(Seq::empty())
    } else {
        match documents(items, n - 1) {
            Err(e) => Err(e),
            Ok(ms) => match document(items@[n - 1]) {
                Ok(t) => Ok(ms.push(t)),
                Err(e) => Err(e),
            },
        }
    }
}

/// The TOML document that a value stands for: a row is a table; a string is
/// the document that it holds as text; nothing else is a document.
pub open spec fn document(v: Value) -> Result<TomlModel, ShellErrorView>
    decreases v, 1int,
{
    match v.value {
        UntaggedValue::Row(o) => match cells(o.entries, o.entries@.len() as int) {
            Ok(m) => Ok(TomlModel::Table(m)),
            Err(e) => Err(e),
        },
        UntaggedValue::Primitive(Primitive::String(s)) => match parsed_toml(s@) {
            Some(t) => Ok(t),
            None => Err(not_a_document(v.tag)),
        },
        _ => Err(not_top_level(v.tag)),
    }
}

/// The table that the cells of a row become.
#[verifier::loop_isolation(false)]
fn cells_to_table(entries: &Vec<(String, Value)>) -> (r: Result<TomlValue, ShellError>)
    ensures
        match r {
            Ok(t) => cells(*entries, entries@.len() as int) == Ok::<
                Map<Seq<char>, TomlModel>,
                ShellErrorView,
            >(toml_contents(t)->Table_0) && toml_contents(t) is Table,
            Err(e) => comes_as(cells(*entries, entries@.len() as int), e.deep_view()),
        },
    decreases entries, 0int,
{
    let mut table = toml_table();
    let mut i: usize = 0;
    while i < entries.len()
        invariant
            i <= entries.len(),
            toml_contents(table) is Table,
            cells(*entries, i as int) == Ok::<Map<Seq<char>, TomlModel>, ShellErrorView>(
                toml_contents(table)->Table_0,
            ),
        decreases entries.len() - i,
    {
        match helper(&entries[i].1) {
            Ok(t) => {
                toml_insert(&mut table, entries[i].0.clone(), t);
            },
            Err(e) => {
                proof {
                    if nested(entries@[i as int].1) is Err {
                        lemma_cells_error_stays(*entries, i + 1, entries@.len() as int);
                    }
                }
                return Err(e);
            },
        }
        i += 1;
    }
    Ok(table)
}

proof fn lemma_cells_error_stays(entries: Vec<(String, Value)>, n: int, m: int)
    requires
        0 <= n <= m <= entries@.len(),
        cells(entries, n) is Err,
    ensures
        cells(entries, m) == cells(entries, n),
    decreases m - n,
{
    if n < m {
        lemma_cells_error_stays(entries, n, m - 1);
    }
}

proof fn lemma_documents_error_stays(items: Vec<Value>, n: int, m: int)
    requires
        0 <= n <= m <= items@.len(),
        documents(items, n) is Err,
    ensures
        documents(items, m) == documents(items, n),
    decreases m - n,
{
    if n < m {
        lemma_documents_error_stays(items, n, m - 1);
    }
}

/// What a value inside a document becomes.
#[verifier::loop_isolation(false)]
fn helper(v: &Value) -> (r: Result<TomlValue, ShellError>)
    ensures
        match r {
            Ok(t) => nested(*v) == Ok::<TomlModel, ShellErrorView>(toml_contents(t)),
            Err(e) => comes_as(nested(*v), e.deep_view()),
        },
    decreases v, 0int,
{
    match &v.value {
        UntaggedValue::Primitive(p) => match p {
            Primitive::Boolean(b) => Ok(toml_boolean(*b)),
            Primitive::Filesize(b) => {
                if *b <= 0x7fff_ffff_ffff_ffff {
                    Ok(toml_integer(*b as i64))
                } else {
                    Err(
                        ShellError::labeled_error(
                            "converting to TOML integer",
                            "out of range",
                            v.tag.span,
                        ),
                    )
                }
            },
            Primitive::Int(i) => Ok(toml_integer(*i)),
            Primitive::Decimal(d) => match toml_float(*d) {
                Some(t) => Ok(t),
                None => {
                    let e = ShellError::labeled_error(
                        "converting to TOML float",
                        "out of range",
                        v.tag.span,
                    );
                    assert(e.deep_view() == float_out_of_range(v.tag));
                    Err(e)
                },
            },
            Primitive::Nothing => Ok(toml_string("<Nothing>".to_owned())),
            Primitive::BeginningOfStream => Ok(toml_string("<Beginning of Stream>".to_owned())),
            Primitive::EndOfStream => Ok(toml_string("<End of Stream>".to_owned())),
            Primitive::String(s) => Ok(toml_string(s.clone())),
            Primitive::Line(s) => Ok(toml_string(s.clone())),
            Primitive::Pattern(s) => Ok(toml_string(s.clone())),
            Primitive::Path(s) => Ok(toml_string(s.clone())),
            Primitive::Binary(b) => {
                let mut items: Vec<TomlValue> = Vec::new();
                let ghost mut models: Seq<TomlModel> = Seq::empty();
                let mut i: usize = 0;
                while i < b.len()
                    invariant
                        i <= b.len(),
                        items@.len() == i,
                        models == byte_items(b@, i as int),
                        models.len() == i,
                        forall|j: int| 0 <= j < i ==> toml_contents(#[trigger] items@[j]) == models[j],
                    decreases b.len() - i,
                {
                    let x = toml_integer(b[i] as i64);
                    items.push(x);
                    proof {
                        models = models.push(TomlModel::Integer(b@[i as int] as i64));
                    }
                    i += 1;
                }
                let t = toml_array(items);
                assert(Seq::new(items@.len(), |i: int| toml_contents(items@[i])) =~= models);
                Ok(t)
            },
        },
        UntaggedValue::Table(l) => match collect_values(l) {
            Ok(items) => Ok(toml_array(items.0)),
            Err(e) => Err(e),
        },
        UntaggedValue::Error(e) => Err(e.clone()),
        UntaggedValue::Row(o) => cells_to_table(&o.entries),
    }
}

/// The documents that the values of a list stand for.
#[verifier::loop_isolation(false)]
fn collect_values(input: &Vec<Value>) -> (r: Result<(Vec<TomlValue>, Ghost<Seq<TomlModel>>), ShellError>)
    ensures
        match r {
            Ok(out) => documents(*input, input@.len() as int) == Ok::<
                Seq<TomlModel>,
                ShellErrorView,
            >(out.1@) && out.1@ == Seq::new(out.0@.len(), |i: int| toml_contents(out.0@[i])),
            Err(e) => comes_as(documents(*input, input@.len() as int), e.deep_view()),
        },
    decreases input, 0int,
{
    let mut out: Vec<TomlValue> = Vec::new();
    let ghost mut models: Seq<TomlModel> = Seq::empty();
    let mut i: usize = 0;
    while i < input.len()
        invariant
            i <= input.len(),
            out@.len() == i,
            models.len() == i,
            documents(*input, i as int) == Ok::<Seq<TomlModel>, ShellErrorView>(models),
            forall|j: int| 0 <= j < i ==> toml_contents(#[trigger] out@[j]) == models[j],
        decreases input.len() - i,
    {
        match value_to_toml_value(&input[i]) {
            Ok(t) => {
                proof {
                    models = models.push(toml_contents(t));
                }
                out.push(t);
            },
            Err(e) => {
                proof {
                    if document(input@[i as int]) is Err {
                        lemma_documents_error_stays(*input, i + 1, input@.len() as int);
                    }
                }
                return Err(e);
            },
        }
        i += 1;
    }
    assert(models =~= Seq::new(out@.len(), |i: int| toml_contents(out@[i])));
    Ok((out, Ghost(models)))
}

/// The labeled error whose message is `msg` with `shown` and a blank before
/// it.
fn told(shown: String, msg: &str, label: &str, span: Span) -> (e: ShellError)
    ensures
        e.deep_view() == (ShellErrorView::Labeled {
            msg: shown@ + seq![' '] + msg@,
            label: label@,
            span,
        }),
        told_as(ShellErrorView::Labeled { msg: msg@, label: label@, span }, e.deep_view()),
{
    let mut text = shown;
    text.push(' ');
    text.append(msg);
    assert(text@ =~= shown@ + seq![' '] + msg@);
    let e = ShellError::Labeled { msg: text, label: label.to_owned(), span };
    proof {
        let tail = seq![' '] + msg@;
        assert(text@.subrange(text@.len() - tail.len(), text@.len() as int) =~= tail);
    }
    e
}

/// Converts a value into the TOML document that it stands for. A row becomes
/// a table. A string must hold a TOML document, which is read from it.
/// Anything else is no document. Where the value holds a decimal that cannot
/// be read as a float, that is an error too. The error for what is no
/// document begins with the string or the value that it speaks of.
pub fn value_to_toml_value(v: &Value) -> (r: Result<TomlValue, ShellError>)
    ensures
        match r {
            Ok(t) => document(*v) == Ok::<TomlModel, ShellErrorView>(toml_contents(t)),
            Err(e) => comes_as(document(*v), e.deep_view()),
        },
    decreases v, 1int,
{
    match &v.value {
        UntaggedValue::Row(o) => cells_to_table(&o.entries),
        UntaggedValue::Primitive(Primitive::String(s)) => match toml_from_str(s.as_str()) {
            Some(t) => Ok(t),
            None => Err(
                told(
                    shown_string(s.as_str()),
                    "unable to de-serialize string to TOML",
                    "invalid TOML",
                    v.tag.span,
                ),
            ),
        },
        other => Err(
            told(shown_value(other), "is not a valid top-level TOML", "invalid TOML", v.tag.span),
        ),
    }
}

/// What `to toml` works on: the only value of the input, or the list of all
/// its values if there are several, with the tag of the first.
pub open spec fn gathered(input: Vec<Value>) -> Value {
    if input@.len() > 1 {
        Value { value: UntaggedValue::Table(input), tag: input@[0].tag }
    } else {
        input@[0]
    }
}

/// The error for a value that is no TOML document.
pub open spec fn expected_table(name: Tag) -> ShellErrorView {
    ShellErrorView::Labeled {
        msg: "Expected a table with TOML-compatible structure from pipeline"@,
        label: "requires TOML-compatible input"@,
        span: name.span,
    }
}

/// The error for a document that cannot be written out.
pub open spec fn cannot_write(name: Tag) -> ShellErrorView {
    ShellErrorView::Labeled {
        msg: "Expected a table with TOML-compatible structure.tag() from pipeline"@,
        label: "requires TOML-compatible input"@,
        span: name.span,
    }
}

/// What `to toml` hands on for a document, given what writing it out gave:
/// the text as a string with the tag of the command, or an error if there is
/// no text.
pub open spec fn written(text: Option<Seq<char>>, name_tag: Tag) -> Result<
    ValueView,
    ShellErrorView,
> {
    match text {
        Some(t) => Ok(
            ValueView {
                value: UntaggedValueView::Primitive(PrimitiveView::String(t)),
                tag: name_tag,
            },
        ),
        None => Err(cannot_write(name_tag)),
    }
}

/// Whether `outcome` is what `to toml` may hand on for one value.
///
/// A text is handed on only where the value stands for a document, and it is
/// the text that writing out a TOML value of that content gave. A value that
/// stands for no document gives the error for such a value, and nothing else.
/// The same error is given where a decimal could not be read as a float, and
/// the error for writing where the document could not be written out.
pub open spec fn hands_on(
    value: Value,
    name_tag: Tag,
    outcome: Result<ValueView, ShellErrorView>,
) -> bool {
    &&& match outcome {
        Ok(out) => exists|t: TomlValue|
            document(value) == Ok::<TomlModel, ShellErrorView>(#[trigger] toml_contents(t))
                && written(toml_text(t), name_tag) == Ok::<ValueView, ShellErrorView>(out),
        Err(e) => e == expected_table(name_tag) || (document(value) is Ok && e == cannot_write(
            name_tag,
        )),
    }
    &&& document(value) is Err ==> outcome == Err::<ValueView, ShellErrorView>(
        expected_table(name_tag),
    )
}

/// What `to toml` hands on for a document, given what writing it out gave.
pub fn written_document(text: Option<String>, name_tag: Tag) -> (r: Result<Value, ShellError>)
    ensures
        match r {
            Ok(v) => written(text.deep_view(), name_tag) == Ok::<ValueView, ShellErrorView>(
                v.deep_view(),
            ),
            Err(e) => written(text.deep_view(), name_tag) == Err::<ValueView, ShellErrorView>(
                e.deep_view(),
            ),
        },
{
    match text {
        Some(x) => {
            let v = UntaggedValue::Primitive(Primitive::String(x)).into_value(name_tag);
            Ok(v)
        },
        None => Err(
            ShellError::labeled_error(
                "Expected a table with TOML-compatible structure.tag() from pipeline",
                "requires TOML-compatible input",
                name_tag.span,
            ),
        ),
    }
}

/// What `to toml` hands on for one value: the text of the TOML document that
/// it stands for, or an error.
pub fn to_toml_value(value: &Value, name_tag: Tag) -> (r: Result<Value, ShellError>)
    ensures
        match r {
            Ok(v) => hands_on(*value, name_tag, Ok(v.deep_view())),
            Err(e) => hands_on(*value, name_tag, Err(e.deep_view())),
        },
{
    match value_to_toml_value(value) {
        Ok(toml_value) => {
            let text = toml_to_string(&toml_value);
            assert(text.deep_view() == toml_text(toml_value)) by {
                match text {
                    Some(s) => {
                        assert(text.deep_view() == Some(s.deep_view()));
                    },
                    None => {},
                }
            }
            let r = written_document(text, name_tag);
            proof {
                if r is Ok {
                    assert(document(*value) == Ok::<TomlModel, ShellErrorView>(
                        toml_contents(toml_value),
                    ) && written(toml_text(toml_value), name_tag) == Ok::<
                        ValueView,
                        ShellErrorView,
                    >(r->Ok_0.deep_view()));
                }
            }
            r
        },
        Err(_) => Err(
            ShellError::labeled_error(
                "Expected a table with TOML-compatible structure from pipeline",
                "requires TOML-compatible input",
                name_tag.span,
            ),
        ),
    }
}

/// Runs `to toml` on an input: nothing for an empty input, else the text of
/// the TOML document that the input stands for, or an error.
pub fn to_toml(input: Vec<Value>, name_tag: Tag) -> (r: Option<Result<Value, ShellError>>)
    ensures
        input@.len() == 0 <==> r is None,
        match r {
            Some(Ok(v)) => hands_on(gathered(input), name_tag, Ok(v.deep_view())),
            Some(Err(e)) => hands_on(gathered(input), name_tag, Err(e.deep_view())),
            None => true,
        },
{
    if input.len() > 1 {
        let tag = input[0].tag;
        let value = Value { value: UntaggedValue::Table(input), tag };
        Some(to_toml_value(&value, name_tag))
    } else if input.len() == 1 {
        Some(to_toml_value(&input[0], name_tag))
    } else {
        None
    }
}

} // verus!
