//! The `ps` plugin: the processes that run on the machine.

use crate::span::Tag;
use crate::value::{
    lemma_row_view, Decimal, Dictionary, Primitive, PrimitiveView, UntaggedValue,
    UntaggedValueView, Value, ValueView,
};
use vstd::prelude::*;
use vstd::string::StringExecFns;

verus! {

/// The `ps` plugin.
#[derive(Debug, PartialEq, Eq)]
pub struct Ps;

impl Ps {
    pub fn new() -> (p: Ps)
        ensures
            p == Ps,
    {
        Ps
    }
}

impl Default for Ps {
    fn default() -> (p: Ps)
        ensures
            p == Ps,
    {
        Ps
    }
}

/// What is known of one process.
#[derive(Debug, PartialEq, Eq)]
pub struct ProcessInfo {
    pub pid: i64,
    pub name: String,
    pub status: String,
    /// The share of a processor that the process uses, in percent.
    pub cpu: Decimal,
    /// Resident memory, in bytes.
    pub mem: u64,
    /// Virtual memory, in bytes.
    pub virtual_mem: u64,
    pub parent: Option<i64>,
    pub exe: String,
    /// The command line, word by word.
    pub cmd: Vec<String>,
}

/// The words of `words`, with `sep` between each two.
pub open spec fn joined(words: Seq<Seq<char>>, sep: Seq<char>) -> Seq<char>
    decreases words.len(),
{
    if words.len() == 0 {
        Seq::empty()
    } else if words.len() == 1 {
        words[0]
    } else {
        joined(words.drop_last(), sep) + sep + words.last()
    }
}

/// The words of `words`, with `sep` between each two.
pub fn join(words: &Vec<String>, sep: &str) -> (r: String)
    ensures
        r@ == joined(words.deep_view(), sep@),
{
    let mut r = String::new();
    let ghost all = words.deep_view();
    let mut i: usize = 0;
    assert(all.take(0) =~= Seq::<Seq<char>>::empty());
    while i < words.len()
        invariant
            i <= words.len(),
            all == words.deep_view(),
            r@ == joined(all.take(i as int), sep@),
        decreases words.len() - i,
    {
        assert(all.take(i + 1).drop_last() =~= all.take(i as int));
        assert(all.take(i + 1).last() == words@[i as int]@);
        if i > 0 {
            r.append(sep);
        } else {
            assert(r@ + words@[i as int]@ =~= words@[i as int]@);
        }
        r.append(words[i].as_str());
        i += 1;
    }
    assert(all.take(words.len() as int) =~= all);
    r
}

/// A cell with the name `name` and the value `value`, tagged `tag`.
pub open spec fn tagged_cell(name: Seq<char>, value: PrimitiveView, tag: Tag) -> (Seq<char>, ValueView) {
    (name, ValueView { value: UntaggedValueView::Primitive(value), tag })
}

/// The cells of the row that shows the process `p`: always its id, name,
/// status and memory; in the long form also its parent, if it has one, its
/// program file and its command line.
pub open spec fn process_cells(p: ProcessInfo, long: bool, tag: Tag) -> Seq<(Seq<char>, ValueView)> {
    let short = seq![
        tagged_cell("pid"@, PrimitiveView::Int(p.pid), tag),
        tagged_cell("name"@, PrimitiveView::String(p.name@), tag),
        tagged_cell("status"@, PrimitiveView::String(p.status@), tag),
        tagged_cell("cpu"@, PrimitiveView::Decimal(p.cpu), tag),
        tagged_cell("mem"@, PrimitiveView::Filesize(p.mem), tag),
        tagged_cell("virtual"@, PrimitiveView::Filesize(p.virtual_mem), tag),
    ];
    if long {
        let with_parent = match p.parent {
            Some(parent) => short.push(tagged_cell("parent"@, PrimitiveView::Int(parent), tag)),
            None => short,
        };
        with_parent.push(tagged_cell("exe"@, PrimitiveView::Path(p.exe@), tag)).push(
            tagged_cell(
                "command"@,
                PrimitiveView::String(joined(p.cmd.deep_view(), seq![' '])),
                tag,
            ),
        )
    } else {
        short
    }
}

fn push_cell(entries: &mut Vec<(String, Value)>, name: &str, value: Primitive, tag: Tag)
    ensures
        final(entries).deep_view() == old(entries).deep_view().push(
            tagged_cell(name@, value.deep_view(), tag),
        ),
{
    let ghost before = entries.deep_view();
    let v = Value { value: UntaggedValue::Primitive(value), tag };
    let e = (name.to_owned(), v);
    assert(e.deep_view() == (e.0@, e.1.deep_view()));
    entries.push(e);
    assert(entries.deep_view() =~= before.push(tagged_cell(name@, value.deep_view(), tag)));
}

/// The row that shows the process `p`.
pub fn process_row(p: &ProcessInfo, long: bool, tag: Tag) -> (row: Value)
    ensures
        row.deep_view() == (ValueView {
            value: UntaggedValueView::Row(process_cells(*p, long, tag)),
            tag,
        }),
{
    let mut entries: Vec<(String, Value)> = Vec::new();
    assert(entries.deep_view() =~= Seq::empty());
    push_cell(&mut entries, "pid", Primitive::Int(p.pid), tag);
    push_cell(&mut entries, "name", Primitive::String(p.name.clone()), tag);
    push_cell(&mut entries, "status", Primitive::String(p.status.clone()), tag);
    push_cell(&mut entries, "cpu", Primitive::Decimal(p.cpu), tag);
    push_cell(&mut entries, "mem", Primitive::Filesize(p.mem), tag);
    push_cell(&mut entries, "virtual", Primitive::Filesize(p.virtual_mem), tag);
    if long {
        match p.parent {
            Some(parent) => {
                push_cell(&mut entries, "parent", Primitive::Int(parent), tag);
            },
            None => {},
        }
        push_cell(&mut entries, "exe", Primitive::Path(p.exe.clone()), tag);
        let mut blank = String::new();
        blank.push(' ');
        assert(blank@ =~= seq![' ']);
        let command = join(&p.cmd, blank.as_str());
        push_cell(&mut entries, "command", Primitive::String(command), tag);
    }
    let d = Dictionary { entries };
    assert(d.deep_view() =~= entries.deep_view());
    assert(d.deep_view() =~= process_cells(*p, long, tag));
    proof {
        lemma_row_view(d, tag);
    }
    Value { value: UntaggedValue::Row(d), tag }
}

} // verus!
