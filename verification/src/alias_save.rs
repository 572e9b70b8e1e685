//! Saving an alias: what goes into the list of command lines that are run at
//! start-up.
//!
//! The command line that defined the alias is saved without the flag that
//! asked for saving. It takes the place of an earlier definition of the same
//! alias, if there is one.

use crate::text::{
    chars_between, chars_of, concat_chars, find_char, first_index_of, has_prefix, last_index_of,
    lemma_first_index_of, lemma_last_index_of, replace_all, replaced, rfind_char, starts_with,
    string_of, trim, trimmed,
};
use crate::value::{string_view, Value, ValueView};
use vstd::prelude::*;

verus! {

/// `piece` without the flag that asks for saving, in each of its spellings:
/// `--save` is dropped, `-si` and `-is` become `-i`, and `-s ` is dropped.
pub open spec fn unflagged(piece: Seq<char>) -> Seq<char> {
    replaced(
        replaced(
            replaced(
                replaced(piece, seq!['-', '-', 's', 'a', 'v', 'e'], Seq::empty()),
                seq!['-', 's', 'i'],
                seq!['-', 'i'],
            ),
            seq!['-', 's', ' '],
            Seq::empty(),
        ),
        seq!['-', 'i', 's'],
        seq!['-', 'i'],
    )
}

/// Where the body of the alias begins in `raw`: at the first `{`, or at the
/// start if there is none.
pub open spec fn left_brace(raw: Seq<char>) -> int {
    if first_index_of(raw, '{') < raw.len() {
        first_index_of(raw, '{')
    } else {
        0
    }
}

/// Where the body of the alias ends in `raw`: at the last `}`, or at the end
/// if there is none.
pub open spec fn right_brace(raw: Seq<char>) -> int {
    last_index_of(raw, '}')
}

/// The command line `raw` without the flag that asks for saving. What stands
/// between the braces is left as it is.
pub open spec fn stripped(raw: Seq<char>) -> Seq<char> {
    unflagged(raw.take(left_brace(raw))) + raw.subrange(left_brace(raw), right_brace(raw))
        + unflagged(raw.skip(right_brace(raw)))
}

fn unflag(piece: &Vec<char>) -> (r: Vec<char>)
    ensures
        r@ == unflagged(piece@),
{
    let save = vec!['-', '-', 's', 'a', 'v', 'e'];
    assert(save@ =~= seq!['-', '-', 's', 'a', 'v', 'e']);
    let si = vec!['-', 's', 'i'];
    assert(si@ =~= seq!['-', 's', 'i']);
    let s_blank = vec!['-', 's', ' '];
    assert(s_blank@ =~= seq!['-', 's', ' ']);
    let is = vec!['-', 'i', 's'];
    assert(is@ =~= seq!['-', 'i', 's']);
    let i = vec!['-', 'i'];
    assert(i@ =~= seq!['-', 'i']);
    let nothing: Vec<char> = Vec::new();
    assert(nothing@ =~= Seq::<char>::empty());
    let a = replace_all(piece, &save, &nothing);
    let b = replace_all(&a, &si, &i);
    let c = replace_all(&b, &s_blank, &nothing);
    replace_all(&c, &is, &i)
}

/// The command line without the flag that asks for saving. A last `}` must
/// not stand before the first `{`.
pub fn strip_save_flag(raw_input: &str) -> (r: String)
    requires
        left_brace(raw_input@) <= right_brace(raw_input@),
    ensures
        r@ == stripped(raw_input@),
{
    let raw = chars_of(raw_input);
    proof {
        lemma_first_index_of(raw@, '{');
        lemma_last_index_of(raw@, '}');
    }
    let left: usize = match find_char(&raw, '{') {
        Some(k) => k,
        None => 0,
    };
    let right: usize = match rfind_char(&raw, '}') {
        Some(k) => k,
        None => raw.len(),
    };
    let head = chars_between(&raw, 0, left);
    let body = chars_between(&raw, left, right);
    let tail = chars_between(&raw, right, raw.len());
    assert(head@ =~= raw@.take(left as int));
    assert(tail@ =~= raw@.skip(right as int));
    let head = unflag(&head);
    let tail = unflag(&tail);
    let first = concat_chars(&head, &body);
    let all = concat_chars(&first, &tail);
    string_of(&all)
}

/// The part of a definition that names the alias: what stands before the
/// first `[`, or nothing if there is no `[`.
pub open spec fn alias_prefix(line: Seq<char>) -> Seq<char> {
    if first_index_of(line, '[') < line.len() {
        line.take(first_index_of(line, '['))
    } else {
        Seq::empty()
    }
}

/// The text of a start-up entry: that of a string, and the empty text for
/// anything else.
pub open spec fn entry_text(v: ValueView) -> Seq<char> {
    match v.text() {
        Some(t) => t,
        None => Seq::empty(),
    }
}

/// Index of the first of the first `n` entries that begins with `prefix`, or
/// `n` if none does.
pub open spec fn first_match(startup: Seq<ValueView>, prefix: Seq<char>, n: int) -> int
    decreases n,
{
    if n <= 0 {
        0
    } else {
        let before = first_match(startup, prefix, n - 1);
        if before < n - 1 {
            before
        } else if has_prefix(entry_text(startup[n - 1]), prefix) {
            n - 1
        } else {
            n
        }
    }
}

/// The start-up list after the definition `line` was saved: it takes the
/// place of the first entry that begins with the same name, or goes last if
/// there is none. It is saved without blanks around it.
pub open spec fn saved(startup: Seq<ValueView>, line: Seq<char>) -> Seq<ValueView> {
    let k = first_match(startup, alias_prefix(line), startup.len() as int);
    if k < startup.len() {
        startup.update(k, string_view(trimmed(line)))
    } else {
        startup.push(string_view(trimmed(line)))
    }
}

/// Saves the definition `line` in the start-up list.
pub fn save_alias(startup: &mut Vec<Value>, line: &str)
    ensures
        final(startup).deep_view() == saved(old(startup).deep_view(), line@),
{
    let cs = chars_of(line);
    proof {
        lemma_first_index_of(cs@, '[');
    }
    let prefix = match find_char(&cs, '[') {
        Some(k) => chars_between(&cs, 0, k),
        None => Vec::new(),
    };
    assert(prefix@ =~= alias_prefix(line@));
    let entry = trim(&cs);
    let alias = Value::from_string(entry.as_str());
    let ghost before = startup.deep_view();
    let mut i: usize = 0;
    while i < startup.len()
        invariant
            i <= startup.len(),
            startup.deep_view() == before,
            alias.deep_view() == string_view(trimmed(line@)),
            prefix@ == alias_prefix(line@),
            before.len() == startup.len(),
            before == old(startup).deep_view(),
            first_match(before, prefix@, i as int) == i,
        decreases startup.len() - i,
    {
        assert(before[i as int] == startup@[i as int].deep_view());
        let text = match startup[i].as_string() {
            Ok(s) => chars_of(s.as_str()),
            Err(_) => Vec::new(),
        };
        assert(text@ =~= entry_text(before[i as int]));
        if starts_with(&text, &prefix) {
            proof {
                assert(first_match(before, prefix@, i + 1) == i);
                lemma_first_match_stays(before, prefix@, i + 1, startup.len() as int);
            }
            startup.set(i, alias);
            assert(startup.deep_view() =~= before.update(i as int, string_view(trimmed(line@))));
            return;
        }
        i += 1;
    }
    startup.push(alias);
    assert(startup.deep_view() =~= before.push(string_view(trimmed(line@))));
}

proof fn lemma_first_match_stays(startup: Seq<ValueView>, prefix: Seq<char>, n: int, m: int)
    requires
        0 <= n <= m,
        first_match(startup, prefix, n) < n,
    ensures
        first_match(startup, prefix, m) == first_match(startup, prefix, n),
    decreases m - n,
{
    if n < m {
        lemma_first_match_stays(startup, prefix, n, m - 1);
    }
}

/// The start-up list after the command line `raw_input`, which defined an
/// alias and asked for saving it, was saved. With no list yet, the saved
/// definition is all there is.
pub fn update_startup(startup: Option<Vec<Value>>, raw_input: &str) -> (r: Vec<Value>)
    requires
        left_brace(raw_input@) <= right_brace(raw_input@),
    ensures
        r.deep_view() == saved(
            match startup {
                Some(list) => list.deep_view(),
                None => Seq::empty(),
            },
            stripped(raw_input@),
        ),
{
    let line = strip_save_flag(raw_input);
    let mut list = match startup {
        Some(list) => list,
        None => {
            let list: Vec<Value> = Vec::new();
            assert(list.deep_view() =~= Seq::<ValueView>::empty());
            list
        },
    };
    save_alias(&mut list, line.as_str());
    list
}

} // verus!
