//! The scope: a stack of frames, each with its own variables, environment,
//! commands and aliases.
//!
//! The first frame is the global one and is never left. A name is resolved
//! from the innermost frame outwards, so that a binding in an inner frame
//! hides one of the same name further out.

use crate::command::{Command, CommandView};
use crate::errors::{ShellError, ShellErrorView};
use crate::name_map::{
    deep_entries, lemma_deep_entries, lemma_position, lookup, upsert, NameMap,
};
use crate::order::{comes_before, lemma_precedes_total, lemma_precedes_transitive, precedes};
use crate::signature::Signature;
use crate::span::Spanned;
use crate::text::chars_of;
use crate::value::{Value, ValueView};
use vstd::prelude::*;
use vstd::string::StringExecFns;

verus! {

/// One level of the scope.
#[derive(Debug, PartialEq, Eq)]
pub struct ScopeFrame {
    pub vars: NameMap<Value>,
    pub env: NameMap<String>,
    pub commands: NameMap<Command>,
    pub aliases: NameMap<Vec<Spanned<String>>>,
}

/// [`ScopeFrame`] with text as character sequences.
pub struct FrameView {
    pub vars: Seq<(Seq<char>, ValueView)>,
    pub env: Seq<(Seq<char>, Seq<char>)>,
    pub commands: Seq<(Seq<char>, CommandView)>,
    pub aliases: Seq<(Seq<char>, Seq<Spanned<Seq<char>>>)>,
}

impl DeepView for ScopeFrame {
    type V = FrameView;

    open spec fn deep_view(&self) -> FrameView {
        FrameView {
            vars: self.vars.deep_view(),
            env: self.env.deep_view(),
            commands: self.commands.deep_view(),
            aliases: self.aliases.deep_view(),
        }
    }
}

impl FrameView {
    /// The frame that binds nothing.
    pub open spec fn empty() -> FrameView {
        FrameView {
            vars: Seq::empty(),
            env: Seq::empty(),
            commands: Seq::empty(),
            aliases: Seq::empty(),
        }
    }
}

impl ScopeFrame {
    /// A frame that binds nothing.
    pub fn new() -> (f: ScopeFrame)
        ensures
            f.deep_view() == FrameView::empty(),
    {
        let f = ScopeFrame {
            vars: NameMap::new(),
            env: NameMap::new(),
            commands: NameMap::new(),
            aliases: NameMap::new(),
        };
        assert(f.vars.deep_view() =~= Seq::empty());
        assert(f.env.deep_view() =~= Seq::empty());
        assert(f.commands.deep_view() =~= Seq::empty());
        assert(f.aliases.deep_view() =~= Seq::empty());
        f
    }

    /// Whether the frame itself binds the command `name`.
    pub fn has_command(&self, name: &str) -> (b: bool)
        ensures
            b == lookup(self.deep_view().commands, name@) is Some,
    {
        proof {
            lemma_lookup_deep(self.commands.entries(), name@);
        }
        self.commands.contains_key(name)
    }

    /// The names of the commands that the frame itself binds, in the order in
    /// which they were added.
    pub fn get_command_names(&self) -> (names: Vec<String>)
        ensures
            names.deep_view() == names_of(self.deep_view().commands),
    {
        let mut names: Vec<String> = Vec::new();
        let mut i: usize = 0;
        assert(names.deep_view() =~= Seq::empty());
        let n = self.commands.len();
        while i < n
            invariant
                i <= n,
                n == self.commands.entries().len(),
                names.deep_view() == names_of(self.deep_view().commands).take(i as int),
            decreases n - i,
        {
            let (name, _) = self.commands.entry_at(i);
            let ghost before = names.deep_view();
            names.push(name.clone());
            assert(names.deep_view() =~= before.push(name@));
            assert(names_of(self.deep_view().commands).take(i + 1) =~= before.push(name@));
            i += 1;
        }
        assert(names_of(self.deep_view().commands).take(n as int) =~= names_of(
            self.deep_view().commands,
        ));
        names
    }

    /// Binds the command `name` in this frame.
    pub fn add_command(&mut self, name: String, command: Command)
        ensures
            final(self).deep_view() == (FrameView {
                commands: upsert(old(self).deep_view().commands, name@, command.deep_view()),
                ..old(self).deep_view()
            }),
    {
        proof {
            lemma_deep_entries(self.commands.entries(), name@, command);
        }
        self.commands.insert(name, command);
    }

    /// The command that the frame itself binds to `name`.
    pub fn get_command(&self, name: &str) -> (r: Option<&Command>)
        ensures
            r.deep_view() == lookup(self.deep_view().commands, name@),
    {
        proof {
            lemma_lookup_deep(self.commands.entries(), name@);
        }
        self.commands.get(name)
    }
}

/// The names of `entries`, in order.
pub open spec fn names_of<T>(entries: Seq<(Seq<char>, T)>) -> Seq<Seq<char>> {
    Seq::new(entries.len(), |i: int| entries[i].0)
}

/// A lookup among the views of values finds the view of what a lookup among
/// the values finds.
pub proof fn lemma_lookup_deep<V: DeepView>(entries: Seq<(Seq<char>, V)>, key: Seq<char>)
    ensures
        lookup(crate::name_map::deep_entries(entries), key) == match lookup(entries, key) {
            Some(v) => Some(v.deep_view()),
            None => None,
        },
{
    if entries.len() > 0 {
        lemma_deep_entries(entries, key, entries[0].1);
    } else {
        assert(crate::name_map::deep_entries(entries) =~= Seq::empty());
    }
}

/// What the innermost frame that binds the variable `name` binds it to.
pub open spec fn var_in(frames: Seq<FrameView>, name: Seq<char>) -> Option<ValueView>
    decreases frames.len(),
{
    if frames.len() == 0 {
        None
    } else {
        match lookup(frames.last().vars, name) {
            Some(v) => Some(v),
            None => var_in(frames.drop_last(), name),
        }
    }
}

/// What the innermost frame that binds the command `name` binds it to.
pub open spec fn command_in(frames: Seq<FrameView>, name: Seq<char>) -> Option<CommandView>
    decreases frames.len(),
{
    if frames.len() == 0 {
        None
    } else {
        match lookup(frames.last().commands, name) {
            Some(c) => Some(c),
            None => command_in(frames.drop_last(), name),
        }
    }
}

/// What the innermost frame that binds the alias `name` binds it to.
pub open spec fn alias_in(frames: Seq<FrameView>, name: Seq<char>) -> Option<
    Seq<Spanned<Seq<char>>>,
>
    decreases frames.len(),
{
    if frames.len() == 0 {
        None
    } else {
        match lookup(frames.last().aliases, name) {
            Some(a) => Some(a),
            None => alias_in(frames.drop_last(), name),
        }
    }
}

/// What the innermost frame that binds the environment variable `name` binds
/// it to.
pub open spec fn env_in(frames: Seq<FrameView>, name: Seq<char>) -> Option<Seq<char>>
    decreases frames.len(),
{
    if frames.len() == 0 {
        None
    } else {
        match lookup(frames.last().env, name) {
            Some(v) => Some(v),
            None => env_in(frames.drop_last(), name),
        }
    }
}

/// The frames after a new, empty frame was entered.
pub open spec fn entered(frames: Seq<FrameView>) -> Seq<FrameView> {
    frames.push(FrameView::empty())
}

/// The frames after the innermost frame was left.
pub open spec fn exited(frames: Seq<FrameView>) -> Seq<FrameView> {
    frames.drop_last()
}

/// The frames after the innermost frame was replaced by `top`.
pub open spec fn with_top(frames: Seq<FrameView>, top: FrameView) -> Seq<FrameView> {
    frames.drop_last().push(top)
}

/// The frames after the variable `name` was bound to `value` in the innermost
/// frame.
pub open spec fn with_var(frames: Seq<FrameView>, name: Seq<char>, value: ValueView) -> Seq<
    FrameView,
> {
    with_top(frames, FrameView { vars: upsert(frames.last().vars, name, value), ..frames.last() })
}

/// The frames after the environment variable `name` was bound to `value` in
/// the innermost frame.
pub open spec fn with_env_var(frames: Seq<FrameView>, name: Seq<char>, value: Seq<char>) -> Seq<
    FrameView,
> {
    with_top(frames, FrameView { env: upsert(frames.last().env, name, value), ..frames.last() })
}

/// The frames after the command `name` was bound in the innermost frame.
pub open spec fn with_command(frames: Seq<FrameView>, name: Seq<char>, command: CommandView) -> Seq<
    FrameView,
> {
    with_top(
        frames,
        FrameView { commands: upsert(frames.last().commands, name, command), ..frames.last() },
    )
}

/// The frames after the alias `name` was bound in the innermost frame.
pub open spec fn with_alias(
    frames: Seq<FrameView>,
    name: Seq<char>,
    replacement: Seq<Spanned<Seq<char>>>,
) -> Seq<FrameView> {
    with_top(
        frames,
        FrameView { aliases: upsert(frames.last().aliases, name, replacement), ..frames.last() },
    )
}

/// The frames after the variables `vars` were bound in the innermost frame,
/// one after the other.
pub open spec fn with_vars(frames: Seq<FrameView>, vars: Seq<(Seq<char>, ValueView)>) -> Seq<
    FrameView,
>
    decreases vars.len(),
{
    if vars.len() == 0 {
        frames
    } else {
        with_var(with_vars(frames, vars.drop_last()), vars.last().0, vars.last().1)
    }
}

/// The frames after the environment variables `vars` were bound in the
/// innermost frame, one after the other.
pub open spec fn with_env(frames: Seq<FrameView>, vars: Seq<(Seq<char>, Seq<char>)>) -> Seq<
    FrameView,
>
    decreases vars.len(),
{
    if vars.len() == 0 {
        frames
    } else {
        with_env_var(with_env(frames, vars.drop_last()), vars.last().0, vars.last().1)
    }
}

/// The error for a command that no frame binds.
pub open spec fn missing_command(name: Seq<char>) -> ShellErrorView {
    ShellErrorView::UntaggedRuntime { reason: "Missing command '"@ + name + "'"@ }
}

/// Whether `names` is in ascending order, without repetition.
pub open spec fn ascending(names: Seq<Seq<char>>) -> bool {
    forall|i: int, j: int|
        0 <= i < j < names.len() ==> precedes(#[trigger] names[i], #[trigger] names[j])
}

/// Whether the `i`-th command of the `k`-th frame is called `name`.
pub open spec fn binds_command(frames: Seq<FrameView>, k: int, i: int, name: Seq<char>) -> bool {
    0 <= k < frames.len() && 0 <= i < frames[k].commands.len() && frames[k].commands[i].0 == name
}

/// Whether some frame binds a command called `name`.
pub open spec fn command_named(frames: Seq<FrameView>, name: Seq<char>) -> bool {
    exists|k: int, i: int| binds_command(frames, k, i, name)
}

/// Whether a command called `name` stands before the `at`-th command of the
/// `frame`-th frame, in the order of frames and of commands within a frame.
pub open spec fn bound_before(frames: Seq<FrameView>, frame: int, at: int, name: Seq<char>) -> bool {
    exists|k: int, i: int|
        #[trigger] binds_command(frames, k, i, name) && (k < frame || (k == frame && i < at))
}

/// Whether the text `a` comes before `b`.
fn text_before(a: &str, b: &Vec<char>) -> (r: bool)
    ensures
        r == precedes(a@, b@),
{
    let x = chars_of(a);
    comes_before(&x, b)
}

/// Puts `name` in its place among `names`, unless it is there already.
fn insert_name(names: &mut Vec<String>, name: String)
    requires
        ascending(old(names).deep_view()),
    ensures
        ascending(final(names).deep_view()),
        forall|n: Seq<char>|
            final(names).deep_view().contains(n) <==> (old(names).deep_view().contains(n) || n
                == name@),
{
    let ghost before = names.deep_view();
    let key = chars_of(name.as_str());
    let mut p: usize = 0;
    while p < names.len() && text_before(names[p].as_str(), &key)
        invariant
            p <= names.len(),
            names.deep_view() == before,
            key@ == name@,
            forall|j: int| 0 <= j < p ==> precedes(#[trigger] before[j], name@),
        decreases names.len() - p,
    {
        assert(names[p as int]@ == before[p as int]);
        p += 1;
    }
    if p < names.len() {
        assert(names[p as int]@ == before[p as int]);
        let here = chars_of(names[p].as_str());
        if !comes_before(&key, &here) {
            proof {
                lemma_precedes_total(name@, before[p as int]);
                assert(before[p as int] == name@);
                assert(before.contains(name@));
            }
            return;
        }
    }
    names.insert(p, name);
    let ghost after = names.deep_view();
    assert(after =~= before.insert(p as int, name@));
    proof {
        assert forall|i: int, j: int| 0 <= i < j < after.len() implies precedes(
            #[trigger] after[i],
            #[trigger] after[j],
        ) by {
            if j < p {
                assert(precedes(before[i], before[j]));
            } else if j == p {
                assert(precedes(before[i], name@));
            } else if i == p {
                if j - 1 > p {
                    assert(precedes(before[p as int], before[j - 1]));
                    lemma_precedes_transitive(name@, before[p as int], before[j - 1]);
                }
            } else if i < p {
                assert(precedes(before[i], before[j - 1]));
            } else {
                assert(precedes(before[i - 1], before[j - 1]));
            }
        }
        assert forall|n: Seq<char>| after.contains(n) <==> (before.contains(n) || n
            == name@) by {
            if after.contains(n) {
                let i = choose|i: int| 0 <= i < after.len() && after[i] == n;
                if i < p {
                    assert(before[i] == n);
                } else if i > p {
                    assert(before[i - 1] == n);
                }
            }
            if before.contains(n) {
                let i = choose|i: int| 0 <= i < before.len() && before[i] == n;
                if i < p {
                    assert(after[i] == n);
                } else {
                    assert(after[i + 1] == n);
                }
            }
            if n == name@ {
                assert(after[p as int] == n);
            }
        }
    }
}

/// `acc` with those of the first `e` bindings of `entries` added whose names
/// it lacks, in their order.
pub open spec fn add_new<T>(acc: Seq<(Seq<char>, T)>, entries: Seq<(Seq<char>, T)>, e: int) -> Seq<
    (Seq<char>, T),
>
    decreases e,
{
    if e <= 0 {
        acc
    } else {
        let a = add_new(acc, entries, e - 1);
        if lookup(a, entries[e - 1].0) is Some {
            a
        } else {
            a.push(entries[e - 1])
        }
    }
}

/// The bindings of the frames from the `k`-th on, the innermost first; of
/// several bindings of one name the innermost counts.
pub open spec fn merged_from<T>(frames: Seq<Seq<(Seq<char>, T)>>, k: int) -> Seq<(Seq<char>, T)>
    decreases frames.len() - k,
{
    if k < 0 || k >= frames.len() {
        Seq::empty()
    } else {
        add_new(merged_from(frames, k + 1), frames[k], frames[k].len() as int)
    }
}

/// The variables of each frame.
pub open spec fn vars_of(frames: Seq<FrameView>) -> Seq<Seq<(Seq<char>, ValueView)>> {
    Seq::new(frames.len(), |i: int| frames[i].vars)
}

/// The environment variables of each frame.
pub open spec fn env_of(frames: Seq<FrameView>) -> Seq<Seq<(Seq<char>, Seq<char>)>> {
    Seq::new(frames.len(), |i: int| frames[i].env)
}

/// What the innermost of the frames from the `k`-th on that binds `name`
/// binds it to.
pub open spec fn resolve_from<T>(frames: Seq<Seq<(Seq<char>, T)>>, k: int, name: Seq<char>) -> Option<
    T,
>
    decreases frames.len() - k,
{
    if k < 0 || k >= frames.len() {
        None
    } else {
        match resolve_from(frames, k + 1, name) {
            Some(v) => Some(v),
            None => lookup(frames[k], name),
        }
    }
}

proof fn lemma_lookup_push<T>(acc: Seq<(Seq<char>, T)>, entry: (Seq<char>, T), name: Seq<char>)
    ensures
        lookup(acc.push(entry), name) == match lookup(acc, name) {
            Some(v) => Some(v),
            None => if entry.0 == name {
                Some(entry.1)
            } else {
                None
            },
        },
{
    let more = acc.push(entry);
    crate::name_map::lemma_position(acc, name);
    crate::name_map::lemma_position(more, name);
    let p = crate::name_map::position(acc, name);
    let q = crate::name_map::position(more, name);
    if p < acc.len() {
        assert(more[p] == acc[p]);
        if q < p {
            assert(more[q] == acc[q]);
        }
        assert(q == p);
    } else {
        if q < acc.len() {
            assert(more[q] == acc[q]);
        }
        if entry.0 == name {
            assert(more[acc.len() as int] == entry);
            assert(q == acc.len());
        } else {
            if q == acc.len() {
                assert(more[q] == entry);
            }
        }
    }
}

proof fn lemma_lookup_take<T>(entries: Seq<(Seq<char>, T)>, e: int, name: Seq<char>)
    requires
        0 <= e < entries.len(),
    ensures
        lookup(entries.take(e + 1), name) == match lookup(entries.take(e), name) {
            Some(v) => Some(v),
            None => if entries[e].0 == name {
                Some(entries[e].1)
            } else {
                None
            },
        },
{
    assert(entries.take(e + 1) =~= entries.take(e).push(entries[e]));
    lemma_lookup_push(entries.take(e), entries[e], name);
}

proof fn lemma_add_new<T>(
    acc: Seq<(Seq<char>, T)>,
    entries: Seq<(Seq<char>, T)>,
    e: int,
    name: Seq<char>,
)
    requires
        0 <= e <= entries.len(),
    ensures
        lookup(add_new(acc, entries, e), name) == match lookup(acc, name) {
            Some(v) => Some(v),
            None => lookup(entries.take(e), name),
        },
    decreases e,
{
    if e > 0 {
        lemma_add_new(acc, entries, e - 1, name);
        lemma_add_new(acc, entries, e - 1, entries[e - 1].0);
        lemma_lookup_take(entries, e - 1, name);
        lemma_lookup_take(entries, e - 1, entries[e - 1].0);
        let a = add_new(acc, entries, e - 1);
        lemma_lookup_push(a, entries[e - 1], name);
    } else {
        assert(entries.take(0) =~= Seq::empty());
    }
}

/// A lookup among the merged bindings finds what the innermost frame that
/// binds the name binds it to.
pub proof fn lemma_merged_resolves<T>(frames: Seq<Seq<(Seq<char>, T)>>, k: int, name: Seq<char>)
    requires
        0 <= k <= frames.len(),
    ensures
        lookup(merged_from(frames, k), name) == resolve_from(frames, k, name),
    decreases frames.len() - k,
{
    if k < frames.len() {
        lemma_merged_resolves(frames, k + 1, name);
        lemma_add_new(merged_from(frames, k + 1), frames[k], frames[k].len() as int, name);
        assert(frames[k].take(frames[k].len() as int) =~= frames[k]);
    }
}

proof fn lemma_var_in_is_resolve(frames: Seq<FrameView>, name: Seq<char>)
    ensures
        var_in(frames, name) == resolve_from(vars_of(frames), 0, name),
    decreases frames.len(),
{
    if frames.len() > 0 {
        lemma_var_in_is_resolve(frames.drop_last(), name);
        lemma_resolve_drop_last(vars_of(frames), 0, name);
        assert(vars_of(frames).drop_last() =~= vars_of(frames.drop_last()));
    }
}

proof fn lemma_env_in_is_resolve(frames: Seq<FrameView>, name: Seq<char>)
    ensures
        env_in(frames, name) == resolve_from(env_of(frames), 0, name),
    decreases frames.len(),
{
    if frames.len() > 0 {
        lemma_env_in_is_resolve(frames.drop_last(), name);
        lemma_resolve_drop_last(env_of(frames), 0, name);
        assert(env_of(frames).drop_last() =~= env_of(frames.drop_last()));
    }
}

proof fn lemma_resolve_drop_last<T>(frames: Seq<Seq<(Seq<char>, T)>>, k: int, name: Seq<char>)
    requires
        0 <= k < frames.len(),
    ensures
        resolve_from(frames, k, name) == match lookup(frames.last(), name) {
            Some(v) => Some(v),
            None => resolve_from(frames.drop_last(), k, name),
        },
    decreases frames.len() - k,
{
    if k + 1 < frames.len() {
        lemma_resolve_drop_last(frames, k + 1, name);
        assert(frames.drop_last()[k] == frames[k]);
    } else {
        assert(resolve_from(frames, k + 1, name) is None);
        assert(resolve_from(frames.drop_last(), k, name) is None);
    }
}

/// Among all the variables of a scope, a lookup finds what a lookup in the
/// scope itself finds: the binding of the innermost frame.
pub proof fn law_all_vars_agree_with_lookup(frames: Seq<FrameView>, name: Seq<char>)
    ensures
        lookup(merged_from(vars_of(frames), 0), name) == var_in(frames, name),
{
    lemma_merged_resolves(vars_of(frames), 0, name);
    lemma_var_in_is_resolve(frames, name);
}

/// Among all the environment variables of a scope, a lookup finds what a
/// lookup in the scope itself finds: the binding of the innermost frame.
pub proof fn law_all_env_vars_agree_with_lookup(frames: Seq<FrameView>, name: Seq<char>)
    ensures
        lookup(merged_from(env_of(frames), 0), name) == env_in(frames, name),
{
    lemma_merged_resolves(env_of(frames), 0, name);
    lemma_env_in_is_resolve(frames, name);
}

/// The scope: a stack of frames, the global one first.
#[derive(Debug, PartialEq, Eq)]
pub struct Scope {
    frames: Vec<ScopeFrame>,
}

impl Scope {
    /// There is always the global frame.
    #[verifier::type_invariant]
    spec fn has_global_frame(self) -> bool {
        self.frames@.len() >= 1
    }

    /// The frames, the global one first.
    pub closed spec fn frames(self) -> Seq<FrameView> {
        self.frames.deep_view()
    }

    /// A scope with the global frame alone, which binds nothing.
    pub fn new() -> (s: Scope)
        ensures
            s.frames() == seq![FrameView::empty()],
    {
        let mut frames: Vec<ScopeFrame> = Vec::new();
        frames.push(ScopeFrame::new());
        let s = Scope { frames };
        assert(s.frames() =~= seq![FrameView::empty()]);
        s
    }

    /// Number of frames; at least one.
    pub fn depth(&self) -> (n: usize)
        ensures
            n == self.frames().len(),
            n >= 1,
    {
        proof {
            use_type_invariant(self);
        }
        self.frames.len()
    }

    /// Takes the frames out of the scope, which is left with a fresh global
    /// frame until they are put back.
    fn take(&mut self) -> (frames: Vec<ScopeFrame>)
        ensures
            frames.deep_view() == old(self).frames(),
            frames.len() >= 1,
    {
        let mut taken = Scope::new();
        std::mem::swap(self, &mut taken);
        proof {
            use_type_invariant(&taken);
        }
        let Scope { frames } = taken;
        frames
    }

    /// Enters a new frame that binds nothing.
    pub fn enter_scope(&mut self)
        ensures
            final(self).frames() == entered(old(self).frames()),
    {
        let mut frames = self.take();
        let ghost before = frames.deep_view();
        frames.push(ScopeFrame::new());
        assert(frames.deep_view() =~= entered(before));
        *self = Scope { frames };
    }

    /// Leaves the innermost frame. The global frame cannot be left.
    pub fn exit_scope(&mut self)
        requires
            old(self).frames().len() > 1,
        ensures
            final(self).frames() == exited(old(self).frames()),
    {
        let mut frames = self.take();
        let ghost before = frames.deep_view();
        frames.pop();
        assert(frames.deep_view() =~= exited(before));
        *self = Scope { frames };
    }

    /// Binds the variable `name` to `value` in the innermost frame.
    pub fn add_var(&mut self, name: &str, value: Value)
        ensures
            final(self).frames() == with_var(old(self).frames(), name@, value.deep_view()),
    {
        let mut frames = self.take();
        let ghost before = frames.deep_view();
        let mut top = frames.pop().unwrap();
        proof {
            lemma_deep_entries(top.vars.entries(), name@, value);
        }
        top.vars.insert(name.to_owned(), value);
        frames.push(top);
        assert(frames.deep_view() =~= with_var(before, name@, value.deep_view()));
        *self = Scope { frames };
    }

    /// Binds the variables `vars` in the innermost frame, one after the other.
    pub fn add_vars(&mut self, vars: &NameMap<Value>)
        ensures
            final(self).frames() == with_vars(old(self).frames(), vars.deep_view()),
    {
        let ghost all = vars.deep_view();
        let ghost start = self.frames();
        let n = vars.len();
        let mut i: usize = 0;
        assert(all.take(0) =~= Seq::empty());
        while i < n
            invariant
                i <= n,
                n == vars.entries().len(),
                all == vars.deep_view(),
                self.frames() == with_vars(start, all.take(i as int)),
            decreases n - i,
        {
            let (name, value) = vars.entry_at(i);
            let value = value.clone();
            assert(all[i as int] == (name@, value.deep_view()));
            assert(all.take(i + 1).drop_last() =~= all.take(i as int));
            self.add_var(name.as_str(), value);
            i += 1;
        }
        assert(all.take(n as int) =~= all);
    }

    /// Binds the environment variable `name` to `value` in the innermost
    /// frame.
    pub fn add_env_var(&mut self, name: &str, value: String)
        ensures
            final(self).frames() == with_env_var(old(self).frames(), name@, value@),
    {
        let mut frames = self.take();
        let ghost before = frames.deep_view();
        let mut top = frames.pop().unwrap();
        proof {
            lemma_deep_entries(top.env.entries(), name@, value);
        }
        top.env.insert(name.to_owned(), value);
        frames.push(top);
        assert(frames.deep_view() =~= with_env_var(before, name@, value@));
        *self = Scope { frames };
    }

    /// Binds the environment variables `env_vars` in the innermost frame, one
    /// after the other.
    pub fn add_env(&mut self, env_vars: &NameMap<String>)
        ensures
            final(self).frames() == with_env(old(self).frames(), env_vars.deep_view()),
    {
        let ghost all = env_vars.deep_view();
        let ghost start = self.frames();
        let n = env_vars.len();
        let mut i: usize = 0;
        assert(all.take(0) =~= Seq::empty());
        while i < n
            invariant
                i <= n,
                n == env_vars.entries().len(),
                all == env_vars.deep_view(),
                self.frames() == with_env(start, all.take(i as int)),
            decreases n - i,
        {
            let (name, value) = env_vars.entry_at(i);
            let value = value.clone();
            assert(all[i as int] == (name@, value@));
            assert(all.take(i + 1).drop_last() =~= all.take(i as int));
            self.add_env_var(name.as_str(), value);
            i += 1;
        }
        assert(all.take(n as int) =~= all);
    }

    /// Binds the command `name` in the innermost frame.
    pub fn add_command(&mut self, name: String, command: Command)
        ensures
            final(self).frames() == with_command(old(self).frames(), name@, command.deep_view()),
    {
        let mut frames = self.take();
        let ghost before = frames.deep_view();
        let mut top = frames.pop().unwrap();
        top.add_command(name, command);
        frames.push(top);
        assert(frames.deep_view() =~= with_command(before, name@, command.deep_view()));
        *self = Scope { frames };
    }

    /// Binds the alias `name` to `replacement` in the innermost frame.
    pub fn add_alias(&mut self, name: &str, replacement: Vec<Spanned<String>>)
        ensures
            final(self).frames() == with_alias(old(self).frames(), name@, replacement.deep_view()),
    {
        let mut frames = self.take();
        let ghost before = frames.deep_view();
        let mut top = frames.pop().unwrap();
        proof {
            lemma_deep_entries(top.aliases.entries(), name@, replacement);
        }
        top.aliases.insert(name.to_owned(), replacement);
        frames.push(top);
        assert(frames.deep_view() =~= with_alias(before, name@, replacement.deep_view()));
        *self = Scope { frames };
    }

    /// All the variables of the scope, those of the innermost frame first.
    /// Of several bindings of one name, that of the innermost frame is the
    /// one that is given.
    pub fn get_vars(&self) -> (output: NameMap<Value>)
        ensures
            output.deep_view() == merged_from(vars_of(self.frames()), 0),
    {
        let mut output: NameMap<Value> = NameMap::new();
        let ghost all = self.frames();
        let ghost maps = vars_of(all);
        let mut k: usize = self.frames.len();
        assert(output.deep_view() =~= merged_from(maps, k as int));
        while k > 0
            invariant
                k <= self.frames.len(),
                all == self.frames.deep_view(),
                maps == vars_of(all),
                output.deep_view() == merged_from(maps, k as int),
            decreases k,
        {
            k -= 1;
            let frame = &self.frames[k];
            let ghost entries = maps[k as int];
            let ghost acc = output.deep_view();
            let n = frame.vars.len();
            assert(entries == frame.vars.deep_view());
            let mut e: usize = 0;
            while e < n
                invariant
                    e <= n,
                    n == frame.vars.entries().len(),
                    entries == frame.vars.deep_view(),
                    output.deep_view() == add_new(acc, entries, e as int),
                decreases n - e,
            {
                let (name, value) = frame.vars.entry_at(e);
                assert(entries[e as int] == (name@, value.deep_view()));
                let ghost held = output.entries();
                proof {
                    lemma_lookup_deep(held, name@);
                }
                if !output.contains_key(name.as_str()) {
                    let copy = value.clone();
                    proof {
                        lemma_deep_entries(held, name@, copy);
                        lemma_position(held, name@);
                    }
                    output.insert(name.clone(), copy);
                    assert(output.deep_view() =~= deep_entries(held).push(entries[e as int]));
                }
                e += 1;
            }
        }
        output
    }

    /// All the environment variables of the scope, those of the innermost
    /// frame first. Of several bindings of one name, that of the innermost
    /// frame is the one that is given.
    pub fn get_env_vars(&self) -> (output: NameMap<String>)
        ensures
            output.deep_view() == merged_from(env_of(self.frames()), 0),
    {
        let mut output: NameMap<String> = NameMap::new();
        let ghost all = self.frames();
        let ghost maps = env_of(all);
        let mut k: usize = self.frames.len();
        assert(output.deep_view() =~= merged_from(maps, k as int));
        while k > 0
            invariant
                k <= self.frames.len(),
                all == self.frames.deep_view(),
                maps == env_of(all),
                output.deep_view() == merged_from(maps, k as int),
            decreases k,
        {
            k -= 1;
            let frame = &self.frames[k];
            let ghost entries = maps[k as int];
            let ghost acc = output.deep_view();
            let n = frame.env.len();
            assert(entries == frame.env.deep_view());
            let mut e: usize = 0;
            while e < n
                invariant
                    e <= n,
                    n == frame.env.entries().len(),
                    entries == frame.env.deep_view(),
                    output.deep_view() == add_new(acc, entries, e as int),
                decreases n - e,
            {
                let (name, value) = frame.env.entry_at(e);
                assert(entries[e as int] == (name@, value@));
                let ghost held = output.entries();
                proof {
                    lemma_lookup_deep(held, name@);
                }
                if !output.contains_key(name.as_str()) {
                    let copy = value.clone();
                    proof {
                        lemma_deep_entries(held, name@, copy);
                        lemma_position(held, name@);
                    }
                    output.insert(name.clone(), copy);
                    assert(output.deep_view() =~= deep_entries(held).push(entries[e as int]));
                }
                e += 1;
            }
        }
        output
    }

    /// What the innermost frame that binds the variable `name` binds it to.
    pub fn get_var(&self, name: &str) -> (r: Option<Value>)
        ensures
            r.deep_view() == var_in(self.frames(), name@),
    {
        let mut i: usize = self.frames.len();
        let ghost all = self.frames();
        assert(all.take(i as int) =~= all);
        while i > 0
            invariant
                i <= self.frames.len(),
                all == self.frames.deep_view(),
                var_in(all.take(i as int), name@) == var_in(all, name@),
            decreases i,
        {
            i -= 1;
            proof {
                lemma_lookup_deep(self.frames[i as int].vars.entries(), name@);
                assert(all.take(i + 1).drop_last() =~= all.take(i as int));
            }
            match self.frames[i].vars.get(name) {
                Some(v) => {
                    return Some(v.clone());
                },
                None => {},
            }
        }
        None
    }

    /// What the innermost frame that binds the environment variable `name`
    /// binds it to.
    pub fn get_env_var(&self, name: &str) -> (r: Option<String>)
        ensures
            r.deep_view() == env_in(self.frames(), name@),
    {
        let mut i: usize = self.frames.len();
        let ghost all = self.frames();
        assert(all.take(i as int) =~= all);
        while i > 0
            invariant
                i <= self.frames.len(),
                all == self.frames.deep_view(),
                env_in(all.take(i as int), name@) == env_in(all, name@),
            decreases i,
        {
            i -= 1;
            proof {
                lemma_lookup_deep(self.frames[i as int].env.entries(), name@);
                assert(all.take(i + 1).drop_last() =~= all.take(i as int));
            }
            match self.frames[i].env.get(name) {
                Some(v) => {
                    return Some(v.clone());
                },
                None => {},
            }
        }
        None
    }

    /// What the innermost frame that binds the command `name` binds it to.
    pub fn get_command(&self, name: &str) -> (r: Option<&Command>)
        ensures
            r.deep_view() == command_in(self.frames(), name@),
    {
        let mut i: usize = self.frames.len();
        let ghost all = self.frames();
        assert(all.take(i as int) =~= all);
        while i > 0
            invariant
                i <= self.frames.len(),
                all == self.frames.deep_view(),
                command_in(all.take(i as int), name@) == command_in(all, name@),
            decreases i,
        {
            i -= 1;
            proof {
                assert(all.take(i + 1).drop_last() =~= all.take(i as int));
            }
            match self.frames[i].get_command(name) {
                Some(c) => {
                    return Some(c);
                },
                None => {},
            }
        }
        None
    }

    /// The names of the commands of all frames, in ascending order and each
    /// once.
    pub fn get_command_names(&self) -> (names: Vec<String>)
        ensures
            ascending(names.deep_view()),
            forall|n: Seq<char>|
                names.deep_view().contains(n) <==> command_named(self.frames(), n),
    {
        let mut names: Vec<String> = Vec::new();
        let ghost all = self.frames();
        let mut k: usize = 0;
        assert(names.deep_view() =~= Seq::<Seq<char>>::empty());
        while k < self.frames.len()
            invariant
                k <= self.frames.len(),
                all == self.frames.deep_view(),
                ascending(names.deep_view()),
                forall|n: Seq<char>|
                    names.deep_view().contains(n) <==> bound_before(all, k as int, 0, n),
            decreases self.frames.len() - k,
        {
            let frame = &self.frames[k];
            let count = frame.commands.len();
            let mut i: usize = 0;
            while i < count
                invariant
                    i <= count,
                    k < self.frames.len(),
                    all == self.frames.deep_view(),
                    *frame == self.frames@[k as int],
                    count == frame.commands.entries().len(),
                    count == all[k as int].commands.len(),
                    ascending(names.deep_view()),
                    forall|n: Seq<char>|
                        names.deep_view().contains(n) <==> bound_before(all, k as int, i as int, n),
                decreases count - i,
            {
                let (name, _) = frame.commands.entry_at(i);
                let ghost before = names.deep_view();
                let ghost here = name@;
                assert(all[k as int].commands[i as int].0 == here);
                insert_name(&mut names, name.clone());
                proof {
                    assert forall|n: Seq<char>| names.deep_view().contains(n) <==> bound_before(
                        all,
                        k as int,
                        i + 1,
                        n,
                    ) by {
                        if before.contains(n) {
                            let (a, b) = choose|a: int, b: int|
                                #[trigger] binds_command(all, a, b, n) && (a < k || (a == k && b
                                    < i));
                            assert(binds_command(all, a, b, n) && (a < k || (a == k && b < i
                                + 1)));
                        }
                        if n == here {
                            assert(binds_command(all, k as int, i as int, n));
                        }
                        if bound_before(all, k as int, i + 1, n) {
                            let (a, b) = choose|a: int, b: int|
                                #[trigger] binds_command(all, a, b, n) && (a < k || (a == k && b
                                    < i + 1));
                            if !(a == k && b == i) {
                                assert(binds_command(all, a, b, n) && (a < k || (a == k && b
                                    < i)));
                            }
                        }
                    }
                }
                i += 1;
            }
            proof {
                assert forall|n: Seq<char>| names.deep_view().contains(n) <==> bound_before(
                    all,
                    k + 1,
                    0,
                    n,
                ) by {
                    if bound_before(all, k as int, count as int, n) {
                        let (a, b) = choose|a: int, b: int|
                            #[trigger] binds_command(all, a, b, n) && (a < k || (a == k && b
                                < count));
                        assert(binds_command(all, a, b, n) && (a < k + 1 || (a == k + 1 && b
                            < 0)));
                    }
                    if bound_before(all, k + 1, 0, n) {
                        let (a, b) = choose|a: int, b: int|
                            #[trigger] binds_command(all, a, b, n) && (a < k + 1 || (a == k + 1
                                && b < 0));
                        assert(binds_command(all, a, b, n) && (a < k || (a == k && b < count)));
                    }
                }
            }
            k += 1;
        }
        proof {
            assert forall|n: Seq<char>| names.deep_view().contains(n) <==> command_named(
                all,
                n,
            ) by {
                if bound_before(all, k as int, 0, n) {
                    let (a, b) = choose|a: int, b: int|
                        #[trigger] binds_command(all, a, b, n) && (a < k || (a == k && b < 0));
                    assert(binds_command(all, a, b, n));
                }
                if command_named(all, n) {
                    let (a, b) = choose|a: int, b: int| binds_command(all, a, b, n);
                    assert(binds_command(all, a, b, n) && (a < k || (a == k && b < 0)));
                }
            }
        }
        names
    }

    /// Whether some frame binds the command `name`.
    pub fn has_command(&self, name: &str) -> (b: bool)
        ensures
            b == command_in(self.frames(), name@) is Some,
    {
        self.get_command(name).is_some()
    }

    /// The command called `name`; an error that names it if no frame binds
    /// it.
    pub fn expect_command(&self, name: &str) -> (r: Result<&Command, ShellError>)
        ensures
            match r {
                Ok(c) => command_in(self.frames(), name@) == Some(c.deep_view()),
                Err(e) => command_in(self.frames(), name@) is None && e.deep_view()
                    == missing_command(name@),
            },
    {
        match self.get_command(name) {
            Some(c) => Ok(c),
            None => {
                let mut reason = "Missing command '".to_owned();
                reason.append(name);
                reason.append("'");
                Err(ShellError::UntaggedRuntime { reason })
            },
        }
    }

    /// The signature of the command called `name`, if some frame binds it.
    pub fn get_signature(&self, name: &str) -> (r: Option<&Signature>)
        ensures
            r.deep_view() == match command_in(self.frames(), name@) {
                Some(c) => Some(c.info().signature),
                None => None,
            },
    {
        match self.get_command(name) {
            Some(c) => Some(c.signature()),
            None => None,
        }
    }

    /// Whether some frame binds a command called `name`.
    pub fn has_signature(&self, name: &str) -> (b: bool)
        ensures
            b == command_in(self.frames(), name@) is Some,
    {
        self.get_command(name).is_some()
    }

    /// What the innermost frame that binds the alias `name` binds it to.
    pub fn get_alias(&self, name: &str) -> (r: Option<Vec<Spanned<String>>>)
        ensures
            r.deep_view() == alias_in(self.frames(), name@),
    {
        let mut i: usize = self.frames.len();
        let ghost all = self.frames();
        assert(all.take(i as int) =~= all);
        while i > 0
            invariant
                i <= self.frames.len(),
                all == self.frames.deep_view(),
                alias_in(all.take(i as int), name@) == alias_in(all, name@),
            decreases i,
        {
            i -= 1;
            proof {
                lemma_lookup_deep(self.frames[i as int].aliases.entries(), name@);
                assert(all.take(i + 1).drop_last() =~= all.take(i as int));
            }
            match self.frames[i].aliases.get(name) {
                Some(words) => {
                    let mut out: Vec<Spanned<String>> = Vec::new();
                    let mut k: usize = 0;
                    while k < words.len()
                        invariant
                            k <= words.len(),
                            out@ == words@.take(k as int),
                        decreases words.len() - k,
                    {
                        out.push(words[k].clone());
                        assert(words@.take(k + 1) =~= words@.take(k as int).push(words@[k as int]));
                        k += 1;
                    }
                    assert(words@.take(words.len() as int) =~= words@);
                    assert(out.deep_view() =~= words.deep_view());
                    return Some(out);
                },
                None => {},
            }
        }
        None
    }
}

/// A variable that is bound after a new frame was entered hides a binding of
/// the same name further out: a lookup finds the new value. Once the frame is
/// left again, the scope is what it was before, so that the same lookup finds
/// the old value again.
pub proof fn law_inner_binding_shadows_outer(
    frames: Seq<FrameView>,
    name: Seq<char>,
    inner: ValueView,
)
    requires
        frames.len() >= 1,
    ensures
        var_in(with_var(entered(frames), name, inner), name) == Some(inner),
        exited(with_var(entered(frames), name, inner)) == frames,
        var_in(exited(with_var(entered(frames), name, inner)), name) == var_in(frames, name),
{
    let within = with_var(entered(frames), name, inner);
    assert(entered(frames).last().vars =~= Seq::empty());
    assert(within.last().vars =~= seq![(name, inner)]);
    assert(within.drop_last() =~= frames);
}

/// A binding touches nothing but its own name: a lookup of any other variable
/// finds what it found before.
pub proof fn law_binding_leaves_other_names(
    frames: Seq<FrameView>,
    name: Seq<char>,
    value: ValueView,
    other: Seq<char>,
)
    requires
        frames.len() >= 1,
        crate::name_map::distinct_names(frames.last().vars),
        other != name,
    ensures
        var_in(with_var(frames, name, value), other) == var_in(frames, other),
        var_in(with_var(frames, name, value), name) == Some(value),
{
    let after = with_var(frames, name, value);
    crate::name_map::lemma_lookup_upsert(frames.last().vars, name, value, other);
    assert(after.drop_last() =~= frames.drop_last());
}

} // verus!
