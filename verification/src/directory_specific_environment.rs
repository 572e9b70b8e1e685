//! What the shell remembers of the directories that bring their own
//! environment: the variables that entering a directory set, with the values
//! they had before, and the scripts to run on leaving it.

use crate::name_map::{
    deep_entries, lemma_deep_entries, lemma_position, lookup, position, upsert, NameMap,
};
use vstd::prelude::*;

verus! {

/// What the environment file of a directory holds.
#[derive(Debug, PartialEq, Eq)]
pub struct NuEnvDoc {
    /// Variables, each with its value.
    pub env: Option<Vec<(String, String)>>,
    /// Variables, each with the script whose output is its value.
    pub scriptvars: Option<Vec<(String, String)>>,
    /// Lists of scripts by name.
    pub scripts: Option<Vec<(String, Vec<String>)>>,
    /// The scripts to run on entering the directory.
    pub entryscripts: Option<Vec<String>>,
    /// The scripts to run on leaving the directory.
    pub exitscripts: Option<Vec<String>>,
}

/// What the environment file of a directory holds, as text.
pub struct NuEnvDocView {
    pub env: Option<Seq<(Seq<char>, Seq<char>)>>,
    pub scriptvars: Option<Seq<(Seq<char>, Seq<char>)>>,
    pub scripts: Option<Seq<(Seq<char>, Seq<Seq<char>>)>>,
    pub entryscripts: Option<Seq<Seq<char>>>,
    pub exitscripts: Option<Seq<Seq<char>>>,
}

impl DeepView for NuEnvDoc {
    type V = NuEnvDocView;

    open spec fn deep_view(&self) -> NuEnvDocView {
        NuEnvDocView {
            env: self.env.deep_view(),
            scriptvars: self.scriptvars.deep_view(),
            scripts: self.scripts.deep_view(),
            entryscripts: self.entryscripts.deep_view(),
            exitscripts: self.exitscripts.deep_view(),
        }
    }
}

/// The list that the last of the first `n` entries named `name` holds, or
/// `otherwise` if none of them has that name.
pub open spec fn last_named(
    scripts: Seq<(Seq<char>, Seq<Seq<char>>)>,
    name: Seq<char>,
    n: int,
    otherwise: Option<Seq<Seq<char>>>,
) -> Option<Seq<Seq<char>>>
    decreases n,
{
    if n <= 0 {
        otherwise
    } else if scripts[n - 1].0 == name {
        Some(scripts[n - 1].1)
    } else {
        last_named(scripts, name, n - 1, otherwise)
    }
}

/// The document with the lists `entryscripts` and `exitscripts` of its named
/// scripts in the place of its own.
pub open spec fn with_named_scripts(doc: NuEnvDocView) -> NuEnvDocView {
    match doc.scripts {
        Some(s) => NuEnvDocView {
            entryscripts: last_named(s, "entryscripts"@, s.len() as int, doc.entryscripts),
            exitscripts: last_named(s, "exitscripts"@, s.len() as int, doc.exitscripts),
            ..doc
        },
        None => doc,
    }
}

fn copy_of(list: &Vec<String>) -> (r: Vec<String>)
    ensures
        r.deep_view() == list.deep_view(),
{
    let mut r: Vec<String> = Vec::new();
    let mut i: usize = 0;
    while i < list.len()
        invariant
            i <= list.len(),
            r.len() == i,
            forall|j: int| 0 <= j < i ==> r[j]@ == list[j]@,
        decreases list.len() - i,
    {
        r.push(list[i].clone());
        i += 1;
    }
    assert(r.deep_view() =~= list.deep_view());
    r
}

impl NuEnvDoc {
    /// Puts the lists `entryscripts` and `exitscripts` of the named scripts in
    /// the place of the document's own.
    #[verifier::loop_isolation(false)]
    pub fn named_scripts_applied(self) -> (r: NuEnvDoc)
        ensures
            r.deep_view() == with_named_scripts(self.deep_view()),
    {
        let NuEnvDoc { env, scriptvars, scripts, entryscripts, exitscripts } = self;
        let mut entry = entryscripts;
        let mut exit = exitscripts;
        match &scripts {
            Some(s) => {
                let ghost all = s.deep_view();
                let mut i: usize = 0;
                while i < s.len()
                    invariant
                        i <= s.len(),
                        all == s.deep_view(),
                        entry.deep_view() == last_named(
                            all,
                            "entryscripts"@,
                            i as int,
                            entryscripts.deep_view(),
                        ),
                        exit.deep_view() == last_named(
                            all,
                            "exitscripts"@,
                            i as int,
                            exitscripts.deep_view(),
                        ),
                    decreases s.len() - i,
                {
                    assert(all[i as int] == (s[i as int].0@, s[i as int].1.deep_view()));
                    proof {
                        reveal_strlit("entryscripts");
                        reveal_strlit("exitscripts");
                        assert("entryscripts"@.len() != "exitscripts"@.len());
                    }
                    if crate::text::same_text(s[i].0.as_str(), "entryscripts") {
                        entry = Some(copy_of(&s[i].1));
                    } else if crate::text::same_text(s[i].0.as_str(), "exitscripts") {
                        exit = Some(copy_of(&s[i].1));
                    }
                    i += 1;
                }
            },
            None => {},
        }
        NuEnvDoc { env, scriptvars, scripts, entryscripts: entry, exitscripts: exit }
    }
}

/// The variables that `added` holds for the directory `dir`.
pub open spec fn vars_in(
    added: Seq<(Seq<char>, Seq<(Seq<char>, Option<Seq<char>>)>)>,
    dir: Seq<char>,
) -> Seq<(Seq<char>, Option<Seq<char>>)> {
    match lookup(added, dir) {
        Some(vars) => vars,
        None => Seq::empty(),
    }
}

/// `into` after each of the first `n` of `vars` was bound in it, in order.
pub open spec fn bound_all(
    into: Seq<(Seq<char>, Option<Seq<char>>)>,
    vars: Seq<(Seq<char>, Option<Seq<char>>)>,
    n: int,
) -> Seq<(Seq<char>, Option<Seq<char>>)>
    decreases n,
{
    if n <= 0 {
        into
    } else {
        upsert(bound_all(into, vars, n - 1), vars[n - 1].0, vars[n - 1].1)
    }
}

/// Binding a name twice is binding it to the second value.
proof fn lemma_upsert_twice<T>(entries: Seq<(Seq<char>, T)>, key: Seq<char>, a: T, b: T)
    ensures
        upsert(upsert(entries, key, a), key, b) == upsert(entries, key, b),
{
    lemma_position(entries, key);
    let once = upsert(entries, key, a);
    lemma_position(once, key);
    let p = position(entries, key);
    assert(once[p].0 == key);
    assert(position(once, key) == p) by {
        if position(once, key) < p {
            let q = position(once, key);
            assert(once[q].0 == key);
            assert(entries[q].0 != key);
        }
    }
    assert(upsert(once, key, b) =~= upsert(entries, key, b));
}

/// The variables that directories set, and the scripts to run on leaving
/// them.
#[derive(Debug, PartialEq, Eq)]
pub struct DirectorySpecificEnvironment {
    pub last_seen_directory: String,
    /// For each directory that set variables, the variables it set, each
    /// with the value it had before.
    pub added_env_vars: NameMap<NameMap<Option<String>>>,
    /// For each directory that has them, the scripts to run on leaving it.
    pub exitscripts: NameMap<Vec<String>>,
}

impl DirectorySpecificEnvironment {
    /// For each directory that set variables, the variables it set, each
    /// with the value it had before, if it had one.
    pub open spec fn added(self) -> Seq<(Seq<char>, Seq<(Seq<char>, Option<Seq<char>>)>)> {
        self.added_env_vars.deep_view()
    }

    /// For each directory that has them, the scripts to run on leaving it.
    pub open spec fn exit_scripts(self) -> Seq<(Seq<char>, Seq<Seq<char>>)> {
        self.exitscripts.deep_view()
    }

    /// Nothing is remembered yet; the directory seen last is `root_dir`.
    pub fn new(root_dir: &str) -> (e: DirectorySpecificEnvironment)
        ensures
            e.last_seen_directory@ == root_dir@,
            e.added() == Seq::<(Seq<char>, Seq<(Seq<char>, Option<Seq<char>>)>)>::empty(),
            e.exit_scripts() == Seq::<(Seq<char>, Seq<Seq<char>>)>::empty(),
    {
        let e = DirectorySpecificEnvironment {
            last_seen_directory: root_dir.to_owned(),
            added_env_vars: NameMap::new(),
            exitscripts: NameMap::new(),
        };
        assert(e.added() =~= Seq::<(Seq<char>, Seq<(Seq<char>, Option<Seq<char>>)>)>::empty());
        assert(e.exit_scripts() =~= Seq::<(Seq<char>, Seq<Seq<char>>)>::empty());
        e
    }

    /// Sets the variable `dir_env_key` for the directory `working_dir`,
    /// unless `vars_to_add` holds it already: a directory further in has set
    /// it then, and keeps it. `current` is the value that the variable has
    /// in the environment now; it is remembered for the directory.
    pub fn add_key_if_appropriate(
        &mut self,
        vars_to_add: &mut NameMap<String>,
        working_dir: &str,
        dir_env_key: &str,
        dir_env_val: &str,
        current: Option<String>,
    )
        ensures
            final(self).last_seen_directory == old(self).last_seen_directory,
            final(self).exit_scripts() == old(self).exit_scripts(),
            lookup(old(vars_to_add).deep_view(), dir_env_key@) is Some ==> {
                &&& final(vars_to_add).deep_view() == old(vars_to_add).deep_view()
                &&& final(self).added() == old(self).added()
            },
            lookup(old(vars_to_add).deep_view(), dir_env_key@) is None ==> {
                &&& final(vars_to_add).deep_view() == old(vars_to_add).deep_view().push(
                    (dir_env_key@, dir_env_val@),
                )
                &&& final(self).added() == upsert(
                    old(self).added(),
                    working_dir@,
                    upsert(
                        vars_in(old(self).added(), working_dir@),
                        dir_env_key@,
                        current.deep_view(),
                    ),
                )
            },
    {
        let ghost to_add = vars_to_add.entries();
        proof {
            lemma_lookup_entries(to_add, dir_env_key@);
            lemma_position(to_add, dir_env_key@);
        }
        if !vars_to_add.contains_key(dir_env_key) {
            let value = dir_env_val.to_owned();
            proof {
                lemma_deep_entries(to_add, dir_env_key@, value);
            }
            vars_to_add.insert(dir_env_key.to_owned(), value);
            assert(final(vars_to_add).deep_view() =~= old(vars_to_add).deep_view().push(
                (dir_env_key@, dir_env_val@),
            ));
            let ghost outer = self.added_env_vars.entries();
            let placeholder: NameMap<Option<String>> = NameMap::new();
            let mut vars = match self.added_env_vars.insert(working_dir.to_owned(), placeholder) {
                Some(m) => m,
                None => NameMap::new(),
            };
            let ghost inner = vars.entries();
            vars.insert(dir_env_key.to_owned(), current);
            proof {
                lemma_deep_entries(outer, working_dir@, vars);
                lemma_deep_entries(inner, dir_env_key@, current);
                lemma_upsert_twice(outer, working_dir@, placeholder, vars);
                assert(deep_entries(inner) =~= vars_in(deep_entries(outer), working_dir@));
            }
            self.added_env_vars.insert(working_dir.to_owned(), vars);
        }
    }

    /// Remembers the scripts to run on leaving the directory `working_dir`.
    pub fn keep_exit_scripts(&mut self, working_dir: &str, scripts: Vec<String>)
        ensures
            final(self).last_seen_directory == old(self).last_seen_directory,
            final(self).added() == old(self).added(),
            final(self).exit_scripts() == upsert(
                old(self).exit_scripts(),
                working_dir@,
                scripts.deep_view(),
            ),
    {
        proof {
            lemma_deep_entries(self.exitscripts.entries(), working_dir@, scripts);
        }
        self.exitscripts.insert(working_dir.to_owned(), scripts);
    }

    /// Leaves the directory `working_dir`: the variables that it set go to
    /// `vars_to_cleanup`, each with the value to give back, and are
    /// forgotten. The result holds the scripts to run on leaving.
    #[verifier::loop_isolation(false)]
    pub fn leave_directory(
        &mut self,
        vars_to_cleanup: &mut NameMap<Option<String>>,
        working_dir: &str,
    ) -> (scripts: Vec<String>)
        ensures
            final(self).last_seen_directory == old(self).last_seen_directory,
            final(self).exit_scripts() == old(self).exit_scripts(),
            final(vars_to_cleanup).deep_view() == bound_all(
                old(vars_to_cleanup).deep_view(),
                vars_in(old(self).added(), working_dir@),
                vars_in(old(self).added(), working_dir@).len() as int,
            ),
            final(self).added() == if lookup(old(self).added(), working_dir@) is Some {
                upsert(
                    old(self).added(),
                    working_dir@,
                    Seq::<(Seq<char>, Option<Seq<char>>)>::empty(),
                )
            } else {
                old(self).added()
            },
            scripts.deep_view() == match lookup(old(self).exit_scripts(), working_dir@) {
                Some(s) => s,
                None => Seq::<Seq<char>>::empty(),
            },
    {
        let ghost outer = self.added_env_vars.entries();
        let placeholder: NameMap<Option<String>> = NameMap::new();
        proof {
            lemma_deep_entries(outer, working_dir@, placeholder);
        }
        if self.added_env_vars.contains_key(working_dir) {
            let taken = self.added_env_vars.insert(working_dir.to_owned(), placeholder);
            assert(deep_entries(placeholder.entries()) =~= Seq::<
                (Seq<char>, Option<Seq<char>>),
            >::empty());
            match taken {
                Some(vars) => {
                    let ghost all = vars.deep_view();
                    assert(all == vars_in(old(self).added(), working_dir@));
                    let mut i: usize = 0;
                    while i < vars.len()
                        invariant
                            i <= vars.entries().len(),
                            all == vars.deep_view(),
                            all.len() == vars.entries().len(),
                            vars_to_cleanup.deep_view() == bound_all(
                                old(vars_to_cleanup).deep_view(),
                                all,
                                i as int,
                            ),
                        decreases vars.entries().len() - i,
                    {
                        let (k, v) = vars.entry_at(i);
                        let value = match v {
                            Some(s) => Some(s.clone()),
                            None => None,
                        };
                        assert(value.deep_view() == all[i as int].1) by {
                            match *v {
                                Some(s) => {
                                    assert(value.deep_view() == Some(s@));
                                    assert(v.deep_view() == Some(s@));
                                },
                                None => {},
                            }
                        }
                        proof {
                            lemma_deep_entries(vars_to_cleanup.entries(), k@, value);
                        }
                        vars_to_cleanup.insert(k.clone(), value);
                        i += 1;
                    }
                },
                None => {},
            }
        }
        proof {
            lemma_lookup_entries(self.exitscripts.entries(), working_dir@);
        }
        match self.exitscripts.get(working_dir) {
            Some(s) => copy_of(s),
            None => {
                let none: Vec<String> = Vec::new();
                assert(none.deep_view() =~= Seq::<Seq<char>>::empty());
                none
            },
        }
    }
}

/// A lookup among the views of the values finds the view of what a lookup
/// among the values finds.
proof fn lemma_lookup_entries<V: DeepView>(entries: Seq<(Seq<char>, V)>, key: Seq<char>)
    ensures
        lookup(deep_entries(entries), key) == match lookup(entries, key) {
            Some(v) => Some(v.deep_view()),
            None => None,
        },
{
    if entries.len() > 0 {
        lemma_deep_entries(entries, key, entries[0].1);
    } else {
        assert(deep_entries(entries) =~= Seq::<(Seq<char>, V::V)>::empty());
    }
}

/// What a script said, from what it wrote: all but the last byte, which ends
/// the line. Nothing for a script that wrote nothing.
pub fn script_response(stdout: &Vec<u8>) -> (r: Option<Vec<u8>>)
    ensures
        stdout@.len() == 0 <==> r is None,
        r matches Some(bytes) ==> bytes@ == stdout@.drop_last(),
{
    if stdout.len() == 0 {
        return None;
    }
    let mut bytes: Vec<u8> = Vec::new();
    let mut i: usize = 0;
    while i < stdout.len() - 1
        invariant
            stdout.len() > 0,
            i <= stdout.len() - 1,
            bytes@ == stdout@.take(i as int),
        decreases stdout.len() - i,
    {
        bytes.push(stdout[i]);
        assert(stdout@.take(i + 1) =~= stdout@.take(i as int).push(stdout@[i as int]));
        i += 1;
    }
    assert(stdout@.take(stdout@.len() - 1) =~= stdout@.drop_last());
    Some(bytes)
}

} // verus!
