use nu_engine::directory_specific_environment::{
    script_response, DirectorySpecificEnvironment, NuEnvDoc,
};
use nu_engine::name_map::NameMap;

fn strings(items: &[&str]) -> Vec<String> {
    items.iter().map(|s| s.to_string()).collect()
}

fn entries<V: Clone>(map: &NameMap<V>) -> Vec<(String, V)> {
    (0..map.len())
        .map(|i| {
            let (k, v) = map.entry_at(i);
            (k.clone(), v.clone())
        })
        .collect()
}

#[test]
fn named_scripts_take_the_place_of_the_lists() {
    let doc = NuEnvDoc {
        env: Some(vec![("a".to_string(), "1".to_string())]),
        scriptvars: None,
        scripts: Some(vec![
            ("entryscripts".to_string(), strings(&["echo in"])),
            ("other".to_string(), strings(&["echo other"])),
            ("exitscripts".to_string(), strings(&["echo out", "echo bye"])),
        ]),
        entryscripts: Some(strings(&["echo old"])),
        exitscripts: None,
    };
    let applied = doc.named_scripts_applied();
    assert_eq!(applied.entryscripts, Some(strings(&["echo in"])));
    assert_eq!(applied.exitscripts, Some(strings(&["echo out", "echo bye"])));
    assert_eq!(applied.env, Some(vec![("a".to_string(), "1".to_string())]));
    assert_eq!(applied.scriptvars, None);
    assert_eq!(applied.scripts.as_ref().map(|s| s.len()), Some(3));
}

#[test]
fn a_document_without_named_scripts_keeps_its_lists() {
    let doc = NuEnvDoc {
        env: None,
        scriptvars: None,
        scripts: None,
        entryscripts: Some(strings(&["echo in"])),
        exitscripts: Some(strings(&["echo out"])),
    };
    let applied = doc.named_scripts_applied();
    assert_eq!(applied.entryscripts, Some(strings(&["echo in"])));
    assert_eq!(applied.exitscripts, Some(strings(&["echo out"])));
    let unnamed = NuEnvDoc {
        env: None,
        scriptvars: None,
        scripts: Some(vec![("other".to_string(), strings(&["x"]))]),
        entryscripts: None,
        exitscripts: Some(strings(&["echo out"])),
    };
    let applied = unnamed.named_scripts_applied();
    assert_eq!(applied.entryscripts, None);
    assert_eq!(applied.exitscripts, Some(strings(&["echo out"])));
}

#[test]
fn a_directory_further_in_keeps_its_variable() {
    let mut env = DirectorySpecificEnvironment::new("/");
    assert_eq!(env.last_seen_directory, "/");
    let mut vars_to_add: NameMap<String> = NameMap::new();
    env.add_key_if_appropriate(&mut vars_to_add, "/a/b", "editor", "vi", Some("ed".to_string()));
    env.add_key_if_appropriate(&mut vars_to_add, "/a", "editor", "emacs", Some("ed".to_string()));
    env.add_key_if_appropriate(&mut vars_to_add, "/a", "pager", "less", None);
    assert_eq!(
        entries(&vars_to_add),
        vec![("editor".to_string(), "vi".to_string()), ("pager".to_string(), "less".to_string())]
    );
    assert_eq!(env.last_seen_directory, "/");

    let mut cleanup: NameMap<Option<String>> = NameMap::new();
    assert_eq!(env.leave_directory(&mut cleanup, "/a/b"), Vec::<String>::new());
    assert_eq!(entries(&cleanup), vec![("editor".to_string(), Some("ed".to_string()))]);
    assert_eq!(env.leave_directory(&mut cleanup, "/a"), Vec::<String>::new());
    assert_eq!(
        entries(&cleanup),
        vec![("editor".to_string(), Some("ed".to_string())), ("pager".to_string(), None)]
    );
    let mut again: NameMap<Option<String>> = NameMap::new();
    env.leave_directory(&mut again, "/a");
    env.leave_directory(&mut again, "/elsewhere");
    assert_eq!(entries(&again), vec![]);
}

#[test]
fn a_variable_set_twice_by_a_directory_remembers_the_later_value() {
    let mut env = DirectorySpecificEnvironment::new("/");
    let mut first: NameMap<String> = NameMap::new();
    env.add_key_if_appropriate(&mut first, "/a", "k", "1", None);
    env.add_key_if_appropriate(&mut first, "/a", "j", "1", Some("j0".to_string()));
    let mut second: NameMap<String> = NameMap::new();
    env.add_key_if_appropriate(&mut second, "/a", "k", "2", Some("1".to_string()));
    let mut cleanup: NameMap<Option<String>> = NameMap::new();
    cleanup.insert("j".to_string(), None);
    env.leave_directory(&mut cleanup, "/a");
    assert_eq!(
        entries(&cleanup),
        vec![("j".to_string(), Some("j0".to_string())), ("k".to_string(), Some("1".to_string()))]
    );
}

#[test]
fn exit_scripts_are_handed_out_on_leaving() {
    let mut env = DirectorySpecificEnvironment::new("/");
    env.keep_exit_scripts("/a", strings(&["echo bye"]));
    env.keep_exit_scripts("/b", strings(&["echo b"]));
    env.keep_exit_scripts("/a", strings(&["echo later", "echo last"]));
    let mut cleanup: NameMap<Option<String>> = NameMap::new();
    assert_eq!(env.leave_directory(&mut cleanup, "/a"), strings(&["echo later", "echo last"]));
    assert_eq!(env.leave_directory(&mut cleanup, "/b"), strings(&["echo b"]));
    assert_eq!(env.leave_directory(&mut cleanup, "/c"), Vec::<String>::new());
    assert_eq!(env.leave_directory(&mut cleanup, "/a"), strings(&["echo later", "echo last"]));
    assert_eq!(entries(&cleanup), vec![]);
}

#[test]
fn the_response_of_a_script_is_its_output_without_the_last_byte() {
    assert_eq!(script_response(&vec![]), None);
    assert_eq!(script_response(&b"\n".to_vec()), Some(vec![]));
    assert_eq!(script_response(&b"vi\n".to_vec()), Some(b"vi".to_vec()));
    assert_eq!(script_response(&b"vi".to_vec()), Some(b"v".to_vec()));
}
