use nu_engine::command::{Command, CommandInfo};
use nu_engine::errors::ShellError;
use nu_engine::name_map::NameMap;
use nu_engine::scope::{Scope, ScopeFrame};
use nu_engine::signature::Signature;
use nu_engine::span::{Span, Spanned};
use nu_engine::value::Value;

fn map_of<V>(pairs: Vec<(&str, V)>) -> NameMap<V> {
    let mut map = NameMap::new();
    for (name, value) in pairs {
        map.insert(name.to_string(), value);
    }
    map
}

fn pairs_of<V: Clone>(map: &NameMap<V>) -> Vec<(String, V)> {
    (0..map.len())
        .map(|i| {
            let (name, value) = map.entry_at(i);
            (name.clone(), value.clone())
        })
        .collect()
}

fn command(name: &str, usage: &str) -> Command {
    Command::WholeStream(CommandInfo {
        name: name.to_string(),
        usage: usage.to_string(),
        signature: Signature::build(name),
        is_binary: false,
        body: None,
    })
}

#[test]
fn an_inner_binding_shadows_the_outer_one_until_the_frame_is_left() {
    let mut scope = Scope::new();
    scope.add_var("x", Value::from_int(1));
    scope.add_var("y", Value::from_string("outer"));
    assert_eq!(scope.get_var("x"), Some(Value::from_int(1)));

    scope.enter_scope();
    assert_eq!(scope.depth(), 2);
    assert_eq!(scope.get_var("x"), Some(Value::from_int(1)));
    scope.add_var("x", Value::from_int(2));
    assert_eq!(scope.get_var("x"), Some(Value::from_int(2)));
    assert_eq!(scope.get_var("y"), Some(Value::from_string("outer")));

    scope.exit_scope();
    assert_eq!(scope.depth(), 1);
    assert_eq!(scope.get_var("x"), Some(Value::from_int(1)));
    assert_eq!(scope.get_var("z"), None);
}

#[test]
fn a_binding_replaces_an_earlier_one_of_the_same_name_in_its_frame() {
    let mut scope = Scope::new();
    scope.add_var("x", Value::from_int(1));
    scope.add_var("y", Value::from_int(5));
    scope.add_var("x", Value::from_int(3));
    assert_eq!(scope.get_var("x"), Some(Value::from_int(3)));
    assert_eq!(
        pairs_of(&scope.get_vars()),
        vec![("x".to_string(), Value::from_int(3)), ("y".to_string(), Value::from_int(5))]
    );
}

#[test]
fn all_variables_are_listed_with_the_innermost_binding_of_each() {
    let mut scope = Scope::new();
    scope.add_vars(&map_of(vec![("a", Value::from_int(1)), ("b", Value::from_int(2))]));
    scope.add_env_var("HOME", "/home/me".to_string());
    scope.enter_scope();
    scope.add_var("b", Value::from_int(20));
    scope.add_var("c", Value::from_int(30));
    scope.add_env(&map_of(vec![("HOME", "/tmp".to_string()), ("LANG", "C".to_string())]));
    assert_eq!(
        pairs_of(&scope.get_vars()),
        vec![
            ("b".to_string(), Value::from_int(20)),
            ("c".to_string(), Value::from_int(30)),
            ("a".to_string(), Value::from_int(1)),
        ]
    );
    let vars = scope.get_vars();
    assert_eq!(vars.get("b"), Some(&Value::from_int(20)));
    for (name, value) in pairs_of(&vars) {
        assert_eq!(scope.get_var(&name), Some(value));
    }
    assert_eq!(
        pairs_of(&scope.get_env_vars()),
        vec![("HOME".to_string(), "/tmp".to_string()), ("LANG".to_string(), "C".to_string())]
    );
    assert_eq!(scope.get_env_var("HOME"), Some("/tmp".to_string()));
    scope.exit_scope();
    assert_eq!(scope.get_env_var("HOME"), Some("/home/me".to_string()));
    assert_eq!(scope.get_env_var("LANG"), None);
}

#[test]
fn commands_are_resolved_from_the_innermost_frame_outwards() {
    let mut scope = Scope::new();
    scope.add_command("ls".to_string(), command("ls", "outer"));
    scope.add_command("cd".to_string(), command("cd", "change directory"));
    scope.enter_scope();
    scope.add_command("ls".to_string(), command("ls", "inner"));
    scope.add_command("alpha".to_string(), command("alpha", ""));

    assert_eq!(scope.get_command("ls").map(|c| c.usage()), Some("inner"));
    assert_eq!(scope.get_command("cd").map(|c| c.usage()), Some("change directory"));
    assert!(scope.has_command("alpha"));
    assert!(!scope.has_command("beta"));
    assert!(scope.has_signature("cd"));
    assert_eq!(scope.get_signature("cd"), Some(&Signature::build("cd")));
    assert_eq!(scope.get_signature("beta"), None);
    assert_eq!(scope.expect_command("cd").map(|c| c.name()), Ok("cd"));
    assert_eq!(
        scope.expect_command("beta").map(|c| c.name()),
        Err(ShellError::UntaggedRuntime { reason: "Missing command 'beta'".to_string() })
    );
    // Each name once, in ascending order, whatever the order of the frames.
    assert_eq!(scope.get_command_names(), vec!["alpha", "cd", "ls"]);

    scope.exit_scope();
    assert_eq!(scope.get_command("ls").map(|c| c.usage()), Some("outer"));
    assert_eq!(scope.get_command_names(), vec!["cd", "ls"]);
}

#[test]
fn aliases_are_resolved_like_everything_else() {
    let mut scope = Scope::new();
    let replacement = vec![
        Spanned { item: "ls".to_string(), span: Span::new(0, 2) },
        Spanned { item: "-l".to_string(), span: Span::new(3, 5) },
    ];
    scope.add_alias("ll", replacement);
    scope.enter_scope();
    assert_eq!(scope.get_alias("ll").map(|words| words.len()), Some(2));
    scope.add_alias("ll", vec![]);
    assert_eq!(scope.get_alias("ll"), Some(vec![]));
    assert_eq!(scope.get_alias("la"), None);
}

#[test]
fn a_frame_knows_its_own_commands_in_the_order_of_their_registration() {
    let mut frame = ScopeFrame::new();
    assert!(!frame.has_command("b"));
    frame.add_command("b".to_string(), command("b", "first"));
    frame.add_command("a".to_string(), command("a", ""));
    frame.add_command("b".to_string(), command("b", "second"));
    assert!(frame.has_command("b"));
    assert_eq!(frame.get_command_names(), vec!["b", "a"]);
    assert_eq!(frame.get_command("b").map(|c| c.usage()), Some("second"));
    assert_eq!(frame.get_command("c"), None);
}
