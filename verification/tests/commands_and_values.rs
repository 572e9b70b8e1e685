use nu_engine::command::{
    per_item_command, whole_stream_command, CallInfo, Command, EvaluatedArgs,
    EvaluatedCommandArgs, PerItem, PerItemCommand, RunnablePerItemContext, WholeStreamCommand,
};
use nu_engine::commands::all::{
    all, all_step, begin_row as all_begin_row, condition as all_condition, end_row as all_end_row,
    Arguments as AllArguments, Command as AllCommand,
};
use nu_engine::commands::append::{append, Arguments as AppendArguments, Command as Append};
use nu_engine::commands::ceil::{ceil, ceil_from_rounded, is_below};
use nu_engine::commands::first::{first, FirstArgs};
use nu_engine::commands::insert::{
    get_data_by_column_path, insert, insert_data_at_column_path, InsertArgs, PathError,
};
use nu_engine::commands::keep_until::{keep_until, keeps, SubCommand as KeepUntil};
use nu_engine::commands::path_split::{path_at, split_column, split_rows};
use nu_engine::commands::seq::{escape_sequences, separators, SeqArgs};
use nu_engine::commands::shuffle::shuffle;
use nu_engine::commands::table_options::{
    disabled_indexes, get_color_from_key_and_subkey, header_alignment_from_value,
    header_bold_from_value, lookup_color, table_mode, Alignment, ConfigExtensions, NuConfig,
    TableTheme, TextStyle,
};
use nu_engine::commands::to_md::{merge_descriptors, plain_string, to_md, ToMarkdownArgs};
use nu_engine::commands::which::{which_builtin, which_external, Which};
use nu_engine::default_context::{create_default_context, EvaluationContext};
use nu_engine::errors::ShellError;
use nu_engine::hir::{
    Block, ClassifiedCommand, Expression, Group, Literal, Pipeline, SpannedExpression,
};
use nu_engine::name_map::NameMap;
use nu_engine::palette::{
    numerical_value, to_color, xtoi, Color, ColorError, DefaultPalette, Delimiter, FlatShape,
    Palette, Style, Theme, ThemedPallet,
};
use nu_engine::ps::{join, process_row, ProcessInfo, Ps};
use nu_engine::scope::Scope;
use nu_engine::shape::SyntaxShape;
use nu_engine::signature::{NamedType, PositionalType, Signature};
use nu_engine::span::{Span, Spanned, Tag};
use nu_engine::start::Start;
use nu_engine::value::{Decimal, Dictionary, Primitive, UntaggedValue, Value};

fn ints(items: &[i64]) -> Vec<Value> {
    items.iter().map(|i| Value::from_int(*i)).collect()
}

fn row(cells: Vec<(&str, Value)>) -> Value {
    UntaggedValue::row(cells.into_iter().map(|(k, v)| (k.to_string(), v)).collect())
        .into_untagged_value()
}

fn boolean_block() -> Block {
    let e = SpannedExpression {
        expr: Expression::Literal(Literal::Bare("true".to_string())),
        span: Span::new(1, 5),
    };
    Block::new(
        vec![Group {
            pipelines: vec![Pipeline { list: vec![ClassifiedCommand::Expr(e)], span: Span::unknown() }],
            span: Span::unknown(),
        }],
        Span::unknown(),
    )
}

#[test]
fn signatures_are_built_step_by_step() {
    let sig = Signature::build("cmd")
        .desc("does things")
        .required("a", SyntaxShape::Int, "first")
        .optional("b", SyntaxShape::String, "second")
        .named("out", SyntaxShape::FilePath, "where to", Some('o'))
        .required_named("in", SyntaxShape::FilePath, "where from", None)
        .switch("quiet", "say nothing", Some('q'))
        .rest(SyntaxShape::Any, "others")
        .filter();
    assert_eq!(sig.name, "cmd");
    assert_eq!(sig.usage, "does things");
    assert!(sig.is_filter);
    assert_eq!(
        sig.positional,
        vec![
            (PositionalType::Mandatory("a".to_string(), SyntaxShape::Int), "first".to_string()),
            (PositionalType::Optional("b".to_string(), SyntaxShape::String), "second".to_string()),
        ]
    );
    assert_eq!(sig.positional[0].0.name(), "a");
    assert_eq!(sig.positional[1].0.syntax_type(), SyntaxShape::String);
    assert_eq!(sig.rest_positional, Some((SyntaxShape::Any, "others".to_string())));
    let named: Vec<(String, NamedType)> =
        (0..sig.named.len()).map(|i| sig.named.entry_at(i)).map(|(k, v)| (k.clone(), v.0)).collect();
    assert_eq!(
        named,
        vec![
            ("help".to_string(), NamedType::Switch(Some('h'))),
            ("out".to_string(), NamedType::Optional(Some('o'), SyntaxShape::FilePath)),
            ("in".to_string(), NamedType::Mandatory(None, SyntaxShape::FilePath)),
            ("quiet".to_string(), NamedType::Switch(Some('q'))),
        ]
    );
    assert_eq!(NamedType::Mandatory(None, SyntaxShape::Int).get_short(), None);
    assert_eq!(NamedType::Switch(Some('q')).get_short(), Some('q'));
    // A flag that is declared again keeps its place and takes the new declaration.
    let sig = sig.switch("out", "now a switch", None);
    assert_eq!(sig.named.len(), 4);
    assert_eq!(sig.named.entry_at(1).1, &(NamedType::Switch(None), "now a switch".to_string()));
    assert_eq!(Signature::new("x"), Signature::build("x"));
}

#[test]
fn a_name_map_finds_what_was_inserted_and_keeps_the_order() {
    let mut map: NameMap<i64> = NameMap::new();
    assert_eq!(map.len(), 0);
    assert_eq!(map.get("a"), None);
    assert_eq!(map.insert("b".to_string(), 1), None);
    assert_eq!(map.insert("a".to_string(), 2), None);
    assert_eq!(map.insert("b".to_string(), 3), Some(1));
    assert_eq!(map.len(), 2);
    assert_eq!(map.get("b"), Some(&3));
    assert_eq!(map.get("a"), Some(&2));
    assert_eq!(map.get("c"), None);
    assert!(map.contains_key("a"));
    assert!(!map.contains_key(""));
    assert_eq!(map.entry_at(0), (&"b".to_string(), &3));
    assert_eq!(map.entry_at(1), (&"a".to_string(), &2));
}

#[test]
fn registered_commands_say_what_the_command_says() {
    let c = whole_stream_command(&Which);
    assert!(matches!(c, Command::WholeStream(_)));
    assert_eq!(c.name(), "which");
    assert_eq!(c.usage(), "Finds a program file.");
    assert_eq!(c.signature(), &Which.signature());
    assert!(!c.is_binary());

    let each = PerItem(KeepUntil);
    assert_eq!(PerItemCommand::name(&each), "keep until");
    let c = per_item_command(&each);
    assert!(matches!(c, Command::PerItem(_)));
    assert_eq!(c.name(), "keep until");
    assert_eq!(c.usage(), "Keeps rows until the condition matches.");
    assert!(c.signature().is_filter);
}

#[test]
fn the_default_context_knows_the_built_in_commands() {
    let context = create_default_context(false);
    let names = context.scope.get_command_names();
    assert_eq!(names.len(), 21);
    for name in ["alias", "first", "all?", "append", "math ceil", "to md", "pls load", "which"] {
        assert!(context.scope.has_command(name), "{}", name);
    }
    assert_eq!(
        context.scope.get_command("first").map(|c| c.usage()),
        Some("Show only the first number of rows.")
    );
    assert_eq!(context.scope.depth(), 1);
    let mut context = EvaluationContext::basic();
    assert!(context.scope.get_command_names().is_empty());
    context.add_commands(vec![whole_stream_command(&Which), whole_stream_command(&AllCommand)]);
    assert_eq!(context.scope.get_command_names(), vec!["all?", "which"]);
}

#[test]
fn evaluated_arguments_are_found_by_place_and_by_name() {
    let args = EvaluatedArgs {
        positional: Some(ints(&[5, 6])),
        named: Some(Dictionary {
            entries: vec![
                ("help".to_string(), Value::from_bool(true)),
                ("quiet".to_string(), Value::from_bool(false)),
                ("out".to_string(), Value::from_string("x")),
            ],
        }),
    };
    assert_eq!(args.nth(1), Some(&Value::from_int(6)));
    assert_eq!(args.nth(2), None);
    assert_eq!(args.get("out"), Some(&Value::from_string("x")));
    assert!(args.has("quiet"));
    assert!(!args.has("loud"));
    assert!(args.switch_present("help"));
    assert!(!args.switch_present("quiet"));
    assert!(args.switch_present("out"));
    assert!(!args.switch_present("loud"));
    let args = EvaluatedCommandArgs::new(CallInfo { args, name_tag: Tag::new(Span::new(2, 4)) });
    assert_eq!(args.name_tag(), Tag::new(Span::new(2, 4)));
    assert_eq!(args.nth(0), Some(&Value::from_int(5)));
    assert_eq!(args.expect_nth(0), Ok(&Value::from_int(5)));
    assert_eq!(
        args.expect_nth(9),
        Err(ShellError::Unimplemented { reason: "Better error: expect_nth".to_string() })
    );
    assert_eq!(args.get("out"), Some(&Value::from_string("x")));
    assert!(args.has("help"));
    let none = EvaluatedArgs { positional: None, named: None };
    assert_eq!(none.nth(0), None);
    assert!(!none.has("help"));
    let context = RunnablePerItemContext { name: Tag::unknown(), ctrl_c: false };
    assert!(!context.ctrl_c);
}

#[test]
fn values_say_what_they_are() {
    let s = Value::from_string("text");
    assert_eq!(s.as_string(), Ok("text".to_string()));
    let n = UntaggedValue::integer(3).into_value(Tag::new(Span::new(1, 2)));
    assert_eq!(
        n.as_string(),
        Err(ShellError::Labeled {
            msg: "Expected a string".to_string(),
            label: "expected a string".to_string(),
            span: Span::new(1, 2),
        })
    );
    assert_eq!(
        n.as_bool(),
        Err(ShellError::Labeled {
            msg: "Expected a boolean".to_string(),
            label: "expected a boolean".to_string(),
            span: Span::new(1, 2),
        })
    );
    assert_eq!(Value::from_bool(true).as_bool(), Ok(true));
    assert!(Value::from_bool(true).is_true());
    assert!(!Value::from_bool(false).is_true());
    assert!(!s.is_true());
    assert!(s.is_primitive());
    assert!(!s.is_row());
    let r = row(vec![("a", Value::from_int(1)), ("b", Value::nothing()), ("a", Value::from_int(2))]);
    assert!(r.is_row());
    assert_eq!(n.tag(), Tag::new(Span::new(1, 2)));
    match &r.value {
        UntaggedValue::Row(d) => {
            assert_eq!(d.get_data("a"), Some(&Value::from_int(1)));
            assert_eq!(d.get_data("b"), Some(&Value::nothing()));
            assert_eq!(d.get_data("c"), None);
        }
        _ => unreachable!(),
    }
    assert_eq!(Dictionary::new().entries.len(), 0);
    let nested = UntaggedValue::table(vec![r.clone(), s.clone(), UntaggedValue::Error(ShellError::unexpected("x")).into_untagged_value()])
        .into_untagged_value();
    assert_eq!(nested.clone(), nested);
    assert_eq!(
        UntaggedValue::Primitive(Primitive::Binary(vec![1, 2])).into_untagged_value().clone(),
        UntaggedValue::Primitive(Primitive::Binary(vec![1, 2])).into_untagged_value()
    );
    assert_eq!(
        ShellError::untagged_runtime_error("r"),
        ShellError::UntaggedRuntime { reason: "r".to_string() }
    );
}

#[test]
fn first_and_append_and_keep_until() {
    assert_eq!(first(FirstArgs { rows: Some(0) }, ints(&[1, 2])), vec![]);
    assert_eq!(first(FirstArgs { rows: Some(5) }, ints(&[1, 2])), ints(&[1, 2]));
    assert_eq!(first(FirstArgs { rows: None }, vec![]), vec![]);

    let tagged = UntaggedValue::integer(1).into_value(Tag::new(Span::new(6, 7)));
    let out = append(AppendArguments { value: Value::from_int(4) }, vec![tagged.clone()]);
    assert_eq!(out, vec![tagged, UntaggedValue::integer(4).into_value(Tag::new(Span::new(6, 7)))]);
    // A table with a single row stands for that row.
    let usa = row(vec![("country", Value::from_string("USA"))]);
    let literal = UntaggedValue::table(vec![usa.clone()]).into_untagged_value();
    assert_eq!(append(AppendArguments { value: literal }, vec![]), vec![usa]);
    let two = UntaggedValue::table(ints(&[1, 2])).into_untagged_value();
    assert_eq!(append(AppendArguments { value: two.clone() }, vec![]), vec![two]);
    assert_eq!(Append.examples()[0].result, Some(ints(&[1, 2, 3, 4])));

    let outcomes = vec![
        Ok(Value::from_bool(false)),
        Err(ShellError::unexpected("failed")),
        Ok(Value::from_int(1)),
        Ok(Value::from_bool(true)),
        Ok(Value::from_bool(false)),
    ];
    assert_eq!(keep_until(ints(&[1, 2, 3, 4, 5]), &outcomes), ints(&[1, 2, 3]));
    assert!(keeps(&outcomes[1]));
    assert!(!keeps(&outcomes[3]));
    assert_eq!(keep_until(vec![], &vec![]), vec![]);
}

#[test]
fn all_holds_if_every_condition_holds() {
    let tag = Tag::new(Span::new(2, 6));
    let yes = || Ok(Value::from_bool(true));
    let no = || Ok(Value::from_bool(false));
    assert_eq!(all(vec![], tag), Ok(UntaggedValue::boolean(true).into_value(tag)));
    assert_eq!(all(vec![yes(), yes()], tag), Ok(UntaggedValue::boolean(true).into_value(tag)));
    assert_eq!(all(vec![yes(), no(), yes()], tag), Ok(UntaggedValue::boolean(false).into_value(tag)));
    let failed = ShellError::unexpected("failed");
    assert_eq!(all(vec![no(), Err(failed.clone()), yes()], tag), Err(failed.clone()));
    let not_boolean = UntaggedValue::integer(1).into_value(Tag::new(Span::new(9, 10)));
    assert_eq!(
        all(vec![yes(), Ok(not_boolean), Err(failed.clone())], tag),
        Err(ShellError::Labeled {
            msg: "Expected a boolean".to_string(),
            label: "expected a boolean".to_string(),
            span: Span::new(9, 10),
        })
    );
    assert_eq!(all_step(Ok(true), no()), Ok(false));
    assert_eq!(all_step(Err(failed.clone()), yes()), Err(failed));

    let block = boolean_block();
    assert!(all_condition(&block, tag).is_ok());
    let empty = Block::new(vec![], Span::unknown());
    assert_eq!(
        all_condition(&empty, tag).map(|_| ()),
        Err(ShellError::Labeled {
            msg: "Expected a condition".to_string(),
            label: "expected a condition".to_string(),
            span: Span::new(2, 6),
        })
    );
    let mut captured = NameMap::new();
    captured.insert("limit".to_string(), Value::from_int(3));
    let args = AllArguments { block, captured };
    let mut scope = Scope::new();
    scope.add_var("$it", Value::from_int(0));
    all_begin_row(&mut scope, &args.captured, Value::from_int(7));
    assert_eq!(scope.depth(), 2);
    assert_eq!(scope.get_var("$it"), Some(Value::from_int(7)));
    assert_eq!(scope.get_var("limit"), Some(Value::from_int(3)));
    all_end_row(&mut scope);
    assert_eq!(scope.depth(), 1);
    assert_eq!(scope.get_var("$it"), Some(Value::from_int(0)));
    assert_eq!(scope.get_var("limit"), None);
}

#[test]
fn ceil_of_whole_numbers_decimals_and_other_values() {
    let d = |unscaled, scale| {
        UntaggedValue::Primitive(Primitive::Decimal(Decimal { unscaled, scale })).into_untagged_value()
    };
    assert_eq!(ceil(Value::from_int(-4)), Value::from_int(-4));
    assert_eq!(ceil(d(20, 1)), Value::from_int(2));
    assert_eq!(ceil(d(-5, 1)), Value::from_int(0));
    assert_eq!(ceil(d(5, 1)), Value::from_int(1));
    assert_eq!(ceil(d(1, 3)), Value::from_int(1));
    assert_eq!(ceil(d(-1999, 3)), Value::from_int(-1));
    assert_eq!(ceil(d(7, 0)), Value::from_int(7));
    assert_eq!(ceil(d(1, 30)), Value::from_int(1));
    assert_eq!(ceil(d(-1, 30)), Value::from_int(0));
    assert_eq!(
        ceil(Value::from_string("x")),
        UntaggedValue::Error(ShellError::unexpected("Only numerical values are supported"))
            .into_untagged_value()
    );
    assert!(is_below(1, Decimal { unscaled: 15, scale: 1 }));
    assert!(!is_below(2, Decimal { unscaled: 15, scale: 1 }));
    assert!(is_below(-1, Decimal { unscaled: 3, scale: 25 }));
    assert!(!is_below(0, Decimal { unscaled: -3, scale: 25 }));
    assert_eq!(ceil_from_rounded(Decimal { unscaled: 15, scale: 1 }, Some(1)), Value::from_int(2));
    assert_eq!(ceil_from_rounded(Decimal { unscaled: 15, scale: 1 }, Some(2)), Value::from_int(2));
    let out_of_range =
        UntaggedValue::Error(ShellError::unexpected("Number out of range")).into_untagged_value();
    assert_eq!(ceil_from_rounded(Decimal { unscaled: 15, scale: 1 }, None), out_of_range);
}

#[test]
fn seq_separators() {
    let with = |separator: Option<Value>, terminator: Option<Value>| SeqArgs {
        separator,
        terminator,
        widths: false,
        rest: vec![],
    };
    assert_eq!(separators(&with(Some(Value::from_string(",")), None)), Ok((',', ',')));
    assert_eq!(separators(&with(Some(Value::from_int(1)), None)), Ok(('\n', '\n')));
    let long = UntaggedValue::string("ab").into_value(Tag::new(Span::new(3, 5)));
    assert_eq!(
        separators(&with(Some(long.clone()), None)),
        Err(ShellError::Labeled {
            msg: "Expected a single separator char from --separator".to_string(),
            label: "requires a single character string input".to_string(),
            span: Span::new(3, 5),
        })
    );
    assert_eq!(
        separators(&with(None, Some(long))),
        Err(ShellError::Labeled {
            msg: "expected a single terminator char from --terminator".to_string(),
            label: "requires a single character string input".to_string(),
            span: Span::new(3, 5),
        })
    );
    assert_eq!(escape_sequences("\\\\n"), "\\\n");
    assert_eq!(escape_sequences("plain"), "plain");
}

#[test]
fn shuffle_keeps_the_values_and_changes_their_order() {
    let input: Vec<i64> = (0..200).collect();
    let out = shuffle(ints(&input));
    assert_ne!(out, ints(&input));
    assert_eq!(shuffle(vec![]), vec![]);
}

#[test]
fn markdown_tables() {
    let input = vec![
        row(vec![("name", Value::from_string("a<b")), ("n", Value::from_int(1))]),
        Value::from_int(9),
        row(vec![("n", Value::from_int(22)), ("x&y", Value::from_bool(true))]),
    ];
    assert_eq!(merge_descriptors(&input), vec!["name", "n", "", "x&y"]);
    let tag = Tag::new(Span::new(5, 10));
    assert_eq!(
        to_md(ToMarkdownArgs { pretty: false }, &input, tag),
        UntaggedValue::string("|name|n||x&amp;y|\n|-|-|-|-|\n|a<b|1|||\n||22||Yes|\n").into_value(tag)
    );
    assert_eq!(
        to_md(ToMarkdownArgs { pretty: true }, &input, tag),
        UntaggedValue::string(
            "| name | n  |   | x&amp;y |\n| ---- | -- | - | ------- |\n| a<b  | 1  |   |         |\n|      | 22 |   | Yes     |\n"
        )
        .into_value(tag)
    );
    // Values that are no rows give no lines, and a lone column without a name no header.
    assert_eq!(
        to_md(ToMarkdownArgs { pretty: false }, &ints(&[1, 2]), tag),
        UntaggedValue::string("").into_value(tag)
    );
    assert_eq!(merge_descriptors(&vec![]), Vec::<String>::new());
    assert_eq!(plain_string(&Value::nothing()), "");
    assert_eq!(plain_string(&Value::from_int(-12)), "-12");
    assert_eq!(plain_string(&Value::from_bool(false)), "No");
    assert_eq!(
        plain_string(
            &UntaggedValue::Primitive(Primitive::Decimal(Decimal { unscaled: 15, scale: 1 }))
                .into_untagged_value()
        ),
        "15e-1"
    );
    assert_eq!(
        plain_string(&UntaggedValue::Primitive(Primitive::Filesize(2048)).into_untagged_value()),
        "2048"
    );
    assert_eq!(plain_string(&row(vec![])), "[row]");
    assert_eq!(plain_string(&UntaggedValue::table(vec![]).into_untagged_value()), "[table]");
}

#[test]
fn values_are_inserted_at_a_column_path() {
    let inner = row(vec![("b", Value::from_int(1))]);
    let outer = row(vec![("a", inner), ("c", Value::from_int(2))]);
    let path = |names: &[&str]| names.iter().map(|n| n.to_string()).collect::<Vec<String>>();
    assert_eq!(
        insert_data_at_column_path(outer.clone(), &path(&["d"]), 0, Value::from_int(3)),
        Ok(row(vec![
            ("a", row(vec![("b", Value::from_int(1))])),
            ("c", Value::from_int(2)),
            ("d", Value::from_int(3)),
        ]))
    );
    assert_eq!(
        insert_data_at_column_path(outer.clone(), &path(&["a", "b"]), 0, Value::from_int(9)),
        Ok(row(vec![("a", row(vec![("b", Value::from_int(9))])), ("c", Value::from_int(2))]))
    );
    assert_eq!(
        insert_data_at_column_path(outer.clone(), &path(&["x", "y"]), 0, Value::from_int(9)),
        Err(PathError::MissingCell)
    );
    assert_eq!(
        insert_data_at_column_path(outer.clone(), &path(&["c", "y"]), 0, Value::from_int(9)),
        Err(PathError::NotARow)
    );
    assert_eq!(
        insert_data_at_column_path(outer.clone(), &path(&[]), 0, Value::from_int(9)),
        Err(PathError::EmptyPath)
    );
    let args = InsertArgs { column: path(&["n"]), value: Value::from_string("v") };
    assert_eq!(
        insert(&args, row(vec![])),
        Ok(row(vec![("n", Value::from_string("v"))]))
    );
    let stray = UntaggedValue::integer(1).into_value(Tag::new(Span::new(4, 5)));
    assert_eq!(
        insert(&args, stray),
        Err(ShellError::Labeled {
            msg: "Unrecognized type in stream".to_string(),
            label: "original value".to_string(),
            span: Span::new(4, 5),
        })
    );
    let deep = InsertArgs { column: path(&["a", "b"]), value: Value::from_string("v") };
    assert!(matches!(insert(&deep, row(vec![])), Err(ShellError::Labeled { .. })));
}

#[test]
fn which_tells_built_in_commands_from_programs() {
    let context = create_default_context(false);
    let tag = Tag::new(Span::new(6, 11));
    let cell = |v: UntaggedValue| v.into_value(tag);
    let entry = |arg: &str, path: Value, builtin: bool| {
        UntaggedValue::row(vec![
            ("arg".to_string(), cell(UntaggedValue::string(arg))),
            ("path".to_string(), path),
            ("builtin".to_string(), cell(UntaggedValue::boolean(builtin))),
        ])
        .into_value(tag)
    };
    assert_eq!(
        which_builtin("first", tag, &context.scope),
        Some(entry("first", cell(UntaggedValue::string("nushell built-in command")), true))
    );
    assert_eq!(which_builtin("cargo", tag, &context.scope), None);
    assert_eq!(
        which_external("cargo", tag, Some("/usr/bin/cargo".to_string())),
        Ok(entry(
            "cargo",
            cell(UntaggedValue::Primitive(Primitive::Path("/usr/bin/cargo".to_string()))),
            false
        ))
    );
    assert_eq!(
        which_external("nothing", tag, None),
        Err(ShellError::Labeled {
            msg: "Binary not found for argument, and argument is not a builtin".to_string(),
            label: "not found".to_string(),
            span: Span::new(6, 11),
        })
    );
}

#[test]
fn table_options_from_the_configuration() {
    let mut vars: NameMap<Value> = NameMap::new();
    vars.insert("table_mode".to_string(), Value::from_string("rounded"));
    vars.insert("disable_table_indexes".to_string(), Value::from_bool(true));
    vars.insert(
        "color_config".to_string(),
        row(vec![
            ("header_color".to_string().as_str(), Value::from_string("r")),
            ("header_bold", Value::from_bool(false)),
            ("header_align", Value::from_string("left")),
        ]),
    );
    let config = NuConfig { vars };
    assert_eq!(table_mode(&config), TableTheme::Rounded);
    assert!(disabled_indexes(&config));
    assert_eq!(
        config.header_style(),
        TextStyle { alignment: Alignment::Left, is_bold: Some(false), color: Some(Color::Red) }
    );
    assert_eq!(ConfigExtensions::table_mode(&config), TableTheme::Rounded);
    assert!(ConfigExtensions::disabled_indexes(&config));
    assert_eq!(
        get_color_from_key_and_subkey(&config, "color_config", "header_color"),
        Some(Value::from_string("r"))
    );
    assert_eq!(get_color_from_key_and_subkey(&config, "color_config", "other"), None);
    assert_eq!(get_color_from_key_and_subkey(&config, "table_mode", "other"), None);
    assert_eq!(get_color_from_key_and_subkey(&config, "missing", "other"), None);

    let plain = NuConfig { vars: NameMap::new() };
    assert_eq!(table_mode(&plain), TableTheme::Compact);
    assert!(!disabled_indexes(&plain));
    assert_eq!(
        plain.header_style(),
        TextStyle { alignment: Alignment::Center, is_bold: Some(true), color: Some(Color::Green) }
    );
    for (name, theme) in [
        ("basic", TableTheme::Basic),
        ("compact", TableTheme::Compact),
        ("light", TableTheme::Light),
        ("thin", TableTheme::Thin),
        ("with_love", TableTheme::WithLove),
        ("compact_double", TableTheme::CompactDouble),
        ("rounded", TableTheme::Rounded),
        ("reinforced", TableTheme::Reinforced),
        ("heavy", TableTheme::Heavy),
        ("none", TableTheme::Blank),
        ("unheard of", TableTheme::Compact),
    ] {
        let mut vars: NameMap<Value> = NameMap::new();
        vars.insert("table_mode".to_string(), Value::from_string(name));
        assert_eq!(table_mode(&NuConfig { vars }), theme);
    }
    assert_eq!(header_alignment_from_value(Some(&Value::from_string("r"))), Alignment::Right);
    assert_eq!(header_alignment_from_value(Some(&Value::from_string("c"))), Alignment::Center);
    assert_eq!(header_alignment_from_value(Some(&Value::from_int(1))), Alignment::Center);
    assert_eq!(header_alignment_from_value(None), Alignment::Center);
    assert!(header_bold_from_value(None));
    assert!(header_bold_from_value(Some(&Value::from_string("no"))));
    assert!(!header_bold_from_value(Some(&Value::from_bool(false))));
    assert_eq!(lookup_color("cyan"), Color::Cyan);
    assert_eq!(lookup_color("u"), Color::Blue);
    assert_eq!(lookup_color("mauve"), Color::White);
}

#[test]
fn create_themed_palette() {
    let json = r#"
{
    "open_delimiter": "a359cc",
    "close_delimiter": "a359cc",
    "type": "a359cc",
    "identifier": "a359cc",
    "it_variable": "a359cc",
    "variable": "a359cc",
    "operator": "a359cc",
    "dot": "a359cc",
    "dot_dot": "a359cc",
    "internal_command": "a359cc",
    "external_command": "a359cc",
    "external_word": "a359cc",
    "bare_member": "a359cc",
    "string_member": "a359cc",
    "string": "a359cc",
    "path": "a359cc",
    "word": "a359cc",
    "keyword": "a359cc",
    "pipe": "a359cc",
    "glob_pattern": "a359cc",
    "flag": "a359cc",
    "shorthand_flag": "a359cc",
    "int": "a359cc",
    "decimal": "a359cc",
    "garbage": "a359cc",
    "whitespace": "a359cc",
    "separator": "a359cc",
    "comment": "a359cc",
    "size_number": "a359cc",
    "size_unit": "a359cc"
}"#;
    let parsed: serde_json::Value = serde_json::from_str(json).unwrap();
    let color = |key: &str| to_color(parsed[key].as_str().unwrap()).unwrap();
    let theme = Theme {
        open_delimiter: color("open_delimiter"),
        close_delimiter: color("close_delimiter"),
        type_: color("type"),
        identifier: color("identifier"),
        it_variable: color("it_variable"),
        variable: color("variable"),
        operator: color("operator"),
        dot: color("dot"),
        dot_dot: color("dot_dot"),
        internal_command: color("internal_command"),
        external_command: color("external_command"),
        external_word: color("external_word"),
        bare_member: color("bare_member"),
        string_member: color("string_member"),
        string: color("string"),
        path: color("path"),
        word: color("word"),
        keyword: color("keyword"),
        pipe: color("pipe"),
        glob_pattern: color("glob_pattern"),
        flag: color("flag"),
        shorthand_flag: color("shorthand_flag"),
        integer: color("int"),
        decimal: color("decimal"),
        garbage: color("garbage"),
        whitespace: color("whitespace"),
        separator: color("separator"),
        comment: color("comment"),
        size_number: color("size_number"),
        size_unit: color("size_unit"),
    };
    let themed_palette = ThemedPallet::from_theme(theme);
    let test_shape = Spanned { item: FlatShape::Type, span: Span::new(4, 9) };
    let styled = themed_palette.styles_for_shape(&test_shape);
    assert_eq!(styled.len(), 1);
    assert_eq!(
        styled[0],
        Spanned { item: Color::RGB(163, 89, 204).bold(), span: Span::new(4, 9) },
    );
}

#[test]
fn palettes_and_colour_names() {
    let palette = DefaultPalette {};
    let at = Span::new(1, 4);
    let style = |shape: FlatShape| palette.styles_for_shape(&Spanned { item: shape, span: at });
    assert_eq!(style(FlatShape::Type), vec![Spanned { item: Color::Blue.bold(), span: at }]);
    assert_eq!(
        style(FlatShape::OpenDelimiter(Delimiter::Paren)),
        vec![Spanned { item: Color::White.normal(), span: at }]
    );
    assert_eq!(
        style(FlatShape::Garbage),
        vec![Spanned { item: Style::new().fg(Color::White).on(Color::Red), span: at }]
    );
    assert_eq!(
        style(FlatShape::Size { number: Span::new(1, 2), unit: Span::new(2, 4) }),
        vec![
            Spanned { item: Color::Purple.bold(), span: Span::new(1, 2) },
            Spanned { item: Color::Cyan.bold(), span: Span::new(2, 4) },
        ]
    );
    assert_eq!(Style::new().bold(), Style { foreground: None, background: None, is_bold: true });
    assert_eq!(to_color("00ff10"), Ok(Color::RGB(0, 255, 16)));
    assert_eq!(to_color("00ff1"), Err(ColorError::TooShort));
    assert_eq!(to_color(""), Err(ColorError::TooShort));
    assert_eq!(to_color("00FF10"), Err(ColorError::InvalidCharacter(b'F')));
    // Letters beyond `f` are taken too: `z` counts as 35, and what does not fit a byte is cut off.
    assert_eq!(to_color("0z0000"), Ok(Color::RGB(35, 0, 0)));
    assert_eq!(to_color("z00000"), Ok(Color::RGB(0x30, 0, 0)));
    assert_eq!(numerical_value(b'7'), Ok(7));
    assert_eq!(numerical_value(b'c'), Ok(12));
    assert_eq!(numerical_value(b' '), Err(ColorError::InvalidCharacter(b' ')));
    assert_eq!(xtoi(&vec![b'1', b'f', b'g'], 0), Ok(0x1f));
    assert_eq!(xtoi(&vec![b'1', b'f', b'g'], 2), Err(ColorError::TooShort));
}

#[test]
fn processes_as_rows() {
    assert_eq!(Ps::new(), Ps::default());
    let p = ProcessInfo {
        pid: 42,
        name: "nu".to_string(),
        status: "Run".to_string(),
        cpu: Decimal { unscaled: 125, scale: 1 },
        mem: 1024,
        virtual_mem: 4096,
        parent: Some(1),
        exe: "/usr/bin/nu".to_string(),
        cmd: vec!["nu".to_string(), "-c".to_string(), "ls".to_string()],
    };
    let tag = Tag::new(Span::new(0, 2));
    let cell = |p: Primitive| UntaggedValue::Primitive(p).into_value(tag);
    let short = vec![
        ("pid".to_string(), cell(Primitive::Int(42))),
        ("name".to_string(), cell(Primitive::String("nu".to_string()))),
        ("status".to_string(), cell(Primitive::String("Run".to_string()))),
        ("cpu".to_string(), cell(Primitive::Decimal(Decimal { unscaled: 125, scale: 1 }))),
        ("mem".to_string(), cell(Primitive::Filesize(1024))),
        ("virtual".to_string(), cell(Primitive::Filesize(4096))),
    ];
    assert_eq!(process_row(&p, false, tag), UntaggedValue::row(short.clone()).into_value(tag));
    let mut long = short;
    long.push(("parent".to_string(), cell(Primitive::Int(1))));
    long.push(("exe".to_string(), cell(Primitive::Path("/usr/bin/nu".to_string()))));
    long.push(("command".to_string(), cell(Primitive::String("nu -c ls".to_string()))));
    assert_eq!(process_row(&p, true, tag), UntaggedValue::row(long).into_value(tag));
    assert_eq!(join(&vec![], ", "), "");
    assert_eq!(join(&vec!["a".to_string()], ", "), "a");
    assert_eq!(join(&vec!["a".to_string(), "b".to_string()], "."), "a.b");
}

#[test]
fn start_takes_files_that_exist_and_addresses() {
    let mut start = Start::new();
    assert_eq!(start.add_filename("notes.txt".to_string(), true), None);
    assert_eq!(start.add_filename("https://example.net".to_string(), false), None);
    assert_eq!(
        start.add_filename("no such file".to_string(), false),
        Some("The file 'no such file' does not exist".to_string())
    );
    assert_eq!(start.keep_filename("kept".to_string(), true), None);
    assert_eq!(start.filenames, vec!["notes.txt", "https://example.net", "kept"]);
    assert_eq!(start.parse_value(&Value::from_string("more.txt"), true), None);
    assert_eq!(
        start.parse_value(&Value::from_int(1), true),
        Some("Could not convert the input to a string".to_string())
    );
    assert_eq!(start.filenames.len(), 4);

    let call = |positional: Vec<Value>, app: Option<Value>| CallInfo {
        args: EvaluatedArgs {
            positional: Some(positional),
            named: app.map(|v| Dictionary { entries: vec![("application".to_string(), v)] }),
        },
        name_tag: Tag::unknown(),
    };
    let strings = call(vec![Value::from_string("a"), Value::from_string("b")], Some(Value::from_string("vim")));
    assert_eq!(Start::candidates(&strings), vec!["a", "b"]);
    start.parse_application(&strings);
    assert_eq!(start.application, Some("vim".to_string()));
    let mixed = call(vec![Value::from_string("a"), Value::from_int(1)], Some(Value::from_int(1)));
    assert_eq!(Start::candidates(&mixed), Vec::<String>::new());
    start.parse_application(&mixed);
    assert_eq!(start.application, None);
    let before = (start.filenames.clone(), start.application.clone());
    start.exec();
    assert_eq!((start.filenames.clone(), start.application.clone()), before);
}

#[test]
fn values_are_found_at_a_column_path() {
    let inner = row(vec![("b", Value::from_int(1))]);
    let outer = row(vec![("a", inner), ("c", Value::from_int(2))]);
    let path = |names: &[&str]| names.iter().map(|n| n.to_string()).collect::<Vec<String>>();
    assert_eq!(get_data_by_column_path(&outer, &path(&["a", "b"]), 0), Some(&Value::from_int(1)));
    assert_eq!(get_data_by_column_path(&outer, &path(&["c"]), 0), Some(&Value::from_int(2)));
    assert_eq!(
        get_data_by_column_path(&outer, &path(&["a"]), 0),
        Some(&row(vec![("b", Value::from_int(1))]))
    );
    assert_eq!(get_data_by_column_path(&outer, &path(&[]), 0), Some(&outer));
    assert_eq!(get_data_by_column_path(&outer, &path(&["x"]), 0), None);
    assert_eq!(get_data_by_column_path(&outer, &path(&["c", "d"]), 0), None);
    assert_eq!(get_data_by_column_path(&outer, &path(&["x", "b"]), 1), None);
    assert_eq!(get_data_by_column_path(&outer, &path(&["x", "c"]), 1), Some(&Value::from_int(2)));
    let changed = insert_data_at_column_path(outer, &path(&["a", "b"]), 0, Value::from_int(9));
    assert_eq!(
        changed.as_ref().ok().and_then(|v| get_data_by_column_path(v, &path(&["a", "b"]), 0)),
        Some(&Value::from_int(9))
    );
}

#[test]
fn a_path_in_a_column_is_split_in_place() {
    let names = |items: &[&str]| items.iter().map(|n| n.to_string()).collect::<Vec<String>>();
    let at = Tag::new(Span::new(4, 9));
    let file = UntaggedValue::string("/a/b").into_value(at);
    let value = row(vec![("file", file), ("size", Value::from_int(3))]);
    assert_eq!(path_at(&value, &names(&["file"])), Ok("/a/b".to_string()));
    assert_eq!(
        path_at(&value, &names(&["size"])),
        Err(ShellError::Labeled {
            msg: "Expected a string".to_string(),
            label: "expected a string".to_string(),
            span: Span::unknown(),
        })
    );
    let unknown = ShellError::Labeled {
        msg: "Unknown column".to_string(),
        label: "did not find anything under this name".to_string(),
        span: Span::unknown(),
    };
    assert_eq!(path_at(&value, &names(&["other"])), Err(unknown.clone()));
    let parts = |tag: Tag| {
        vec![
            UntaggedValue::string("/").into_value(tag),
            UntaggedValue::string("a").into_value(tag),
            UntaggedValue::string("b").into_value(tag),
        ]
    };
    assert_eq!(split_rows(&names(&["/", "a", "b"]), at), parts(at));
    assert_eq!(split_rows(&names(&[]), at), vec![]);
    assert_eq!(
        split_column(value.clone(), &names(&["file"]), &names(&["/", "a", "b"])),
        Ok(row(vec![
            ("file", UntaggedValue::table(parts(at)).into_value(at)),
            ("size", Value::from_int(3)),
        ]))
    );
    assert_eq!(split_column(value.clone(), &names(&["other"]), &names(&["x"])), Err(unknown.clone()));
    assert_eq!(split_column(value, &names(&["size", "x"]), &names(&["x"])), Err(unknown));
}
