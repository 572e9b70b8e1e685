use nu_engine::command::{whole_stream_command, CallInfo, Dispatch, EvaluatedArgs};
use nu_engine::commands::first::First;
use nu_engine::commands::keep_until::SubCommand as KeepUntil;
use nu_engine::commands::seq::{layout, pad_number};
use nu_engine::commands::sum::{
    all_primitive, cells_of_column, columns, sum_columns, sum_numbers, Sum,
};
use nu_engine::commands::to_toml::{to_toml, to_toml_value, value_to_toml_value, written_document};
use nu_engine::command::per_item_command;
use nu_engine::command::PerItem;
use nu_engine::commands::dataframe::load::{
    csv_options, file_format, names_of, CsvOptions, FileFormat,
};
use nu_engine::commands::dataframe::where_::{
    column_of, comparison_of, condition, operand_of, Comparison, Operand,
};
use nu_engine::errors::ShellError;
use nu_engine::hir::{
    Binary, Block, ClassifiedCommand, Expression, Group, Literal, Operator, Path, PathMember,
    Pipeline, SpannedExpression, UnspannedPathMember,
};
use nu_engine::plugins::add::{as_column_path, Add};
use nu_engine::shape::SyntaxShape;
use nu_engine::signature::Signature;
use nu_engine::span::{Span, Spanned, Tag};
use nu_engine::start::Start;
use nu_engine::value::{Decimal, Dictionary, Primitive, UntaggedValue, Value};

fn row(cells: Vec<(&str, Value)>) -> Value {
    UntaggedValue::row(cells.into_iter().map(|(k, v)| (k.to_string(), v)).collect())
        .into_untagged_value()
}

fn text_of(v: &Value) -> String {
    to_toml_value(v, Tag::unknown()).expect("a document").as_string().expect("a string")
}

fn labeled(msg: &str, label: &str, span: Span) -> ShellError {
    ShellError::Labeled { msg: msg.to_string(), label: label.to_string(), span }
}

#[test]
fn test_value_toml_value() {
    let m = vec![
        ("rust".to_owned(), Value::from_string("editor")),
        ("is".to_owned(), Value::nothing()),
    ];
    value_to_toml_value(&UntaggedValue::row(m).into_untagged_value())
        .expect("Expected Ok from valid TOML dictionary");
    let document = Value::from_string(
        r#"
            title = "TOML Example"

            [owner]
            name = "Tom Preston-Werner"
            dob = 1979-05-27T07:32:00-08:00 # First class dates
            "#,
    );
    value_to_toml_value(&document).expect("Expected Ok from valid TOML string");
    let text = text_of(&document);
    assert_eq!(text.lines().next(), Some("title = \"TOML Example\""));
    assert!(text.contains("[owner]\n"));
    assert!(text.contains("name = \"Tom Preston-Werner\"\n"));
    value_to_toml_value(&Value::from_string("not_valid"))
        .expect_err("Expected non-valid toml (String) to cause error!");
    value_to_toml_value(&UntaggedValue::table(vec![Value::from_string("1")]).into_untagged_value())
        .expect_err("Expected non-valid toml (Table) to cause error!");
}

#[test]
fn a_row_is_written_as_a_toml_table() {
    let v = row(vec![("rust", Value::from_string("editor")), ("is", Value::nothing())]);
    assert_eq!(text_of(&v), "is = \"<Nothing>\"\nrust = \"editor\"\n");
    let numbers = row(vec![
        ("n", Value::from_int(-7)),
        ("ok", Value::from_bool(true)),
        (
            "size",
            UntaggedValue::Primitive(Primitive::Filesize(2048)).into_untagged_value(),
        ),
        (
            "ratio",
            UntaggedValue::Primitive(Primitive::Decimal(Decimal { unscaled: 15, scale: 1 }))
                .into_untagged_value(),
        ),
        (
            "bytes",
            UntaggedValue::Primitive(Primitive::Binary(vec![1, 2, 255])).into_untagged_value(),
        ),
    ]);
    assert_eq!(
        text_of(&numbers),
        "bytes = [1, 2, 255]\nn = -7\nok = true\nratio = 1.5\nsize = 2048\n"
    );
}

#[test]
fn a_later_cell_of_the_same_name_replaces_the_earlier_one() {
    let v = row(vec![("a", Value::from_int(1)), ("a", Value::from_int(2))]);
    assert_eq!(text_of(&v), "a = 2\n");
}

#[test]
fn a_list_inside_a_row_holds_documents() {
    let v = row(vec![(
        "servers",
        UntaggedValue::table(vec![
            row(vec![("size", Value::from_int(80))]),
            Value::from_string("size = 443"),
        ])
        .into_untagged_value(),
    )]);
    assert_eq!(text_of(&v), "[[servers]]\nsize = 80\n\n[[servers]]\nsize = 443\n");
    let bad = row(vec![(
        "servers",
        UntaggedValue::table(vec![Value::from_int(1)]).into_untagged_value(),
    )]);
    assert_eq!(
        value_to_toml_value(&bad).err(),
        Some(labeled(
            "Primitive(Int(1)) is not a valid top-level TOML",
            "invalid TOML",
            Span::unknown()
        ))
    );
}

#[test]
fn what_is_no_document_gives_the_matching_error() {
    let at = Tag::new(Span::new(3, 9));
    let not_valid = UntaggedValue::string("not_valid").into_value(at);
    assert_eq!(
        value_to_toml_value(&not_valid).err(),
        Some(labeled(
            "\"not_valid\" unable to de-serialize string to TOML",
            "invalid TOML",
            Span::new(3, 9)
        ))
    );
    let number = UntaggedValue::integer(1).into_value(at);
    assert_eq!(
        value_to_toml_value(&number).err(),
        Some(labeled(
            &format!("{:?} is not a valid top-level TOML", UntaggedValue::integer(1)),
            "invalid TOML",
            Span::new(3, 9)
        ))
    );
    let too_large = row(vec![(
        "size",
        UntaggedValue::Primitive(Primitive::Filesize(u64::MAX)).into_value(at),
    )]);
    assert_eq!(
        value_to_toml_value(&too_large).err(),
        Some(labeled("converting to TOML integer", "out of range", Span::new(3, 9)))
    );
    let failed = row(vec![(
        "e",
        UntaggedValue::Error(ShellError::Unexpected { reason: "boom".to_string() })
            .into_untagged_value(),
    )]);
    assert_eq!(
        value_to_toml_value(&failed).err(),
        Some(ShellError::Unexpected { reason: "boom".to_string() })
    );
    let name = Tag::new(Span::new(0, 7));
    assert_eq!(
        to_toml_value(&number, name),
        Err(labeled(
            "Expected a table with TOML-compatible structure from pipeline",
            "requires TOML-compatible input",
            Span::new(0, 7)
        ))
    );
}

#[test]
fn to_toml_gathers_its_input() {
    let name = Tag::new(Span::new(0, 7));
    assert_eq!(to_toml(vec![], name), None);
    let one = to_toml(vec![row(vec![("a", Value::from_int(1))])], name);
    assert_eq!(one, Some(Ok(UntaggedValue::string("a = 1\n").into_value(name))));
    let several = to_toml(
        vec![row(vec![("a", Value::from_int(1))]), row(vec![("a", Value::from_int(2))])],
        name,
    );
    assert_eq!(
        several,
        Some(Err(labeled(
            "Expected a table with TOML-compatible structure from pipeline",
            "requires TOML-compatible input",
            Span::new(0, 7)
        )))
    );
    assert_eq!(
        written_document(Some("a = 1\n".to_string()), name),
        Ok(UntaggedValue::string("a = 1\n").into_value(name))
    );
    assert_eq!(
        written_document(None, name),
        Err(labeled(
            "Expected a table with TOML-compatible structure.tag() from pipeline",
            "requires TOML-compatible input",
            Span::new(0, 7)
        ))
    );
}

#[test]
fn numbers_are_summed() {
    let values = vec![Value::from_int(1), Value::from_int(2), Value::from_int(3)];
    assert_eq!(sum_numbers(&values), Ok(Value::from_int(6)));
    assert_eq!(sum_numbers(&vec![]), Ok(Value::from_int(0)));
    assert_eq!(
        sum_numbers(&vec![Value::from_int(-5), Value::from_int(2)]),
        Ok(Value::from_int(-3))
    );
    let stray = UntaggedValue::string("x").into_value(Tag::new(Span::new(2, 3)));
    let other = UntaggedValue::string("y").into_value(Tag::new(Span::new(5, 6)));
    assert_eq!(
        sum_numbers(&vec![Value::from_int(1), stray, other]),
        Err(labeled("Could not sum the values", "not a number", Span::new(2, 3)))
    );
    assert_eq!(
        sum_numbers(&vec![Value::from_int(i64::MAX), Value::from_int(1)]),
        Err(ShellError::Unexpected { reason: "The sum is out of range".to_string() })
    );
    assert_eq!(
        sum_numbers(&vec![Value::from_int(i64::MAX), Value::from_int(1), Value::from_int(-1)]),
        Ok(Value::from_int(i64::MAX))
    );
    assert_eq!(Sum.examples().len(), 2);
}

#[test]
fn columns_are_summed_one_by_one() {
    let values = vec![
        row(vec![("a", Value::from_int(1)), ("b", Value::from_int(10))]),
        row(vec![("b", Value::from_int(20)), ("c", Value::from_string("x"))]),
        row(vec![("a", Value::from_int(2))]),
    ];
    assert!(!all_primitive(&values));
    assert!(all_primitive(&vec![Value::from_int(1), Value::from_string("a")]));
    assert!(all_primitive(&vec![]));
    assert_eq!(columns(&values), vec!["a".to_string(), "b".to_string(), "c".to_string()]);
    assert_eq!(cells_of_column(&values, "a"), vec![Value::from_int(1), Value::from_int(2)]);
    assert_eq!(cells_of_column(&values, "z"), vec![]);
    let (errors, totals) = sum_columns(&values);
    assert_eq!(
        errors,
        vec![labeled("Could not sum the values", "not a number", Span::unknown())]
    );
    assert_eq!(totals, row(vec![("a", Value::from_int(3)), ("b", Value::from_int(30))]));
}

#[test]
fn the_add_plugin_adds_its_field_to_rows() {
    let mut plugin = Add::new();
    assert_eq!(plugin, Add { field: None, value: None });
    let signature = plugin.config();
    assert_eq!(
        signature,
        Signature::build("add")
            .desc("Add a new field to the table.")
            .required("Field", SyntaxShape::ColumnPath, "")
            .required("Value", SyntaxShape::String, "")
            .rest(SyntaxShape::String, "")
            .filter()
    );
    assert_eq!(
        plugin.filter(row(vec![])),
        Err(ShellError::UntaggedRuntime { reason: "Unrecognized type in stream".to_string() })
    );
    let path = UntaggedValue::table(vec![Value::from_string("a"), Value::from_string("b")])
        .into_untagged_value();
    assert_eq!(as_column_path(&path), Some(vec!["a".to_string(), "b".to_string()]));
    assert_eq!(as_column_path(&Value::from_string("a")), None);
    assert_eq!(
        as_column_path(&UntaggedValue::table(vec![Value::from_int(1)]).into_untagged_value()),
        None
    );
    let call = CallInfo {
        args: EvaluatedArgs {
            positional: Some(vec![path, Value::from_int(7)]),
            named: None,
        },
        name_tag: Tag::unknown(),
    };
    assert_eq!(plugin.begin_filter(call), Ok(()));
    assert_eq!(plugin.field, Some(vec!["a".to_string(), "b".to_string()]));
    assert_eq!(plugin.value, Some(Value::from_int(7)));
    let input = row(vec![("a", row(vec![("x", Value::from_int(1))]))]);
    assert_eq!(
        plugin.filter(input),
        Ok(vec![row(vec![(
            "a",
            row(vec![("x", Value::from_int(1)), ("b", Value::from_int(7))])
        )])])
    );
    assert_eq!(
        plugin.filter(row(vec![("q", Value::from_int(1))])),
        Err(ShellError::UntaggedRuntime {
            reason: "add could not find place to insert field a.b".to_string()
        })
    );
    assert_eq!(
        plugin.filter(Value::from_int(1)),
        Err(ShellError::UntaggedRuntime { reason: "Unrecognized type in stream".to_string() })
    );
}

#[test]
fn the_add_plugin_rejects_a_field_that_is_no_path() {
    let mut plugin = Add::new();
    let call = CallInfo {
        args: EvaluatedArgs {
            positional: Some(vec![Value::from_int(1), Value::from_int(7)]),
            named: None,
        },
        name_tag: Tag::unknown(),
    };
    assert_eq!(
        plugin.begin_filter(call),
        Err(ShellError::UntaggedRuntime { reason: "Unrecognized type in params".to_string() })
    );
    assert_eq!(plugin, Add::new());
    let without = CallInfo {
        args: EvaluatedArgs { positional: None, named: None },
        name_tag: Tag::unknown(),
    };
    assert_eq!(plugin.begin_filter(without), Ok(()));
    assert_eq!(plugin, Add::new());
    plugin.value = Some(Value::from_int(1));
    assert_eq!(
        plugin.filter(row(vec![])),
        Err(ShellError::UntaggedRuntime {
            reason: "add needs a column name when adding a value to a table".to_string()
        })
    );
}

#[test]
fn the_help_switch_short_circuits_a_command() {
    let first = whole_stream_command(&First);
    assert_eq!(
        first.get_help(),
        "Show only the first number of rows.\n\nUsage:\n  > first (rows) {flags}\n"
    );
    let name_tag = Tag::new(Span::new(0, 5));
    let with_help = CallInfo {
        args: EvaluatedArgs {
            positional: None,
            named: Some(Dictionary { entries: vec![("help".to_string(), Value::from_bool(true))] }),
        },
        name_tag,
    };
    assert_eq!(
        first.run(&with_help),
        Dispatch::Help(
            UntaggedValue::string(
                "Show only the first number of rows.\n\nUsage:\n  > first (rows) {flags}\n"
            )
            .into_value(name_tag)
        )
    );
    let switched_off = CallInfo {
        args: EvaluatedArgs {
            positional: None,
            named: Some(Dictionary {
                entries: vec![("help".to_string(), Value::from_bool(false))],
            }),
        },
        name_tag,
    };
    assert_eq!(first.run(&switched_off), Dispatch::WholeStream);
    let plain = CallInfo { args: EvaluatedArgs { positional: None, named: None }, name_tag };
    assert_eq!(first.run(&plain), Dispatch::WholeStream);
    let each = per_item_command(&PerItem(KeepUntil));
    assert_eq!(each.run(&plain), Dispatch::PerItem);
    assert!(matches!(each.run(&with_help), Dispatch::Help(_)));
}

fn labeled_at(msg: &str, label: &str, start: usize, end: usize) -> ShellError {
    labeled(msg, label, Span::new(start, end))
}

fn column_path(names: Vec<UnspannedPathMember>, at: Span) -> SpannedExpression {
    let tail = names
        .into_iter()
        .enumerate()
        .map(|(i, unspanned)| PathMember { unspanned, span: Span::new(10 + i, 11 + i) })
        .collect();
    SpannedExpression {
        expr: Expression::FullColumnPath(Box::new(Path {
            head: SpannedExpression { expr: Expression::Variable("$it".to_string()), span: at },
            tail,
        })),
        span: at,
    }
}

fn block_of(commands: Vec<ClassifiedCommand>) -> Block {
    let span = Span::new(0, 20);
    Block::new(vec![Group { pipelines: vec![Pipeline { list: commands, span }], span }], span)
}

#[test]
fn the_condition_of_a_dataframe_filter_is_taken_apart() {
    let left = column_path(vec![UnspannedPathMember::String("a".to_string())], Span::new(1, 2));
    let binary = Binary {
        left,
        op: Operator::LessThan,
        right: SpannedExpression {
            expr: Expression::Literal(Literal::Number(3)),
            span: Span::new(5, 6),
        },
    };
    let expr = SpannedExpression {
        expr: Expression::Binary(Box::new(binary)),
        span: Span::new(1, 6),
    };
    let block = block_of(vec![ClassifiedCommand::Expr(expr)]);
    let tag = Tag::new(Span::new(0, 9));
    let found = condition(&block, tag).expect("a condition");
    assert_eq!(found.op, Operator::LessThan);
    assert_eq!(column_of(&found.left), Ok((&"a".to_string(), Span::new(10, 11))));
    assert_eq!(
        column_of(&found.right),
        Err(labeled_at(
            "No column name",
            "Not a column name found in left hand side of comparison",
            5,
            6
        ))
    );
    let by_number = column_path(vec![UnspannedPathMember::Int(0)], Span::new(1, 2));
    assert_eq!(
        column_of(&by_number),
        Err(labeled_at("No column name", "Not a string as column name", 10, 11))
    );
    let no_steps = column_path(vec![], Span::new(1, 2));
    assert_eq!(
        column_of(&no_steps),
        Err(labeled_at(
            "No column name",
            "Not a column name found in left hand side of comparison",
            1,
            2
        ))
    );
    let empty = Block::new(vec![], Span::new(0, 0));
    assert_eq!(
        condition(&empty, tag),
        Err(labeled_at("Expected a condition", "expected a condition", 0, 9))
    );
    let not_binary = block_of(vec![ClassifiedCommand::Expr(SpannedExpression {
        expr: Expression::Garbage,
        span: Span::new(1, 2),
    })]);
    assert_eq!(
        condition(&not_binary, tag),
        Err(labeled_at("Expected a condition", "expected a condition", 0, 9))
    );
}

#[test]
fn operators_and_operands_of_a_dataframe_filter() {
    let at = Span::new(3, 5);
    assert_eq!(comparison_of(Operator::Equal, at), Ok(Comparison::Equal));
    assert_eq!(comparison_of(Operator::NotEqual, at), Ok(Comparison::NotEqual));
    assert_eq!(comparison_of(Operator::LessThan, at), Ok(Comparison::LessThan));
    assert_eq!(comparison_of(Operator::LessThanOrEqual, at), Ok(Comparison::LessThanOrEqual));
    assert_eq!(comparison_of(Operator::GreaterThan, at), Ok(Comparison::GreaterThan));
    assert_eq!(
        comparison_of(Operator::GreaterThanOrEqual, at),
        Ok(Comparison::GreaterThanOrEqual)
    );
    assert_eq!(
        comparison_of(Operator::Plus, at),
        Err(labeled_at(
            "Incorrect operator",
            "Not implemented operator for dataframes filter",
            3,
            5
        ))
    );
    assert_eq!(operand_of(&Value::from_int(4), "i64", at), Ok(Operand::Int(4)));
    assert_eq!(
        operand_of(&Value::from_string("x"), "str", at),
        Ok(Operand::String("x".to_string()))
    );
    let decimal = Decimal { unscaled: 25, scale: 1 };
    assert_eq!(
        operand_of(
            &UntaggedValue::Primitive(Primitive::Decimal(decimal)).into_untagged_value(),
            "f64",
            at
        ),
        Ok(Operand::Decimal(decimal))
    );
    assert_eq!(
        operand_of(&Value::from_bool(true), "i64", at),
        Err(labeled_at(
            "Invalid datatype",
            "this operator cannot be used with the selected 'i64' datatype",
            3,
            5
        ))
    );
    let table = UntaggedValue::table(vec![]).into_value(Tag::new(Span::new(7, 9)));
    assert_eq!(
        operand_of(&table, "i64", at),
        Err(labeled_at("Incorrect argument", "Expected primitive values", 7, 9))
    );
}

#[test]
fn the_kind_of_a_file_is_told_by_its_extension() {
    let tag = Tag::new(Span::new(9, 17));
    assert_eq!(file_format(Some("csv"), tag), Ok(FileFormat::Csv));
    assert_eq!(file_format(Some("parquet"), tag), Ok(FileFormat::Parquet));
    assert_eq!(file_format(Some("json"), tag), Ok(FileFormat::Json));
    assert_eq!(
        file_format(Some("CSV"), tag),
        Err(labeled_at("Error with file", "Not a csv, parquet or json file", 9, 17))
    );
    assert_eq!(
        file_format(None, tag),
        Err(labeled_at("Error with file", "File without extension", 9, 17))
    );
}

#[test]
fn the_options_of_a_csv_file_are_checked() {
    let semicolon = Spanned { item: ";".to_string(), span: Span::new(2, 3) };
    let names = vec![Value::from_string("a"), Value::from_string("b")];
    assert_eq!(
        csv_options(Some(&semicolon), true, Some(10), None, Some(&names)),
        Ok(CsvOptions {
            delimiter: Some(59),
            has_header: false,
            infer_schema: Some(10),
            skip_rows: None,
            columns: Some(vec!["a".to_string(), "b".to_string()]),
        })
    );
    assert_eq!(
        csv_options(None, false, None, Some(2), None),
        Ok(CsvOptions {
            delimiter: None,
            has_header: true,
            infer_schema: None,
            skip_rows: Some(2),
            columns: None,
        })
    );
    let two = Spanned { item: "::".to_string(), span: Span::new(2, 4) };
    let wide = Spanned { item: "é".to_string(), span: Span::new(2, 4) };
    let none = Spanned { item: String::new(), span: Span::new(2, 2) };
    let stray = UntaggedValue::integer(1).into_value(Tag::new(Span::new(6, 7)));
    let other = UntaggedValue::integer(2).into_value(Tag::new(Span::new(8, 9)));
    let mixed = vec![Value::from_string("a"), stray, other];
    assert_eq!(
        csv_options(Some(&two), false, None, None, Some(&mixed)),
        Err(labeled_at("Incorrect delimiter", "Delimiter has to be one char", 2, 4))
    );
    assert_eq!(
        csv_options(Some(&wide), false, None, None, None),
        Err(labeled_at("Incorrect delimiter", "Delimiter has to be one char", 2, 4))
    );
    assert_eq!(
        csv_options(Some(&none), false, None, None, None),
        Err(labeled_at("Incorrect delimiter", "Delimiter has to be one char", 2, 2))
    );
    assert_eq!(
        csv_options(Some(&semicolon), false, None, None, Some(&mixed)),
        Err(labeled_at("Incorrect type for column", "Only string as columns", 6, 7))
    );
    assert_eq!(names_of(&vec![]), Ok(vec![]));
    assert_eq!(
        names_of(&mixed),
        Err(labeled_at("Incorrect type for column", "Only string as columns", 6, 7))
    );
}

#[test]
fn the_layout_of_a_sequence_follows_its_arguments() {
    let free = |items: &[&str]| items.iter().map(|s| s.to_string()).collect::<Vec<String>>();
    assert_eq!(layout(&free(&["10"])), (0, 2));
    assert_eq!(layout(&free(&["1", "10"])), (0, 2));
    assert_eq!(layout(&free(&["1.5", "10"])), (1, 2));
    assert_eq!(layout(&free(&["1", "0.25", "100"])), (2, 3));
    assert_eq!(layout(&free(&["1.125", "0.25", "3"])), (3, 1));
    assert_eq!(layout(&free(&["1.", "3"])), (0, 1));
    assert_eq!(layout(&free(&["2.75"])), (0, 1));
    assert_eq!(pad_number("7", true, 3), "007");
    assert_eq!(pad_number("7.50", true, 3), "007.50");
    assert_eq!(pad_number("1234", true, 3), "1234");
    assert_eq!(pad_number("7", false, 3), "7");
    assert_eq!(pad_number("-1.5", true, 4), "00-1.5");
}

#[test]
fn the_arguments_for_the_opener_take_the_names_out() {
    let mut start = Start::new();
    start.filenames = vec!["a.txt".to_string(), "https://example.com".to_string()];
    start.application = Some("Preview".to_string());
    assert_eq!(
        start.open_arguments(),
        vec![
            "a.txt".to_string(),
            "https://example.com".to_string(),
            "-a".to_string(),
            "Preview".to_string()
        ]
    );
    assert_eq!(start.filenames, Vec::<String>::new());
    assert_eq!(start.application, Some("Preview".to_string()));
    let mut plain = Start::new();
    plain.filenames = vec!["b.txt".to_string()];
    assert_eq!(plain.open_arguments(), vec!["b.txt".to_string()]);
    assert_eq!(plain.open_arguments(), Vec::<String>::new());
}
