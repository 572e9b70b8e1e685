use nu_engine::alias::{define_alias, Alias};
use nu_engine::command::{whole_stream_command, Command, WholeStreamCommand};
use nu_engine::commands::all::Command as AllCommand;
use nu_engine::commands::ceil::{ceil, SubCommand as MathCeil};
use nu_engine::commands::first::{first, First, FirstArgs};
use nu_engine::commands::keep_until::SubCommand as KeepUntil;
use nu_engine::commands::map_max_by::{map_max_by_input, MapMaxBy};
use nu_engine::commands::path_exists::{action as exists_action, PathExists};
use nu_engine::commands::path_split::{action as split_action, split_parts, PathSplit};
use nu_engine::commands::seq::{escape_sequences, separators, SeqArgs, SeqCommand};
use nu_engine::commands::shuffle::{shuffle, Shuffle};
use nu_engine::commands::to_md::{get_output_string, get_padded_string, ToMarkdown};
use nu_engine::commands::to_toml::ToTOML;
use nu_engine::errors::ShellError;
use nu_engine::hir::{
    Block, Call, ClassifiedCommand, Expression, Group, InternalCommand, Literal, Pipeline,
    SpannedExpression,
};
use nu_engine::lex::{lex, TokenContents};
use nu_engine::scope::Scope;
use nu_engine::shape::SyntaxShape;
use nu_engine::signature::{NamedType, PositionalType, Signature};
use nu_engine::span::{Span, Tag};
use nu_engine::value::{Decimal, Primitive, UntaggedValue, Value};

fn ints(items: &[i64]) -> Vec<Value> {
    items.iter().map(|i| Value::from_int(*i)).collect()
}

fn words(text: &str) -> Vec<String> {
    let (tokens, err) = lex(text, 0);
    assert_eq!(err, None);
    tokens
        .into_iter()
        .filter_map(|t| match t.contents {
            TokenContents::Baseline(s) => Some(s),
            _ => None,
        })
        .collect()
}

/// The body of an alias as a block with a single call.
fn block_of(body: &str) -> Block {
    let inner = body.trim_start_matches('{').trim_end_matches('}');
    let mut parts = words(inner).into_iter();
    let name = parts.next().unwrap_or_default();
    let positional: Vec<SpannedExpression> = parts
        .map(|w| SpannedExpression {
            expr: if w.starts_with('$') {
                Expression::Variable(w)
            } else {
                Expression::Literal(Literal::Bare(w))
            },
            span: Span::unknown(),
        })
        .collect();
    let call = ClassifiedCommand::Internal(InternalCommand {
        name,
        name_span: Span::unknown(),
        args: Call { positional, named: vec![], span: Span::unknown() },
    });
    Block::new(
        vec![Group {
            pipelines: vec![Pipeline { list: vec![call], span: Span::unknown() }],
            span: Span::unknown(),
        }],
        Span::unknown(),
    )
}

fn scope_with_ls_and_echo() -> Scope {
    let mut scope = Scope::new();
    let ls = Signature::build("ls").optional(
        "path",
        SyntaxShape::Pattern,
        "a path to get the directory contents from",
    );
    let echo = Signature::build("echo").rest(SyntaxShape::Any, "the values to echo");
    for sig in vec![ls, echo] {
        let name = sig.name.clone();
        scope.add_command(
            name.clone(),
            Command::WholeStream(nu_engine::command::CommandInfo {
                name,
                usage: String::new(),
                signature: sig,
                is_binary: false,
                body: None,
            }),
        );
    }
    scope
}

#[test]
fn alias_examples_work_as_expected() {
    let examples = Alias.examples();
    assert_eq!(examples.len(), 4);
    for example in examples {
        let parts = words(example.example);
        assert_eq!(parts.len(), 4, "{}", example.example);
        assert_eq!(parts[0], "alias");
        let name = parts[1].clone();
        let params = parts[2].trim_start_matches('[').trim_end_matches(']');
        let list: Vec<Value> = params
            .split(|c: char| c == ',' || c.is_whitespace())
            .filter(|p| !p.is_empty())
            .map(Value::from_string)
            .collect();
        let block = block_of(&parts[3]);
        let mut scope = scope_with_ls_and_echo();
        assert_eq!(define_alias(&mut scope, &name, &list, block), Ok(()));
        let command = scope.get_command(&name).expect("the alias is registered");
        assert_eq!(command.name(), name);
        let declared = list.len();
        let sig = command.signature();
        let variadic = params.ends_with("...");
        assert_eq!(sig.positional.len(), if variadic { declared - 1 } else { declared });
        assert_eq!(sig.rest_positional.is_some(), variadic);
        assert_eq!(example.result, None);
    }
}

#[test]
fn first_examples_work_as_expected() {
    let examples = First.examples();
    assert_eq!(examples.len(), 2);
    for example in examples {
        let parts = words(example.example);
        // echo [1 2 3] | first <rows>?
        let rows = parts.last().and_then(|w| w.parse::<usize>().ok());
        let out = first(FirstArgs { rows }, ints(&[1, 2, 3]));
        assert_eq!(Some(out), example.result);
    }
    assert_eq!(First.name(), "first");
    assert_eq!(
        First.signature().positional,
        vec![(
            PositionalType::Optional("rows".to_string(), SyntaxShape::Int),
            "starting from the front, the number of rows to return".to_string()
        )]
    );
}

#[test]
fn map_max_by_examples_work_as_expected() {
    assert_eq!(MapMaxBy.name(), "map-max-by");
    let sig = MapMaxBy.signature();
    let (flag, value) = sig.named.entry_at(1);
    assert_eq!(flag, "column_name");
    assert_eq!(value.0, NamedType::Optional(Some('c'), SyntaxShape::String));
    let input = ints(&[4, 2]);
    assert_eq!(map_max_by_input(&input, Tag::unknown()), Ok(&input[0]));
    let empty: Vec<Value> = vec![];
    assert_eq!(
        map_max_by_input(&empty, Tag::new(Span::new(3, 13))),
        Err(ShellError::Labeled {
            msg: "Expected table from pipeline".to_string(),
            label: "requires a table input".to_string(),
            span: Span::new(3, 13),
        })
    );
}

#[test]
fn seq_examples_work_as_expected() {
    let examples = SeqCommand.examples();
    assert_eq!(examples.len(), 2);
    for example in &examples {
        assert_eq!(example.result, None);
        assert!(!words(example.example).is_empty());
    }
    assert_eq!(SeqCommand.name(), "seq");
    assert_eq!(
        SeqCommand.signature().rest_positional,
        Some((SyntaxShape::Any, "sequence values".to_string()))
    );
    let args = SeqArgs { separator: None, terminator: None, widths: false, rest: ints(&[1, 3]) };
    assert_eq!(separators(&args), Ok(('\n', '\n')));
    let args = SeqArgs {
        separator: Some(Value::from_string("\\t")),
        terminator: Some(Value::from_string(";")),
        widths: false,
        rest: vec![],
    };
    assert_eq!(separators(&args), Ok(('\t', ';')));
    assert_eq!(escape_sequences("a\\nb\\tc"), "a\nb\tc");
}

#[test]
fn to_md_examples_work_as_expected() {
    let examples = ToMarkdown.examples();
    assert_eq!(examples.len(), 2);
    for example in &examples {
        assert_eq!(example.result, None);
    }
    let sig = ToMarkdown.signature();
    let (flag, value) = sig.named.entry_at(1);
    assert_eq!(flag, "pretty");
    assert_eq!(value.0, NamedType::Switch(Some('p')));
    let headers = vec!["name".to_string(), "n".to_string()];
    let rows = vec![
        vec!["a".to_string(), "1".to_string()],
        vec!["bcdef".to_string(), "22".to_string()],
    ];
    assert_eq!(
        get_output_string(&headers, &rows, &vec![5, 2], false),
        "|name|n|\n|-|-|\n|a|1|\n|bcdef|22|\n"
    );
    assert_eq!(
        get_output_string(&headers, &rows, &vec![5, 2], true),
        "| name  | n  |\n| ----- | -- |\n| a     | 1  |\n| bcdef | 22 |\n"
    );
    assert_eq!(get_padded_string("ab".to_string(), 4, '-'), "ab--");
}

#[test]
fn to_toml_examples_work_as_expected() {
    assert_eq!(ToTOML.name(), "to toml");
    assert_eq!(ToTOML.usage(), "Convert table into .toml text");
    assert_eq!(ToTOML.signature(), Signature::build("to toml"));
}

#[test]
fn until_examples_work_as_expected() {
    assert_eq!(KeepUntil.name(), "keep until");
    let sig = KeepUntil.signature();
    assert!(sig.is_filter);
    assert_eq!(
        sig.positional,
        vec![(
            PositionalType::Mandatory("condition".to_string(), SyntaxShape::RowCondition),
            "The condition that must be met to stop keeping rows".to_string()
        )]
    );
}

#[test]
fn ceil_examples_work_as_expected() {
    let examples = MathCeil.examples();
    assert_eq!(examples.len(), 1);
    // echo [1.5 2.3 -3.1] | math ceil
    let input = vec![
        Decimal { unscaled: 15, scale: 1 },
        Decimal { unscaled: 23, scale: 1 },
        Decimal { unscaled: -31, scale: 1 },
    ];
    let out: Vec<Value> = input
        .into_iter()
        .map(|d| ceil(UntaggedValue::Primitive(Primitive::Decimal(d)).into_untagged_value()))
        .collect();
    assert_eq!(Some(out), examples[0].result);
}

#[test]
fn exists_examples_work_as_expected() {
    let examples = PathExists.examples();
    assert_eq!(examples.len(), 1);
    // echo '/home/joe/todo.txt' | path exists
    let path = words(examples[0].example)[1].trim_matches('\'').to_string();
    assert_eq!(path, "/home/joe/todo.txt");
    let found = std::path::Path::new(&path).exists();
    let out = vec![exists_action(found).into_untagged_value()];
    assert_eq!(Some(out), examples[0].result);
}

#[test]
fn split_examples_work_as_expected() {
    let examples = PathSplit.examples();
    assert_eq!(examples.len(), 1);
    // echo '/home/viking/spam.txt' | path split
    let path = words(examples[0].example)[1].trim_matches('\'').to_string();
    let components: Vec<String> = std::path::Path::new(&path)
        .components()
        .map(|c| c.as_os_str().to_string_lossy().to_string())
        .collect();
    let table = split_action(&components, Tag::unknown());
    let parts = split_parts(table, Span::unknown()).expect("a table comes out of the split");
    assert_eq!(Some(parts), examples[0].result);
}

#[test]
fn shuffle_examples_work_as_expected() {
    assert_eq!(Shuffle.name(), "shuffle");
    assert_eq!(Shuffle.usage(), "Shuffle rows randomly.");
    let input: Vec<i64> = (0..50).collect();
    let out = shuffle(ints(&input));
    assert_eq!(out.len(), 50);
    let mut seen: Vec<i64> = out
        .iter()
        .map(|v| match v.value {
            UntaggedValue::Primitive(Primitive::Int(i)) => i,
            _ => panic!("only whole numbers went in"),
        })
        .collect();
    seen.sort();
    assert_eq!(seen, input);
}

#[test]
fn all_examples_work_as_expected() {
    assert_eq!(AllCommand.name(), "all?");
    assert_eq!(
        AllCommand.signature().positional,
        vec![(
            PositionalType::Mandatory("condition".to_string(), SyntaxShape::RowCondition),
            "the condition that must match".to_string()
        )]
    );
    let registered = whole_stream_command(&AllCommand);
    assert_eq!(registered.usage(), "Find if the table rows matches the condition.");
}
