use nu_engine::alias::{
    alias, choose_deduction, declare_vars, define_alias, is_var_arg, var_arg_name, CommandAction,
    DeductionToSignature,
};
use nu_engine::alias_save::{save_alias, strip_save_flag, update_startup};
use nu_engine::command::{Command, CommandInfo};
use nu_engine::commands::run_alias::AliasCommand;
use nu_engine::deduction::{
    shape_at, shape_of_flag, VarDeclaration, VarShapeDeduction, VarSyntaxShapeDeductor,
};
use nu_engine::errors::ShellError;
use nu_engine::hir::{
    Binary, Block, Call, ClassifiedCommand, Expression, Group, InternalCommand, Literal,
    NamedValue, Operator, Pipeline, SpannedExpression,
};
use nu_engine::scope::Scope;
use nu_engine::shape::SyntaxShape;
use nu_engine::signature::{PositionalType, Signature};
use nu_engine::span::{Span, Tag};
use nu_engine::value::{UntaggedValue, Value};

fn var(name: &str, at: usize) -> SpannedExpression {
    SpannedExpression {
        expr: Expression::Variable(name.to_string()),
        span: Span::new(at, at + name.len()),
    }
}

fn number(n: i64) -> SpannedExpression {
    SpannedExpression { expr: Expression::Literal(Literal::Number(n)), span: Span::unknown() }
}

fn call(name: &str, positional: Vec<SpannedExpression>) -> ClassifiedCommand {
    ClassifiedCommand::Internal(InternalCommand {
        name: name.to_string(),
        name_span: Span::unknown(),
        args: Call { positional, named: vec![], span: Span::unknown() },
    })
}

fn block(commands: Vec<ClassifiedCommand>) -> Block {
    Block::new(
        commands
            .into_iter()
            .map(|c| Group {
                pipelines: vec![Pipeline { list: vec![c], span: Span::unknown() }],
                span: Span::unknown(),
            })
            .collect(),
        Span::unknown(),
    )
}

fn register(scope: &mut Scope, sig: Signature) {
    let name = sig.name.clone();
    scope.add_command(
        name.clone(),
        Command::WholeStream(CommandInfo {
            name,
            usage: String::new(),
            signature: sig,
            is_binary: false,
            body: None,
        }),
    );
}

fn scope_with_commands() -> Scope {
    let mut scope = Scope::new();
    register(
        &mut scope,
        Signature::build("ls").optional("path", SyntaxShape::Pattern, "where to look"),
    );
    register(&mut scope, Signature::build("echo").rest(SyntaxShape::Any, "what to echo"));
    register(
        &mut scope,
        Signature::build("first").optional("rows", SyntaxShape::Int, "how many"),
    );
    register(
        &mut scope,
        Signature::build("open")
            .required("path", SyntaxShape::FilePath, "the file")
            .named("encoding", SyntaxShape::String, "the encoding", Some('e')),
    );
    scope
}

fn decl(name: &str) -> VarDeclaration {
    VarDeclaration { name: name.to_string(), is_var_arg: false, span: Span::unknown() }
}

fn deduction(shape: SyntaxShape, at: usize) -> VarShapeDeduction {
    VarShapeDeduction {
        deduction: shape,
        deducted_from: vec![Span::new(at, at + 2)],
        many_of_shapes: false,
    }
}

fn tagged_string(text: &str, start: usize) -> Value {
    UntaggedValue::string(text).into_value(Tag::new(Span::new(start, start + text.len())))
}

#[test]
fn alias_with_one_parameter_takes_the_shape_that_the_callee_expects() {
    // alias l [x] { ls $x }
    let mut scope = scope_with_commands();
    let body = block(vec![call("ls", vec![var("$x", 15)])]);
    let list = vec![Value::from_string("x")];
    assert_eq!(define_alias(&mut scope, "l", &list, body), Ok(()));
    let l = scope.get_command("l").expect("the alias is registered");
    assert_eq!(l.name(), "l");
    assert_eq!(
        l.signature().positional,
        vec![(PositionalType::Mandatory("$x".to_string(), SyntaxShape::Pattern), String::new())]
    );
    assert_eq!(l.signature().rest_positional, None);
}

#[test]
fn a_var_arg_that_is_not_last_is_rejected_and_nothing_is_registered() {
    // alias broken [a..., b] { echo $a $b }
    let mut scope = scope_with_commands();
    let before = scope.get_command_names();
    let list = vec![tagged_string("a...", 14), tagged_string("b", 20)];
    let body = block(vec![call("echo", vec![var("$a", 25), var("$b", 28)])]);
    let expected = ShellError::Labeled {
        msg: "Var-args variables are only allowed as the last argument!".to_string(),
        label: "Var-arg".to_string(),
        span: Span::new(14, 18),
    };
    assert_eq!(declare_vars(&list), Err(expected.clone()));
    assert_eq!(define_alias(&mut scope, "broken", &list, body), Err(expected));
    assert!(!scope.has_command("broken"));
    assert_eq!(scope.get_command_names(), before);
}

#[test]
fn a_parameter_that_is_no_string_is_rejected() {
    let list = vec![Value::from_string("x"), UntaggedValue::integer(3).into_value(Tag::new(Span::new(7, 8)))];
    assert_eq!(
        declare_vars(&list),
        Err(ShellError::Labeled {
            msg: "Expected a string".to_string(),
            label: "expected a string".to_string(),
            span: Span::new(7, 8),
        })
    );
}

#[test]
fn parameters_are_declared_with_a_dollar_and_without_the_dots() {
    let list = vec![tagged_string("first", 9), tagged_string("x...", 16)];
    assert_eq!(
        declare_vars(&list),
        Ok(vec![
            VarDeclaration { name: "$first".to_string(), is_var_arg: false, span: Span::new(9, 14) },
            VarDeclaration { name: "$x".to_string(), is_var_arg: true, span: Span::new(16, 20) },
        ])
    );
    assert!(is_var_arg("x..."));
    assert!(!is_var_arg("x.."));
    assert!(!is_var_arg("...x"));
    assert_eq!(var_arg_name("rest..."), "rest");
    assert_eq!(var_arg_name("..."), "");
}

#[test]
fn any_wins_over_a_more_specific_shape() {
    let ds = vec![deduction(SyntaxShape::Int, 0), deduction(SyntaxShape::Any, 4)];
    assert_eq!(choose_deduction(&ds), deduction(SyntaxShape::Any, 4));
    // Used once where `first` expects a whole number and once where `echo` takes anything.
    let scope = scope_with_commands();
    let body = block(vec![call("first", vec![var("$n", 8)]), call("echo", vec![var("$n", 20)])]);
    let inferred = VarSyntaxShapeDeductor::infer_vars(&vec![decl("$n")], &body, &scope);
    assert_eq!(
        inferred,
        vec![(
            decl("$n"),
            Some(vec![
                VarShapeDeduction {
                    deduction: SyntaxShape::Int,
                    deducted_from: vec![Span::new(8, 10)],
                    many_of_shapes: false
                },
                VarShapeDeduction {
                    deduction: SyntaxShape::Any,
                    deducted_from: vec![Span::new(20, 22)],
                    many_of_shapes: false
                },
            ])
        )]
    );
    let sig = DeductionToSignature::get("a", &inferred);
    assert_eq!(
        sig.positional,
        vec![(PositionalType::Mandatory("$n".to_string(), SyntaxShape::Any), String::new())]
    );
}

#[test]
fn math_wins_over_a_plain_shape_when_nothing_says_any() {
    let ds = vec![deduction(SyntaxShape::String, 0), deduction(SyntaxShape::Math, 4)];
    assert_eq!(choose_deduction(&ds), deduction(SyntaxShape::Math, 4));
    // Used once as the encoding of `open` and once as an operand.
    let scope = scope_with_commands();
    let open = ClassifiedCommand::Internal(InternalCommand {
        name: "open".to_string(),
        name_span: Span::unknown(),
        args: Call {
            positional: vec![],
            named: vec![
                ("raw".to_string(), NamedValue::AbsentSwitch),
                ("encoding".to_string(), NamedValue::Value(Span::unknown(), var("$v", 10))),
            ],
            span: Span::unknown(),
        },
    });
    let sum = ClassifiedCommand::Expr(SpannedExpression {
        expr: Expression::Binary(Box::new(Binary {
            left: var("$v", 30),
            op: Operator::Plus,
            right: number(1),
        })),
        span: Span::unknown(),
    });
    let body = block(vec![open, sum]);
    let inferred = VarSyntaxShapeDeductor::infer_vars(&vec![decl("$v")], &body, &scope);
    let shapes: Vec<SyntaxShape> =
        inferred[0].1.as_ref().unwrap().iter().map(|d| d.deduction).collect();
    assert_eq!(shapes, vec![SyntaxShape::String, SyntaxShape::Math]);
    let sig = DeductionToSignature::get("a", &inferred);
    assert_eq!(
        sig.positional,
        vec![(PositionalType::Mandatory("$v".to_string(), SyntaxShape::Math), String::new())]
    );
}

#[test]
fn the_first_shape_is_taken_when_neither_any_nor_math_was_deduced() {
    let ds = vec![deduction(SyntaxShape::Int, 0), deduction(SyntaxShape::String, 4)];
    assert_eq!(choose_deduction(&ds), deduction(SyntaxShape::Int, 0));
}

#[test]
fn a_variable_that_is_not_used_has_no_deduction_and_takes_any_shape() {
    let scope = scope_with_commands();
    // `$y` is used only as an argument of a command that is not known.
    let body = block(vec![
        call("ls", vec![var("$x", 0)]),
        call("mystery", vec![var("$y", 10)]),
        ClassifiedCommand::Expr(SpannedExpression {
            expr: Expression::List(vec![var("$y", 20)]),
            span: Span::unknown(),
        }),
    ]);
    let inferred =
        VarSyntaxShapeDeductor::infer_vars(&vec![decl("$x"), decl("$y"), decl("$z")], &body, &scope);
    assert_eq!(inferred.len(), 3);
    assert!(inferred[0].1.is_some());
    assert_eq!(inferred[1].1, None);
    assert_eq!(inferred[2].1, None);
    let sig = DeductionToSignature::get("a", &inferred);
    let shapes: Vec<SyntaxShape> = sig.positional.iter().map(|p| p.0.syntax_type()).collect();
    assert_eq!(shapes, vec![SyntaxShape::Pattern, SyntaxShape::Any, SyntaxShape::Any]);
}

#[test]
fn uses_in_nested_blocks_and_beyond_the_declared_parameters_count() {
    let scope = scope_with_commands();
    let inner = block(vec![call("first", vec![var("$n", 3)])]);
    let body = block(vec![
        ClassifiedCommand::Expr(SpannedExpression {
            expr: Expression::Invocation(inner),
            span: Span::unknown(),
        }),
        // `ls` declares one parameter and no rest: a second argument may be anything.
        call("ls", vec![number(1), var("$n", 30)]),
    ]);
    let inferred = VarSyntaxShapeDeductor::infer_vars(&vec![decl("$n")], &body, &scope);
    let shapes: Vec<SyntaxShape> =
        inferred[0].1.as_ref().unwrap().iter().map(|d| d.deduction).collect();
    assert_eq!(shapes, vec![SyntaxShape::Int, SyntaxShape::Any]);
    let open = scope.get_signature("open").unwrap();
    assert_eq!(shape_at(open, 0), SyntaxShape::FilePath);
    assert_eq!(shape_at(open, 1), SyntaxShape::Any);
    assert_eq!(shape_of_flag(open, "encoding"), SyntaxShape::String);
    assert_eq!(shape_of_flag(open, "help"), SyntaxShape::Any);
    assert_eq!(shape_of_flag(open, "missing"), SyntaxShape::Any);
    let echo = scope.get_signature("echo").unwrap();
    assert_eq!(shape_at(echo, 7), SyntaxShape::Any);
}

#[test]
fn a_variadic_last_parameter_becomes_the_rest_parameter() {
    // alias l [first, x...] { ls $first $x }
    let scope = scope_with_commands();
    let body = block(vec![call("ls", vec![var("$first", 0), var("$x", 8)])]);
    let list = vec![Value::from_string("first"), Value::from_string("x...")];
    match alias("l", &list, body, &scope) {
        Ok(CommandAction::AddAlias(sig, _)) => {
            assert_eq!(sig.name, "l");
            assert_eq!(
                sig.positional,
                vec![(
                    PositionalType::Mandatory("$first".to_string(), SyntaxShape::Pattern),
                    String::new()
                )]
            );
            assert_eq!(sig.rest_positional, Some((SyntaxShape::Any, "$x".to_string())));
        }
        other => panic!("{:?}", other),
    }
}

#[test]
fn an_alias_binds_its_arguments_for_its_block() {
    let sig = Signature::build("l")
        .required("$first", SyntaxShape::Any, "")
        .rest(SyntaxShape::Any, "$x");
    let command = AliasCommand::new(sig, block(vec![]));
    assert_eq!(command.name(), "l");
    assert_eq!(command.usage(), "");
    assert!(!command.is_binary());
    assert!(command.examples().is_empty());
    let args = vec![tagged_string("a", 2), tagged_string("b", 4), tagged_string("c", 6)];
    let mut scope = Scope::new();
    command.bind_arguments(&args, &mut scope);
    assert_eq!(scope.get_var("$first"), Some(tagged_string("a", 2)));
    assert_eq!(
        scope.get_var("$x"),
        Some(
            UntaggedValue::table(vec![tagged_string("b", 4), tagged_string("c", 6)])
                .into_value(Tag::new(Span::new(4, 7)))
        )
    );
    // Without arguments for it, the rest parameter is not bound.
    let mut scope = Scope::new();
    command.bind_arguments(&vec![tagged_string("a", 2)], &mut scope);
    assert_eq!(scope.get_var("$x"), None);
}

#[test]
fn the_save_flag_is_taken_out_of_the_saved_line() {
    assert_eq!(
        strip_save_flag("alias --save l [x] { ls --save $x }"),
        "alias  l [x] { ls --save $x }"
    );
    assert_eq!(strip_save_flag("alias -s l [x] { ls $x }"), "alias l [x] { ls $x }");
    assert_eq!(strip_save_flag("alias -si l [x] { ls $x }"), "alias -i l [x] { ls $x }");
    assert_eq!(strip_save_flag("alias -is l [x] { ls $x }"), "alias -i l [x] { ls $x }");
    assert_eq!(strip_save_flag("alias l [x] { ls $x } --save"), "alias l [x] { ls $x } ");
}

#[test]
fn a_saved_alias_replaces_the_earlier_definition_of_the_same_name() {
    let mut startup = vec![
        Value::from_string("alias ll [] { ls -l }"),
        Value::from_string("alias l [x] { ls $x }"),
        Value::from_int(3),
    ];
    // The name is what stands before `[`. With blanks in front, it matches no
    // earlier entry, and the line goes last, without the blanks around it.
    save_alias(&mut startup, "  alias l [y] { ls -a $y } ");
    assert_eq!(
        startup,
        vec![
            Value::from_string("alias ll [] { ls -l }"),
            Value::from_string("alias l [x] { ls $x }"),
            Value::from_int(3),
            Value::from_string("alias l [y] { ls -a $y }"),
        ]
    );
    // Without the blanks, it takes the place of the earlier definition.
    let mut startup = vec![
        Value::from_string("alias ll [] { ls -l }"),
        Value::from_string("alias l [x] { ls $x }"),
    ];
    save_alias(&mut startup, "alias l [y] { ls -a $y }");
    assert_eq!(
        startup,
        vec![
            Value::from_string("alias ll [] { ls -l }"),
            Value::from_string("alias l [y] { ls -a $y }"),
        ]
    );
    assert_eq!(
        update_startup(None, "alias --save l [x] { ls $x }"),
        vec![Value::from_string("alias  l [x] { ls $x }")]
    );
}
