//! The `alias` command: gives a block of code a name and parameters.
//!
//! The parameters are declared by name only. What shape each of them takes is
//! deduced from the uses of the parameter in the block.

use crate::command::{
    Command, CommandInfo, CommandInfoView, CommandView, Example, WholeStreamCommand,
};
use crate::deduction::{
    deduced, VarDeclaration, VarDeclarationView, VarShapeDeduction, VarShapeDeductionView,
    VarSyntaxShapeDeductor,
};
use crate::errors::{ShellError, ShellErrorView};
use crate::hir::Block;
use crate::scope::{with_command, FrameView, Scope};
use crate::shape::SyntaxShape;
use crate::signature::{
    NamedType, PositionalType, PositionalTypeView, Signature, SignatureView,
};
use crate::span::Span;
use crate::text::{char_width, chars_of, ends_with, has_suffix, string_between, width_of};
use crate::value::{expected_string, Value, ValueView};
use vstd::prelude::*;
use vstd::string::StringExecFns;

verus! {

/// The ending that marks a parameter as the one that takes all remaining
/// arguments.
pub open spec fn dots() -> Seq<char> {
    seq!['.', '.', '.']
}

/// How many characters at the end of `s` make up exactly three bytes, if any
/// number does.
pub open spec fn last_three_bytes(s: Seq<char>) -> Option<int> {
    let n = s.len() as int;
    if n >= 1 && char_width(s[n - 1]) == 3 {
        Some(1)
    } else if n >= 2 && char_width(s[n - 1]) + char_width(s[n - 2]) == 3 {
        Some(2)
    } else if n >= 3 && char_width(s[n - 1]) == 1 && char_width(s[n - 2]) == 1 && char_width(
        s[n - 3],
    ) == 1 {
        Some(3)
    } else {
        None
    }
}

/// A name that ends in `...` ends in exactly three characters of one byte
/// each.
pub proof fn lemma_dots_are_three_bytes(s: Seq<char>)
    requires
        has_suffix(s, dots()),
    ensures
        last_three_bytes(s) == Some(3int),
        s.len() >= 3,
{
    let n = s.len() as int;
    let tail = s.skip(n - 3);
    assert(tail[0] == '.' && tail[1] == '.' && tail[2] == '.');
    assert(s[n - 1] == '.' && s[n - 2] == '.' && s[n - 3] == '.');
}

/// The name of a variadic parameter without the three bytes that mark it.
///
/// The name must end in three bytes that are whole characters, as a name
/// that ends in `...` does.
pub fn var_arg_name(var_name: &str) -> (name: String)
    requires
        last_three_bytes(var_name@) is Some,
    ensures
        name@ == var_name@.take(var_name@.len() - last_three_bytes(var_name@)->0),
{
    let cs = chars_of(var_name);
    let n = cs.len();
    let cut: usize = if width_of(cs[n - 1]) == 3 {
        1
    } else if n >= 2 && width_of(cs[n - 1]) + width_of(cs[n - 2]) == 3 {
        2
    } else {
        3
    };
    let name = string_between(&cs, 0, n - cut);
    assert(cs@.subrange(0, n - cut) =~= cs@.take(n - cut));
    name
}

/// Whether the name marks a variadic parameter: it ends in `...`.
pub fn is_var_arg(var_name: &str) -> (b: bool)
    ensures
        b == has_suffix(var_name@, dots()),
{
    let cs = chars_of(var_name);
    let mut d: Vec<char> = Vec::new();
    d.push('.');
    d.push('.');
    d.push('.');
    assert(d@ =~= dots());
    ends_with(&cs, &d)
}

/// The error for a variadic parameter that is not the last one.
pub open spec fn var_arg_not_last(span: Span) -> ShellErrorView {
    ShellErrorView::Labeled {
        msg: "Var-args variables are only allowed as the last argument!"@,
        label: "Var-arg"@,
        span,
    }
}

/// What is wrong with the `i`-th parameter of `list`, if anything: it is no
/// string, or it is variadic and not the last.
pub open spec fn arg_error(list: Seq<ValueView>, i: int) -> Option<ShellErrorView> {
    match list[i].text() {
        None => Some(expected_string(list[i].tag.span)),
        Some(t) => if has_suffix(t, dots()) && i + 1 != list.len() {
            Some(var_arg_not_last(list[i].tag.span))
        } else {
            None
        },
    }
}

/// The first thing that is wrong with the first `n` parameters of `list`.
pub open spec fn first_arg_error(list: Seq<ValueView>, n: int) -> Option<ShellErrorView>
    decreases n,
{
    if n <= 0 {
        None
    } else {
        match first_arg_error(list, n - 1) {
            Some(e) => Some(e),
            None => arg_error(list, n - 1),
        }
    }
}

/// The variable that the parameter `v` declares: its name with a `$` in
/// front and without the `...` that marks a variadic parameter.
pub open spec fn declaration(v: ValueView) -> VarDeclarationView {
    let t = match v.text() {
        Some(t) => t,
        None => Seq::empty(),
    };
    if has_suffix(t, dots()) {
        VarDeclarationView {
            name: seq!['$'] + t.take(t.len() - 3),
            is_var_arg: true,
            span: v.tag.span,
        }
    } else {
        VarDeclarationView { name: seq!['$'] + t, is_var_arg: false, span: v.tag.span }
    }
}

/// The variables that the parameter list `list` declares, or the first thing
/// that is wrong with it.
pub open spec fn declared(list: Seq<ValueView>) -> Result<Seq<VarDeclarationView>, ShellErrorView> {
    match first_arg_error(list, list.len() as int) {
        Some(e) => Err(e),
        None => Ok(Seq::new(list.len(), |i: int| declaration(list[i]))),
    }
}

/// A variadic parameter that is not the last parameter is an error that
/// refers to the place of that parameter, whatever follows it, provided that
/// nothing is wrong before it.
pub proof fn law_var_arg_must_be_last(list: Seq<ValueView>, i: int)
    requires
        0 <= i < list.len() - 1,
        list[i].text() matches Some(t) && has_suffix(t, dots()),
        first_arg_error(list, i) is None,
    ensures
        declared(list) == Err::<Seq<VarDeclarationView>, ShellErrorView>(
            var_arg_not_last(list[i].tag.span),
        ),
{
    lemma_first_arg_error_stays(list, i + 1, list.len() as int);
}

proof fn lemma_first_arg_error_stays(list: Seq<ValueView>, n: int, m: int)
    requires
        0 <= n <= m,
        first_arg_error(list, n) is Some,
    ensures
        first_arg_error(list, m) == first_arg_error(list, n),
    decreases m - n,
{
    if n < m {
        lemma_first_arg_error_stays(list, n, m - 1);
    }
}

/// The variables that the parameter list of an alias declares. A parameter
/// that is no string is an error, and so is a variadic parameter that is not
/// the last one.
pub fn declare_vars(list: &Vec<Value>) -> (r: Result<Vec<VarDeclaration>, ShellError>)
    ensures
        match r {
            Ok(vars) => declared(list.deep_view()) == Ok::<
                Seq<VarDeclarationView>,
                ShellErrorView,
            >(vars.deep_view()),
            Err(e) => declared(list.deep_view()) == Err::<Seq<VarDeclarationView>, ShellErrorView>(
                e.deep_view(),
            ),
        },
{
    let mut processed_args: Vec<VarDeclaration> = Vec::new();
    let ghost all = list.deep_view();
    let mut idx: usize = 0;
    assert(processed_args.deep_view() =~= Seq::empty());
    while idx < list.len()
        invariant
            idx <= list.len(),
            all == list.deep_view(),
            first_arg_error(all, idx as int) is None,
            processed_args.deep_view() == Seq::new(idx as nat, |i: int| declaration(all[i])),
        decreases list.len() - idx,
    {
        let item = &list[idx];
        assert(all[idx as int] == item.deep_view());
        match item.as_string() {
            Ok(var_name) => {
                let variadic = is_var_arg(var_name.as_str());
                if variadic && (idx + 1) != list.len() {
                    proof {
                        lemma_first_arg_error_stays(all, idx + 1, list.len() as int);
                    }
                    return Err(
                        ShellError::labeled_error(
                            "Var-args variables are only allowed as the last argument!",
                            "Var-arg",
                            item.tag.span,
                        ),
                    );
                }
                let mut name = String::new();
                name.push('$');
                assert(name@ =~= seq!['$']);
                if variadic {
                    proof {
                        lemma_dots_are_three_bytes(var_name@);
                    }
                    let short = var_arg_name(var_name.as_str());
                    name.append(short.as_str());
                } else {
                    name.append(var_name.as_str());
                }
                let ghost before = processed_args.deep_view();
                let decl = VarDeclaration { name, is_var_arg: variadic, span: item.tag.span };
                assert(decl.deep_view() == declaration(all[idx as int]));
                let ghost dv = decl.deep_view();
                processed_args.push(decl);
                assert(processed_args.deep_view() =~= before.push(dv));
                assert(processed_args.deep_view() =~= Seq::new(
                    (idx + 1) as nat,
                    |i: int| declaration(all[i]),
                ));
            },
            Err(e) => {
                proof {
                    lemma_first_arg_error_stays(all, idx + 1, list.len() as int);
                }
                return Err(
                    ShellError::labeled_error(
                        "Expected a string",
                        "expected a string",
                        item.tag.span,
                    ),
                );
            },
        }
        idx += 1;
    }
    Ok(processed_args)
}

/// Index of the first hypothesis of `ds` that says `shape`, or the length of
/// `ds` if none does.
pub open spec fn first_with(ds: Seq<VarShapeDeductionView>, shape: SyntaxShape) -> int
    decreases ds.len(),
{
    if ds.len() == 0 {
        0
    } else if ds[0].deduction == shape {
        0
    } else {
        1 + first_with(ds.drop_first(), shape)
    }
}

/// The hypothesis that is chosen among `ds`: the first that says any shape;
/// else the first that says the shape of arithmetic; else the first.
pub open spec fn chosen(ds: Seq<VarShapeDeductionView>) -> VarShapeDeductionView
    recommends
        ds.len() > 0,
{
    let any = first_with(ds, SyntaxShape::Any);
    let math = first_with(ds, SyntaxShape::Math);
    if any < ds.len() {
        ds[any]
    } else if math < ds.len() {
        ds[math]
    } else {
        ds[0]
    }
}

/// The hypothesis for a variable of which nothing was deduced.
pub open spec fn default_deduction() -> VarShapeDeductionView {
    VarShapeDeductionView {
        deduction: SyntaxShape::Any,
        deducted_from: seq![Span::spec_unknown()],
        many_of_shapes: false,
    }
}

/// The hypothesis that counts for a variable with the hypotheses `ds`.
pub open spec fn resolved(ds: Option<Seq<VarShapeDeductionView>>) -> VarShapeDeductionView {
    match ds {
        Some(ds) => chosen(ds),
        None => default_deduction(),
    }
}

pub proof fn lemma_first_with(ds: Seq<VarShapeDeductionView>, shape: SyntaxShape)
    ensures
        0 <= first_with(ds, shape) <= ds.len(),
        first_with(ds, shape) < ds.len() ==> ds[first_with(ds, shape)].deduction == shape,
        forall|j: int| 0 <= j < first_with(ds, shape) ==> (#[trigger] ds[j]).deduction != shape,
    decreases ds.len(),
{
    if ds.len() > 0 && ds[0].deduction != shape {
        let rest = ds.drop_first();
        lemma_first_with(rest, shape);
        assert forall|j: int| 0 <= j < first_with(ds, shape) implies (#[trigger] ds[j]).deduction
            != shape by {
            if j > 0 {
                assert(ds[j] == rest[j - 1]);
            }
        }
    }
}

/// Where one of the hypotheses says any shape, the chosen one says any shape.
pub proof fn law_any_is_preferred(ds: Seq<VarShapeDeductionView>, i: int)
    requires
        0 <= i < ds.len(),
        ds[i].deduction == SyntaxShape::Any,
    ensures
        chosen(ds).deduction == SyntaxShape::Any,
{
    lemma_first_with(ds, SyntaxShape::Any);
}

/// Where one of the hypotheses says the shape of arithmetic and none says any
/// shape, the chosen one says the shape of arithmetic.
pub proof fn law_math_is_preferred(ds: Seq<VarShapeDeductionView>, i: int)
    requires
        0 <= i < ds.len(),
        ds[i].deduction == SyntaxShape::Math,
        forall|j: int| 0 <= j < ds.len() ==> (#[trigger] ds[j]).deduction != SyntaxShape::Any,
    ensures
        chosen(ds).deduction == SyntaxShape::Math,
{
    lemma_first_with(ds, SyntaxShape::Any);
    lemma_first_with(ds, SyntaxShape::Math);
}

/// Where no hypothesis says any shape or the shape of arithmetic, the first
/// one is chosen.
pub proof fn law_first_is_chosen_otherwise(ds: Seq<VarShapeDeductionView>)
    requires
        ds.len() > 0,
        forall|j: int|
            0 <= j < ds.len() ==> (#[trigger] ds[j]).deduction != SyntaxShape::Any
                && ds[j].deduction != SyntaxShape::Math,
    ensures
        chosen(ds) == ds[0],
{
    lemma_first_with(ds, SyntaxShape::Any);
    lemma_first_with(ds, SyntaxShape::Math);
}

fn find_shape(ds: &Vec<VarShapeDeduction>, shape: SyntaxShape) -> (r: usize)
    ensures
        r == first_with(ds.deep_view(), shape),
        r <= ds.len(),
{
    let ghost all = ds.deep_view();
    proof {
        lemma_first_with(all, shape);
    }
    let mut i: usize = 0;
    while i < ds.len()
        invariant
            i <= ds.len(),
            all == ds.deep_view(),
            i <= first_with(all, shape) <= ds.len(),
            first_with(all, shape) < ds.len() ==> all[first_with(all, shape)].deduction == shape,
            forall|j: int| 0 <= j < first_with(all, shape) ==> (#[trigger] all[j]).deduction != shape,
        decreases ds.len() - i,
    {
        assert(all[i as int] == ds@[i as int].deep_view());
        if ds[i].deduction == shape {
            return i;
        }
        i += 1;
    }
    i
}

/// Chooses among the hypotheses on one variable: the first that says any
/// shape; else the first that says the shape of arithmetic; else the first.
pub fn choose_deduction(ds: &Vec<VarShapeDeduction>) -> (d: VarShapeDeduction)
    requires
        ds.len() > 0,
    ensures
        d.deep_view() == chosen(ds.deep_view()),
{
    let any = find_shape(ds, SyntaxShape::Any);
    let math = find_shape(ds, SyntaxShape::Math);
    if any < ds.len() {
        ds[any].clone()
    } else if math < ds.len() {
        ds[math].clone()
    } else {
        ds[0].clone()
    }
}

/// The positional parameters that the variables `vars` with their hypotheses
/// make: one for each variable, which must be given, with the shape that
/// counts for the variable and without description.
pub open spec fn deduced_positional(
    vars: Seq<(VarDeclarationView, Option<Seq<VarShapeDeductionView>>)>,
) -> Seq<(PositionalTypeView, Seq<char>)> {
    Seq::new(
        vars.len(),
        |i: int|
            (PositionalTypeView::Mandatory(vars[i].0.name, resolved(vars[i].1).deduction), Seq::empty()),
    )
}

/// The signature of the command `name` whose parameters are the variables
/// `vars`. A variadic last variable becomes the rest parameter, with the
/// variable's name as its description, instead of a positional one.
pub open spec fn deduced_signature(
    name: Seq<char>,
    vars: Seq<(VarDeclarationView, Option<Seq<VarShapeDeductionView>>)>,
) -> SignatureView {
    let all = deduced_positional(vars);
    if vars.len() > 0 && vars.last().0.is_var_arg {
        SignatureView {
            positional: all.drop_last(),
            rest_positional: Some((resolved(vars.last().1).deduction, vars.last().0.name)),
            ..SignatureView::new(name)
        }
    } else {
        SignatureView { positional: all, ..SignatureView::new(name) }
    }
}

/// Whether every variable that has hypotheses has at least one.
pub open spec fn no_empty_deductions(
    vars: Seq<(VarDeclarationView, Option<Seq<VarShapeDeductionView>>)>,
) -> bool {
    forall|i: int|
        0 <= i < vars.len() ==> ((#[trigger] vars[i]).1 matches Some(ds) ==> ds.len() > 0)
}

/// Turns deduced shapes into a signature.
pub struct DeductionToSignature {}

impl DeductionToSignature {
    /// The signature of the command `cmd_name` whose parameters are the
    /// variables of `deductions`, each with the shape that counts for it.
    pub fn get(
        cmd_name: &str,
        deductions: &Vec<(VarDeclaration, Option<Vec<VarShapeDeduction>>)>,
    ) -> (sig: Signature)
        requires
            no_empty_deductions(deductions.deep_view()),
        ensures
            sig.deep_view() == deduced_signature(cmd_name@, deductions.deep_view()),
    {
        let ghost vars = deductions.deep_view();
        let mut sig = Signature::build(cmd_name);
        let mut last_shape = SyntaxShape::Any;
        let mut i: usize = 0;
        assert(deduced_positional(vars).take(0) =~= Seq::empty());
        while i < deductions.len()
            invariant
                i <= deductions.len(),
                vars == deductions.deep_view(),
                no_empty_deductions(vars),
                sig.deep_view() == (SignatureView {
                    positional: deduced_positional(vars).take(i as int),
                    ..SignatureView::new(cmd_name@)
                }),
                i > 0 ==> last_shape == resolved(vars[i - 1].1).deduction,
            decreases deductions.len() - i,
        {
            let entry = &deductions[i];
            assert(vars[i as int] == entry.deep_view());
            assert(entry.deep_view() == (entry.0.deep_view(), entry.1.deep_view()));
            let shape = match &entry.1 {
                Some(ds) => {
                    assert(entry.1.deep_view() == Some(ds.deep_view()));
                    assert(ds.deep_view().len() == ds.len());
                    choose_deduction(ds).deduction
                },
                None => SyntaxShape::Any,
            };
            let ghost before = sig.positional.deep_view();
            let p = (PositionalType::mandatory(entry.0.name.as_str(), shape), String::new());
            assert(p.deep_view() == (p.0.deep_view(), p.1@));
            sig.positional.push(p);
            assert(sig.positional.deep_view() =~= before.push(p.deep_view()));
            assert(deduced_positional(vars).take(i + 1) =~= deduced_positional(vars).take(
                i as int,
            ).push(p.deep_view()));
            last_shape = shape;
            i += 1;
        }
        assert(deduced_positional(vars).take(deductions.len() as int) =~= deduced_positional(vars));
        if deductions.len() > 0 {
            let last = &deductions[deductions.len() - 1];
            assert(vars.last() == last.deep_view());
            assert(last.deep_view() == (last.0.deep_view(), last.1.deep_view()));
            if last.0.is_var_arg {
                let ghost before = sig.positional.deep_view();
                sig.positional.pop();
                assert(sig.positional.deep_view() =~= before.drop_last());
                sig = sig.rest(last_shape, last.0.name.as_str());
            }
        }
        sig
    }
}

/// What a command asks the engine to do once it has run.
#[derive(Debug, PartialEq, Eq)]
pub enum CommandAction {
    /// Register the block under the name and with the parameters of the
    /// signature.
    AddAlias(Signature, Block),
}

/// The variables of `vars`, each with what is deduced for it from `block`.
pub open spec fn inferred(vars: Seq<VarDeclarationView>, block: Block, frames: Seq<FrameView>) -> Seq<
    (VarDeclarationView, Option<Seq<VarShapeDeductionView>>),
> {
    Seq::new(vars.len(), |i: int| (vars[i], deduced(block, vars[i].name, frames)))
}

/// What defining the alias `name` with the parameters `list` and the body
/// `block` comes to: the signature of the new command, or the first thing
/// that is wrong with the parameters.
pub open spec fn alias_signature(
    name: Seq<char>,
    list: Seq<ValueView>,
    block: Block,
    frames: Seq<FrameView>,
) -> Result<SignatureView, ShellErrorView> {
    match declared(list) {
        Ok(vars) => Ok(deduced_signature(name, inferred(vars, block, frames))),
        Err(e) => Err(e),
    }
}

/// Defines the alias `name` with the parameters `list` and the body `block`.
/// The shapes of the parameters are deduced from the block; the commands that
/// the block calls are looked up in `scope`.
///
/// Nothing is registered here: the result asks for it.
pub fn alias(name: &str, list: &Vec<Value>, block: Block, scope: &Scope) -> (r: Result<
    CommandAction,
    ShellError,
>)
    ensures
        match r {
            Ok(CommandAction::AddAlias(sig, body)) => body == block && alias_signature(
                name@,
                list.deep_view(),
                block,
                scope.frames(),
            ) == Ok::<SignatureView, ShellErrorView>(sig.deep_view()),
            Err(e) => alias_signature(name@, list.deep_view(), block, scope.frames()) == Err::<
                SignatureView,
                ShellErrorView,
            >(e.deep_view()),
        },
{
    let processed_args = match declare_vars(list) {
        Ok(vars) => vars,
        Err(e) => {
            return Err(e);
        },
    };
    let inferred_shapes = VarSyntaxShapeDeductor::infer_vars(&processed_args, &block, scope);
    proof {
        let vars = processed_args.deep_view();
        let got = inferred_shapes.deep_view();
        assert forall|i: int| 0 <= i < got.len() implies #[trigger] got[i] == (
            vars[i],
            deduced(block, vars[i].name, scope.frames()),
        ) by {
            assert(inferred_shapes[i].0 == processed_args[i]);
            assert(got[i] == (inferred_shapes[i].0.deep_view(), inferred_shapes[i].1.deep_view()));
        }
        assert(got =~= inferred(vars, block, scope.frames()));
    }
    let signature = DeductionToSignature::get(name, &inferred_shapes);
    Ok(CommandAction::AddAlias(signature, block))
}

/// The command that an alias with the signature `sig` and the body `body`
/// is registered as.
pub open spec fn alias_command(sig: SignatureView, body: Block) -> CommandView {
    CommandView::WholeStream(
        CommandInfoView {
            name: sig.name,
            usage: Seq::empty(),
            signature: sig,
            is_binary: false,
            body: Some(body),
        },
    )
}

/// Does in `scope` what `action` asks for: an alias is bound, under the name
/// of its signature, in the innermost frame.
pub fn apply_action(scope: &mut Scope, action: CommandAction)
    ensures
        action matches CommandAction::AddAlias(sig, body) ==> final(scope).frames() == with_command(
            old(scope).frames(),
            sig.name@,
            alias_command(sig.deep_view(), body),
        ),
{
    match action {
        CommandAction::AddAlias(sig, body) => {
            let name = sig.name.clone();
            let command = Command::WholeStream(
                CommandInfo {
                    name: sig.name.clone(),
                    usage: String::new(),
                    signature: sig,
                    is_binary: false,
                    body: Some(body),
                },
            );
            scope.add_command(name, command);
        },
    }
}

/// Defines the alias `name` and binds it in the innermost frame of `scope`.
/// Where the parameters are not in order, the error is handed back and the
/// scope stays as it is.
pub fn define_alias(scope: &mut Scope, name: &str, list: &Vec<Value>, block: Block) -> (r: Result<
    (),
    ShellError,
>)
    ensures
        match alias_signature(name@, list.deep_view(), block, old(scope).frames()) {
            Ok(sig) => r is Ok && final(scope).frames() == with_command(
                old(scope).frames(),
                name@,
                alias_command(sig, block),
            ),
            Err(e) => r is Err && r->Err_0.deep_view() == e && final(scope).frames() == old(
                scope,
            ).frames(),
        },
{
    match alias(name, list, block, scope) {
        Ok(action) => {
            apply_action(scope, action);
            Ok(())
        },
        Err(e) => Err(e),
    }
}

/// The `alias` command.
pub struct Alias;

impl WholeStreamCommand for Alias {
    open spec fn spec_name(&self) -> Seq<char> {
        "alias"@
    }

    open spec fn spec_usage(&self) -> Seq<char> {
        "Define a shortcut for another command."@
    }

    open spec fn spec_signature(&self) -> SignatureView {
        SignatureView::new("alias"@)
            .with_positional(
                PositionalTypeView::Mandatory("name"@, SyntaxShape::String),
                "the name of the alias"@,
            )
            .with_positional(
                PositionalTypeView::Mandatory("args"@, SyntaxShape::Table),
                "the arguments to the alias"@,
            )
            .with_positional(
                PositionalTypeView::Mandatory("block"@, SyntaxShape::Block),
                "the block to run as the body of the alias"@,
            )
            .with_named(
                "infer"@,
                NamedType::Switch(Some('i')),
                "infer argument types (experimental)"@,
            )
            .with_named("save"@, NamedType::Switch(Some('s')), "save the alias to your config"@)
    }

    fn name(&self) -> (n: &str) {
        "alias"
    }

    fn signature(&self) -> (s: Signature) {
        Signature::build("alias")
            .required("name", SyntaxShape::String, "the name of the alias")
            .required("args", SyntaxShape::Table, "the arguments to the alias")
            .required("block", SyntaxShape::Block, "the block to run as the body of the alias")
            .switch("infer", "infer argument types (experimental)", Some('i'))
            .switch("save", "save the alias to your config", Some('s'))
    }

    fn usage(&self) -> (u: &str) {
        "Define a shortcut for another command."
    }
}

impl Alias {
    /// Command lines that show how the command is used.
    pub fn examples(&self) -> (r: Vec<Example>)
        ensures
            r.len() == 4,
            r[0].description@ == "An alias without parameters"@
                && r[0].example@ == "alias say-hi [] { echo 'Hello!' }"@
                && r[0].result is None,
            r[1].description@ == "An alias with a single parameter"@
                && r[1].example@ == "alias l [x] { ls $x }"@
                && r[1].result is None,
            r[2].description@ == "An alias with an variable amount of parameter"@
                && r[2].example@ == "alias l [x...] { ls $x }"@
                && r[2].result is None,
            r[3].description@ == "An alias with at least 1 parameter"@
                && r[3].example@ == "alias l [first, x...] { ls $first $x }"@
                && r[3].result is None,
    {
        let mut r: Vec<Example> = Vec::new();
        r.push(
            Example {
                description: "An alias without parameters",
                example: "alias say-hi [] { echo 'Hello!' }",
                result: None,
            },
        );
        r.push(
            Example {
                description: "An alias with a single parameter",
                example: "alias l [x] { ls $x }",
                result: None,
            },
        );
        r.push(
            Example {
                description: "An alias with an variable amount of parameter",
                example: "alias l [x...] { ls $x }",
                result: None,
            },
        );
        r.push(
            Example {
                description: "An alias with at least 1 parameter",
                example: "alias l [first, x...] { ls $first $x }",
                result: None,
            },
        );
        r
    }
}

/// The arguments of the `alias` command.
#[derive(Debug, PartialEq, Eq)]
pub struct AliasArgs {
    pub name: String,
    pub args: Vec<Value>,
    pub block: Block,
    pub infer: Option<bool>,
    pub save: Option<bool>,
}

} // verus!
