//! What the engine knows of a command: its name, its usage line, its
//! signature, and whether it takes the whole input at once or item by item.

use crate::errors::{ShellError, ShellErrorView};
use crate::hir::Block;
use crate::signature::{PositionalType, PositionalTypeView, Signature, SignatureView};
use crate::span::Tag;
use crate::value::{
    cell, Dictionary, PrimitiveView, UntaggedValue, UntaggedValueView, Value, ValueView,
};
use vstd::prelude::*;
use vstd::string::StringExecFns;

verus! {

/// A command line that shows how a command is used, and what it gives where
/// that does not depend on the machine.
#[derive(Debug, PartialEq, Eq)]
pub struct Example {
    pub description: &'static str,
    pub example: &'static str,
    pub result: Option<Vec<Value>>,
}

/// A command that takes its whole input at once and runs once.
pub trait WholeStreamCommand {
    spec fn spec_name(&self) -> Seq<char>;

    spec fn spec_usage(&self) -> Seq<char>;

    spec fn spec_signature(&self) -> SignatureView;

    /// The name by which the command is called.
    fn name(&self) -> (n: &str)
        ensures
            n@ == self.spec_name(),
    ;

    /// The parameters and flags that the command declares.
    fn signature(&self) -> (s: Signature)
        ensures
            s.deep_view() == self.spec_signature(),
    ;

    /// One line on what the command does.
    fn usage(&self) -> (u: &str)
        ensures
            u@ == self.spec_usage(),
    ;
}

/// A command that is run once for each item of its input.
pub trait PerItemCommand {
    spec fn spec_name(&self) -> Seq<char>;

    spec fn spec_usage(&self) -> Seq<char>;

    spec fn spec_signature(&self) -> SignatureView;

    /// The name by which the command is called.
    fn name(&self) -> (n: &str)
        ensures
            n@ == self.spec_name(),
    ;

    /// The parameters and flags that the command declares.
    fn signature(&self) -> (s: Signature)
        ensures
            s.deep_view() == self.spec_signature(),
    ;

    /// One line on what the command does.
    fn usage(&self) -> (u: &str)
        ensures
            u@ == self.spec_usage(),
    ;
}

/// A command that takes its whole input at once, run once for each item of
/// the input instead.
pub struct PerItem<C>(pub C);

impl<C: WholeStreamCommand> PerItemCommand for PerItem<C> {
    open spec fn spec_name(&self) -> Seq<char> {
        self.0.spec_name()
    }

    open spec fn spec_usage(&self) -> Seq<char> {
        self.0.spec_usage()
    }

    open spec fn spec_signature(&self) -> SignatureView {
        self.0.spec_signature()
    }

    fn name(&self) -> (n: &str) {
        self.0.name()
    }

    fn signature(&self) -> (s: Signature) {
        self.0.signature()
    }

    fn usage(&self) -> (u: &str) {
        self.0.usage()
    }
}

/// What a registered command says of itself.
#[derive(Debug, PartialEq, Eq)]
pub struct CommandInfo {
    pub name: String,
    pub usage: String,
    pub signature: Signature,
    pub is_binary: bool,
    /// The block that is run in place of the command, if the command is an
    /// alias.
    pub body: Option<Block>,
}

/// [`CommandInfo`] with text as character sequences.
pub struct CommandInfoView {
    pub name: Seq<char>,
    pub usage: Seq<char>,
    pub signature: SignatureView,
    pub is_binary: bool,
    pub body: Option<Block>,
}

impl DeepView for CommandInfo {
    type V = CommandInfoView;

    open spec fn deep_view(&self) -> CommandInfoView {
        CommandInfoView {
            name: self.name@,
            usage: self.usage@,
            signature: self.signature.deep_view(),
            is_binary: self.is_binary,
            body: self.body,
        }
    }
}

/// A registered command. The two kinds differ in how they are run: once for
/// the whole input, or once for each item of it.
#[derive(Debug, PartialEq, Eq)]
pub enum Command {
    WholeStream(CommandInfo),
    PerItem(CommandInfo),
}

/// [`Command`] with text as character sequences.
pub enum CommandView {
    WholeStream(CommandInfoView),
    PerItem(CommandInfoView),
}

impl DeepView for Command {
    type V = CommandView;

    open spec fn deep_view(&self) -> CommandView {
        match *self {
            Command::WholeStream(info) => CommandView::WholeStream(info.deep_view()),
            Command::PerItem(info) => CommandView::PerItem(info.deep_view()),
        }
    }
}

impl CommandView {
    pub open spec fn info(self) -> CommandInfoView {
        match self {
            CommandView::WholeStream(info) => info,
            CommandView::PerItem(info) => info,
        }
    }
}

impl Command {
    fn info(&self) -> (i: &CommandInfo)
        ensures
            i.deep_view() == self.deep_view().info(),
    {
        match self {
            Command::WholeStream(info) => info,
            Command::PerItem(info) => info,
        }
    }

    /// The name by which the command is called.
    pub fn name(&self) -> (n: &str)
        ensures
            n@ == self.deep_view().info().name,
    {
        self.info().name.as_str()
    }

    /// The parameters and flags that the command declares.
    pub fn signature(&self) -> (s: &Signature)
        ensures
            s.deep_view() == self.deep_view().info().signature,
    {
        &self.info().signature
    }

    /// One line on what the command does.
    pub fn usage(&self) -> (u: &str)
        ensures
            u@ == self.deep_view().info().usage,
    {
        self.info().usage.as_str()
    }

    /// Whether the command reads and writes raw bytes.
    pub fn is_binary(&self) -> (b: bool)
        ensures
            b == self.deep_view().info().is_binary,
    {
        self.info().is_binary
    }
}

/// Registers `command` as one that takes its whole input at once.
pub fn whole_stream_command<C: WholeStreamCommand>(command: &C) -> (c: Command)
    ensures
        c.deep_view() == CommandView::WholeStream(
            CommandInfoView {
                name: command.spec_name(),
                usage: command.spec_usage(),
                signature: command.spec_signature(),
                is_binary: false,
                body: None,
            },
        ),
{
    Command::WholeStream(
        CommandInfo {
            name: command.name().to_owned(),
            usage: command.usage().to_owned(),
            signature: command.signature(),
            is_binary: false,
            body: None,
        },
    )
}

/// Registers `command` as one that is run once for each item of its input.
pub fn per_item_command<C: PerItemCommand>(command: &C) -> (c: Command)
    ensures
        c.deep_view() == CommandView::PerItem(
            CommandInfoView {
                name: command.spec_name(),
                usage: command.spec_usage(),
                signature: command.spec_signature(),
                is_binary: false,
                body: None,
            },
        ),
{
    Command::PerItem(
        CommandInfo {
            name: command.name().to_owned(),
            usage: command.usage().to_owned(),
            signature: command.signature(),
            is_binary: false,
            body: None,
        },
    )
}

/// The arguments of a call after evaluation: the positional ones in order,
/// and the flags by name.
#[derive(Debug, PartialEq, Eq)]
pub struct EvaluatedArgs {
    pub positional: Option<Vec<Value>>,
    pub named: Option<Dictionary>,
}

/// A call after evaluation: its arguments and the place of the command's name
/// in the source.
#[derive(Debug, PartialEq, Eq)]
pub struct CallInfo {
    pub args: EvaluatedArgs,
    pub name_tag: Tag,
}

/// The positional argument at `pos`, if it was given.
pub open spec fn nth_of(positional: Option<Vec<Value>>, pos: int) -> Option<ValueView> {
    match positional {
        Some(values) => if 0 <= pos < values@.len() {
            Some(values@[pos].deep_view())
        } else {
            None
        },
        None => None,
    }
}

/// The value of the flag `name`, if it was given.
pub open spec fn named_of(named: Option<Dictionary>, name: Seq<char>) -> Option<ValueView> {
    match named {
        Some(d) => cell(d.deep_view(), name),
        None => None,
    }
}

impl EvaluatedArgs {
    /// The positional argument at `pos`, if it was given.
    pub fn nth(&self, pos: usize) -> (r: Option<&Value>)
        ensures
            match r {
                Some(v) => nth_of(self.positional, pos as int) == Some(v.deep_view()),
                None => nth_of(self.positional, pos as int) is None,
            },
    {
        match &self.positional {
            Some(values) => if pos < values.len() {
                Some(&values[pos])
            } else {
                None
            },
            None => None,
        }
    }

    /// The value of the flag `name`, if it was given.
    pub fn get(&self, name: &str) -> (r: Option<&Value>)
        ensures
            match r {
                Some(v) => named_of(self.named, name@) == Some(v.deep_view()),
                None => named_of(self.named, name@) is None,
            },
    {
        match &self.named {
            Some(d) => d.get_data(name),
            None => None,
        }
    }

    /// Whether the flag `name` was given.
    pub fn has(&self, name: &str) -> (b: bool)
        ensures
            b == named_of(self.named, name@) is Some,
    {
        self.get(name).is_some()
    }

    /// Whether the switch `name` is set: given, and not with the value
    /// `false`.
    pub fn switch_present(&self, name: &str) -> (b: bool)
        ensures
            b == match named_of(self.named, name@) {
                Some(v) => v.truth() != Some(false),
                None => false,
            },
    {
        match self.get(name) {
            Some(v) => match v.as_bool() {
                Ok(b) => b,
                Err(_) => true,
            },
            None => false,
        }
    }
}

/// The arguments that a command is run with.
#[derive(Debug, PartialEq, Eq)]
pub struct EvaluatedCommandArgs {
    pub call_info: CallInfo,
}

/// The error for a positional argument that is missing.
pub open spec fn missing_argument() -> ShellErrorView {
    ShellErrorView::Unimplemented { reason: "Better error: expect_nth"@ }
}

impl EvaluatedCommandArgs {
    pub fn new(call_info: CallInfo) -> (a: EvaluatedCommandArgs)
        ensures
            a == (EvaluatedCommandArgs { call_info }),
    {
        EvaluatedCommandArgs { call_info }
    }

    /// The positional argument at `pos`, if it was given.
    pub fn nth(&self, pos: usize) -> (r: Option<&Value>)
        ensures
            match r {
                Some(v) => nth_of(self.call_info.args.positional, pos as int) == Some(
                    v.deep_view(),
                ),
                None => nth_of(self.call_info.args.positional, pos as int) is None,
            },
    {
        self.call_info.args.nth(pos)
    }

    /// The positional argument at `pos`; an error if it was not given.
    pub fn expect_nth(&self, pos: usize) -> (r: Result<&Value, ShellError>)
        ensures
            match r {
                Ok(v) => nth_of(self.call_info.args.positional, pos as int) == Some(v.deep_view()),
                Err(e) => nth_of(self.call_info.args.positional, pos as int) is None
                    && e.deep_view() == missing_argument(),
            },
    {
        match self.call_info.args.nth(pos) {
            None => Err(ShellError::unimplemented("Better error: expect_nth")),
            Some(item) => Ok(item),
        }
    }

    /// The value of the flag `name`, if it was given.
    pub fn get(&self, name: &str) -> (r: Option<&Value>)
        ensures
            match r {
                Some(v) => named_of(self.call_info.args.named, name@) == Some(v.deep_view()),
                None => named_of(self.call_info.args.named, name@) is None,
            },
    {
        self.call_info.args.get(name)
    }

    /// Whether the flag `name` was given.
    pub fn has(&self, name: &str) -> (b: bool)
        ensures
            b == named_of(self.call_info.args.named, name@) is Some,
    {
        self.call_info.args.has(name)
    }

    /// The place of the command's name in the source.
    pub fn name_tag(&self) -> (t: Tag)
        ensures
            t == self.call_info.name_tag,
    {
        self.call_info.name_tag
    }
}

/// What a command that is run item by item knows of the call: the place of
/// the command's name in the source, and whether the user asked to stop.
#[derive(Debug, PartialEq, Eq)]
pub struct RunnablePerItemContext {
    pub name: Tag,
    pub ctrl_c: bool,
}

/// How one positional parameter is written in the usage line: in angle
/// brackets if it must be given, in round ones if it may be left out.
pub open spec fn parameter_usage(p: PositionalTypeView) -> Seq<char> {
    match p {
        PositionalTypeView::Mandatory(name, _) => seq![' ', '<'] + name + seq!['>'],
        PositionalTypeView::Optional(name, _) => seq![' ', '('] + name + seq![')'],
    }
}

/// How the first `n` positional parameters are written in the usage line.
pub open spec fn parameters_usage(positional: Seq<(PositionalTypeView, Seq<char>)>, n: int) -> Seq<
    char,
>
    decreases n,
{
    if n <= 0 {
        Seq::empty()
    } else {
        parameters_usage(positional, n - 1) + parameter_usage(positional[n - 1].0)
    }
}

/// The help text of a command: what it does, and how it is called.
pub open spec fn help_text(info: CommandInfoView) -> Seq<char> {
    info.usage + "\n\nUsage:\n  > "@ + info.name + parameters_usage(
        info.signature.positional,
        info.signature.positional.len() as int,
    ) + (if info.signature.rest_positional is Some {
        " ...args"@
    } else {
        Seq::empty()
    }) + (if info.signature.named.len() > 0 {
        " {flags}"@
    } else {
        Seq::empty()
    }) + "\n"@
}

/// What is to be done for a call of a command.
#[derive(Debug, PartialEq, Eq)]
pub enum Dispatch {
    /// The help text is handed on; the command is not run.
    Help(Value),
    /// The command is run once, with the whole input.
    WholeStream,
    /// The command is run once for each item of the input.
    PerItem,
}

impl Dispatch {
    pub open spec fn view_of(self) -> Option<ValueView> {
        match self {
            Dispatch::Help(v) => Some(v.deep_view()),
            _ => None,
        }
    }
}

impl Command {
    /// The help text of the command.
    pub fn get_help(&self) -> (text: String)
        ensures
            text@ == help_text(self.deep_view().info()),
    {
        let info = self.info();
        let mut text = info.usage.clone();
        text.append("\n\nUsage:\n  > ");
        text.append(info.name.as_str());
        let ghost start = text@;
        let ghost positional = info.signature.deep_view().positional;
        let n = info.signature.positional.len();
        let mut i: usize = 0;
        assert(text@ =~= start + parameters_usage(positional, 0));
        while i < n
            invariant
                i <= n,
                n == info.signature.positional.len(),
                positional == info.signature.deep_view().positional,
                text@ == start + parameters_usage(positional, i as int),
            decreases n - i,
        {
            let ghost before = text@;
            let p = &info.signature.positional[i];
            assert(positional[i as int] == p.deep_view());
            assert(p.deep_view() == (p.0.deep_view(), p.1@));
            match &p.0 {
                PositionalType::Mandatory(name, _) => {
                    text.push(' ');
                    text.push('<');
                    text.append(name.as_str());
                    text.push('>');
                    assert(text@ =~= before + (seq![' ', '<'] + name@ + seq!['>']));
                },
                PositionalType::Optional(name, _) => {
                    text.push(' ');
                    text.push('(');
                    text.append(name.as_str());
                    text.push(')');
                    assert(text@ =~= before + (seq![' ', '('] + name@ + seq![')']));
                },
            }
            assert(text@ =~= start + parameters_usage(positional, i + 1));
            i += 1;
        }
        if info.signature.rest_positional.is_some() {
            text.append(" ...args");
        }
        if info.signature.named.len() > 0 {
            text.append(" {flags}");
        }
        text.append("\n");
        assert(text@ =~= help_text(self.deep_view().info()));
        text
    }

    /// What is to be done for a call with the arguments `args`: where the
    /// switch `help` is set, the help text is handed on with the tag of the
    /// call and the command is not run; else the command is run as its kind
    /// asks for.
    pub fn run(&self, call_info: &CallInfo) -> (d: Dispatch)
        ensures
            match named_of(call_info.args.named, "help"@) {
                Some(v) if v.truth() != Some(false) => d.view_of() == Some(
                    ValueView {
                        value: UntaggedValueView::Primitive(
                            PrimitiveView::String(help_text(self.deep_view().info())),
                        ),
                        tag: call_info.name_tag,
                    },
                ),
                _ => match *self {
                    Command::WholeStream(_) => d is WholeStream,
                    Command::PerItem(_) => d is PerItem,
                },
            },
    {
        if call_info.args.switch_present("help") {
            let text = self.get_help();
            let v = UntaggedValue::string(text.as_str()).into_value(call_info.name_tag);
            assert(v.deep_view().value == v.value.deep_view());
            Dispatch::Help(v)
        } else {
            match self {
                Command::WholeStream(_) => Dispatch::WholeStream,
                Command::PerItem(_) => Dispatch::PerItem,
            }
        }
    }
}

} // verus!
