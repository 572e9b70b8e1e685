//! The context in which a command line is run, with the built-in commands in
//! place.

use crate::alias::Alias;
use crate::command::{
    whole_stream_command, Command, CommandInfoView, CommandView, WholeStreamCommand,
};
use crate::commands;
use crate::scope::{with_command, FrameView, Scope};
use vstd::prelude::*;

verus! {

/// What a command line is run in.
#[derive(Debug, PartialEq, Eq)]
pub struct EvaluationContext {
    pub scope: Scope,
}

/// The frames after the commands `commands` were bound in the innermost
/// frame, each under its own name, one after the other.
pub open spec fn with_commands(frames: Seq<FrameView>, commands: Seq<CommandView>) -> Seq<FrameView>
    decreases commands.len(),
{
    if commands.len() == 0 {
        frames
    } else {
        with_command(
            with_commands(frames, commands.drop_last()),
            commands.last().info().name,
            commands.last(),
        )
    }
}

/// What a command that takes its whole input at once is registered as.
pub open spec fn registered<C: WholeStreamCommand>(command: C) -> CommandView {
    CommandView::WholeStream(
        CommandInfoView {
            name: command.spec_name(),
            usage: command.spec_usage(),
            signature: command.spec_signature(),
            is_binary: false,
            body: None,
        },
    )
}

/// The built-in commands, in the order in which they are registered.
pub open spec fn default_commands() -> Seq<CommandView> {
    seq![
        registered(Alias),
        registered(commands::first::First),
        registered(commands::insert::Insert),
        registered(commands::map_max_by::MapMaxBy),
        registered(commands::seq::SeqCommand),
        registered(commands::sum::Sum),
        registered(commands::to_md::ToMarkdown),
        registered(commands::to_toml::ToTOML),
        registered(commands::all::Command),
        registered(commands::append::Command),
        registered(commands::random::Command),
        registered(commands::keep_until::SubCommand),
        registered(commands::ceil::SubCommand),
        registered(commands::path_exists::PathExists),
        registered(commands::path_split::PathSplit),
        registered(commands::shuffle::Shuffle),
        registered(commands::which::Which),
        registered(commands::dataframe::load::DataFrame),
        registered(commands::dataframe::where_::DataFrame),
        registered(commands::dataframe::replace_all::DataFrame),
        registered(commands::dataframe::unique::DataFrame),
    ]
}

impl EvaluationContext {
    /// A context whose scope has the global frame alone, which binds nothing.
    pub fn basic() -> (ctx: EvaluationContext)
        ensures
            ctx.scope.frames() == seq![FrameView::empty()],
    {
        EvaluationContext { scope: Scope::new() }
    }

    /// Binds each of the commands under its own name in the innermost frame.
    pub fn add_commands(&mut self, commands: Vec<Command>)
        ensures
            final(self).scope.frames() == with_commands(
                old(self).scope.frames(),
                commands.deep_view(),
            ),
    {
        let ghost all = commands.deep_view();
        let ghost start = self.scope.frames();
        let mut rest = commands;
        let mut taken: Vec<Command> = Vec::new();
        // Turn the list around so that the commands can be taken off its end
        // in their order.
        while rest.len() > 0
            invariant
                rest.len() + taken.len() == all.len(),
                forall|i: int| 0 <= i < rest.len() ==> (#[trigger] rest@[i]).deep_view() == all[i],
                forall|i: int|
                    0 <= i < taken.len() ==> (#[trigger] taken@[i]).deep_view() == all[all.len() - 1
                        - i],
            decreases rest.len(),
        {
            let c = rest.pop().unwrap();
            taken.push(c);
        }
        let ghost n = all.len() as int;
        assert(all.take(0) =~= Seq::<CommandView>::empty());
        while taken.len() > 0
            invariant
                n == all.len(),
                taken.len() <= n,
                forall|i: int|
                    0 <= i < taken.len() ==> (#[trigger] taken@[i]).deep_view() == all[n - 1 - i],
                self.scope.frames() == with_commands(start, all.take(n - taken.len())),
            decreases taken.len(),
        {
            let ghost k = n - taken.len();
            let c = taken.pop().unwrap();
            assert(c.deep_view() == all[k]);
            assert(all.take(k + 1).drop_last() =~= all.take(k));
            assert(all.take(k + 1).last() == all[k]);
            let name = c.name().to_owned();
            self.scope.add_command(name, c);
        }
        assert(all.take(n) =~= all);
    }
}

/// The context with the built-in commands bound in the global frame.
pub fn create_default_context(interactive: bool) -> (context: EvaluationContext)
    ensures
        context.scope.frames() == with_commands(seq![FrameView::empty()], default_commands()),
{
    let mut context = EvaluationContext::basic();
    let mut list: Vec<Command> = Vec::new();
    list.push(whole_stream_command(&Alias));
    list.push(whole_stream_command(&commands::first::First));
    list.push(whole_stream_command(&commands::insert::Insert));
    list.push(whole_stream_command(&commands::map_max_by::MapMaxBy));
    list.push(whole_stream_command(&commands::seq::SeqCommand));
    list.push(whole_stream_command(&commands::sum::Sum));
    list.push(whole_stream_command(&commands::to_md::ToMarkdown));
    list.push(whole_stream_command(&commands::to_toml::ToTOML));
    list.push(whole_stream_command(&commands::all::Command));
    list.push(whole_stream_command(&commands::append::Command));
    list.push(whole_stream_command(&commands::random::Command));
    list.push(whole_stream_command(&commands::keep_until::SubCommand));
    list.push(whole_stream_command(&commands::ceil::SubCommand));
    list.push(whole_stream_command(&commands::path_exists::PathExists));
    list.push(whole_stream_command(&commands::path_split::PathSplit));
    list.push(whole_stream_command(&commands::shuffle::Shuffle));
    list.push(whole_stream_command(&commands::which::Which));
    list.push(whole_stream_command(&commands::dataframe::load::DataFrame));
    list.push(whole_stream_command(&commands::dataframe::where_::DataFrame));
    list.push(whole_stream_command(&commands::dataframe::replace_all::DataFrame));
    list.push(whole_stream_command(&commands::dataframe::unique::DataFrame));
    assert(list.deep_view() =~= default_commands());
    context.add_commands(list);
    context
}

} // verus!
