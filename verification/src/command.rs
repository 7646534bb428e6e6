//! The commands of the tool, and what each of them comes to once the
//! inventory is in hand.
//!
//! `list` shows the inventory. `start`, `stop` and `connect` take the name
//! of one instance, and fail where the name does not resolve. `group
//! start` and `group stop` take the name of a group and fan out over its
//! members; there a member that does not resolve is reported in its line,
//! and a group that no instance is tagged with is reported in one line.

use crate::dispatch::{plan_spec, Dispatcher, ResultView, Transition};
use crate::group::{group_known, is_member_list, resolve_group};
use crate::instance::{InstanceRecord, RecordView};
use crate::present::{describe_error, error_text, render_table, table_spec};
use crate::resolve::{
    connect_spec, connection_address, resolve, resolve_spec, ResolutionError, ResolutionErrorView,
};
use crate::text::{join, joined, same_text};
use vstd::prelude::*;

verus! {

/// What the operator asked for.
#[derive(Clone, Debug, PartialEq, Eq)]
pub enum Command {
    List,
    Start(String),
    Stop(String),
    Connect(String),
    GroupStart(String),
    GroupStop(String),
}

/// What a [`Command`] holds, as plain values.
pub enum CommandView {
    List,
    Start(Seq<char>),
    Stop(Seq<char>),
    Connect(Seq<char>),
    GroupStart(Seq<char>),
    GroupStop(Seq<char>),
}

impl View for Command {
    type V = CommandView;

    open spec fn view(&self) -> CommandView {
        match *self {
            Command::List => CommandView::List,
            Command::Start(name) => CommandView::Start(name@),
            Command::Stop(name) => CommandView::Stop(name@),
            Command::Connect(name) => CommandView::Connect(name@),
            Command::GroupStart(group) => CommandView::GroupStart(group@),
            Command::GroupStop(group) => CommandView::GroupStop(group@),
        }
    }
}

/// The words of the command line are no command; they are kept, joined by
/// single spaces.
#[derive(Clone, Debug, PartialEq, Eq)]
pub struct UnknownCommand {
    pub words: String,
}

/// The command that the words of a command line spell, if they spell one:
/// the verb, for a group command the verb within the group, and the one
/// operand where the command takes one.
pub open spec fn command_of(words: Seq<Seq<char>>) -> Option<CommandView> {
    if words.len() == 1 && words[0] == "list"@ {
        Some(CommandView::List)
    } else if words.len() == 2 && words[0] == "start"@ {
        Some(CommandView::Start(words[1]))
    } else if words.len() == 2 && words[0] == "stop"@ {
        Some(CommandView::Stop(words[1]))
    } else if words.len() == 2 && words[0] == "connect"@ {
        Some(CommandView::Connect(words[1]))
    } else if words.len() == 3 && words[0] == "group"@ && words[1] == "start"@ {
        Some(CommandView::GroupStart(words[2]))
    } else if words.len() == 3 && words[0] == "group"@ && words[1] == "stop"@ {
        Some(CommandView::GroupStop(words[2]))
    } else {
        None
    }
}

/// The command that the words of a command line spell. Words that spell
/// none are an error, never a panic.
pub fn interpret(words: &Vec<String>) -> (r: Result<Command, UnknownCommand>)
    ensures
        match command_of(words.deep_view()) {
            Some(command) => r is Ok && r->Ok_0@ == command,
            None => r is Err && r->Err_0.words@ == joined(words.deep_view(), " "@),
        },
{
    let n = words.len();
    proof {
        assert(forall|i: int| 0 <= i < n ==> words.deep_view()[i] == words[i]@);
    }
    if n == 1 {
        if same_text(words[0].as_str(), "list") {
            return Ok(Command::List);
        }
    } else if n == 2 {
        if same_text(words[0].as_str(), "start") {
            return Ok(Command::Start(words[1].clone()));
        } else if same_text(words[0].as_str(), "stop") {
            return Ok(Command::Stop(words[1].clone()));
        } else if same_text(words[0].as_str(), "connect") {
            return Ok(Command::Connect(words[1].clone()));
        }
    } else if n == 3 {
        if same_text(words[0].as_str(), "group") {
            if same_text(words[1].as_str(), "start") {
                return Ok(Command::GroupStart(words[2].clone()));
            } else if same_text(words[1].as_str(), "stop") {
                return Ok(Command::GroupStop(words[2].clone()));
            }
        }
    }
    Err(UnknownCommand { words: join(words, " ") })
}

/// What a command comes to once the inventory is in hand.
#[derive(Debug)]
pub enum Prepared {
    /// Lines to show; nothing else is to be done.
    Report(Vec<String>),
    /// Transitions to carry out, by running this dispatch to its end.
    Dispatch(Dispatcher),
    /// A remote shell to open at this address.
    Connect(String),
}

/// `prepared` is a dispatch of `transition` over `targets` that has not
/// begun.
pub open spec fn is_fresh_dispatch(
    prepared: Prepared,
    transition: Transition,
    targets: Seq<Seq<char>>,
    directory: Seq<RecordView>,
) -> bool {
    &&& prepared is Dispatch
    &&& prepared->Dispatch_0.wf()
    &&& prepared->Dispatch_0@.transition == transition
    &&& prepared->Dispatch_0@.plan == plan_spec(transition, targets, directory)
    &&& prepared->Dispatch_0@.results == Seq::<ResultView>::empty()
    &&& !prepared->Dispatch_0@.awaiting
}

/// What a transition of the one instance `name` comes to: the resolver's
/// error where the name does not resolve, a dispatch over this one target
/// where it does.
pub open spec fn is_single(
    transition: Transition,
    name: Seq<char>,
    directory: Seq<RecordView>,
    r: Result<Prepared, ResolutionError>,
) -> bool {
    match resolve_spec(name, directory) {
        Err(e) => r is Err && r->Err_0@ == e,
        Ok(_) => r is Ok && is_fresh_dispatch(r->Ok_0, transition, seq![name], directory),
    }
}

/// What a transition of the group `group` comes to: a dispatch over the
/// group's member list; one line that says so where no instance is tagged
/// with the group.
pub open spec fn is_fan_out(
    transition: Transition,
    group: Seq<char>,
    directory: Seq<RecordView>,
    r: Result<Prepared, ResolutionError>,
) -> bool {
    if group_known(directory, group) {
        &&& r is Ok
        &&& exists|members: Seq<Seq<char>>| #[trigger]
            is_member_list(directory, group, members) && is_fresh_dispatch(
                r->Ok_0,
                transition,
                members,
                directory,
            )
    } else {
        &&& r is Ok
        &&& r->Ok_0 is Report
        &&& r->Ok_0->Report_0.deep_view() == seq![
            error_text(ResolutionErrorView::GroupNotFound(group)),
        ]
    }
}

/// `r` is what `command` comes to against `directory`.
pub open spec fn is_preparation(
    command: CommandView,
    directory: Seq<RecordView>,
    r: Result<Prepared, ResolutionError>,
) -> bool {
    match command {
        CommandView::List => {
            &&& r is Ok
            &&& r->Ok_0 is Report
            &&& r->Ok_0->Report_0.deep_view() == table_spec(directory)
        },
        CommandView::Start(name) => is_single(Transition::Start, name, directory, r),
        CommandView::Stop(name) => is_single(Transition::Stop, name, directory, r),
        CommandView::Connect(name) => match connect_spec(name, directory) {
            Ok(address) => r is Ok && r->Ok_0 is Connect && r->Ok_0->Connect_0@ == address,
            Err(e) => r is Err && r->Err_0@ == e,
        },
        CommandView::GroupStart(group) => is_fan_out(Transition::Start, group, directory, r),
        CommandView::GroupStop(group) => is_fan_out(Transition::Stop, group, directory, r),
    }
}

/// Prepares a transition of the one instance `name`.
pub fn prepare_single(
    transition: Transition,
    name: &String,
    directory: &Vec<InstanceRecord>,
) -> (r: Result<Prepared, ResolutionError>)
    ensures
        is_single(transition, name@, directory.deep_view(), r),
{
    match resolve(name.as_str(), directory) {
        Err(e) => Err(e),
        Ok(_) => {
            let mut targets: Vec<String> = Vec::new();
            targets.push(name.clone());
            assert(targets.deep_view() =~= seq![name@]);
            Ok(Prepared::Dispatch(Dispatcher::begin(transition, &targets, directory)))
        },
    }
}

/// Prepares a transition of all members of the group `group`.
pub fn prepare_fan_out(
    transition: Transition,
    group: &String,
    directory: &Vec<InstanceRecord>,
) -> (r: Result<Prepared, ResolutionError>)
    ensures
        is_fan_out(transition, group@, directory.deep_view(), r),
{
    match resolve_group(group.as_str(), directory) {
        Err(e) => {
            let mut lines: Vec<String> = Vec::new();
            lines.push(describe_error(&e));
            assert(lines.deep_view() =~= seq![
                error_text(ResolutionErrorView::GroupNotFound(group@)),
            ]);
            Ok(Prepared::Report(lines))
        },
        Ok(descriptor) => {
            assert(is_member_list(
                directory.deep_view(),
                group@,
                descriptor.member_names.deep_view(),
            ));
            Ok(
                Prepared::Dispatch(
                    Dispatcher::begin(transition, &descriptor.member_names, directory),
                ),
            )
        },
    }
}

/// Says what `command` comes to against the inventory. Only a command on
/// one instance can fail here, with the resolver's error; a group command
/// reports what does not resolve and goes on.
pub fn prepare(command: &Command, directory: &Vec<InstanceRecord>) -> (r: Result<
    Prepared,
    ResolutionError,
>)
    ensures
        is_preparation(command@, directory.deep_view(), r),
{
    match command {
        Command::List => Ok(Prepared::Report(render_table(directory))),
        Command::Start(name) => prepare_single(Transition::Start, name, directory),
        Command::Stop(name) => prepare_single(Transition::Stop, name, directory),
        Command::Connect(name) => match connection_address(name.as_str(), directory) {
            Ok(address) => Ok(Prepared::Connect(address)),
            Err(e) => Err(e),
        },
        Command::GroupStart(group) => prepare_fan_out(Transition::Start, group, directory),
        Command::GroupStop(group) => prepare_fan_out(Transition::Stop, group, directory),
    }
}

} // verus!
