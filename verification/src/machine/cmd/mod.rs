//! Command definitions.
//!
//! A command is the building block of the logic that the runtime holds in
//! memory. Each command can be built from a prototype, which is what the
//! script parser hands over, and executed, which works on the data of one
//! entity or asks for work in a wider scope.
//!
//! The commands of a component are kept on its model, so that every
//! component of a kind runs the same commands.

use vstd::prelude::*;
use crate::address::{local_address_of_text, Address, LocalAddress, LocalAddressView, ShortLocalAddress};
use crate::distr::{CentralAction, DistributionPolicy, SimCentral};
use crate::entity::storage::{Key, Storage};
use crate::entity::{EntityId, EntityNonSer};
use crate::machine::{line_after, CallInfo, Machine, Registry};
use crate::model::SimModel;
use crate::sim::status_after;
use crate::var::Var;
use crate::machine::cmd::flow::fail;
use crate::machine::cmd::get_set::{with_var, ExtSet, ExtSetVar, Get};
use crate::model::{event_names, first_named, prefab_names, ComponentModel};
use crate::sim::{
    can_spawn, enqueue_all, enqueued, enqueued_all, entity_at, lemma_enqueued_all_no_duplicates,
    lemma_entity_at,
    spawned_as, Sim, SimEntity,
};
use crate::var::VarView;
use crate::machine::error::{
    is_body_error, is_other_error, is_parse_error, unplaced, Error, ErrorKind, ErrorKindView,
    Result,
};
use crate::machine::{CommandPrototype, LocationInfo};
use crate::string::{clone_ids, clone_opt, names, truncated, StringId};
use crate::machine::cmd::set::opt_text;
use crate::text::{
    chars_of, parse_nat, parse_unsigned, split, split_spec, starts_with, starts_with_spec, str_eq,
    string_of, tail_of, texts,
};
use crate::var::clone_strings;

pub mod eval;
pub mod flow;
pub mod get_set;
pub mod print;
pub mod range;
pub mod register;
pub mod set;
pub mod sim;

verus! {

/// Used for controlling the flow of execution.
#[derive(Debug, Clone, PartialEq)]
pub enum CommandResult {
    /// Continue execution
    Continue,
    /// Break execution
    Break,
    /// Jump to line
    JumpToLine(usize),
    /// Jump to tag
    JumpToTag(StringId),
    /// Execute command that needs access to another entity
    ExecExt(ExtCommand),
    /// Execute command that needs access to central authority
    ExecCentralExt(CentralRemoteCommand),
    /// Signalize that an error has occurred during execution of command
    Error(Error),
}

/// The result that a text writes: `jump.` and a line, one of the words for
/// going on, or `break`.
pub open spec fn result_of_text(s: Seq<char>) -> Option<CommandResult> {
    if starts_with_spec(s, "jump."@) {
        match parse_nat(s.skip("jump."@.len() as int)) {
            Some(n) => if n <= usize::MAX {
                Some(CommandResult::JumpToLine(n as usize))
            } else {
                None
            },
            None => None,
        }
    } else if s == "ok"@ || s == "Ok"@ || s == "OK"@ || s == "continue"@ {
        Some(CommandResult::Continue)
    } else if s == "break"@ {
        Some(CommandResult::Break)
    } else {
        None
    }
}

impl CommandResult {
    /// Reads a result. Text that writes none, and `jump.` without a line
    /// behind it, give `None`.
    pub fn from_str(s: &str) -> (r: Option<CommandResult>)
        ensures
            r == result_of_text(s@),
    {
        let chars = chars_of(s);
        let prefix = chars_of("jump.");
        if starts_with(&chars, &prefix) {
            let rest = tail_of(&chars, prefix.len());
            match parse_unsigned(&rest, usize::MAX as u64) {
                Some(n) => Some(CommandResult::JumpToLine(n as usize)),
                None => None,
            }
        } else if str_eq(s, "ok") || str_eq(s, "Ok") || str_eq(s, "OK") || str_eq(s, "continue") {
            Some(CommandResult::Continue)
        } else if str_eq(s, "break") {
            Some(CommandResult::Break)
        } else {
            None
        }
    }
}

/// Defines all the local commands.
#[derive(Debug, PartialEq)]
pub enum Command {
    Sim(sim::SimControl),
    Print(print::Print),
    PrintFmt(print::PrintFmt),
    Assign(set::Assign),
    SetIntIntAddr(set::SetIntIntAddr),
    Eval(set::Eval),
    Attach(Attach),
    Detach(Detach),
    Goto(Goto),
    Jump(Jump),
    Get(Get),
    Invoke(Invoke),
    Spawn(Spawn),
    RegisterEvent(register::RegisterEvent),
    RegisterEntityPrefab(register::RegisterEntityPrefab),
    RegisterComponent(register::RegisterComponent),
    RegisterTrigger(register::RegisterTrigger),
    RegisterVar(register::RegisterVar),
    Extend(register::Extend),
    State(flow::State),
    Component(flow::ComponentBlock),
    If(flow::If),
    Else(flow::Else),
    End(flow::End),
    Call(flow::Call),
    ForIn(flow::ForIn),
    Loop(flow::Loop),
    Break(flow::Break),
    Procedure(flow::Procedure),
    Range(range::Range),
}

/// The mathematical content of a `Command`: that of the command it holds.
pub enum CommandView {
    Sim(sim::SimControl),
    Print(print::Print),
    PrintFmt(Seq<print::PrintPart>),
    Assign(set::AssignView),
    SetIntIntAddr(set::SetIntIntAddr),
    Eval(set::EvalView),
    Attach(Attach),
    Detach(Detach),
    Goto(Goto),
    Jump(Jump),
    Get(Get),
    Invoke(Seq<StringId>),
    Spawn(Spawn),
    RegisterEvent(register::RegisterEvent),
    RegisterEntityPrefab((StringId, Seq<StringId>)),
    RegisterComponent(register::RegisterComponent),
    RegisterTrigger(register::RegisterTrigger),
    RegisterVar(register::RegisterVarView),
    Extend(register::Extend),
    State(flow::State),
    Component(flow::ComponentBlock),
    If(flow::If),
    Else(flow::Else),
    End(flow::End),
    Call(flow::Call),
    ForIn(flow::ForIn),
    Loop(flow::Loop),
    Break(flow::Break),
    Procedure(flow::Procedure),
    Range(range::Range),
}

impl View for Command {
    type V = CommandView;

    open spec fn view(&self) -> CommandView {
        match self {
            Command::Sim(c) => CommandView::Sim(*c),
            Command::Print(c) => CommandView::Print(*c),
            Command::PrintFmt(c) => CommandView::PrintFmt(c@),
            Command::Assign(c) => CommandView::Assign(c@),
            Command::SetIntIntAddr(c) => CommandView::SetIntIntAddr(*c),
            Command::Eval(c) => CommandView::Eval(c@),
            Command::Attach(c) => CommandView::Attach(*c),
            Command::Detach(c) => CommandView::Detach(*c),
            Command::Goto(c) => CommandView::Goto(*c),
            Command::Jump(c) => CommandView::Jump(*c),
            Command::Get(c) => CommandView::Get(*c),
            Command::Invoke(c) => CommandView::Invoke(c@),
            Command::Spawn(c) => CommandView::Spawn(*c),
            Command::RegisterEvent(c) => CommandView::RegisterEvent(*c),
            Command::RegisterEntityPrefab(c) => CommandView::RegisterEntityPrefab(c@),
            Command::RegisterComponent(c) => CommandView::RegisterComponent(*c),
            Command::RegisterTrigger(c) => CommandView::RegisterTrigger(*c),
            Command::RegisterVar(c) => CommandView::RegisterVar(c@),
            Command::Extend(c) => CommandView::Extend(*c),
            Command::State(c) => CommandView::State(*c),
            Command::Component(c) => CommandView::Component(*c),
            Command::If(c) => CommandView::If(*c),
            Command::Else(c) => CommandView::Else(*c),
            Command::End(c) => CommandView::End(*c),
            Command::Call(c) => CommandView::Call(*c),
            Command::ForIn(c) => CommandView::ForIn(*c),
            Command::Loop(c) => CommandView::Loop(*c),
            Command::Break(c) => CommandView::Break(*c),
            Command::Procedure(c) => CommandView::Procedure(*c),
            Command::Range(c) => CommandView::Range(*c),
        }
    }
}

impl Clone for Command {
    fn clone(&self) -> (r: Self)
        ensures
            r@ == self@,
    {
        match self {
            Command::Sim(c) => Command::Sim(c.clone()),
            Command::Print(c) => Command::Print(c.clone()),
            Command::PrintFmt(c) => Command::PrintFmt(c.clone()),
            Command::Assign(c) => Command::Assign(c.clone()),
            Command::SetIntIntAddr(c) => Command::SetIntIntAddr(c.clone()),
            Command::Eval(c) => Command::Eval(c.clone()),
            Command::Attach(c) => Command::Attach(c.clone()),
            Command::Detach(c) => Command::Detach(c.clone()),
            Command::Goto(c) => Command::Goto(c.clone()),
            Command::Jump(c) => Command::Jump(c.clone()),
            Command::Get(c) => Command::Get(c.clone()),
            Command::Invoke(c) => Command::Invoke(c.clone()),
            Command::Spawn(c) => Command::Spawn(c.clone()),
            Command::RegisterEvent(c) => Command::RegisterEvent(c.clone()),
            Command::RegisterEntityPrefab(c) => Command::RegisterEntityPrefab(c.clone()),
            Command::RegisterComponent(c) => Command::RegisterComponent(c.clone()),
            Command::RegisterTrigger(c) => Command::RegisterTrigger(c.clone()),
            Command::RegisterVar(c) => Command::RegisterVar(c.clone()),
            Command::Extend(c) => Command::Extend(c.clone()),
            Command::State(c) => Command::State(c.clone()),
            Command::Component(c) => Command::Component(c.clone()),
            Command::If(c) => Command::If(c.clone()),
            Command::Else(c) => Command::Else(c.clone()),
            Command::End(c) => Command::End(c.clone()),
            Command::Call(c) => Command::Call(c.clone()),
            Command::ForIn(c) => Command::ForIn(c.clone()),
            Command::Loop(c) => Command::Loop(c.clone()),
            Command::Break(c) => Command::Break(c.clone()),
            Command::Procedure(c) => Command::Procedure(c.clone()),
            Command::Range(c) => Command::Range(c.clone()),
        }
    }
}

/// A line of a block of commands that is moved from line `from` to line
/// `to`; none for a line before the block or behind the last line that
/// there can be.
pub open spec fn rebased_line(line: usize, from: usize, to: usize) -> Option<usize> {
    if line >= from && line - from + to <= usize::MAX {
        Some((line - from + to) as usize)
    } else {
        None
    }
}

/// A line of a block of commands that is moved.
pub fn rebase_line(line: usize, from: usize, to: usize) -> (r: Option<usize>)
    ensures
        r == rebased_line(line, from, to),
{
    if line >= from && line - from <= usize::MAX - to {
        Some(line - from + to)
    } else {
        None
    }
}

/// The lines of a block that is moved.
pub open spec fn rebased_span(span: (usize, usize), from: usize, to: usize) -> Option<
    (usize, usize),
> {
    match (rebased_line(span.0, from, to), rebased_line(span.1, from, to)) {
        (Some(a), Some(b)) => Some((a, b)),
        _ => None,
    }
}

/// The lines of a block that is moved.
pub fn rebase_span(span: (usize, usize), from: usize, to: usize) -> (r: Option<(usize, usize)>)
    ensures
        r == rebased_span(span, from, to),
{
    match (rebase_line(span.0, from, to), rebase_line(span.1, from, to)) {
        (Some(a), Some(b)) => Some((a, b)),
        _ => None,
    }
}

/// A command of a block of commands that is moved from line `from` to line
/// `to`: the lines that the command holds of its own block move with it.
/// The line of a `jump` is left as it is.
pub open spec fn rebased_view(c: CommandView, from: usize, to: usize) -> Option<CommandView> {
    match c {
        CommandView::State(x) => match rebased_span((x.start_line, x.end_line), from, to) {
            Some(s) => Some(CommandView::State(flow::State { start_line: s.0, end_line: s.1, ..x })),
            None => None,
        },
        CommandView::Component(x) => match rebased_span((x.start_line, x.end_line), from, to) {
            Some(s) => Some(
                CommandView::Component(flow::ComponentBlock { start_line: s.0, end_line: s.1, ..x }),
            ),
            None => None,
        },
        CommandView::RegisterComponent(x) => match rebased_span(
            (x.start_line, x.end_line),
            from,
            to,
        ) {
            Some(s) => Some(
                CommandView::RegisterComponent(
                    register::RegisterComponent { start_line: s.0, end_line: s.1, ..x },
                ),
            ),
            None => None,
        },
        CommandView::Procedure(x) => match rebased_span((x.start_line, x.end_line), from, to) {
            Some(s) => Some(
                CommandView::Procedure(flow::Procedure { start_line: s.0, end_line: s.1, ..x }),
            ),
            None => None,
        },
        CommandView::ForIn(x) => match rebased_span((x.start_line, x.end_line), from, to) {
            Some(s) => Some(CommandView::ForIn(flow::ForIn { start_line: s.0, end_line: s.1, ..x })),
            None => None,
        },
        CommandView::Loop(x) => match rebased_span((x.start_line, x.end_line), from, to) {
            Some(s) => Some(CommandView::Loop(flow::Loop { start_line: s.0, end_line: s.1, ..x })),
            None => None,
        },
        CommandView::If(x) => match (
            rebased_span((x.start_line, x.end_line), from, to),
            match x.else_line {
                Some(l) => rebased_line(l, from, to),
                None => Some(0usize),
            },
        ) {
            (Some(s), Some(l)) => Some(
                CommandView::If(
                    flow::If {
                        start_line: s.0,
                        end_line: s.1,
                        else_line: if x.else_line is Some {
                            Some(l)
                        } else {
                            None
                        },
                        ..x
                    },
                ),
            ),
            _ => None,
        },
        _ => Some(c),
    }
}

impl Command {
    /// The command as it is in a block of commands that is moved from line
    /// `from` to line `to`.
    pub fn rebased(&self, from: usize, to: usize) -> (r: Option<Command>)
        ensures
            match r {
                Some(c) => rebased_view(self@, from, to) == Some(c@),
                None => rebased_view(self@, from, to) is None,
            },
    {
        match self {
            Command::State(x) => match rebase_span((x.start_line, x.end_line), from, to) {
                Some(s) => Some(
                    Command::State(
                        flow::State {
                            comp: clone_opt(&x.comp),
                            name: x.name.clone(),
                            start_line: s.0,
                            end_line: s.1,
                            offset: x.offset,
                        },
                    ),
                ),
                None => None,
            },
            Command::Component(x) => match rebase_span((x.start_line, x.end_line), from, to) {
                Some(s) => Some(
                    Command::Component(
                        flow::ComponentBlock { name: x.name.clone(), start_line: s.0, end_line: s.1 },
                    ),
                ),
                None => None,
            },
            Command::RegisterComponent(x) => match rebase_span(
                (x.start_line, x.end_line),
                from,
                to,
            ) {
                Some(s) => Some(
                    Command::RegisterComponent(
                        register::RegisterComponent {
                            name: x.name.clone(),
                            start_line: s.0,
                            end_line: s.1,
                        },
                    ),
                ),
                None => None,
            },
            Command::Procedure(x) => match rebase_span((x.start_line, x.end_line), from, to) {
                Some(s) => Some(
                    Command::Procedure(
                        flow::Procedure { name: x.name.clone(), start_line: s.0, end_line: s.1 },
                    ),
                ),
                None => None,
            },
            Command::ForIn(x) => match rebase_span((x.start_line, x.end_line), from, to) {
                Some(s) => Some(
                    Command::ForIn(
                        flow::ForIn {
                            target: x.target.clone(),
                            source: x.source.clone(),
                            start_line: s.0,
                            end_line: s.1,
                        },
                    ),
                ),
                None => None,
            },
            Command::Loop(x) => match rebase_span((x.start_line, x.end_line), from, to) {
                Some(s) => {
                    let c = x.clone();
                    Some(
                        Command::Loop(
                            flow::Loop { cond: c.cond, times: c.times, start_line: s.0, end_line: s.1 },
                        ),
                    )
                },
                None => None,
            },
            Command::If(x) => {
                let else_line = match x.else_line {
                    Some(l) => match rebase_line(l, from, to) {
                        Some(m) => Some(m),
                        None => {
                            return None;
                        },
                    },
                    None => None,
                };
                match rebase_span((x.start_line, x.end_line), from, to) {
                    Some(s) => Some(
                        Command::If(
                            flow::If {
                                cond: x.cond.clone(),
                                start_line: s.0,
                                end_line: s.1,
                                else_line,
                            },
                        ),
                    ),
                    None => None,
                }
            },
            _ => Some(self.clone()),
        }
    }
}

/// The contents of a sequence of commands.
pub open spec fn command_views(commands: Seq<Command>) -> Seq<CommandView> {
    Seq::new(commands.len(), |i: int| commands[i]@)
}

/// The arguments of a prototype; none where it holds none.
pub open spec fn args_of(proto: CommandPrototype) -> Seq<String> {
    match proto.arguments {
        Some(a) => a@,
        None => Seq::empty(),
    }
}

/// What `Command::from_prototype` returns for a prototype: the head of the
/// prototype picks the command, and the command is built from the
/// arguments as its own `built` says.
pub open spec fn prototype_built(
    proto: CommandPrototype,
    location: LocationInfo,
    commands: Seq<CommandPrototype>,
    r: Result<Command>,
) -> bool {
    match proto.name {
        None => r matches Err(e) && e.location == location && e.kind@
            == ErrorKindView::NoCommandPresent,
        Some(name) => head_built(name@, args_of(proto), location, commands, r),
    }
}

/// What `Command::from_prototype` returns for a head and its arguments. An
/// error is that of the command's own `built`, at the place of the
/// prototype.
pub open spec fn head_built(
    head: Seq<char>,
    args: Seq<String>,
    location: LocationInfo,
    commands: Seq<CommandPrototype>,
    r: Result<Command>,
) -> bool {
    if head == "print"@ {
            match r {
                Ok(Command::PrintFmt(c)) => print::PrintFmt::built(args, Ok(c)),
                Ok(_) => false,
                Err(e) => e.location == location && print::PrintFmt::built(args, Err(unplaced(e))),
            }
        } else if head == "set"@ {
            set::Assign::built(args, location, r)
        } else if head == "spawn"@ {
            match r {
                Ok(Command::Spawn(c)) => Spawn::built(args, location, Ok(c)),
                Ok(_) => false,
                Err(e) => Spawn::built(args, location, Err(e)),
            }
        } else if head == "invoke"@ {
            match r {
                Ok(Command::Invoke(c)) => Invoke::built(args, Ok(c)),
                Ok(_) => false,
                Err(e) => e.location == location && Invoke::built(args, Err(unplaced(e))),
            }
        } else if head == "sim"@ {
            match r {
                Ok(c) => sim::SimControl::built(args, Ok(c)),
                Err(e) => e.location == location && sim::SimControl::built(args, Err(unplaced(e))),
            }
        } else if head == "extend"@ {
            match r {
                Ok(Command::Extend(c)) => register::Extend::built(args, location, Ok(c)),
                Ok(_) => false,
                Err(e) => register::Extend::built(args, location, Err(e)),
            }
        } else if head == "event"@ {
            match r {
                Ok(Command::RegisterEvent(c)) => register::RegisterEvent::built(args, location, Ok(c)),
                Ok(_) => false,
                Err(e) => register::RegisterEvent::built(args, location, Err(e)),
            }
        } else if head == "entity"@ || head == "prefab"@ {
            match r {
                Ok(Command::RegisterEntityPrefab(c)) => register::RegisterEntityPrefab::built(args, location, Ok(c)),
                Ok(_) => false,
                Err(e) => register::RegisterEntityPrefab::built(args, location, Err(e)),
            }
        } else if head == "trigger"@ || head == "triggered_by"@ {
            match r {
                Ok(Command::RegisterTrigger(c)) => register::RegisterTrigger::built(args, location, Ok(c)),
                Ok(_) => false,
                Err(e) => register::RegisterTrigger::built(args, location, Err(e)),
            }
        } else if head == "var"@ {
            match r {
                Ok(Command::RegisterVar(c)) => register::RegisterVar::built(args, location, Ok(c)),
                Ok(_) => false,
                Err(e) => register::RegisterVar::built(args, location, Err(e)),
            }
        } else if head == "component"@ || head == "comp"@ {
            register::RegisterComponent::built(args, location, commands, r)
        } else if head == "state"@ {
            match r {
                Ok(Command::State(c)) => flow::State::built(args, location, commands, Ok(c)),
                Ok(_) => false,
                Err(e) => flow::State::built(args, location, commands, Err(e)),
            }
        } else if head == "goto"@ {
            match r {
                Ok(Command::Goto(c)) => Goto::built(args, Ok(c)),
                Ok(_) => false,
                Err(e) => e.location == location && Goto::built(args, Err(unplaced(e))),
            }
        } else if head == "jump"@ {
            match r {
                Ok(Command::Jump(c)) => Jump::built(args, Ok(c)),
                Ok(_) => false,
                Err(e) => e.location == location && Jump::built(args, Err(unplaced(e))),
            }
        } else if head == "if"@ {
            match r {
                Ok(Command::If(c)) => flow::If::built(args, location, commands, Ok(c)),
                Ok(_) => false,
                Err(e) => flow::If::built(args, location, commands, Err(e)),
            }
        } else if head == "else"@ {
            match r {
                Ok(Command::Else(c)) => flow::Else::built(args, Ok(c)),
                Ok(_) => false,
                Err(e) => e.location == location && flow::Else::built(args, Err(unplaced(e))),
            }
        } else if head == "proc"@ || head == "procedure"@ {
            match r {
                Ok(Command::Procedure(c)) => flow::Procedure::built(args, location, commands, Ok(c)),
                Ok(_) => false,
                Err(e) => flow::Procedure::built(args, location, commands, Err(e)),
            }
        } else if head == "call"@ {
            match r {
                Ok(Command::Call(c)) => flow::Call::built(args, location, commands, Ok(c)),
                Ok(_) => false,
                Err(e) => flow::Call::built(args, location, commands, Err(e)),
            }
        } else if head == "end"@ {
            match r {
                Ok(Command::End(c)) => flow::End::built(args, Ok(c)),
                Ok(_) => false,
                Err(e) => e.location == location && flow::End::built(args, Err(unplaced(e))),
            }
        } else if head == "for"@ {
            match r {
                Ok(Command::ForIn(c)) => flow::ForIn::built(args, location, commands, Ok(c)),
                Ok(_) => false,
                Err(e) => flow::ForIn::built(args, location, commands, Err(e)),
            }
        } else if head == "loop"@ || head == "while"@ {
            match r {
                Ok(Command::Loop(c)) => flow::Loop::built(args, location, commands, Ok(c)),
                Ok(_) => false,
                Err(e) => flow::Loop::built(args, location, commands, Err(e)),
            }
        } else if head == "break"@ {
            r matches Ok(Command::Break(_))
        } else if head == "range"@ {
            match r {
                Ok(Command::Range(c)) => range::Range::built(args, Ok(c)),
                Ok(_) => false,
                Err(e) => e.location == location && range::Range::built(args, Err(unplaced(e))),
            }
        } else if head == "eval"@ {
            match r {
                Ok(c) => set::Eval::built(args, Ok(c)),
                Err(e) => e.location == location && set::Eval::built(args, Err(unplaced(e))),
            }
        } else {
            r matches Err(e) && e.location == location && e.kind@ == ErrorKindView::UnknownCommand(
                head,
            )
        }
}

impl Command {
    /// Creates new command struct from a prototype.
    pub fn from_prototype(
        proto: &CommandPrototype,
        location: &LocationInfo,
        commands: &Vec<CommandPrototype>,
    ) -> (r: Result<Command>)
        ensures
            prototype_built(*proto, *location, commands@, r),
    {
        let cmd_name = match &proto.name {
            Some(c) => c.as_str(),
            None => {
                return fail(location, ErrorKind::NoCommandPresent);
            },
        };
        let args = match &proto.arguments {
            Some(a) => clone_strings(a),
            None => Vec::new(),
        };
        if str_eq(cmd_name, "print") {
            match print::PrintFmt::new(args) {
                Ok(c) => Ok(Command::PrintFmt(c)),
                Err(e) => fail(location, e.kind),
            }
        } else if str_eq(cmd_name, "set") {
            set::Assign::new(args, location)
        } else if str_eq(cmd_name, "spawn") {
            match Spawn::new(args, location) {
                Ok(c) => Ok(Command::Spawn(c)),
                Err(e) => Err(e),
            }
        } else if str_eq(cmd_name, "invoke") {
            match Invoke::new(args) {
                Ok(c) => Ok(Command::Invoke(c)),
                Err(e) => fail(location, e.kind),
            }
        } else if str_eq(cmd_name, "sim") {
            match sim::SimControl::new(args) {
                Ok(c) => Ok(c),
                Err(e) => fail(location, e.kind),
            }
        } else if str_eq(cmd_name, "extend") {
            match register::Extend::new(args, location) {
                Ok(c) => Ok(Command::Extend(c)),
                Err(e) => Err(e),
            }
        } else if str_eq(cmd_name, "event") {
            match register::RegisterEvent::new(args, location) {
                Ok(c) => Ok(Command::RegisterEvent(c)),
                Err(e) => Err(e),
            }
        } else if str_eq(cmd_name, "entity") || str_eq(cmd_name, "prefab") {
            match register::RegisterEntityPrefab::new(args, location) {
                Ok(c) => Ok(Command::RegisterEntityPrefab(c)),
                Err(e) => Err(e),
            }
        } else if str_eq(cmd_name, "trigger") || str_eq(cmd_name, "triggered_by") {
            match register::RegisterTrigger::new(args, location) {
                Ok(c) => Ok(Command::RegisterTrigger(c)),
                Err(e) => Err(e),
            }
        } else if str_eq(cmd_name, "var") {
            match register::RegisterVar::new(args, location) {
                Ok(c) => Ok(Command::RegisterVar(c)),
                Err(e) => Err(e),
            }
        } else if str_eq(cmd_name, "component") || str_eq(cmd_name, "comp") {
            register::RegisterComponent::new(args, location, commands)
        } else if str_eq(cmd_name, "state") {
            match flow::State::new(args, location, commands) {
                Ok(c) => Ok(Command::State(c)),
                Err(e) => Err(e),
            }
        } else if str_eq(cmd_name, "goto") {
            match Goto::new(args) {
                Ok(c) => Ok(Command::Goto(c)),
                Err(e) => fail(location, e.kind),
            }
        } else if str_eq(cmd_name, "jump") {
            match Jump::new(args) {
                Ok(c) => Ok(Command::Jump(c)),
                Err(e) => fail(location, e.kind),
            }
        } else if str_eq(cmd_name, "if") {
            match flow::If::new(args, location, commands) {
                Ok(c) => Ok(Command::If(c)),
                Err(e) => Err(e),
            }
        } else if str_eq(cmd_name, "else") {
            match flow::Else::new(args) {
                Ok(c) => Ok(Command::Else(c)),
                Err(e) => fail(location, e.kind),
            }
        } else if str_eq(cmd_name, "proc") || str_eq(cmd_name, "procedure") {
            match flow::Procedure::new(args, location, commands) {
                Ok(c) => Ok(Command::Procedure(c)),
                Err(e) => Err(e),
            }
        } else if str_eq(cmd_name, "call") {
            match flow::Call::new(args, location, commands) {
                Ok(c) => Ok(Command::Call(c)),
                Err(e) => Err(e),
            }
        } else if str_eq(cmd_name, "end") {
            match flow::End::new(args) {
                Ok(c) => Ok(Command::End(c)),
                Err(e) => fail(location, e.kind),
            }
        } else if str_eq(cmd_name, "for") {
            match flow::ForIn::new(args, location, commands) {
                Ok(c) => Ok(Command::ForIn(c)),
                Err(e) => Err(e),
            }
        } else if str_eq(cmd_name, "loop") || str_eq(cmd_name, "while") {
            match flow::Loop::new(args, location, commands) {
                Ok(c) => Ok(Command::Loop(c)),
                Err(e) => Err(e),
            }
        } else if str_eq(cmd_name, "break") {
            Ok(Command::Break(flow::Break {  }))
        } else if str_eq(cmd_name, "range") {
            match range::Range::new(args) {
                Ok(c) => Ok(Command::Range(c)),
                Err(e) => fail(location, e.kind),
            }
        } else if str_eq(cmd_name, "eval") {
            match set::Eval::new(args) {
                Ok(c) => Ok(c),
                Err(e) => fail(location, e.kind),
            }
        } else {
            fail(location, ErrorKind::UnknownCommand(cmd_name.to_owned()))
        }
    }
}

/// External (non-entity-local) command meant for execution within central
/// authority scope.
///
/// The model of the simulation, the set of entities and the queue of events
/// are managed from one central point; in a distributed setting only that
/// point can change them.
#[derive(Debug, Clone, PartialEq)]
pub enum CentralRemoteCommand {
    Sim(sim::SimControl),
    RegisterComponent(register::RegisterComponent),
    RegisterTrigger(register::RegisterTrigger),
    RegisterVar(register::RegisterVar),
    RegisterEntityPrefab(register::RegisterEntityPrefab),
    RegisterEvent(register::RegisterEvent),
    Extend(register::Extend),
    Invoke(Invoke),
    Spawn(Spawn),
    State(flow::State),
    Component(flow::ComponentBlock),
}

/// External command meant for execution on an entity scope that includes
/// operations that don't require access to central authority.
///
/// Can be used to allow message-based communication between entity
/// objects.
#[derive(Debug, Clone, PartialEq)]
pub enum ExtCommand {
    Get(Get),
    Assign(ExtSet),
    SetVar(ExtSetVar),
}

/// Attach
#[derive(Debug, PartialEq)]
pub struct Attach {
    pub model_type: StringId,
    pub model_id: StringId,
    pub new_id: StringId,
}

impl Clone for Attach {
    fn clone(&self) -> (r: Self)
        ensures
            r == *self,
    {
        Attach {
            model_type: self.model_type.clone(),
            model_id: self.model_id.clone(),
            new_id: self.new_id.clone(),
        }
    }
}

/// Detach
#[derive(Debug, PartialEq)]
pub struct Detach {
    pub signature: Address,
}

impl Clone for Detach {
    fn clone(&self) -> (r: Self)
        ensures
            r == *self,
    {
        Detach { signature: self.signature.clone() }
    }
}

impl Detach {
    /// Reads the command from its arguments as one text: the address of
    /// what is detached stands before the first space.
    pub fn from_str(args_str: &str) -> (r: Result<Detach>)
        ensures
            match r {
                Ok(d) => crate::address::address_of_text(split_spec(args_str@, ' ')[0]) == Some(
                    d.signature@,
                ),
                Err(e) => crate::address::address_of_text(split_spec(args_str@, ' ')[0]) is None
                    && is_parse_error(
                    e,
                    LocationInfo { comp_name: None, line: None },
                    split_spec(args_str@, ' ')[0],
                ),
            },
    {
        let parts = split(&chars_of(args_str), ' ');
        proof {
            assert(crate::text::rows(parts@)[0] == parts@[0]@);
        }
        let first = string_of(&parts[0]);
        match Address::from_str(first.as_str()) {
            Ok(signature) => Ok(Detach { signature }),
            Err(kind) => fail(&LocationInfo::empty(), kind),
        }
    }
}

/// Goto
#[derive(Debug, PartialEq)]
pub struct Goto {
    pub target_state: StringId,
}

impl Clone for Goto {
    fn clone(&self) -> (r: Self)
        ensures
            r == *self,
    {
        Goto { target_state: self.target_state.clone() }
    }
}

impl Goto {
    /// What `new` returns for given arguments.
    pub open spec fn built(args: Seq<String>, r: Result<Goto>) -> bool {
        match r {
            Ok(c) => args.len() >= 1 && c.target_state@ == truncated(args[0]@),
            Err(e) => args.len() == 0 && is_body_error(
                e,
                LocationInfo { comp_name: None, line: None },
                "a state is expected"@,
            ),
        }
    }

    /// Builds the command from the name of the state in the first
    /// argument.
    pub fn new(args: Vec<String>) -> (r: Result<Goto>)
        ensures
            Goto::built(args@, r),
    {
        if args.len() < 1 {
            return fail(
                &LocationInfo::empty(),
                ErrorKind::InvalidCommandBody("a state is expected".to_owned()),
            );
        }
        Ok(Goto { target_state: StringId::new_truncate(args[0].as_str()) })
    }
}

/// Jump
#[derive(Debug, PartialEq)]
pub struct Jump {
    pub target: JumpTarget,
}

/// Where a jump goes: a line of the program, or the block of a name.
#[derive(Debug, PartialEq)]
pub enum JumpTarget {
    Line(u16),
    Tag(StringId),
}

/// The mathematical content of a `JumpTarget`.
pub enum JumpTargetView {
    Line(u16),
    Tag(Seq<char>),
}

impl View for JumpTarget {
    type V = JumpTargetView;

    open spec fn view(&self) -> JumpTargetView {
        match self {
            JumpTarget::Line(n) => JumpTargetView::Line(*n),
            JumpTarget::Tag(t) => JumpTargetView::Tag(t@),
        }
    }
}

impl Clone for JumpTarget {
    fn clone(&self) -> (r: Self)
        ensures
            r == *self,
    {
        match self {
            JumpTarget::Line(n) => JumpTarget::Line(*n),
            JumpTarget::Tag(t) => JumpTarget::Tag(t.clone()),
        }
    }
}

impl Clone for Jump {
    fn clone(&self) -> (r: Self)
        ensures
            r == *self,
    {
        Jump { target: self.target.clone() }
    }
}

/// The target that a text writes: a line where it is a number of at most
/// sixteen bits, else a tag, written with or without `@` before it.
pub open spec fn jump_target_of_text(s: Seq<char>) -> JumpTargetView {
    if parse_nat(s) is Some && parse_nat(s)->0 <= u16::MAX {
        JumpTargetView::Line(parse_nat(s)->0 as u16)
    } else if s.len() > 0 && s[0] == '@' {
        JumpTargetView::Tag(truncated(s.skip(1)))
    } else {
        JumpTargetView::Tag(truncated(s))
    }
}

impl Jump {
    /// What `new` returns for given arguments.
    pub open spec fn built(args: Seq<String>, r: Result<Jump>) -> bool {
        match r {
            Ok(c) => args.len() >= 1 && c.target@ == jump_target_of_text(args[0]@),
            Err(e) => args.len() == 0 && is_body_error(
                e,
                LocationInfo { comp_name: None, line: None },
                "a target is expected"@,
            ),
        }
    }

    /// Builds the command from the target in the first argument.
    pub fn new(args: Vec<String>) -> (r: Result<Jump>)
        ensures
            Jump::built(args@, r),
    {
        if args.len() < 1 {
            return fail(
                &LocationInfo::empty(),
                ErrorKind::InvalidCommandBody("a target is expected".to_owned()),
            );
        }
        let chars = chars_of(args[0].as_str());
        match parse_unsigned(&chars, 65535) {
            Some(n) => Ok(Jump { target: JumpTarget::Line(n as u16) }),
            None => {
                if chars.len() > 0 && chars[0] == '@' {
                    let rest = string_of(&tail_of(&chars, 1));
                    Ok(Jump { target: JumpTarget::Tag(StringId::new_truncate(rest.as_str())) })
                } else {
                    Ok(Jump { target: JumpTarget::Tag(StringId::new_truncate(args[0].as_str())) })
                }
            },
        }
    }
}

/// Invoke
#[derive(Debug, PartialEq)]
pub struct Invoke {
    pub events: Vec<StringId>,
}

impl View for Invoke {
    type V = Seq<StringId>;

    open spec fn view(&self) -> Seq<StringId> {
        self.events@
    }
}

impl Clone for Invoke {
    fn clone(&self) -> (r: Self)
        ensures
            r@ == self@,
    {
        Invoke { events: clone_ids(&self.events) }
    }
}

impl Invoke {
    /// What `new` returns for given arguments.
    pub open spec fn built(args: Seq<String>, r: Result<Invoke>) -> bool {
        r matches Ok(c) && names(c.events@) == Seq::new(args.len(), |i: int| truncated(args[i]@))
    }

    /// Builds the command: one event for each argument.
    pub fn new(args: Vec<String>) -> (r: Result<Invoke>)
        ensures
            Invoke::built(args@, r),
    {
        let mut events: Vec<StringId> = Vec::new();
        let mut i: usize = 0;
        while i < args.len()
            invariant
                i <= args.len(),
                events@.len() == i,
                forall|j: int| 0 <= j < i ==> (#[trigger] events@[j])@ == truncated(args@[j]@),
            decreases args.len() - i,
        {
            events.push(StringId::new_truncate(args[i].as_str()));
            i += 1;
        }
        proof {
            assert(names(events@) =~= Seq::new(args@.len(), |i: int| truncated(args@[i]@)));
        }
        Ok(Invoke { events })
    }
}

/// Spawn
#[derive(Debug, PartialEq)]
pub struct Spawn {
    pub prefab: Option<StringId>,
    pub spawn_id: Option<StringId>,
    pub out: Option<ShortLocalAddress>,
}

impl Clone for Spawn {
    fn clone(&self) -> (r: Self)
        ensures
            r == *self,
    {
        Spawn {
            prefab: clone_opt(&self.prefab),
            spawn_id: clone_opt(&self.spawn_id),
            out: match &self.out {
                Some(a) => Some(a.clone()),
                None => None,
            },
        }
    }
}

/// What the option parser makes of arguments: the value of the option
/// `out`, if it is given, and the arguments that belong to no option; or
/// the message of the parser where it refuses the arguments.
pub type ParsedOptions = core::result::Result<(Option<Seq<char>>, Seq<Seq<char>>), Seq<char>>;

/// What `getopts` makes of the arguments of `spawn`, with the one option
/// `-o`, `--out`, which takes a value.
pub uninterp spec fn spawn_options(args: Seq<Seq<char>>) -> ParsedOptions;

/// The content of what the option parser returned.
pub open spec fn options_view(
    parsed: core::result::Result<(Option<String>, Vec<String>), String>,
) -> ParsedOptions {
    match parsed {
        Ok((out, free)) => Ok(
            (
                match out {
                    Some(s) => Some(s@),
                    None => None,
                },
                texts(free@),
            ),
        ),
        Err(m) => Err(m@),
    }
}

/// Parses the arguments of `spawn`.
///
/// Trusted: `getopts::Options::parse` on options made by `Options::new`
/// and `optopt("o", "out", "", "")`, then `Matches::opt_str("out")` and the
/// field `free`; an error is given as the text that its `Display` writes.
/// Of the result nothing is stated but that it depends on the arguments
/// alone.
#[verifier::external_body]
fn parse_spawn_options(args: &Vec<String>) -> (r: core::result::Result<
    (Option<String>, Vec<String>),
    String,
>)
    ensures
        options_view(r) == spawn_options(texts(args@)),
{
    match getopts::Options::new().optopt("o", "out", "", "").parse(args) {
        Ok(matches) => Ok((matches.opt_str("out"), matches.free)),
        Err(e) => Err(e.to_string()),
    }
}

/// What becomes of the arguments of `spawn` once the options are parsed.
pub enum SpawnParse {
    /// The command, with the texts of prefab, name and address.
    Spawn(Option<Seq<char>>, Option<Seq<char>>, Option<LocalAddressView>),
    /// The option parser refused the arguments, with its message.
    BadOptions(Seq<char>),
    /// The value of `out` writes no local address.
    BadAddress(Seq<char>),
    /// More than two arguments belong to no option.
    TooMany,
}

/// What becomes of the arguments of `spawn` once the options are parsed:
/// without free arguments an entity without prefab is meant; with one, the
/// first free argument names the prefab; with two, the second names the
/// new entity. Where the option stands among the arguments is of no
/// account.
pub open spec fn spawn_parse(parsed: ParsedOptions) -> SpawnParse {
    match parsed {
        Err(m) => SpawnParse::BadOptions(m),
        Ok((out, free)) => {
            if out is Some && local_address_of_text(out->0) is None {
                SpawnParse::BadAddress(out->0)
            } else {
                let addr = match out {
                    Some(s) => local_address_of_text(s),
                    None => None,
                };
                if free.len() == 0 {
                    SpawnParse::Spawn(None, None, addr)
                } else if free.len() == 1 {
                    SpawnParse::Spawn(Some(truncated(free[0])), None, addr)
                } else if free.len() == 2 {
                    SpawnParse::Spawn(Some(truncated(free[0])), Some(truncated(free[1])), addr)
                } else {
                    SpawnParse::TooMany
                }
            }
        },
    }
}

/// The content of an optional local address.
pub open spec fn opt_addr_view(a: Option<LocalAddress>) -> Option<LocalAddressView> {
    match a {
        Some(x) => Some(x@),
        None => None,
    }
}

impl Spawn {
    /// What `from_parsed` returns.
    pub open spec fn built_from(parsed: ParsedOptions, location: LocationInfo, r: Result<Spawn>) -> bool {
        match spawn_parse(parsed) {
            SpawnParse::Spawn(prefab, id, out) => r matches Ok(c) && opt_text(c.prefab) == prefab
                && opt_text(c.spawn_id) == id && opt_addr_view(c.out) == out,
            SpawnParse::BadOptions(m) => r matches Err(e) && is_parse_error(e, location, m),
            SpawnParse::BadAddress(m) => r matches Err(e) && is_parse_error(e, location, m),
            SpawnParse::TooMany => r matches Err(e) && is_body_error(
                e,
                location,
                "can't accept more than 2 arguments"@,
            ),
        }
    }

    /// What `new` returns for given arguments.
    pub open spec fn built(args: Seq<String>, location: LocationInfo, r: Result<Spawn>) -> bool {
        Spawn::built_from(spawn_options(texts(args)), location, r)
    }

    /// Builds the command from what the option parser made of its
    /// arguments.
    pub fn from_parsed(
        parsed: core::result::Result<(Option<String>, Vec<String>), String>,
        location: &LocationInfo,
    ) -> (r: Result<Spawn>)
        ensures
            Spawn::built_from(options_view(parsed), *location, r),
    {
        let (out_text, free) = match parsed {
            Ok(p) => p,
            Err(m) => {
                return fail(location, ErrorKind::ParseError(m));
            },
        };
        let out = match out_text {
            Some(s) => match ShortLocalAddress::from_str(s.as_str()) {
                Ok(a) => Some(a),
                Err(kind) => {
                    return fail(location, kind);
                },
            },
            None => None,
        };
        if free.len() == 0 {
            Ok(Spawn { prefab: None, spawn_id: None, out })
        } else if free.len() == 1 {
            Ok(Spawn { prefab: Some(StringId::new_truncate(free[0].as_str())), spawn_id: None, out })
        } else if free.len() == 2 {
            Ok(
                Spawn {
                    prefab: Some(StringId::new_truncate(free[0].as_str())),
                    spawn_id: Some(StringId::new_truncate(free[1].as_str())),
                    out,
                },
            )
        } else {
            fail(
                location,
                ErrorKind::InvalidCommandBody("can't accept more than 2 arguments".to_owned()),
            )
        }
    }

    /// Builds the command from its arguments.
    pub fn new(args: Vec<String>, location: &LocationInfo) -> (r: Result<Spawn>)
        ensures
            Spawn::built(args@, *location, r),
    {
        let parsed = parse_spawn_options(&args);
        Spawn::from_parsed(parsed, location)
    }
}


impl Goto {
    /// Executes the command: the component is in the target state from now
    /// on, which tells where its program begins when it is run next.
    /// Execution goes on.
    pub fn execute_loc(&self, comp_state: &mut StringId) -> (r: CommandResult)
        ensures
            *final(comp_state) == self.target_state,
            r == CommandResult::Continue,
    {
        *comp_state = self.target_state.clone();
        CommandResult::Continue
    }
}

impl Jump {
    /// Executes the command: the result is a jump to the line or to the
    /// tag.
    pub fn execute_loc(&self) -> (r: CommandResult)
        ensures
            r == (match self.target {
                JumpTarget::Line(line) => CommandResult::JumpToLine(line as usize),
                JumpTarget::Tag(tag) => CommandResult::JumpToTag(tag),
            }),
    {
        match &self.target {
            JumpTarget::Line(line) => CommandResult::JumpToLine(*line as usize),
            JumpTarget::Tag(tag) => CommandResult::JumpToTag(tag.clone()),
        }
    }
}

impl Invoke {
    /// Executes the command: the events are handed to the central
    /// authority.
    pub fn execute_loc(&self) -> (r: CommandResult)
        ensures
            r matches CommandResult::ExecCentralExt(CentralRemoteCommand::Invoke(c)) && c@ == self@,
    {
        CommandResult::ExecCentralExt(CentralRemoteCommand::Invoke(self.clone()))
    }

    /// Asks the simulation for the events: each is added at the end of the
    /// queue unless the queue holds it already. Nothing else changes.
    pub fn execute_ext(&self, sim: &mut Sim) -> (r: Result<()>)
        ensures
            r is Ok,
            names(final(sim).event_queue@) == enqueued_all(
                names(old(sim).event_queue@),
                names(self.events@),
            ),
            final(sim).model == old(sim).model,
            final(sim).entities == old(sim).entities,
            final(sim).next_id == old(sim).next_id,
            final(sim).clock == old(sim).clock,
            final(sim).status == old(sim).status,
            final(sim).step_limit == old(sim).step_limit,
            old(sim).wf() ==> final(sim).wf(),
    {
        proof {
            if sim.wf() {
                lemma_enqueued_all_no_duplicates(names(sim.event_queue@), names(self.events@));
            }
        }
        enqueue_all(&mut sim.event_queue, &self.events);
        Ok(())
    }

    /// Asks the central authority for the events: each is added at the end
    /// of the queue unless the queue holds it already. Nothing else
    /// changes.
    pub fn execute_ext_distr(&self, central: &mut SimCentral) -> (r: Result<()>)
        ensures
            r is Ok,
            names(final(central).event_queue@) == enqueued_all(
                names(old(central).event_queue@),
                names(self.events@),
            ),
            final(central).model == old(central).model,
            final(central).clock == old(central).clock,
            final(central).status == old(central).status,
            final(central).model_changed == old(central).model_changed,
            final(central).outbox == old(central).outbox,
    {
        enqueue_all(&mut central.event_queue, &self.events);
        Ok(())
    }
}

/// Where `spawn` puts the handle of the new entity: the position of the
/// entity that asked and the key of the variable.
pub enum OutPlace {
    /// Nowhere.
    Nowhere,
    /// In the store of the entity at the position, under the key.
    At(int, Key),
    /// The entity that asked is not there.
    NoEntity,
    /// The variable is no integer.
    NoInteger,
}

/// Where `spawn` puts the handle of the new entity. The variable of the
/// address, with the component that asked for a component left out, gets
/// it; a variable that is there has to be an integer.
pub open spec fn out_place(
    out: Option<LocalAddress>,
    entities: Seq<SimEntity>,
    ent: EntityId,
    comp: Seq<char>,
) -> OutPlace {
    match out {
        None => OutPlace::Nowhere,
        Some(a) => match entity_at(entities, ent) {
            None => OutPlace::NoEntity,
            Some(p) => {
                let key = a@.index_in(comp);
                let store = entities[p].entity.storage@;
                if store.contains_key(key) && !(store[key] is Int) {
                    OutPlace::NoInteger
                } else {
                    OutPlace::At(p, key)
                }
            },
        },
    }
}

impl Spawn {
    /// Executes the command: it is handed to the central authority.
    pub fn execute_loc(&self) -> (r: CommandResult)
        ensures
            r == CommandResult::ExecCentralExt(CentralRemoteCommand::Spawn(*self)),
    {
        CommandResult::ExecCentralExt(CentralRemoteCommand::Spawn(self.clone()))
    }

    /// What `execute_ext` does, asked by the entity `ent` on behalf of its
    /// component `comp`. An entity is spawned as `Sim::spawn_entity` spawns
    /// it, and where the command has an address for it, the handle of the
    /// new entity is written there. Where the address cannot take it, or
    /// the entity cannot be spawned, nothing changes.
    pub open spec fn ran_ext(
        self,
        before: Sim,
        ent: EntityId,
        comp: Seq<char>,
        after: Sim,
        r: Result<()>,
    ) -> bool {
        &&& after.model == before.model
        &&& after.event_queue == before.event_queue
        &&& after.clock == before.clock
        &&& after.status == before.status
        &&& after.step_limit == before.step_limit
        &&& (r is Ok <==> can_spawn(
            before,
            match self.prefab {
                Some(p) => Some(&p),
                None => None,
            },
        ) && (out_place(self.out, before.entities@, ent, comp) is Nowhere || out_place(
            self.out,
            before.entities@,
            ent,
            comp,
        ) is At))
        &&& match r {
            Ok(_) => {
                let n = before.entities@.len() as int;
                &&& after.entities@.len() == n + 1
                &&& after.next_id == before.next_id + 1
                &&& after.entities@[n].id == before.next_id
                &&& after.entities@[n].name == self.spawn_id
                &&& spawned_as(
                    after.entities@[n].entity,
                    before.model,
                    match self.prefab {
                        Some(p) => Some(&p),
                        None => None,
                    },
                )
                &&& match out_place(self.out, before.entities@, ent, comp) {
                    OutPlace::Nowhere => after.entities@.take(n) == before.entities@,
                    OutPlace::At(p, key) => 0 <= p < n && with_var(
                        after.entities@[p],
                        before.entities@[p],
                        key,
                        VarView::Int(before.next_id as i64),
                    ) && forall|j: int|
                        0 <= j < n && j != p ==> after.entities@[j] == before.entities@[j],
                    _ => false,
                }
            },
            Err(e) => after.entities@ == before.entities@ && after.next_id == before.next_id
                && e.location == (LocationInfo { comp_name: None, line: None }) && e.kind@ == (
            match out_place(self.out, before.entities@, ent, comp) {
                OutPlace::NoEntity => ErrorKindView::Other("the entity that spawns is not there"@),
                OutPlace::NoInteger => ErrorKindView::FailedGettingVariable(self.out->0@.text()),
                _ => ErrorKindView::Other("the entity cannot be spawned"@),
            }),
        }
    }

    /// Spawns the entity in the simulation.
    pub fn execute_ext(&self, sim: &mut Sim, ent_uid: &EntityId, comp_uid: &StringId) -> (r: Result<
        (),
    >)
        ensures
            self.ran_ext(*old(sim), *ent_uid, comp_uid@, *final(sim), r),
            old(sim).wf() ==> final(sim).wf(),
    {
        let place = match &self.out {
            None => None,
            Some(a) => {
                let p = match sim.entity_position(*ent_uid) {
                    Some(p) => p,
                    None => {
                        proof {
                            lemma_entity_at(sim.entities@, *ent_uid, sim.entities@.len() as int);
                        }
                        return fail(
                            &LocationInfo::empty(),
                            ErrorKind::Other("the entity that spawns is not there".to_owned()),
                        );
                    },
                };
                proof {
                    lemma_entity_at(sim.entities@, *ent_uid, p as int);
                }
                let key = a.storage_index_using(comp_uid);
                let other = match sim.entities[p].entity.storage.get_var(&key, None) {
                    Some(v) => !v.is_int(),
                    None => false,
                };
                if other {
                    return fail(
                        &LocationInfo::empty(),
                        ErrorKind::FailedGettingVariable(a.to_string()),
                    );
                }
                Some((p, key))
            },
        };
        let prefab = match &self.prefab {
            Some(p) => Some(p),
            None => None,
        };
        let ghost before = sim.entities@;
        let id = match sim.spawn_entity(prefab, clone_opt(&self.spawn_id)) {
            Ok(id) => id,
            Err(_) => {
                return fail(
                    &LocationInfo::empty(),
                    ErrorKind::Other("the entity cannot be spawned".to_owned()),
                );
            },
        };
        let ghost spawned = sim.entities@;
        proof {
            assert(spawned.drop_last() == before);
            assert forall|j: int| 0 <= j < before.len() implies spawned[j] == before[j] by {
                assert(spawned.drop_last()[j] == spawned[j]);
            }
        }
        match place {
            Some((p, key)) => {
                let e = sim.entity_mut(p);
                e.entity.storage.insert_int(&key, id as i64);
            },
            None => {
                proof {
                    assert(sim.entities@.take(before.len() as int) =~= before);
                }
            },
        }
        Ok(())
    }

    /// Whether the central authority can ask for the entity: no prefab is
    /// named, or the model has the prefab that is.
    pub open spec fn can_ask(&self, model: SimModel) -> bool {
        self.prefab matches Some(p) ==> first_named(prefab_names(model.entities@), p@) is Some
    }

    /// What `execute_ext_distr` does: where the central authority can ask
    /// for the entity, the request stands last in the outbox, for a worker
    /// chosen by chance; else the outbox is as it was and the error says
    /// that the model lacks the prefab. Nothing else changes.
    pub open spec fn asked(&self, before: SimCentral, after: SimCentral, r: Result<()>) -> bool {
        &&& after.model == before.model
        &&& after.event_queue == before.event_queue
        &&& after.clock == before.clock
        &&& after.status == before.status
        &&& after.model_changed == before.model_changed
        &&& r is Ok <==> self.can_ask(before.model)
        &&& match r {
            Ok(_) => after.outbox@ == before.outbox@.push(
                CentralAction::SpawnEntity {
                    prefab: self.prefab,
                    name: self.spawn_id,
                    policy: DistributionPolicy::Random,
                },
            ),
            Err(e) => after.outbox@ == before.outbox@ && e.location == (LocationInfo {
                comp_name: None,
                line: None,
            }) && e.kind@ == ErrorKindView::Other("the model lacks the prefab"@),
        }
    }

    /// Asks the central authority for the entity, to be spawned on a
    /// worker chosen by chance. It is an error, and nothing changes, where
    /// the model lacks the prefab.
    pub fn execute_ext_distr(&self, central: &mut SimCentral) -> (r: Result<()>)
        ensures
            self.asked(*old(central), *final(central), r),
    {
        match central.spawn_entity(
            clone_opt(&self.prefab),
            clone_opt(&self.spawn_id),
            DistributionPolicy::Random,
        ) {
            Ok(_) => Ok(()),
            Err(_) => fail(
                &LocationInfo::empty(),
                ErrorKind::Other("the model lacks the prefab".to_owned()),
            ),
        }
    }
}


/// What the execution of a command within one entity does: how the machine
/// goes from `before` to `after`, and which results come of it, in their
/// order. Each command does what its own `ran` or `execute_loc` says; a
/// command that has no work to do within an entity lets execution go on.
/// A command without a line is not run and gives an error.
pub open spec fn executed(
    cmd: Command,
    before: Machine,
    after: Machine,
    comp: StringId,
    model: SimModel,
    location: LocationInfo,
    r: Seq<CommandResult>,
) -> bool {
    match location.line {
        None => after == before && r.len() == 1 && (r[0] matches CommandResult::Error(e)
            && is_other_error(e, location, "the command has no line"@)),
        Some(line) => match cmd {
            Command::Sim(c) => after == before && r == seq![
                CommandResult::ExecCentralExt(CentralRemoteCommand::Sim(c)),
            ],
            Command::Print(c) => r.len() == 1 && after == (Machine {
                output: after.output,
                ..before
            }) && print::printed(
                match set::found(c.source@, before.storage, comp@) {
                    Some(v) => Some(v.text()),
                    None => None,
                },
                before.output,
                location,
                after.output,
                r[0],
            ),
            Command::PrintFmt(c) => r.len() == 1 && after == (Machine {
                output: after.output,
                ..before
            }) && print::printed(
                print::line_of(c.parts@, before.storage, comp@),
                before.output,
                location,
                after.output,
                r[0],
            ),
            Command::Assign(c) => r.len() == 1 && after == (Machine {
                storage: after.storage,
                ..before
            }) && c.ran(before.storage, before.registry, comp@, location, after.storage, r[0]),
            Command::SetIntIntAddr(c) => r.len() == 1 && after == (Machine {
                storage: after.storage,
                ..before
            }) && c.ran(before.storage, comp@, location, after.storage, r[0]),
            Command::Eval(c) => r.len() == 1 && after == (Machine {
                storage: after.storage,
                registry: after.registry,
                ..before
            }) && c.ran(
                before.storage,
                before.registry,
                comp@,
                location,
                after.storage,
                after.registry,
                r[0],
            ),
            Command::Goto(c) => after == (Machine { state: c.target_state, ..before }) && r
                == seq![CommandResult::Continue],
            Command::Jump(c) => after == before && r == seq![
                match c.target {
                    JumpTarget::Line(l) => CommandResult::JumpToLine(l as usize),
                    JumpTarget::Tag(t) => CommandResult::JumpToTag(t),
                },
            ],
            Command::Invoke(c) => after == before && r.len() == 1 && (r[0]
                matches CommandResult::ExecCentralExt(CentralRemoteCommand::Invoke(x)) && x@ == c@),
            Command::Spawn(c) => after == before && r == seq![
                CommandResult::ExecCentralExt(CentralRemoteCommand::Spawn(c)),
            ],
            Command::RegisterEvent(c) => after == before && r == seq![
                CommandResult::ExecCentralExt(CentralRemoteCommand::RegisterEvent(c)),
                CommandResult::Continue,
            ],
            Command::RegisterEntityPrefab(c) => after == before && r.len() == 2 && (r[0]
                matches CommandResult::ExecCentralExt(CentralRemoteCommand::RegisterEntityPrefab(x))
                && x@ == c@) && r[1] == CommandResult::Continue,
            Command::RegisterComponent(c) => after == (Machine {
                stack: before.stack.push(flow::component_frame(c.name, c.start_line, c.end_line)),
                ..before
            }) && r == seq![
                CommandResult::ExecCentralExt(CentralRemoteCommand::RegisterComponent(c)),
                CommandResult::Continue,
            ],
            Command::Component(c) => after == (Machine {
                stack: before.stack.push(flow::component_frame(c.name, c.start_line, c.end_line)),
                ..before
            }) && r == seq![
                CommandResult::ExecCentralExt(CentralRemoteCommand::Component(c)),
                CommandResult::Continue,
            ],
            Command::RegisterVar(c) => after == before && (match register::owner(
                c.comp,
                before.stack,
            ) {
                Some(o) => r.len() == 2 && (r[0] matches CommandResult::ExecCentralExt(
                    CentralRemoteCommand::RegisterVar(x),
                ) && x@ == (register::RegisterVar { comp: Some(o), ..c })@) && r[1]
                    == CommandResult::Continue,
                None => r.len() == 1 && (r[0] matches CommandResult::Error(e) && is_other_error(
                    e,
                    location,
                    "the variable belongs to no component"@,
                )),
            }),
            Command::RegisterTrigger(c) => after == before && (match register::owner(
                c.comp,
                before.stack,
            ) {
                Some(o) => r == seq![
                    CommandResult::ExecCentralExt(
                        CentralRemoteCommand::RegisterTrigger(
                            register::RegisterTrigger { comp: Some(o), ..c },
                        ),
                    ),
                    CommandResult::Continue,
                ],
                None => r.len() == 1 && (r[0] matches CommandResult::Error(e) && is_other_error(
                    e,
                    location,
                    "the trigger belongs to no component"@,
                )),
            }),
            Command::Extend(c) => after == before && r == seq![
                CommandResult::ExecCentralExt(CentralRemoteCommand::Extend(c)),
            ],
            Command::State(c) => after == before && r == seq![
                CommandResult::ExecCentralExt(
                    CentralRemoteCommand::State(c.placed(before.stack, comp)),
                ),
                CommandResult::JumpToLine(line_after(c.end_line)),
            ],
            Command::If(c) => r.len() == 1 && after == (Machine { stack: after.stack, ..before })
                && c.ran(
                before.stack,
                before.registry,
                before.storage,
                comp@,
                location,
                after.stack,
                r[0],
            ),
            Command::Else(c) => r.len() == 1 && after == before && c.ran(
                before.stack,
                location,
                r[0],
            ),
            Command::End(c) => r.len() == 1 && after == (Machine { stack: after.stack, ..before })
                && c.ran(before.stack, location, after.stack, r[0]),
            Command::Call(c) => r.len() == 1 && after == (Machine { stack: after.stack, ..before })
                && c.ran(before.stack, line, model, comp@, location, after.stack, r[0]),
            Command::ForIn(c) => r.len() == 1 && after == (Machine {
                stack: after.stack,
                registry: after.registry,
                ..before
            }) && c.ran(
                before.stack,
                before.registry,
                before.storage,
                comp@,
                location,
                after.stack,
                after.registry,
                r[0],
            ),
            Command::Loop(c) => r.len() == 1 && after == (Machine { stack: after.stack, ..before })
                && c.ran(
                before.stack,
                before.registry,
                before.storage,
                comp@,
                location,
                after.stack,
                r[0],
            ),
            Command::Break(c) => r.len() == 1 && after == before && c.ran(
                before.stack,
                location,
                r[0],
            ),
            Command::Procedure(c) => after == before && r == seq![
                CommandResult::JumpToLine(line_after(c.end_line)),
            ],
            Command::Range(c) => r.len() == 1 && after == (Machine {
                storage: after.storage,
                ..before
            }) && c.ran(before.storage, comp@, location, after.storage, r[0]),
            Command::Attach(_) => after == before && r == seq![CommandResult::Continue],
            Command::Detach(_) => after == before && r == seq![CommandResult::Continue],
            Command::Get(_) => after == before && r == seq![CommandResult::Continue],
        },
    }
}

fn one(result: CommandResult) -> (r: Vec<CommandResult>)
    ensures
        r@ == seq![result],
{
    let mut out: Vec<CommandResult> = Vec::new();
    out.push(result);
    out
}

impl Command {
    /// Execute `loc` phase command (within the context of single entity).
    pub fn execute(
        &self,
        ent_storage: &mut Storage,
        ent_insta: &mut EntityNonSer,
        comp_state: &mut StringId,
        call_stack: &mut Vec<CallInfo>,
        registry: &mut Registry,
        comp_name: &StringId,
        ent_id: &EntityId,
        sim_model: &SimModel,
        location: &LocationInfo,
    ) -> (r: Vec<CommandResult>)
        ensures
            executed(
                *self,
                Machine {
                    storage: old(ent_storage)@,
                    registry: old(registry)@,
                    stack: old(call_stack)@,
                    state: *old(comp_state),
                    output: old(ent_insta).output@,
                },
                Machine {
                    storage: final(ent_storage)@,
                    registry: final(registry)@,
                    stack: final(call_stack)@,
                    state: *final(comp_state),
                    output: final(ent_insta).output@,
                },
                *comp_name,
                *sim_model,
                *location,
                r@,
            ),
    {
        let line = match location.line {
            Some(l) => l,
            None => {
                return one(
                    flow::error_result(
                        location,
                        ErrorKind::Other("the command has no line".to_owned()),
                    ),
                );
            },
        };
        match self {
            Command::Sim(cmd) => one(cmd.execute_loc()),
            Command::Print(cmd) => one(cmd.execute_loc(ent_storage, ent_insta, comp_name, location)),
            Command::PrintFmt(cmd) => one(
                cmd.execute_loc(ent_storage, ent_insta, comp_name, location),
            ),
            Command::Assign(cmd) => one(cmd.execute_loc(ent_storage, registry, comp_name, location)),
            Command::SetIntIntAddr(cmd) => one(cmd.execute_loc(ent_storage, comp_name, location)),
            Command::Eval(cmd) => one(cmd.execute_loc(ent_storage, comp_name, registry, location)),
            Command::Goto(cmd) => one(cmd.execute_loc(comp_state)),
            Command::RegisterEntityPrefab(cmd) => cmd.execute_loc(),
            Command::RegisterComponent(cmd) => cmd.execute_loc(call_stack),
            Command::RegisterVar(cmd) => cmd.execute_loc(call_stack, location),
            Command::RegisterTrigger(cmd) => cmd.execute_loc(call_stack, location),
            Command::RegisterEvent(cmd) => cmd.execute_loc(),
            Command::Invoke(cmd) => one(cmd.execute_loc()),
            Command::Spawn(cmd) => one(cmd.execute_loc()),
            Command::Call(cmd) => one(
                cmd.execute_loc(call_stack, line, sim_model, comp_name, location),
            ),
            Command::Jump(cmd) => one(cmd.execute_loc()),
            Command::If(cmd) => one(
                cmd.execute_loc(call_stack, registry, ent_storage, comp_name, location),
            ),
            Command::Else(cmd) => one(cmd.execute_loc(call_stack, location)),
            Command::ForIn(cmd) => one(
                cmd.execute_loc(call_stack, registry, comp_name, ent_storage, location),
            ),
            Command::Loop(cmd) => one(
                cmd.execute_loc(call_stack, registry, ent_storage, comp_name, location),
            ),
            Command::Break(cmd) => one(cmd.execute_loc(call_stack, location)),
            Command::End(cmd) => one(cmd.execute_loc(call_stack, location)),
            Command::Procedure(cmd) => one(cmd.execute_loc()),
            Command::State(cmd) => cmd.execute_loc(call_stack, ent_id, comp_name, line),
            Command::Component(cmd) => cmd.execute_loc(call_stack, ent_id, comp_name, line),
            Command::Extend(cmd) => one(cmd.execute_loc()),
            Command::Range(cmd) => one(cmd.execute_loc(ent_storage, comp_name, location)),
            _ => one(CommandResult::Continue),
        }
    }

    /// Runs the command with the model at hand: no command has work to do
    /// there, so the model stays as it is and execution goes on.
    pub fn run_with_model_context(&self, sim_model: &mut SimModel) -> (r: CommandResult)
        ensures
            r == CommandResult::Continue,
            *final(sim_model) == *old(sim_model),
    {
        CommandResult::Continue
    }
}

/// Whether two simulations differ in their model at most.
pub open spec fn same_but_model(a: Sim, b: Sim) -> bool {
    &&& a.entities == b.entities
    &&& a.event_queue == b.event_queue
    &&& a.next_id == b.next_id
    &&& a.clock == b.clock
    &&& a.status == b.status
    &&& a.step_limit == b.step_limit
}

/// What a command does to the model when the central authority executes
/// it for the component `comp`; true of every model for a command that
/// does not work on the model.
pub open spec fn model_changed_by(
    cmd: CentralRemoteCommand,
    before: SimModel,
    after: SimModel,
    comp: StringId,
    r: Result<()>,
) -> bool {
    match cmd {
        CentralRemoteCommand::RegisterComponent(c) => c.applied(before, after, comp, r),
        CentralRemoteCommand::RegisterEntityPrefab(c) => c.applied(before, after, r),
        CentralRemoteCommand::RegisterEvent(c) => c.applied(before, after, r),
        CentralRemoteCommand::RegisterTrigger(c) => c.applied(before, after, r),
        CentralRemoteCommand::RegisterVar(c) => c.applied(before, after, r),
        CentralRemoteCommand::Extend(c) => c.applied(before, after, r),
        CentralRemoteCommand::State(c) => c.applied(before, after, r),
        CentralRemoteCommand::Component(c) => register::defined(
            before,
            after,
            c.name,
            c.start_line,
            c.end_line,
            comp,
            r,
        ),
        _ => true,
    }
}

/// Whether a command works on the model.
pub open spec fn works_on_model(cmd: CentralRemoteCommand) -> bool {
    !(cmd is Sim || cmd is Invoke || cmd is Spawn)
}

fn apply_to_model(cmd: &CentralRemoteCommand, model: &mut SimModel, comp: &StringId) -> (r: Result<
    (),
>)
    requires
        works_on_model(*cmd),
    ensures
        model_changed_by(*cmd, *old(model), *final(model), *comp, r),
{
    match cmd {
        CentralRemoteCommand::RegisterComponent(c) => c.apply(model, comp),
        CentralRemoteCommand::RegisterEntityPrefab(c) => c.apply(model),
        CentralRemoteCommand::RegisterEvent(c) => c.apply(model),
        CentralRemoteCommand::RegisterTrigger(c) => c.apply(model),
        CentralRemoteCommand::RegisterVar(c) => c.apply(model),
        CentralRemoteCommand::Extend(c) => c.apply(model),
        CentralRemoteCommand::State(c) => c.apply(model),
        CentralRemoteCommand::Component(c) => register::define_component(
            model,
            &c.name,
            c.start_line,
            c.end_line,
            comp,
        ),
        _ => Ok(()),
    }
}

impl CentralRemoteCommand {
    /// What `execute` does: control of the simulation changes its status,
    /// `invoke` its queue of events, `spawn` its entities, and every other
    /// command its model, each as the command itself says.
    pub open spec fn ran(
        self,
        before: Sim,
        ent: EntityId,
        comp: StringId,
        after: Sim,
        r: Result<()>,
    ) -> bool {
        match self {
            CentralRemoteCommand::Sim(c) => r is Ok && after.status == status_after(
                before.status,
                c.action,
            ) && after.model == before.model && after.entities == before.entities
                && after.event_queue == before.event_queue && after.next_id == before.next_id
                && after.clock == before.clock && after.step_limit == before.step_limit,
            CentralRemoteCommand::Invoke(c) => r is Ok && names(after.event_queue@) == enqueued_all(
                names(before.event_queue@),
                names(c.events@),
            ) && after.model == before.model && after.entities == before.entities && after.next_id
                == before.next_id && after.clock == before.clock && after.status == before.status
                && after.step_limit == before.step_limit,
            CentralRemoteCommand::Spawn(c) => c.ran_ext(before, ent, comp@, after, r),
            _ => same_but_model(after, before) && model_changed_by(
                self,
                before.model,
                after.model,
                comp,
                r,
            ),
        }
    }

    /// Executes the command locally, using a reference to the monolithic
    /// `Sim` struct.
    pub fn execute(&self, sim: &mut Sim, ent_uid: &EntityId, comp_uid: &StringId) -> (r: Result<()>)
        ensures
            self.ran(*old(sim), *ent_uid, *comp_uid, *final(sim), r),
            old(sim).wf() ==> final(sim).wf(),
    {
        match self {
            CentralRemoteCommand::Sim(cmd) => cmd.execute_ext(sim),
            CentralRemoteCommand::Invoke(cmd) => cmd.execute_ext(sim),
            CentralRemoteCommand::Spawn(cmd) => cmd.execute_ext(sim, ent_uid, comp_uid),
            _ => apply_to_model(self, &mut sim.model, comp_uid),
        }
    }

    /// What `execute_distr` does: as `execute`, on what the central
    /// authority holds. A spawn is put in the outbox. After a change of the
    /// model the model is marked as changed.
    pub open spec fn ran_distr(
        self,
        before: SimCentral,
        comp: StringId,
        after: SimCentral,
        r: Result<()>,
    ) -> bool {
        &&& after.clock == before.clock
        &&& match self {
            CentralRemoteCommand::Sim(c) => r is Ok && after.status == status_after(
                before.status,
                c.action,
            ) && after.model == before.model && after.event_queue == before.event_queue
                && after.model_changed == before.model_changed && after.outbox == before.outbox,
            CentralRemoteCommand::Invoke(c) => r is Ok && names(after.event_queue@) == enqueued_all(
                names(before.event_queue@),
                names(c.events@),
            ) && after.model == before.model && after.status == before.status
                && after.model_changed == before.model_changed && after.outbox == before.outbox,
            CentralRemoteCommand::Spawn(c) => c.asked(before, after, r),
            _ => after.event_queue == before.event_queue && after.status == before.status
                && after.outbox == before.outbox && after.model_changed == (before.model_changed
                || r is Ok) && model_changed_by(self, before.model, after.model, comp, r),
        }
    }

    /// Executes the command in the scope of the central authority of a
    /// distributed simulation.
    pub fn execute_distr(&self, central: &mut SimCentral, ent_uid: &EntityId, comp_name: &StringId) -> (r:
        Result<()>)
        ensures
            self.ran_distr(*old(central), *comp_name, *final(central), r),
    {
        match self {
            CentralRemoteCommand::Sim(cmd) => cmd.execute_ext_distr(central),
            CentralRemoteCommand::Invoke(cmd) => cmd.execute_ext_distr(central),
            CentralRemoteCommand::Spawn(cmd) => cmd.execute_ext_distr(central),
            _ => {
                let r = apply_to_model(self, &mut central.model, comp_name);
                if r.is_ok() {
                    central.model_changed = true;
                }
                r
            },
        }
    }
}

impl ExtCommand {
    /// What `execute` does: a write goes to the entity that it names, as
    /// the command itself says; a read changes nothing.
    pub open spec fn ran(
        self,
        before: Sim,
        ent: EntityId,
        location: LocationInfo,
        after: Sim,
        r: Result<()>,
    ) -> bool {
        match self {
            ExtCommand::Assign(c) => c.ran_ext(before, ent, location, after, r),
            ExtCommand::SetVar(c) => get_set::ext_written(
                get_set::ext_write(before.entities@, c.target@, c.var@),
                before,
                location,
                after,
                r,
            ),
            ExtCommand::Get(_) => r is Ok && after == before,
        }
    }

    /// Executes the command in the simulation, for the entity that asked.
    pub fn execute(
        &self,
        sim: &mut Sim,
        ent_id: &EntityId,
        comp_name: &StringId,
        location: &LocationInfo,
    ) -> (r: Result<()>)
        ensures
            self.ran(*old(sim), *ent_id, *location, *final(sim), r),
            old(sim).wf() ==> final(sim).wf(),
    {
        match self {
            ExtCommand::Assign(cmd) => cmd.execute_ext(sim, ent_id, comp_name, location),
            ExtCommand::SetVar(cmd) => cmd.execute_ext(sim, location),
            ExtCommand::Get(_) => Ok(()),
        }
    }

    /// For a read, the address and a copy of the value that the store of
    /// the entity has for it; none for a write, and where the store lacks
    /// the variable.
    pub fn execute_pre(&self, storage: &Storage, ent_uid: &StringId) -> (r: Option<(Address, Var)>)
        ensures
            match self {
                ExtCommand::Get(c) => match r {
                    Some(p) => p.0 == c.source && storage@.contains_key(c.source@.index()) && p.1@
                        == storage@[c.source@.index()],
                    None => !storage@.contains_key(c.source@.index()),
                },
                _ => r is None,
            },
    {
        match self {
            ExtCommand::Get(cmd) => cmd.exec_pre(storage, ent_uid),
            _ => None,
        }
    }

    /// The name of the kind of the command; no kind has a name yet.
    pub fn get_type_as_str(&self) -> (r: &'static str)
        ensures
            r@ == "not implemented"@,
    {
        "not implemented"
    }
}


/// Whether two commands say the same: they are of the same kind, and what
/// they hold has the same content.
pub open spec fn alike(a: Command, b: Command) -> bool {
    match (a, b) {
        (Command::Sim(x), Command::Sim(y)) => x == y,
        (Command::Print(x), Command::Print(y)) => x.source@ == y.source@,
        (Command::PrintFmt(x), Command::PrintFmt(y)) => print::part_views(x.parts@)
            == print::part_views(y.parts@),
        (Command::Assign(x), Command::Assign(y)) => x@ == y@,
        (Command::SetIntIntAddr(x), Command::SetIntIntAddr(y)) => x.target@ == y.target@
            && x.source@ == y.source@,
        (Command::Eval(x), Command::Eval(y)) => x@ == y@,
        (Command::Attach(x), Command::Attach(y)) => x.model_type@ == y.model_type@ && x.model_id@
            == y.model_id@ && x.new_id@ == y.new_id@,
        (Command::Detach(x), Command::Detach(y)) => x.signature@ == y.signature@,
        (Command::Goto(x), Command::Goto(y)) => x.target_state@ == y.target_state@,
        (Command::Jump(x), Command::Jump(y)) => x.target@ == y.target@,
        (Command::Get(x), Command::Get(y)) => x.source@ == y.source@,
        (Command::Invoke(x), Command::Invoke(y)) => names(x.events@) == names(y.events@),
        (Command::Spawn(x), Command::Spawn(y)) => opt_text(x.prefab) == opt_text(y.prefab)
            && opt_text(x.spawn_id) == opt_text(y.spawn_id) && opt_addr_view(x.out)
            == opt_addr_view(y.out),
        (Command::RegisterEvent(x), Command::RegisterEvent(y)) => x.name@ == y.name@,
        (Command::RegisterEntityPrefab(x), Command::RegisterEntityPrefab(y)) => x.name@ == y.name@
            && names(x.components@) == names(y.components@),
        (Command::RegisterComponent(x), Command::RegisterComponent(y)) => x.name@ == y.name@
            && x.start_line == y.start_line && x.end_line == y.end_line,
        (Command::RegisterTrigger(x), Command::RegisterTrigger(y)) => x.name@ == y.name@
            && opt_text(x.comp) == opt_text(y.comp),
        (Command::RegisterVar(x), Command::RegisterVar(y)) => opt_text(x.comp) == opt_text(y.comp)
            && x.var_type == y.var_type && x.var_id@ == y.var_id@ && register::opt_var_view(
            x.default,
        ) == register::opt_var_view(y.default),
        (Command::Extend(x), Command::Extend(y)) => x.target@ == y.target@ && x.source@
            == y.source@,
        (Command::State(x), Command::State(y)) => opt_text(x.comp) == opt_text(y.comp) && x.name@
            == y.name@ && x.start_line == y.start_line && x.end_line == y.end_line && x.offset
            == y.offset,
        (Command::Component(x), Command::Component(y)) => x.name@ == y.name@ && x.start_line
            == y.start_line && x.end_line == y.end_line,
        (Command::If(x), Command::If(y)) => flow::cond_view(x.cond) == flow::cond_view(y.cond)
            && x.start_line == y.start_line && x.end_line == y.end_line && x.else_line
            == y.else_line,
        (Command::Else(_), Command::Else(_)) => true,
        (Command::End(_), Command::End(_)) => true,
        (Command::Call(x), Command::Call(y)) => x.proc_name@ == y.proc_name@,
        (Command::ForIn(x), Command::ForIn(y)) => x.target@ == y.target@ && x.source@ == y.source@
            && x.start_line == y.start_line && x.end_line == y.end_line,
        (Command::Loop(x), Command::Loop(y)) => x.bound() == y.bound() && x.start_line
            == y.start_line && x.end_line == y.end_line,
        (Command::Break(_), Command::Break(_)) => true,
        (Command::Procedure(x), Command::Procedure(y)) => x.name@ == y.name@ && x.start_line
            == y.start_line && x.end_line == y.end_line,
        (Command::Range(x), Command::Range(y)) => x.target@ == y.target@ && x.from == y.from
            && x.to == y.to,
        _ => false,
    }
}

/// Whether two results of building a command say the same: both are
/// commands that are alike, or both are errors of the same kind, with the
/// same message, at the same place.
pub open spec fn same_outcome(a: Result<Command>, b: Result<Command>) -> bool {
    match (a, b) {
        (Ok(x), Ok(y)) => alike(x, y),
        (Err(x), Err(y)) => x.location == y.location && x.kind@ == y.kind@,
        _ => false,
    }
}

/// What a prototype becomes is determined by the prototype, its place and
/// the prototypes around it: two results for the same three say the same.
pub proof fn lemma_from_prototype_is_determined(
    proto: CommandPrototype,
    location: LocationInfo,
    commands: Seq<CommandPrototype>,
    a: Result<Command>,
    b: Result<Command>,
)
    requires
        prototype_built(proto, location, commands, a),
        prototype_built(proto, location, commands, b),
    ensures
        same_outcome(a, b),
{
}

/// A spawn with an address for the handle, asked for by the entity at
/// position `p` on behalf of its component `comp`: where the entity can be
/// spawned and the variable of the address is an integer or not there yet,
/// the spawn succeeds. The new entity is the last of the simulation and is
/// found under the handle that was next; the variable of the address holds
/// that handle as an integer; no other variable and no other entity has
/// changed, nor the model, the queue, the clock or the status.
pub proof fn lemma_spawn_hands_back_the_handle(
    cmd: Spawn,
    before: Sim,
    p: int,
    comp: Seq<char>,
    after: Sim,
    r: Result<()>,
)
    requires
        before.wf(),
        cmd.out is Some,
        0 <= p < before.entities@.len(),
        can_spawn(
            before,
            match cmd.prefab {
                Some(p) => Some(&p),
                None => None,
            },
        ),
        before.entities@[p].entity.storage@.contains_key(cmd.out->0@.index_in(comp))
            ==> before.entities@[p].entity.storage@[cmd.out->0@.index_in(comp)] is Int,
        cmd.ran_ext(before, before.entities@[p].id, comp, after, r),
    ensures
        r is Ok,
        after.wf(),
        after.entities@.len() == before.entities@.len() + 1,
        after.next_id == before.next_id + 1,
        after.entities@.last().id == before.next_id,
        after.entities@.last().name == cmd.spawn_id,
        entity_at(after.entities@, before.next_id) == Some(before.entities@.len() as int),
        with_var(
            after.entities@[p],
            before.entities@[p],
            cmd.out->0@.index_in(comp),
            VarView::Int(before.next_id as i64),
        ),
        forall|j: int|
            0 <= j < before.entities@.len() && j != p ==> after.entities@[j] == before.entities@[j],
        after.model == before.model,
        after.event_queue == before.event_queue,
        after.clock == before.clock,
        after.status == before.status,
{
    let n = before.entities@.len() as int;
    let ent = before.entities@[p].id;
    lemma_entity_at(before.entities@, ent, p);
    assert(out_place(cmd.out, before.entities@, ent, comp) == OutPlace::At(
        p,
        cmd.out->0@.index_in(comp),
    ));
    assert(r is Ok);
    assert forall|j: int| 0 <= j < n implies (#[trigger] after.entities@[j]).id
        == before.entities@[j].id by {}
    lemma_entity_at(after.entities@, before.next_id, n);
}

/// Whether every trigger of the component is among the events.
pub open spec fn triggers_among(c: ComponentModel, events: Seq<Seq<char>>) -> bool {
    forall|k: int| 0 <= k < c.triggers@.len() ==> events.contains(#[trigger] names(c.triggers@)[k])
}

/// Whether every trigger of every component of the model is an event of
/// the model.
pub open spec fn triggers_known(model: SimModel) -> bool {
    forall|i: int|
        0 <= i < model.components@.len() ==> triggers_among(
            #[trigger] model.components@[i],
            event_names(model.events@),
        )
}

/// A component with the same triggers, or with one more that is among the
/// events, has its triggers among events that have not become fewer.
proof fn lemma_triggers_carry(
    before: ComponentModel,
    after: ComponentModel,
    events: Seq<Seq<char>>,
    later: Seq<Seq<char>>,
    added: Seq<char>,
)
    requires
        triggers_among(before, events),
        names(after.triggers@) == names(before.triggers@) || (names(after.triggers@) == enqueued(
            names(before.triggers@),
            added,
        ) && events.contains(added)),
        forall|e: Seq<char>| events.contains(e) ==> later.contains(e),
    ensures
        triggers_among(after, later),
{
    let had = names(before.triggers@);
    let has = names(after.triggers@);
    assert forall|k: int| 0 <= k < after.triggers@.len() implies later.contains(
        #[trigger] names(after.triggers@)[k],
    ) by {
        assert(has.len() == after.triggers@.len());
        assert(had.len() == before.triggers@.len());
        if k < had.len() {
            assert(has[k] == had[k]);
            assert(events.contains(names(before.triggers@)[k]));
        } else {
            assert(has == had.push(added));
            assert(has[k] == added);
        }
    }
}

/// A registration keeps the triggers of the model known: where every
/// trigger of every component is an event of the model before the central
/// authority executes a command, it is so afterwards, whether the command
/// succeeds or fails.
pub proof fn lemma_registration_keeps_triggers_known(
    cmd: CentralRemoteCommand,
    before: SimModel,
    after: SimModel,
    comp: StringId,
    r: Result<()>,
)
    requires
        triggers_known(before),
        works_on_model(cmd),
        model_changed_by(cmd, before, after, comp, r),
    ensures
        triggers_known(after),
{
    let events = event_names(before.events@);
    let later = event_names(after.events@);
    assert forall|e: Seq<char>| events.contains(e) implies later.contains(e) by {
        let j = choose|j: int| 0 <= j < events.len() && events[j] == e;
        match cmd {
            CentralRemoteCommand::RegisterEvent(c) => {
                assert(c.applied(before, after, r));
                assert(later == enqueued(events, c.name@));
                assert(later[j] == e);
            },
            _ => {
                assert(after.events == before.events);
                assert(later[j] == e);
            },
        }
    }
    let old_c = before.components@;
    let new_c = after.components@;
    let none: Seq<char> = Seq::empty();
    assert forall|i: int| 0 <= i < new_c.len() implies triggers_among(#[trigger] new_c[i], later) by {
        if new_c == old_c {
            lemma_triggers_carry(old_c[i], new_c[i], events, later, none);
        } else {
            match cmd {
                CentralRemoteCommand::RegisterComponent(c) => {
                    assert(c.applied(before, after, comp, r));
                    if i < old_c.len() {
                        assert(new_c.drop_last()[i] == new_c[i]);
                        lemma_triggers_carry(old_c[i], new_c[i], events, later, none);
                    }
                },
                CentralRemoteCommand::Component(c) => {
                    if i < old_c.len() {
                        assert(new_c.drop_last()[i] == new_c[i]);
                        lemma_triggers_carry(old_c[i], new_c[i], events, later, none);
                    }
                },
                CentralRemoteCommand::RegisterTrigger(c) => {
                    assert(c.applied(before, after, r));
                    let at = first_named(crate::model::component_names(old_c), c.comp->0@)->0;
                    crate::model::lemma_first_named(crate::model::component_names(old_c), c.comp->0@);
                    assert(r is Ok);
                    assert(new_c == old_c.update(at, new_c[at]));
                    assert(events.contains(c.name@));
                    if i == at {
                        assert(register::trigger_added(old_c[i], new_c[i], c.name@));
                    } else {
                        assert(new_c[i] == old_c[i]);
                    }
                    lemma_triggers_carry(old_c[i], new_c[i], events, later, c.name@);
                },
                CentralRemoteCommand::RegisterVar(c) => {
                    assert(c.applied(before, after, r));
                    let at = first_named(crate::model::component_names(old_c), c.comp->0@)->0;
                    crate::model::lemma_first_named(crate::model::component_names(old_c), c.comp->0@);
                    assert(new_c == old_c.update(at, new_c[at]));
                    lemma_triggers_carry(old_c[i], new_c[i], events, later, none);
                },
                CentralRemoteCommand::State(c) => {
                    assert(c.applied(before, after, r));
                    assert(r is Ok);
                    let at = first_named(crate::model::component_names(old_c), c.comp->0@)->0;
                    crate::model::lemma_first_named(crate::model::component_names(old_c), c.comp->0@);
                    assert(new_c == old_c.update(at, new_c[at]));
                    if i == at {
                        assert(crate::model::same_but_logic(new_c[i], old_c[i]));
                    } else {
                        assert(new_c[i] == old_c[i]);
                    }
                    lemma_triggers_carry(old_c[i], new_c[i], events, later, none);
                },
                CentralRemoteCommand::Extend(c) => {
                    assert(c.applied(before, after, r));
                    let at = first_named(crate::model::component_names(old_c), c.target@)->0;
                    crate::model::lemma_first_named(crate::model::component_names(old_c), c.target@);
                    assert(new_c == old_c.update(at, new_c[at]));
                    lemma_triggers_carry(old_c[i], new_c[i], events, later, none);
                },
                _ => {
                    assert(new_c == old_c);
                },
            }
        }
    }
}

} // verus!
