//! Execution of the program of a component within one entity. The program
//! runs from the first line of the state that the component is in. Work
//! that reaches beyond the entity is not done here: it is put aside, in
//! its order, for the one who runs the simulation.

use vstd::prelude::*;
use crate::entity::storage::Storage;
use crate::entity::{EntityId, EntityNonSer};
use crate::machine::cmd::flow::{find_loop, innermost_loop, lemma_innermost_loop};
use crate::machine::cmd::{executed, CentralRemoteCommand, CommandResult, ExtCommand};
use crate::machine::error::{is_other_error, Error, ErrorKind};
use crate::machine::{
    after, line_after, CallInfo, FrameKind, LocationInfo, Machine, Registry,
};
use crate::model::{LogicModel, SimModel};
use crate::string::StringId;

verus! {

/// Work that a command asks of a wider scope.
#[derive(Debug, PartialEq)]
pub enum Deferred {
    /// Work on another entity.
    Ext(ExtCommand),
    /// Work of the central authority.
    Central(CentralRemoteCommand),
}

/// Work that was put aside, with the place of the command that asked for
/// it.
#[derive(Debug, PartialEq)]
pub struct DeferredCommand {
    pub command: Deferred,
    pub location: LocationInfo,
}

/// Why a run ends before the end of its state.
pub enum Halt {
    /// A command gave the error.
    Failed(Error),
    /// A jump names a tag that the component has no state or procedure
    /// for.
    UndefinedTag,
    /// A `break` has no loop to leave.
    BreakOutside,
}

/// What the results of a command come to, as far as they were looked at.
pub struct Flow {
    /// The line to go on with, if a result has named one.
    pub next: Option<usize>,
    /// The call stack.
    pub stack: Seq<CallInfo>,
    /// The work that was put aside.
    pub deferred: Seq<DeferredCommand>,
    /// Why the run ends here, if it does.
    pub halt: Option<Halt>,
}

/// The line of a tag: the first line of the state of that name or, where
/// there is no such state, of the procedure of that name.
pub open spec fn tag_line(logic: LogicModel, tag: Seq<char>) -> Option<usize> {
    if logic.states_view().contains_key(tag) {
        Some(logic.states_view()[tag].0)
    } else if logic.procedures_view().contains_key(tag) {
        Some(logic.procedures_view()[tag].0)
    } else {
        None
    }
}

/// What one result of the command at line `pc` does: execution goes on
/// with the next line or with the line of a jump; a `break` drops the
/// frames down to that of the innermost loop and goes on behind the loop;
/// work for a wider scope is put aside; an error ends the run.
pub open spec fn result_applied(
    result: CommandResult,
    flow: Flow,
    pc: usize,
    logic: LogicModel,
    location: LocationInfo,
) -> Flow {
    match result {
        CommandResult::Continue => Flow { next: Some(line_after(pc)), ..flow },
        CommandResult::JumpToLine(n) => Flow { next: Some(n), ..flow },
        CommandResult::JumpToTag(t) => match tag_line(logic, t@) {
            Some(l) => Flow { next: Some(l), ..flow },
            None => Flow { halt: Some(Halt::UndefinedTag), ..flow },
        },
        CommandResult::Break => match innermost_loop(flow.stack) {
            Some(i) => Flow {
                next: Some(line_after(flow.stack[i].end_line)),
                stack: flow.stack.take(i),
                ..flow
            },
            None => Flow { halt: Some(Halt::BreakOutside), ..flow },
        },
        CommandResult::ExecExt(c) => Flow {
            deferred: flow.deferred.push(DeferredCommand { command: Deferred::Ext(c), location }),
            ..flow
        },
        CommandResult::ExecCentralExt(c) => Flow {
            deferred: flow.deferred.push(
                DeferredCommand { command: Deferred::Central(c), location },
            ),
            ..flow
        },
        CommandResult::Error(e) => Flow { halt: Some(Halt::Failed(e)), ..flow },
    }
}

/// What the first `n` results of a command do, one after the other; after
/// a result that ends the run no further result is looked at.
pub open spec fn results_applied(
    results: Seq<CommandResult>,
    n: int,
    flow: Flow,
    pc: usize,
    logic: LogicModel,
    location: LocationInfo,
) -> Flow
    decreases n,
{
    if n <= 0 {
        flow
    } else {
        let before = results_applied(results, n - 1, flow, pc, logic, location);
        if before.halt is Some {
            before
        } else {
            result_applied(results[n - 1], before, pc, logic, location)
        }
    }
}

/// Whether an error is the one that is reported for the end of a run.
pub open spec fn reports(halt: Halt, e: Error, location: LocationInfo) -> bool {
    match halt {
        Halt::Failed(x) => e == x,
        Halt::UndefinedTag => is_other_error(e, location, "the tag of the jump is not defined"@),
        Halt::BreakOutside => is_other_error(e, location, "break outside of a loop"@),
    }
}

/// The state of a run between two commands.
pub struct RunState {
    pub machine: Machine,
    /// The line of the command that is next.
    pub pc: usize,
    /// The work that was put aside so far.
    pub deferred: Seq<DeferredCommand>,
    /// Why the run has ended, if it has ended before the end of its state.
    pub halt: Option<Halt>,
}

/// The place of the command at a line: the one that the logic holds for
/// it.
pub open spec fn location_of(logic: LogicModel, comp: StringId, pc: usize) -> LocationInfo {
    if pc < logic.cmd_location_map@.len() {
        logic.cmd_location_map@[pc as int]
    } else {
        LocationInfo { comp_name: Some(comp), line: Some(pc) }
    }
}

/// Whether a procedure is being run: whether one of the frames is that of
/// a call.
pub open spec fn in_call(stack: Seq<CallInfo>) -> bool {
    exists|i: int| 0 <= i < stack.len() && (#[trigger] stack[i]).kind == FrameKind::Call
}

/// Whether a procedure is being run.
pub fn is_in_call(call_stack: &Vec<CallInfo>) -> (r: bool)
    ensures
        r == in_call(call_stack@),
{
    let mut i: usize = 0;
    while i < call_stack.len()
        invariant
            i <= call_stack.len(),
            forall|j: int| 0 <= j < i ==> (#[trigger] call_stack@[j]).kind != FrameKind::Call,
        decreases call_stack.len() - i,
    {
        if call_stack[i].kind == FrameKind::Call {
            return true;
        }
        i += 1;
    }
    false
}

/// Whether a run goes on: it has not ended, frames are left on the stack,
/// and its line lies in the program and, unless a procedure is being run,
/// in its state.
pub open spec fn goes_on(s: RunState, logic: LogicModel, end: usize) -> bool {
    s.halt is None && s.pc < logic.commands@.len() && s.machine.stack.len() > 0 && (s.pc < end
        || in_call(s.machine.stack))
}

/// Whether the run goes from `before` to `after` by executing the command
/// at its line: the command does to the machine what `executed` says, and
/// its results do what `results_applied` says; where no result names a
/// line, the next line is next.
pub open spec fn stepped(
    before: RunState,
    after: RunState,
    logic: LogicModel,
    model: SimModel,
    comp: StringId,
) -> bool {
    exists|results: Seq<CommandResult>, mid: Machine|
        #![trigger executed(
            logic.commands@[before.pc as int],
            before.machine,
            mid,
            comp,
            model,
            location_of(logic, comp, before.pc),
            results,
        )]
        {
            let location = location_of(logic, comp, before.pc);
            let flow = results_applied(
                results,
                results.len() as int,
                Flow { next: None, stack: mid.stack, deferred: before.deferred, halt: None },
                before.pc,
                logic,
                location,
            );
            &&& executed(
                logic.commands@[before.pc as int],
                before.machine,
                mid,
                comp,
                model,
                location,
                results,
            )
            &&& after.machine == (Machine { stack: flow.stack, ..mid })
            &&& after.deferred == flow.deferred
            &&& after.halt == flow.halt
            &&& after.pc == (match flow.next {
                Some(l) => l,
                None => line_after(before.pc),
            })
        }
}

/// Whether `trace` is a run of the program up to line `end`: each of its
/// states but the last goes on, and leads to the next by one command.
pub open spec fn is_trace(
    trace: Seq<RunState>,
    logic: LogicModel,
    model: SimModel,
    comp: StringId,
    end: usize,
) -> bool {
    &&& trace.len() >= 1
    &&& forall|i: int|
        0 <= i < trace.len() - 1 ==> goes_on(#[trigger] trace[i], logic, end) && stepped(
            trace[i],
            trace[i + 1],
            logic,
            model,
            comp,
        )
}

/// What a run of the program of a component has come to.
#[derive(Debug)]
pub struct RunReport {
    /// The work that was put aside, in the order in which it was asked for.
    pub deferred: Vec<DeferredCommand>,
    /// The error that ended the run, if one did.
    pub error: Option<Error>,
    /// The number of commands that were executed.
    pub steps: usize,
}

/// The state in which a run begins: at the first line of its state, with
/// the frame of the state on the stack and without scratch variables.
pub open spec fn begins(
    storage: Storage,
    state: StringId,
    output: Seq<String>,
    span: (usize, usize),
) -> RunState {
    RunState {
        machine: Machine {
            storage: storage@,
            registry: Map::empty(),
            stack: seq![
                CallInfo {
                    kind: FrameKind::State,
                    start_line: span.0,
                    end_line: span.1,
                    return_line: 0,
                    iteration: 0,
                    name: None,
                },
            ],
            state,
            output,
        },
        pc: span.0,
        deferred: Seq::empty(),
        halt: None,
    }
}

/// Whether `report` and what is left in the entity are what a run of the
/// program comes to. Where the component has no state of the name it is in,
/// nothing happens and the report has an error. Else there is a run, from
/// the first line of that state, of as many commands as the report counts
/// and of at most `limit` commands, that leaves the entity as it is left
/// and puts aside the work of the report. The run has ended by itself and
/// the report has its error, if it ended with one; or it was stopped after
/// `limit` commands, which the report gives as an error.
pub open spec fn ran(
    logic: LogicModel,
    model: SimModel,
    comp: StringId,
    limit: usize,
    storage: Storage,
    state: StringId,
    output: Seq<String>,
    after_storage: Storage,
    after_state: StringId,
    after_output: Seq<String>,
    report: RunReport,
) -> bool {
    if !logic.states_view().contains_key(state@) {
        after_storage@ == storage@ && after_state == state && after_output == output
            && report.steps == 0 && report.deferred@.len() == 0 && (report.error matches Some(e)
            && is_other_error(
            e,
            LocationInfo { comp_name: Some(comp), line: Some(0) },
            "the component has no state of that name"@,
        ))
    } else {
        let span = logic.states_view()[state@];
        exists|trace: Seq<RunState>| #[trigger]
            is_trace(trace, logic, model, comp, span.1) && trace[0] == begins(
                storage,
                state,
                output,
                span,
            ) && trace.len() == report.steps + 1 && report.steps <= limit && {
                let last = trace.last();
                &&& last.machine.storage == after_storage@
                &&& last.machine.state == after_state
                &&& last.machine.output == after_output
                &&& last.deferred == report.deferred@
                &&& if goes_on(last, logic, span.1) {
                    report.steps == limit && (report.error matches Some(e) && is_other_error(
                        e,
                        LocationInfo { comp_name: Some(comp), line: Some(last.pc) },
                        "the run was stopped at the limit of commands"@,
                    ))
                } else {
                    match last.halt {
                        Some(h) => report.error matches Some(e) && reports(
                            h,
                            e,
                            location_of(logic, comp, trace[trace.len() - 2].pc),
                        ),
                        None => report.error is None,
                    }
                }
            }
    }
}

/// The line of a tag.
pub fn line_of_tag(logic: &LogicModel, tag: &StringId) -> (r: Option<usize>)
    ensures
        r == tag_line(*logic, tag@),
{
    match logic.state(tag) {
        Some(s) => Some(s.0),
        None => match logic.procedure(tag) {
            Some(s) => Some(s.0),
            None => None,
        },
    }
}

/// Applies the results of the command at line `pc`, in their order.
fn apply_results(
    results: Vec<CommandResult>,
    call_stack: &mut Vec<CallInfo>,
    deferred: &mut Vec<DeferredCommand>,
    pc: usize,
    logic: &LogicModel,
    location: &LocationInfo,
) -> (r: (Option<usize>, Option<Error>))
    ensures
        ({
            let flow = results_applied(
                results@,
                results@.len() as int,
                Flow {
                    next: None,
                    stack: old(call_stack)@,
                    deferred: old(deferred)@,
                    halt: None,
                },
                pc,
                *logic,
                *location,
            );
            &&& flow.next == r.0
            &&& flow.stack == final(call_stack)@
            &&& flow.deferred == final(deferred)@
            &&& match flow.halt {
                Some(h) => r.1 matches Some(e) && reports(h, e, *location),
                None => r.1 is None,
            }
        }),
{
    let ghost all = results@;
    let mut rest = results;
    let ghost start = Flow {
        next: None,
        stack: call_stack@,
        deferred: deferred@,
        halt: None,
    };
    let mut next: Option<usize> = None;
    let ghost mut done: int = 0;
    while rest.len() > 0
        invariant
            0 <= done <= all.len(),
            all == results@,
            start == (Flow {
                next: None,
                stack: old(call_stack)@,
                deferred: old(deferred)@,
                halt: None,
            }),
            rest@ == all.skip(done),
            ({
                let flow = results_applied(all, done, start, pc, *logic, *location);
                &&& flow.next == next
                &&& flow.stack == call_stack@
                &&& flow.deferred == deferred@
                &&& flow.halt is None
            }),
        decreases rest.len(),
    {
        let result = rest.remove(0);
        proof {
            assert(result == all[done]);
            assert(rest@ =~= all.skip(done + 1));
        }
        match result {
            CommandResult::Continue => {
                next = Some(after(pc));
            },
            CommandResult::JumpToLine(n) => {
                next = Some(n);
            },
            CommandResult::JumpToTag(t) => match line_of_tag(logic, &t) {
                Some(l) => {
                    next = Some(l);
                },
                None => {
                    proof {
                        let before = results_applied(all, done, start, pc, *logic, *location);
                        assert(results_applied(all, done + 1, start, pc, *logic, *location)
                            == result_applied(all[done], before, pc, *logic, *location));
                        lemma_halt_stays(all, done + 1, all.len() as int, start, pc, *logic, *location);
                    }
                    return (
                        next,
                        Some(
                            Error::new(
                                location.clone(),
                                ErrorKind::Other("the tag of the jump is not defined".to_owned()),
                            ),
                        ),
                    );
                },
            },
            CommandResult::Break => {
                proof {
                    lemma_innermost_loop(call_stack@);
                }
                match find_loop(call_stack) {
                    Some(i) => {
                        next = Some(after(call_stack[i].end_line));
                        call_stack.truncate(i);
                    },
                    None => {
                        proof {
                            let before = results_applied(all, done, start, pc, *logic, *location);
                            assert(results_applied(all, done + 1, start, pc, *logic, *location)
                                == result_applied(all[done], before, pc, *logic, *location));
                            lemma_halt_stays(
                                all,
                                done + 1,
                                all.len() as int,
                                start,
                                pc,
                                *logic,
                                *location,
                            );
                        }
                        return (
                            next,
                            Some(
                                Error::new(
                                    location.clone(),
                                    ErrorKind::Other("break outside of a loop".to_owned()),
                                ),
                            ),
                        );
                    },
                }
            },
            CommandResult::ExecExt(c) => {
                deferred.push(
                    DeferredCommand { command: Deferred::Ext(c), location: location.clone() },
                );
            },
            CommandResult::ExecCentralExt(c) => {
                deferred.push(
                    DeferredCommand { command: Deferred::Central(c), location: location.clone() },
                );
            },
            CommandResult::Error(e) => {
                proof {
                    lemma_halt_stays(all, done + 1, all.len() as int, start, pc, *logic, *location);
                }
                return (next, Some(e));
            },
        }
        proof {
            done = done + 1;
        }
    }
    (next, None)
}

/// Once the results have ended the run, the further results change
/// nothing.
proof fn lemma_halt_stays(
    results: Seq<CommandResult>,
    n: int,
    m: int,
    flow: Flow,
    pc: usize,
    logic: LogicModel,
    location: LocationInfo,
)
    requires
        0 <= n <= m,
        results_applied(results, n, flow, pc, logic, location).halt is Some,
    ensures
        results_applied(results, m, flow, pc, logic, location) == results_applied(
            results,
            n,
            flow,
            pc,
            logic,
            location,
        ),
    decreases m - n,
{
    if n < m {
        lemma_halt_stays(results, n, m - 1, flow, pc, logic, location);
    }
}

/// Runs the program of the component `comp_name` within one entity, from
/// the first line of the state that the component is in, for at most
/// `step_limit` commands.
pub fn run_component(
    logic: &LogicModel,
    model: &SimModel,
    storage: &mut Storage,
    insta: &mut EntityNonSer,
    comp_state: &mut StringId,
    comp_name: &StringId,
    ent_id: &EntityId,
    step_limit: usize,
) -> (report: RunReport)
    ensures
        ran(
            *logic,
            *model,
            *comp_name,
            step_limit,
            *old(storage),
            *old(comp_state),
            old(insta).output@,
            *final(storage),
            *final(comp_state),
            final(insta).output@,
            report,
        ),
{
    let mut deferred: Vec<DeferredCommand> = Vec::new();
    let span = match logic.state(comp_state) {
        Some(s) => s,
        None => {
            return RunReport {
                deferred,
                error: Some(
                    Error::new(
                        LocationInfo::at(comp_name, 0),
                        ErrorKind::Other("the component has no state of that name".to_owned()),
                    ),
                ),
                steps: 0,
            };
        },
    };
    let mut call_stack: Vec<CallInfo> = Vec::new();
    call_stack.push(CallInfo::new(FrameKind::State, span.0, span.1));
    let mut registry = Registry::new();
    let mut pc: usize = span.0;
    let mut steps: usize = 0;
    let mut error: Option<Error> = None;
    let ghost first = begins(*old(storage), *old(comp_state), old(insta).output@, span);
    let ghost mut trace: Seq<RunState> = seq![first];
    let ghost mut halt: Option<Halt> = None;
    proof {
        assert(call_stack@ =~= first.machine.stack);
        assert(deferred@ =~= first.deferred);
    }
    while error.is_none() && pc < logic.commands.len() && call_stack.len() > 0 && (pc < span.1
        || is_in_call(&call_stack)) && steps < step_limit
        invariant
            steps <= step_limit,
            is_trace(trace, *logic, *model, *comp_name, span.1),
            trace[0] == first,
            trace.len() == steps + 1,
            trace.last() == (RunState {
                machine: Machine {
                    storage: storage@,
                    registry: registry@,
                    stack: call_stack@,
                    state: *comp_state,
                    output: insta.output@,
                },
                pc,
                deferred: deferred@,
                halt,
            }),
            match halt {
                Some(h) => steps > 0 && (error matches Some(e) && reports(
                    h,
                    e,
                    location_of(*logic, *comp_name, trace[trace.len() - 2].pc),
                )),
                None => error is None,
            },
        decreases step_limit - steps,
    {
        let location = if pc < logic.cmd_location_map.len() {
            logic.cmd_location_map[pc].clone()
        } else {
            LocationInfo::at(comp_name, pc)
        };
        let ghost before = trace.last();
        let results = logic.commands[pc].execute(
            storage,
            insta,
            comp_state,
            &mut call_stack,
            &mut registry,
            comp_name,
            ent_id,
            model,
            &location,
        );
        let ghost mid = Machine {
            storage: storage@,
            registry: registry@,
            stack: call_stack@,
            state: *comp_state,
            output: insta.output@,
        };
        let ghost seen = results@;
        let (next, failed) = apply_results(
            results,
            &mut call_stack,
            &mut deferred,
            pc,
            logic,
            &location,
        );
        let ghost flow = results_applied(
            seen,
            seen.len() as int,
            Flow { next: None, stack: mid.stack, deferred: before.deferred, halt: None },
            pc,
            *logic,
            location,
        );
        let old_pc = pc;
        pc = match next {
            Some(l) => l,
            None => after(pc),
        };
        error = failed;
        steps += 1;
        proof {
            halt = flow.halt;
            let now = RunState {
                machine: Machine {
                    storage: storage@,
                    registry: registry@,
                    stack: call_stack@,
                    state: *comp_state,
                    output: insta.output@,
                },
                pc,
                deferred: deferred@,
                halt,
            };
            assert(executed(
                logic.commands@[before.pc as int],
                before.machine,
                mid,
                *comp_name,
                *model,
                location_of(*logic, *comp_name, before.pc),
                seen,
            ));
            assert(stepped(before, now, *logic, *model, *comp_name));
            let longer = trace.push(now);
            assert forall|i: int| 0 <= i < longer.len() - 1 implies goes_on(
                #[trigger] longer[i],
                *logic,
                span.1,
            ) && stepped(longer[i], longer[i + 1], *logic, *model, *comp_name) by {
                if i < trace.len() - 1 {
                    assert(longer[i] == trace[i]);
                    assert(longer[i + 1] == trace[i + 1]);
                } else {
                    assert(longer[i] == before);
                }
            }
            trace = longer;
        }
    }
    let stopped = error.is_none() && pc < logic.commands.len() && call_stack.len() > 0 && (pc
        < span.1 || is_in_call(&call_stack));
    if stopped {
        error = Some(
            Error::new(
                LocationInfo::at(comp_name, pc),
                ErrorKind::Other("the run was stopped at the limit of commands".to_owned()),
            ),
        );
    }
    proof {
        assert(is_trace(trace, *logic, *model, *comp_name, span.1));
    }
    RunReport { deferred, error, steps }
}

} // verus!
