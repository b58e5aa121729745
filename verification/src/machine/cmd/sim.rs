//! `sim <action>`: control of the simulation as a whole.

use vstd::prelude::*;
use crate::machine::cmd::flow::fail;
use crate::distr::SimCentral;
use crate::machine::cmd::{CentralRemoteCommand, Command, CommandResult};
use crate::sim::{next_status, status_after, Sim};
use crate::machine::error::{is_body_error, ErrorKind, Result};
use crate::machine::LocationInfo;
use crate::text::str_eq;

verus! {

/// What `sim` asks for.
#[derive(Clone, Copy, Debug, PartialEq, Eq, Structural)]
pub enum SimAction {
    /// Events are no longer processed.
    Stop,
    /// Events are not processed until the simulation is resumed.
    Pause,
    /// Events are processed again.
    Resume,
}

/// `sim`: control of the simulation.
#[derive(Clone, Copy, Debug, PartialEq, Eq, Structural)]
pub struct SimControl {
    pub action: SimAction,
}

/// The action that a text writes.
pub open spec fn action_of_text(s: Seq<char>) -> Option<SimAction> {
    if s == "stop"@ {
        Some(SimAction::Stop)
    } else if s == "pause"@ {
        Some(SimAction::Pause)
    } else if s == "resume"@ {
        Some(SimAction::Resume)
    } else {
        None
    }
}

impl SimControl {
    /// What `new` returns for given arguments.
    pub open spec fn built(args: Seq<String>, r: Result<Command>) -> bool {
        if args.len() >= 1 && action_of_text(args[0]@) is Some {
            r matches Ok(Command::Sim(c)) && Some(c.action) == action_of_text(args[0]@)
        } else {
            r matches Err(e) && is_body_error(
                e,
                LocationInfo { comp_name: None, line: None },
                "stop, pause or resume is expected"@,
            )
        }
    }

    /// Builds the command from the action in the first argument.
    pub fn new(args: Vec<String>) -> (r: Result<Command>)
        ensures
            SimControl::built(args@, r),
    {
        let location = LocationInfo::empty();
        if args.len() >= 1 {
            if str_eq(args[0].as_str(), "stop") {
                return Ok(Command::Sim(SimControl { action: SimAction::Stop }));
            } else if str_eq(args[0].as_str(), "pause") {
                return Ok(Command::Sim(SimControl { action: SimAction::Pause }));
            } else if str_eq(args[0].as_str(), "resume") {
                return Ok(Command::Sim(SimControl { action: SimAction::Resume }));
            }
        }
        fail(&location, ErrorKind::InvalidCommandBody("stop, pause or resume is expected".to_owned()))
    }
}


impl SimControl {
    /// Executes the command: the action is handed to the central
    /// authority.
    pub fn execute_loc(&self) -> (r: CommandResult)
        ensures
            r == CommandResult::ExecCentralExt(CentralRemoteCommand::Sim(*self)),
    {
        CommandResult::ExecCentralExt(CentralRemoteCommand::Sim(*self))
    }

    /// Applies the action to the simulation: nothing changes but its
    /// status.
    pub fn execute_ext(&self, sim: &mut Sim) -> (r: Result<()>)
        ensures
            r is Ok,
            final(sim).status == status_after(old(sim).status, self.action),
            final(sim).model == old(sim).model,
            final(sim).entities == old(sim).entities,
            final(sim).event_queue == old(sim).event_queue,
            final(sim).next_id == old(sim).next_id,
            final(sim).clock == old(sim).clock,
            final(sim).step_limit == old(sim).step_limit,
    {
        sim.status = next_status(sim.status, self.action);
        Ok(())
    }

    /// Applies the action to the simulation that the central authority
    /// runs: nothing changes but its status.
    pub fn execute_ext_distr(&self, central: &mut SimCentral) -> (r: Result<()>)
        ensures
            r is Ok,
            final(central).status == status_after(old(central).status, self.action),
            final(central).model == old(central).model,
            final(central).event_queue == old(central).event_queue,
            final(central).clock == old(central).clock,
            final(central).model_changed == old(central).model_changed,
            final(central).outbox == old(central).outbox,
    {
        central.status = next_status(central.status, self.action);
        Ok(())
    }
}

} // verus!
