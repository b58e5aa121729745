//! The central authority of a simulation that is spread over workers. It
//! owns the model and the queue of events; entities live with the workers.
//! What the central authority wants done by workers it puts in its outbox,
//! from where the transport takes it.

use vstd::prelude::*;
use crate::error::{is_other, Error};
use crate::model::{first_named, prefab_names, SimModel};
use crate::sim::SimStatus;
use crate::string::StringId;

verus! {

/// How the worker that gets a new entity is chosen.
#[derive(Clone, Copy, Debug, PartialEq, Eq, Structural)]
pub enum DistributionPolicy {
    /// Any worker, by chance.
    Random,
    /// The worker with the given number.
    BindToWorker(u32),
}

/// Work that the central authority hands to the workers.
#[derive(Debug, PartialEq)]
pub enum CentralAction {
    /// Spawn an entity on a worker chosen by the policy.
    SpawnEntity { prefab: Option<StringId>, name: Option<StringId>, policy: DistributionPolicy },
}

/// The central authority of a distributed simulation.
#[derive(Debug)]
pub struct SimCentral {
    pub model: SimModel,
    /// The events that the next tick processes, in their order.
    pub event_queue: Vec<StringId>,
    /// The number of ticks that were processed.
    pub clock: usize,
    pub status: SimStatus,
    /// Whether the model changed since it was last sent to the workers.
    pub model_changed: bool,
    /// What the workers are to do, in the order in which it was asked for.
    pub outbox: Vec<CentralAction>,
}

impl SimCentral {
    /// The central authority of a simulation of the model, with empty
    /// queue and outbox.
    pub fn from_model(model: SimModel) -> (r: SimCentral)
        ensures
            r.model == model,
            r.event_queue@.len() == 0,
            r.outbox@.len() == 0,
            r.clock == 0,
            r.status == SimStatus::Running,
            !r.model_changed,
    {
        SimCentral {
            model,
            event_queue: Vec::new(),
            clock: 0,
            status: SimStatus::Running,
            model_changed: false,
            outbox: Vec::new(),
        }
    }

    /// Asks for an entity to be spawned on a worker that the policy
    /// chooses. A prefab that is named has to be in the model; else nothing
    /// changes and the call fails.
    pub fn spawn_entity(
        &mut self,
        prefab: Option<StringId>,
        name: Option<StringId>,
        policy: DistributionPolicy,
    ) -> (r: Result<(), Error>)
        ensures
            final(self).model == old(self).model,
            final(self).event_queue == old(self).event_queue,
            final(self).clock == old(self).clock,
            final(self).status == old(self).status,
            final(self).model_changed == old(self).model_changed,
            match r {
                Ok(_) => (prefab matches Some(p) ==> first_named(
                    prefab_names(old(self).model.entities@),
                    p@,
                ) is Some) && final(self).outbox@ == old(self).outbox@.push(
                    CentralAction::SpawnEntity { prefab, name, policy },
                ),
                Err(e) => (prefab matches Some(p) && first_named(
                    prefab_names(old(self).model.entities@),
                    p@,
                ) is None) && is_other(e, "the model lacks the prefab"@) && final(self).outbox@
                    == old(self).outbox@,
            },
    {
        match &prefab {
            Some(p) => {
                if self.model.get_entity(p).is_none() {
                    return Err(Error::Other("the model lacks the prefab".to_owned()));
                }
            },
            None => {},
        }
        self.outbox.push(CentralAction::SpawnEntity { prefab, name, policy });
        Ok(())
    }
}

} // verus!
