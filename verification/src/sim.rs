//! The simulation in one piece: the model, the entities and the queue of
//! events, all under one roof.

use vstd::prelude::*;
use vstd::utf8::is_ascii_chars;
use crate::entity::storage::no_vars;
use crate::entity::{bound_to, comps_added, ComponentBinding, Entity, EntityId};
use crate::error::{is_other, Error};
use crate::machine::cmd::sim::SimAction;
use crate::model::{component_names, first_named, prefab_names, SimModel};
use crate::machine::error::Error as MachineError;
use crate::machine::exec::{ran, run_component, Deferred, DeferredCommand, RunReport};
use crate::machine::{after, line_after};
use crate::string::{clone_ids, names, StringId};

verus! {

/// Whether events are processed.
#[derive(Clone, Copy, Debug, PartialEq, Eq, Structural)]
pub enum SimStatus {
    Running,
    Paused,
    Stopped,
}

/// The status after an action: a simulation that was stopped stays
/// stopped.
pub open spec fn status_after(status: SimStatus, action: SimAction) -> SimStatus {
    if status == SimStatus::Stopped {
        SimStatus::Stopped
    } else {
        match action {
            SimAction::Stop => SimStatus::Stopped,
            SimAction::Pause => SimStatus::Paused,
            SimAction::Resume => SimStatus::Running,
        }
    }
}

/// The status after an action.
pub fn next_status(status: SimStatus, action: SimAction) -> (r: SimStatus)
    ensures
        r == status_after(status, action),
{
    match status {
        SimStatus::Stopped => SimStatus::Stopped,
        _ => match action {
            SimAction::Stop => SimStatus::Stopped,
            SimAction::Pause => SimStatus::Paused,
            SimAction::Resume => SimStatus::Running,
        },
    }
}

/// The text of the event that is queued for every tick.
pub open spec fn default_event_text() -> Seq<char> {
    seq!['s', 't', 'e', 'p']
}

/// The text of the event that starts the programs of the modules.
pub open spec fn init_event_text() -> Seq<char> {
    seq!['_', 's', 'c', 'r', '_', 'i', 'n', 'i', 't']
}

/// The text of the name of the prefab that holds the programs of the
/// modules.
pub open spec fn init_prefab_text() -> Seq<char> {
    seq!['_', 'm', 'o', 'd', '_', 'i', 'n', 'i', 't']
}

/// The text of the name of the state in which components start.
pub open spec fn main_state_text() -> Seq<char> {
    seq!['m', 'a', 'i', 'n']
}

/// The event that is queued for every tick.
pub fn default_event() -> (r: StringId)
    ensures
        r@ == default_event_text(),
{
    let v = vec!['s', 't', 'e', 'p'];
    proof {
        assert(v@ =~= default_event_text());
        assert(is_ascii_chars(v@));
    }
    StringId::short(&v)
}

/// The event that starts the programs of the modules.
pub fn init_event() -> (r: StringId)
    ensures
        r@ == init_event_text(),
{
    let v = vec!['_', 's', 'c', 'r', '_', 'i', 'n', 'i', 't'];
    proof {
        assert(v@ =~= init_event_text());
        assert(is_ascii_chars(v@));
    }
    StringId::short(&v)
}

/// The name of the prefab that holds the programs of the modules.
pub fn init_prefab() -> (r: StringId)
    ensures
        r@ == init_prefab_text(),
{
    let v = vec!['_', 'm', 'o', 'd', '_', 'i', 'n', 'i', 't'];
    proof {
        assert(v@ =~= init_prefab_text());
        assert(is_ascii_chars(v@));
    }
    StringId::short(&v)
}

/// The name of the state in which components start.
pub fn main_state() -> (r: StringId)
    ensures
        r@ == main_state_text(),
{
    let v = vec!['m', 'a', 'i', 'n'];
    proof {
        assert(v@ =~= main_state_text());
        assert(is_ascii_chars(v@));
    }
    StringId::short(&v)
}

/// A queue of events after one more event was asked for: the event is
/// added at the end unless the queue holds it already.
pub open spec fn enqueued(queue: Seq<Seq<char>>, event: Seq<char>) -> Seq<Seq<char>> {
    if queue.contains(event) {
        queue
    } else {
        queue.push(event)
    }
}

/// A queue of events after the given events were asked for, in their
/// order.
pub open spec fn enqueued_all(queue: Seq<Seq<char>>, events: Seq<Seq<char>>) -> Seq<Seq<char>>
    decreases events.len(),
{
    if events.len() == 0 {
        queue
    } else {
        enqueued(enqueued_all(queue, events.drop_last()), events.last())
    }
}

/// Asking for events never makes an event stand twice in the queue.
pub proof fn lemma_enqueued_all_no_duplicates(queue: Seq<Seq<char>>, events: Seq<Seq<char>>)
    requires
        queue.no_duplicates(),
    ensures
        enqueued_all(queue, events).no_duplicates(),
    decreases events.len(),
{
    if events.len() > 0 {
        lemma_enqueued_all_no_duplicates(queue, events.drop_last());
    }
}

/// Every event that was asked for is in the queue, and so is every event
/// that was there before.
pub proof fn lemma_enqueued_all_contains(queue: Seq<Seq<char>>, events: Seq<Seq<char>>, e: Seq<char>)
    ensures
        enqueued_all(queue, events).contains(e) <==> queue.contains(e) || events.contains(e),
    decreases events.len(),
{
    if events.len() > 0 {
        let head = events.drop_last();
        lemma_enqueued_all_contains(queue, head, e);
        let before = enqueued_all(queue, head);
        let after = enqueued(before, events.last());
        if before.contains(e) {
            let i = choose|i: int| 0 <= i < before.len() && before[i] == e;
            assert(after[i] == e);
        }
        if events.last() == e {
            if !before.contains(e) {
                assert(after[before.len() as int] == e);
            }
            assert(events[events.len() - 1] == e);
        }
        if head.contains(e) {
            let i = choose|i: int| 0 <= i < head.len() && head[i] == e;
            assert(events[i] == e);
        }
        if events.contains(e) && events.last() != e {
            let i = choose|i: int| 0 <= i < events.len() && events[i] == e;
            assert(head[i] == e);
        }
        if after.contains(e) && !before.contains(e) {
            let i = choose|i: int| 0 <= i < after.len() && after[i] == e;
            if i < before.len() {
                assert(before[i] == e);
            }
        }
    }
}

/// Asking for the same events once more changes nothing.
pub proof fn lemma_enqueued_all_idempotent(queue: Seq<Seq<char>>, events: Seq<Seq<char>>)
    ensures
        enqueued_all(enqueued_all(queue, events), events) == enqueued_all(queue, events),
{
    lemma_enqueued_present(enqueued_all(queue, events), events, events.len() as int, queue);
    assert(events.take(events.len() as int) =~= events);
}

/// Asking for events that the queue holds changes nothing.
proof fn lemma_enqueued_present(
    queue: Seq<Seq<char>>,
    events: Seq<Seq<char>>,
    n: int,
    origin: Seq<Seq<char>>,
)
    requires
        0 <= n <= events.len(),
        queue == enqueued_all(origin, events),
    ensures
        enqueued_all(queue, events.take(n)) == queue,
    decreases n,
{
    if n > 0 {
        lemma_enqueued_present(queue, events, n - 1, origin);
        let cur = events.take(n);
        assert(cur.drop_last() =~= events.take(n - 1));
        assert(cur.last() == events[n - 1]);
        lemma_enqueued_all_contains(origin, events, events[n - 1]);
    } else {
        assert(events.take(0) =~= Seq::empty());
    }
}

/// Whether a queue holds an event.
pub fn queue_holds(queue: &Vec<StringId>, event: &StringId) -> (r: bool)
    ensures
        r == names(queue@).contains(event@),
{
    let mut i: usize = 0;
    while i < queue.len()
        invariant
            i <= queue.len(),
            forall|j: int| 0 <= j < i ==> names(queue@)[j] != event@,
        decreases queue.len() - i,
    {
        if queue[i] == *event {
            proof {
                assert(names(queue@)[i as int] == event@);
            }
            return true;
        }
        i += 1;
    }
    false
}

/// Asks for events: each is added at the end of the queue unless the queue
/// holds it already.
pub fn enqueue_all(queue: &mut Vec<StringId>, events: &Vec<StringId>)
    ensures
        names(final(queue)@) == enqueued_all(names(old(queue)@), names(events@)),
{
    let mut i: usize = 0;
    proof {
        assert(names(events@).take(0) =~= Seq::empty());
    }
    while i < events.len()
        invariant
            i <= events.len(),
            names(queue@) == enqueued_all(names(old(queue)@), names(events@).take(i as int)),
        decreases events.len() - i,
    {
        proof {
            let cur = names(events@).take(i + 1);
            assert(cur.drop_last() =~= names(events@).take(i as int));
            assert(cur.last() == events@[i as int]@);
        }
        if !queue_holds(queue, &events[i]) {
            let ghost before = names(queue@);
            queue.push(events[i].clone());
            proof {
                assert(names(queue@) =~= before.push(events@[i as int]@));
            }
        }
        i += 1;
    }
    proof {
        assert(names(events@).take(events.len() as int) =~= names(events@));
    }
}

/// An entity of the simulation, with its handle and its name.
#[derive(Debug)]
pub struct SimEntity {
    pub id: EntityId,
    pub name: Option<StringId>,
    pub entity: Entity,
}

/// The simulation in one piece.
#[derive(Debug)]
pub struct Sim {
    pub model: SimModel,
    /// The entities, in the order in which they were spawned.
    pub entities: Vec<SimEntity>,
    /// The events that the next tick processes, in their order.
    pub event_queue: Vec<StringId>,
    /// The handle that the next entity gets.
    pub next_id: EntityId,
    /// The number of ticks that were processed.
    pub clock: usize,
    pub status: SimStatus,
    /// The number of commands that one run of a component's program may
    /// execute.
    pub step_limit: usize,
}

/// The number of commands that one run of a component's program may execute
/// unless the simulation is told otherwise.
pub const DEFAULT_STEP_LIMIT: usize = 100000;

/// Whether an entity has the name.
pub open spec fn is_called(e: SimEntity, name: Seq<char>) -> bool {
    e.name matches Some(n) && n@ == name
}

/// The position of the first entity with the handle.
pub open spec fn entity_at(entities: Seq<SimEntity>, id: EntityId) -> Option<int>
    decreases entities.len(),
{
    if entities.len() == 0 {
        None
    } else if entities[0].id == id {
        Some(0int)
    } else {
        match entity_at(entities.drop_first(), id) {
            Some(i) => Some(i + 1),
            None => None,
        }
    }
}

/// What `entity_at` finds is the first position with the handle.
pub proof fn lemma_entity_at(entities: Seq<SimEntity>, id: EntityId, i: int)
    requires
        0 <= i <= entities.len(),
        forall|j: int| 0 <= j < i ==> entities[j].id != id,
        i < entities.len() ==> entities[i].id == id,
    ensures
        entity_at(entities, id) == (if i < entities.len() {
            Some(i)
        } else {
            None
        }),
    decreases entities.len(),
{
    if entities.len() > 0 && i > 0 {
        let rest = entities.drop_first();
        assert forall|j: int| 0 <= j < i - 1 implies rest[j].id != id by {
            assert(rest[j] == entities[j + 1]);
        }
        lemma_entity_at(rest, id, i - 1);
    }
}

/// The position of the first entity with the name.
pub open spec fn called_at(entities: Seq<SimEntity>, name: Seq<char>) -> Option<int>
    decreases entities.len(),
{
    if entities.len() == 0 {
        None
    } else if is_called(entities[0], name) {
        Some(0int)
    } else {
        match called_at(entities.drop_first(), name) {
            Some(i) => Some(i + 1),
            None => None,
        }
    }
}

/// What `called_at` finds is the first position with the name.
pub proof fn lemma_called_at(entities: Seq<SimEntity>, name: Seq<char>, i: int)
    requires
        0 <= i <= entities.len(),
        forall|j: int| 0 <= j < i ==> !is_called(#[trigger] entities[j], name),
        i < entities.len() ==> is_called(entities[i], name),
    ensures
        called_at(entities, name) == (if i < entities.len() {
            Some(i)
        } else {
            None
        }),
    decreases entities.len(),
{
    if entities.len() > 0 && i > 0 {
        let rest = entities.drop_first();
        assert forall|j: int| 0 <= j < i - 1 implies !is_called(#[trigger] rest[j], name) by {
            assert(rest[j] == entities[j + 1]);
        }
        lemma_called_at(rest, name, i - 1);
    }
}

/// The position of the entity that a text names: the first entity of that
/// name or, where there is none and the text is a number, the first entity
/// with that handle.
pub open spec fn resolved(entities: Seq<SimEntity>, text: Seq<char>) -> Option<int> {
    match called_at(entities, text) {
        Some(p) => Some(p),
        None => match crate::text::parse_nat(text) {
            Some(n) => if n <= u32::MAX {
                entity_at(entities, n as u32)
            } else {
                None
            },
            None => None,
        },
    }
}


impl Sim {
    /// The invariant of a simulation: the entities stand in the order of
    /// their handles, which are all below the next handle, and no event
    /// stands twice in the queue.
    pub open spec fn wf(&self) -> bool {
        &&& forall|i: int, j: int|
            0 <= i < j < self.entities@.len() ==> self.entities@[i].id < self.entities@[j].id
        &&& forall|i: int| 0 <= i < self.entities@.len() ==> self.entities@[i].id < self.next_id
        &&& names(self.event_queue@).no_duplicates()
    }

    /// A simulation of the model, without entities, that has not begun:
    /// the queue holds the event that starts the programs of the modules.
    pub fn from_model(model: SimModel) -> (r: Sim)
        ensures
            r.wf(),
            r.model == model,
            r.entities@.len() == 0,
            names(r.event_queue@) == seq![init_event_text()],
            r.next_id == 0,
            r.clock == 0,
            r.status == SimStatus::Running,
            r.step_limit == DEFAULT_STEP_LIMIT,
    {
        let mut event_queue: Vec<StringId> = Vec::new();
        event_queue.push(init_event());
        proof {
            assert(names(event_queue@) =~= seq![init_event_text()]);
        }
        Sim {
            model,
            entities: Vec::new(),
            event_queue,
            next_id: 0,
            clock: 0,
            status: SimStatus::Running,
            step_limit: DEFAULT_STEP_LIMIT,
        }
    }

    /// A simulation of the model that is ready to begin: as `from_model`
    /// makes it, with one entity of the prefab that holds the programs of
    /// the modules. Fails where the model lacks that prefab or one of its
    /// components.
    pub fn boot(model: SimModel) -> (r: Result<Sim, Error>)
        ensures
            match r {
                Ok(sim) => sim.wf() && sim.model == model && sim.entities@.len() == 1
                    && sim.entities@[0].id == 0 && sim.next_id == 1 && spawned_as(
                    sim.entities@[0].entity,
                    model,
                    Some(&sim.entities@[0].name->0),
                ) && (sim.entities@[0].name matches Some(n) && n@ == init_prefab_text()) && names(
                    sim.event_queue@,
                ) == seq![init_event_text()] && sim.clock == 0 && sim.status == SimStatus::Running,
                Err(e) => is_other(
                    e,
                    if first_named(prefab_names(model.entities@), init_prefab_text()) is None {
                        "the model lacks the prefab"@
                    } else {
                        "the model lacks a component of the prefab"@
                    },
                ) && (match first_named(
                    prefab_names(model.entities@),
                    init_prefab_text(),
                ) {
                    Some(i) => comps_added(
                        no_vars(),
                        model.components@,
                        model.entities@[i].components@,
                    ) is None,
                    None => true,
                }),
            },
    {
        let mut sim = Sim::from_model(model);
        let prefab = init_prefab();
        match sim.spawn_entity(Some(&prefab), Some(prefab.clone())) {
            Ok(_) => Ok(sim),
            Err(e) => Err(e),
        }
    }

    /// The position of the entity with the handle.
    pub fn entity_position(&self, id: EntityId) -> (r: Option<usize>)
        ensures
            match r {
                Some(i) => i < self.entities@.len() && self.entities@[i as int].id == id && forall|
                    j: int,
                | 0 <= j < i ==> self.entities@[j].id != id,
                None => forall|j: int| 0 <= j < self.entities@.len() ==> self.entities@[j].id != id,
            },
    {
        let mut i: usize = 0;
        while i < self.entities.len()
            invariant
                i <= self.entities.len(),
                forall|j: int| 0 <= j < i ==> self.entities@[j].id != id,
            decreases self.entities.len() - i,
        {
            if self.entities[i].id == id {
                return Some(i);
            }
            i += 1;
        }
        None
    }

    /// The position of the first entity with the name.
    pub fn entity_position_by_name(&self, name: &StringId) -> (r: Option<usize>)
        ensures
            match r {
                Some(i) => i < self.entities@.len() && is_called(self.entities@[i as int], name@)
                    && forall|j: int| 0 <= j < i ==> !is_called(#[trigger] self.entities@[j], name@),
                None => forall|j: int|
                    0 <= j < self.entities@.len() ==> !is_called(#[trigger] self.entities@[j], name@),
            },
    {
        let mut i: usize = 0;
        while i < self.entities.len()
            invariant
                i <= self.entities.len(),
                forall|j: int| 0 <= j < i ==> !is_called(#[trigger] self.entities@[j], name@),
            decreases self.entities.len() - i,
        {
            let found = match &self.entities[i].name {
                Some(n) => *n == *name,
                None => false,
            };
            if found {
                return Some(i);
            }
            i += 1;
        }
        None
    }

    /// The position of the entity that a name stands for.
    pub fn resolve(&self, name: &StringId) -> (r: Option<usize>)
        ensures
            match r {
                Some(p) => resolved(self.entities@, name@) == Some(p as int) && p
                    < self.entities@.len(),
                None => resolved(self.entities@, name@) is None,
            },
    {
        match self.entity_position_by_name(name) {
            Some(p) => {
                proof {
                    lemma_called_at(self.entities@, name@, p as int);
                }
                Some(p)
            },
            None => {
                proof {
                    lemma_called_at(self.entities@, name@, self.entities@.len() as int);
                }
                match crate::text::parse_unsigned(&name.to_chars(), 4294967295) {
                    Some(n) => {
                        let r = self.entity_position(n as u32);
                        proof {
                            match r {
                                Some(p) => {
                                    lemma_entity_at(self.entities@, n as u32, p as int);
                                },
                                None => {
                                    lemma_entity_at(
                                        self.entities@,
                                        n as u32,
                                        self.entities@.len() as int,
                                    );
                                },
                            }
                        }
                        r
                    },
                    None => None,
                }
            },
        }
    }

    /// The entity at a position, for writing. What is written through the
    /// reference is what the simulation holds in that place afterwards;
    /// nothing else changes.
    pub fn entity_mut(&mut self, position: usize) -> (r: &mut SimEntity)
        requires
            position < old(self).entities@.len(),
        ensures
            *r == old(self).entities@[position as int],
            final(self).entities@ == old(self).entities@.update(position as int, *final(r)),
            final(self).model == old(self).model,
            final(self).event_queue == old(self).event_queue,
            final(self).next_id == old(self).next_id,
            final(self).clock == old(self).clock,
            final(self).status == old(self).status,
            final(self).step_limit == old(self).step_limit,
    {
        &mut self.entities[position]
    }

    /// Spawns an entity: of the prefab, where one is named, else without
    /// components. The entity gets the next handle and stands behind all
    /// others. Fails, and changes nothing, where the model lacks the prefab
    /// or one of its components, or where the handles are used up.
    pub fn spawn_entity(&mut self, prefab: Option<&StringId>, name: Option<StringId>) -> (r: Result<
        EntityId,
        Error,
    >)
        ensures
            final(self).model == old(self).model,
            final(self).event_queue == old(self).event_queue,
            final(self).clock == old(self).clock,
            final(self).status == old(self).status,
            final(self).step_limit == old(self).step_limit,
            old(self).wf() ==> final(self).wf(),
            r is Ok <==> can_spawn(*old(self), prefab),
            match r {
                Ok(id) => id == old(self).next_id && final(self).next_id == id + 1
                    && final(self).entities@.len() == old(self).entities@.len() + 1
                    && final(self).entities@.drop_last() == old(self).entities@
                    && final(self).entities@.last().id == id
                    && final(self).entities@.last().name == name
                    && spawned_as(final(self).entities@.last().entity, old(self).model, prefab),
                Err(e) => *final(self) == *old(self) && is_other(e, spawn_refusal(*old(self), prefab)),
            },
    {
        if self.next_id == u32::MAX {
            return Err(Error::Other("the handles of entities are used up".to_owned()));
        }
        let entity = match prefab {
            Some(p) => {
                let model = match self.model.get_entity(p) {
                    Some(m) => m,
                    None => {
                        return Err(Error::Other("the model lacks the prefab".to_owned()));
                    },
                };
                match Entity::with_components(&self.model, &model.components) {
                    Ok(e) => e,
                    Err(e) => {
                        return Err(e);
                    },
                }
            },
            None => Entity::empty(),
        };
        let id = self.next_id;
        let ghost before = self.entities@;
        self.entities.push(SimEntity { id, name, entity });
        self.next_id = id + 1;
        proof {
            assert(self.entities@.drop_last() =~= before);
        }
        Ok(id)
    }
}

/// Whether an entity can be spawned: a handle is left, and where a prefab
/// is named, the model has it and each of its components.
pub open spec fn can_spawn(sim: Sim, prefab: Option<&StringId>) -> bool {
    sim.next_id < u32::MAX && (match prefab {
        Some(p) => first_named(prefab_names(sim.model.entities@), p@) matches Some(i)
            && comps_added(no_vars(), sim.model.components@, sim.model.entities@[i].components@)
            is Some,
        None => true,
    })
}

/// The message with which a spawn is refused: no handle is left, the model
/// lacks the prefab, or it lacks a component of the prefab.
pub open spec fn spawn_refusal(sim: Sim, prefab: Option<&StringId>) -> Seq<char> {
    if sim.next_id == u32::MAX {
        "the handles of entities are used up"@
    } else if prefab matches Some(p) && first_named(prefab_names(sim.model.entities@), p@) is None {
        "the model lacks the prefab"@
    } else {
        "the model lacks a component of the prefab"@
    }
}

/// Whether an entity is as it is spawned: with the variables and the
/// components of the prefab, where one is named and the model has it, else
/// without any.
pub open spec fn spawned_as(entity: Entity, model: SimModel, prefab: Option<&StringId>) -> bool {
    match prefab {
        Some(p) => first_named(prefab_names(model.entities@), p@) matches Some(i) && comps_added(
            no_vars(),
            model.components@,
            model.entities@[i].components@,
        ) == Some(entity.storage@) && bound_to(
            entity.components@,
            model.components@,
            model.entities@[i].components@,
        ),
        None => entity.storage@ == no_vars() && entity.components@.len() == 0,
    }
}


/// Work that a run has put aside, with the entity and the component that
/// asked for it.
#[derive(Debug)]
pub struct Pending {
    pub ent: EntityId,
    pub comp: StringId,
    pub work: DeferredCommand,
}

/// What the processing of an event works on: the entities, the work that
/// was put aside, and the errors that ended programs.
pub struct Tick {
    pub entities: Seq<SimEntity>,
    pub pending: Seq<Pending>,
    pub errors: Seq<MachineError>,
}

/// The work of a report, as work of the entity `ent` and its component
/// `comp`.
pub open spec fn pending_of(report: RunReport, ent: EntityId, comp: StringId) -> Seq<Pending> {
    Seq::new(
        report.deferred@.len(),
        |n: int| Pending { ent, comp, work: report.deferred@[n] },
    )
}

/// The error of a report, if it has one.
pub open spec fn error_of(report: RunReport) -> Seq<MachineError> {
    match report.error {
        Some(e) => seq![e],
        None => Seq::empty(),
    }
}

/// Whether `after` comes of `before` by a run of the program of component
/// `p` of the model for binding `k` of entity `i`, with the given report:
/// the run is as `ran` says; it changes nothing but the store, the output
/// and the state of that binding; its work and its error are added.
pub open spec fn program_ran(
    before: Tick,
    after: Tick,
    i: int,
    k: int,
    model: SimModel,
    limit: usize,
    p: int,
    report: RunReport,
) -> bool {
    let e = before.entities[i];
    let f = after.entities[i];
    let b = e.entity.components@[k];
    &&& after.entities.len() == before.entities.len()
    &&& forall|j: int|
        0 <= j < after.entities.len() && j != i ==> #[trigger] after.entities[j]
            == before.entities[j]
    &&& f.id == e.id
    &&& f.name == e.name
    &&& f.entity.components@.len() == e.entity.components@.len()
    &&& forall|j: int|
        0 <= j < f.entity.components@.len() && j != k ==> #[trigger] f.entity.components@[j]
            == e.entity.components@[j]
    &&& f.entity.components@[k].name == b.name
    &&& ran(
        model.components@[p].logic,
        model,
        b.name,
        limit,
        e.entity.storage,
        b.state,
        e.entity.non_serializable.output@,
        f.entity.storage,
        f.entity.components@[k].state,
        f.entity.non_serializable.output@,
        report,
    )
    &&& after.pending == before.pending + pending_of(report, e.id, b.name)
    &&& after.errors == before.errors + error_of(report)
}

/// The component of the model that the event triggers for a binding: the
/// first component of the name of the binding, if the event is among its
/// triggers.
pub open spec fn triggered(model: SimModel, binding: ComponentBinding, event: Seq<char>) -> Option<
    int,
> {
    match first_named(component_names(model.components@), binding.name@) {
        Some(p) => if names(model.components@[p].triggers@).contains(event) {
            Some(p)
        } else {
            None
        },
        None => None,
    }
}

/// Whether `after` comes of `before` by the visit of binding `k` of entity
/// `i`: where the event triggers the component of the binding, its program
/// is run; else nothing changes.
#[verifier::opaque]
pub open spec fn visited(
    before: Tick,
    after: Tick,
    i: int,
    k: int,
    event: Seq<char>,
    model: SimModel,
    limit: usize,
) -> bool {
    match triggered(model, before.entities[i].entity.components@[k], event) {
        Some(p) => exists|report: RunReport| #[trigger]
            program_ran(before, after, i, k, model, limit, p, report),
        None => after == before,
    }
}

/// Whether `trace` holds what the visits of the first `k` bindings of
/// entity `i` come to, one after the other, from `before` to `after`.
pub open spec fn is_binding_trace(
    trace: Seq<Tick>,
    before: Tick,
    after: Tick,
    i: int,
    k: int,
    event: Seq<char>,
    model: SimModel,
    limit: usize,
) -> bool {
    &&& k >= 0
    &&& trace.len() == k + 1
    &&& trace[0] == before
    &&& trace[k] == after
    &&& forall|j: int|
        0 <= j < k ==> visited(#[trigger] trace[j], trace[j + 1], i, j, event, model, limit)
}

/// Whether `after` comes of `before` by the visits of the first `k`
/// bindings of entity `i`, in their order.
pub open spec fn bindings_visited(
    before: Tick,
    after: Tick,
    i: int,
    k: int,
    event: Seq<char>,
    model: SimModel,
    limit: usize,
) -> bool {
    exists|trace: Seq<Tick>| #[trigger]
        is_binding_trace(trace, before, after, i, k, event, model, limit)
}

/// Whether `trace` holds what the visits of the first `n` entities come
/// to, one entity after the other, from `before` to `after`.
pub open spec fn is_entity_trace(
    trace: Seq<Tick>,
    before: Tick,
    after: Tick,
    n: int,
    event: Seq<char>,
    model: SimModel,
    limit: usize,
) -> bool {
    &&& n >= 0
    &&& trace.len() == n + 1
    &&& trace[0] == before
    &&& trace[n] == after
    &&& forall|j: int|
        0 <= j < n ==> bindings_visited(
            #[trigger] trace[j],
            trace[j + 1],
            j,
            trace[j].entities[j].entity.components@.len() as int,
            event,
            model,
            limit,
        )
}

/// Whether `after` comes of `before` by the visits of all bindings of the
/// first `n` entities, in the order of the entities.
pub open spec fn entities_visited(
    before: Tick,
    after: Tick,
    n: int,
    event: Seq<char>,
    model: SimModel,
    limit: usize,
) -> bool {
    exists|trace: Seq<Tick>| #[trigger] is_entity_trace(trace, before, after, n, event, model, limit)
}

/// Before any visit nothing has changed.
proof fn lemma_nothing_visited(before: Tick, i: int, event: Seq<char>, model: SimModel, limit: usize)
    ensures
        bindings_visited(before, before, i, 0, event, model, limit),
        entities_visited(before, before, 0, event, model, limit),
{
    let trace = seq![before];
    assert(is_binding_trace(trace, before, before, i, 0, event, model, limit));
    assert(is_entity_trace(trace, before, before, 0, event, model, limit));
}

/// One more visit extends the visits of the bindings of an entity.
proof fn lemma_binding_visited(
    before: Tick,
    mid: Tick,
    after: Tick,
    i: int,
    k: int,
    event: Seq<char>,
    model: SimModel,
    limit: usize,
)
    requires
        bindings_visited(before, mid, i, k, event, model, limit),
        visited(mid, after, i, k, event, model, limit),
    ensures
        bindings_visited(before, after, i, k + 1, event, model, limit),
{
    let trace = choose|trace: Seq<Tick>| #[trigger]
        is_binding_trace(trace, before, mid, i, k, event, model, limit);
    let longer = trace.push(after);
    assert forall|j: int| 0 <= j < k + 1 implies visited(
        #[trigger] longer[j],
        longer[j + 1],
        i,
        j,
        event,
        model,
        limit,
    ) by {
        if j < k {
            assert(longer[j] == trace[j]);
            assert(longer[j + 1] == trace[j + 1]);
        }
    }
    assert(is_binding_trace(longer, before, after, i, k + 1, event, model, limit));
}

/// The visits of one more entity extend the visits of the entities.
proof fn lemma_entity_visited(
    before: Tick,
    mid: Tick,
    after: Tick,
    n: int,
    event: Seq<char>,
    model: SimModel,
    limit: usize,
)
    requires
        entities_visited(before, mid, n, event, model, limit),
        bindings_visited(
            mid,
            after,
            n,
            mid.entities[n].entity.components@.len() as int,
            event,
            model,
            limit,
        ),
    ensures
        entities_visited(before, after, n + 1, event, model, limit),
{
    let trace = choose|trace: Seq<Tick>| #[trigger]
        is_entity_trace(trace, before, mid, n, event, model, limit);
    let longer = trace.push(after);
    assert forall|j: int| 0 <= j < n + 1 implies bindings_visited(
        #[trigger] longer[j],
        longer[j + 1],
        j,
        longer[j].entities[j].entity.components@.len() as int,
        event,
        model,
        limit,
    ) by {
        if j < n {
            assert(longer[j] == trace[j]);
            assert(longer[j + 1] == trace[j + 1]);
        }
    }
    assert(is_entity_trace(longer, before, after, n + 1, event, model, limit));
}

/// Whether the entities have the same handles and names, in the same
/// order.
pub open spec fn same_entities(a: Seq<SimEntity>, b: Seq<SimEntity>) -> bool {
    &&& a.len() == b.len()
    &&& forall|i: int| 0 <= i < a.len() ==> (#[trigger] a[i]).id == b[i].id && a[i].name == b[i].name
}

/// What the work that was put aside works on: the simulation, and the
/// errors that came of work on other entities.
pub struct Drain {
    pub sim: Sim,
    pub errors: Seq<MachineError>,
}

/// Whether `after` comes of `before` by doing one piece of work, with the
/// result `r`. Work of the central authority is done as the command says.
/// Work on another entity is done as the command says, and where it fails
/// its error is added to the errors and the result is no error.
#[verifier::opaque]
pub open spec fn work_done(before: Drain, after: Drain, work: Pending, r: Result<(), MachineError>) -> bool {
    match work.work.command {
        Deferred::Central(c) => c.ran(before.sim, work.ent, work.comp, after.sim, r)
            && after.errors == before.errors,
        Deferred::Ext(c) => r is Ok && exists|x: Result<(), MachineError>| #[trigger]
            c.ran(before.sim, work.ent, work.work.location, after.sim, x) && after.errors
                == before.errors + (match x {
                Ok(_) => Seq::empty(),
                Err(e) => seq![e],
            }),
    }
}

/// Whether `trace` holds what the first `n` pieces of work come to, one
/// after the other, from `before` to `after`, none of which fails.
pub open spec fn is_drain_trace(
    trace: Seq<Drain>,
    before: Drain,
    after: Drain,
    pending: Seq<Pending>,
    n: int,
) -> bool {
    &&& 0 <= n <= pending.len()
    &&& trace.len() == n + 1
    &&& trace[0] == before
    &&& trace[n] == after
    &&& forall|j: int| 0 <= j < n ==> work_done(#[trigger] trace[j], trace[j + 1], pending[j], Ok(()))
}

/// Whether `after` comes of `before` by doing the first `n` pieces of
/// work, in their order, none of which fails.
pub open spec fn drained(before: Drain, after: Drain, pending: Seq<Pending>, n: int) -> bool {
    exists|trace: Seq<Drain>| #[trigger] is_drain_trace(trace, before, after, pending, n)
}

/// Before any work nothing has changed.
proof fn lemma_nothing_drained(before: Drain, pending: Seq<Pending>)
    ensures
        drained(before, before, pending, 0),
{
    assert(is_drain_trace(seq![before], before, before, pending, 0));
}

/// One more piece of work extends the work that was done.
proof fn lemma_work_drained(before: Drain, mid: Drain, after: Drain, pending: Seq<Pending>, n: int)
    requires
        n < pending.len(),
        drained(before, mid, pending, n),
        work_done(mid, after, pending[n], Ok(())),
    ensures
        drained(before, after, pending, n + 1),
{
    let trace = choose|trace: Seq<Drain>| #[trigger] is_drain_trace(trace, before, mid, pending, n);
    let longer = trace.push(after);
    assert forall|j: int| 0 <= j < n + 1 implies work_done(
        #[trigger] longer[j],
        longer[j + 1],
        pending[j],
        Ok(()),
    ) by {
        if j < n {
            assert(longer[j] == trace[j]);
            assert(longer[j + 1] == trace[j + 1]);
        }
    }
    assert(is_drain_trace(longer, before, after, pending, n + 1));
}

/// Whether `after` and `r` are what doing the work comes to: all of it is
/// done in its order; or the work is done up to the first piece that
/// fails, whose error is the result.
pub open spec fn drain_ended(
    before: Drain,
    after: Drain,
    pending: Seq<Pending>,
    r: Result<(), MachineError>,
) -> bool {
    match r {
        Ok(_) => drained(before, after, pending, pending.len() as int),
        Err(e) => exists|n: int, mid: Drain|
            0 <= n < pending.len() && #[trigger] drained(before, mid, pending, n) && work_done(
                mid,
                after,
                pending[n],
                Err(e),
            ),
    }
}

/// Whether the programs that the event triggers take the simulation
/// `before.sim` to `midway`, which changes the entities only, and leave
/// the work and the errors of `run`.
pub open spec fn programs_run(before: Drain, run: Tick, midway: Sim, event: Seq<char>) -> bool {
    &&& entities_visited(
        Tick { entities: before.sim.entities@, pending: Seq::empty(), errors: before.errors },
        run,
        before.sim.entities@.len() as int,
        event,
        before.sim.model,
        before.sim.step_limit,
    )
    &&& midway.entities@ == run.entities
    &&& same_but_entities(midway, before.sim)
}

/// Whether `after` comes of `before` by processing one event, with the
/// result `r`: the programs that the event triggers are run, then the work
/// that they put aside is done.
#[verifier::opaque]
pub open spec fn event_processed(
    before: Drain,
    after: Drain,
    event: Seq<char>,
    r: Result<(), MachineError>,
) -> bool {
    exists|run: Tick, midway: Sim| #[trigger]
        programs_run(before, run, midway, event) && drain_ended(
            Drain { sim: midway, errors: run.errors },
            after,
            run.pending,
            r,
        )
}

/// Whether two simulations differ in their entities at most.
pub open spec fn same_but_entities(a: Sim, b: Sim) -> bool {
    &&& a.model == b.model
    &&& a.event_queue == b.event_queue
    &&& a.next_id == b.next_id
    &&& a.clock == b.clock
    &&& a.status == b.status
    &&& a.step_limit == b.step_limit
}

/// Whether `trace` holds what the processing of the first `n` events
/// comes to, one event after the other, from `before` to `after`, without
/// an error of the central authority.
pub open spec fn is_event_trace(
    trace: Seq<Drain>,
    before: Drain,
    after: Drain,
    events: Seq<StringId>,
    n: int,
) -> bool {
    &&& 0 <= n <= events.len()
    &&& trace.len() == n + 1
    &&& trace[0] == before
    &&& trace[n] == after
    &&& forall|j: int|
        0 <= j < n ==> event_processed(#[trigger] trace[j], trace[j + 1], events[j]@, Ok(()))
}

/// Whether `after` comes of `before` by processing the first `n` events,
/// in their order, without an error of the central authority.
pub open spec fn events_processed(before: Drain, after: Drain, events: Seq<StringId>, n: int) -> bool {
    exists|trace: Seq<Drain>| #[trigger] is_event_trace(trace, before, after, events, n)
}

/// Before any event nothing has changed.
proof fn lemma_nothing_processed(before: Drain, events: Seq<StringId>)
    ensures
        events_processed(before, before, events, 0),
{
    assert(is_event_trace(seq![before], before, before, events, 0));
}

/// One more event extends the events that were processed.
proof fn lemma_event_processed(before: Drain, mid: Drain, after: Drain, events: Seq<StringId>, n: int)
    requires
        n < events.len(),
        events_processed(before, mid, events, n),
        event_processed(mid, after, events[n]@, Ok(())),
    ensures
        events_processed(before, after, events, n + 1),
{
    let trace = choose|trace: Seq<Drain>| #[trigger] is_event_trace(trace, before, mid, events, n);
    let longer = trace.push(after);
    assert forall|j: int| 0 <= j < n + 1 implies event_processed(
        #[trigger] longer[j],
        longer[j + 1],
        events[j]@,
        Ok(()),
    ) by {
        if j < n {
            assert(longer[j] == trace[j]);
            assert(longer[j + 1] == trace[j + 1]);
        }
    }
    assert(is_event_trace(longer, before, after, events, n + 1));
}

/// The simulation as a tick finds it, once its queue was emptied.
pub open spec fn tick_begins(sim: Sim, begun: Sim) -> bool {
    &&& begun.event_queue@.len() == 0
    &&& begun.model == sim.model
    &&& begun.entities == sim.entities
    &&& begun.next_id == sim.next_id
    &&& begun.clock == sim.clock
    &&& begun.status == sim.status
    &&& begun.step_limit == sim.step_limit
}

/// The simulation as a tick leaves it: the event that every tick has is
/// asked for, and the clock has gone on.
pub open spec fn tick_ends(done: Sim, after: Sim) -> bool {
    &&& names(after.event_queue@) == enqueued(names(done.event_queue@), default_event_text())
    &&& after.clock == line_after(done.clock)
    &&& after.model == done.model
    &&& after.entities == done.entities
    &&& after.next_id == done.next_id
    &&& after.status == done.status
    &&& after.step_limit == done.step_limit
}

/// Whether `after` and `r` are what a tick of `before` comes to. A
/// simulation that does not run stays as it is. Else the queue is emptied
/// and its events are processed in their order, each as `event_processed`
/// says. Then the tick ends as `tick_ends` says, and the result holds the
/// errors that ended programs or came of work on other entities. Where the
/// central authority fails while an event is processed, the tick ends
/// there and the result is the error.
pub open spec fn ticked(before: Sim, after: Sim, r: Result<Vec<MachineError>, MachineError>) -> bool {
    if before.status != SimStatus::Running {
        after == before && (r matches Ok(errors) && errors@.len() == 0)
    } else {
        exists|begun: Sim| #[trigger]
            tick_begins(before, begun) && (match r {
                Ok(errors) => exists|done: Sim| #[trigger]
                    events_processed(
                        Drain { sim: begun, errors: Seq::empty() },
                        Drain { sim: done, errors: errors@ },
                        before.event_queue@,
                        before.event_queue@.len() as int,
                    ) && tick_ends(done, after),
                Err(e) => exists|n: int, mid: Drain, end: Drain|
                    0 <= n < before.event_queue@.len() && #[trigger] events_processed(
                        Drain { sim: begun, errors: Seq::empty() },
                        mid,
                        before.event_queue@,
                        n,
                    ) && #[trigger] event_processed(mid, end, before.event_queue@[n]@, Err(e))
                        && end.sim == after,
            })
    }
}

impl Sim {
    /// Visits binding `k` of the entity at position `i` for an event: see
    /// `visited`.
    pub fn visit(
        &mut self,
        i: usize,
        k: usize,
        event: &StringId,
        pending: &mut Vec<Pending>,
        errors: &mut Vec<MachineError>,
    )
        requires
            i < old(self).entities@.len(),
            k < old(self).entities@[i as int].entity.components@.len(),
        ensures
            same_but_entities(*final(self), *old(self)),
            same_entities(final(self).entities@, old(self).entities@),
            final(self).entities@[i as int].entity.components@.len() == old(
                self,
            ).entities@[i as int].entity.components@.len(),
            visited(
                Tick { entities: old(self).entities@, pending: old(pending)@, errors: old(errors)@ },
                Tick {
                    entities: final(self).entities@,
                    pending: final(pending)@,
                    errors: final(errors)@,
                },
                i as int,
                k as int,
                event@,
                old(self).model,
                old(self).step_limit,
            ),
    {
        reveal(visited);
        let ghost before = Tick { entities: self.entities@, pending: pending@, errors: errors@ };
        let ghost model = self.model;
        let ghost cap = self.step_limit;
        let name = self.entities[i].entity.components[k].name.clone();
        let hit = match self.model.component_position(&name) {
            Some(p) => {
                if queue_holds(&self.model.components[p].triggers, event) {
                    Some(p)
                } else {
                    None
                }
            },
            None => None,
        };
        match hit {
            Some(p) => {
                let limit = self.step_limit;
                let id = self.entities[i].id;
                let model_ref = &self.model;
                let ent = &mut self.entities[i];
                let mut state = ent.entity.components[k].state.clone();
                let report = run_component(
                    &model_ref.components[p].logic,
                    model_ref,
                    &mut ent.entity.storage,
                    &mut ent.entity.non_serializable,
                    &mut state,
                    &name,
                    &id,
                    limit,
                );
                ent.entity.components[k].state = state;
                let ghost rep = report;
                let ghost work = pending_of(rep, id, name);
                let mut deferred = report.deferred;
                let ghost mut moved: int = 0;
                while deferred.len() > 0
                    invariant
                        0 <= moved <= work.len(),
                        work == pending_of(rep, id, name),
                        deferred@ == rep.deferred@.skip(moved),
                        pending@ == before.pending + work.take(moved),
                    decreases deferred.len(),
                {
                    let item = deferred.remove(0);
                    pending.push(Pending { ent: id, comp: name.clone(), work: item });
                    proof {
                        assert(item == rep.deferred@[moved]);
                        assert(deferred@ =~= rep.deferred@.skip(moved + 1));
                        assert(pending@ =~= before.pending + work.take(moved + 1));
                        moved = moved + 1;
                    }
                }
                proof {
                    assert(work.take(work.len() as int) =~= work);
                }
                match report.error {
                    Some(e) => {
                        errors.push(e);
                    },
                    None => {},
                }
                proof {
                    let now = Tick { entities: self.entities@, pending: pending@, errors: errors@ };
                    assert(now.errors =~= before.errors + error_of(rep));
                    assert(program_ran(before, now, i as int, k as int, model, cap, p as int, rep));
                    assert forall|j: int| 0 <= j < self.entities@.len() implies (
                    #[trigger] self.entities@[j]).id == old(self).entities@[j].id
                        && self.entities@[j].name == old(self).entities@[j].name by {
                        if j != i {
                            assert(self.entities@[j] == before.entities[j]);
                        }
                    }
                }
            },
            None => {},
        }
    }

    /// Runs, for one event, the programs of the components that the event
    /// triggers: for every entity in the order in which the entities stand,
    /// for every component of the entity in the order in which they were
    /// bound; see `entities_visited`. The work that the programs put aside
    /// is added to `pending`, the errors that ended programs to `errors`.
    pub fn run_event(&mut self, event: &StringId, pending: &mut Vec<Pending>, errors: &mut Vec<MachineError>)
        ensures
            same_but_entities(*final(self), *old(self)),
            same_entities(final(self).entities@, old(self).entities@),
            old(self).wf() ==> final(self).wf(),
            entities_visited(
                Tick { entities: old(self).entities@, pending: old(pending)@, errors: old(errors)@ },
                Tick {
                    entities: final(self).entities@,
                    pending: final(pending)@,
                    errors: final(errors)@,
                },
                old(self).entities@.len() as int,
                event@,
                old(self).model,
                old(self).step_limit,
            ),
    {
        let ghost first = Tick { entities: self.entities@, pending: pending@, errors: errors@ };
        let ghost model = self.model;
        let ghost cap = self.step_limit;
        let mut i: usize = 0;
        proof {
            lemma_nothing_visited(first, 0, event@, model, cap);
        }
        while i < self.entities.len()
            invariant
                i <= self.entities@.len(),
                same_but_entities(*self, *old(self)),
                same_entities(self.entities@, old(self).entities@),
                model == old(self).model,
                cap == old(self).step_limit,
                first == (Tick {
                    entities: old(self).entities@,
                    pending: old(pending)@,
                    errors: old(errors)@,
                }),
                entities_visited(
                    first,
                    Tick { entities: self.entities@, pending: pending@, errors: errors@ },
                    i as int,
                    event@,
                    model,
                    cap,
                ),
            decreases self.entities.len() - i,
        {
            let ghost at_entity = Tick { entities: self.entities@, pending: pending@, errors: errors@ };
            let ghost bound = self.entities@[i as int].entity.components@.len();
            let mut k: usize = 0;
            proof {
                lemma_nothing_visited(at_entity, i as int, event@, model, cap);
            }
            while k < self.entities[i].entity.components.len()
                invariant
                    i < self.entities@.len(),
                    k <= bound,
                    bound == self.entities@[i as int].entity.components@.len(),
                    bound == at_entity.entities[i as int].entity.components@.len(),
                    same_but_entities(*self, *old(self)),
                    same_entities(self.entities@, old(self).entities@),
                    model == old(self).model,
                    cap == old(self).step_limit,
                    bindings_visited(
                        at_entity,
                        Tick { entities: self.entities@, pending: pending@, errors: errors@ },
                        i as int,
                        k as int,
                        event@,
                        model,
                        cap,
                    ),
                decreases bound - k,
            {
                let ghost before = Tick { entities: self.entities@, pending: pending@, errors: errors@ };
                self.visit(i, k, event, pending, errors);
                proof {
                    let now = Tick { entities: self.entities@, pending: pending@, errors: errors@ };
                    lemma_binding_visited(at_entity, before, now, i as int, k as int, event@, model, cap);
                }
                k += 1;
            }
            proof {
                let now = Tick { entities: self.entities@, pending: pending@, errors: errors@ };
                lemma_entity_visited(first, at_entity, now, i as int, event@, model, cap);
            }
            i += 1;
        }
        proof {
            if old(self).wf() {
                assert(self.wf());
            }
        }
    }

    /// Does one piece of work: see `work_done`. The result is the error of
    /// the central authority, if it fails.
    pub fn do_work(&mut self, work: Pending, errors: &mut Vec<MachineError>) -> (r: Result<
        (),
        MachineError,
    >)
        ensures
            work_done(
                Drain { sim: *old(self), errors: old(errors)@ },
                Drain { sim: *final(self), errors: final(errors)@ },
                work,
                r,
            ),
            old(self).wf() ==> final(self).wf(),
    {
        let ghost before = Drain { sim: *self, errors: errors@ };
        reveal(work_done);
        match work.work.command {
            Deferred::Central(c) => c.execute(self, &work.ent, &work.comp),
            Deferred::Ext(c) => {
                let x = c.execute(self, &work.ent, &work.comp, &work.work.location);
                let ghost seen = x;
                match x {
                    Ok(_) => {},
                    Err(e) => {
                        errors.push(e);
                    },
                }
                proof {
                    assert(errors@ =~= before.errors + (match seen {
                        Ok(_) => Seq::empty(),
                        Err(e) => seq![e],
                    }));
                    assert(c.ran(before.sim, work.ent, work.work.location, *self, seen));
                }
                Ok(())
            },
        }
    }

    /// Does the work that was put aside, in its order: see `drain_ended`.
    pub fn drain(&mut self, pending: Vec<Pending>, errors: &mut Vec<MachineError>) -> (r: Result<
        (),
        MachineError,
    >)
        ensures
            drain_ended(
                Drain { sim: *old(self), errors: old(errors)@ },
                Drain { sim: *final(self), errors: final(errors)@ },
                pending@,
                r,
            ),
            old(self).wf() ==> final(self).wf(),
    {
        let ghost all = pending@;
        let ghost first = Drain { sim: *self, errors: errors@ };
        let mut rest = pending;
        let ghost mut n: int = 0;
        proof {
            lemma_nothing_drained(first, all);
        }
        while rest.len() > 0
            invariant
                0 <= n <= all.len(),
                all == pending@,
                first == (Drain { sim: *old(self), errors: old(errors)@ }),
                rest@ == all.skip(n),
                drained(first, Drain { sim: *self, errors: errors@ }, all, n),
                old(self).wf() ==> self.wf(),
            decreases rest.len(),
        {
            let ghost before = Drain { sim: *self, errors: errors@ };
            let p = rest.remove(0);
            proof {
                assert(p == all[n]);
                assert(rest@ =~= all.skip(n + 1));
            }
            let r = self.do_work(p, errors);
            match r {
                Ok(u) => {
                    proof {
                        assert(u == ());
                        assert(r == Ok::<(), MachineError>(u));
                        lemma_work_drained(
                            first,
                            before,
                            Drain { sim: *self, errors: errors@ },
                            all,
                            n,
                        );
                        n = n + 1;
                    }
                },
                Err(e) => {
                    proof {
                        let end = Drain { sim: *self, errors: errors@ };
                        assert(drained(first, before, all, n) && work_done(before, end, all[n], Err(e)));
                    }
                    return Err(e);
                },
            }
        }
        proof {
            assert(n == all.len());
        }
        Ok(())
    }

    /// Processes one event: see `event_processed`.
    pub fn process_event(&mut self, event: &StringId, errors: &mut Vec<MachineError>) -> (r: Result<
        (),
        MachineError,
    >)
        ensures
            event_processed(
                Drain { sim: *old(self), errors: old(errors)@ },
                Drain { sim: *final(self), errors: final(errors)@ },
                event@,
                r,
            ),
            old(self).wf() ==> final(self).wf(),
    {
        reveal(event_processed);
        let ghost before = Drain { sim: *self, errors: errors@ };
        let mut pending: Vec<Pending> = Vec::new();
        self.run_event(event, &mut pending, errors);
        let ghost run = Tick { entities: self.entities@, pending: pending@, errors: errors@ };
        let ghost midway = *self;
        let r = self.drain(pending, errors);
        proof {
            assert(programs_run(before, run, midway, event@));
        }
        r
    }

    /// Processes one tick: see `ticked`.
    pub fn step(&mut self) -> (r: Result<Vec<MachineError>, MachineError>)
        ensures
            ticked(*old(self), *final(self), r),
            old(self).wf() ==> final(self).wf(),
    {
        let mut errors: Vec<MachineError> = Vec::new();
        match self.status {
            SimStatus::Running => {},
            _ => {
                return Ok(errors);
            },
        }
        let events = clone_ids(&self.event_queue);
        self.event_queue = Vec::new();
        let ghost begun = *self;
        let ghost first = Drain { sim: begun, errors: Seq::empty() };
        proof {
            assert(names(self.event_queue@) =~= Seq::<Seq<char>>::empty());
            assert(tick_begins(*old(self), begun));
            assert(errors@ =~= Seq::empty());
            lemma_nothing_processed(first, events@);
        }
        let mut n: usize = 0;
        while n < events.len()
            invariant
                n <= events.len(),
                events@ == old(self).event_queue@,
                old(self).status == SimStatus::Running,
                tick_begins(*old(self), begun),
                first == (Drain { sim: begun, errors: Seq::empty() }),
                events_processed(first, Drain { sim: *self, errors: errors@ }, events@, n as int),
                old(self).wf() ==> self.wf(),
            decreases events.len() - n,
        {
            let ghost before = Drain { sim: *self, errors: errors@ };
            let r = self.process_event(&events[n], &mut errors);
            match r {
                Ok(u) => {
                    proof {
                        let now = Drain { sim: *self, errors: errors@ };
                        assert(u == ());
                        assert(r == Ok::<(), MachineError>(u));
                        lemma_event_processed(first, before, now, events@, n as int);
                    }
                },
                Err(e) => {
                    proof {
                        let end = Drain { sim: *self, errors: errors@ };
                        assert(events_processed(first, before, events@, n as int) && event_processed(
                            before,
                            end,
                            events@[n as int]@,
                            Err(e),
                        ));
                    }
                    return Err(e);
                },
            }
            n += 1;
        }
        let ghost done = *self;
        let mut every_tick: Vec<StringId> = Vec::new();
        every_tick.push(default_event());
        proof {
            let one = names(every_tick@);
            assert(one =~= seq![default_event_text()]);
            assert(one.drop_last() =~= Seq::<Seq<char>>::empty());
            assert(one.last() == default_event_text());
            assert(enqueued_all(names(self.event_queue@), one.drop_last()) == names(
                self.event_queue@,
            ));
            assert(enqueued_all(names(self.event_queue@), one) == enqueued(
                names(self.event_queue@),
                default_event_text(),
            ));
            if self.wf() {
                lemma_enqueued_all_no_duplicates(names(self.event_queue@), names(every_tick@));
            }
        }
        enqueue_all(&mut self.event_queue, &every_tick);
        self.clock = after(self.clock);
        proof {
            assert(tick_ends(done, *self));
        }
        Ok(errors)
    }
}

} // verus!
