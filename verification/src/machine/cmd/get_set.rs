//! Commands that reach into the store of another entity.

use vstd::prelude::*;
use crate::address::{Address, AddressView};
use crate::entity::storage::{Key, Storage};
use crate::entity::EntityId;
use crate::machine::cmd::flow::fail;
use crate::machine::error::{is_missing_error, is_other_error, ErrorKind, Result};
use crate::machine::LocationInfo;
use crate::sim::{entity_at, lemma_entity_at, resolved, Sim, SimEntity};
use crate::string::StringId;
use crate::var::{Var, VarView};

verus! {

/// Reads a variable of another entity.
#[derive(Debug, PartialEq)]
pub struct Get {
    pub source: Address,
}

impl Clone for Get {
    fn clone(&self) -> (r: Self)
        ensures
            r == *self,
    {
        Get { source: self.source.clone() }
    }
}

/// Writes to a variable of another entity what a variable of the entity
/// at hand holds.
#[derive(Debug, PartialEq)]
pub struct ExtSet {
    pub target: Address,
    pub source: Address,
}

impl Clone for ExtSet {
    fn clone(&self) -> (r: Self)
        ensures
            r == *self,
    {
        ExtSet { target: self.target.clone(), source: self.source.clone() }
    }
}

/// Writes a value to a variable of another entity.
#[derive(Debug, PartialEq)]
pub struct ExtSetVar {
    pub target: Address,
    pub var: Var,
}

impl View for ExtSetVar {
    type V = (Address, VarView);

    open spec fn view(&self) -> (Address, VarView) {
        (self.target, self.var@)
    }
}

impl Clone for ExtSetVar {
    fn clone(&self) -> (r: Self)
        ensures
            r@ == self@,
    {
        ExtSetVar { target: self.target.clone(), var: self.var.clone() }
    }
}


impl Get {
    /// The address and a copy of the value of the variable that the
    /// command reads, taken from the store of the entity that has it; none
    /// where the store lacks the variable.
    pub fn exec_pre(&self, storage: &Storage, ent_uid: &StringId) -> (r: Option<(Address, Var)>)
        ensures
            match r {
                Some(p) => p.0 == self.source && storage@.contains_key(self.source@.index()) && p.1@
                    == storage@[self.source@.index()],
                None => !storage@.contains_key(self.source@.index()),
            },
    {
        match storage.get_var(&self.source.storage_index(), None) {
            Some(v) => Some((self.source.clone(), v.clone())),
            None => None,
        }
    }
}

/// What a write to a variable of another entity comes to.
pub enum ExtWrite {
    /// The value is written to the store of the entity at the position.
    At(int, Key, VarView),
    /// No entity has the name or the handle.
    NoEntity,
    /// The entity has no variable for the address, or one of another kind
    /// than the address names or than the value has; with the address as
    /// text.
    NoVariable(Seq<char>),
}

/// What the write of a value to the variable of an address comes to. The
/// entity of the address is resolved as `resolved` says. The variable has
/// to be there, of the kind that the address names and that the value has.
pub open spec fn ext_write(entities: Seq<SimEntity>, target: AddressView, value: VarView) -> ExtWrite {
    match resolved(entities, target.entity) {
        None => ExtWrite::NoEntity,
        Some(p) => {
            let store = entities[p].entity.storage@;
            let key = target.index();
            if store.contains_key(key) && store[key].kind() == target.var_type && value.kind()
                == target.var_type {
                ExtWrite::At(p, key, value)
            } else {
                ExtWrite::NoVariable(target.text())
            }
        },
    }
}

/// Whether the simulation went from `before` to `after` by the write, with
/// the result `r`: the one variable is set and nothing else changes, or
/// nothing changes at all and the result is an error at the place given.
pub open spec fn ext_written(
    effect: ExtWrite,
    before: Sim,
    location: LocationInfo,
    after: Sim,
    r: Result<()>,
) -> bool {
    &&& after.model == before.model
    &&& after.event_queue == before.event_queue
    &&& after.next_id == before.next_id
    &&& after.clock == before.clock
    &&& after.status == before.status
    &&& after.step_limit == before.step_limit
    &&& match effect {
        ExtWrite::At(p, key, value) => r is Ok && 0 <= p < before.entities@.len()
            && after.entities@ == before.entities@.update(p, after.entities@[p]) && with_var(
            after.entities@[p],
            before.entities@[p],
            key,
            value,
        ),
        ExtWrite::NoEntity => after.entities@ == before.entities@ && (r matches Err(e)
            && is_other_error(e, location, "no such entity"@)),
        ExtWrite::NoVariable(address) => after.entities@ == before.entities@ && (r matches Err(e)
            && is_missing_error(e, location, address)),
    }
}

/// Whether an entity is another with one variable of its store set.
pub open spec fn with_var(after: SimEntity, before: SimEntity, key: Key, value: VarView) -> bool {
    &&& after.id == before.id
    &&& after.name == before.name
    &&& after.entity.components == before.entity.components
    &&& after.entity.non_serializable == before.entity.non_serializable
    &&& after.entity.storage@ == before.entity.storage@.insert(key, value)
}

fn write_ext(sim: &mut Sim, target: &Address, value: Var, location: &LocationInfo) -> (r: Result<()>)
    ensures
        ext_written(
            ext_write(old(sim).entities@, target@, value@),
            *old(sim),
            *location,
            *final(sim),
            r,
        ),
        old(sim).wf() ==> final(sim).wf(),
{
    let p = match sim.resolve(&target.entity) {
        Some(p) => p,
        None => {
            return fail(location, ErrorKind::Other("no such entity".to_owned()));
        },
    };
    let key = target.storage_index();
    let fits = match sim.entities[p].entity.storage.get_var(&key, None) {
        Some(v) => v.get_type() == target.var_type && value.get_type() == target.var_type,
        None => false,
    };
    if !fits {
        return fail(location, ErrorKind::FailedGettingVariable(target.to_string()));
    }
    let e = sim.entity_mut(p);
    e.entity.storage.put(&key, value);
    Ok(())
}

impl ExtSetVar {
    /// Writes the value to the variable of the address, as `ext_write`
    /// says.
    pub fn execute_ext(&self, sim: &mut Sim, location: &LocationInfo) -> (r: Result<()>)
        ensures
            ext_written(
                ext_write(old(sim).entities@, self.target@, self.var@),
                *old(sim),
                *location,
                *final(sim),
                r,
            ),
            old(sim).wf() ==> final(sim).wf(),
    {
        write_ext(sim, &self.target, self.var.clone(), location)
    }
}

/// The value that an entity has for the source of a write to another
/// entity; none where the entity is not there or lacks the variable.
pub open spec fn ext_source(entities: Seq<SimEntity>, ent: EntityId, source: AddressView) -> Option<
    VarView,
> {
    match entity_at(entities, ent) {
        Some(p) => {
            let store = entities[p].entity.storage@;
            if store.contains_key(source.index()) {
                Some(store[source.index()])
            } else {
                None
            }
        },
        None => None,
    }
}

impl ExtSet {
    /// What `execute_ext` does, asked by the entity `ent`: the value that
    /// this entity has for the source is written to the variable of the
    /// target, as `ext_write` says. Where the entity lacks the source,
    /// nothing changes and the result is an error at the place given.
    pub open spec fn ran_ext(
        self,
        before: Sim,
        ent: EntityId,
        location: LocationInfo,
        after: Sim,
        r: Result<()>,
    ) -> bool {
        match ext_source(before.entities@, ent, self.source@) {
            Some(v) => ext_written(
                ext_write(before.entities@, self.target@, v),
                before,
                location,
                after,
                r,
            ),
            None => ext_written(
                ExtWrite::NoVariable(self.source@.text()),
                before,
                location,
                after,
                r,
            ),
        }
    }

    /// Executes the command in the simulation.
    pub fn execute_ext(
        &self,
        sim: &mut Sim,
        ent_id: &EntityId,
        comp_name: &StringId,
        location: &LocationInfo,
    ) -> (r: Result<()>)
        ensures
            self.ran_ext(*old(sim), *ent_id, *location, *final(sim), r),
            old(sim).wf() ==> final(sim).wf(),
    {
        let value = match sim.entity_position(*ent_id) {
            Some(p) => {
                proof {
                    lemma_entity_at(sim.entities@, *ent_id, p as int);
                }
                match sim.entities[p].entity.storage.get_var(&self.source.storage_index(), None) {
                    Some(v) => Some(v.clone()),
                    None => None,
                }
            },
            None => {
                proof {
                    lemma_entity_at(sim.entities@, *ent_id, sim.entities@.len() as int);
                }
                None
            },
        };
        match value {
            Some(v) => write_ext(sim, &self.target, v, location),
            None => fail(location, ErrorKind::FailedGettingVariable(self.source.to_string())),
        }
    }
}

} // verus!
