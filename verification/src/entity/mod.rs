//! Entities: what takes part in a simulation, each with its own store and
//! the components bound to it.

use vstd::prelude::*;
use crate::entity::storage::{given_or_zero, no_vars, Key, Storage};
use crate::error::{is_other, Error};
use crate::model::{component_names, first_named, ComponentModel, SimModel, VarModel};
use crate::string::{lemma_truncated_keeps_short, truncated, StringId};
use crate::var::VarView;

pub mod storage;

verus! {

/// Handle of an entity.
pub type EntityId = u32;

/// Name of an entity.
pub type EntityName = StringId;

/// Name of a component.
pub type CompName = StringId;

/// Name of a component.
pub type CompId = StringId;

/// State of an entity that is not kept in snapshots: the lines that its
/// programs printed and that were not fetched yet.
#[derive(Debug)]
pub struct EntityNonSer {
    pub output: Vec<String>,
}

/// A component bound to an entity, with the state that it is in.
#[derive(Debug, PartialEq)]
pub struct ComponentBinding {
    pub name: StringId,
    pub state: StringId,
}

/// An entity.
#[derive(Debug)]
pub struct Entity {
    pub storage: Storage,
    pub non_serializable: EntityNonSer,
    pub components: Vec<ComponentBinding>,
}

/// The content of a store after the variables of a component were added,
/// each with its default or, without one, with the zero of its kind.
pub open spec fn vars_added(m: Map<Key, VarView>, comp: Seq<char>, vars: Seq<VarModel>) -> Map<
    Key,
    VarView,
>
    decreases vars.len(),
{
    if vars.len() == 0 {
        m
    } else {
        vars_added(m, comp, vars.drop_last()).insert(
            (comp, truncated(vars.last().id@)),
            given_or_zero(vars.last().default, vars.last().type_),
        )
    }
}

/// The content of a store after the variables of the named components
/// were added, in their order; none where the model lacks one of the
/// components.
pub open spec fn comps_added(
    m: Map<Key, VarView>,
    components: Seq<ComponentModel>,
    names: Seq<StringId>,
) -> Option<Map<Key, VarView>>
    decreases names.len(),
{
    if names.len() == 0 {
        Some(m)
    } else {
        match (
            comps_added(m, components, names.drop_last()),
            first_named(component_names(components), names.last()@),
        ) {
            (Some(before), Some(i)) => Some(vars_added(before, names.last()@, components[i].vars@)),
            _ => None,
        }
    }
}

/// Whether the bindings are those of the named components, each in the
/// state in which the model lets it start.
pub open spec fn bound_to(
    bindings: Seq<ComponentBinding>,
    components: Seq<ComponentModel>,
    names: Seq<StringId>,
) -> bool {
    &&& bindings.len() == names.len()
    &&& forall|k: int|
        0 <= k < names.len() ==> (#[trigger] bindings[k]).name@ == names[k]@ && (first_named(
            component_names(components),
            names[k]@,
        ) matches Some(i) && bindings[k].state@ == components[i].start_state@)
}

impl Entity {
    /// An entity without variables and components.
    pub fn empty() -> (r: Entity)
        ensures
            r.storage@ == no_vars(),
            r.components@.len() == 0,
            r.non_serializable.output@.len() == 0,
    {
        Entity {
            storage: Storage::new(),
            non_serializable: EntityNonSer { output: Vec::new() },
            components: Vec::new(),
        }
    }

    /// An entity with the named components of the model: it has their
    /// variables, and each component is in its start state. Fails where
    /// the model lacks one of the components.
    pub fn with_components(model: &SimModel, names: &Vec<StringId>) -> (r: Result<Entity, Error>)
        ensures
            match r {
                Ok(e) => comps_added(no_vars(), model.components@, names@) == Some(e.storage@)
                    && bound_to(e.components@, model.components@, names@)
                    && e.non_serializable.output@.len() == 0,
                Err(e) => comps_added(no_vars(), model.components@, names@) is None && is_other(
                    e,
                    "the model lacks a component of the prefab"@,
                ),
            },
    {
        let mut entity = Entity::empty();
        let mut n: usize = 0;
        proof {
            assert(names@.take(0) =~= Seq::empty());
        }
        while n < names.len()
            invariant
                n <= names.len(),
                comps_added(no_vars(), model.components@, names@.take(n as int)) == Some(
                    entity.storage@,
                ),
                bound_to(entity.components@, model.components@, names@.take(n as int)),
                entity.non_serializable.output@.len() == 0,
            decreases names.len() - n,
        {
            let ghost upto = names@.take(n + 1);
            proof {
                assert(upto.drop_last() =~= names@.take(n as int));
                assert(upto.last() == names@[n as int]);
            }
            let comp = match model.get_component(&names[n]) {
                Some(c) => c,
                None => {
                    proof {
                        lemma_comps_added_fails(
                            no_vars(),
                            model.components@,
                            names@,
                            n + 1,
                        );
                    }
                    return Err(Error::Other("the model lacks a component of the prefab".to_owned()));
                },
            };
            let ghost before = entity.storage@;
            let ghost bound = entity.components@;
            let mut k: usize = 0;
            proof {
                assert(comp.vars@.take(0) =~= Seq::empty());
            }
            while k < comp.vars.len()
                invariant
                    n < names.len(),
                    k <= comp.vars.len(),
                    entity.storage@ == vars_added(before, names@[n as int]@, comp.vars@.take(k as int)),
                    entity.components@ == bound,
                    entity.non_serializable.output@.len() == 0,
                decreases comp.vars.len() - k,
            {
                let var = &comp.vars[k];
                let default = match &var.default {
                    Some(v) => Some(v.clone()),
                    None => None,
                };
                proof {
                    let next = comp.vars@.take(k + 1);
                    assert(next.drop_last() =~= comp.vars@.take(k as int));
                    assert(next.last() == comp.vars@[k as int]);
                }
                let comp_text = names[n].as_str();
                proof {
                    lemma_truncated_keeps_short(names@[n as int]@);
                }
                entity.storage.insert(comp_text, var.id.as_str(), &var.type_, default);
                k += 1;
            }
            proof {
                assert(comp.vars@.take(comp.vars.len() as int) =~= comp.vars@);
            }
            entity.components.push(
                ComponentBinding { name: names[n].clone(), state: comp.start_state.clone() },
            );
            proof {
                assert forall|j: int| 0 <= j < upto.len() implies (#[trigger] entity.components@[j]).name@
                    == upto[j]@ && (first_named(component_names(model.components@), upto[j]@)
                    matches Some(i) && entity.components@[j].state@
                    == model.components@[i].start_state@) by {
                    if j < n {
                        assert(entity.components@[j] == bound[j]);
                        assert(upto[j] == names@.take(n as int)[j]);
                    }
                }
            }
            n += 1;
        }
        proof {
            assert(names@.take(names.len() as int) =~= names@);
        }
        Ok(entity)
    }
}

/// Once a component is lacking, the variables of no longer list of
/// components can be added.
proof fn lemma_comps_added_fails(
    m: Map<Key, VarView>,
    components: Seq<ComponentModel>,
    names: Seq<StringId>,
    n: int,
)
    requires
        0 <= n <= names.len(),
        comps_added(m, components, names.take(n)) is None,
    ensures
        comps_added(m, components, names) is None,
    decreases names.len() - n,
{
    if n < names.len() {
        let next = names.take(n + 1);
        assert(next.drop_last() =~= names.take(n));
        lemma_comps_added_fails(m, components, names, n + 1);
    } else {
        assert(names.take(n) =~= names);
    }
}

} // verus!
