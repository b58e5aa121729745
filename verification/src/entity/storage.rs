//! The variable store of one entity: a map from (component name, variable
//! name) to a value. The map is an `FnvHashMap`; what it holds is named by
//! `var_map_view`, and the functions here are proved against what the
//! trusted wrappers at the top of this file state of it.

use vstd::prelude::*;
use core::hash::BuildHasherDefault;
use fnv::{FnvHashMap, FnvHasher};
use crate::address::{index_view, Address, LocalAddress, StorageIndex};
use crate::error::Error;
use crate::model::{ComponentModel, VarModel};
use crate::string::{new_truncate, truncated, StringId};
use crate::text::{push_all, str_eq, string_of, texts};
use crate::var::{var_type_text, Float, Int, Var, VarType, VarView};

verus! {

/// The hasher of the `fnv` crate.
#[verifier::external_type_specification]
#[verifier::external_body]
pub struct ExFnvHasher(FnvHasher);

/// The hasher builder of std that `fnv` uses for its maps.
#[verifier::external_type_specification]
#[verifier::external_body]
#[verifier::reject_recursive_types(H)]
pub struct ExBuildHasherDefault<H>(BuildHasherDefault<H>);

/// The key of a variable, as texts.
pub type Key = (Seq<char>, Seq<char>);

/// The content of a store without variables.
pub open spec fn no_vars() -> Map<Key, VarView> {
    Map::empty()
}

/// What a map of variables holds: for each key present, given by the texts
/// of its two names, the content of the value stored under it.
pub uninterp spec fn var_map_view(m: FnvHashMap<StorageIndex, Var>) -> Map<Key, VarView>;

/// An empty map.
///
/// Trusted: `FnvHashMap::default`, which makes a map without entries.
#[verifier::external_body]
fn var_map_new() -> (r: FnvHashMap<StorageIndex, Var>)
    ensures
        var_map_view(r) == no_vars(),
{
    FnvHashMap::default()
}

/// Looks a key up.
///
/// Trusted: `HashMap::get`, which returns the value stored under a key
/// equal to the given one, if there is one. Names are equal when their
/// texts are.
#[verifier::external_body]
fn var_map_get<'a>(m: &'a FnvHashMap<StorageIndex, Var>, idx: &StorageIndex) -> (r: Option<&'a Var>)
    ensures
        match r {
            Some(v) => var_map_view(*m).contains_key(index_view(*idx)) && var_map_view(
                *m,
            )[index_view(*idx)] == v@,
            None => !var_map_view(*m).contains_key(index_view(*idx)),
        },
{
    m.get(idx)
}

/// Looks a key up for writing.
///
/// Trusted: `HashMap::get_mut`, which returns a mutable reference to the
/// value stored under the key, if there is one; what is written through it
/// is what the map holds under that key afterwards, and nothing else
/// changes.
#[verifier::external_body]
fn var_map_get_mut<'a>(m: &'a mut FnvHashMap<StorageIndex, Var>, idx: &StorageIndex) -> (r: Option<
    &'a mut Var,
>)
    ensures
        match r {
            Some(v) => var_map_view(*old(m)).contains_key(index_view(*idx)) && var_map_view(
                *old(m),
            )[index_view(*idx)] == v@ && var_map_view(*final(m)) == var_map_view(*old(m)).insert(
                index_view(*idx),
                final(v)@,
            ),
            None => !var_map_view(*old(m)).contains_key(index_view(*idx)) && var_map_view(
                *final(m),
            ) == var_map_view(*old(m)),
        },
{
    m.get_mut(idx)
}

/// Stores a value under a key, replacing what was there.
///
/// Trusted: `HashMap::insert`.
#[verifier::external_body]
fn var_map_insert(m: &mut FnvHashMap<StorageIndex, Var>, idx: StorageIndex, v: Var)
    ensures
        var_map_view(*final(m)) == var_map_view(*old(m)).insert(index_view(idx), v@),
{
    m.insert(idx, v);
}

/// Removes a key and its value.
///
/// Trusted: `HashMap::remove`.
#[verifier::external_body]
fn var_map_remove(m: &mut FnvHashMap<StorageIndex, Var>, idx: &StorageIndex)
    ensures
        var_map_view(*final(m)) == var_map_view(*old(m)).remove(index_view(*idx)),
{
    m.remove(idx);
}

/// The keys of the map, each once, in the order in which the map walks
/// them. Nothing is stated of that order.
///
/// Trusted: `HashMap::keys`, which visits every key of the map once.
#[verifier::external_body]
fn var_map_keys<'a>(m: &'a FnvHashMap<StorageIndex, Var>) -> (r: Vec<&'a StorageIndex>)
    ensures
        forall|i: int| 0 <= i < r@.len() ==> var_map_view(*m).contains_key(#[trigger] index_view(*r@[i])),
        forall|k: Key| #[trigger]
            var_map_view(*m).contains_key(k) ==> exists|i: int|
                0 <= i < r@.len() && index_view(*r@[i]) == k,
        forall|i: int, j: int|
            0 <= i < j < r@.len() ==> index_view(*r@[i]) != index_view(*r@[j]),
{
    m.keys().collect()
}

/// A copy of the map.
///
/// Trusted: `HashMap::clone`, which copies every entry.
#[verifier::external_body]
fn var_map_clone(m: &FnvHashMap<StorageIndex, Var>) -> (r: FnvHashMap<StorageIndex, Var>)
    ensures
        var_map_view(r) == var_map_view(*m),
{
    m.clone()
}

/// Main data store of the entity.
#[derive(Debug)]
pub struct Storage {
    map: FnvHashMap<StorageIndex, Var>,
}

impl View for Storage {
    type V = Map<Key, VarView>;

    closed spec fn view(&self) -> Map<Key, VarView> {
        var_map_view(self.map)
    }
}

impl Clone for Storage {
    fn clone(&self) -> (r: Self)
        ensures
            r@ == self@,
    {
        Storage { map: var_map_clone(&self.map) }
    }
}

/// The key that an address reads or writes: its variable name under the
/// component `comp`, if one is given, else under its own component.
pub open spec fn key_of(addr: Address, comp: Option<&StringId>) -> Key {
    match comp {
        Some(c) => (c@, addr.var_id@),
        None => (addr.component@, addr.var_id@),
    }
}

impl Storage {
    /// A store without variables.
    pub fn new() -> (r: Self)
        ensures
            r@ == no_vars(),
    {
        Storage { map: var_map_new() }
    }
}

/// Generic type getters.
impl Storage {
    /// The value under `idx`, of whatever kind. `var_type` is not looked at.
    pub fn get_var(&self, idx: &StorageIndex, var_type: Option<VarType>) -> (r: Option<&Var>)
        ensures
            match r {
                Some(v) => self@.contains_key(index_view(*idx)) && self@[index_view(*idx)] == v@,
                None => !self@.contains_key(index_view(*idx)),
            },
    {
        var_map_get(&self.map, idx)
    }

    /// The value under `idx`, for writing. `var_type` is not looked at.
    pub fn get_var_mut(&mut self, idx: &StorageIndex, var_type: Option<VarType>) -> (r: Option<
        &mut Var,
    >)
        ensures
            match r {
                Some(v) => old(self)@.contains_key(index_view(*idx)) && old(self)@[index_view(
                    *idx,
                )] == v@ && final(self)@ == old(self)@.insert(index_view(*idx), final(v)@),
                None => !old(self)@.contains_key(index_view(*idx)) && final(self)@ == old(self)@,
            },
    {
        var_map_get_mut(&mut self.map, idx)
    }

    /// The value that `addr` names, read under the component `comp_uid`
    /// where one is given. The kind in the address is not looked at. Where
    /// the store has no such variable, the error holds the address as text.
    pub fn get_var_from_addr(&self, addr: &Address, comp_uid: Option<&StringId>) -> (r: Result<
        &Var,
        Error,
    >)
        ensures
            match r {
                Ok(v) => self@.contains_key(key_of(*addr, comp_uid)) && self@[key_of(
                    *addr,
                    comp_uid,
                )] == v@,
                Err(e) => !self@.contains_key(key_of(*addr, comp_uid)) && (e
                    matches Error::FailedGettingVariable(m) && m@ == addr@.text()),
            },
    {
        let idx = match comp_uid {
            Some(c) => (c.clone(), addr.var_id.clone()),
            None => (addr.component.clone(), addr.var_id.clone()),
        };
        match var_map_get(&self.map, &idx) {
            Some(v) => Ok(v),
            None => Err(Error::FailedGettingVariable(addr.to_string())),
        }
    }

    /// As `get_var_from_addr`, for writing.
    pub fn get_var_mut_from_addr(&mut self, addr: &Address, comp_uid: Option<&StringId>) -> (r:
        Result<&mut Var, Error>)
        ensures
            match r {
                Ok(v) => old(self)@.contains_key(key_of(*addr, comp_uid)) && old(self)@[key_of(
                    *addr,
                    comp_uid,
                )] == v@ && final(self)@ == old(self)@.insert(key_of(*addr, comp_uid), final(v)@),
                Err(e) => !old(self)@.contains_key(key_of(*addr, comp_uid)) && final(self)@ == old(
                    self,
                )@ && (e matches Error::FailedGettingVariable(m) && m@ == addr@.text()),
            },
    {
        let idx = match comp_uid {
            Some(c) => (c.clone(), addr.var_id.clone()),
            None => (addr.component.clone(), addr.var_id.clone()),
        };
        match var_map_get_mut(&mut self.map, &idx) {
            Some(v) => Ok(v),
            None => Err(Error::FailedGettingVariable(addr.to_string())),
        }
    }
}


/// The value that a write stores where the caller may leave it out: the
/// given one, or the zero of the kind.
pub open spec fn given_or_zero(var: Option<Var>, var_type: VarType) -> VarView {
    match var {
        Some(v) => v@,
        None => VarView::zero(var_type),
    }
}

/// Whether one of the variable models has the name, cut to the length of
/// a `StringId`.
pub open spec fn names_var(vars: Seq<VarModel>, name: Seq<char>) -> bool {
    exists|i: int| 0 <= i < vars.len() && truncated((#[trigger] vars[i]).id@) == name
}

/// The content of a store without the variables of a component that the
/// given variable models name.
pub open spec fn without_vars(m: Map<Key, VarView>, comp: Seq<char>, vars: Seq<VarModel>) -> Map<
    Key,
    VarView,
> {
    Map::new(|k: Key| m.contains_key(k) && !(k.0 == comp && names_var(vars, k.1)), |k: Key| m[k])
}

/// Generic type setters and inserts.
impl Storage {
    /// Copies the value under `source` to `target`. Both addresses name
    /// their component and both variables exist.
    pub fn set_from_local_addr(&mut self, target: &LocalAddress, source: &LocalAddress)
        requires
            target@.index() is Some,
            source@.index() is Some,
            old(self)@.contains_key(target@.index()->0),
            old(self)@.contains_key(source@.index()->0),
        ensures
            final(self)@ == old(self)@.insert(
                target@.index()->0,
                old(self)@[source@.index()->0],
            ),
    {
        let src = source.storage_index().unwrap();
        let dst = target.storage_index().unwrap();
        let var = var_map_get(&self.map, &src).unwrap().clone();
        var_map_insert(&mut self.map, dst, var);
    }

    /// Overwrites the variable that `target` names with a copy of `var`,
    /// whatever the kinds of the two. The variable exists. `comp_uid` is not
    /// looked at.
    pub fn set_from_var(&mut self, target: &Address, comp_uid: Option<&StringId>, var: &Var)
        requires
            old(self)@.contains_key(target@.index()),
        ensures
            final(self)@ == old(self)@.insert(target@.index(), var@),
    {
        var_map_insert(&mut self.map, target.storage_index(), var.clone());
    }

    /// Copies the value under `source` to `target` where both addresses
    /// name their component and both variables exist, and says whether it
    /// did; else the store stays as it is.
    pub fn try_set_from_local_addr(&mut self, target: &LocalAddress, source: &LocalAddress) -> (done:
        bool)
        ensures
            done == (target@.index() is Some && source@.index() is Some && old(self)@.contains_key(
                target@.index()->0,
            ) && old(self)@.contains_key(source@.index()->0)),
            done ==> final(self)@ == old(self)@.insert(
                target@.index()->0,
                old(self)@[source@.index()->0],
            ),
            !done ==> final(self)@ == old(self)@,
    {
        let both = match (target.storage_index(), source.storage_index()) {
            (Some(t), Some(s)) => self.get_var(&t, None).is_some() && self.get_var(&s, None).is_some(),
            _ => false,
        };
        if both {
            self.set_from_local_addr(target, source);
        }
        both
    }

    /// Overwrites the variable that `target` names with a copy of `var`
    /// where the variable exists, and says whether it did; else the store
    /// stays as it is.
    pub fn try_set_from_var(&mut self, target: &Address, var: &Var) -> (done: bool)
        ensures
            done == old(self)@.contains_key(target@.index()),
            done ==> final(self)@ == old(self)@.insert(target@.index(), var@),
            !done ==> final(self)@ == old(self)@,
    {
        let there = self.get_var(&target.storage_index(), None).is_some();
        if there {
            self.set_from_var(target, None, var);
        }
        there
    }

    /// Stores `var` under the two names, or the zero of `var_type` where
    /// `var` is left out. Names are cut to the length of a `StringId`. What
    /// was stored under the key before is replaced.
    pub fn insert(&mut self, comp_name: &str, var_id: &str, var_type: &VarType, var: Option<Var>)
        ensures
            final(self)@ == old(self)@.insert(
                (truncated(comp_name@), truncated(var_id@)),
                given_or_zero(var, *var_type),
            ),
    {
        match var {
            Some(v) => self.insert_var(comp_name, var_id, v),
            None => {
                let idx = (new_truncate(comp_name), new_truncate(var_id));
                var_map_insert(&mut self.map, idx, Var::new(var_type));
            },
        }
    }

    /// Stores `var` under the two names, cut to the length of a `StringId`.
    pub fn insert_var(&mut self, comp_name: &str, var_id: &str, var: Var)
        ensures
            final(self)@ == old(self)@.insert((truncated(comp_name@), truncated(var_id@)), var@),
    {
        let idx = (new_truncate(comp_name), new_truncate(var_id));
        var_map_insert(&mut self.map, idx, var);
    }

    /// Removes the variables of the component `comp_name` that the model
    /// of the component names; all other variables stay.
    pub fn remove_comp_vars(&mut self, comp_name: &StringId, comp_model: &ComponentModel)
        ensures
            final(self)@ == without_vars(old(self)@, comp_name@, comp_model.vars@),
    {
        let mut i: usize = 0;
        proof {
            assert(self@ =~= without_vars(old(self)@, comp_name@, comp_model.vars@.take(0)));
        }
        while i < comp_model.vars.len()
            invariant
                i <= comp_model.vars.len(),
                self@ == without_vars(old(self)@, comp_name@, comp_model.vars@.take(i as int)),
            decreases comp_model.vars.len() - i,
        {
            let idx = (comp_name.clone(), new_truncate(comp_model.vars[i].id.as_str()));
            proof {
                let before = comp_model.vars@.take(i as int);
                let after = comp_model.vars@.take(i + 1);
                assert(after[i as int] == comp_model.vars@[i as int]);
                assert forall|k: Key| names_var(after, k.1) == (names_var(before, k.1) || k.1
                    == truncated(comp_model.vars@[i as int].id@)) by {
                    if names_var(before, k.1) {
                        let j = choose|j: int|
                            0 <= j < before.len() && truncated((#[trigger] before[j]).id@) == k.1;
                        assert(after[j] == before[j]);
                    }
                    if names_var(after, k.1) {
                        let j = choose|j: int|
                            0 <= j < after.len() && truncated((#[trigger] after[j]).id@) == k.1;
                        if j < i {
                            assert(before[j] == after[j]);
                        }
                    }
                }
                assert(without_vars(old(self)@, comp_name@, after) =~= without_vars(
                    old(self)@,
                    comp_name@,
                    before,
                ).remove(index_view(idx)));
            }
            var_map_remove(&mut self.map, &idx);
            i += 1;
        }
        proof {
            assert(comp_model.vars@.take(comp_model.vars.len() as int) =~= comp_model.vars@);
        }
    }

    /// Stores `var` under `idx`, replacing what was there.
    pub fn put(&mut self, idx: &StorageIndex, var: Var)
        ensures
            final(self)@ == old(self)@.insert(index_view(*idx), var@),
    {
        var_map_insert(&mut self.map, (idx.0.clone(), idx.1.clone()), var);
    }

    /// Removes the variable under `idx`, if there is one.
    pub fn remove(&mut self, idx: &StorageIndex)
        ensures
            final(self)@ == old(self)@.remove(index_view(*idx)),
    {
        var_map_remove(&mut self.map, idx);
    }
}

/// Type-strict getters.
impl Storage {
    /// The text under `idx`, if a text is stored there.
    pub fn get_str(&self, idx: &StorageIndex) -> (r: Option<&String>)
        ensures
            match r {
                Some(x) => self@.contains_key(index_view(*idx)) && self@[index_view(*idx)]
                    == VarView::Str(x@),
                None => !self@.contains_key(index_view(*idx)) || !(self@[index_view(*idx)] is Str),
            },
    {
        match var_map_get(&self.map, idx) {
            Some(Var::Str(x)) => Some(x),
            _ => None,
        }
    }

    /// The text under `idx`, for writing: what is written through the
    /// reference is what the store holds there afterwards.
    pub fn get_str_mut(&mut self, idx: &StorageIndex) -> (r: Option<&mut String>)
        ensures
            match r {
                Some(x) => old(self)@.contains_key(index_view(*idx)) && old(self)@[index_view(*idx)]
                    == VarView::Str(x@) && final(self)@ == old(self)@.insert(
                    index_view(*idx),
                    VarView::Str(final(x)@),
                ),
                None => (!old(self)@.contains_key(index_view(*idx)) || !(old(self)@[index_view(
                    *idx,
                )] is Str)) && final(self)@ == old(self)@,
            },
    {
        match var_map_get_mut(&mut self.map, idx) {
            Some(Var::Str(x)) => Some(x),
            _ => {
                proof {
                    let m = old(self)@;
                    let k = index_view(*idx);
                    if m.contains_key(k) {
                        assert(m.insert(k, m[k]) =~= m);
                    }
                }
                None
            },
        }
    }

    /// The integer under `idx`, if an integer is stored there.
    pub fn get_int(&self, idx: &StorageIndex) -> (r: Option<&Int>)
        ensures
            match r {
                Some(x) => self@.contains_key(index_view(*idx)) && self@[index_view(*idx)]
                    == VarView::Int(*x),
                None => !self@.contains_key(index_view(*idx)) || !(self@[index_view(*idx)] is Int),
            },
    {
        match var_map_get(&self.map, idx) {
            Some(Var::Int(x)) => Some(x),
            _ => None,
        }
    }

    /// The integer under `idx`, for writing: what is written through the
    /// reference is what the store holds there afterwards.
    pub fn get_int_mut(&mut self, idx: &StorageIndex) -> (r: Option<&mut Int>)
        ensures
            match r {
                Some(x) => old(self)@.contains_key(index_view(*idx)) && old(self)@[index_view(*idx)]
                    == VarView::Int(*x) && final(self)@ == old(self)@.insert(
                    index_view(*idx),
                    VarView::Int(*final(x)),
                ),
                None => (!old(self)@.contains_key(index_view(*idx)) || !(old(self)@[index_view(
                    *idx,
                )] is Int)) && final(self)@ == old(self)@,
            },
    {
        match var_map_get_mut(&mut self.map, idx) {
            Some(Var::Int(x)) => Some(x),
            _ => {
                proof {
                    let m = old(self)@;
                    let k = index_view(*idx);
                    if m.contains_key(k) {
                        assert(m.insert(k, m[k]) =~= m);
                    }
                }
                None
            },
        }
    }

    /// The floating point number under `idx`, if a floating point number is stored there.
    pub fn get_float(&self, idx: &StorageIndex) -> (r: Option<&Float>)
        ensures
            match r {
                Some(x) => self@.contains_key(index_view(*idx)) && self@[index_view(*idx)]
                    == VarView::Float(*x),
                None => !self@.contains_key(index_view(*idx)) || !(self@[index_view(*idx)] is Float),
            },
    {
        match var_map_get(&self.map, idx) {
            Some(Var::Float(x)) => Some(x),
            _ => None,
        }
    }

    /// The floating point number under `idx`, for writing: what is written through the
    /// reference is what the store holds there afterwards.
    pub fn get_float_mut(&mut self, idx: &StorageIndex) -> (r: Option<&mut Float>)
        ensures
            match r {
                Some(x) => old(self)@.contains_key(index_view(*idx)) && old(self)@[index_view(*idx)]
                    == VarView::Float(*x) && final(self)@ == old(self)@.insert(
                    index_view(*idx),
                    VarView::Float(*final(x)),
                ),
                None => (!old(self)@.contains_key(index_view(*idx)) || !(old(self)@[index_view(
                    *idx,
                )] is Float)) && final(self)@ == old(self)@,
            },
    {
        match var_map_get_mut(&mut self.map, idx) {
            Some(Var::Float(x)) => Some(x),
            _ => {
                proof {
                    let m = old(self)@;
                    let k = index_view(*idx);
                    if m.contains_key(k) {
                        assert(m.insert(k, m[k]) =~= m);
                    }
                }
                None
            },
        }
    }

    /// The truth value under `idx`, if a truth value is stored there.
    pub fn get_bool(&self, idx: &StorageIndex) -> (r: Option<&bool>)
        ensures
            match r {
                Some(x) => self@.contains_key(index_view(*idx)) && self@[index_view(*idx)]
                    == VarView::Bool(*x),
                None => !self@.contains_key(index_view(*idx)) || !(self@[index_view(*idx)] is Bool),
            },
    {
        match var_map_get(&self.map, idx) {
            Some(Var::Bool(x)) => Some(x),
            _ => None,
        }
    }

    /// The truth value under `idx`, for writing: what is written through the
    /// reference is what the store holds there afterwards.
    pub fn get_bool_mut(&mut self, idx: &StorageIndex) -> (r: Option<&mut bool>)
        ensures
            match r {
                Some(x) => old(self)@.contains_key(index_view(*idx)) && old(self)@[index_view(*idx)]
                    == VarView::Bool(*x) && final(self)@ == old(self)@.insert(
                    index_view(*idx),
                    VarView::Bool(*final(x)),
                ),
                None => (!old(self)@.contains_key(index_view(*idx)) || !(old(self)@[index_view(
                    *idx,
                )] is Bool)) && final(self)@ == old(self)@,
            },
    {
        match var_map_get_mut(&mut self.map, idx) {
            Some(Var::Bool(x)) => Some(x),
            _ => {
                proof {
                    let m = old(self)@;
                    let k = index_view(*idx);
                    if m.contains_key(k) {
                        assert(m.insert(k, m[k]) =~= m);
                    }
                }
                None
            },
        }
    }

    /// The byte under `idx`, if a byte is stored there.
    pub fn get_byte(&self, idx: &StorageIndex) -> (r: Option<&u8>)
        ensures
            match r {
                Some(x) => self@.contains_key(index_view(*idx)) && self@[index_view(*idx)]
                    == VarView::Byte(*x),
                None => !self@.contains_key(index_view(*idx)) || !(self@[index_view(*idx)] is Byte),
            },
    {
        match var_map_get(&self.map, idx) {
            Some(Var::Byte(x)) => Some(x),
            _ => None,
        }
    }

    /// The byte under `idx`, for writing: what is written through the
    /// reference is what the store holds there afterwards.
    pub fn get_byte_mut(&mut self, idx: &StorageIndex) -> (r: Option<&mut u8>)
        ensures
            match r {
                Some(x) => old(self)@.contains_key(index_view(*idx)) && old(self)@[index_view(*idx)]
                    == VarView::Byte(*x) && final(self)@ == old(self)@.insert(
                    index_view(*idx),
                    VarView::Byte(*final(x)),
                ),
                None => (!old(self)@.contains_key(index_view(*idx)) || !(old(self)@[index_view(
                    *idx,
                )] is Byte)) && final(self)@ == old(self)@,
            },
    {
        match var_map_get_mut(&mut self.map, idx) {
            Some(Var::Byte(x)) => Some(x),
            _ => {
                proof {
                    let m = old(self)@;
                    let k = index_view(*idx);
                    if m.contains_key(k) {
                        assert(m.insert(k, m[k]) =~= m);
                    }
                }
                None
            },
        }
    }
}

/// Type-strict getters for lists.
impl Storage {
    /// The list of texts under `idx`, if a list of texts is stored there.
    pub fn get_str_list(&self, idx: &StorageIndex) -> (r: Option<&Vec<String>>)
        ensures
            match r {
                Some(x) => self@.contains_key(index_view(*idx)) && self@[index_view(*idx)]
                    == VarView::StrList(texts(x@)),
                None => !self@.contains_key(index_view(*idx)) || !(self@[index_view(*idx)] is StrList),
            },
    {
        match var_map_get(&self.map, idx) {
            Some(Var::StrList(x)) => Some(x),
            _ => None,
        }
    }

    /// The list of texts under `idx`, for writing: what is written through the
    /// reference is what the store holds there afterwards.
    pub fn get_str_list_mut(&mut self, idx: &StorageIndex) -> (r: Option<&mut Vec<String>>)
        ensures
            match r {
                Some(x) => old(self)@.contains_key(index_view(*idx)) && old(self)@[index_view(*idx)]
                    == VarView::StrList(texts(x@)) && final(self)@ == old(self)@.insert(
                    index_view(*idx),
                    VarView::StrList(texts(final(x)@)),
                ),
                None => (!old(self)@.contains_key(index_view(*idx)) || !(old(self)@[index_view(
                    *idx,
                )] is StrList)) && final(self)@ == old(self)@,
            },
    {
        match var_map_get_mut(&mut self.map, idx) {
            Some(Var::StrList(x)) => Some(x),
            _ => {
                proof {
                    let m = old(self)@;
                    let k = index_view(*idx);
                    if m.contains_key(k) {
                        assert(m.insert(k, m[k]) =~= m);
                    }
                }
                None
            },
        }
    }

    /// The list of integers under `idx`, if a list of integers is stored there.
    pub fn get_int_list(&self, idx: &StorageIndex) -> (r: Option<&Vec<Int>>)
        ensures
            match r {
                Some(x) => self@.contains_key(index_view(*idx)) && self@[index_view(*idx)]
                    == VarView::IntList(x@),
                None => !self@.contains_key(index_view(*idx)) || !(self@[index_view(*idx)] is IntList),
            },
    {
        match var_map_get(&self.map, idx) {
            Some(Var::IntList(x)) => Some(x),
            _ => None,
        }
    }

    /// The list of integers under `idx`, for writing: what is written through the
    /// reference is what the store holds there afterwards.
    pub fn get_int_list_mut(&mut self, idx: &StorageIndex) -> (r: Option<&mut Vec<Int>>)
        ensures
            match r {
                Some(x) => old(self)@.contains_key(index_view(*idx)) && old(self)@[index_view(*idx)]
                    == VarView::IntList(x@) && final(self)@ == old(self)@.insert(
                    index_view(*idx),
                    VarView::IntList(final(x)@),
                ),
                None => (!old(self)@.contains_key(index_view(*idx)) || !(old(self)@[index_view(
                    *idx,
                )] is IntList)) && final(self)@ == old(self)@,
            },
    {
        match var_map_get_mut(&mut self.map, idx) {
            Some(Var::IntList(x)) => Some(x),
            _ => {
                proof {
                    let m = old(self)@;
                    let k = index_view(*idx);
                    if m.contains_key(k) {
                        assert(m.insert(k, m[k]) =~= m);
                    }
                }
                None
            },
        }
    }

    /// The list of floating point numbers under `idx`, if a list of floating point numbers is stored there.
    pub fn get_float_list(&self, idx: &StorageIndex) -> (r: Option<&Vec<Float>>)
        ensures
            match r {
                Some(x) => self@.contains_key(index_view(*idx)) && self@[index_view(*idx)]
                    == VarView::FloatList(x@),
                None => !self@.contains_key(index_view(*idx)) || !(self@[index_view(*idx)] is FloatList),
            },
    {
        match var_map_get(&self.map, idx) {
            Some(Var::FloatList(x)) => Some(x),
            _ => None,
        }
    }

    /// The list of floating point numbers under `idx`, for writing: what is written through the
    /// reference is what the store holds there afterwards.
    pub fn get_float_list_mut(&mut self, idx: &StorageIndex) -> (r: Option<&mut Vec<Float>>)
        ensures
            match r {
                Some(x) => old(self)@.contains_key(index_view(*idx)) && old(self)@[index_view(*idx)]
                    == VarView::FloatList(x@) && final(self)@ == old(self)@.insert(
                    index_view(*idx),
                    VarView::FloatList(final(x)@),
                ),
                None => (!old(self)@.contains_key(index_view(*idx)) || !(old(self)@[index_view(
                    *idx,
                )] is FloatList)) && final(self)@ == old(self)@,
            },
    {
        match var_map_get_mut(&mut self.map, idx) {
            Some(Var::FloatList(x)) => Some(x),
            _ => {
                proof {
                    let m = old(self)@;
                    let k = index_view(*idx);
                    if m.contains_key(k) {
                        assert(m.insert(k, m[k]) =~= m);
                    }
                }
                None
            },
        }
    }

    /// The list of truth values under `idx`, if a list of truth values is stored there.
    pub fn get_bool_list(&self, idx: &StorageIndex) -> (r: Option<&Vec<bool>>)
        ensures
            match r {
                Some(x) => self@.contains_key(index_view(*idx)) && self@[index_view(*idx)]
                    == VarView::BoolList(x@),
                None => !self@.contains_key(index_view(*idx)) || !(self@[index_view(*idx)] is BoolList),
            },
    {
        match var_map_get(&self.map, idx) {
            Some(Var::BoolList(x)) => Some(x),
            _ => None,
        }
    }

    /// The list of truth values under `idx`, for writing: what is written through the
    /// reference is what the store holds there afterwards.
    pub fn get_bool_list_mut(&mut self, idx: &StorageIndex) -> (r: Option<&mut Vec<bool>>)
        ensures
            match r {
                Some(x) => old(self)@.contains_key(index_view(*idx)) && old(self)@[index_view(*idx)]
                    == VarView::BoolList(x@) && final(self)@ == old(self)@.insert(
                    index_view(*idx),
                    VarView::BoolList(final(x)@),
                ),
                None => (!old(self)@.contains_key(index_view(*idx)) || !(old(self)@[index_view(
                    *idx,
                )] is BoolList)) && final(self)@ == old(self)@,
            },
    {
        match var_map_get_mut(&mut self.map, idx) {
            Some(Var::BoolList(x)) => Some(x),
            _ => {
                proof {
                    let m = old(self)@;
                    let k = index_view(*idx);
                    if m.contains_key(k) {
                        assert(m.insert(k, m[k]) =~= m);
                    }
                }
                None
            },
        }
    }

    /// The list of bytes under `idx`, if a list of bytes is stored there.
    pub fn get_byte_list(&self, idx: &StorageIndex) -> (r: Option<&Vec<u8>>)
        ensures
            match r {
                Some(x) => self@.contains_key(index_view(*idx)) && self@[index_view(*idx)]
                    == VarView::ByteList(x@),
                None => !self@.contains_key(index_view(*idx)) || !(self@[index_view(*idx)] is ByteList),
            },
    {
        match var_map_get(&self.map, idx) {
            Some(Var::ByteList(x)) => Some(x),
            _ => None,
        }
    }

    /// The list of bytes under `idx`, for writing: what is written through the
    /// reference is what the store holds there afterwards.
    pub fn get_byte_list_mut(&mut self, idx: &StorageIndex) -> (r: Option<&mut Vec<u8>>)
        ensures
            match r {
                Some(x) => old(self)@.contains_key(index_view(*idx)) && old(self)@[index_view(*idx)]
                    == VarView::ByteList(x@) && final(self)@ == old(self)@.insert(
                    index_view(*idx),
                    VarView::ByteList(final(x)@),
                ),
                None => (!old(self)@.contains_key(index_view(*idx)) || !(old(self)@[index_view(
                    *idx,
                )] is ByteList)) && final(self)@ == old(self)@,
            },
    {
        match var_map_get_mut(&mut self.map, idx) {
            Some(Var::ByteList(x)) => Some(x),
            _ => {
                proof {
                    let m = old(self)@;
                    let k = index_view(*idx);
                    if m.contains_key(k) {
                        assert(m.insert(k, m[k]) =~= m);
                    }
                }
                None
            },
        }
    }
}

/// Type-strict inserts.
impl Storage {
    /// Stores the integer `val` under `idx`, replacing what was there.
    pub fn insert_int(&mut self, idx: &StorageIndex, val: Int)
        ensures
            final(self)@ == old(self)@.insert(index_view(*idx), VarView::Int(val)),
    {
        var_map_insert(&mut self.map, (idx.0.clone(), idx.1.clone()), Var::Int(val));
    }

    /// Stores the list of integers `val` under `idx`, replacing what was
    /// there.
    pub fn insert_int_list(&mut self, idx: &StorageIndex, val: Vec<Int>)
        ensures
            final(self)@ == old(self)@.insert(index_view(*idx), VarView::IntList(val@)),
    {
        var_map_insert(&mut self.map, (idx.0.clone(), idx.1.clone()), Var::IntList(val));
    }
}


/// Whether a value is of the wanted kind; any kind will do where none is
/// asked for.
pub open spec fn wanted(v: VarView, kind: Option<VarType>) -> bool {
    kind is None || v.kind() == kind->0
}

/// Whether `keys` lists the keys of the variables of `m` that are of the
/// wanted kind: all of them, no others, each once.
pub open spec fn lists_exactly(keys: Seq<Key>, m: Map<Key, VarView>, kind: Option<VarType>) -> bool {
    &&& forall|i: int| 0 <= i < keys.len() ==> m.contains_key(#[trigger] keys[i]) && wanted(m[keys[i]], kind)
    &&& forall|k: Key| #[trigger] m.contains_key(k) && wanted(m[k], kind) ==> keys.contains(k)
    &&& keys.no_duplicates()
}

/// The texts of a sequence of borrowed keys.
pub open spec fn key_views(keys: Seq<&StorageIndex>) -> Seq<Key> {
    Seq::new(keys.len(), |i: int| index_view(*keys[i]))
}

/// The name under which the text form of a variable is listed: component,
/// kind and variable name, separated by colons.
pub open spec fn entry_name(k: Key, kind: VarType) -> Seq<char> {
    k.0 + seq![':'] + var_type_text(kind) + seq![':'] + k.1
}

impl Storage {
    /// The keys of the variables of the wanted kind, each once, in no
    /// particular order.
    fn select(&self, kind: Option<VarType>) -> (r: Vec<&StorageIndex>)
        ensures
            lists_exactly(key_views(r@), self@, kind),
    {
        let keys = var_map_keys(&self.map);
        let ghost m = self@;
        let ghost kv = key_views(keys@);
        let mut out: Vec<&StorageIndex> = Vec::new();
        let ghost mut picked: Seq<int> = Seq::empty();
        let mut i: usize = 0;
        while i < keys.len()
            invariant
                i <= keys.len(),
                m == self@,
                m == var_map_view(self.map),
                kv == key_views(keys@),
                forall|p: int| 0 <= p < keys@.len() ==> m.contains_key(#[trigger] index_view(*keys@[p])),
                out@.len() == picked.len(),
                forall|j: int|
                    0 <= j < picked.len() ==> 0 <= #[trigger] picked[j] < i && index_view(*out@[j])
                        == kv[picked[j]] && wanted(m[kv[picked[j]]], kind),
                forall|a: int, b: int| 0 <= a < b < picked.len() ==> picked[a] < picked[b],
                forall|p: int| 0 <= p < i && wanted(m[#[trigger] kv[p]], kind) ==> picked.contains(p),
            decreases keys.len() - i,
        {
            let key = keys[i];
            let take = match kind {
                None => true,
                Some(t) => {
                    let v = var_map_get(&self.map, key).unwrap();
                    v.get_type() == t
                },
            };
            proof {
                assert(kv[i as int] == index_view(*key));
            }
            if take {
                let ghost before = picked;
                out.push(key);
                proof {
                    picked = picked.push(i as int);
                    assert forall|p: int| 0 <= p < i + 1 && wanted(m[#[trigger] kv[p]], kind) implies picked.contains(
                        p,
                    ) by {
                        if p < i {
                            let j = choose|j: int| 0 <= j < before.len() && before[j] == p;
                            assert(picked[j] == p);
                        } else {
                            assert(picked[before.len() as int] == p);
                        }
                    }
                }
            }
            i += 1;
        }
        proof {
            let ks = key_views(out@);
            assert forall|k: Key| #[trigger] m.contains_key(k) && wanted(m[k], kind) implies ks.contains(
                k,
            ) by {
                let p = choose|p: int| 0 <= p < keys@.len() && index_view(*keys@[p]) == k;
                assert(kv[p] == k);
                assert(picked.contains(p));
                let j = choose|j: int| 0 <= j < picked.len() && picked[j] == p;
                assert(ks[j] == k);
            }
            assert forall|a: int, b: int| 0 <= a < b < ks.len() implies ks[a] != ks[b] by {
                assert(picked[a] < picked[b]);
                assert(index_view(*keys@[picked[a]]) != index_view(*keys@[picked[b]]));
            }
            assert forall|j: int| 0 <= j < ks.len() implies m.contains_key(#[trigger] ks[j]) && wanted(
                m[ks[j]],
                kind,
            ) by {
                assert(ks[j] == kv[picked[j]]);
                assert(kv[picked[j]] == index_view(*keys@[picked[j]]));
            }
        }
        out
    }
}

/// The keys of a sequence of handles.
pub open spec fn handle_keys(h: Seq<(StringId, VarType, StringId)>) -> Seq<Key> {
    Seq::new(h.len(), |i: int| (h[i].0@, h[i].2@))
}

/// Handle getters.
impl Storage {
    /// The component name, kind and variable name of every variable, each
    /// variable once, in no particular order.
    pub fn get_all_handles(&self) -> (r: Vec<(StringId, VarType, StringId)>)
        ensures
            lists_exactly(handle_keys(r@), self@, None),
            forall|i: int| 0 <= i < r@.len() ==> (#[trigger] r@[i]).1 == self@[handle_keys(r@)[i]].kind(),
    {
        self.handles(None)
    }

    /// As `get_all_handles`, for the variables of one kind only.
    pub fn get_all_handles_of_type(&self, var_type: VarType) -> (r: Vec<
        (StringId, VarType, StringId),
    >)
        ensures
            lists_exactly(handle_keys(r@), self@, Some(var_type)),
            forall|i: int| 0 <= i < r@.len() ==> (#[trigger] r@[i]).1 == var_type,
    {
        self.handles(Some(var_type))
    }

    fn handles(&self, kind: Option<VarType>) -> (r: Vec<(StringId, VarType, StringId)>)
        ensures
            lists_exactly(handle_keys(r@), self@, kind),
            forall|i: int| 0 <= i < r@.len() ==> (#[trigger] r@[i]).1 == self@[handle_keys(r@)[i]].kind(),
    {
        let keys = self.select(kind);
        let ghost ks = key_views(keys@);
        let mut out: Vec<(StringId, VarType, StringId)> = Vec::new();
        let mut i: usize = 0;
        while i < keys.len()
            invariant
                i <= keys.len(),
                ks == key_views(keys@),
                lists_exactly(ks, self@, kind),
                self@ == var_map_view(self.map),
                out@.len() == i,
                forall|j: int| 0 <= j < i ==> (#[trigger] out@[j]).0@ == ks[j].0 && out@[j].2@ == ks[j].1
                    && out@[j].1 == self@[ks[j]].kind(),
            decreases keys.len() - i,
        {
            let key = keys[i];
            proof {
                assert(ks[i as int] == index_view(*key));
            }
            let v = var_map_get(&self.map, key).unwrap();
            out.push((key.0.clone(), v.get_type(), key.1.clone()));
            i += 1;
        }
        proof {
            assert(handle_keys(out@) =~= ks);
        }
        out
    }
}

/// Type collection getters.
impl Storage {
    /// The map that holds the variables.
    pub fn get_all_var(&self) -> (r: &FnvHashMap<StorageIndex, Var>)
        ensures
            var_map_view(*r) == self@,
    {
        &self.map
    }

    /// Every variable with its key and a copy of its value, each once, in
    /// no particular order.
    pub fn entries(&self) -> (r: Vec<(StorageIndex, Var)>)
        ensures
            lists_exactly(entry_keys(r@), self@, None),
            forall|i: int| 0 <= i < r@.len() ==> (#[trigger] r@[i]).1@ == self@[entry_keys(r@)[i]],
    {
        let keys = self.select(None);
        let ghost ks = key_views(keys@);
        let mut out: Vec<(StorageIndex, Var)> = Vec::new();
        let mut i: usize = 0;
        while i < keys.len()
            invariant
                i <= keys.len(),
                ks == key_views(keys@),
                lists_exactly(ks, self@, None),
                self@ == var_map_view(self.map),
                out@.len() == i,
                forall|j: int| 0 <= j < i ==> index_view((#[trigger] out@[j]).0) == ks[j] && out@[j].1@
                    == self@[ks[j]],
            decreases keys.len() - i,
        {
            let key = keys[i];
            proof {
                assert(ks[i as int] == index_view(*key));
            }
            let v = var_map_get(&self.map, key).unwrap();
            out.push(((key.0.clone(), key.1.clone()), v.clone()));
            i += 1;
        }
        proof {
            assert(entry_keys(out@) =~= ks);
        }
        out
    }

    /// The store that holds the given entries. Of two entries with the same
    /// key the later one stays.
    pub fn from_entries(entries: &Vec<(StorageIndex, Var)>) -> (r: Storage)
        ensures
            r@ == filled(no_vars(), entries@),
    {
        let mut out = Storage::new();
        let mut i: usize = 0;
        proof {
            assert(entries@.take(0) =~= Seq::empty());
        }
        while i < entries.len()
            invariant
                i <= entries.len(),
                out@ == filled(no_vars(), entries@.take(i as int)),
            decreases entries.len() - i,
        {
            let e = &entries[i];
            proof {
                let next = entries@.take(i + 1);
                assert(next.drop_last() =~= entries@.take(i as int));
                assert(next.last() == entries@[i as int]);
            }
            var_map_insert(&mut out.map, (e.0.0.clone(), e.0.1.clone()), e.1.clone());
            i += 1;
        }
        proof {
            assert(entries@.take(entries.len() as int) =~= entries@);
        }
        out
    }

    /// The variables that hold texts, each once with its key and its
    /// value, in no particular order.
    pub fn get_all_str(&self) -> (r: Vec<(&StorageIndex, &String)>)
        ensures
            lists_exactly(pair_keys(r@), self@, Some(VarType::Str)),
            forall|i: int| 0 <= i < r@.len() ==> self@[pair_keys(r@)[i]] == VarView::Str((#[trigger] r@[i]).1@),
    {
        let keys = self.select(Some(VarType::Str));
        let ghost ks = key_views(keys@);
        let mut out: Vec<(&StorageIndex, &String)> = Vec::new();
        let mut i: usize = 0;
        while i < keys.len()
            invariant
                i <= keys.len(),
                ks == key_views(keys@),
                lists_exactly(ks, self@, Some(VarType::Str)),
                self@ == var_map_view(self.map),
                out@.len() == i,
                forall|j: int| 0 <= j < i ==> index_view(*(#[trigger] out@[j]).0) == ks[j] && self@[ks[j]]
                    == VarView::Str(out@[j].1@),
            decreases keys.len() - i,
        {
            let key = keys[i];
            proof {
                assert(ks[i as int] == index_view(*key));
            }
            match var_map_get(&self.map, key) {
                Some(Var::Str(x)) => {
                    out.push((key, x));
                },
                _ => {
                    proof {
                        assert(false);
                    }
                },
            }
            i += 1;
        }
        proof {
            assert(pair_keys(out@) =~= ks);
        }
        out
    }

    /// The variables that hold integers, each once with its key and its
    /// value, in no particular order.
    pub fn get_all_int(&self) -> (r: Vec<(&StorageIndex, &Int)>)
        ensures
            lists_exactly(pair_keys(r@), self@, Some(VarType::Int)),
            forall|i: int| 0 <= i < r@.len() ==> self@[pair_keys(r@)[i]] == VarView::Int(*(#[trigger] r@[i]).1),
    {
        let keys = self.select(Some(VarType::Int));
        let ghost ks = key_views(keys@);
        let mut out: Vec<(&StorageIndex, &Int)> = Vec::new();
        let mut i: usize = 0;
        while i < keys.len()
            invariant
                i <= keys.len(),
                ks == key_views(keys@),
                lists_exactly(ks, self@, Some(VarType::Int)),
                self@ == var_map_view(self.map),
                out@.len() == i,
                forall|j: int| 0 <= j < i ==> index_view(*(#[trigger] out@[j]).0) == ks[j] && self@[ks[j]]
                    == VarView::Int(*out@[j].1),
            decreases keys.len() - i,
        {
            let key = keys[i];
            proof {
                assert(ks[i as int] == index_view(*key));
            }
            match var_map_get(&self.map, key) {
                Some(Var::Int(x)) => {
                    out.push((key, x));
                },
                _ => {
                    proof {
                        assert(false);
                    }
                },
            }
            i += 1;
        }
        proof {
            assert(pair_keys(out@) =~= ks);
        }
        out
    }

    /// The variables that hold floating point numbers, each once with its key and its
    /// value, in no particular order.
    pub fn get_all_float(&self) -> (r: Vec<(&StorageIndex, &Float)>)
        ensures
            lists_exactly(pair_keys(r@), self@, Some(VarType::Float)),
            forall|i: int| 0 <= i < r@.len() ==> self@[pair_keys(r@)[i]] == VarView::Float(*(#[trigger] r@[i]).1),
    {
        let keys = self.select(Some(VarType::Float));
        let ghost ks = key_views(keys@);
        let mut out: Vec<(&StorageIndex, &Float)> = Vec::new();
        let mut i: usize = 0;
        while i < keys.len()
            invariant
                i <= keys.len(),
                ks == key_views(keys@),
                lists_exactly(ks, self@, Some(VarType::Float)),
                self@ == var_map_view(self.map),
                out@.len() == i,
                forall|j: int| 0 <= j < i ==> index_view(*(#[trigger] out@[j]).0) == ks[j] && self@[ks[j]]
                    == VarView::Float(*out@[j].1),
            decreases keys.len() - i,
        {
            let key = keys[i];
            proof {
                assert(ks[i as int] == index_view(*key));
            }
            match var_map_get(&self.map, key) {
                Some(Var::Float(x)) => {
                    out.push((key, x));
                },
                _ => {
                    proof {
                        assert(false);
                    }
                },
            }
            i += 1;
        }
        proof {
            assert(pair_keys(out@) =~= ks);
        }
        out
    }

    /// The variables that hold truth values, each once with its key and its
    /// value, in no particular order.
    pub fn get_all_bool(&self) -> (r: Vec<(&StorageIndex, &bool)>)
        ensures
            lists_exactly(pair_keys(r@), self@, Some(VarType::Bool)),
            forall|i: int| 0 <= i < r@.len() ==> self@[pair_keys(r@)[i]] == VarView::Bool(*(#[trigger] r@[i]).1),
    {
        let keys = self.select(Some(VarType::Bool));
        let ghost ks = key_views(keys@);
        let mut out: Vec<(&StorageIndex, &bool)> = Vec::new();
        let mut i: usize = 0;
        while i < keys.len()
            invariant
                i <= keys.len(),
                ks == key_views(keys@),
                lists_exactly(ks, self@, Some(VarType::Bool)),
                self@ == var_map_view(self.map),
                out@.len() == i,
                forall|j: int| 0 <= j < i ==> index_view(*(#[trigger] out@[j]).0) == ks[j] && self@[ks[j]]
                    == VarView::Bool(*out@[j].1),
            decreases keys.len() - i,
        {
            let key = keys[i];
            proof {
                assert(ks[i as int] == index_view(*key));
            }
            match var_map_get(&self.map, key) {
                Some(Var::Bool(x)) => {
                    out.push((key, x));
                },
                _ => {
                    proof {
                        assert(false);
                    }
                },
            }
            i += 1;
        }
        proof {
            assert(pair_keys(out@) =~= ks);
        }
        out
    }
}

/// The keys of a sequence of borrowed pairs.
pub open spec fn pair_keys<T>(pairs: Seq<(&StorageIndex, &T)>) -> Seq<Key> {
    Seq::new(pairs.len(), |i: int| index_view(*pairs[i].0))
}

/// The keys of a sequence of entries.
pub open spec fn entry_keys(e: Seq<(StorageIndex, Var)>) -> Seq<Key> {
    Seq::new(e.len(), |i: int| index_view(e[i].0))
}

/// The content of a store after the entries were stored in it, one after
/// the other.
pub open spec fn filled(m: Map<Key, VarView>, entries: Seq<(StorageIndex, Var)>) -> Map<Key, VarView>
    decreases entries.len(),
{
    if entries.len() == 0 {
        m
    } else {
        filled(m, entries.drop_last()).insert(index_view(entries.last().0), entries.last().1@)
    }
}


/// Entries that list a store give the store back.
pub proof fn lemma_entries_round_trip(m: Map<Key, VarView>, entries: Seq<(StorageIndex, Var)>)
    requires
        lists_exactly(entry_keys(entries), m, None),
        forall|i: int| 0 <= i < entries.len() ==> (#[trigger] entries[i]).1@ == m[entry_keys(entries)[i]],
    ensures
        filled(no_vars(), entries) == m,
{
    lemma_filled_prefix(m, entries, entries.len() as int);
    assert(entries.take(entries.len() as int) =~= entries);
    let got = filled(no_vars(), entries);
    let ks = entry_keys(entries);
    assert forall|k: Key| got.contains_key(k) == m.contains_key(k) by {
        if m.contains_key(k) {
            assert(ks.contains(k));
            let j = choose|j: int| 0 <= j < ks.len() && ks[j] == k;
            assert(index_view(entries[j].0) == k);
        }
        if got.contains_key(k) {
            let j = choose|j: int| 0 <= j < entries.len() && index_view(entries[j].0) == k;
            assert(ks[j] == k);
        }
    }
    assert(got =~= m);
}

/// The first `n` of the entries that list a store fill a store with
/// exactly their own variables.
proof fn lemma_filled_prefix(m: Map<Key, VarView>, entries: Seq<(StorageIndex, Var)>, n: int)
    requires
        0 <= n <= entries.len(),
        forall|i: int| 0 <= i < entries.len() ==> (#[trigger] entries[i]).1@ == m[index_view(
            entries[i].0,
        )],
        forall|i: int| 0 <= i < entries.len() ==> m.contains_key(index_view((#[trigger] entries[i]).0)),
    ensures
        forall|k: Key| #[trigger]
            filled(no_vars(), entries.take(n)).contains_key(k) <==> exists|j: int|
                0 <= j < n && index_view(entries[j].0) == k,
        forall|k: Key| #[trigger]
            filled(no_vars(), entries.take(n)).contains_key(k) ==> filled(
                no_vars(),
                entries.take(n),
            )[k] == m[k],
    decreases n,
{
    if n == 0 {
        assert(entries.take(0) =~= Seq::empty());
    } else {
        lemma_filled_prefix(m, entries, n - 1);
        let cur = entries.take(n);
        assert(cur.drop_last() =~= entries.take(n - 1));
        assert(cur.last() == entries[n - 1]);
        let before = filled(no_vars(), entries.take(n - 1));
        let after = filled(no_vars(), cur);
        assert(after == before.insert(index_view(entries[n - 1].0), entries[n - 1].1@));
        assert forall|k: Key| #[trigger] after.contains_key(k) <==> exists|j: int|
            0 <= j < n && index_view(entries[j].0) == k by {
            if after.contains_key(k) {
                if k == index_view(entries[n - 1].0) {
                } else {
                    assert(before.contains_key(k));
                    let j = choose|j: int| 0 <= j < n - 1 && index_view(entries[j].0) == k;
                    assert(0 <= j < n && index_view(entries[j].0) == k);
                }
            }
            if exists|j: int| 0 <= j < n && index_view(entries[j].0) == k {
                let j = choose|j: int| 0 <= j < n && index_view(entries[j].0) == k;
                if j < n - 1 {
                    assert(before.contains_key(k));
                }
            }
        }
    }
}


/// Whether the pair is the name and the text form of the variable under
/// key `k`.
pub open spec fn lists_var(p: (String, String), k: Key, m: Map<Key, VarView>) -> bool {
    m.contains_key(k) && p.0@ == entry_name(k, m[k].kind()) && p.1@ == m[k].text()
}

/// Whether the pair is the name and the text form of a variable of `m`.
pub open spec fn is_listed(p: (String, String), m: Map<Key, VarView>) -> bool {
    exists|k: Key| lists_var(p, k, m)
}

/// Whether the pair goes under the given name.
pub open spec fn is_named(p: (String, String), name: Seq<char>) -> bool {
    p.0@ == name
}

/// Whether `listed` gives the names and the text forms of the variables
/// of `m` as a map from names would: every pair is the name and the text
/// of a variable, the name of every variable is there, and no name is
/// there twice.
pub open spec fn coerced(listed: Seq<(String, String)>, m: Map<Key, VarView>) -> bool {
    &&& forall|i: int|
        0 <= i < listed.len() ==> is_listed(#[trigger] listed[i], m)
    &&& forall|k: Key| #[trigger]
        m.contains_key(k) ==> exists|i: int|
            0 <= i < listed.len() && is_named(#[trigger] listed[i], entry_name(k, m[k].kind()))
    &&& forall|i: int, j: int|
        0 <= i < j < listed.len() ==> !is_named(#[trigger] listed[i], (#[trigger] listed[j]).0@)
}

/// The name under which the text form of a variable of the kind is listed.
pub fn variable_name(key: &StorageIndex, kind: VarType) -> (r: String)
    ensures
        r@ == entry_name(index_view(*key), kind),
{
    let mut name: Vec<char> = Vec::new();
    push_all(&mut name, &key.0.to_chars());
    name.push(':');
    push_all(&mut name, &kind.to_chars());
    name.push(':');
    push_all(&mut name, &key.1.to_chars());
    proof {
        assert(name@ =~= entry_name(index_view(*key), kind));
    }
    string_of(&name)
}

/// The position of the pair that goes under the name.
fn position_of_name(listed: &Vec<(String, String)>, name: &str) -> (r: Option<usize>)
    ensures
        match r {
            Some(j) => j < listed@.len() && is_named(listed@[j as int], name@),
            None => forall|j: int| 0 <= j < listed@.len() ==> !is_named(#[trigger] listed@[j], name@),
        },
{
    let mut j: usize = 0;
    while j < listed.len()
        invariant
            j <= listed.len(),
            forall|q: int| 0 <= q < j ==> !is_named(#[trigger] listed@[q], name@),
        decreases listed.len() - j,
    {
        if str_eq(listed[j].0.as_str(), name) {
            return Some(j);
        }
        j += 1;
    }
    None
}

/// Conversions
impl Storage {
    /// The text form of the value that `source` names, read as
    /// `get_var_from_addr` reads it.
    pub fn get_coerce_to_string(&self, source: &Address, comp_uid: Option<&StringId>) -> (r: Result<
        String,
        Error,
    >)
        ensures
            match r {
                Ok(t) => self@.contains_key(key_of(*source, comp_uid)) && t@ == self@[key_of(
                    *source,
                    comp_uid,
                )].text(),
                Err(e) => !self@.contains_key(key_of(*source, comp_uid)) && (e
                    matches Error::FailedGettingVariable(m) && m@ == source@.text()),
            },
    {
        match self.get_var_from_addr(source, comp_uid) {
            Ok(v) => Ok(v.to_string()),
            Err(e) => Err(e),
        }
    }

    /// For every variable its name, written `component:kind:variable`, and
    /// the text form of its value, as a map from names would hold them: no
    /// name twice, in no particular order. Where two variables go under one
    /// name, one of them is listed.
    pub fn get_all_coerce_to_string(&self) -> (r: Vec<(String, String)>)
        ensures
            coerced(r@, self@),
    {
        let keys = self.select(None);
        let ghost ks = key_views(keys@);
        let ghost m = self@;
        let mut out: Vec<(String, String)> = Vec::new();
        let mut i: usize = 0;
        while i < keys.len()
            invariant
                i <= keys.len(),
                ks == key_views(keys@),
                lists_exactly(ks, m, None),
                m == self@,
                m == var_map_view(self.map),
                forall|j: int| 0 <= j < out@.len() ==> is_listed(#[trigger] out@[j], m),
                forall|p: int|
                    0 <= p < i ==> exists|j: int|
                        0 <= j < out@.len() && is_named(
                            #[trigger] out@[j],
                            entry_name(#[trigger] ks[p], m[ks[p]].kind()),
                        ),
                forall|a: int, b: int|
                    0 <= a < b < out@.len() ==> !is_named(#[trigger] out@[a], (#[trigger] out@[b]).0@),
            decreases keys.len() - i,
        {
            let key = keys[i];
            let ghost k = ks[i as int];
            proof {
                assert(k == index_view(*key));
                assert(m.contains_key(k));
            }
            let v = var_map_get(&self.map, key).unwrap();
            let name = variable_name(key, v.get_type());
            let text = v.to_string();
            let ghost before = out@;
            let ghost n = name@;
            let at = position_of_name(&out, name.as_str());
            match at {
                Some(j) => {
                    out.set(j, (name, text));
                    proof {
                        assert(lists_var(out@[j as int], k, m));
                        assert forall|q: int| 0 <= q < out@.len() implies is_listed(
                            #[trigger] out@[q],
                            m,
                        ) by {
                            if q != j {
                                assert(out@[q] == before[q]);
                                assert(is_listed(before[q], m));
                            }
                        }
                        assert forall|q: int| 0 <= q < out@.len() implies (#[trigger] out@[q]).0@
                            == before[q].0@ by {
                            if q != j {
                                assert(out@[q] == before[q]);
                            }
                        }
                        assert forall|p: int| 0 <= p < i + 1 implies exists|q: int|
                            0 <= q < out@.len() && is_named(
                                #[trigger] out@[q],
                                entry_name(#[trigger] ks[p], m[ks[p]].kind()),
                            ) by {
                            if p < i {
                                let q = choose|q: int|
                                    0 <= q < before.len() && is_named(
                                        #[trigger] before[q],
                                        entry_name(ks[p], m[ks[p]].kind()),
                                    );
                                assert(is_named(out@[q], entry_name(ks[p], m[ks[p]].kind())));
                            } else {
                                assert(is_named(out@[j as int], entry_name(ks[p], m[ks[p]].kind())));
                            }
                        }
                        assert forall|a: int, b: int| 0 <= a < b < out@.len() implies !is_named(
                            #[trigger] out@[a],
                            (#[trigger] out@[b]).0@,
                        ) by {
                            assert(!is_named(before[a], before[b].0@));
                        }
                    }
                },
                None => {
                    out.push((name, text));
                    proof {
                        let last = before.len() as int;
                        assert(lists_var(out@[last], k, m));
                        assert forall|q: int| 0 <= q < out@.len() implies is_listed(
                            #[trigger] out@[q],
                            m,
                        ) by {
                            if q < last {
                                assert(out@[q] == before[q]);
                                assert(is_listed(before[q], m));
                            }
                        }
                        assert forall|p: int| 0 <= p < i + 1 implies exists|q: int|
                            0 <= q < out@.len() && is_named(
                                #[trigger] out@[q],
                                entry_name(#[trigger] ks[p], m[ks[p]].kind()),
                            ) by {
                            if p < i {
                                let q = choose|q: int|
                                    0 <= q < before.len() && is_named(
                                        #[trigger] before[q],
                                        entry_name(ks[p], m[ks[p]].kind()),
                                    );
                                assert(out@[q] == before[q]);
                                assert(is_named(out@[q], entry_name(ks[p], m[ks[p]].kind())));
                            } else {
                                assert(is_named(out@[last], entry_name(ks[p], m[ks[p]].kind())));
                            }
                        }
                        assert forall|a: int, b: int| 0 <= a < b < out@.len() implies !is_named(
                            #[trigger] out@[a],
                            (#[trigger] out@[b]).0@,
                        ) by {
                            assert(out@[a] == before[a]);
                            if b < last {
                                assert(out@[b] == before[b]);
                                assert(!is_named(before[a], before[b].0@));
                            } else {
                                assert(!is_named(before[a], n));
                            }
                        }
                    }
                },
            }
            i += 1;
        }
        proof {
            assert forall|k: Key| #[trigger] m.contains_key(k) implies exists|j: int|
                0 <= j < out@.len() && is_named(#[trigger] out@[j], entry_name(k, m[k].kind())) by {
                assert(ks.contains(k));
                let p = choose|p: int| 0 <= p < ks.len() && ks[p] == k;
                assert(exists|j: int|
                    0 <= j < out@.len() && is_named(
                        #[trigger] out@[j],
                        entry_name(ks[p], m[ks[p]].kind()),
                    ));
            }
        }
        out
    }
}

/// The names and texts that a list holds, as a set of pairs.
pub open spec fn listed_pairs(listed: Seq<(String, String)>) -> Set<(Seq<char>, Seq<char>)> {
    Set::new(
        |p: (Seq<char>, Seq<char>)|
            exists|i: int| 0 <= i < listed.len() && (#[trigger] listed[i]).0@ == p.0 && listed[i].1@ == p.1,
    )
}

/// The names that a list holds, as a set.
pub open spec fn listed_names(listed: Seq<(String, String)>) -> Set<Seq<char>> {
    Set::new(|n: Seq<char>| exists|i: int| 0 <= i < listed.len() && is_named(#[trigger] listed[i], n))
}

/// Whether no two variables of the store go under one name.
pub open spec fn names_apart(m: Map<Key, VarView>) -> bool {
    forall|a: Key, b: Key|
        m.contains_key(a) && m.contains_key(b) && #[trigger] entry_name(a, m[a].kind())
            == #[trigger] entry_name(b, m[b].kind()) ==> a == b
}

/// Two lists of the names and texts of the variables of a store hold the
/// same names, whatever the order in which the variables were walked.
pub proof fn lemma_coerced_names_agree(
    m: Map<Key, VarView>,
    listed: Seq<(String, String)>,
    other_listed: Seq<(String, String)>,
)
    requires
        coerced(listed, m),
        coerced(other_listed, m),
    ensures
        listed_names(listed) == listed_names(other_listed),
{
    lemma_coerced_names_within(m, listed, other_listed);
    lemma_coerced_names_within(m, other_listed, listed);
    assert(listed_names(listed) =~= listed_names(other_listed));
}

proof fn lemma_coerced_names_within(
    m: Map<Key, VarView>,
    listed: Seq<(String, String)>,
    other_listed: Seq<(String, String)>,
)
    requires
        coerced(listed, m),
        coerced(other_listed, m),
    ensures
        forall|n: Seq<char>| #[trigger]
            listed_names(listed).contains(n) ==> listed_names(other_listed).contains(n),
{
    assert forall|n: Seq<char>| #[trigger] listed_names(listed).contains(n) implies listed_names(
        other_listed,
    ).contains(n) by {
        let i = choose|i: int| 0 <= i < listed.len() && is_named(#[trigger] listed[i], n);
        let k = choose|k: Key| lists_var(listed[i], k, m);
        assert(m.contains_key(k));
        let j = choose|j: int|
            0 <= j < other_listed.len() && is_named(
                #[trigger] other_listed[j],
                entry_name(k, m[k].kind()),
            );
        assert(is_named(other_listed[j], n));
    }
}

/// Where no two variables of a store go under one name, two lists of the
/// names and texts of its variables hold the same pairs, whatever the
/// order in which the variables were walked. So stores with the same
/// content, such as a store and the one rebuilt from its entries, are
/// equal under `get_all_coerce_to_string`.
pub proof fn lemma_coerced_pairs_agree(
    m: Map<Key, VarView>,
    listed: Seq<(String, String)>,
    other_listed: Seq<(String, String)>,
)
    requires
        names_apart(m),
        coerced(listed, m),
        coerced(other_listed, m),
    ensures
        listed_pairs(listed) == listed_pairs(other_listed),
{
    lemma_coerced_pairs_within(m, listed, other_listed);
    lemma_coerced_pairs_within(m, other_listed, listed);
    assert(listed_pairs(listed) =~= listed_pairs(other_listed));
}

/// Every pair of one list of the names and texts of a store is in any
/// other such list, where no two variables go under one name.
proof fn lemma_coerced_pairs_within(
    m: Map<Key, VarView>,
    listed: Seq<(String, String)>,
    other_listed: Seq<(String, String)>,
)
    requires
        names_apart(m),
        coerced(listed, m),
        coerced(other_listed, m),
    ensures
        forall|p: (Seq<char>, Seq<char>)| #[trigger]
            listed_pairs(listed).contains(p) ==> listed_pairs(other_listed).contains(p),
{
    assert forall|p: (Seq<char>, Seq<char>)| #[trigger]
        listed_pairs(listed).contains(p) implies listed_pairs(other_listed).contains(p) by {
        let i = choose|i: int| 0 <= i < listed.len() && (#[trigger] listed[i]).0@ == p.0 && listed[i].1@ == p.1;
        let k = choose|k: Key| lists_var(listed[i], k, m);
        assert(m.contains_key(k));
        let j = choose|j: int|
            0 <= j < other_listed.len() && is_named(
                #[trigger] other_listed[j],
                entry_name(k, m[k].kind()),
            );
        let kk = choose|kk: Key| lists_var(other_listed[j], kk, m);
        assert(entry_name(kk, m[kk].kind()) == entry_name(k, m[k].kind()));
        assert(kk == k);
        assert(other_listed[j].0@ == p.0 && other_listed[j].1@ == p.1);
    }
}

/// One change of a store: a value put under a key, or a key dropped.
pub enum StoreOp {
    Put(Key, VarView),
    Drop(Key),
}

/// The content of a store after one change.
pub open spec fn applied(m: Map<Key, VarView>, op: StoreOp) -> Map<Key, VarView> {
    match op {
        StoreOp::Put(k, v) => m.insert(k, v),
        StoreOp::Drop(k) => m.remove(k),
    }
}

/// The content of a store after a run of changes.
pub open spec fn applied_all(m: Map<Key, VarView>, ops: Seq<StoreOp>) -> Map<Key, VarView>
    decreases ops.len(),
{
    if ops.len() == 0 {
        m
    } else {
        applied(applied_all(m, ops.drop_last()), ops.last())
    }
}

/// Whether each change of the run that writes to a variable that exists at
/// that point writes a value of the kind that the variable has.
pub open spec fn keeps_kinds(m: Map<Key, VarView>, ops: Seq<StoreOp>) -> bool
    decreases ops.len(),
{
    if ops.len() == 0 {
        true
    } else {
        let before = applied_all(m, ops.drop_last());
        keeps_kinds(m, ops.drop_last()) && (ops.last() matches StoreOp::Put(k, v) ==> (
        before.contains_key(k) ==> v.kind() == before[k].kind()))
    }
}

/// Whether some change of the run drops the key.
pub open spec fn drops(ops: Seq<StoreOp>, key: Key) -> bool {
    exists|i: int| 0 <= i < ops.len() && ops[i] == StoreOp::Drop(key)
}

/// A variable keeps its kind until it is removed: after any run of changes
/// that write values of the kind at hand to the variables that exist, and
/// that do not drop the variable, it is still there and of the same kind.
pub proof fn lemma_kind_is_stable(m: Map<Key, VarView>, ops: Seq<StoreOp>, key: Key)
    requires
        m.contains_key(key),
        keeps_kinds(m, ops),
        !drops(ops, key),
    ensures
        applied_all(m, ops).contains_key(key),
        applied_all(m, ops)[key].kind() == m[key].kind(),
    decreases ops.len(),
{
    if ops.len() > 0 {
        let head = ops.drop_last();
        assert(!drops(head, key)) by {
            if drops(head, key) {
                let i = choose|i: int| 0 <= i < head.len() && head[i] == StoreOp::Drop(key);
                assert(ops[i] == StoreOp::Drop(key));
            }
        }
        lemma_kind_is_stable(m, head, key);
        assert(ops[ops.len() - 1] != StoreOp::Drop(key));
    }
}

/// Reading by address finds a variable exactly when reading by the key of
/// the address does.
pub proof fn lemma_address_and_key_agree(m: Map<Key, VarView>, addr: Address)
    ensures
        m.contains_key(key_of(addr, None)) <==> m.contains_key(index_view(
            (addr.component, addr.var_id),
        )),
        key_of(addr, None) == addr@.index(),
{
}

} // verus!
