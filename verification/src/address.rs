//! Addresses of variables. An address is written
//! `[entity:]component:var_type:var_name`; without the entity it names a
//! variable of the entity at hand, which is called `self`.

use vstd::prelude::*;
use vstd::utf8::is_ascii_chars;
use crate::machine::error::ErrorKind;
use crate::string::{clone_opt, fits, StringId};
use crate::text::{chars_eq, chars_of, push_all, split, split_spec, string_of, rows};
use crate::var::{var_type_of_text, var_type_text, VarType};

verus! {

/// The key of a variable in a store: component name, then variable name.
pub type StorageIndex = (StringId, StringId);

/// The texts of a key.
pub open spec fn index_view(idx: StorageIndex) -> (Seq<char>, Seq<char>) {
    (idx.0@, idx.1@)
}

/// The name that stands for the entity at hand.
pub open spec fn self_text() -> Seq<char> {
    seq!['s', 'e', 'l', 'f']
}

/// The name that stands for the entity at hand.
pub fn self_name() -> (r: StringId)
    ensures
        r@ == self_text(),
{
    let v = vec!['s', 'e', 'l', 'f'];
    proof {
        assert(v@ =~= self_text());
        assert(is_ascii_chars(v@));
    }
    StringId::short(&v)
}

/// Full address of a variable.
#[derive(Debug, PartialEq)]
pub struct Address {
    pub entity: StringId,
    pub component: StringId,
    pub var_type: VarType,
    pub var_id: StringId,
}

/// The mathematical content of an `Address`.
pub struct AddressView {
    pub entity: Seq<char>,
    pub component: Seq<char>,
    pub var_type: VarType,
    pub var_id: Seq<char>,
}

impl View for Address {
    type V = AddressView;

    open spec fn view(&self) -> AddressView {
        AddressView {
            entity: self.entity@,
            component: self.component@,
            var_type: self.var_type,
            var_id: self.var_id@,
        }
    }
}

impl AddressView {
    /// The address as text: its four atoms, separated by colons.
    pub open spec fn text(self) -> Seq<char> {
        self.entity + seq![':'] + self.component + seq![':'] + var_type_text(self.var_type) + seq![
            ':',
        ] + self.var_id
    }

    /// The key under which a store holds the variable.
    pub open spec fn index(self) -> (Seq<char>, Seq<char>) {
        (self.component, self.var_id)
    }
}

/// The address that a text writes, if it writes one: three or four atoms
/// between colons, each name short enough for a `StringId`, the one before
/// the last the name of a kind. With three atoms the entity is `self`.
pub open spec fn address_of_text(s: Seq<char>) -> Option<AddressView> {
    let parts = split_spec(s, ':');
    if parts.len() == 3 {
        if fits(parts[0]) && fits(parts[2]) && var_type_of_text(parts[1]) is Some {
            Some(
                AddressView {
                    entity: self_text(),
                    component: parts[0],
                    var_type: var_type_of_text(parts[1])->0,
                    var_id: parts[2],
                },
            )
        } else {
            None
        }
    } else if parts.len() == 4 {
        if fits(parts[0]) && fits(parts[1]) && fits(parts[3]) && var_type_of_text(parts[2])
            is Some {
            Some(
                AddressView {
                    entity: parts[0],
                    component: parts[1],
                    var_type: var_type_of_text(parts[2])->0,
                    var_id: parts[3],
                },
            )
        } else {
            None
        }
    } else {
        None
    }
}

impl Address {
    /// Reads an address. Text that writes none is handed back in
    /// `ErrorKind::ParseError`.
    pub fn from_str(s: &str) -> (r: Result<Address, ErrorKind>)
        ensures
            match r {
                Ok(a) => address_of_text(s@) == Some(a@),
                Err(e) => address_of_text(s@) is None && (e matches ErrorKind::ParseError(m)
                    && m@ == s@),
            },
    {
        let chars = chars_of(s);
        let parts = split(&chars, ':');
        proof {
            assert(rows(parts@) == split_spec(s@, ':'));
            assert(forall|i: int| 0 <= i < parts.len() ==> rows(parts@)[i] == parts@[i]@);
        }
        if parts.len() == 3 {
            let comp = StringId::from_chars(&parts[0]);
            let ty = VarType::from_chars(&parts[1]);
            let var = StringId::from_chars(&parts[2]);
            match (comp, ty, var) {
                (Some(component), Some(var_type), Some(var_id)) => Ok(
                    Address { entity: self_name(), component, var_type, var_id },
                ),
                _ => Err(ErrorKind::ParseError(s.to_owned())),
            }
        } else if parts.len() == 4 {
            let ent = StringId::from_chars(&parts[0]);
            let comp = StringId::from_chars(&parts[1]);
            let ty = VarType::from_chars(&parts[2]);
            let var = StringId::from_chars(&parts[3]);
            match (ent, comp, ty, var) {
                (Some(entity), Some(component), Some(var_type), Some(var_id)) => Ok(
                    Address { entity, component, var_type, var_id },
                ),
                _ => Err(ErrorKind::ParseError(s.to_owned())),
            }
        } else {
            Err(ErrorKind::ParseError(s.to_owned()))
        }
    }

    /// The key under which a store holds the variable.
    pub fn storage_index(&self) -> (r: StorageIndex)
        ensures
            index_view(r) == self@.index(),
    {
        (self.component.clone(), self.var_id.clone())
    }

    /// The address as text.
    pub fn to_string(&self) -> (r: String)
        ensures
            r@ == self@.text(),
    {
        let mut out: Vec<char> = Vec::new();
        push_all(&mut out, &self.entity.to_chars());
        out.push(':');
        push_all(&mut out, &self.component.to_chars());
        out.push(':');
        push_all(&mut out, &self.var_type.to_chars());
        out.push(':');
        push_all(&mut out, &self.var_id.to_chars());
        proof {
            assert(out@ =~= self@.text());
        }
        string_of(&out)
    }
}

impl Clone for Address {
    fn clone(&self) -> (r: Self)
        ensures
            r == *self,
    {
        Address {
            entity: self.entity.clone(),
            component: self.component.clone(),
            var_type: self.var_type,
            var_id: self.var_id.clone(),
        }
    }
}

/// Address of a variable of the entity at hand. The component may be left
/// out where the one at hand is meant.
#[derive(Debug, PartialEq)]
pub struct LocalAddress {
    pub comp: Option<StringId>,
    pub var_type: VarType,
    pub var_id: StringId,
}

/// The address that commands write for a variable of their own entity.
pub type ShortLocalAddress = LocalAddress;

/// The mathematical content of a `LocalAddress`.
pub struct LocalAddressView {
    pub comp: Option<Seq<char>>,
    pub var_type: VarType,
    pub var_id: Seq<char>,
}

impl View for LocalAddress {
    type V = LocalAddressView;

    open spec fn view(&self) -> LocalAddressView {
        LocalAddressView {
            comp: match self.comp {
                Some(c) => Some(c@),
                None => None,
            },
            var_type: self.var_type,
            var_id: self.var_id@,
        }
    }
}

impl LocalAddressView {
    /// The key of the variable, where the address names its component.
    pub open spec fn index(self) -> Option<(Seq<char>, Seq<char>)> {
        match self.comp {
            Some(c) => Some((c, self.var_id)),
            None => None,
        }
    }

    /// The key of the variable, with `comp` for a component left out.
    pub open spec fn index_in(self, comp: Seq<char>) -> (Seq<char>, Seq<char>) {
        match self.comp {
            Some(c) => (c, self.var_id),
            None => (comp, self.var_id),
        }
    }

    /// The address as text: the component, if named, the kind and the name,
    /// separated by colons.
    pub open spec fn text(self) -> Seq<char> {
        (match self.comp {
            Some(c) => c + seq![':'],
            None => Seq::empty(),
        }) + var_type_text(self.var_type) + seq![':'] + self.var_id
    }
}

/// The local address that a text writes, if it writes one: `type:name`,
/// `component:type:name`, or the latter after `self:`.
pub open spec fn local_address_of_text(s: Seq<char>) -> Option<LocalAddressView> {
    let parts = split_spec(s, ':');
    if parts.len() == 2 {
        if fits(parts[1]) && var_type_of_text(parts[0]) is Some {
            Some(
                LocalAddressView {
                    comp: None,
                    var_type: var_type_of_text(parts[0])->0,
                    var_id: parts[1],
                },
            )
        } else {
            None
        }
    } else if parts.len() == 3 {
        if fits(parts[0]) && fits(parts[2]) && var_type_of_text(parts[1]) is Some {
            Some(
                LocalAddressView {
                    comp: Some(parts[0]),
                    var_type: var_type_of_text(parts[1])->0,
                    var_id: parts[2],
                },
            )
        } else {
            None
        }
    } else if parts.len() == 4 {
        if parts[0] == self_text() && fits(parts[1]) && fits(parts[3]) && var_type_of_text(
            parts[2],
        ) is Some {
            Some(
                LocalAddressView {
                    comp: Some(parts[1]),
                    var_type: var_type_of_text(parts[2])->0,
                    var_id: parts[3],
                },
            )
        } else {
            None
        }
    } else {
        None
    }
}

impl LocalAddress {
    /// Reads a local address. Text that writes none is handed back in
    /// `ErrorKind::ParseError`.
    pub fn from_str(s: &str) -> (r: Result<LocalAddress, ErrorKind>)
        ensures
            match r {
                Ok(a) => local_address_of_text(s@) == Some(a@),
                Err(e) => local_address_of_text(s@) is None && (e matches ErrorKind::ParseError(m)
                    && m@ == s@),
            },
    {
        let chars = chars_of(s);
        let parts = split(&chars, ':');
        proof {
            assert(rows(parts@) == split_spec(s@, ':'));
            assert(forall|i: int| 0 <= i < parts.len() ==> rows(parts@)[i] == parts@[i]@);
        }
        if parts.len() == 2 {
            let ty = VarType::from_chars(&parts[0]);
            let var = StringId::from_chars(&parts[1]);
            match (ty, var) {
                (Some(var_type), Some(var_id)) => Ok(LocalAddress { comp: None, var_type, var_id }),
                _ => Err(ErrorKind::ParseError(s.to_owned())),
            }
        } else if parts.len() == 3 {
            let comp = StringId::from_chars(&parts[0]);
            let ty = VarType::from_chars(&parts[1]);
            let var = StringId::from_chars(&parts[2]);
            match (comp, ty, var) {
                (Some(c), Some(var_type), Some(var_id)) => Ok(
                    LocalAddress { comp: Some(c), var_type, var_id },
                ),
                _ => Err(ErrorKind::ParseError(s.to_owned())),
            }
        } else if parts.len() == 4 {
            let own = self_name().to_chars();
            let is_own = chars_eq(&parts[0], &own);
            let comp = StringId::from_chars(&parts[1]);
            let ty = VarType::from_chars(&parts[2]);
            let var = StringId::from_chars(&parts[3]);
            match (is_own, comp, ty, var) {
                (true, Some(c), Some(var_type), Some(var_id)) => Ok(
                    LocalAddress { comp: Some(c), var_type, var_id },
                ),
                _ => Err(ErrorKind::ParseError(s.to_owned())),
            }
        } else {
            Err(ErrorKind::ParseError(s.to_owned()))
        }
    }

    /// The key of the variable, where the address names its component.
    pub fn storage_index(&self) -> (r: Option<StorageIndex>)
        ensures
            match r {
                Some(idx) => self@.index() == Some(index_view(idx)),
                None => self@.index() is None,
            },
    {
        match &self.comp {
            Some(c) => Some((c.clone(), self.var_id.clone())),
            None => None,
        }
    }

    /// The key of the variable, with `comp` for a component left out.
    pub fn storage_index_using(&self, comp: &StringId) -> (r: StorageIndex)
        ensures
            index_view(r) == self@.index_in(comp@),
    {
        match &self.comp {
            Some(c) => (c.clone(), self.var_id.clone()),
            None => (comp.clone(), self.var_id.clone()),
        }
    }

    /// The address as text.
    pub fn to_string(&self) -> (r: String)
        ensures
            r@ == self@.text(),
    {
        let mut out: Vec<char> = Vec::new();
        match &self.comp {
            Some(c) => {
                push_all(&mut out, &c.to_chars());
                out.push(':');
            },
            None => {},
        }
        push_all(&mut out, &self.var_type.to_chars());
        out.push(':');
        push_all(&mut out, &self.var_id.to_chars());
        proof {
            assert(out@ =~= self@.text());
        }
        string_of(&out)
    }
}

impl Clone for LocalAddress {
    fn clone(&self) -> (r: Self)
        ensures
            r == *self,
    {
        LocalAddress {
            comp: clone_opt(&self.comp),
            var_type: self.var_type,
            var_id: self.var_id.clone(),
        }
    }
}

} // verus!
