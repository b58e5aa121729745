//! The component virtual machine: commands, the places they come from, the
//! frames of the call stack and the scratch registry.

use vstd::prelude::*;
use crate::string::{clone_opt, StringId};
use crate::entity::storage::Key;
use crate::var::{Var, VarView};

pub mod cmd;
pub mod error;
pub mod exec;

verus! {

/// Where a command stands: its component and its line there.
#[derive(Debug, PartialEq)]
pub struct LocationInfo {
    pub comp_name: Option<StringId>,
    pub line: Option<usize>,
}

impl LocationInfo {
    /// A place of which nothing is known.
    pub fn empty() -> (r: LocationInfo)
        ensures
            r.comp_name is None,
            r.line is None,
    {
        LocationInfo { comp_name: None, line: None }
    }

    /// Line `line` of the component `comp`.
    pub fn at(comp: &StringId, line: usize) -> (r: LocationInfo)
        ensures
            r.comp_name == Some(*comp),
            r.line == Some(line),
    {
        LocationInfo { comp_name: Some(comp.clone()), line: Some(line) }
    }
}

impl Clone for LocationInfo {
    fn clone(&self) -> (r: Self)
        ensures
            r == *self,
    {
        LocationInfo { comp_name: clone_opt(&self.comp_name), line: self.line }
    }
}

/// A command as the script parser hands it over: its head and its
/// arguments, not yet interpreted.
#[derive(Debug, Clone, PartialEq)]
pub struct CommandPrototype {
    pub name: Option<String>,
    pub arguments: Option<Vec<String>>,
}

/// The control structure that a frame of the call stack stands for.
#[derive(Clone, Copy, Debug, PartialEq, Eq, Structural)]
pub enum FrameKind {
    State,
    Component,
    If,
    Else,
    Loop,
    ForIn,
    Procedure,
    Call,
}

/// One frame of the call stack: a control structure that was entered and
/// not yet left, with the lines of its head and of its `end`.
#[derive(Debug, PartialEq)]
pub struct CallInfo {
    pub kind: FrameKind,
    /// Line of the command that opened the structure.
    pub start_line: usize,
    /// Line of the `end` that closes it.
    pub end_line: usize,
    /// For a call, the line to go on with after the procedure.
    pub return_line: usize,
    /// For a loop, the number of rounds that were completed.
    pub iteration: usize,
    /// For a component block, the name of the component.
    pub name: Option<StringId>,
}

impl Clone for CallInfo {
    fn clone(&self) -> (r: Self)
        ensures
            r == *self,
    {
        CallInfo {
            kind: self.kind,
            start_line: self.start_line,
            end_line: self.end_line,
            return_line: self.return_line,
            iteration: self.iteration,
            name: clone_opt(&self.name),
        }
    }
}

impl CallInfo {
    /// A frame of the given kind over the given lines.
    pub fn new(kind: FrameKind, start_line: usize, end_line: usize) -> (r: CallInfo)
        ensures
            r == (CallInfo { kind, start_line, end_line, return_line: 0, iteration: 0, name: None }),
    {
        CallInfo { kind, start_line, end_line, return_line: 0, iteration: 0, name: None }
    }
}

/// The line behind a line; the last line that there can be is behind
/// itself.
pub open spec fn line_after(line: usize) -> usize {
    if line < usize::MAX {
        (line + 1) as usize
    } else {
        line
    }
}

/// The line behind a line.
pub fn after(line: usize) -> (r: usize)
    ensures
        r == line_after(line),
{
    if line < usize::MAX {
        line + 1
    } else {
        line
    }
}

/// The call stack of one run of a component's program.
pub type CallStackVec = Vec<CallInfo>;

/// What a command works on when it runs within one entity.
pub struct Machine {
    /// The variables of the entity.
    pub storage: Map<Key, VarView>,
    /// The scratch variables of the run.
    pub registry: Map<Seq<char>, VarView>,
    /// The call stack of the run.
    pub stack: Seq<CallInfo>,
    /// The state that the component is in.
    pub state: StringId,
    /// The lines that the entity has printed.
    pub output: Seq<String>,
}

/// Scratch variables of one run of a component's program, by name.
#[derive(Debug)]
pub struct Registry {
    pub entries: Vec<(StringId, Var)>,
}

/// What a list of scratch entries holds: for each name the value of the
/// first entry with that name.
pub open spec fn entries_view(entries: Seq<(StringId, Var)>) -> Map<Seq<char>, VarView>
    decreases entries.len(),
{
    if entries.len() == 0 {
        Map::empty()
    } else {
        entries_view(entries.drop_first()).insert(entries[0].0@, entries[0].1@)
    }
}

/// Replacing the value of the first entry with a name, or adding an entry
/// for a name that none has, sets the name to the new value.
proof fn lemma_entries_set(entries: Seq<(StringId, Var)>, i: int, name: StringId, value: Var)
    requires
        0 <= i <= entries.len(),
        forall|j: int| 0 <= j < i ==> (#[trigger] entries[j]).0@ != name@,
        i < entries.len() ==> entries[i].0@ == name@,
    ensures
        i < entries.len() ==> entries_view(entries.update(i, (name, value))) == entries_view(
            entries,
        ).insert(name@, value@),
        i == entries.len() ==> entries_view(entries.push((name, value))) == entries_view(
            entries,
        ).insert(name@, value@),
        i == entries.len() ==> !entries_view(entries).contains_key(name@),
    decreases entries.len(),
{
    if entries.len() == 0 {
        let one = entries.push((name, value));
        assert(one.drop_first() =~= entries);
        assert(one[0] == (name, value));
        assert(entries_view(one) =~= entries_view(entries).insert(name@, value@));
    } else if i == 0 {
        let next = entries.update(0, (name, value));
        assert(next.drop_first() =~= entries.drop_first());
        assert(entries_view(next) =~= entries_view(entries).insert(name@, value@));
    } else {
        let rest = entries.drop_first();
        assert forall|j: int| 0 <= j < i - 1 implies (#[trigger] rest[j]).0@ != name@ by {
            assert(rest[j] == entries[j + 1]);
        }
        lemma_entries_set(rest, i - 1, name, value);
        if i < entries.len() {
            let next = entries.update(i, (name, value));
            assert(next.drop_first() =~= rest.update(i - 1, (name, value)));
            assert(entries_view(next) =~= entries_view(entries).insert(name@, value@));
        } else {
            let next = entries.push((name, value));
            assert(next.drop_first() =~= rest.push((name, value)));
            assert(entries_view(next) =~= entries_view(entries).insert(name@, value@));
        }
    }
}

/// The first entry with a name gives the value of the name; a list without
/// such an entry does not hold the name.
proof fn lemma_entries_get(entries: Seq<(StringId, Var)>, i: int, name: Seq<char>)
    requires
        0 <= i <= entries.len(),
        forall|j: int| 0 <= j < i ==> (#[trigger] entries[j]).0@ != name,
        i < entries.len() ==> entries[i].0@ == name,
    ensures
        i < entries.len() ==> entries_view(entries).contains_key(name) && entries_view(
            entries,
        )[name] == entries[i].1@,
        i == entries.len() ==> !entries_view(entries).contains_key(name),
    decreases entries.len(),
{
    if entries.len() > 0 && i > 0 {
        let rest = entries.drop_first();
        assert forall|j: int| 0 <= j < i - 1 implies (#[trigger] rest[j]).0@ != name by {
            assert(rest[j] == entries[j + 1]);
        }
        lemma_entries_get(rest, i - 1, name);
    }
}

impl View for Registry {
    type V = Map<Seq<char>, VarView>;

    open spec fn view(&self) -> Map<Seq<char>, VarView> {
        entries_view(self.entries@)
    }
}

impl Registry {
    /// A registry without variables.
    pub fn new() -> (r: Registry)
        ensures
            r@ == Map::<Seq<char>, VarView>::empty(),
    {
        Registry { entries: Vec::new() }
    }

    fn position(&self, name: &StringId) -> (i: usize)
        ensures
            i <= self.entries.len(),
            forall|j: int| 0 <= j < i ==> (#[trigger] self.entries@[j]).0@ != name@,
            i < self.entries.len() ==> self.entries@[i as int].0@ == name@,
    {
        let mut i: usize = 0;
        while i < self.entries.len()
            invariant
                i <= self.entries.len(),
                forall|j: int| 0 <= j < i ==> (#[trigger] self.entries@[j]).0@ != name@,
            decreases self.entries.len() - i,
        {
            if self.entries[i].0 == *name {
                return i;
            }
            i += 1;
        }
        i
    }

    /// The value of a scratch variable, if it was set.
    pub fn get(&self, name: &StringId) -> (r: Option<&Var>)
        ensures
            match r {
                Some(v) => self@.contains_key(name@) && self@[name@] == v@,
                None => !self@.contains_key(name@),
            },
    {
        let i = self.position(name);
        proof {
            lemma_entries_get(self.entries@, i as int, name@);
        }
        if i < self.entries.len() {
            Some(&self.entries[i].1)
        } else {
            None
        }
    }

    /// Sets a scratch variable.
    pub fn set(&mut self, name: StringId, value: Var)
        ensures
            final(self)@ == old(self)@.insert(name@, value@),
    {
        let i = self.position(&name);
        proof {
            lemma_entries_set(self.entries@, i as int, name, value);
        }
        if i < self.entries.len() {
            self.entries[i] = (name, value);
        } else {
            self.entries.push((name, value));
        }
    }
}

} // verus!
