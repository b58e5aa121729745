//! Definitions for model contents, as well as logic for turning what was
//! read from a scenario into model objects.

use vstd::prelude::*;
use fnv::FnvHashMap;
use crate::machine::cmd::{command_views, Command, ExtCommand};
use crate::machine::LocationInfo;
use crate::string::{names, StringId};
use crate::var::{Var, VarType};

pub mod assemble;
pub mod scenario;

verus! {

/// What a map of spans holds: for each name present, given by its text, the
/// two lines stored under it.
pub uninterp spec fn span_map_view(m: FnvHashMap<StringId, (usize, usize)>) -> Map<
    Seq<char>,
    (usize, usize),
>;

/// The content of a map without spans.
pub open spec fn no_spans() -> Map<Seq<char>, (usize, usize)> {
    Map::empty()
}

/// An empty map.
///
/// Trusted: `FnvHashMap::default`, which makes a map without entries.
#[verifier::external_body]
fn span_map_new() -> (r: FnvHashMap<StringId, (usize, usize)>)
    ensures
        span_map_view(r) == no_spans(),
{
    FnvHashMap::default()
}

/// Looks a name up.
///
/// Trusted: `HashMap::get`, which finds the value stored under a key equal
/// to the given one, if there is one. Names are equal when their texts
/// are.
#[verifier::external_body]
fn span_map_get(m: &FnvHashMap<StringId, (usize, usize)>, name: &StringId) -> (r: Option<
    (usize, usize),
>)
    ensures
        match r {
            Some(s) => span_map_view(*m).contains_key(name@) && span_map_view(*m)[name@] == s,
            None => !span_map_view(*m).contains_key(name@),
        },
{
    m.get(name).copied()
}

/// Stores a span under a name, replacing what was there.
///
/// Trusted: `HashMap::insert`.
#[verifier::external_body]
fn span_map_insert(m: &mut FnvHashMap<StringId, (usize, usize)>, name: StringId, span: (usize, usize))
    ensures
        span_map_view(*final(m)) == span_map_view(*old(m)).insert(name@, span),
{
    m.insert(name, span);
}

/// The names of the map, each once, in the order in which the map walks
/// them. Nothing is stated of that order.
///
/// Trusted: `HashMap::keys`, which visits every key of the map once.
#[verifier::external_body]
fn span_map_names(m: &FnvHashMap<StringId, (usize, usize)>) -> (r: Vec<StringId>)
    ensures
        forall|i: int| 0 <= i < r@.len() ==> span_map_view(*m).contains_key(#[trigger] r@[i]@),
        forall|k: Seq<char>| #[trigger]
            span_map_view(*m).contains_key(k) ==> exists|i: int| 0 <= i < r@.len() && r@[i]@ == k,
        forall|i: int, j: int| 0 <= i < j < r@.len() ==> r@[i]@ != r@[j]@,
{
    m.keys().cloned().collect()
}

/// What a map of commands by event holds: for each event present, given
/// by its text, the commands stored under it.
pub uninterp spec fn pre_map_view(m: FnvHashMap<StringId, Vec<ExtCommand>>) -> Map<
    Seq<char>,
    Seq<ExtCommand>,
>;

/// The content of a map without commands.
pub open spec fn no_pre_commands() -> Map<Seq<char>, Seq<ExtCommand>> {
    Map::empty()
}

/// An empty map of commands by event.
///
/// Trusted: `FnvHashMap::default`, which makes a map without entries.
#[verifier::external_body]
fn pre_map_new() -> (r: FnvHashMap<StringId, Vec<ExtCommand>>)
    ensures
        pre_map_view(r) == no_pre_commands(),
{
    FnvHashMap::default()
}

/// Trigger event model.
#[derive(Debug, Clone, PartialEq)]
pub struct EventModel {
    pub id: StringId,
}

/// Entity prefab model.
#[derive(Debug, Clone, PartialEq)]
pub struct EntityPrefabModel {
    pub name: StringId,
    pub components: Vec<StringId>,
}

/// Variable model.
#[derive(Debug, Clone, PartialEq)]
pub struct VarModel {
    pub id: String,
    pub type_: VarType,
    pub default: Option<Var>,
}

/// Data entry model.
#[derive(Debug, Clone, PartialEq)]
pub enum DataEntry {
    Simple(String, String),
    List(String, Vec<String>),
}

/// Data file entry model.
#[derive(Debug, Clone, PartialEq)]
pub enum DataFileEntry {
    Json(String),
    JsonList(String),
    JsonGrid(String),
    Yaml(String),
    YamlList(String),
    YamlGrid(String),
    CsvList(String),
    CsvGrid(String),
}

/// Data image entry model. Used specifically for importing grid data.
#[derive(Debug, Clone, PartialEq)]
pub enum DataImageEntry {
    BmpU8(String, String),
    BmpU8U8U8(String, String),
    PngU8(String, String),
    PngU8U8U8(String, String),
    PngU8U8U8Concat(String, String),
}

/// Component-bound state machine logic model.
#[derive(Debug, Clone)]
pub struct LogicModel {
    /// List of loc phase commands
    pub commands: Vec<Command>,
    /// List of pre phase commands, by event
    pub pre_commands: FnvHashMap<StringId, Vec<ExtCommand>>,
    /// Mapping of state procedure names to their start and end lines
    pub states: FnvHashMap<StringId, (usize, usize)>,
    /// Mapping of non-state procedure names to their start and end lines
    pub procedures: FnvHashMap<StringId, (usize, usize)>,
    /// Location info mapped for each command on the list by vec index
    pub cmd_location_map: Vec<LocationInfo>,
}

/// Whether every span of the map lies within `len` lines: its first line
/// is not behind its last, and its last not behind the end.
pub open spec fn spans_within(spans: Map<Seq<char>, (usize, usize)>, len: nat) -> bool {
    forall|name: Seq<char>| #[trigger]
        spans.contains_key(name) ==> spans[name].0 <= spans[name].1 <= len
}

impl LogicModel {
    /// The spans of the states, by name.
    pub open spec fn states_view(&self) -> Map<Seq<char>, (usize, usize)> {
        span_map_view(self.states)
    }

    /// The spans of the procedures, by name.
    pub open spec fn procedures_view(&self) -> Map<Seq<char>, (usize, usize)> {
        span_map_view(self.procedures)
    }

    /// The commands of the phase before the events, by event.
    pub open spec fn pre_commands_view(&self) -> Map<Seq<char>, Seq<ExtCommand>> {
        pre_map_view(self.pre_commands)
    }

    /// The invariant of a logic model: every command has its location, and
    /// every state and every procedure lies within the commands.
    pub open spec fn wf(&self) -> bool {
        &&& self.cmd_location_map@.len() == self.commands@.len()
        &&& spans_within(self.states_view(), self.commands@.len())
        &&& spans_within(self.procedures_view(), self.commands@.len())
    }

    /// A logic model without commands.
    pub fn empty() -> (r: LogicModel)
        ensures
            r.wf(),
            r.commands@.len() == 0,
            r.pre_commands_view() == no_pre_commands(),
            r.states_view() == no_spans(),
            r.procedures_view() == no_spans(),
    {
        LogicModel {
            commands: Vec::new(),
            states: span_map_new(),
            procedures: span_map_new(),
            cmd_location_map: Vec::new(),
            pre_commands: pre_map_new(),
        }
    }

    /// The commands from line `start_line` up to, but not including, line
    /// `last_line`, with their locations; lines are counted from one. The
    /// result has no states and no procedures.
    pub fn get_subset(&self, start_line: usize, last_line: usize) -> (r: LogicModel)
        requires
            self.cmd_location_map@.len() == self.commands@.len(),
            1 <= start_line <= last_line <= self.commands@.len() + 1,
        ensures
            r.wf(),
            command_views(r.commands@) == command_views(self.commands@).subrange(
                start_line - 1,
                last_line - 1,
            ),
            r.cmd_location_map@ == self.cmd_location_map@.subrange(start_line - 1, last_line - 1),
            r.states_view() == no_spans(),
            r.procedures_view() == no_spans(),
            r.pre_commands_view() == no_pre_commands(),
    {
        let mut new_logic = LogicModel::empty();
        let mut i: usize = start_line - 1;
        while i < last_line - 1
            invariant
                self.cmd_location_map@.len() == self.commands@.len(),
                1 <= start_line <= last_line <= self.commands@.len() + 1,
                start_line - 1 <= i <= last_line - 1,
                new_logic.states_view() == no_spans(),
                new_logic.procedures_view() == no_spans(),
                new_logic.pre_commands_view() == no_pre_commands(),
                command_views(new_logic.commands@) == command_views(self.commands@).subrange(
                    start_line - 1,
                    i as int,
                ),
                new_logic.cmd_location_map@ == self.cmd_location_map@.subrange(
                    start_line - 1,
                    i as int,
                ),
            decreases last_line - 1 - i,
        {
            let ghost before = new_logic.commands@;
            new_logic.commands.push(self.commands[i].clone());
            new_logic.cmd_location_map.push(self.cmd_location_map[i].clone());
            proof {
                assert(command_views(new_logic.commands@) =~= command_views(before).push(
                    self.commands@[i as int]@,
                ));
                assert(command_views(self.commands@).subrange(start_line - 1, i + 1)
                    =~= command_views(self.commands@).subrange(start_line - 1, i as int).push(
                    self.commands@[i as int]@,
                ));
                assert(self.cmd_location_map@.subrange(start_line - 1, i + 1)
                    =~= self.cmd_location_map@.subrange(start_line - 1, i as int).push(
                    self.cmd_location_map@[i as int],
                ));
            }
            i += 1;
        }
        new_logic
    }

    /// The span of a state, if the model has a state of that name.
    pub fn state(&self, name: &StringId) -> (r: Option<(usize, usize)>)
        ensures
            match r {
                Some(s) => self.states_view().contains_key(name@) && self.states_view()[name@] == s,
                None => !self.states_view().contains_key(name@),
            },
    {
        span_map_get(&self.states, name)
    }

    /// The span of a procedure, if the model has a procedure of that name.
    pub fn procedure(&self, name: &StringId) -> (r: Option<(usize, usize)>)
        ensures
            match r {
                Some(s) => self.procedures_view().contains_key(name@) && self.procedures_view()[name@]
                    == s,
                None => !self.procedures_view().contains_key(name@),
            },
    {
        span_map_get(&self.procedures, name)
    }

    /// Gives a state its span, if the span lies within the commands; says
    /// whether it did.
    pub fn set_state(&mut self, name: StringId, span: (usize, usize)) -> (done: bool)
        ensures
            done == (span.0 <= span.1 <= old(self).commands@.len()),
            done ==> final(self).states_view() == old(self).states_view().insert(name@, span),
            !done ==> final(self).states_view() == old(self).states_view(),
            final(self).commands == old(self).commands,
            final(self).cmd_location_map == old(self).cmd_location_map,
            final(self).procedures == old(self).procedures,
            final(self).pre_commands == old(self).pre_commands,
            old(self).wf() ==> final(self).wf(),
    {
        if span.0 <= span.1 && span.1 <= self.commands.len() {
            span_map_insert(&mut self.states, name, span);
            true
        } else {
            false
        }
    }

    /// Gives a procedure its span, if the span lies within the commands;
    /// says whether it did.
    pub fn set_procedure(&mut self, name: StringId, span: (usize, usize)) -> (done: bool)
        ensures
            done == (span.0 <= span.1 <= old(self).commands@.len()),
            done ==> final(self).procedures_view() == old(self).procedures_view().insert(
                name@,
                span,
            ),
            !done ==> final(self).procedures_view() == old(self).procedures_view(),
            final(self).commands == old(self).commands,
            final(self).cmd_location_map == old(self).cmd_location_map,
            final(self).states == old(self).states,
            final(self).pre_commands == old(self).pre_commands,
            old(self).wf() ==> final(self).wf(),
    {
        if span.0 <= span.1 && span.1 <= self.commands.len() {
            span_map_insert(&mut self.procedures, name, span);
            true
        } else {
            false
        }
    }

    /// Appends a command with its location.
    pub fn push(&mut self, command: Command, location: LocationInfo)
        ensures
            final(self).commands@ == old(self).commands@.push(command),
            final(self).cmd_location_map@ == old(self).cmd_location_map@.push(location),
            final(self).states == old(self).states,
            final(self).procedures == old(self).procedures,
            final(self).pre_commands == old(self).pre_commands,
            old(self).wf() ==> final(self).wf(),
    {
        self.commands.push(command);
        self.cmd_location_map.push(location);
    }

    /// The names of the states, each once, in no particular order.
    pub fn state_names(&self) -> (r: Vec<StringId>)
        ensures
            forall|i: int| 0 <= i < r@.len() ==> self.states_view().contains_key(#[trigger] r@[i]@),
            forall|k: Seq<char>| #[trigger]
                self.states_view().contains_key(k) ==> exists|i: int| 0 <= i < r@.len() && r@[i]@ == k,
            forall|i: int, j: int| 0 <= i < j < r@.len() ==> r@[i]@ != r@[j]@,
    {
        span_map_names(&self.states)
    }

    /// The names of the procedures, each once, in no particular order.
    pub fn procedure_names(&self) -> (r: Vec<StringId>)
        ensures
            forall|i: int| 0 <= i < r@.len() ==> self.procedures_view().contains_key(#[trigger] r@[i]@),
            forall|k: Seq<char>| #[trigger]
                self.procedures_view().contains_key(k) ==> exists|i: int|
                    0 <= i < r@.len() && r@[i]@ == k,
            forall|i: int, j: int| 0 <= i < j < r@.len() ==> r@[i]@ != r@[j]@,
    {
        span_map_names(&self.procedures)
    }
}

/// The spans of procedures after the procedures among the first `n`
/// commands were added, each under its name with the lines that the
/// command holds. A procedure whose lines do not lie within the commands
/// is left out.
pub open spec fn with_procedures(
    spans: Map<Seq<char>, (usize, usize)>,
    commands: Seq<Command>,
    n: int,
) -> Map<Seq<char>, (usize, usize)>
    decreases n,
{
    if n <= 0 {
        spans
    } else {
        let before = with_procedures(spans, commands, n - 1);
        match commands[n - 1] {
            Command::Procedure(p) => if p.start_line <= p.end_line <= commands.len() {
                before.insert(p.name@, (p.start_line, p.end_line))
            } else {
                before
            },
            _ => before,
        }
    }
}

/// Whether the commands are those of the lines from `start` up to, but not
/// including, `end` of `source`, moved to line zero.
pub open spec fn is_rebased_subset(
    commands: Seq<Command>,
    source: Seq<Command>,
    start: usize,
    end: usize,
) -> bool {
    &&& start <= end <= source.len()
    &&& commands.len() == end - start
    &&& forall|i: int|
        0 <= i < commands.len() ==> crate::machine::cmd::rebased_view(source[start + i]@, start, 0)
            == Some((#[trigger] commands[i])@)
}

/// Whether the locations are the lines from zero on of the component.
pub open spec fn located_in(locations: Seq<LocationInfo>, comp: StringId) -> bool {
    forall|i: int|
        0 <= i < locations.len() ==> (#[trigger] locations[i]) == (LocationInfo {
            comp_name: Some(comp),
            line: Some(i as usize),
        })
}

impl LogicModel {
    /// Adds the procedures among the commands to the spans of procedures.
    pub fn index_procedures(&mut self)
        ensures
            final(self).procedures_view() == with_procedures(
                old(self).procedures_view(),
                old(self).commands@,
                old(self).commands@.len() as int,
            ),
            final(self).commands == old(self).commands,
            final(self).cmd_location_map == old(self).cmd_location_map,
            final(self).states == old(self).states,
            final(self).pre_commands == old(self).pre_commands,
            old(self).wf() ==> final(self).wf(),
    {
        let mut i: usize = 0;
        while i < self.commands.len()
            invariant
                i <= self.commands.len(),
                self.procedures_view() == with_procedures(
                    old(self).procedures_view(),
                    old(self).commands@,
                    i as int,
                ),
                self.commands == old(self).commands,
                self.cmd_location_map == old(self).cmd_location_map,
                self.states == old(self).states,
                self.pre_commands == old(self).pre_commands,
                old(self).wf() ==> self.wf(),
            decreases self.commands.len() - i,
        {
            let span = match &self.commands[i] {
                Command::Procedure(p) => Some((p.name.clone(), p.start_line, p.end_line)),
                _ => None,
            };
            match span {
                Some(s) => {
                    self.set_procedure(s.0, (s.1, s.2));
                },
                None => {},
            }
            i += 1;
        }
    }

    /// The commands of the lines from `start` up to, but not including,
    /// `end`, moved to line zero, as the logic of the component `comp`:
    /// every command is located at its line of that component, and the
    /// procedures among the commands have their spans. None where a
    /// command holds a line before `start`.
    pub fn rebased_subset(&self, start: usize, end: usize, comp: &StringId) -> (r: Option<LogicModel>)
        requires
            start <= end <= self.commands@.len(),
        ensures
            match r {
                Some(l) => l.wf() && is_rebased_subset(l.commands@, self.commands@, start, end)
                    && located_in(l.cmd_location_map@, *comp) && l.states_view() == no_spans()
                    && l.procedures_view() == with_procedures(
                    no_spans(),
                    l.commands@,
                    l.commands@.len() as int,
                ) && l.pre_commands_view() == no_pre_commands(),
                None => exists|i: int|
                    start <= i < end && crate::machine::cmd::rebased_view(
                        (#[trigger] self.commands@[i])@,
                        start,
                        0,
                    ) is None,
            },
    {
        let mut logic = LogicModel::empty();
        let mut i: usize = start;
        while i < end
            invariant
                start <= i <= end <= self.commands@.len(),
                logic.wf(),
                is_rebased_subset(logic.commands@, self.commands@, start, i),
                located_in(logic.cmd_location_map@, *comp),
                logic.states_view() == no_spans(),
                logic.procedures_view() == no_spans(),
                logic.pre_commands_view() == no_pre_commands(),
            decreases end - i,
        {
            match self.commands[i].rebased(start, 0) {
                Some(c) => {
                    let ghost before = logic.commands@;
                    logic.push(c, LocationInfo::at(comp, i - start));
                    proof {
                        assert forall|j: int| 0 <= j < logic.commands@.len() implies crate::machine::cmd::rebased_view(
                            self.commands@[start + j]@,
                            start,
                            0,
                        ) == Some((#[trigger] logic.commands@[j])@) by {
                            if j < before.len() {
                                assert(logic.commands@[j] == before[j]);
                            }
                        }
                    }
                },
                None => {
                    return None;
                },
            }
            i += 1;
        }
        logic.index_procedures();
        Some(logic)
    }
}

/// The spans of `spans` together with those of `other`, the latter moved
/// by `shift` lines; where both have a name, the span of `other` stays.
pub open spec fn merged_spans(
    spans: Map<Seq<char>, (usize, usize)>,
    other: Map<Seq<char>, (usize, usize)>,
    shift: usize,
) -> Map<Seq<char>, (usize, usize)> {
    Map::new(
        |k: Seq<char>| spans.contains_key(k) || other.contains_key(k),
        |k: Seq<char>|
            if other.contains_key(k) {
                ((other[k].0 + shift) as usize, (other[k].1 + shift) as usize)
            } else {
                spans[k]
            },
    )
}

/// Whether every span, moved by `shift` lines, lies within `len` lines.
pub open spec fn spans_fit(other: Map<Seq<char>, (usize, usize)>, shift: usize, len: nat) -> bool {
    forall|k: Seq<char>| #[trigger]
        other.contains_key(k) ==> other[k].0 <= other[k].1 && other[k].1 + shift <= len
}

/// Adds the spans that `names` lists of `other`, moved by `shift` lines,
/// to `spans`; says whether all of them fit within `len` lines. Where one
/// does not, nothing is stated of `spans`.
fn merge_spans(
    spans: &mut FnvHashMap<StringId, (usize, usize)>,
    other: &FnvHashMap<StringId, (usize, usize)>,
    shift: usize,
    len: usize,
) -> (done: bool)
    ensures
        done == spans_fit(span_map_view(*other), shift, len as nat),
        done ==> span_map_view(*final(spans)) == merged_spans(
            span_map_view(*old(spans)),
            span_map_view(*other),
            shift,
        ),
{
    let names = span_map_names(other);
    let ghost o = span_map_view(*other);
    let ghost m = span_map_view(*spans);
    let mut i: usize = 0;
    while i < names.len()
        invariant
            i <= names.len(),
            o == span_map_view(*other),
            forall|j: int| 0 <= j < names@.len() ==> o.contains_key(#[trigger] names@[j]@),
            forall|j: int| 0 <= j < i ==> o[(#[trigger] names@[j])@].0 <= o[names@[j]@].1 && o[names@[j]@].1
                + shift <= len,
            forall|k: Seq<char>| #[trigger]
                span_map_view(*spans).contains_key(k) <==> m.contains_key(k) || exists|j: int|
                    0 <= j < i && names@[j]@ == k,
            forall|k: Seq<char>| #[trigger]
                span_map_view(*spans).contains_key(k) ==> span_map_view(*spans)[k] == (if exists|
                    j: int,
                | 0 <= j < i && names@[j]@ == k {
                    ((o[k].0 + shift) as usize, (o[k].1 + shift) as usize)
                } else {
                    m[k]
                }),
        decreases names.len() - i,
    {
        let span = match span_map_get(other, &names[i]) {
            Some(s) => s,
            None => (0, 0),
        };
        if span.0 > span.1 || span.1 > len || shift > len - span.1 {
            return false;
        }
        let ghost before = span_map_view(*spans);
        let ghost key = names@[i as int]@;
        span_map_insert(spans, names[i].clone(), (span.0 + shift, span.1 + shift));
        proof {
            assert forall|k: Seq<char>| #[trigger]
                span_map_view(*spans).contains_key(k) <==> m.contains_key(k) || exists|j: int|
                    0 <= j < i + 1 && names@[j]@ == k by {
                if k == key {
                    assert(names@[i as int]@ == k);
                }
                if exists|j: int| 0 <= j < i + 1 && names@[j]@ == k {
                    let j = choose|j: int| 0 <= j < i + 1 && names@[j]@ == k;
                    if j < i {
                        assert(before.contains_key(k));
                    }
                }
                if before.contains_key(k) && !m.contains_key(k) {
                    let j = choose|j: int| 0 <= j < i && names@[j]@ == k;
                    assert(0 <= j < i + 1 && names@[j]@ == k);
                }
            }
            assert forall|k: Seq<char>| #[trigger]
                span_map_view(*spans).contains_key(k) implies span_map_view(*spans)[k] == (if exists|
                j: int,
            | 0 <= j < i + 1 && names@[j]@ == k {
                ((o[k].0 + shift) as usize, (o[k].1 + shift) as usize)
            } else {
                m[k]
            }) by {
                if k == key {
                    assert(names@[i as int]@ == k);
                } else {
                    if exists|j: int| 0 <= j < i + 1 && names@[j]@ == k {
                        let j = choose|j: int| 0 <= j < i + 1 && names@[j]@ == k;
                        assert(0 <= j < i && names@[j]@ == k);
                    }
                    if exists|j: int| 0 <= j < i && names@[j]@ == k {
                        let j = choose|j: int| 0 <= j < i && names@[j]@ == k;
                        assert(0 <= j < i + 1 && names@[j]@ == k);
                    }
                }
            }
        }
        i += 1;
    }
    proof {
        assert forall|k: Seq<char>| #[trigger] o.contains_key(k) implies o[k].0 <= o[k].1 && o[k].1
            + shift <= len by {
            let j = choose|j: int| 0 <= j < names@.len() && names@[j]@ == k;
            assert(o[names@[j]@].0 <= o[names@[j]@].1);
        }
        let fin = span_map_view(*spans);
        let want = merged_spans(m, o, shift);
        assert forall|k: Seq<char>| fin.contains_key(k) == want.contains_key(k) by {
            if o.contains_key(k) {
                let j = choose|j: int| 0 <= j < names@.len() && names@[j]@ == k;
                assert(0 <= j < i && names@[j]@ == k);
            }
            if fin.contains_key(k) && !m.contains_key(k) {
                let j = choose|j: int| 0 <= j < i && names@[j]@ == k;
                assert(o.contains_key(names@[j]@));
            }
        }
        assert forall|k: Seq<char>| fin.contains_key(k) implies fin[k] == want[k] by {
            if o.contains_key(k) {
                let j = choose|j: int| 0 <= j < names@.len() && names@[j]@ == k;
                assert(0 <= j < i && names@[j]@ == k);
            } else {
                if exists|j: int| 0 <= j < i && names@[j]@ == k {
                    let j = choose|j: int| 0 <= j < i && names@[j]@ == k;
                    assert(o.contains_key(names@[j]@));
                }
            }
        }
        assert(fin =~= want);
    }
    true
}

/// Whether the commands are those of `first` and, behind them, those of
/// `second` moved to the end of `first`.
pub open spec fn is_extension(commands: Seq<Command>, first: Seq<Command>, second: Seq<Command>) -> bool {
    &&& commands.len() == first.len() + second.len()
    &&& first.len() <= usize::MAX
    &&& forall|i: int| 0 <= i < first.len() ==> (#[trigger] commands[i])@ == first[i]@
    &&& forall|i: int|
        0 <= i < second.len() ==> crate::machine::cmd::rebased_view(
            second[i]@,
            0,
            first.len() as usize,
        ) == Some((#[trigger] commands[first.len() + i])@)
}

/// Whether a logic can be extended by another: the commands of both
/// together do not leave the range of line numbers, nor do the lines that
/// the commands of `second` hold once they are moved, and every state and
/// every procedure of both lies within all the commands once those of
/// `second` are moved.
pub open spec fn can_extend(first: LogicModel, second: LogicModel) -> bool {
    let n = first.commands@.len();
    let total = n + second.commands@.len();
    &&& total <= usize::MAX
    &&& forall|i: int|
        0 <= i < second.commands@.len() ==> crate::machine::cmd::rebased_view(
            (#[trigger] second.commands@[i])@,
            0,
            n as usize,
        ) is Some
    &&& spans_fit(first.states_view(), 0, total as nat)
    &&& spans_fit(second.states_view(), n as usize, total as nat)
    &&& spans_fit(first.procedures_view(), 0, total as nat)
    &&& spans_fit(second.procedures_view(), n as usize, total as nat)
}

/// Whether `l` is the logic `first` of the component `comp` extended by
/// the logic `second`.
pub open spec fn is_extended(l: LogicModel, first: LogicModel, second: LogicModel, comp: StringId) -> bool {
    &&& l.wf()
    &&& is_extension(l.commands@, first.commands@, second.commands@)
    &&& located_in(l.cmd_location_map@, comp)
    &&& l.states_view() == merged_spans(
        first.states_view(),
        second.states_view(),
        first.commands@.len() as usize,
    )
    &&& l.procedures_view() == merged_spans(
        first.procedures_view(),
        second.procedures_view(),
        first.commands@.len() as usize,
    )
}

impl LogicModel {
    /// The logic of the component `comp` extended by another logic: behind
    /// its own commands stand those of `other`, moved to that place, each
    /// located at its line of `comp`; states and procedures of `other`
    /// come with their commands and take the place of those of the same
    /// name. None where lines leave the range of line numbers.
    pub fn extended(&self, other: &LogicModel, comp: &StringId) -> (r: Option<LogicModel>)
        ensures
            match r {
                Some(l) => can_extend(*self, *other) && is_extended(l, *self, *other, *comp),
                None => !can_extend(*self, *other),
            },
    {
        let n = self.commands.len();
        if other.commands.len() > usize::MAX - n {
            return None;
        }
        let mut logic = LogicModel::empty();
        let mut i: usize = 0;
        while i < n
            invariant
                i <= n,
                n == self.commands@.len(),
                logic.commands@.len() == i,
                logic.cmd_location_map@.len() == i,
                forall|j: int| 0 <= j < i ==> (#[trigger] logic.commands@[j])@ == self.commands@[j]@,
                located_in(logic.cmd_location_map@, *comp),
                logic.states_view() == no_spans(),
                logic.procedures_view() == no_spans(),
                logic.pre_commands_view() == no_pre_commands(),
            decreases n - i,
        {
            let ghost before = logic.commands@;
            logic.push(self.commands[i].clone(), LocationInfo::at(comp, i));
            proof {
                assert forall|j: int| 0 <= j < i + 1 implies (#[trigger] logic.commands@[j])@
                    == self.commands@[j]@ by {
                    if j < i {
                        assert(logic.commands@[j] == before[j]);
                    }
                }
            }
            i += 1;
        }
        let mut k: usize = 0;
        while k < other.commands.len()
            invariant
                k <= other.commands@.len(),
                n == self.commands@.len(),
                n + other.commands@.len() <= usize::MAX,
                logic.commands@.len() == n + k,
                logic.cmd_location_map@.len() == n + k,
                forall|j: int| 0 <= j < n ==> (#[trigger] logic.commands@[j])@ == self.commands@[j]@,
                forall|j: int|
                    0 <= j < k ==> crate::machine::cmd::rebased_view(other.commands@[j]@, 0, n) == Some(
                        (#[trigger] logic.commands@[n + j])@,
                    ),
                located_in(logic.cmd_location_map@, *comp),
                logic.states_view() == no_spans(),
                logic.procedures_view() == no_spans(),
                logic.pre_commands_view() == no_pre_commands(),
            decreases other.commands.len() - k,
        {
            match other.commands[k].rebased(0, n) {
                Some(c) => {
                    let ghost before = logic.commands@;
                    logic.push(c, LocationInfo::at(comp, n + k));
                    proof {
                        assert forall|j: int| 0 <= j < n implies (#[trigger] logic.commands@[j])@
                            == self.commands@[j]@ by {
                            assert(logic.commands@[j] == before[j]);
                        }
                        assert forall|j: int| 0 <= j < k + 1 implies crate::machine::cmd::rebased_view(
                            other.commands@[j]@,
                            0,
                            n,
                        ) == Some((#[trigger] logic.commands@[n + j])@) by {
                            if j < k {
                                assert(logic.commands@[n + j] == before[n + j]);
                            }
                        }
                    }
                },
                None => {
                    proof {
                        assert(crate::machine::cmd::rebased_view(other.commands@[k as int]@, 0, n)
                            is None);
                    }
                    return None;
                },
            }
            k += 1;
        }
        let total = logic.commands.len();
        let none: usize = 0;
        if !merge_spans(&mut logic.states, &self.states, none, total) {
            return None;
        }
        if !merge_spans(&mut logic.states, &other.states, n, total) {
            return None;
        }
        if !merge_spans(&mut logic.procedures, &self.procedures, none, total) {
            return None;
        }
        if !merge_spans(&mut logic.procedures, &other.procedures, n, total) {
            return None;
        }
        proof {
            let own = merged_spans(no_spans(), self.states_view(), 0);
            assert(own =~= self.states_view());
            let owp = merged_spans(no_spans(), self.procedures_view(), 0);
            assert(owp =~= self.procedures_view());
            assert forall|i: int| 0 <= i < other.commands@.len() implies crate::machine::cmd::rebased_view(
                (#[trigger] other.commands@[i])@,
                0,
                n,
            ) is Some by {
                assert(crate::machine::cmd::rebased_view(other.commands@[i]@, 0, n) == Some(
                    logic.commands@[n + i]@,
                ));
            }
        }
        Some(logic)
    }
}

/// Component model.
#[derive(Debug, Clone)]
pub struct ComponentModel {
    pub name: StringId,
    pub vars: Vec<VarModel>,
    pub start_state: StringId,
    pub triggers: Vec<StringId>,
    pub logic: LogicModel,
    pub source_files: Vec<String>,
    pub script_files: Vec<String>,
    pub lib_files: Vec<String>,
}

/// The position of the first of `names` that equals `name`.
pub open spec fn first_named(names: Seq<Seq<char>>, name: Seq<char>) -> Option<int>
    decreases names.len(),
{
    if names.len() == 0 {
        None
    } else if names[0] == name {
        Some(0int)
    } else {
        match first_named(names.drop_first(), name) {
            Some(i) => Some(i + 1),
            None => None,
        }
    }
}

/// What `first_named` finds is the first position with the name; it finds
/// none only where no position has the name.
pub proof fn lemma_first_named(names: Seq<Seq<char>>, name: Seq<char>)
    ensures
        match first_named(names, name) {
            Some(i) => 0 <= i < names.len() && names[i] == name && forall|j: int|
                0 <= j < i ==> names[j] != name,
            None => forall|j: int| 0 <= j < names.len() ==> names[j] != name,
        },
    decreases names.len(),
{
    if names.len() > 0 && names[0] != name {
        let rest = names.drop_first();
        lemma_first_named(rest, name);
        match first_named(rest, name) {
            Some(i) => {
                assert forall|j: int| 0 <= j < i + 1 implies names[j] != name by {
                    if j > 0 {
                        assert(names[j] == rest[j - 1]);
                    }
                }
            },
            None => {
                assert forall|j: int| 0 <= j < names.len() implies names[j] != name by {
                    if j > 0 {
                        assert(names[j] == rest[j - 1]);
                    }
                }
            },
        }
    }
}

/// The first position with the name is the only one that has the name and
/// none before it.
pub proof fn lemma_first_named_is(names: Seq<Seq<char>>, name: Seq<char>, i: int)
    requires
        0 <= i <= names.len(),
        forall|j: int| 0 <= j < i ==> names[j] != name,
        i < names.len() ==> names[i] == name,
    ensures
        first_named(names, name) == (if i < names.len() {
            Some(i)
        } else {
            None
        }),
{
    lemma_first_named(names, name);
}


/// Scenario module dependency.
#[derive(Debug, Clone, PartialEq)]
pub struct ScenarioModuleDep {
    pub name: String,
    pub version_req: String,
    pub git_address: Option<String>,
}

/// Module dependency on another module.
#[derive(Debug, Clone, PartialEq)]
pub struct ModuleDep {
    pub name: String,
    pub version_req: String,
    pub git_address: Option<String>,
}

/// Scenario manifest model.
#[derive(Debug, Clone, PartialEq)]
pub struct ScenarioManifest {
    pub name: String,
    /// Semver specifier for the scenario version
    pub version: String,
    /// Semver specifier for the engine version
    pub engine: String,
    pub mods: Vec<ScenarioModuleDep>,
    pub settings: Vec<Setting>,
    pub title: Option<String>,
    pub desc: Option<String>,
    pub desc_long: Option<String>,
    pub author: Option<String>,
    pub website: Option<String>,
}

/// One setting of a scenario.
#[derive(Debug, Clone, PartialEq)]
pub struct Setting {
    pub name: String,
    pub value: String,
}

/// Module manifest model.
#[derive(Debug, Clone, PartialEq)]
pub struct ModuleManifest {
    /// Module name
    pub name: String,
    /// Module version
    pub version: String,
    /// Required engine version
    pub engine_version_req: String,
    /// Required engine features
    pub engine_features: Vec<String>,
    /// List of other module dependencies for this module
    pub dependencies: Vec<ModuleDep>,
    pub reqs: Vec<String>,
    /// Free-form module name
    pub title: Option<String>,
    /// Module description
    pub desc: Option<String>,
    /// Longer module description
    pub desc_long: Option<String>,
    /// Author information
    pub author: Option<String>,
    /// Website information
    pub website: Option<String>,
}

/// Module model.
#[derive(Debug, Clone, PartialEq)]
pub struct Module {
    pub manifest: ModuleManifest,
}

/// Scenario model consisting of the manifest and list of modules.
#[derive(Debug, Clone, PartialEq)]
pub struct Scenario {
    /// Full path to scenario root directory
    pub path: String,
    /// Scenario manifest
    pub manifest: ScenarioManifest,
    /// List of modules
    pub modules: Vec<Module>,
}

/// Contains a collection of all the model data for the simulation.
///
/// The model is held by the simulation and used while it runs; it can
/// change at runtime, which changes the rules of the simulation. Where the
/// simulation is spread over several nodes, the model is what they all
/// share: changes are made centrally and handed on to every node.
#[derive(Debug, Clone)]
pub struct SimModel {
    pub scenario: Scenario,
    pub events: Vec<EventModel>,
    pub scripts: Vec<String>,
    pub entities: Vec<EntityPrefabModel>,
    pub components: Vec<ComponentModel>,
    pub data: Vec<DataEntry>,
    pub data_files: Vec<DataFileEntry>,
    pub data_imgs: Vec<DataImageEntry>,
}

/// The names of a sequence of prefabs.
pub open spec fn prefab_names(prefabs: Seq<EntityPrefabModel>) -> Seq<Seq<char>> {
    Seq::new(prefabs.len(), |i: int| prefabs[i].name@)
}

/// The names of a sequence of components.
pub open spec fn component_names(components: Seq<ComponentModel>) -> Seq<Seq<char>> {
    Seq::new(components.len(), |i: int| components[i].name@)
}

/// The names of a sequence of events.
pub open spec fn event_names(events: Seq<EventModel>) -> Seq<Seq<char>> {
    Seq::new(events.len(), |i: int| events[i].id@)
}

impl SimModel {
    /// The position of the first prefab with the name.
    pub fn entity_position(&self, name: &StringId) -> (r: Option<usize>)
        ensures
            match r {
                Some(i) => first_named(prefab_names(self.entities@), name@) == Some(i as int) && i
                    < self.entities@.len(),
                None => first_named(prefab_names(self.entities@), name@) is None,
            },
    {
        let mut i: usize = 0;
        while i < self.entities.len()
            invariant
                i <= self.entities.len(),
                forall|j: int| 0 <= j < i ==> prefab_names(self.entities@)[j] != name@,
            decreases self.entities.len() - i,
        {
            if self.entities[i].name == *name {
                proof {
                    lemma_first_named_is(prefab_names(self.entities@), name@, i as int);
                }
                return Some(i);
            }
            i += 1;
        }
        proof {
            lemma_first_named_is(prefab_names(self.entities@), name@, i as int);
        }
        None
    }

    /// The position of the first component with the name.
    pub fn component_position(&self, name: &StringId) -> (r: Option<usize>)
        ensures
            match r {
                Some(i) => first_named(component_names(self.components@), name@) == Some(i as int)
                    && i < self.components@.len(),
                None => first_named(component_names(self.components@), name@) is None,
            },
    {
        let mut i: usize = 0;
        while i < self.components.len()
            invariant
                i <= self.components.len(),
                forall|j: int| 0 <= j < i ==> component_names(self.components@)[j] != name@,
            decreases self.components.len() - i,
        {
            if self.components[i].name == *name {
                proof {
                    lemma_first_named_is(component_names(self.components@), name@, i as int);
                }
                return Some(i);
            }
            i += 1;
        }
        proof {
            lemma_first_named_is(component_names(self.components@), name@, i as int);
        }
        None
    }

    /// Whether the model has an event of the name.
    pub fn has_event(&self, name: &StringId) -> (r: bool)
        ensures
            r == event_names(self.events@).contains(name@),
    {
        let mut i: usize = 0;
        while i < self.events.len()
            invariant
                i <= self.events.len(),
                forall|j: int| 0 <= j < i ==> event_names(self.events@)[j] != name@,
            decreases self.events.len() - i,
        {
            if self.events[i].id == *name {
                proof {
                    assert(event_names(self.events@)[i as int] == name@);
                }
                return true;
            }
            i += 1;
        }
        false
    }

    /// Get reference to entity prefab using its name: the first prefab of
    /// that name.
    pub fn get_entity(&self, name: &StringId) -> (r: Option<&EntityPrefabModel>)
        ensures
            match r {
                Some(e) => first_named(prefab_names(self.entities@), name@) matches Some(i) && 0
                    <= i < self.entities@.len() && *e == self.entities@[i],
                None => first_named(prefab_names(self.entities@), name@) is None,
            },
    {
        match self.entity_position(name) {
            Some(i) => Some(&self.entities[i]),
            None => None,
        }
    }

    /// Get mutable reference to entity prefab using its name. What is
    /// written through the reference is what the model holds in that place
    /// afterwards; nothing else changes.
    pub fn get_entity_mut(&mut self, name: &StringId) -> (r: Option<&mut EntityPrefabModel>)
        ensures
            match r {
                Some(e) => first_named(prefab_names(old(self).entities@), name@) matches Some(i)
                    && 0 <= i < old(self).entities@.len() && *e == old(self).entities@[i]
                    && final(self).entities@ == old(self).entities@.update(i, *final(e)),
                None => first_named(prefab_names(old(self).entities@), name@) is None
                    && final(self).entities@ == old(self).entities@,
            },
            final(self).scenario == old(self).scenario,
            final(self).events == old(self).events,
            final(self).scripts == old(self).scripts,
            final(self).components == old(self).components,
            final(self).data == old(self).data,
            final(self).data_files == old(self).data_files,
            final(self).data_imgs == old(self).data_imgs,
    {
        match self.entity_position(name) {
            Some(i) => Some(&mut self.entities[i]),
            None => None,
        }
    }

    /// Get reference to component model using its name: the first
    /// component of that name.
    pub fn get_component(&self, name: &StringId) -> (r: Option<&ComponentModel>)
        ensures
            match r {
                Some(c) => first_named(component_names(self.components@), name@) matches Some(i)
                    && 0 <= i < self.components@.len() && *c == self.components@[i],
                None => first_named(component_names(self.components@), name@) is None,
            },
    {
        match self.component_position(name) {
            Some(i) => Some(&self.components[i]),
            None => None,
        }
    }

    /// Get mutable reference to component model using its name. What is
    /// written through the reference is what the model holds in that place
    /// afterwards; nothing else changes.
    pub fn get_component_mut(&mut self, name: &StringId) -> (r: Option<&mut ComponentModel>)
        ensures
            match r {
                Some(c) => first_named(component_names(old(self).components@), name@)
                    matches Some(i) && 0 <= i < old(self).components@.len() && *c == old(
                    self,
                ).components@[i] && final(self).components@ == old(self).components@.update(
                    i,
                    *final(c),
                ),
                None => first_named(component_names(old(self).components@), name@) is None
                    && final(self).components@ == old(self).components@,
            },
            final(self).scenario == old(self).scenario,
            final(self).events == old(self).events,
            final(self).scripts == old(self).scripts,
            final(self).entities == old(self).entities,
            final(self).data == old(self).data,
            final(self).data_files == old(self).data_files,
            final(self).data_imgs == old(self).data_imgs,
    {
        match self.component_position(name) {
            Some(i) => Some(&mut self.components[i]),
            None => None,
        }
    }
}


/// Whether two models differ in their events at most.
pub open spec fn same_but_events(a: SimModel, b: SimModel) -> bool {
    &&& a.scenario == b.scenario
    &&& a.scripts == b.scripts
    &&& a.entities == b.entities
    &&& a.components == b.components
    &&& a.data == b.data
    &&& a.data_files == b.data_files
    &&& a.data_imgs == b.data_imgs
}

/// Whether two models differ in their prefabs at most.
pub open spec fn same_but_entities(a: SimModel, b: SimModel) -> bool {
    &&& a.scenario == b.scenario
    &&& a.scripts == b.scripts
    &&& a.events == b.events
    &&& a.components == b.components
    &&& a.data == b.data
    &&& a.data_files == b.data_files
    &&& a.data_imgs == b.data_imgs
}

/// Whether two models differ in their components at most.
pub open spec fn same_but_components(a: SimModel, b: SimModel) -> bool {
    &&& a.scenario == b.scenario
    &&& a.scripts == b.scripts
    &&& a.events == b.events
    &&& a.entities == b.entities
    &&& a.data == b.data
    &&& a.data_files == b.data_files
    &&& a.data_imgs == b.data_imgs
}

/// Whether two component models differ in their variables at most.
pub open spec fn same_but_vars(a: ComponentModel, b: ComponentModel) -> bool {
    &&& a.name == b.name
    &&& a.start_state == b.start_state
    &&& a.triggers == b.triggers
    &&& a.logic == b.logic
    &&& a.source_files == b.source_files
    &&& a.script_files == b.script_files
    &&& a.lib_files == b.lib_files
}

/// Whether two component models differ in their triggers at most.
pub open spec fn same_but_triggers(a: ComponentModel, b: ComponentModel) -> bool {
    &&& a.name == b.name
    &&& a.start_state == b.start_state
    &&& a.vars == b.vars
    &&& a.logic == b.logic
    &&& a.source_files == b.source_files
    &&& a.script_files == b.script_files
    &&& a.lib_files == b.lib_files
}

/// Whether two component models differ in their logic at most.
pub open spec fn same_but_logic(a: ComponentModel, b: ComponentModel) -> bool {
    &&& a.name == b.name
    &&& a.start_state == b.start_state
    &&& a.vars == b.vars
    &&& a.triggers == b.triggers
    &&& a.source_files == b.source_files
    &&& a.script_files == b.script_files
    &&& a.lib_files == b.lib_files
}

impl Default for LogicModel {
    /// A logic model without commands, states or procedures.
    fn default() -> (r: LogicModel)
        ensures
            r.wf(),
            r.commands@.len() == 0,
            r.cmd_location_map@.len() == 0,
            r.pre_commands_view() == no_pre_commands(),
            r.states_view() == no_spans(),
            r.procedures_view() == no_spans(),
    {
        LogicModel::empty()
    }
}

impl ComponentModel {
    /// Whether the component is the blank one: its names are empty, and it
    /// has no variables, triggers, commands or files.
    pub open spec fn is_blank(&self) -> bool {
        &&& self.name@.len() == 0
        &&& self.start_state@.len() == 0
        &&& self.vars@.len() == 0
        &&& self.triggers@.len() == 0
        &&& self.logic.wf()
        &&& self.logic.commands@.len() == 0
        &&& self.logic.pre_commands_view() == no_pre_commands()
        &&& self.logic.states_view() == no_spans()
        &&& self.logic.procedures_view() == no_spans()
        &&& self.source_files@.len() == 0
        &&& self.script_files@.len() == 0
        &&& self.lib_files@.len() == 0
    }
}

impl Default for ComponentModel {
    /// The blank component.
    fn default() -> (r: ComponentModel)
        ensures
            r.is_blank(),
    {
        ComponentModel {
            name: StringId::new(),
            vars: Vec::new(),
            start_state: StringId::new(),
            triggers: Vec::new(),
            logic: LogicModel::empty(),
            source_files: Vec::new(),
            script_files: Vec::new(),
            lib_files: Vec::new(),
        }
    }
}

impl Default for EntityPrefabModel {
    /// A prefab with the empty name and without components.
    fn default() -> (r: EntityPrefabModel)
        ensures
            r.name@.len() == 0,
            r.components@.len() == 0,
    {
        EntityPrefabModel { name: StringId::new(), components: Vec::new() }
    }
}

impl ScenarioManifest {
    /// Whether the manifest is the blank one: its texts are empty, it
    /// names no modules and no settings, and what may be left out is.
    pub open spec fn is_blank(&self) -> bool {
        &&& self.name@.len() == 0
        &&& self.version@.len() == 0
        &&& self.engine@.len() == 0
        &&& self.mods@.len() == 0
        &&& self.settings@.len() == 0
        &&& self.title is None
        &&& self.desc is None
        &&& self.desc_long is None
        &&& self.author is None
        &&& self.website is None
    }
}

impl Default for ScenarioManifest {
    /// The blank manifest.
    fn default() -> (r: ScenarioManifest)
        ensures
            r.is_blank(),
    {
        ScenarioManifest {
            name: String::new(),
            version: String::new(),
            engine: String::new(),
            mods: Vec::new(),
            settings: Vec::new(),
            title: None,
            desc: None,
            desc_long: None,
            author: None,
            website: None,
        }
    }
}

impl Scenario {
    /// Whether the scenario is the blank one: no path, the blank manifest
    /// and no modules.
    pub open spec fn is_blank(&self) -> bool {
        &&& self.path@.len() == 0
        &&& self.manifest.is_blank()
        &&& self.modules@.len() == 0
    }
}

impl Default for Scenario {
    /// The blank scenario.
    fn default() -> (r: Scenario)
        ensures
            r.is_blank(),
    {
        Scenario { path: String::new(), manifest: ScenarioManifest::default(), modules: Vec::new() }
    }
}

impl Default for SimModel {
    /// The model of the blank scenario, with nothing in it.
    fn default() -> (r: SimModel)
        ensures
            r.scenario.is_blank(),
            r.events@.len() == 0,
            r.scripts@.len() == 0,
            r.entities@.len() == 0,
            r.components@.len() == 0,
            r.data@.len() == 0,
            r.data_files@.len() == 0,
            r.data_imgs@.len() == 0,
    {
        SimModel {
            scenario: Scenario::default(),
            events: Vec::new(),
            scripts: Vec::new(),
            entities: Vec::new(),
            components: Vec::new(),
            data: Vec::new(),
            data_files: Vec::new(),
            data_imgs: Vec::new(),
        }
    }
}

} // verus!
