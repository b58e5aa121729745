//! Registration: commands that add to the model. They are built where a
//! module's script is read and run in the scope of the central authority.

use vstd::prelude::*;
use crate::address::{local_address_of_text, LocalAddress};
use crate::machine::cmd::flow::{
    block_owner, component_frame, error_result, fail, is_block_error, named_block, owner_of,
    span_of, State,
};
use crate::machine::cmd::set::{opt_text, var_from_literal, var_of_literal};
use crate::machine::cmd::{rebase_span, rebased_span, CentralRemoteCommand, Command, CommandResult};
use crate::machine::error::{
    is_body_error, is_other_error, is_parse_error, Error, ErrorKind, Result,
};
use crate::machine::{after, line_after, CallInfo, CommandPrototype, FrameKind, LocationInfo};
use crate::model::{
    can_extend, component_names, event_names, first_named, is_extended, is_rebased_subset,
    located_in, no_spans,
    prefab_names, same_but_components, same_but_entities, same_but_events, same_but_logic,
    same_but_triggers, same_but_vars, with_procedures, ComponentModel, EntityPrefabModel,
    EventModel, SimModel, VarModel,
};
use crate::sim::{enqueued, main_state, main_state_text, queue_holds};
use crate::string::{clone_ids, clone_opt, names, truncated, StringId};
use crate::text::{joined_with, join_from, texts};
use crate::var::{Var, VarType, VarView};

verus! {

/// `event <name>`: adds an event to the model.
#[derive(Debug, PartialEq)]
pub struct RegisterEvent {
    pub name: StringId,
}

impl Clone for RegisterEvent {
    fn clone(&self) -> (r: Self)
        ensures
            r == *self,
    {
        RegisterEvent { name: self.name.clone() }
    }
}

impl RegisterEvent {
    /// What `new` returns for given arguments.
    pub open spec fn built(args: Seq<String>, location: LocationInfo, r: Result<RegisterEvent>) -> bool {
        match r {
            Ok(c) => args.len() >= 1 && c.name@ == truncated(args[0]@),
            Err(e) => args.len() == 0 && is_body_error(e, location, "a name is expected"@),
        }
    }

    /// Builds the command from the name in the first argument.
    pub fn new(args: Vec<String>, location: &LocationInfo) -> (r: Result<RegisterEvent>)
        ensures
            RegisterEvent::built(args@, *location, r),
    {
        if args.len() < 1 {
            return fail(location, ErrorKind::InvalidCommandBody("a name is expected".to_owned()));
        }
        Ok(RegisterEvent { name: StringId::new_truncate(args[0].as_str()) })
    }
}

/// `prefab <name> <component>...`: adds an entity prefab to the model.
#[derive(Debug, PartialEq)]
pub struct RegisterEntityPrefab {
    pub name: StringId,
    pub components: Vec<StringId>,
}

impl View for RegisterEntityPrefab {
    type V = (StringId, Seq<StringId>);

    open spec fn view(&self) -> (StringId, Seq<StringId>) {
        (self.name, self.components@)
    }
}

impl Clone for RegisterEntityPrefab {
    fn clone(&self) -> (r: Self)
        ensures
            r@ == self@,
    {
        RegisterEntityPrefab { name: self.name.clone(), components: clone_ids(&self.components) }
    }
}

impl RegisterEntityPrefab {
    /// What `new` returns for given arguments.
    pub open spec fn built(
        args: Seq<String>,
        location: LocationInfo,
        r: Result<RegisterEntityPrefab>,
    ) -> bool {
        match r {
            Ok(c) => args.len() >= 1 && c.name@ == truncated(args[0]@) && names(c.components@)
                == Seq::new((args.len() - 1) as nat, |i: int| truncated(args[i + 1]@)),
            Err(e) => args.len() == 0 && is_body_error(e, location, "a name is expected"@),
        }
    }

    /// Builds the command from the name in the first argument and the
    /// names of components in the others.
    pub fn new(args: Vec<String>, location: &LocationInfo) -> (r: Result<RegisterEntityPrefab>)
        ensures
            RegisterEntityPrefab::built(args@, *location, r),
    {
        if args.len() < 1 {
            return fail(location, ErrorKind::InvalidCommandBody("a name is expected".to_owned()));
        }
        let mut components: Vec<StringId> = Vec::new();
        let mut i: usize = 1;
        while i < args.len()
            invariant
                1 <= i <= args.len(),
                components@.len() == i - 1,
                forall|j: int| 0 <= j < i - 1 ==> (#[trigger] components@[j])@ == truncated(args@[j + 1]@),
            decreases args.len() - i,
        {
            components.push(StringId::new_truncate(args[i].as_str()));
            i += 1;
        }
        proof {
            assert(names(components@) =~= Seq::new(
                (args@.len() - 1) as nat,
                |i: int| truncated(args@[i + 1]@),
            ));
        }
        Ok(RegisterEntityPrefab { name: StringId::new_truncate(args[0].as_str()), components })
    }
}

/// `component <name>`: opens the block that defines a component and adds
/// the component to the model.
#[derive(Debug, PartialEq)]
pub struct RegisterComponent {
    pub name: StringId,
    pub start_line: usize,
    pub end_line: usize,
}

impl Clone for RegisterComponent {
    fn clone(&self) -> (r: Self)
        ensures
            r == *self,
    {
        RegisterComponent {
            name: self.name.clone(),
            start_line: self.start_line,
            end_line: self.end_line,
        }
    }
}

impl RegisterComponent {
    /// What `new` returns for given arguments.
    pub open spec fn built(
        args: Seq<String>,
        location: LocationInfo,
        commands: Seq<CommandPrototype>,
        r: Result<Command>,
    ) -> bool {
        match r {
            Ok(Command::RegisterComponent(c)) => named_block(texts(args), commands, location)
                == Some((c.name@, c.start_line, c.end_line)) && c.start_line < c.end_line,
            Ok(_) => false,
            Err(e) => named_block(texts(args), commands, location) is None && is_block_error(
                e,
                args,
                location,
            ),
        }
    }

    /// Builds the command from the name in the first argument and the
    /// lines of the block.
    pub fn new(args: Vec<String>, location: &LocationInfo, commands: &Vec<CommandPrototype>) -> (r:
        Result<Command>)
        ensures
            RegisterComponent::built(args@, *location, commands@, r),
    {
        if args.len() < 1 {
            return fail(location, ErrorKind::InvalidCommandBody("a name is expected".to_owned()));
        }
        match span_of(commands, location) {
            Some(s) => Ok(
                Command::RegisterComponent(
                    RegisterComponent {
                        name: StringId::new_truncate(args[0].as_str()),
                        start_line: s.0,
                        end_line: s.1,
                    },
                ),
            ),
            None => fail(
                location,
                ErrorKind::InvalidCommandBody("the block is not closed".to_owned()),
            ),
        }
    }
}

/// `trigger <event> [component]`: lets an event trigger a component; where
/// no component is named, the one whose block the command stands in.
#[derive(Debug, PartialEq)]
pub struct RegisterTrigger {
    pub name: StringId,
    pub comp: Option<StringId>,
}

impl Clone for RegisterTrigger {
    fn clone(&self) -> (r: Self)
        ensures
            r == *self,
    {
        RegisterTrigger { name: self.name.clone(), comp: clone_opt(&self.comp) }
    }
}

impl RegisterTrigger {
    /// What `new` returns for given arguments.
    pub open spec fn built(args: Seq<String>, location: LocationInfo, r: Result<RegisterTrigger>) -> bool {
        match r {
            Ok(c) => args.len() >= 1 && c.name@ == truncated(args[0]@) && opt_text(c.comp) == (
            if args.len() >= 2 {
                Some(truncated(args[1]@))
            } else {
                None
            }),
            Err(e) => args.len() == 0 && is_body_error(e, location, "a name is expected"@),
        }
    }

    /// Builds the command from the name of the event and, where given,
    /// that of the component.
    pub fn new(args: Vec<String>, location: &LocationInfo) -> (r: Result<RegisterTrigger>)
        ensures
            RegisterTrigger::built(args@, *location, r),
    {
        if args.len() < 1 {
            return fail(location, ErrorKind::InvalidCommandBody("a name is expected".to_owned()));
        }
        let comp = if args.len() >= 2 {
            Some(StringId::new_truncate(args[1].as_str()))
        } else {
            None
        };
        Ok(RegisterTrigger { name: StringId::new_truncate(args[0].as_str()), comp })
    }
}

/// `var <address> [default]`: adds a variable to a component; where the
/// address names no component, to the one whose block the command stands
/// in.
#[derive(Debug, PartialEq)]
pub struct RegisterVar {
    pub comp: Option<StringId>,
    pub var_type: VarType,
    pub var_id: StringId,
    pub default: Option<Var>,
}

/// The mathematical content of a `RegisterVar`.
pub struct RegisterVarView {
    pub comp: Option<StringId>,
    pub var_type: VarType,
    pub var_id: StringId,
    pub default: Option<VarView>,
}

/// The content of an optional value.
pub open spec fn opt_var_view(v: Option<Var>) -> Option<VarView> {
    match v {
        Some(x) => Some(x@),
        None => None,
    }
}

impl View for RegisterVar {
    type V = RegisterVarView;

    open spec fn view(&self) -> RegisterVarView {
        RegisterVarView {
            comp: self.comp,
            var_type: self.var_type,
            var_id: self.var_id,
            default: opt_var_view(self.default),
        }
    }
}

impl Clone for RegisterVar {
    fn clone(&self) -> (r: Self)
        ensures
            r@ == self@,
    {
        RegisterVar {
            comp: clone_opt(&self.comp),
            var_type: self.var_type,
            var_id: self.var_id.clone(),
            default: match &self.default {
                Some(v) => Some(v.clone()),
                None => None,
            },
        }
    }
}

/// The default that the arguments behind the address write, taken
/// together with one space between neighbours, for a variable of the given
/// kind: none where there are no such arguments.
pub open spec fn default_of_args(args: Seq<Seq<char>>, kind: VarType) -> Option<Option<VarView>> {
    if args.len() < 2 {
        Some(None)
    } else {
        match var_of_literal(kind, joined_with(args.skip(1), seq![' '])) {
            Some(v) => Some(Some(v)),
            None => None,
        }
    }
}

impl RegisterVar {
    /// What `new` returns for given arguments.
    pub open spec fn built(args: Seq<String>, location: LocationInfo, r: Result<RegisterVar>) -> bool {
        if args.len() == 0 {
            r matches Err(e) && is_body_error(e, location, "an address is expected"@)
        } else {
            match local_address_of_text(args[0]@) {
                None => r matches Err(e) && is_parse_error(e, location, args[0]@),
                Some(a) => match default_of_args(texts(args), a.var_type) {
                    None => r matches Err(e) && is_parse_error(
                        e,
                        location,
                        "the default is not of the kind"@,
                    ),
                    Some(d) => r matches Ok(c) && opt_text(c.comp) == a.comp && c.var_type
                        == a.var_type && c.var_id@ == a.var_id && opt_var_view(c.default) == d,
                },
            }
        }
    }

    /// Builds the command from the address of the variable and, where
    /// given, the literal of its default.
    pub fn new(args: Vec<String>, location: &LocationInfo) -> (r: Result<RegisterVar>)
        ensures
            RegisterVar::built(args@, *location, r),
    {
        if args.len() < 1 {
            return fail(location, ErrorKind::InvalidCommandBody("an address is expected".to_owned()));
        }
        let addr = match LocalAddress::from_str(args[0].as_str()) {
            Ok(a) => a,
            Err(kind) => {
                return fail(location, kind);
            },
        };
        let default = if args.len() >= 2 {
            let space = vec![' '];
            proof {
                assert(space@ =~= seq![' ']);
            }
            let text = join_from(&args, 1, &space);
            match var_from_literal(addr.var_type, &text) {
                Some(v) => Some(v),
                None => {
                    return fail(
                        location,
                        ErrorKind::ParseError("the default is not of the kind".to_owned()),
                    );
                },
            }
        } else {
            None
        };
        Ok(RegisterVar { comp: addr.comp, var_type: addr.var_type, var_id: addr.var_id, default })
    }
}

/// `extend <target> <source>`: appends the logic of one component to that
/// of another.
#[derive(Debug, PartialEq)]
pub struct Extend {
    pub target: StringId,
    pub source: StringId,
}

impl Clone for Extend {
    fn clone(&self) -> (r: Self)
        ensures
            r == *self,
    {
        Extend { target: self.target.clone(), source: self.source.clone() }
    }
}

impl Extend {
    /// What `new` returns for given arguments.
    pub open spec fn built(args: Seq<String>, location: LocationInfo, r: Result<Extend>) -> bool {
        match r {
            Ok(c) => args.len() >= 2 && c.target@ == truncated(args[0]@) && c.source@ == truncated(
                args[1]@,
            ),
            Err(e) => args.len() < 2 && is_body_error(e, location, "two components are expected"@),
        }
    }

    /// Builds the command from the names of the two components.
    pub fn new(args: Vec<String>, location: &LocationInfo) -> (r: Result<Extend>)
        ensures
            Extend::built(args@, *location, r),
    {
        if args.len() < 2 {
            return fail(
                location,
                ErrorKind::InvalidCommandBody("two components are expected".to_owned()),
            );
        }
        Ok(
            Extend {
                target: StringId::new_truncate(args[0].as_str()),
                source: StringId::new_truncate(args[1].as_str()),
            },
        )
    }
}


/// Whether an error is one of the central authority: `Other` with the
/// given message, at no place of a program.
pub open spec fn is_refusal(e: Error, message: Seq<char>) -> bool {
    is_other_error(e, LocationInfo { comp_name: None, line: None }, message)
}

/// An error of the central authority, which has no place in a program.
pub fn refuse<T>(message: &str) -> (r: Result<T>)
    ensures
        r matches Err(e) && is_refusal(e, message@),
{
    fail(&LocationInfo::empty(), ErrorKind::Other(message.to_owned()))
}

/// The two results of a command that hands work to the central authority
/// and lets execution go on.
fn hand_over(command: CentralRemoteCommand) -> (r: Vec<CommandResult>)
    ensures
        r@ == seq![CommandResult::ExecCentralExt(command), CommandResult::Continue],
{
    let mut out: Vec<CommandResult> = Vec::new();
    out.push(CommandResult::ExecCentralExt(command));
    out.push(CommandResult::Continue);
    out
}

fn one_error(location: &LocationInfo, message: &str) -> (r: Vec<CommandResult>)
    ensures
        r@.len() == 1,
        r@[0] matches CommandResult::Error(e) && is_other_error(e, *location, message@),
{
    let mut out: Vec<CommandResult> = Vec::new();
    out.push(error_result(location, ErrorKind::Other(message.to_owned())));
    out
}

impl RegisterEvent {
    /// Executes the command: the event is handed to the central authority
    /// to be registered, and execution goes on.
    pub fn execute_loc(&self) -> (r: Vec<CommandResult>)
        ensures
            r@ == seq![
                CommandResult::ExecCentralExt(CentralRemoteCommand::RegisterEvent(*self)),
                CommandResult::Continue,
            ],
    {
        hand_over(CentralRemoteCommand::RegisterEvent(self.clone()))
    }

    /// What `apply` does to the model.
    pub open spec fn applied(self, before: SimModel, after: SimModel, r: Result<()>) -> bool {
        &&& r is Ok
        &&& same_but_events(after, before)
        &&& event_names(after.events@) == enqueued(event_names(before.events@), self.name@)
    }

    /// Adds the event to the model, unless the model has an event of the
    /// name.
    pub fn apply(&self, model: &mut SimModel) -> (r: Result<()>)
        ensures
            self.applied(*old(model), *final(model), r),
    {
        if !model.has_event(&self.name) {
            let ghost before = event_names(model.events@);
            model.events.push(EventModel { id: self.name.clone() });
            proof {
                assert(event_names(model.events@) =~= before.push(self.name@));
            }
        }
        Ok(())
    }
}

impl RegisterEntityPrefab {
    /// Executes the command: the prefab is handed to the central authority
    /// to be registered, and execution goes on.
    pub fn execute_loc(&self) -> (r: Vec<CommandResult>)
        ensures
            r@.len() == 2,
            r@[0] matches CommandResult::ExecCentralExt(CentralRemoteCommand::RegisterEntityPrefab(c))
                && c@ == self@,
            r@[1] == CommandResult::Continue,
    {
        hand_over(CentralRemoteCommand::RegisterEntityPrefab(self.clone()))
    }

    /// What `apply` does to the model.
    pub open spec fn applied(self, before: SimModel, after: SimModel, r: Result<()>) -> bool {
        &&& same_but_entities(after, before)
        &&& match r {
            Ok(_) => first_named(prefab_names(before.entities@), self.name@) is None
                && after.entities@.len() == before.entities@.len() + 1
                && after.entities@.drop_last() == before.entities@
                && after.entities@.last().name == self.name
                && after.entities@.last().components@ == self.components@,
            Err(e) => first_named(prefab_names(before.entities@), self.name@) is Some
                && after.entities == before.entities && is_refusal(
                e,
                "a prefab of the name is registered already"@,
            ),
            }
    }

    /// Adds the prefab to the model. A prefab of the name that the model
    /// has already is an error, and the model stays as it is.
    pub fn apply(&self, model: &mut SimModel) -> (r: Result<()>)
        ensures
            self.applied(*old(model), *final(model), r),
    {
        if model.entity_position(&self.name).is_some() {
            return refuse("a prefab of the name is registered already");
        }
        let ghost before = model.entities@;
        model.entities.push(
            EntityPrefabModel { name: self.name.clone(), components: clone_ids(&self.components) },
        );
        proof {
            assert(model.entities@.drop_last() =~= before);
        }
        Ok(())
    }
}

/// Whether a component is as a block of the program of `source` defines
/// it: it has the name, no variables and no triggers, starts in the state
/// `main`, and its logic is the inside of the block, moved to line zero.
pub open spec fn defined_by(
    c: ComponentModel,
    name: StringId,
    source: ComponentModel,
    start_line: usize,
    end_line: usize,
) -> bool {
    &&& c.name == name
    &&& c.vars@.len() == 0
    &&& c.triggers@.len() == 0
    &&& c.start_state@ == main_state_text()
    &&& c.logic.wf()
    &&& is_rebased_subset(
        c.logic.commands@,
        source.logic.commands@,
        line_after(start_line),
        end_line,
    )
    &&& located_in(c.logic.cmd_location_map@, name)
    &&& c.logic.states_view() == no_spans()
    &&& c.logic.procedures_view() == with_procedures(
        no_spans(),
        c.logic.commands@,
        c.logic.commands@.len() as int,
    )
}

/// Whether a block of the program of `source` can become a component of
/// the given name: the model has no component of the name, it has
/// `source`, the block lies within the program of `source`, and none of
/// the commands inside the block holds a line from before the block.
pub open spec fn definable(
    model: SimModel,
    name: StringId,
    start_line: usize,
    end_line: usize,
    source: StringId,
) -> bool {
    &&& first_named(component_names(model.components@), name@) is None
    &&& first_named(component_names(model.components@), source@) matches Some(s) && ({
        let commands = model.components@[s].logic.commands@;
        let first = line_after(start_line);
        &&& first <= end_line <= commands.len()
        &&& forall|i: int|
            first <= i < end_line ==> crate::machine::cmd::rebased_view(
                (#[trigger] commands[i])@,
                first,
                0,
            ) is Some
    })
}

/// What `define_component` does to the model.
pub open spec fn defined(
    before: SimModel,
    after: SimModel,
    name: StringId,
    start_line: usize,
    end_line: usize,
    source: StringId,
    r: Result<()>,
) -> bool {
    &&& same_but_components(after, before)
    &&& r is Ok <==> definable(before, name, start_line, end_line, source)
    &&& match r {
        Ok(_) => first_named(component_names(before.components@), source@) matches Some(s)
            && after.components@.len() == before.components@.len() + 1
            && after.components@.drop_last() == before.components@ && defined_by(
            after.components@.last(),
            name,
            before.components@[s],
            start_line,
            end_line,
        ),
        Err(e) => after.components@ == before.components@ && is_refusal(
            e,
            if first_named(component_names(before.components@), name@) is Some {
                "a component of the name is registered already"@
            } else {
                "the block of the component cannot be taken from the program"@
            },
        ),
    }
}

/// Adds to the model the component that a block of the program of the
/// component `source` defines. It is an error, and the model stays as it
/// is, where the model has a component of the name already, where it lacks
/// `source`, or where the block does not lie within the program or holds
/// lines from before it.
pub fn define_component(
    model: &mut SimModel,
    name: &StringId,
    start_line: usize,
    end_line: usize,
    source: &StringId,
) -> (r: Result<()>)
    ensures
        defined(*old(model), *final(model), *name, start_line, end_line, *source, r),
{
    if model.component_position(name).is_some() {
        return refuse("a component of the name is registered already");
    }
    let logic = match model.get_component(source) {
        Some(c) => {
            let start = after(start_line);
            if start <= end_line && end_line <= c.logic.commands.len() {
                c.logic.rebased_subset(start, end_line, name)
            } else {
                None
            }
        },
        None => None,
    };
    match logic {
        Some(logic) => {
            let ghost before = model.components@;
            proof {
                let s = first_named(component_names(before), source@)->0;
                let commands = before[s].logic.commands@;
                let first = line_after(start_line);
                assert forall|i: int| first <= i < end_line implies crate::machine::cmd::rebased_view(
                    (#[trigger] commands[i])@,
                    first,
                    0,
                ) is Some by {
                    assert(crate::machine::cmd::rebased_view(commands[first + (i - first)]@, first, 0)
                        == Some(logic.commands@[i - first]@));
                }
            }
            model.components.push(
                ComponentModel {
                    name: name.clone(),
                    vars: Vec::new(),
                    start_state: main_state(),
                    triggers: Vec::new(),
                    logic,
                    source_files: Vec::new(),
                    script_files: Vec::new(),
                    lib_files: Vec::new(),
                },
            );
            proof {
                assert(model.components@.drop_last() =~= before);
            }
            Ok(())
        },
        None => refuse("the block of the component cannot be taken from the program"),
    }
}

impl RegisterComponent {
    /// Executes the command: the component is handed to the central
    /// authority to be registered, a frame for the block is pushed, and
    /// execution goes on inside the block.
    pub fn execute_loc(&self, call_stack: &mut Vec<CallInfo>) -> (r: Vec<CommandResult>)
        ensures
            final(call_stack)@ == old(call_stack)@.push(
                component_frame(self.name, self.start_line, self.end_line),
            ),
            r@ == seq![
                CommandResult::ExecCentralExt(CentralRemoteCommand::RegisterComponent(*self)),
                CommandResult::Continue,
            ],
    {
        call_stack.push(
            CallInfo {
                kind: FrameKind::Component,
                start_line: self.start_line,
                end_line: self.end_line,
                return_line: 0,
                iteration: 0,
                name: Some(self.name.clone()),
            },
        );
        hand_over(CentralRemoteCommand::RegisterComponent(self.clone()))
    }

    /// What `apply` does to the model.
    pub open spec fn applied(
        self,
        before: SimModel,
        after: SimModel,
        source: StringId,
        r: Result<()>,
    ) -> bool {
        defined(before, after, self.name, self.start_line, self.end_line, source, r)
    }

    /// Adds the component to the model, as `define_component` does, from
    /// the program of the component `source`.
    pub fn apply(&self, model: &mut SimModel, source: &StringId) -> (r: Result<()>)
        ensures
            self.applied(*old(model), *final(model), *source, r),
    {
        define_component(model, &self.name, self.start_line, self.end_line, source)
    }
}

/// The component that a command belongs to: the one that it names or,
/// where it names none, the one whose block it stands in.
pub open spec fn owner(comp: Option<StringId>, stack: Seq<CallInfo>) -> Option<StringId> {
    match comp {
        Some(c) => Some(c),
        None => match block_owner(stack) {
            Some(o) => Some(o.0),
            None => None,
        },
    }
}

fn owner_name(comp: &Option<StringId>, call_stack: &Vec<CallInfo>) -> (r: Option<StringId>)
    ensures
        r == owner(*comp, call_stack@),
{
    match comp {
        Some(c) => Some(c.clone()),
        None => match owner_of(call_stack) {
            Some(o) => Some(o.0),
            None => None,
        },
    }
}

/// Whether a component model is another with one more variable, which is
/// as the command says.
pub open spec fn var_added(before: ComponentModel, after: ComponentModel, cmd: RegisterVar) -> bool {
    &&& same_but_vars(after, before)
    &&& after.vars@.len() == before.vars@.len() + 1
    &&& after.vars@.drop_last() == before.vars@
    &&& after.vars@.last().id@ == cmd.var_id@
    &&& after.vars@.last().type_ == cmd.var_type
    &&& opt_var_view(after.vars@.last().default) == opt_var_view(cmd.default)
}

impl RegisterVar {
    /// Executes the command: the variable is handed to the central
    /// authority to be registered with its component, and execution goes
    /// on. A variable that names no component and stands in no component
    /// block is an error.
    pub fn execute_loc(&self, call_stack: &Vec<CallInfo>, location: &LocationInfo) -> (r: Vec<
        CommandResult,
    >)
        ensures
            match owner(self.comp, call_stack@) {
                Some(c) => r@.len() == 2 && (r@[0] matches CommandResult::ExecCentralExt(
                    CentralRemoteCommand::RegisterVar(x),
                ) && x@ == (RegisterVar { comp: Some(c), ..*self })@) && r@[1]
                    == CommandResult::Continue,
                None => r@.len() == 1 && (r@[0] matches CommandResult::Error(e) && is_other_error(
                    e,
                    *location,
                    "the variable belongs to no component"@,
                )),
            },
    {
        match owner_name(&self.comp, call_stack) {
            Some(c) => {
                let x = self.clone();
                hand_over(
                    CentralRemoteCommand::RegisterVar(
                        RegisterVar {
                            comp: Some(c),
                            var_type: x.var_type,
                            var_id: x.var_id,
                            default: x.default,
                        },
                    ),
                )
            },
            None => one_error(location, "the variable belongs to no component"),
        }
    }

    /// What `apply` does to the model.
    pub open spec fn applied(self, before: SimModel, after: SimModel, r: Result<()>) -> bool {
        &&& same_but_components(after, before)
        &&& r is Ok <==> (self.comp matches Some(c) && first_named(
            component_names(before.components@),
            c@,
        ) is Some)
        &&& match r {
            Ok(_) => self.comp matches Some(c) && (first_named(
                component_names(before.components@),
                c@,
            ) matches Some(i) && after.components@.len() == before.components@.len()
                && after.components@ == before.components@.update(
                i,
                after.components@[i],
            ) && var_added(before.components@[i], after.components@[i], self)),
            Err(e) => after.components@ == before.components@ && is_refusal(
                e,
                if self.comp is None {
                    "the variable belongs to no component"@
                } else {
                    "the model lacks the component of the variable"@
                },
            ),
            }
    }

    /// Adds the variable to its component. It is an error, and the model
    /// stays as it is, where the command names no component or the model
    /// lacks the component.
    pub fn apply(&self, model: &mut SimModel) -> (r: Result<()>)
        ensures
            self.applied(*old(model), *final(model), r),
    {
        let name = match &self.comp {
            Some(c) => c,
            None => {
                return refuse("the variable belongs to no component");
            },
        };
        let default = match &self.default {
            Some(v) => Some(v.clone()),
            None => None,
        };
        let var = VarModel { id: self.var_id.to_string(), type_: self.var_type, default };
        match model.get_component_mut(name) {
            Some(c) => {
                let ghost before = c.vars@;
                c.vars.push(var);
                proof {
                    assert(c.vars@.drop_last() =~= before);
                }
                Ok(())
            },
            None => refuse("the model lacks the component of the variable"),
        }
    }
}

/// Whether a component model is another with the trigger added, unless it
/// had the trigger already.
pub open spec fn trigger_added(before: ComponentModel, after: ComponentModel, event: Seq<char>) -> bool {
    &&& same_but_triggers(after, before)
    &&& names(after.triggers@) == enqueued(names(before.triggers@), event)
}

impl RegisterTrigger {
    /// Executes the command: the trigger is handed to the central
    /// authority to be registered with its component, and execution goes
    /// on. A trigger that names no component and stands in no component
    /// block is an error.
    pub fn execute_loc(&self, call_stack: &Vec<CallInfo>, location: &LocationInfo) -> (r: Vec<
        CommandResult,
    >)
        ensures
            match owner(self.comp, call_stack@) {
                Some(c) => r@ == seq![
                    CommandResult::ExecCentralExt(
                        CentralRemoteCommand::RegisterTrigger(
                            RegisterTrigger { comp: Some(c), ..*self },
                        ),
                    ),
                    CommandResult::Continue,
                ],
                None => r@.len() == 1 && (r@[0] matches CommandResult::Error(e) && is_other_error(
                    e,
                    *location,
                    "the trigger belongs to no component"@,
                )),
            },
    {
        match owner_name(&self.comp, call_stack) {
            Some(c) => hand_over(
                CentralRemoteCommand::RegisterTrigger(
                    RegisterTrigger { name: self.name.clone(), comp: Some(c) },
                ),
            ),
            None => one_error(location, "the trigger belongs to no component"),
        }
    }

    /// What `apply` does to the model.
    pub open spec fn applied(self, before: SimModel, after: SimModel, r: Result<()>) -> bool {
        &&& same_but_components(after, before)
        &&& r is Ok <==> event_names(before.events@).contains(self.name@) && (self.comp
            matches Some(c) && first_named(component_names(before.components@), c@) is Some)
        &&& match r {
            Ok(_) => self.comp matches Some(c) && (first_named(
                component_names(before.components@),
                c@,
            ) matches Some(i) && after.components@.len() == before.components@.len()
                && after.components@ == before.components@.update(i, after.components@[i])
                && trigger_added(before.components@[i], after.components@[i], self.name@)),
            Err(e) => after.components@ == before.components@ && is_refusal(
                e,
                if !event_names(before.events@).contains(self.name@) {
                    "the model lacks the event of the trigger"@
                } else if self.comp is None {
                    "the trigger belongs to no component"@
                } else {
                    "the model lacks the component of the trigger"@
                },
            ),
        }
    }

    /// Lets the event trigger the component. It is an error, and the model
    /// stays as it is, where the model lacks the event, or where the
    /// command names no component or the model lacks the component.
    pub fn apply(&self, model: &mut SimModel) -> (r: Result<()>)
        ensures
            self.applied(*old(model), *final(model), r),
    {
        if !model.has_event(&self.name) {
            return refuse("the model lacks the event of the trigger");
        }
        let name = match &self.comp {
            Some(c) => c,
            None => {
                return refuse("the trigger belongs to no component");
            },
        };
        match model.get_component_mut(name) {
            Some(c) => {
                if !queue_holds(&c.triggers, &self.name) {
                    let ghost before = names(c.triggers@);
                    c.triggers.push(self.name.clone());
                    proof {
                        assert(names(c.triggers@) =~= before.push(self.name@));
                    }
                }
                Ok(())
            },
            None => refuse("the model lacks the component of the trigger"),
        }
    }
}

/// The span of a state within the logic of its component: from the line
/// behind the head of its block to the line of its `end`, counted from the
/// line at which the logic of the component begins.
pub open spec fn state_span(state: State) -> Option<(usize, usize)> {
    rebased_span((line_after(state.start_line), state.end_line), state.offset, 0)
}

/// Whether a component model is another with the span of a state set.
pub open spec fn state_set(
    before: ComponentModel,
    after: ComponentModel,
    name: Seq<char>,
    span: (usize, usize),
) -> bool {
    &&& same_but_logic(after, before)
    &&& after.logic.commands == before.logic.commands
    &&& after.logic.cmd_location_map == before.logic.cmd_location_map
    &&& after.logic.procedures == before.logic.procedures
    &&& after.logic.pre_commands == before.logic.pre_commands
    &&& after.logic.states_view() == before.logic.states_view().insert(name, span)
    &&& (before.logic.wf() ==> after.logic.wf())
}

impl State {
    /// What `apply` does to the model.
    pub open spec fn applied(self, before: SimModel, after: SimModel, r: Result<()>) -> bool {
        &&& same_but_components(after, before)
        &&& r is Ok <==> (self.comp matches Some(c) && (first_named(
            component_names(before.components@),
            c@,
        ) matches Some(i) && (state_span(self) matches Some(span) && span.0 <= span.1
            <= before.components@[i].logic.commands@.len())))
        &&& match r {
            Ok(_) => self.comp matches Some(c) && (first_named(
                component_names(before.components@),
                c@,
            ) matches Some(i) && (state_span(self) matches Some(span) && after.components@.len()
                == before.components@.len() && after.components@ == before.components@.update(
                i,
                after.components@[i],
            ) && state_set(before.components@[i], after.components@[i], self.name@, span))),
            Err(e) => after.components@ == before.components@ && is_refusal(
                e,
                if self.comp is None {
                    "the state belongs to no component"@
                } else if state_span(self) is None {
                    "the state lies before the logic of its component"@
                } else if first_named(component_names(before.components@), self.comp->0@) is None {
                    "the model lacks the component of the state"@
                } else {
                    "the state does not lie within the commands of its component"@
                },
            ),
        }
    }

    /// Gives the state its span in the logic of its component. It is an
    /// error, and the model stays as it is, where the state names no
    /// component, the model lacks the component, or the span does not lie
    /// within the commands of the component.
    pub fn apply(&self, model: &mut SimModel) -> (r: Result<()>)
        ensures
            self.applied(*old(model), *final(model), r),
    {
        let name = match &self.comp {
            Some(c) => c,
            None => {
                return refuse("the state belongs to no component");
            },
        };
        let span = match rebase_span((after(self.start_line), self.end_line), self.offset, 0) {
            Some(s) => s,
            None => {
                return refuse("the state lies before the logic of its component");
            },
        };
        let fits = match model.get_component(name) {
            Some(c) => span.0 <= span.1 && span.1 <= c.logic.commands.len(),
            None => {
                return refuse("the model lacks the component of the state");
            },
        };
        if !fits {
            return refuse("the state does not lie within the commands of its component");
        }
        match model.get_component_mut(name) {
            Some(c) => {
                c.logic.set_state(self.name.clone(), span);
                Ok(())
            },
            None => refuse("the model lacks the component of the state"),
        }
    }
}


impl Extend {
    /// Executes the command: the extension is handed to the central
    /// authority.
    pub fn execute_loc(&self) -> (r: CommandResult)
        ensures
            r == CommandResult::ExecCentralExt(CentralRemoteCommand::Extend(*self)),
    {
        CommandResult::ExecCentralExt(CentralRemoteCommand::Extend(self.clone()))
    }

    /// What `apply` does to the model.
    pub open spec fn applied(self, before: SimModel, after: SimModel, r: Result<()>) -> bool {
        &&& same_but_components(after, before)
        &&& r is Ok <==> (first_named(component_names(before.components@), self.target@)
            matches Some(t) && (first_named(component_names(before.components@), self.source@)
            matches Some(s) && can_extend(before.components@[t].logic, before.components@[s].logic)))
        &&& match r {
            Ok(_) => first_named(component_names(before.components@), self.target@)
                matches Some(t) && (first_named(
                component_names(before.components@),
                self.source@,
            ) matches Some(s) && after.components@.len() == before.components@.len()
                && after.components@ == before.components@.update(t, after.components@[t])
                && same_but_logic(after.components@[t], before.components@[t]) && is_extended(
                after.components@[t].logic,
                before.components@[t].logic,
                before.components@[s].logic,
                self.target,
            )),
            Err(e) => after.components@ == before.components@ && is_refusal(
                e,
                if first_named(component_names(before.components@), self.target@) is None
                    || first_named(component_names(before.components@), self.source@) is None {
                    "the model lacks a component of the extension"@
                } else {
                    "the extension leaves the range of line numbers"@
                },
            ),
        }
    }

    /// Appends the logic of the source to that of the target. It is an
    /// error, and the model stays as it is, where the model lacks one of
    /// the two components or where lines leave the range of line numbers.
    pub fn apply(&self, model: &mut SimModel) -> (r: Result<()>)
        ensures
            self.applied(*old(model), *final(model), r),
    {
        let logic = match (model.get_component(&self.target), model.get_component(&self.source)) {
            (Some(t), Some(s)) => t.logic.extended(&s.logic, &self.target),
            _ => {
                return refuse("the model lacks a component of the extension");
            },
        };
        match logic {
            Some(l) => match model.get_component_mut(&self.target) {
                Some(c) => {
                    c.logic = l;
                    Ok(())
                },
                None => refuse("the model lacks a component of the extension"),
            },
            None => refuse("the extension leaves the range of line numbers"),
        }
    }
}

} // verus!
