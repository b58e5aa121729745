//! Building the model of a simulation from a scenario and the programs of
//! its modules. The programs come as prototypes of commands, as the script
//! parser hands them over; here they become commands.

use vstd::prelude::*;
use crate::machine::cmd::{prototype_built, triggers_among, triggers_known, Command};
use crate::machine::error::Result;
use crate::machine::{CommandPrototype, LocationInfo};
use crate::model::{
    located_in, no_spans, with_procedures, ComponentModel, EntityPrefabModel, EventModel,
    LogicModel, Module, Scenario, SimModel,
};
use crate::sim::{
    default_event, default_event_text, init_event, init_event_text, init_prefab, init_prefab_text,
    main_state, main_state_text,
};
use crate::string::{names, truncated, StringId};
use crate::text::{push_str, str_eq, string_of};

verus! {

/// The program of a module: its commands as the script parser hands them
/// over, in their order.
#[derive(Debug, Clone, PartialEq)]
pub struct ModuleProgram {
    /// Name of the module.
    pub name: String,
    pub prototypes: Vec<CommandPrototype>,
}

/// The place of line `n` of a component.
pub open spec fn place(comp: StringId, n: int) -> LocationInfo {
    LocationInfo { comp_name: Some(comp), line: Some(n as usize) }
}

/// Whether the commands are those that the first `n` prototypes give,
/// each built at its line of the component.
pub open spec fn built_upto(
    commands: Seq<Command>,
    prototypes: Seq<CommandPrototype>,
    comp: StringId,
    n: int,
) -> bool {
    &&& commands.len() == n
    &&& forall|i: int|
        0 <= i < n ==> prototype_built(
            prototypes[i],
            place(comp, i),
            prototypes,
            Ok(#[trigger] commands[i]),
        )
}

/// Whether `r` is what the prototypes of a program give as the logic of
/// the component: every prototype has become the command at its line, the
/// program as a whole is the state `main`, and the procedures of the
/// program have their spans. Where a prototype gives no command, the
/// result is the error of the first such prototype.
pub open spec fn logic_built(prototypes: Seq<CommandPrototype>, comp: StringId, r: Result<LogicModel>) -> bool {
    match r {
        Ok(l) => l.wf() && built_upto(l.commands@, prototypes, comp, prototypes.len() as int)
            && located_in(l.cmd_location_map@, comp) && l.states_view() == no_spans().insert(
            main_state_text(),
            (0usize, prototypes.len() as usize),
        ) && l.procedures_view() == with_procedures(
            no_spans(),
            l.commands@,
            l.commands@.len() as int,
        ) && l.pre_commands_view() == crate::model::no_pre_commands(),
        Err(e) => exists|n: int, before: Seq<Command>|
            0 <= n < prototypes.len() && #[trigger] built_upto(before, prototypes, comp, n)
                && prototype_built(prototypes[n], place(comp, n), prototypes, Err(e)),
    }
}

/// Builds the logic of a component from the prototypes of its program.
pub fn build_logic(prototypes: &Vec<CommandPrototype>, comp: &StringId) -> (r: Result<LogicModel>)
    ensures
        logic_built(prototypes@, *comp, r),
{
    let mut logic = LogicModel::empty();
    let mut n: usize = 0;
    while n < prototypes.len()
        invariant
            n <= prototypes.len(),
            logic.wf(),
            built_upto(logic.commands@, prototypes@, *comp, n as int),
            located_in(logic.cmd_location_map@, *comp),
            logic.cmd_location_map@.len() == n,
            logic.states_view() == no_spans(),
            logic.procedures_view() == no_spans(),
            logic.pre_commands_view() == crate::model::no_pre_commands(),
        decreases prototypes.len() - n,
    {
        let location = LocationInfo::at(comp, n);
        match Command::from_prototype(&prototypes[n], &location, prototypes) {
            Ok(command) => {
                let ghost before = logic.commands@;
                logic.push(command, location);
                proof {
                    assert forall|i: int| 0 <= i < n + 1 implies prototype_built(
                        prototypes@[i],
                        place(*comp, i),
                        prototypes@,
                        Ok(#[trigger] logic.commands@[i]),
                    ) by {
                        if i < n {
                            assert(logic.commands@[i] == before[i]);
                        }
                    }
                }
            },
            Err(e) => {
                proof {
                    assert(built_upto(logic.commands@, prototypes@, *comp, n as int));
                }
                return Err(e);
            },
        }
        n += 1;
    }
    logic.set_state(main_state(), (0, prototypes.len()));
    logic.index_procedures();
    Ok(logic)
}

/// The name of the component that holds the program of a module: `init_`
/// and the name of the module, cut to the length of a `StringId`.
pub open spec fn init_name(module: Seq<char>) -> Seq<char> {
    truncated(seq!['i', 'n', 'i', 't', '_'] + module)
}

fn init_component_name(module: &str) -> (r: StringId)
    ensures
        r@ == init_name(module@),
{
    let mut text: Vec<char> = vec!['i', 'n', 'i', 't', '_'];
    proof {
        assert(text@ =~= seq!['i', 'n', 'i', 't', '_']);
    }
    push_str(&mut text, module);
    let s = string_of(&text);
    StringId::new_truncate(s.as_str())
}

/// Whether a component is the one that holds the program of a module: it
/// is named after the module, starts in the state `main`, is triggered by
/// the event that starts the programs of the modules, has no variables,
/// and its logic is built from the program.
pub open spec fn is_init_component(c: ComponentModel, program: ModuleProgram) -> bool {
    &&& c.name@ == init_name(program.name@)
    &&& c.start_state@ == main_state_text()
    &&& names(c.triggers@) == seq![init_event_text()]
    &&& c.vars@.len() == 0
    &&& logic_built(program.prototypes@, c.name, Ok(c.logic))
}

/// Whether the components are those that hold the first `n` programs.
pub open spec fn components_upto(
    components: Seq<ComponentModel>,
    programs: Seq<ModuleProgram>,
    n: int,
) -> bool {
    &&& components.len() == n
    &&& forall|i: int| 0 <= i < n ==> is_init_component(#[trigger] components[i], programs[i])
}

/// Whether `r` is the model that a scenario and the programs of its
/// modules give. The model has the two events that the engine knows of its
/// own, one component for each program, and one prefab, which holds all of
/// these components. Where a program holds a prototype that gives no
/// command, the result is the error of the first such prototype of the
/// first such program.
pub open spec fn model_built(scenario: Scenario, programs: Seq<ModuleProgram>, r: Result<SimModel>) -> bool {
    match r {
        Ok(m) => {
            &&& m.scenario == scenario
            &&& crate::model::event_names(m.events@) == seq![default_event_text(), init_event_text()]
            &&& components_upto(m.components@, programs, programs.len() as int)
            &&& m.entities@.len() == 1
            &&& m.entities@[0].name@ == init_prefab_text()
            &&& names(m.entities@[0].components@) == crate::model::component_names(m.components@)
            &&& m.scripts@.len() == 0
            &&& m.data@.len() == 0
            &&& m.data_files@.len() == 0
            &&& m.data_imgs@.len() == 0
        },
        Err(e) => exists|n: int, before: Seq<ComponentModel>, name: StringId|
            0 <= n < programs.len() && #[trigger] components_upto(before, programs, n) && name@
                == init_name(programs[n].name@) && #[trigger] logic_built(
                programs[n].prototypes@,
                name,
                Err(e),
            ),
    }
}

/// Whether the programs are those of the modules: one for each module, in
/// the order of the modules, each under the name of its module.
pub open spec fn programs_of(modules: Seq<Module>, programs: Seq<ModuleProgram>) -> bool {
    &&& programs.len() == modules.len()
    &&& forall|i: int|
        0 <= i < programs.len() ==> (#[trigger] programs[i]).name@ == modules[i].manifest.name@
}

/// Whether the programs are those of the modules of the scenario.
pub fn programs_match(scenario: &Scenario, programs: &Vec<ModuleProgram>) -> (r: bool)
    ensures
        r == programs_of(scenario.modules@, programs@),
{
    if programs.len() != scenario.modules.len() {
        return false;
    }
    let mut i: usize = 0;
    while i < programs.len()
        invariant
            i <= programs.len(),
            programs.len() == scenario.modules.len(),
            forall|j: int|
                0 <= j < i ==> (#[trigger] programs@[j]).name@ == scenario.modules@[j].manifest.name@,
        decreases programs.len() - i,
    {
        if !str_eq(programs[i].name.as_str(), scenario.modules[i].manifest.name.as_str()) {
            return false;
        }
        i += 1;
    }
    true
}

impl SimModel {
    /// The model of a simulation of the scenario, with the programs of its
    /// modules: one program for each module of the scenario, in the order
    /// of the modules.
    pub fn from_scenario(scenario: Scenario, programs: &Vec<ModuleProgram>) -> (r: Result<SimModel>)
        requires
            programs_of(scenario.modules@, programs@),
        ensures
            model_built(scenario, programs@, r),
    {
        let mut events: Vec<EventModel> = Vec::new();
        events.push(EventModel { id: default_event() });
        events.push(EventModel { id: init_event() });
        proof {
            assert(crate::model::event_names(events@) =~= seq![
                default_event_text(),
                init_event_text(),
            ]);
        }
        let mut components: Vec<ComponentModel> = Vec::new();
        let mut bound: Vec<StringId> = Vec::new();
        let mut n: usize = 0;
        while n < programs.len()
            invariant
                n <= programs.len(),
                components_upto(components@, programs@, n as int),
                names(bound@) == crate::model::component_names(components@),
            decreases programs.len() - n,
        {
            let name = init_component_name(programs[n].name.as_str());
            let logic = match build_logic(&programs[n].prototypes, &name) {
                Ok(l) => l,
                Err(e) => {
                    proof {
                        assert(components_upto(components@, programs@, n as int));
                        assert(logic_built(programs@[n as int].prototypes@, name, Err(e)));
                    }
                    return Err(e);
                },
            };
            let mut triggers: Vec<StringId> = Vec::new();
            triggers.push(init_event());
            proof {
                assert(names(triggers@) =~= seq![init_event_text()]);
            }
            let ghost before = components@;
            let ghost bound_before = names(bound@);
            bound.push(name.clone());
            components.push(
                ComponentModel {
                    name,
                    vars: Vec::new(),
                    start_state: main_state(),
                    triggers,
                    logic,
                    source_files: Vec::new(),
                    script_files: Vec::new(),
                    lib_files: Vec::new(),
                },
            );
            proof {
                assert forall|i: int| 0 <= i < n + 1 implies is_init_component(
                    #[trigger] components@[i],
                    programs@[i],
                ) by {
                    if i < n {
                        assert(components@[i] == before[i]);
                    }
                }
                assert(names(bound@) =~= bound_before.push(components@[n as int].name@));
                assert(crate::model::component_names(components@) =~= crate::model::component_names(
                    before,
                ).push(components@[n as int].name@));
            }
            n += 1;
        }
        let mut entities: Vec<EntityPrefabModel> = Vec::new();
        entities.push(EntityPrefabModel { name: init_prefab(), components: bound });
        Ok(
            SimModel {
                scenario,
                events,
                scripts: Vec::new(),
                entities,
                components,
                data: Vec::new(),
                data_files: Vec::new(),
                data_imgs: Vec::new(),
            },
        )
    }
}

/// In a model that was built from a scenario, every trigger of every
/// component is an event of the model.
pub proof fn lemma_built_model_knows_its_triggers(
    scenario: Scenario,
    programs: Seq<ModuleProgram>,
    model: SimModel,
)
    requires
        model_built(scenario, programs, Ok(model)),
    ensures
        triggers_known(model),
{
    let events = crate::model::event_names(model.events@);
    assert(events[1] == init_event_text());
    assert forall|i: int| 0 <= i < model.components@.len() implies triggers_among(
        #[trigger] model.components@[i],
        events,
    ) by {
        let c = model.components@[i];
        assert(is_init_component(c, programs[i]));
        assert forall|k: int| 0 <= k < c.triggers@.len() implies events.contains(
            #[trigger] names(c.triggers@)[k],
        ) by {
            assert(names(c.triggers@).len() == c.triggers@.len());
            assert(names(c.triggers@)[k] == init_event_text());
        }
    }
}

} // verus!
