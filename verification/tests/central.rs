use outcome_core::address::{Address, StorageIndex};
use outcome_core::distr::{CentralAction, DistributionPolicy, SimCentral};
use outcome_core::machine::cmd::flow::{ComponentBlock, State};
use outcome_core::machine::cmd::get_set::{ExtSet, ExtSetVar};
use outcome_core::machine::cmd::register::{
    Extend, RegisterComponent, RegisterEntityPrefab, RegisterEvent, RegisterTrigger, RegisterVar,
};
use outcome_core::machine::cmd::sim::{SimAction, SimControl};
use outcome_core::machine::cmd::{CentralRemoteCommand, ExtCommand, Invoke, Spawn};
use outcome_core::machine::error::ErrorKind;
use outcome_core::machine::{CommandPrototype, LocationInfo};
use outcome_core::model::assemble::ModuleProgram;
use outcome_core::model::{Module, ModuleManifest, Scenario, ScenarioManifest, SimModel};
use outcome_core::sim::{Sim, SimStatus};
use outcome_core::string::{new_truncate, StringId};
use outcome_core::var::{Var, VarType};

fn proto(line: &str) -> CommandPrototype {
    let mut words = line.split_whitespace().map(|w| w.to_string());
    let name = words.next();
    let arguments: Vec<String> = words.collect();
    CommandPrototype { name, arguments: Some(arguments) }
}

fn scenario() -> Scenario {
    Scenario {
        path: String::new(),
        manifest: ScenarioManifest {
            name: "s".to_string(),
            version: "0.1.0".to_string(),
            engine: "*".to_string(),
            mods: vec![],
            settings: vec![],
            title: None,
            desc: None,
            desc_long: None,
            author: None,
            website: None,
        },
        modules: vec![],
    }
}

fn module(name: &str) -> Module {
    Module {
        manifest: ModuleManifest {
            name: name.to_string(),
            version: "0.1.0".to_string(),
            engine_version_req: String::new(),
            engine_features: vec![],
            dependencies: vec![],
            reqs: vec![],
            title: None,
            desc: None,
            desc_long: None,
            author: None,
            website: None,
        },
    }
}

/// The scenario whose modules are those of the programs.
fn scenario_of(programs: &[ModuleProgram]) -> Scenario {
    let mut s = scenario();
    s.modules = programs.iter().map(|p| module(&p.name)).collect();
    s
}

fn model(lines: &[&str]) -> SimModel {
    let programs = vec![ModuleProgram {
        name: "m".to_string(),
        prototypes: lines.iter().map(|l| proto(l)).collect(),
    }];
    SimModel::from_scenario(scenario_of(&programs), &programs).unwrap()
}

fn id(s: &str) -> StringId {
    new_truncate(s)
}

fn idx(comp: &str, var: &str) -> StorageIndex {
    (id(comp), id(var))
}

fn names(ids: &[StringId]) -> Vec<String> {
    ids.iter().map(|i| i.to_string()).collect()
}

#[test]
fn register_event_is_idempotent() {
    let mut m = model(&[]);
    let cmd = RegisterEvent { name: id("tick") };
    cmd.apply(&mut m).unwrap();
    cmd.apply(&mut m).unwrap();
    let events: Vec<String> = m.events.iter().map(|e| e.id.to_string()).collect();
    assert_eq!(events, vec!["step", "_scr_init", "tick"]);
    assert!(m.has_event(&id("tick")));
    assert!(!m.has_event(&id("tock")));
}

#[test]
fn register_prefab_needs_a_new_name() {
    let mut m = model(&[]);
    let cmd = RegisterEntityPrefab { name: id("mob"), components: vec![id("body")] };
    cmd.apply(&mut m).unwrap();
    assert_eq!(m.entities.len(), 2);
    assert_eq!(names(&m.entities[1].components), vec!["body"]);
    let e = cmd.apply(&mut m).unwrap_err();
    assert!(matches!(e.kind, ErrorKind::Other(_)));
    assert_eq!(m.entities.len(), 2);
    m.get_entity_mut(&id("mob")).unwrap().components.push(id("mind"));
    assert_eq!(names(&m.get_entity(&id("mob")).unwrap().components), vec!["body", "mind"]);
    assert!(m.get_entity_mut(&id("nothing")).is_none());
}

#[test]
fn register_component_takes_its_block() {
    let mut m = model(&["set a 1", "component ctr", "if a", "set a 2", "end", "end", "set a 3"]);
    let cmd = RegisterComponent { name: id("ctr"), start_line: 1, end_line: 5 };
    cmd.apply(&mut m, &id("init_m")).unwrap();
    let c = m.get_component(&id("ctr")).unwrap();
    assert_eq!(c.logic.commands.len(), 3);
    assert_eq!(c.start_state.as_str(), "main");
    assert!(c.vars.is_empty() && c.triggers.is_empty());
    match &c.logic.commands[0] {
        outcome_core::machine::cmd::Command::If(i) => assert_eq!((i.start_line, i.end_line), (0, 2)),
        other => panic!("{:?}", other),
    }
    for (n, l) in c.logic.cmd_location_map.iter().enumerate() {
        assert_eq!(*l, LocationInfo::at(&id("ctr"), n));
    }
    // a second component of the name is refused
    assert!(cmd.apply(&mut m, &id("init_m")).is_err());
    // a block that does not lie in the program, or a program that is not there
    assert!(RegisterComponent { name: id("x"), start_line: 1, end_line: 50 }.apply(&mut m, &id("init_m")).is_err());
    assert!(RegisterComponent { name: id("x"), start_line: 5, end_line: 1 }.apply(&mut m, &id("init_m")).is_err());
    assert!(RegisterComponent { name: id("x"), start_line: 1, end_line: 5 }.apply(&mut m, &id("nobody")).is_err());
    assert_eq!(m.components.len(), 2);
    // the empty block
    RegisterComponent { name: id("e"), start_line: 4, end_line: 5 }.apply(&mut m, &id("init_m")).unwrap();
    assert_eq!(m.get_component(&id("e")).unwrap().logic.commands.len(), 0);
    m.get_component_mut(&id("e")).unwrap().start_state = id("other");
    assert_eq!(m.get_component(&id("e")).unwrap().start_state.as_str(), "other");
    assert!(m.get_component_mut(&id("nothing")).is_none());
}

#[test]
fn register_var_and_trigger() {
    let mut m = model(&["component ctr", "end"]);
    RegisterComponent { name: id("ctr"), start_line: 0, end_line: 1 }.apply(&mut m, &id("init_m")).unwrap();
    let var = RegisterVar { comp: Some(id("ctr")), var_type: VarType::Int, var_id: id("n"), default: Some(Var::Int(5)) };
    var.apply(&mut m).unwrap();
    let c = m.get_component(&id("ctr")).unwrap();
    assert_eq!(c.vars.len(), 1);
    assert_eq!(c.vars[0].id, "n");
    assert_eq!(c.vars[0].type_, VarType::Int);
    assert_eq!(c.vars[0].default, Some(Var::Int(5)));
    let nobody = RegisterVar { comp: Some(id("nobody")), var_type: VarType::Int, var_id: id("n"), default: None };
    assert!(matches!(nobody.apply(&mut m).unwrap_err().kind, ErrorKind::Other(_)));
    let unowned = RegisterVar { comp: None, var_type: VarType::Int, var_id: id("n"), default: None };
    assert!(unowned.apply(&mut m).is_err());

    let trigger = RegisterTrigger { name: id("step"), comp: Some(id("ctr")) };
    trigger.apply(&mut m).unwrap();
    trigger.apply(&mut m).unwrap();
    assert_eq!(names(&m.get_component(&id("ctr")).unwrap().triggers), vec!["step"]);
    // the event has to exist
    let unknown = RegisterTrigger { name: id("tock"), comp: Some(id("ctr")) };
    assert!(matches!(unknown.apply(&mut m).unwrap_err().kind, ErrorKind::Other(_)));
    assert!(RegisterTrigger { name: id("step"), comp: Some(id("nobody")) }.apply(&mut m).is_err());
    assert!(RegisterTrigger { name: id("step"), comp: None }.apply(&mut m).is_err());
    assert_eq!(names(&m.get_component(&id("ctr")).unwrap().triggers), vec!["step"]);
}

#[test]
fn state_registration() {
    let mut m = model(&["component ctr", "state idle", "set a 1", "end", "end"]);
    RegisterComponent { name: id("ctr"), start_line: 0, end_line: 4 }.apply(&mut m, &id("init_m")).unwrap();
    let state = State { comp: Some(id("ctr")), name: id("idle"), start_line: 1, end_line: 3, offset: 1 };
    state.apply(&mut m).unwrap();
    assert_eq!(m.get_component(&id("ctr")).unwrap().logic.state(&id("idle")), Some((1, 2)));
    // out of the commands of the component
    let far = State { comp: Some(id("ctr")), name: id("far"), start_line: 1, end_line: 30, offset: 1 };
    assert!(matches!(far.apply(&mut m).unwrap_err().kind, ErrorKind::Other(_)));
    let before = State { comp: Some(id("ctr")), name: id("b"), start_line: 1, end_line: 3, offset: 9 };
    assert!(before.apply(&mut m).is_err());
    assert!(State { comp: None, name: id("b"), start_line: 1, end_line: 3, offset: 1 }.apply(&mut m).is_err());
    assert!(State { comp: Some(id("nobody")), name: id("b"), start_line: 1, end_line: 3, offset: 1 }.apply(&mut m).is_err());
    assert_eq!(m.get_component(&id("ctr")).unwrap().logic.state(&id("far")), None);
    assert_eq!(m.get_component(&id("ctr")).unwrap().logic.state_names().len(), 1);
}

#[test]
fn extend_appends_logic() {
    let mut sim = Sim::boot(model(&[
        "component a",      // 0
        "var int:n 0",      // 1
        "trigger step",     // 2
        "state main",       // 3
        "set n eval n+1",   // 4
        "call grow",        // 5
        "end",              // 6
        "end",              // 7
        "component b",      // 8
        "state more",       // 9
        "if n",             // 10
        "set n 0",          // 11
        "end",              // 12
        "end",              // 13
        "proc grow",        // 14
        "set n eval n+10",  // 15
        "end",              // 16
        "end",              // 17
        "extend a b",
        "extend a nobody",
        "prefab thing a",
        "spawn thing",
    ]))
    .unwrap();
    // the extension of a component that is not there fails; the choice here is to refuse it
    let e = sim.step().unwrap_err();
    assert!(matches!(e.kind, ErrorKind::Other(_)));
    let a = sim.model.get_component(&id("a")).unwrap();
    let b = sim.model.get_component(&id("b")).unwrap();
    assert_eq!(b.logic.commands.len(), 8);
    assert_eq!(a.logic.commands.len(), 6 + 8);
    assert_eq!(a.logic.cmd_location_map.len(), 14);
    assert_eq!(a.logic.state(&id("main")), Some((3, 5)));
    assert_eq!(a.logic.state(&id("more")), Some((7, 10)));
    assert_eq!(a.logic.procedure(&id("grow")), Some((12, 13)));
    assert_eq!(b.logic.state(&id("more")), Some((1, 4)));
    assert_eq!(b.logic.procedure(&id("grow")), Some((6, 7)));
    match &a.logic.commands[7] {
        outcome_core::machine::cmd::Command::If(i) => assert_eq!((i.start_line, i.end_line), (7, 9)),
        other => panic!("{:?}", other),
    }
    assert_eq!(a.logic.cmd_location_map[7], LocationInfo::at(&id("a"), 7));
    // the appended procedure can be called from the state
    RegisterEntityPrefab { name: id("thing"), components: vec![id("a")] }.apply(&mut sim.model).unwrap();
    Spawn { prefab: Some(id("thing")), spawn_id: None, out: None }.execute_ext(&mut sim, &0, &id("init_m")).unwrap();
    sim.event_queue = vec![id("step")];
    assert_eq!(sim.step(), Ok(vec![]));
    assert_eq!(sim.entities[1].entity.storage.get_int(&idx("a", "n")), Some(&11));
    assert!(Extend { target: id("nobody"), source: id("a") }.apply(&mut sim.model).is_err());
}

#[test]
fn component_block_command_defines_a_component() {
    let mut sim = Sim::boot(model(&["set a 1", "set a 2", "set a 3"])).unwrap();
    let cmd = CentralRemoteCommand::Component(ComponentBlock { name: id("c"), start_line: 0, end_line: 2 });
    cmd.execute(&mut sim, &0, &id("init_m")).unwrap();
    assert_eq!(sim.model.get_component(&id("c")).unwrap().logic.commands.len(), 1);
}

#[test]
fn spawn_gives_prefab_variables_their_defaults() {
    let mut sim = Sim::boot(model(&[
        "component body",
        "var int:hp 10",
        "var str:name",
        "var bool:alive true",
        "end",
        "component mind",
        "var int_list:memory",
        "end",
        "prefab mob body mind",
        "spawn mob bob",
        "spawn mob",
        "spawn",
    ]))
    .unwrap();
    assert_eq!(sim.step(), Ok(vec![]));
    assert_eq!(sim.entities.len(), 4);
    let ids: Vec<u32> = sim.entities.iter().map(|e| e.id).collect();
    assert_eq!(ids, vec![0, 1, 2, 3]);
    assert_eq!(sim.next_id, 4);
    let bob = &sim.entities[1];
    assert_eq!(bob.name, Some(id("bob")));
    assert_eq!(bob.entity.storage.get_int(&idx("body", "hp")), Some(&10));
    assert_eq!(bob.entity.storage.get_str(&idx("body", "name")), Some(&String::new()));
    assert_eq!(bob.entity.storage.get_bool(&idx("body", "alive")), Some(&true));
    assert_eq!(bob.entity.storage.get_int_list(&idx("mind", "memory")), Some(&vec![]));
    assert_eq!(bob.entity.storage.get_all_handles().len(), 4);
    let bound: Vec<(String, String)> =
        bob.entity.components.iter().map(|b| (b.name.to_string(), b.state.to_string())).collect();
    assert_eq!(bound, vec![("body".to_string(), "main".to_string()), ("mind".to_string(), "main".to_string())]);
    assert_eq!(sim.entities[2].name, None);
    assert!(sim.entities[3].entity.storage.get_all_handles().is_empty());
    assert_eq!(sim.entity_position(2), Some(2));
    assert_eq!(sim.entity_position(9), None);
    assert_eq!(sim.entity_position_by_name(&id("bob")), Some(1));
    assert_eq!(sim.entity_position_by_name(&id("alice")), None);
    assert_eq!(sim.resolve(&id("bob")), Some(1));
    assert_eq!(sim.resolve(&id("3")), Some(3));
    assert_eq!(sim.resolve(&id("4")), None);
    assert_eq!(sim.resolve(&id("carol")), None);
}

#[test]
fn writes_to_other_entities() {
    let mut sim = Sim::boot(model(&[
        "component body",
        "var int:hp 10",
        "var str:name",
        "end",
        "prefab mob body",
        "spawn mob bob",
        "spawn mob",
    ]))
    .unwrap();
    sim.step().unwrap();
    let here = LocationInfo::at(&id("body"), 0);
    let target = Address::from_str("bob:body:int:hp").unwrap();
    ExtSetVar { target: target.clone(), var: Var::Int(7) }.execute_ext(&mut sim, &here).unwrap();
    assert_eq!(sim.entities[1].entity.storage.get_int(&idx("body", "hp")), Some(&7));
    assert_eq!(sim.entities[2].entity.storage.get_int(&idx("body", "hp")), Some(&10));
    // by handle
    let by_id = Address::from_str("2:body:int:hp").unwrap();
    ExtCommand::SetVar(ExtSetVar { target: by_id, var: Var::Int(8) })
        .execute(&mut sim, &1, &id("body"), &here)
        .unwrap();
    assert_eq!(sim.entities[2].entity.storage.get_int(&idx("body", "hp")), Some(&8));
    // the kind of a variable does not change
    let e = ExtSetVar { target: target.clone(), var: Var::Str("x".to_string()) }
        .execute_ext(&mut sim, &here)
        .unwrap_err();
    assert!(matches!(e.kind, ErrorKind::FailedGettingVariable(_)));
    assert_eq!(e.location, here);
    let wrong = Address::from_str("bob:body:str:hp").unwrap();
    assert!(ExtSetVar { target: wrong, var: Var::Str("x".to_string()) }.execute_ext(&mut sim, &here).is_err());
    let missing = Address::from_str("bob:body:int:mp").unwrap();
    assert!(ExtSetVar { target: missing, var: Var::Int(1) }.execute_ext(&mut sim, &here).is_err());
    let nobody = Address::from_str("carol:body:int:hp").unwrap();
    let e = ExtSetVar { target: nobody, var: Var::Int(1) }.execute_ext(&mut sim, &here).unwrap_err();
    assert!(matches!(e.kind, ErrorKind::Other(_)));
    assert_eq!(sim.entities[1].entity.storage.get_int(&idx("body", "hp")), Some(&7));
    // from a variable of the entity that asks
    let set = ExtSet { target, source: Address::from_str("self:body:int:hp").unwrap() };
    set.execute_ext(&mut sim, &2, &id("body"), &here).unwrap();
    assert_eq!(sim.entities[1].entity.storage.get_int(&idx("body", "hp")), Some(&8));
    let set = ExtSet {
        target: Address::from_str("bob:body:int:hp").unwrap(),
        source: Address::from_str("self:body:int:nothing").unwrap(),
    };
    assert!(ExtCommand::Assign(set.clone()).execute(&mut sim, &2, &id("body"), &here).is_err());
    assert!(set.execute_ext(&mut sim, &77, &id("body"), &here).is_err());
}

#[test]
fn remote_set_through_a_tick() {
    let mut sim = Sim::boot(model(&[
        "component body",
        "var int:hp 10",
        "end",
        "prefab mob body",
        "spawn mob bob",
        "event heal",
        "component healer",
        "trigger heal",
        "state main",
        "set bob:body:int:hp 99",
        "set carol:body:int:hp 1",
        "end",
        "end",
        "prefab doc healer",
        "spawn doc",
        "invoke heal",
    ]))
    .unwrap();
    assert_eq!(sim.step(), Ok(vec![]));
    let errors = sim.step().unwrap();
    assert_eq!(sim.entities[1].entity.storage.get_int(&idx("body", "hp")), Some(&99));
    // the write to an entity that is not there fails, and the tick goes on
    assert_eq!(errors.len(), 1);
    assert!(matches!(errors[0].kind, ErrorKind::Other(_)));
    assert_eq!(errors[0].location, LocationInfo::at(&id("healer"), 3));
}

#[test]
fn central_authority_of_a_distributed_simulation() {
    let mut central = SimCentral::from_model(model(&[]));
    let ent: u32 = 0;
    let comp = id("init_m");
    CentralRemoteCommand::RegisterEvent(RegisterEvent { name: id("tick") })
        .execute_distr(&mut central, &ent, &comp)
        .unwrap();
    assert!(central.model.has_event(&id("tick")));
    assert!(central.model_changed);
    central.model_changed = false;
    CentralRemoteCommand::Invoke(Invoke { events: vec![id("tick"), id("tick")] })
        .execute_distr(&mut central, &ent, &comp)
        .unwrap();
    assert_eq!(names(&central.event_queue), vec!["tick"]);
    assert!(!central.model_changed);
    CentralRemoteCommand::RegisterEntityPrefab(RegisterEntityPrefab { name: id("mob"), components: vec![] })
        .execute_distr(&mut central, &ent, &comp)
        .unwrap();
    let spawn = CentralRemoteCommand::Spawn(Spawn { prefab: Some(id("mob")), spawn_id: Some(id("bob")), out: None });
    spawn.execute_distr(&mut central, &ent, &comp).unwrap();
    assert_eq!(
        central.outbox,
        vec![CentralAction::SpawnEntity {
            prefab: Some(id("mob")),
            name: Some(id("bob")),
            policy: DistributionPolicy::Random,
        }]
    );
    let bad = CentralRemoteCommand::Spawn(Spawn { prefab: Some(id("ghost")), spawn_id: None, out: None });
    let e = bad.execute_distr(&mut central, &ent, &comp).unwrap_err();
    assert_eq!(e.kind, ErrorKind::Other("the model lacks the prefab".to_string()));
    assert_eq!(e.location, LocationInfo::empty());
    assert_eq!(central.outbox.len(), 1);
    central.spawn_entity(None, None, DistributionPolicy::BindToWorker(2)).unwrap();
    assert_eq!(central.outbox.len(), 2);
    CentralRemoteCommand::Sim(SimControl { action: SimAction::Stop })
        .execute_distr(&mut central, &ent, &comp)
        .unwrap();
    assert_eq!(central.status, SimStatus::Stopped);
    central.model_changed = false;
    let failing = CentralRemoteCommand::RegisterTrigger(RegisterTrigger { name: id("nothing"), comp: Some(comp.clone()) });
    let e = failing.execute_distr(&mut central, &ent, &comp).unwrap_err();
    assert_eq!(e.kind, ErrorKind::Other("the model lacks the event of the trigger".to_string()));
    assert!(!central.model_changed);
}
