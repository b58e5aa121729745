use outcome_core::address::StorageIndex;
use outcome_core::machine::cmd::{CentralRemoteCommand, Command};
use outcome_core::machine::error::ErrorKind;
use outcome_core::machine::exec::{run_component, Deferred};
use outcome_core::machine::{CommandPrototype, LocationInfo, Registry};
use outcome_core::model::assemble::{build_logic, programs_match, ModuleProgram};
use outcome_core::model::{Module, ModuleManifest, Scenario, ScenarioManifest, SimModel};
use outcome_core::entity::storage::Storage;
use outcome_core::entity::EntityNonSer;
use outcome_core::sim::{Sim, SimStatus};
use outcome_core::string::{new_truncate, StringId};
use outcome_core::var::{Float, Var, VarType};

fn proto(line: &str) -> CommandPrototype {
    let mut words = line.split_whitespace().map(|w| w.to_string());
    let name = words.next();
    let arguments: Vec<String> = words.collect();
    CommandPrototype { name, arguments: Some(arguments) }
}

fn program(lines: &[&str]) -> Vec<CommandPrototype> {
    lines.iter().map(|l| proto(l)).collect()
}

fn scenario() -> Scenario {
    Scenario {
        path: "/tmp/scenario".to_string(),
        manifest: ScenarioManifest {
            name: "s".to_string(),
            version: "0.1.0".to_string(),
            engine: "*".to_string(),
            mods: vec![],
            settings: vec![],
            title: None,
            desc: None,
            desc_long: None,
            author: None,
            website: None,
        },
        modules: vec![],
    }
}

fn module(name: &str) -> Module {
    Module {
        manifest: ModuleManifest {
            name: name.to_string(),
            version: "0.1.0".to_string(),
            engine_version_req: String::new(),
            engine_features: vec![],
            dependencies: vec![],
            reqs: vec![],
            title: None,
            desc: None,
            desc_long: None,
            author: None,
            website: None,
        },
    }
}

/// The scenario whose modules are those of the programs.
fn scenario_of(programs: &[ModuleProgram]) -> Scenario {
    let mut s = scenario();
    s.modules = programs.iter().map(|p| module(&p.name)).collect();
    s
}

fn boot(lines: &[&str]) -> Sim {
    let programs = vec![ModuleProgram { name: "m".to_string(), prototypes: program(lines) }];
    let model = SimModel::from_scenario(scenario_of(&programs), &programs).unwrap();
    Sim::boot(model).unwrap()
}

fn idx(comp: &str, var: &str) -> StorageIndex {
    (new_truncate(comp), new_truncate(var))
}

fn names(ids: &[StringId]) -> Vec<String> {
    ids.iter().map(|i| i.to_string()).collect()
}

/// Runs the lines as the state `main` of the component `c` on the storage.
fn run(lines: &[&str], storage: &mut Storage) -> outcome_core::machine::exec::RunReport {
    run_limited(lines, storage, 1000)
}

fn run_limited(
    lines: &[&str],
    storage: &mut Storage,
    limit: usize,
) -> outcome_core::machine::exec::RunReport {
    let comp = new_truncate("c");
    let logic = build_logic(&program(lines), &comp).unwrap();
    let mut model = SimModel::from_scenario(scenario(), &vec![]).unwrap();
    model.components.push(outcome_core::model::ComponentModel {
        name: comp.clone(),
        vars: vec![],
        start_state: new_truncate("main"),
        triggers: vec![],
        logic: logic.clone(),
        source_files: vec![],
        script_files: vec![],
        lib_files: vec![],
    });
    let mut insta = EntityNonSer { output: vec![] };
    let mut state = new_truncate("main");
    run_component(&logic, &model, storage, &mut insta, &mut state, &comp, &0, limit)
}

#[test]
fn model_of_a_scenario() {
    let programs = vec![
        ModuleProgram { name: "base".to_string(), prototypes: program(&["event tick", "proc p", "end"]) },
        ModuleProgram { name: "a_module_with_a_long_name".to_string(), prototypes: vec![] },
    ];
    let model = SimModel::from_scenario(scenario_of(&programs), &programs).unwrap();
    let events: Vec<String> = model.events.iter().map(|e| e.id.to_string()).collect();
    assert_eq!(events, vec!["step", "_scr_init"]);
    assert_eq!(model.components.len(), 2);
    assert_eq!(model.components[0].name.as_str(), "init_base");
    assert_eq!(model.components[1].name.as_str(), "init_a_module_with_a_lo");
    assert_eq!(model.entities.len(), 1);
    assert_eq!(model.entities[0].name.as_str(), "_mod_init");
    assert_eq!(names(&model.entities[0].components), vec!["init_base", "init_a_module_with_a_lo"]);
    let c = &model.components[0];
    assert_eq!(c.start_state.as_str(), "main");
    assert_eq!(names(&c.triggers), vec!["_scr_init"]);
    assert_eq!(c.logic.commands.len(), 3);
    assert_eq!(c.logic.cmd_location_map.len(), c.logic.commands.len());
    for (n, l) in c.logic.cmd_location_map.iter().enumerate() {
        assert_eq!(*l, LocationInfo::at(&new_truncate("init_base"), n));
    }
    assert_eq!(c.logic.state(&new_truncate("main")), Some((0, 3)));
    assert_eq!(c.logic.procedure(&new_truncate("p")), Some((2, 2)));
    assert_eq!(c.logic.state(&new_truncate("other")), None);
    assert_eq!(model.get_component(&new_truncate("init_base")).unwrap().name.as_str(), "init_base");
    assert!(model.get_component(&new_truncate("nothing")).is_none());
    assert_eq!(model.get_entity(&new_truncate("_mod_init")).unwrap().components.len(), 2);
    assert!(model.get_entity(&new_truncate("nothing")).is_none());
}

#[test]
fn model_build_stops_at_the_first_bad_command() {
    let programs = vec![ModuleProgram {
        name: "m".to_string(),
        prototypes: program(&["event tick", "nonsense here", "also nonsense"]),
    }];
    let e = SimModel::from_scenario(scenario_of(&programs), &programs).unwrap_err();
    assert_eq!(e.kind, ErrorKind::UnknownCommand("nonsense".to_string()));
    assert_eq!(e.location, LocationInfo::at(&new_truncate("init_m"), 1));
}

#[test]
fn logic_spans_lie_within_the_commands() {
    let sim = {
        let mut sim = boot(&[
            "component ctr",
            "state main",
            "proc helper",
            "end",
            "end",
            "state idle",
            "end",
            "end",
        ]);
        sim.step().unwrap();
        sim
    };
    for c in sim.model.components.iter() {
        let len = c.logic.commands.len();
        assert_eq!(c.logic.cmd_location_map.len(), len);
        for name in c.logic.state_names() {
            let (lo, hi) = c.logic.state(&name).unwrap();
            assert!(lo <= hi && hi <= len, "{} {:?}", name.as_str(), (lo, hi, len));
        }
        for name in c.logic.procedure_names() {
            let (lo, hi) = c.logic.procedure(&name).unwrap();
            assert!(lo <= hi && hi <= len);
        }
    }
    let ctr = sim.model.get_component(&new_truncate("ctr")).unwrap();
    assert_eq!(ctr.logic.commands.len(), 6);
    assert_eq!(ctr.logic.state(&new_truncate("main")), Some((1, 3)));
    assert_eq!(ctr.logic.state(&new_truncate("idle")), Some((5, 5)));
    assert_eq!(ctr.logic.procedure(&new_truncate("helper")), Some((2, 2)));
}

#[test]
fn get_subset_counts_lines_from_one() {
    let comp = new_truncate("c");
    let logic = build_logic(&program(&["set a 1", "set b 2", "set c 3", "set d 4"]), &comp).unwrap();
    let sub = logic.get_subset(2, 4);
    assert_eq!(sub.commands.len(), 2);
    assert_eq!(sub.commands[0], logic.commands[1]);
    assert_eq!(sub.commands[1], logic.commands[2]);
    assert_eq!(sub.cmd_location_map, vec![logic.cmd_location_map[1].clone(), logic.cmd_location_map[2].clone()]);
    assert!(sub.state_names().is_empty());
    assert_eq!(logic.get_subset(1, 1).commands.len(), 0);
    assert_eq!(logic.get_subset(1, 5).commands.len(), 4);
}

#[test]
fn counter() {
    let mut sim = boot(&[
        "component ctr",
        "var ctr:int:n 0",
        "trigger step",
        "state main",
        "set ctr:int:n eval n+1",
        "end",
        "end",
        "prefab counter ctr",
        "spawn counter",
    ]);
    // the first tick runs the program of the module
    assert_eq!(sim.step(), Ok(vec![]));
    assert_eq!(sim.entities.len(), 2);
    assert_eq!(sim.entities[1].entity.storage.get_int(&idx("ctr", "n")), Some(&0));
    for _ in 0..3 {
        assert_eq!(sim.step(), Ok(vec![]));
    }
    let addr = outcome_core::address::Address::from_str("self:ctr:int:n").unwrap();
    assert_eq!(sim.entities[1].entity.storage.get_var_from_addr(&addr, None), Ok(&Var::Int(3)));
    assert_eq!(sim.clock, 4);
}

#[test]
fn spawn_with_out_capture() {
    let mut sim = boot(&["prefab mob", "spawn mob --out self:sys:int:last_id"]);
    assert_eq!(sim.entities.len(), 1);
    assert_eq!(sim.step(), Ok(vec![]));
    assert_eq!(sim.entities.len(), 2);
    let new_id = sim.entities[1].id;
    assert_eq!(new_id, 1);
    assert_eq!(
        sim.entities[0].entity.storage.get_int(&idx("sys", "last_id")),
        Some(&(new_id as i64))
    );
    // the new entity is there in the next tick
    assert_eq!(sim.step(), Ok(vec![]));
    assert_eq!(sim.entity_position(new_id), Some(1));
}

#[test]
fn spawn_out_does_not_change_the_kind_of_a_variable() {
    let mut sim = boot(&["prefab mob", "spawn mob --out str:label"]);
    sim.entities[0].entity.storage.insert("init_m", "label", &VarType::Str, None);
    let e = sim.step().unwrap_err();
    assert!(matches!(e.kind, ErrorKind::FailedGettingVariable(_)));
    assert_eq!(sim.entities.len(), 1);
    assert_eq!(sim.entities[0].entity.storage.get_str(&idx("init_m", "label")), Some(&String::new()));
}

#[test]
fn spawn_of_unknown_prefab_fails() {
    let mut sim = boot(&["spawn ghost"]);
    let e = sim.step().unwrap_err();
    assert_eq!(e.kind, ErrorKind::Other("the entity cannot be spawned".to_string()));
    assert_eq!(sim.entities.len(), 1);
}

#[test]
fn event_idempotence() {
    let mut sim = boot(&[
        "event evt",
        "component listener",
        "var int:heard 0",
        "trigger evt",
        "state main",
        "set heard eval heard+1",
        "end",
        "end",
        "prefab ear listener",
        "spawn ear",
        "spawn ear",
        "invoke evt",
        "invoke evt",
    ]);
    assert_eq!(sim.step(), Ok(vec![]));
    assert_eq!(names(&sim.event_queue), vec!["evt", "step"]);
    assert_eq!(sim.step(), Ok(vec![]));
    assert_eq!(sim.entities[1].entity.storage.get_int(&idx("listener", "heard")), Some(&1));
    assert_eq!(sim.entities[2].entity.storage.get_int(&idx("listener", "heard")), Some(&1));
    assert_eq!(names(&sim.event_queue), vec!["step"]);
    assert_eq!(sim.step(), Ok(vec![]));
    assert_eq!(sim.entities[1].entity.storage.get_int(&idx("listener", "heard")), Some(&1));
}

#[test]
fn invoke_is_idempotent() {
    let mut sim = boot(&[]);
    let i = outcome_core::machine::cmd::Invoke::new(vec!["a".to_string(), "b".to_string(), "a".to_string()]).unwrap();
    i.execute_ext(&mut sim).unwrap();
    assert_eq!(names(&sim.event_queue), vec!["_scr_init", "a", "b"]);
    i.execute_ext(&mut sim).unwrap();
    assert_eq!(names(&sim.event_queue), vec!["_scr_init", "a", "b"]);
    let mut central = outcome_core::distr::SimCentral::from_model(
        SimModel::from_scenario(scenario(), &vec![]).unwrap(),
    );
    i.execute_ext_distr(&mut central).unwrap();
    i.execute_ext_distr(&mut central).unwrap();
    assert_eq!(names(&central.event_queue), vec!["a", "b"]);
}

#[test]
fn procedure_return() {
    let mut storage = Storage::new();
    storage.insert("c", "x", &VarType::Int, None);
    storage.insert("c", "y", &VarType::Int, None);
    let report = run(&["proc p", "set x 1", "end", "call p", "set y 2"], &mut storage);
    assert_eq!(report.error, None);
    assert_eq!(storage.get_int(&idx("c", "x")), Some(&1));
    assert_eq!(storage.get_int(&idx("c", "y")), Some(&2));
    assert_eq!(report.steps, 5);
}

#[test]
fn call_of_unknown_procedure_is_an_error() {
    let mut storage = Storage::new();
    let report = run(&["call nothing"], &mut storage);
    assert!(matches!(report.error.unwrap().kind, ErrorKind::Other(_)));
}

#[test]
fn for_in_over_range() {
    let mut storage = Storage::new();
    storage.insert("c", "acc", &VarType::Int, None);
    let report = run(&["range r 0 5", "for i in r", "set acc eval acc+i", "end"], &mut storage);
    assert_eq!(report.error, None);
    assert_eq!(storage.get_int(&idx("c", "acc")), Some(&10));
    assert_eq!(storage.get_int_list(&idx("c", "r")), Some(&vec![0, 1, 2, 3, 4]));
}

#[test]
fn range_edge_cases() {
    let mut storage = Storage::new();
    assert_eq!(run(&["range r 3 3"], &mut storage).error, None);
    assert_eq!(storage.get_int_list(&idx("c", "r")), Some(&vec![]));
    assert_eq!(run(&["range r 5 2"], &mut storage).error, None);
    assert_eq!(storage.get_int_list(&idx("c", "r")), Some(&vec![]));
    assert_eq!(run(&["range r -2 1"], &mut storage).error, None);
    assert_eq!(storage.get_int_list(&idx("c", "r")), Some(&vec![-2, -1, 0]));
    storage.insert("c", "s", &VarType::Str, None);
    let report = run(&["range s 0 2"], &mut storage);
    assert!(matches!(report.error.unwrap().kind, ErrorKind::FailedGettingVariable(_)));
    assert_eq!(storage.get_str(&idx("c", "s")), Some(&String::new()));
}

#[test]
fn for_in_over_other_lists() {
    let mut storage = Storage::new();
    storage.insert("c", "words", &VarType::StrList, Some(Var::StrList(vec!["a".to_string(), "b".to_string()])));
    storage.insert("c", "last", &VarType::Str, None);
    storage.insert("c", "n", &VarType::Int, None);
    let report = run(&["for w in words", "eval n n+1", "end"], &mut storage);
    assert_eq!(report.error, None);
    assert_eq!(storage.get_int(&idx("c", "n")), Some(&2));
    let report = run(&["for w in n", "end"], &mut storage);
    assert!(matches!(report.error.unwrap().kind, ErrorKind::FailedGettingVariable(_)));
    let report = run(&["for w in nothing", "end"], &mut storage);
    assert!(matches!(report.error.unwrap().kind, ErrorKind::FailedGettingVariable(_)));
    storage.insert("c", "none", &VarType::ByteList, None);
    let report = run(&["for w in none", "eval n n+10", "end"], &mut storage);
    assert_eq!(report.error, None);
    assert_eq!(storage.get_int(&idx("c", "n")), Some(&2));
}

#[test]
fn jump_to_undefined_tag_is_an_error_at_the_jump() {
    let mut storage = Storage::new();
    storage.insert("c", "x", &VarType::Int, None);
    let report = run(&["set x 1", "jump @nowhere", "set x 2"], &mut storage);
    let e = report.error.unwrap();
    assert!(matches!(e.kind, ErrorKind::Other(_)));
    assert_eq!(e.location, LocationInfo::at(&new_truncate("c"), 1));
    assert_eq!(storage.get_int(&idx("c", "x")), Some(&1));
}

#[test]
fn jump_to_a_tag_and_to_a_line() {
    let mut storage = Storage::new();
    storage.insert("c", "x", &VarType::Int, None);
    // the tag of a procedure is its first line
    let report = run(&["jump @p", "set x 1", "proc p", "set x eval x+10", "end"], &mut storage);
    // the end of the procedure is reached without a call
    assert_eq!(report.error, None);
    assert_eq!(storage.get_int(&idx("c", "x")), Some(&10));

    let report = run(&["jump 2", "set x 1", "set x eval x+5"], &mut storage);
    assert_eq!(report.error, None);
    assert_eq!(storage.get_int(&idx("c", "x")), Some(&15));
    // a jump behind the last line ends the run
    let report = run(&["jump 100", "set x 1"], &mut storage);
    assert_eq!(report.error, None);
    assert_eq!(report.steps, 1);
    // the tag of a state is its first line
    let report = run(&["jump @main", "set x 1"], &mut storage);
    assert!(report.error.is_some());
    assert_eq!(report.steps, 1000);
}

#[test]
fn break_outside_any_loop_is_an_error() {
    let mut storage = Storage::new();
    let report = run(&["break"], &mut storage);
    let e = report.error.unwrap();
    assert!(matches!(e.kind, ErrorKind::Other(_)));
    assert_eq!(e.location, LocationInfo::at(&new_truncate("c"), 0));
    storage.insert("c", "a", &VarType::Int, Some(Var::Int(1)));
    let report = run(&["if a", "break", "end"], &mut storage);
    assert!(matches!(report.error.unwrap().kind, ErrorKind::Other(_)));
}

#[test]
fn set_with_mismatched_kind_fails() {
    let mut storage = Storage::new();
    storage.insert("c", "x", &VarType::Str, Some(Var::Str("text".to_string())));
    storage.insert("c", "n", &VarType::Int, Some(Var::Int(4)));
    let report = run(&["set int:x 5"], &mut storage);
    let e = report.error.unwrap();
    assert_eq!(e.kind, ErrorKind::FailedGettingVariable("int:x".to_string()));
    assert_eq!(e.location, LocationInfo::at(&new_truncate("c"), 0));
    assert_eq!(storage.get_str(&idx("c", "x")), Some(&"text".to_string()));
    // between two integers, where one is none
    let report = run(&["set int:x int:n"], &mut storage);
    assert!(matches!(report.error.unwrap().kind, ErrorKind::FailedGettingVariable(_)));
    let report = run(&["set int:n int:x"], &mut storage);
    assert!(matches!(report.error.unwrap().kind, ErrorKind::FailedGettingVariable(_)));
    // a source of another kind than the target
    let report = run(&["set str:x c:int:n"], &mut storage);
    assert!(matches!(report.error.unwrap().kind, ErrorKind::FailedGettingVariable(_)));
    // a literal of another kind
    let report = run(&["set n five"], &mut storage);
    assert_eq!(report.error.unwrap().kind, ErrorKind::ParseError("five".to_string()));
    // a variable that is not there
    let report = run(&["set nothing 1"], &mut storage);
    assert_eq!(report.error.unwrap().kind, ErrorKind::FailedGettingVariable("nothing".to_string()));
    // an expression for a text
    let report = run(&["set x eval 1+1"], &mut storage);
    assert!(matches!(report.error.unwrap().kind, ErrorKind::Other(_)));
    assert_eq!(storage.get_str(&idx("c", "x")), Some(&"text".to_string()));
    assert_eq!(storage.get_int(&idx("c", "n")), Some(&4));
}

#[test]
fn set_writes_values_of_the_kind_of_the_target() {
    let mut storage = Storage::new();
    storage.insert("c", "s", &VarType::Str, None);
    storage.insert("c", "i", &VarType::Int, None);
    storage.insert("c", "j", &VarType::Int, Some(Var::Int(8)));
    storage.insert("c", "b", &VarType::Bool, None);
    storage.insert("c", "y", &VarType::Byte, None);
    storage.insert("c", "l", &VarType::IntList, Some(Var::IntList(vec![1])));
    storage.insert("c", "m", &VarType::IntList, None);
    storage.insert("c", "f", &VarType::Float, Some(Var::Float(Float::from_bits(5))));
    storage.insert("c", "g", &VarType::Float, None);
    let report = run(
        &[
            "set s = two words",
            "set i -12",
            "set b true",
            "set y 255",
            "set int:i int:j",
            "set int_list:m int_list:l",
            "set g float:f",
        ],
        &mut storage,
    );
    assert_eq!(report.error, None);
    assert_eq!(storage.get_str(&idx("c", "s")), Some(&"two words".to_string()));
    assert_eq!(storage.get_int(&idx("c", "i")), Some(&8));
    assert_eq!(storage.get_bool(&idx("c", "b")), Some(&true));
    assert_eq!(storage.get_byte(&idx("c", "y")), Some(&255));
    assert_eq!(storage.get_int_list(&idx("c", "m")), Some(&vec![1]));
    assert_eq!(storage.get_float(&idx("c", "g")), Some(&Float::from_bits(5)));
    assert!(matches!(run(&["set y 256"], &mut storage).error.unwrap().kind, ErrorKind::ParseError(_)));
    assert!(matches!(run(&["set b yes"], &mut storage).error.unwrap().kind, ErrorKind::ParseError(_)));
    assert!(matches!(run(&["set g 1.5"], &mut storage).error.unwrap().kind, ErrorKind::ParseError(_)));
    assert!(matches!(run(&["set l 1"], &mut storage).error.unwrap().kind, ErrorKind::ParseError(_)));
}

#[test]
fn arithmetic() {
    let mut storage = Storage::new();
    storage.insert("c", "r", &VarType::Int, None);
    storage.insert("c", "a", &VarType::Int, Some(Var::Int(7)));
    storage.insert("c", "t", &VarType::Bool, Some(Var::Bool(true)));
    storage.insert("c", "y", &VarType::Byte, Some(Var::Byte(3)));
    let cases: Vec<(&str, i64)> = vec![
        ("1+2*3", 7),
        ("2*3+1", 7),
        ("10-2*3", 4),
        ("10-7/2", 7),
        ("0-7/2", -3),
        ("0-7%3", -1),
        ("7%3", 1),
        ("a*a-a", 42),
        ("a+t+y", 11),
        ("2*3*4-1-2-3", 18),
        ("100/7/2", 7),
        ("9223372036854775807", 9223372036854775807),
        ("0-9223372036854775807-1", -9223372036854775808),
    ];
    for (text, want) in cases {
        let line = format!("set r eval {}", text);
        let report = run(&[line.as_str()], &mut storage);
        assert_eq!(report.error, None, "{}", text);
        assert_eq!(storage.get_int(&idx("c", "r")), Some(&want), "{}", text);
    }
    for text in ["1/0", "1%0", "9223372036854775807+1", "4611686018427387904*2", "nothing+1", "0-9223372036854775807-2"] {
        let line = format!("set r eval {}", text);
        let report = run(&[line.as_str()], &mut storage);
        assert!(matches!(report.error.unwrap().kind, ErrorKind::Other(_)), "{}", text);
    }
}

#[test]
fn eval_writes_to_store_or_registry() {
    let mut storage = Storage::new();
    storage.insert("c", "x", &VarType::Int, None);
    storage.insert("c", "s", &VarType::Str, None);
    let report = run(&["eval tmp 2*21", "eval x tmp+0", "eval int:x x+1"], &mut storage);
    assert_eq!(report.error, None);
    assert_eq!(storage.get_int(&idx("c", "x")), Some(&43));
    assert!(storage.get_var(&idx("c", "tmp"), None).is_none());
    assert!(matches!(run(&["eval s 1"], &mut storage).error.unwrap().kind, ErrorKind::FailedGettingVariable(_)));
    assert!(matches!(run(&["eval int:nothing 1"], &mut storage).error.unwrap().kind, ErrorKind::FailedGettingVariable(_)));
    assert!(matches!(run(&["eval x nothing"], &mut storage).error.unwrap().kind, ErrorKind::Other(_)));
    let mut registry = Registry::new();
    registry.set(new_truncate("k"), Var::Int(1));
    registry.set(new_truncate("k"), Var::Int(2));
    assert_eq!(registry.get(&new_truncate("k")), Some(&Var::Int(2)));
    assert_eq!(registry.get(&new_truncate("j")), None);
    assert_eq!(registry.entries.len(), 1);
}

#[test]
fn if_else() {
    let mut storage = Storage::new();
    storage.insert("c", "a", &VarType::Int, Some(Var::Int(2)));
    storage.insert("c", "r", &VarType::Int, None);
    let lines = ["if a < 3", "set r 1", "else", "set r 2", "end", "set a eval a+r"];
    assert_eq!(run(&lines, &mut storage).error, None);
    assert_eq!(storage.get_int(&idx("c", "r")), Some(&1));
    assert_eq!(storage.get_int(&idx("c", "a")), Some(&3));
    assert_eq!(run(&lines, &mut storage).error, None);
    assert_eq!(storage.get_int(&idx("c", "r")), Some(&2));
    assert_eq!(storage.get_int(&idx("c", "a")), Some(&5));
    // without else
    let lines = ["if a == 5", "set r 50", "end", "if a != 5", "set r 60", "end"];
    assert_eq!(run(&lines, &mut storage).error, None);
    assert_eq!(storage.get_int(&idx("c", "r")), Some(&50));
    // nested
    let lines = ["if a >= 5", "if a > 5", "set r 7", "else", "set r 8", "end", "else", "set r 9", "end"];
    assert_eq!(run(&lines, &mut storage).error, None);
    assert_eq!(storage.get_int(&idx("c", "r")), Some(&8));
    for (cond, want) in [("a <= 4", 0), ("a <= 5", 1), ("a", 1), ("0", 0)] {
        let head = format!("if {}", cond);
        let lines = ["set r 0", head.as_str(), "set r 1", "end"];
        assert_eq!(run(&lines, &mut storage).error, None);
        assert_eq!(storage.get_int(&idx("c", "r")), Some(&want), "{}", cond);
    }
    assert!(matches!(run(&["if nothing", "end"], &mut storage).error.unwrap().kind, ErrorKind::FailedGettingVariable(_)));
    assert!(matches!(run(&["else"], &mut storage).error.unwrap().kind, ErrorKind::Other(_)));
    assert_eq!(run(&["end"], &mut storage).error, None);
}

#[test]
fn loops() {
    let mut storage = Storage::new();
    storage.insert("c", "n", &VarType::Int, None);
    assert_eq!(run(&["loop 4", "set n eval n+1", "end"], &mut storage).error, None);
    assert_eq!(storage.get_int(&idx("c", "n")), Some(&4));
    assert_eq!(run(&["while n < 10", "set n eval n+2", "end"], &mut storage).error, None);
    assert_eq!(storage.get_int(&idx("c", "n")), Some(&10));
    assert_eq!(run(&["loop 0", "set n 99", "end", "set n eval n+1"], &mut storage).error, None);
    assert_eq!(storage.get_int(&idx("c", "n")), Some(&11));
    // break leaves the innermost loop
    let lines = [
        "set n 0",
        "loop 3",
        "loop",
        "set n eval n+1",
        "if n % 5 == 0",
        "break",
        "end",
        "end",
        "end",
    ];
    // `n % 5 == 0` is no condition of two operands
    assert!(build_logic(&program(&lines), &new_truncate("c")).is_err());
    storage.insert("c", "m", &VarType::Int, None);
    let lines = [
        "set n 0",
        "loop 3",
        "loop",
        "set n eval n+1",
        "set m eval n%5",
        "if m == 0",
        "break",
        "end",
        "end",
        "end",
    ];
    assert_eq!(run(&lines, &mut storage).error, None);
    assert_eq!(storage.get_int(&idx("c", "n")), Some(&15));
    assert!(matches!(run(&["while nothing < 1", "end"], &mut storage).error.unwrap().kind, ErrorKind::FailedGettingVariable(_)));
}

#[test]
fn endless_loop_is_stopped_at_the_limit() {
    let mut storage = Storage::new();
    storage.insert("c", "n", &VarType::Int, None);
    let report = run_limited(&["loop", "set n eval n+1", "end"], &mut storage, 30);
    assert_eq!(report.steps, 30);
    assert!(matches!(report.error.unwrap().kind, ErrorKind::Other(_)));
    assert_eq!(storage.get_int(&idx("c", "n")), Some(&10));
    let report = run_limited(&["set n 1"], &mut storage, 0);
    assert_eq!(report.steps, 0);
    assert!(report.error.is_some());
}

#[test]
fn run_of_unknown_state() {
    let comp = new_truncate("c");
    let logic = build_logic(&program(&["set n 1"]), &comp).unwrap();
    let model = SimModel::from_scenario(scenario(), &vec![]).unwrap();
    let mut storage = Storage::new();
    let mut insta = EntityNonSer { output: vec![] };
    let mut state = new_truncate("elsewhere");
    let report = run_component(&logic, &model, &mut storage, &mut insta, &mut state, &comp, &0, 10);
    assert_eq!(report.steps, 0);
    assert!(matches!(report.error.unwrap().kind, ErrorKind::Other(_)));
}

#[test]
fn printing_goes_to_the_output() {
    let comp = new_truncate("c");
    let logic = build_logic(&program(&["print hp is {hp} of {int:max}", "print", "print {nothing}", "print never"]), &comp).unwrap();
    let model = SimModel::from_scenario(scenario(), &vec![]).unwrap();
    let mut storage = Storage::new();
    storage.insert("c", "hp", &VarType::Int, Some(Var::Int(3)));
    storage.insert("c", "max", &VarType::Int, Some(Var::Int(10)));
    let mut insta = EntityNonSer { output: vec![] };
    let mut state = new_truncate("main");
    let report = run_component(&logic, &model, &mut storage, &mut insta, &mut state, &comp, &0, 10);
    assert_eq!(insta.output, vec!["hp is 3 of 10".to_string(), String::new()]);
    let e = report.error.unwrap();
    assert!(matches!(e.kind, ErrorKind::FailedGettingVariable(_)));
    assert_eq!(e.location, LocationInfo::at(&comp, 2));
}

#[test]
fn remote_work_is_put_aside_in_order() {
    let mut storage = Storage::new();
    storage.insert("c", "hp", &VarType::Int, Some(Var::Int(3)));
    let report = run(
        &["event a", "set mob:body:int:hp eval hp*2", "invoke a b", "sim pause", "extend x y"],
        &mut storage,
    );
    assert_eq!(report.error, None);
    assert_eq!(report.deferred.len(), 5);
    assert!(matches!(&report.deferred[0].command, Deferred::Central(CentralRemoteCommand::RegisterEvent(_))));
    match &report.deferred[1].command {
        Deferred::Ext(outcome_core::machine::cmd::ExtCommand::SetVar(s)) => {
            assert_eq!(s.target.to_string(), "mob:body:int:hp");
            assert_eq!(s.var, Var::Int(6));
        }
        other => panic!("{:?}", other),
    }
    assert!(matches!(&report.deferred[2].command, Deferred::Central(CentralRemoteCommand::Invoke(_))));
    assert!(matches!(&report.deferred[3].command, Deferred::Central(CentralRemoteCommand::Sim(_))));
    assert!(matches!(&report.deferred[4].command, Deferred::Central(CentralRemoteCommand::Extend(_))));
    assert_eq!(report.deferred[1].location, LocationInfo::at(&new_truncate("c"), 1));
}

#[test]
fn goto_takes_effect_at_the_next_run() {
    let mut sim = boot(&[
        "component door",
        "var int:opened 0",
        "var int:closed 0",
        "trigger step",
        "state main",
        "set opened eval opened+1",
        "goto shut",
        "set opened eval opened+10",
        "end",
        "state shut",
        "set closed eval closed+1",
        "end",
        "end",
        "prefab gate door",
        "spawn gate",
    ]);
    assert_eq!(sim.step(), Ok(vec![]));
    assert_eq!(sim.step(), Ok(vec![]));
    // the rest of the state is run to its end; the new state begins with the next run
    assert_eq!(sim.entities[1].entity.storage.get_int(&idx("door", "opened")), Some(&11));
    assert_eq!(sim.entities[1].entity.storage.get_int(&idx("door", "closed")), Some(&0));
    assert_eq!(sim.entities[1].entity.components[0].state.as_str(), "shut");
    assert_eq!(sim.step(), Ok(vec![]));
    assert_eq!(sim.entities[1].entity.storage.get_int(&idx("door", "opened")), Some(&11));
    assert_eq!(sim.entities[1].entity.storage.get_int(&idx("door", "closed")), Some(&1));
}

#[test]
fn runtime_errors_halt_one_program_only() {
    let mut sim = boot(&[
        "component bad",
        "trigger step",
        "state main",
        "set nothing 1",
        "end",
        "end",
        "component good",
        "var int:n 0",
        "trigger step",
        "state main",
        "set n eval n+1",
        "end",
        "end",
        "prefab pair bad good",
        "spawn pair",
    ]);
    assert_eq!(sim.step(), Ok(vec![]));
    let errors = sim.step().unwrap();
    assert_eq!(errors.len(), 1);
    assert_eq!(errors[0].kind, ErrorKind::FailedGettingVariable("nothing".to_string()));
    assert_eq!(errors[0].location, LocationInfo::at(&new_truncate("bad"), 2));
    assert_eq!(sim.entities[1].entity.storage.get_int(&idx("good", "n")), Some(&1));
}

#[test]
fn sim_control() {
    let mut sim = boot(&["sim pause"]);
    assert_eq!(sim.step(), Ok(vec![]));
    assert_eq!(sim.status, SimStatus::Paused);
    let clock = sim.clock;
    assert_eq!(sim.step(), Ok(vec![]));
    assert_eq!(sim.clock, clock);
    outcome_core::machine::cmd::sim::SimControl { action: outcome_core::machine::cmd::sim::SimAction::Resume }
        .execute_ext(&mut sim)
        .unwrap();
    assert_eq!(sim.status, SimStatus::Running);
    assert_eq!(sim.step(), Ok(vec![]));
    assert_eq!(sim.clock, clock + 1);
    outcome_core::machine::cmd::sim::SimControl { action: outcome_core::machine::cmd::sim::SimAction::Stop }
        .execute_ext(&mut sim)
        .unwrap();
    outcome_core::machine::cmd::sim::SimControl { action: outcome_core::machine::cmd::sim::SimAction::Resume }
        .execute_ext(&mut sim)
        .unwrap();
    assert_eq!(sim.status, SimStatus::Stopped);
}

#[test]
fn command_enum_is_closed_over_clone() {
    let comp = new_truncate("c");
    let logic = build_logic(
        &program(&["set x eval a+1", "print {x} y", "invoke a", "prefab p q", "var int:n 1", "if a", "end"]),
        &comp,
    )
    .unwrap();
    for c in logic.commands.iter() {
        let copy: Command = c.clone();
        assert_eq!(&copy, c);
    }
}

#[test]
fn blank_models() {
    let m = SimModel::default();
    assert!(m.events.is_empty());
    assert!(m.scripts.is_empty());
    assert!(m.entities.is_empty());
    assert!(m.components.is_empty());
    assert!(m.data.is_empty());
    assert!(m.data_files.is_empty());
    assert!(m.data_imgs.is_empty());
    assert_eq!(m.scenario, Scenario::default());
    let s = Scenario::default();
    assert_eq!(s.path, "");
    assert!(s.modules.is_empty());
    assert_eq!(s.manifest, ScenarioManifest::default());
    let sm = ScenarioManifest::default();
    assert_eq!(sm.name, "");
    assert_eq!(sm.version, "");
    assert_eq!(sm.engine, "");
    assert!(sm.mods.is_empty() && sm.settings.is_empty());
    assert_eq!(sm.title, None);
    assert_eq!(sm.website, None);
    let p = outcome_core::model::EntityPrefabModel::default();
    assert_eq!(p.name.as_str(), "");
    assert!(p.components.is_empty());
    let c = outcome_core::model::ComponentModel::default();
    assert_eq!(c.name.as_str(), "");
    assert_eq!(c.start_state.as_str(), "");
    assert!(c.vars.is_empty() && c.triggers.is_empty());
    assert!(c.source_files.is_empty() && c.script_files.is_empty() && c.lib_files.is_empty());
    let l = outcome_core::model::LogicModel::default();
    assert!(l.commands.is_empty());
    assert!(l.pre_commands.is_empty());
    assert!(l.states.is_empty());
    assert!(l.procedures.is_empty());
    assert!(l.cmd_location_map.is_empty());
    assert!(c.logic.commands.is_empty() && c.logic.pre_commands.is_empty());
}

#[test]
fn programs_belong_to_the_modules_of_the_scenario() {
    let programs = vec![
        ModuleProgram { name: "a".to_string(), prototypes: vec![] },
        ModuleProgram { name: "b".to_string(), prototypes: vec![] },
    ];
    assert!(programs_match(&scenario_of(&programs), &programs));
    assert!(!programs_match(&scenario(), &programs));
    assert!(programs_match(&scenario(), &vec![]));
    let swapped = vec![
        ModuleProgram { name: "b".to_string(), prototypes: vec![] },
        ModuleProgram { name: "a".to_string(), prototypes: vec![] },
    ];
    assert!(!programs_match(&scenario_of(&programs), &swapped));
    assert!(!programs_match(&scenario_of(&programs), &programs[..1].to_vec()));
}
