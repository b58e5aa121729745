use outcome_core::error::Error;
use outcome_core::text::last_positions;
use outcome_core::model::scenario::{
    check_engine, judge_dir, matches_leniently, DepValue, DirVerdict, EngineCheck, ManifestLoad,
    ModuleDir, RawDep, RawEngine, RawModuleManifest, RawScenarioManifest, VERSION,
};
use outcome_core::model::{
    Module, ModuleDep, ModuleManifest, Scenario, ScenarioManifest, ScenarioModuleDep, Setting,
};

fn raw_scenario(mods: Vec<RawDep>) -> RawScenarioManifest {
    RawScenarioManifest {
        name: "forest".to_string(),
        version: "1.2.3".to_string(),
        engine: "^0.1".to_string(),
        title: "The Forest".to_string(),
        desc: String::new(),
        desc_long: String::new(),
        author: "someone".to_string(),
        website: String::new(),
        mods,
        settings: vec![Setting { name: "speed".to_string(), value: "fast".to_string() }],
    }
}

fn raw_module(name: &str, version: &str) -> RawModuleManifest {
    RawModuleManifest {
        name: name.to_string(),
        version: version.to_string(),
        title: String::new(),
        desc: "a module".to_string(),
        desc_long: String::new(),
        author: String::new(),
        website: String::new(),
        engine: Some(RawEngine { version: Some("0.1".to_string()), features: None }),
        dependencies: vec![],
        reqs: vec!["something".to_string()],
    }
}

fn manifest(name: &str, version: &str) -> ModuleManifest {
    ModuleManifest::from_dir_at(raw_module(name, version)).unwrap()
}

fn dir(name: &str, version: &str) -> ModuleDir {
    ModuleDir { name: name.to_string(), manifest: ManifestLoad::Loaded(manifest(name, version)) }
}

fn dep(name: &str, req: &str) -> ScenarioModuleDep {
    ScenarioModuleDep { name: name.to_string(), version_req: req.to_string(), git_address: None }
}

fn scenario_manifest(engine: &str, mods: Vec<ScenarioModuleDep>) -> ScenarioManifest {
    ScenarioManifest {
        name: "forest".to_string(),
        version: "1.0.0".to_string(),
        engine: engine.to_string(),
        mods,
        settings: vec![],
        title: None,
        desc: None,
        desc_long: None,
        author: None,
        website: None,
    }
}

#[test]
fn module_dep_from_text() {
    let d = ScenarioModuleDep::from_toml_value(&"trees".to_string(), &DepValue::Text("1.2".to_string()))
        .unwrap();
    assert_eq!(d.name, "trees");
    // the requirement is kept as the version crate writes it
    assert_eq!(d.version_req, "^1.2");
    assert_eq!(d.git_address, None);
    let d = ScenarioModuleDep::from_toml_value(&"trees".to_string(), &DepValue::Text(">= 1.0.0, < 2".to_string()))
        .unwrap();
    assert_eq!(d.version_req, ">= 1.0.0, < 2");
    let d = ScenarioModuleDep::from_toml_value(&"trees".to_string(), &DepValue::Text("*".to_string()))
        .unwrap();
    assert_eq!(d.version_req, "*");
}

#[test]
fn module_dep_with_unreadable_requirement_takes_any() {
    let d = ScenarioModuleDep::from_toml_value(
        &"trees".to_string(),
        &DepValue::Text("not a version".to_string()),
    )
    .unwrap();
    assert_eq!(d.version_req, "*");
}

#[test]
fn module_dep_from_table_and_other() {
    let d = ScenarioModuleDep::from_toml_value(
        &"trees".to_string(),
        &DepValue::Table { version: Some("~2.1".to_string()), git: Some("https://example.org/trees".to_string()) },
    )
    .unwrap();
    assert_eq!(d.version_req, "~2.1");
    assert_eq!(d.git_address, Some("https://example.org/trees".to_string()));
    let d = ScenarioModuleDep::from_toml_value(
        &"trees".to_string(),
        &DepValue::Table { version: None, git: None },
    )
    .unwrap();
    assert_eq!(d.version_req, "*");
    assert_eq!(d.git_address, None);
    assert_eq!(ScenarioModuleDep::from_toml_value(&"trees".to_string(), &DepValue::Other), None);
}

#[test]
fn scenario_manifest_from_raw() {
    let m = ScenarioManifest::from_dir_at(raw_scenario(vec![
        RawDep { name: "trees".to_string(), value: DepValue::Text("1".to_string()) },
        RawDep { name: "birds".to_string(), value: DepValue::Table { version: None, git: None } },
    ]))
    .unwrap();
    assert_eq!(m.name, "forest");
    assert_eq!(m.version, "1.2.3");
    assert_eq!(m.engine, "^0.1");
    assert_eq!(m.title, Some("The Forest".to_string()));
    assert_eq!(m.desc, None);
    assert_eq!(m.desc_long, None);
    assert_eq!(m.author, Some("someone".to_string()));
    assert_eq!(m.website, None);
    assert_eq!(m.settings, vec![Setting { name: "speed".to_string(), value: "fast".to_string() }]);
    assert_eq!(m.mods, vec![dep("trees", "^1"), dep("birds", "*")]);
    let e = ScenarioManifest::from_dir_at(raw_scenario(vec![RawDep {
        name: "trees".to_string(),
        value: DepValue::Other,
    }]))
    .unwrap_err();
    assert!(matches!(e, Error::Other(_)));
}

#[test]
fn module_manifest_from_raw() {
    let mut raw = raw_module("trees", "1.4.0");
    raw.engine = Some(RawEngine {
        version: Some(">=0.1".to_string()),
        features: Some(vec!["machine_sysinfo".to_string()]),
    });
    raw.dependencies = vec![RawDep { name: "soil".to_string(), value: DepValue::Text("0.3".to_string()) }];
    let m = ModuleManifest::from_dir_at(raw).unwrap();
    assert_eq!(m.name, "trees");
    assert_eq!(m.version, "1.4.0");
    assert_eq!(m.engine_version_req, ">=0.1");
    assert_eq!(m.engine_features, vec!["machine_sysinfo".to_string()]);
    assert_eq!(
        m.dependencies,
        vec![ModuleDep { name: "soil".to_string(), version_req: "^0.3".to_string(), git_address: None }]
    );
    assert_eq!(m.reqs, vec!["something".to_string()]);
    assert_eq!(m.title, None);
    assert_eq!(m.desc, Some("a module".to_string()));
    let mut raw = raw_module("trees", "1.4.0");
    raw.engine = None;
    let m = Module::from_dir_at(raw).unwrap().manifest;
    assert_eq!(m.engine_version_req, "");
    assert!(m.engine_features.is_empty());
    let mut raw = raw_module("trees", "1.4.0");
    raw.dependencies = vec![RawDep { name: "soil".to_string(), value: DepValue::Other }];
    assert!(matches!(ModuleManifest::from_dir_at(raw.clone()), Err(Error::Other(_))));
    assert!(matches!(Module::from_dir_at(raw), Err(Error::Other(_))));
}

#[test]
fn version_checks() {
    assert_eq!(VERSION, "0.1.0");
    assert!(matches!(check_engine("^0.1", "0.1.0"), EngineCheck::Met));
    assert!(matches!(check_engine("*", "0.1.0"), EngineCheck::Met));
    assert!(matches!(check_engine("", "0.1.0"), EngineCheck::Met));
    assert!(matches!(check_engine(">=0.2", "0.1.0"), EngineCheck::Mismatch));
    assert!(matches!(check_engine("1", "0.1.0"), EngineCheck::Mismatch));
    assert!(matches!(check_engine("nonsense", "0.1.0"), EngineCheck::BadRequirement));
    assert!(matches!(check_engine("*", "one"), EngineCheck::BadVersion));
    assert!(matches_leniently("^1.2", "1.4.0"));
    assert!(!matches_leniently("^1.2", "2.0.0"));
    assert!(!matches_leniently("^1.2", "1.1.9"));
    // a requirement that cannot be read is met by every version
    assert!(matches_leniently("nonsense", "7.7.7"));
    // a version that cannot be read counts as 0.1.0
    assert!(matches_leniently("^0.1", "nonsense"));
    assert!(!matches_leniently("^0.2", "nonsense"));
}

#[test]
fn scenario_with_all_modules() {
    let manifest = scenario_manifest("^0.1", vec![dep("trees", "^1"), dep("birds", "*")]);
    let dirs = vec![dir("birds", "0.3.0"), dir("stones", "1.0.0"), dir("trees", "1.4.0")];
    let s = Scenario::from_dir_at("/s".to_string(), manifest.clone(), &dirs).unwrap();
    assert_eq!(s.path, "/s");
    assert_eq!(s.manifest, manifest);
    let names: Vec<&str> = s.modules.iter().map(|m| m.manifest.name.as_str()).collect();
    assert_eq!(names, vec!["trees", "birds"]);
    assert_eq!(s.modules[0].manifest, manifest_of(&dirs[2]));
}

fn manifest_of(d: &ModuleDir) -> ModuleManifest {
    match &d.manifest {
        ManifestLoad::Loaded(m) => m.clone(),
        other => panic!("{:?}", other),
    }
}

#[test]
fn missing_module() {
    let manifest = scenario_manifest("^0.1", vec![dep("trees", "^1"), dep("birds", "*")]);
    let dirs = vec![dir("trees", "1.4.0")];
    assert_eq!(
        Scenario::from_dir_at("/s".to_string(), manifest, &dirs),
        Err(Error::ScenarioMissingModules)
    );
    let manifest = scenario_manifest("^0.1", vec![dep("trees", "^1")]);
    assert_eq!(
        Scenario::from_dir_at("/s".to_string(), manifest, &vec![]),
        Err(Error::ScenarioMissingModules)
    );
}

#[test]
fn module_of_wrong_version_or_without_manifest_is_missing() {
    let manifest = scenario_manifest("^0.1", vec![dep("trees", "^2")]);
    let dirs = vec![dir("trees", "1.4.0")];
    assert_eq!(
        Scenario::from_dir_at("/s".to_string(), manifest, &dirs),
        Err(Error::ScenarioMissingModules)
    );
    let manifest = scenario_manifest("^0.1", vec![dep("trees", "*")]);
    let dirs = vec![ModuleDir { name: "trees".to_string(), manifest: ManifestLoad::Missing }];
    assert_eq!(
        Scenario::from_dir_at("/s".to_string(), manifest, &dirs),
        Err(Error::ScenarioMissingModules)
    );
    // the name in the manifest has to be that of the directory
    let manifest = scenario_manifest("^0.1", vec![dep("trees", "*")]);
    let dirs = vec![ModuleDir {
        name: "trees".to_string(),
        manifest: ManifestLoad::Loaded(self::manifest("bushes", "1.0.0")),
    }];
    assert_eq!(
        Scenario::from_dir_at("/s".to_string(), manifest, &dirs),
        Err(Error::ScenarioMissingModules)
    );
}

#[test]
fn unmet_dependency_is_a_missing_module() {
    let mut trees = manifest("trees", "1.4.0");
    trees.dependencies =
        vec![ModuleDep { name: "soil".to_string(), version_req: "^0.3".to_string(), git_address: None }];
    let with_dep = |extra: Vec<ModuleDir>, mods: Vec<ScenarioModuleDep>| {
        let mut dirs =
            vec![ModuleDir { name: "trees".to_string(), manifest: ManifestLoad::Loaded(trees.clone()) }];
        dirs.extend(extra);
        Scenario::from_dir_at("/s".to_string(), scenario_manifest("*", mods), &dirs)
    };
    // the dependency is not listed by the scenario
    assert_eq!(with_dep(vec![dir("soil", "0.3.1")], vec![dep("trees", "*")]), Err(Error::ScenarioMissingModules));
    // listed and found
    assert!(with_dep(vec![dir("soil", "0.3.1")], vec![dep("trees", "*"), dep("soil", "*")]).is_ok());
    // listed behind the module that needs it, being the last module
    assert!(with_dep(vec![dir("soil", "0.3.1")], vec![dep("soil", "*"), dep("trees", "*")]).is_ok());
    // found in a version that does not do
    assert_eq!(
        with_dep(vec![dir("soil", "0.4.0")], vec![dep("trees", "*"), dep("soil", "*")]),
        Err(Error::ScenarioMissingModules)
    );
}

#[test]
fn engine_requirements_of_scenario_and_modules() {
    let r = Scenario::from_dir_at("/s".to_string(), scenario_manifest(">=9", vec![]), &vec![]);
    assert_eq!(r, Err(Error::Other(String::new())));
    let r = Scenario::from_dir_at("/s".to_string(), scenario_manifest("what", vec![]), &vec![]);
    assert_eq!(r, Err(Error::ParsingError("what".to_string())));
    let mut m = manifest("trees", "1.0.0");
    m.engine_version_req = ">=9".to_string();
    let dirs = vec![ModuleDir { name: "trees".to_string(), manifest: ManifestLoad::Loaded(m.clone()) }];
    let r = Scenario::from_dir_at("/s".to_string(), scenario_manifest("*", vec![dep("trees", "*")]), &dirs);
    assert!(matches!(r, Err(Error::Other(_))));
    m.engine_version_req = "what".to_string();
    let dirs = vec![ModuleDir { name: "trees".to_string(), manifest: ManifestLoad::Loaded(m.clone()) }];
    let r = Scenario::from_dir_at("/s".to_string(), scenario_manifest("*", vec![dep("trees", "*")]), &dirs);
    assert_eq!(r, Err(Error::ParsingError("what".to_string())));
    // a module that is not asked for is not looked at
    let r = Scenario::from_dir_at("/s".to_string(), scenario_manifest("*", vec![]), &dirs);
    assert!(r.is_ok());
}

#[test]
fn engine_feature_requirements() {
    let mut m = manifest("trees", "1.0.0");
    m.engine_features = vec!["unknown_feature".to_string()];
    let dirs = vec![ModuleDir { name: "trees".to_string(), manifest: ManifestLoad::Loaded(m.clone()) }];
    assert!(Scenario::from_dir_at("/s".to_string(), scenario_manifest("*", vec![dep("trees", "*")]), &dirs).is_ok());
    m.engine_features = vec!["unknown_feature".to_string(), "machine_sysinfo".to_string()];
    let dirs = vec![ModuleDir { name: "trees".to_string(), manifest: ManifestLoad::Loaded(m) }];
    let r = Scenario::from_dir_at("/s".to_string(), scenario_manifest("*", vec![dep("trees", "*")]), &dirs);
    assert_eq!(r, Err(Error::Other("required feature \"system_info\" not available".to_string())));
}

#[test]
fn manifest_that_failed_to_load_stops_the_load() {
    let dirs = vec![
        dir("birds", "1.0.0"),
        ModuleDir {
            name: "trees".to_string(),
            manifest: ManifestLoad::Failed(Error::Other("unreadable".to_string())),
        },
    ];
    let r = Scenario::from_dir_at(
        "/s".to_string(),
        scenario_manifest("*", vec![dep("birds", "*"), dep("trees", "*")]),
        &dirs,
    );
    assert_eq!(r, Err(Error::Other("unreadable".to_string())));
    assert!(matches!(judge_dir(&dirs[0], &dep("birds", "^1")), DirVerdict::Take));
    assert!(matches!(judge_dir(&dirs[0], &dep("birds", "^2")), DirVerdict::Skip));
    assert!(matches!(judge_dir(&dirs[0], &dep("trees", "*")), DirVerdict::Skip));
    assert!(matches!(judge_dir(&dirs[1], &dep("trees", "*")), DirVerdict::Fail(_)));
}

#[test]
fn a_later_entry_of_a_name_replaces_an_earlier_one() {
    let names: Vec<String> = ["a", "b", "a", "c", "b"].iter().map(|s| s.to_string()).collect();
    assert_eq!(last_positions(&names), vec![2, 3, 4]);
    assert_eq!(last_positions(&vec![]), Vec::<usize>::new());
    let once: Vec<String> = ["x", "y", "z"].iter().map(|s| s.to_string()).collect();
    assert_eq!(last_positions(&once), vec![0, 1, 2]);
}

#[test]
fn settings_and_dependencies_have_each_name_once() {
    let mut raw = raw_scenario(vec![]);
    raw.settings = vec![
        Setting { name: "speed".to_string(), value: "fast".to_string() },
        Setting { name: "size".to_string(), value: "big".to_string() },
        Setting { name: "speed".to_string(), value: "slow".to_string() },
    ];
    let m = ScenarioManifest::from_dir_at(raw).unwrap();
    assert_eq!(
        m.settings,
        vec![
            Setting { name: "size".to_string(), value: "big".to_string() },
            Setting { name: "speed".to_string(), value: "slow".to_string() },
        ]
    );
    let mut raw = raw_module("trees", "1.4.0");
    raw.dependencies = vec![
        RawDep { name: "soil".to_string(), value: DepValue::Text("0.3".to_string()) },
        RawDep { name: "rain".to_string(), value: DepValue::Text("1".to_string()) },
        RawDep { name: "soil".to_string(), value: DepValue::Text("0.4".to_string()) },
    ];
    let m = ModuleManifest::from_dir_at(raw).unwrap();
    assert_eq!(
        m.dependencies,
        vec![
            ModuleDep { name: "rain".to_string(), version_req: "^1".to_string(), git_address: None },
            ModuleDep { name: "soil".to_string(), version_req: "^0.4".to_string(), git_address: None },
        ]
    );
    // a value that cannot be read is refused even where a later entry replaces it
    let mut raw = raw_module("trees", "1.4.0");
    raw.dependencies = vec![
        RawDep { name: "soil".to_string(), value: DepValue::Other },
        RawDep { name: "soil".to_string(), value: DepValue::Text("0.4".to_string()) },
    ];
    assert_eq!(
        ModuleManifest::from_dir_at(raw),
        Err(Error::Other(
            "module dep has to be either a string (version specifier) or a mapping".to_string()
        ))
    );
}
