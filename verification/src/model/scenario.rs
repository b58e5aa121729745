//! Scenarios and their modules: how what was read from the manifests of a
//! scenario directory becomes a `Scenario`. Reading the files is left to
//! the caller; version requirements are judged by the `semver` crate.

use vstd::prelude::*;
use crate::error::{is_other, Error};
use crate::model::{
    Module, ModuleDep, ModuleManifest, Scenario, ScenarioManifest, ScenarioModuleDep, Setting,
};
use crate::text::{
    as_ints, each_once, items_at, last_of_each, last_positions, lemma_last_of_each_bounds,
    lemma_last_of_each_is_all, lemma_last_of_each_once, str_eq, texts,
};
use crate::var::clone_strings;

verus! {

/// Version of the engine.
pub const VERSION: &'static str = "0.1.0";

/// Name of the engine feature that gives access to system information.
pub const FEATURE_NAME_MACHINE_SYSINFO: &'static str = "machine_sysinfo";

/// Whether the engine has the feature `machine_sysinfo`.
pub const FEATURE_MACHINE_SYSINFO: bool = false;

/// The version that stands for a module version which cannot be read.
pub const FALLBACK_VERSION: &'static str = "0.1.0";

/// The text that `semver` writes for a version requirement which it read
/// from the given text; `None` where it cannot read one.
pub uninterp spec fn req_normal(req: Seq<char>) -> Option<Seq<char>>;

/// Whether `semver` can read a version from the given text.
pub uninterp spec fn version_parses(version: Seq<char>) -> bool;

/// Whether, by `semver`, the version meets the requirement. `None` where
/// the requirement or the version cannot be read.
pub uninterp spec fn req_match(req: Seq<char>, version: Seq<char>) -> Option<bool>;

/// Reads a version requirement and writes it again.
///
/// Trusted: `semver::VersionReq::parse`, and `to_string` on what it
/// returned.
#[verifier::external_body]
fn normalized_req(req: &str) -> (r: Option<String>)
    ensures
        (match r {
            Some(t) => Some(t@),
            None => None,
        }) == req_normal(req@),
{
    semver::VersionReq::parse(req).ok().map(|v| v.to_string())
}

/// Whether the text is a version.
///
/// Trusted: `semver::Version::parse`.
#[verifier::external_body]
fn is_version(version: &str) -> (r: bool)
    ensures
        r == version_parses(version@),
{
    semver::Version::parse(version).is_ok()
}

/// Whether the version meets the requirement.
///
/// Trusted: `semver::VersionReq::matches` on the requirement and the
/// version that `VersionReq::parse` and `Version::parse` read.
#[verifier::external_body]
fn matches_req(req: &str, version: &str) -> (r: Option<bool>)
    ensures
        r == req_match(req@, version@),
{
    let req = semver::VersionReq::parse(req).ok()?;
    let version = semver::Version::parse(version).ok()?;
    Some(req.matches(&version))
}

/// Whether the version meets the requirement `VersionReq::any()`.
///
/// Trusted: `semver::VersionReq::matches` on `VersionReq::any()` and the
/// version that `Version::parse` reads. That requirement holds no
/// predicate, and one without predicates is met by every version: the
/// answer is yes wherever the version can be read.
#[verifier::external_body]
fn matches_any(version: &str) -> (r: Option<bool>)
    ensures
        r == (if version_parses(version@) {
            Some(true)
        } else {
            None
        }),
{
    let version = semver::Version::parse(version).ok()?;
    Some(semver::VersionReq::any().matches(&version))
}

/// How a version stands to a requirement where both have to be readable.
pub enum EngineCheck {
    Met,
    BadRequirement,
    BadVersion,
    Mismatch,
}

/// How a version stands to a requirement where both have to be readable.
pub open spec fn engine_check(req: Seq<char>, version: Seq<char>) -> EngineCheck {
    if req_normal(req) is None {
        EngineCheck::BadRequirement
    } else if !version_parses(version) {
        EngineCheck::BadVersion
    } else if req_match(req, version) == Some(true) {
        EngineCheck::Met
    } else {
        EngineCheck::Mismatch
    }
}

/// Whether a version meets a requirement, where a requirement that cannot
/// be read is met by every version and a version that cannot be read
/// counts as `FALLBACK_VERSION`.
pub open spec fn lenient_match(req: Seq<char>, version: Seq<char>) -> bool {
    let counted = if version_parses(version) {
        version
    } else {
        FALLBACK_VERSION@
    };
    if req_normal(req) is Some {
        req_match(req, counted) == Some(true)
    } else {
        version_parses(counted)
    }
}

/// How a version stands to a requirement where both have to be readable.
pub fn check_engine(req: &str, version: &str) -> (r: EngineCheck)
    ensures
        r == engine_check(req@, version@),
{
    if normalized_req(req).is_none() {
        EngineCheck::BadRequirement
    } else if !is_version(version) {
        EngineCheck::BadVersion
    } else {
        match matches_req(req, version) {
            Some(true) => EngineCheck::Met,
            _ => EngineCheck::Mismatch,
        }
    }
}

/// Whether a version meets a requirement, leniently.
pub fn matches_leniently(req: &str, version: &str) -> (r: bool)
    ensures
        r == lenient_match(req@, version@),
{
    let counted = if is_version(version) {
        version
    } else {
        FALLBACK_VERSION
    };
    let met = if normalized_req(req).is_some() {
        matches_req(req, counted)
    } else {
        matches_any(counted)
    };
    match met {
        Some(true) => true,
        _ => false,
    }
}

/// What a manifest gives for a dependency: a version requirement, a table
/// with a version requirement and the address of a repository, or
/// something else.
#[derive(Debug, Clone, PartialEq)]
pub enum DepValue {
    Text(String),
    Table { version: Option<String>, git: Option<String> },
    Other,
}

/// The requirement that every version meets.
pub open spec fn any_text() -> Seq<char> {
    seq!['*']
}

/// A version requirement as `semver` writes it, or the requirement that
/// every version meets where the text cannot be read.
pub open spec fn normal_or_any(req: Seq<char>) -> Seq<char> {
    match req_normal(req) {
        Some(t) => t,
        None => any_text(),
    }
}

fn any_req() -> (r: String)
    ensures
        r@ == any_text(),
{
    let v = vec!['*'];
    proof {
        assert(v@ =~= any_text());
    }
    crate::text::string_of(&v)
}

fn req_or_any(req: &str) -> (r: String)
    ensures
        r@ == normal_or_any(req@),
{
    match normalized_req(req) {
        Some(t) => t,
        None => any_req(),
    }
}

/// The text of an optional string.
pub open spec fn opt_string_text(s: Option<String>) -> Option<Seq<char>> {
    match s {
        Some(t) => Some(t@),
        None => None,
    }
}

/// The requirement and the repository that a dependency value gives; none
/// where it is neither a text nor a table.
pub open spec fn dep_of_value(value: DepValue) -> Option<(Seq<char>, Option<Seq<char>>)> {
    match value {
        DepValue::Text(s) => Some((normal_or_any(s@), None)),
        DepValue::Table { version, git } => Some(
            (
                match version {
                    Some(v) => normal_or_any(v@),
                    None => any_text(),
                },
                opt_string_text(git),
            ),
        ),
        DepValue::Other => None,
    }
}

fn dep_from_value(value: &DepValue) -> (r: Option<(String, Option<String>)>)
    ensures
        match r {
            Some(d) => dep_of_value(*value) == Some((d.0@, opt_string_text(d.1))),
            None => dep_of_value(*value) is None,
        },
{
    match value {
        DepValue::Text(s) => Some((req_or_any(s.as_str()), None)),
        DepValue::Table { version, git } => {
            let req = match version {
                Some(v) => req_or_any(v.as_str()),
                None => any_req(),
            };
            let git_address = match git {
                Some(g) => Some(g.clone()),
                None => None,
            };
            Some((req, git_address))
        },
        DepValue::Other => None,
    }
}

impl ScenarioModuleDep {
    /// Create scenario module dependency object from what the manifest
    /// gives for it: the requirement is kept as `semver` writes it, and is
    /// the one that every version meets where none is given or where it
    /// cannot be read. A value that is neither a text nor a table gives
    /// `None`.
    pub fn from_toml_value(scenario_name: &String, value: &DepValue) -> (r: Option<
        ScenarioModuleDep,
    >)
        ensures
            match r {
                Some(d) => d.name@ == scenario_name@ && dep_of_value(*value) == Some(
                    (d.version_req@, opt_string_text(d.git_address)),
                ),
                None => dep_of_value(*value) is None,
            },
    {
        match dep_from_value(value) {
            Some(d) => Some(
                ScenarioModuleDep { name: scenario_name.clone(), version_req: d.0, git_address: d.1 },
            ),
            None => None,
        }
    }
}

/// A dependency as a manifest names it.
#[derive(Debug, Clone, PartialEq)]
pub struct RawDep {
    pub name: String,
    pub value: DepValue,
}

/// A scenario manifest as it was read.
#[derive(Debug, Clone, PartialEq)]
pub struct RawScenarioManifest {
    pub name: String,
    pub version: String,
    pub engine: String,
    pub title: String,
    pub desc: String,
    pub desc_long: String,
    pub author: String,
    pub website: String,
    pub mods: Vec<RawDep>,
    pub settings: Vec<Setting>,
}

/// What a manifest holds for an entry that may be left out: nothing where
/// the text is empty.
pub open spec fn optional(s: String, r: Option<String>) -> bool {
    if s@.len() == 0 {
        r is None
    } else {
        r == Some(s)
    }
}

fn non_empty(s: String) -> (r: Option<String>)
    ensures
        optional(s, r),
{
    if s.as_str().unicode_len() == 0 {
        None
    } else {
        Some(s)
    }
}

/// Whether every dependency value is a text or a table.
pub open spec fn all_deps_readable(deps: Seq<RawDep>) -> bool {
    forall|i: int| 0 <= i < deps.len() ==> dep_of_value((#[trigger] deps[i]).value) is Some
}

/// The names of settings, in their order.
pub open spec fn setting_names(settings: Seq<Setting>) -> Seq<Seq<char>> {
    Seq::new(settings.len(), |i: int| settings[i].name@)
}

/// The settings that stay where a later setting replaces an earlier one of
/// the same name, as in a map from names: each name once.
pub open spec fn latest_settings(settings: Seq<Setting>) -> Seq<Setting> {
    items_at(settings, last_of_each(setting_names(settings), settings.len()))
}

/// The names of dependencies as a manifest names them, in their order.
pub open spec fn raw_dep_names(deps: Seq<RawDep>) -> Seq<Seq<char>> {
    Seq::new(deps.len(), |i: int| deps[i].name@)
}

/// The dependencies that stay where a later one replaces an earlier one of
/// the same name, as in a map from names: each name once.
pub open spec fn latest_deps(deps: Seq<RawDep>) -> Seq<RawDep> {
    items_at(deps, last_of_each(raw_dep_names(deps), deps.len()))
}

/// The names of the dependencies of a module, in their order.
pub open spec fn dep_names(deps: Seq<ModuleDep>) -> Seq<Seq<char>> {
    Seq::new(deps.len(), |i: int| deps[i].name@)
}

/// Whether the dependencies are those that the manifest names, each with
/// the requirement and the repository that its value gives.
pub open spec fn deps_built(deps: Seq<ModuleDep>, raw: Seq<RawDep>) -> bool {
    &&& deps.len() == raw.len()
    &&& forall|i: int|
        0 <= i < deps.len() ==> (#[trigger] deps[i]).name@ == raw[i].name@ && dep_of_value(
            raw[i].value,
        ) == Some((deps[i].version_req@, opt_string_text(deps[i].git_address)))
}

/// Where no two settings have one name, all of them stay, in their order.
pub proof fn lemma_latest_settings_keep_all(settings: Seq<Setting>)
    requires
        each_once(setting_names(settings)),
    ensures
        latest_settings(settings) == settings,
{
    lemma_last_of_each_is_all(setting_names(settings), settings.len());
    assert(latest_settings(settings) =~= settings);
}

/// Where no two dependencies have one name, all of them stay, in their
/// order.
pub proof fn lemma_latest_deps_keep_all(deps: Seq<RawDep>)
    requires
        each_once(raw_dep_names(deps)),
    ensures
        latest_deps(deps) == deps,
{
    lemma_last_of_each_is_all(raw_dep_names(deps), deps.len());
    assert(latest_deps(deps) =~= deps);
}

/// The settings without those that a later setting of the same name
/// replaces.
fn settings_once(settings: &Vec<Setting>) -> (r: Vec<Setting>)
    ensures
        r@ == latest_settings(settings@),
        each_once(setting_names(r@)),
{
    let mut names: Vec<String> = Vec::new();
    let mut i: usize = 0;
    while i < settings.len()
        invariant
            i <= settings.len(),
            names@.len() == i,
            forall|j: int| 0 <= j < i ==> (#[trigger] names@[j])@ == settings@[j].name@,
        decreases settings.len() - i,
    {
        names.push(settings[i].name.clone());
        i += 1;
    }
    let at = last_positions(&names);
    let ghost all = setting_names(settings@);
    proof {
        assert(texts(names@) =~= all);
        lemma_last_of_each_bounds(all, all.len());
        lemma_last_of_each_once(all);
    }
    let mut out: Vec<Setting> = Vec::new();
    let mut k: usize = 0;
    while k < at.len()
        invariant
            k <= at.len(),
            all == setting_names(settings@),
            as_ints(at@) == last_of_each(all, all.len()),
            forall|q: int| 0 <= q < at@.len() ==> 0 <= #[trigger] as_ints(at@)[q] < settings@.len(),
            out@.len() == k,
            forall|q: int| 0 <= q < k ==> #[trigger] out@[q] == settings@[at@[q] as int],
        decreases at.len() - k,
    {
        proof {
            assert(as_ints(at@)[k as int] == at@[k as int]);
        }
        let s = &settings[at[k]];
        out.push(Setting { name: s.name.clone(), value: s.value.clone() });
        k += 1;
    }
    proof {
        assert(out@ =~= latest_settings(settings@)) by {
            assert forall|q: int| 0 <= q < out@.len() implies out@[q] == latest_settings(
                settings@,
            )[q] by {
                assert(as_ints(at@)[q] == at@[q]);
            }
        }
        assert(setting_names(out@) =~= items_at(all, last_of_each(all, all.len()))) by {
            assert forall|q: int| 0 <= q < out@.len() implies setting_names(out@)[q] == items_at(
                all,
                last_of_each(all, all.len()),
            )[q] by {
                assert(as_ints(at@)[q] == at@[q]);
            }
        }
    }
    out
}

/// The dependencies without those that a later dependency of the same
/// name replaces, each with the requirement and the repository that its
/// value gives; `None` where the value of a dependency is neither a text
/// nor a table.
fn deps_once(raw: &Vec<RawDep>) -> (r: Option<Vec<ModuleDep>>)
    ensures
        match r {
            Some(deps) => all_deps_readable(raw@) && deps_built(deps@, latest_deps(raw@)) && each_once(
                dep_names(deps@),
            ),
            None => !all_deps_readable(raw@),
        },
{
    let mut names: Vec<String> = Vec::new();
    let mut i: usize = 0;
    while i < raw.len()
        invariant
            i <= raw.len(),
            names@.len() == i,
            forall|j: int| 0 <= j < i ==> (#[trigger] names@[j])@ == raw@[j].name@,
            forall|j: int| 0 <= j < i ==> dep_of_value((#[trigger] raw@[j]).value) is Some,
        decreases raw.len() - i,
    {
        if dep_from_value(&raw[i].value).is_none() {
            return None;
        }
        names.push(raw[i].name.clone());
        i += 1;
    }
    let at = last_positions(&names);
    let ghost all = raw_dep_names(raw@);
    proof {
        assert(texts(names@) =~= all);
        lemma_last_of_each_bounds(all, all.len());
        lemma_last_of_each_once(all);
    }
    let mut out: Vec<ModuleDep> = Vec::new();
    let mut k: usize = 0;
    while k < at.len()
        invariant
            k <= at.len(),
            all == raw_dep_names(raw@),
            all_deps_readable(raw@),
            as_ints(at@) == last_of_each(all, all.len()),
            forall|q: int| 0 <= q < at@.len() ==> 0 <= #[trigger] as_ints(at@)[q] < raw@.len(),
            out@.len() == k,
            forall|q: int|
                0 <= q < k ==> (#[trigger] out@[q]).name@ == raw@[at@[q] as int].name@ && dep_of_value(
                    raw@[at@[q] as int].value,
                ) == Some((out@[q].version_req@, opt_string_text(out@[q].git_address))),
        decreases at.len() - k,
    {
        proof {
            assert(as_ints(at@)[k as int] == at@[k as int]);
        }
        let d = &raw[at[k]];
        match dep_from_value(&d.value) {
            Some(v) => {
                out.push(ModuleDep { name: d.name.clone(), version_req: v.0, git_address: v.1 });
            },
            None => {
                return None;
            },
        }
        k += 1;
    }
    proof {
        assert(deps_built(out@, latest_deps(raw@))) by {
            assert forall|q: int| 0 <= q < out@.len() implies (#[trigger] out@[q]).name@
                == latest_deps(raw@)[q].name@ && dep_of_value(latest_deps(raw@)[q].value) == Some(
                (out@[q].version_req@, opt_string_text(out@[q].git_address)),
            ) by {
                assert(as_ints(at@)[q] == at@[q]);
            }
        }
        assert(dep_names(out@) =~= items_at(all, last_of_each(all, all.len()))) by {
            assert forall|q: int| 0 <= q < out@.len() implies dep_names(out@)[q] == items_at(
                all,
                last_of_each(all, all.len()),
            )[q] by {
                assert(as_ints(at@)[q] == at@[q]);
            }
        }
    }
    Some(out)
}

impl ScenarioManifest {
    /// Creates new scenario manifest object from what was read from the
    /// manifest of a scenario directory. Entries that may be left out are
    /// absent where their text is empty. The settings are kept as a map
    /// from names would keep them: a later setting replaces an earlier one
    /// of the same name, so that every name is there once. A module whose
    /// value is neither a text nor a table is refused with `Error::Other`.
    pub fn from_dir_at(raw: RawScenarioManifest) -> (r: Result<ScenarioManifest, Error>)
        ensures
            match r {
                Ok(m) => all_deps_readable(raw.mods@) && m.name == raw.name && m.version
                    == raw.version && m.engine == raw.engine && m.settings@ == latest_settings(
                    raw.settings@,
                ) && each_once(setting_names(m.settings@))
                    && optional(raw.title, m.title) && optional(raw.desc, m.desc) && optional(
                    raw.desc_long,
                    m.desc_long,
                ) && optional(raw.author, m.author) && optional(raw.website, m.website)
                    && m.mods@.len() == raw.mods@.len() && forall|i: int|
                    0 <= i < m.mods@.len() ==> (#[trigger] m.mods@[i]).name@ == raw.mods@[i].name@
                        && dep_of_value(raw.mods@[i].value) == Some(
                        (m.mods@[i].version_req@, opt_string_text(m.mods@[i].git_address)),
                    ),
                Err(e) => !all_deps_readable(raw.mods@) && is_other(
                    e,
                    "module dep has to be either a string (version specifier) or a mapping"@,
                ),
            },
    {
        let mut mods: Vec<ScenarioModuleDep> = Vec::new();
        let mut i: usize = 0;
        while i < raw.mods.len()
            invariant
                i <= raw.mods.len(),
                mods@.len() == i,
                forall|j: int|
                    0 <= j < i ==> (#[trigger] mods@[j]).name@ == raw.mods@[j].name@ && dep_of_value(
                        raw.mods@[j].value,
                    ) == Some((mods@[j].version_req@, opt_string_text(mods@[j].git_address))),
            decreases raw.mods.len() - i,
        {
            match ScenarioModuleDep::from_toml_value(&raw.mods[i].name, &raw.mods[i].value) {
                Some(d) => {
                    mods.push(d);
                },
                None => {
                    return Err(
                        Error::Other(
                            "module dep has to be either a string (version specifier) or a mapping".to_owned(),
                        ),
                    );
                },
            }
            i += 1;
        }
        proof {
            assert forall|j: int| 0 <= j < raw.mods@.len() implies dep_of_value(
                (#[trigger] raw.mods@[j]).value,
            ) is Some by {
                assert(mods@[j].name@ == raw.mods@[j].name@);
            }
        }
        Ok(
            ScenarioManifest {
                name: raw.name,
                version: raw.version,
                engine: raw.engine,
                settings: settings_once(&raw.settings),
                title: non_empty(raw.title),
                desc: non_empty(raw.desc),
                desc_long: non_empty(raw.desc_long),
                author: non_empty(raw.author),
                website: non_empty(raw.website),
                mods,
            },
        )
    }
}

/// What a module manifest says of the engine.
#[derive(Debug, Clone, PartialEq)]
pub struct RawEngine {
    pub version: Option<String>,
    pub features: Option<Vec<String>>,
}

/// A module manifest as it was read.
#[derive(Debug, Clone, PartialEq)]
pub struct RawModuleManifest {
    pub name: String,
    pub version: String,
    pub title: String,
    pub desc: String,
    pub desc_long: String,
    pub author: String,
    pub website: String,
    pub engine: Option<RawEngine>,
    pub dependencies: Vec<RawDep>,
    pub reqs: Vec<String>,
}

/// The version requirement that a manifest has for the engine: empty where
/// it gives none.
pub open spec fn engine_req_of(engine: Option<RawEngine>) -> Seq<char> {
    match engine {
        Some(e) => match e.version {
            Some(v) => v@,
            None => Seq::empty(),
        },
        None => Seq::empty(),
    }
}

/// The engine features that a manifest asks for: none where it names
/// none.
pub open spec fn engine_features_of(engine: Option<RawEngine>) -> Seq<String> {
    match engine {
        Some(e) => match e.features {
            Some(f) => f@,
            None => Seq::empty(),
        },
        None => Seq::empty(),
    }
}

impl ModuleManifest {
    /// Create module manifest from what was read from the manifest of a
    /// module directory. Entries that may be left out are absent where
    /// their text is empty. The dependencies are kept as a map from names
    /// would keep them: a later one replaces an earlier one of the same
    /// name, so that every name is there once. A dependency whose value is
    /// neither a text nor a table is refused with `Error::Other`.
    pub fn from_dir_at(raw: RawModuleManifest) -> (r: Result<ModuleManifest, Error>)
        ensures
            match r {
                Ok(m) => all_deps_readable(raw.dependencies@) && m.name == raw.name && m.version
                    == raw.version && m.reqs == raw.reqs && m.engine_version_req@ == engine_req_of(
                    raw.engine,
                ) && m.engine_features@ == engine_features_of(raw.engine) && optional(
                    raw.title,
                    m.title,
                ) && optional(raw.desc, m.desc) && optional(raw.desc_long, m.desc_long)
                    && optional(raw.author, m.author) && optional(raw.website, m.website)
                    && deps_built(m.dependencies@, latest_deps(raw.dependencies@)) && each_once(
                    dep_names(m.dependencies@),
                ),
                Err(e) => !all_deps_readable(raw.dependencies@) && is_other(
                    e,
                    "module dep has to be either a string (version specifier) or a mapping"@,
                ),
            },
    {
        let dependencies = match deps_once(&raw.dependencies) {
            Some(d) => d,
            None => {
                return Err(
                    Error::Other(
                        "module dep has to be either a string (version specifier) or a mapping".to_owned(),
                    ),
                );
            },
        };
        let (engine_version_req, engine_features) = match raw.engine {
            Some(e) => (
                match e.version {
                    Some(v) => v,
                    None => String::new(),
                },
                match e.features {
                    Some(f) => f,
                    None => Vec::new(),
                },
            ),
            None => (String::new(), Vec::new()),
        };
        Ok(
            ModuleManifest {
                name: raw.name,
                engine_version_req,
                engine_features,
                version: raw.version,
                dependencies,
                reqs: raw.reqs,
                title: non_empty(raw.title),
                desc: non_empty(raw.desc),
                desc_long: non_empty(raw.desc_long),
                author: non_empty(raw.author),
                website: non_empty(raw.website),
            },
        )
    }
}

impl Module {
    /// The module of a module directory, from what was read from its
    /// manifest.
    pub fn from_dir_at(raw: RawModuleManifest) -> (r: Result<Module, Error>)
        ensures
            match r {
                Ok(m) => ModuleManifest::from_dir_at.ensures((raw,), Ok(m.manifest)),
                Err(e) => ModuleManifest::from_dir_at.ensures((raw,), Err(e)),
            },
    {
        match ModuleManifest::from_dir_at(raw) {
            Ok(manifest) => Ok(Module { manifest }),
            Err(e) => Err(e),
        }
    }
}


/// What became of reading the manifest of a module directory.
#[derive(Debug, Clone, PartialEq)]
pub enum ManifestLoad {
    /// The directory has no manifest.
    Missing,
    /// The manifest could not be read.
    Failed(Error),
    /// The manifest.
    Loaded(ModuleManifest),
}

/// A directory under the `mods` directory of a scenario.
#[derive(Debug, Clone, PartialEq)]
pub struct ModuleDir {
    pub name: String,
    pub manifest: ManifestLoad,
}

/// Why the load of a scenario stops at a module directory.
pub enum DirFailure {
    /// Its manifest could not be read.
    Load(Error),
    /// Its requirement for the engine cannot be read.
    BadRequirement(String),
    /// The version of the engine cannot be read.
    BadVersion,
    /// The engine does not meet its requirement.
    Mismatch,
    /// It asks for a feature that the engine lacks.
    Feature,
}

/// What a module directory is to a module that the scenario lists.
pub enum DirVerdict {
    /// Not the module that is sought.
    Skip,
    /// The load stops here.
    Fail(DirFailure),
    /// The module that is sought.
    Take,
}

/// Whether one of the features is `machine_sysinfo` while the engine lacks
/// it.
pub open spec fn lacks_feature(features: Seq<String>) -> bool {
    !FEATURE_MACHINE_SYSINFO && exists|i: int|
        0 <= i < features.len() && (#[trigger] features[i])@ == FEATURE_NAME_MACHINE_SYSINFO@
}

/// What a module directory is to a module that the scenario lists. Only a
/// directory of the module's name with a manifest is looked at. The engine
/// has to meet the requirement of the manifest and to have the features it
/// asks for, else the load stops. The module is taken where the manifest
/// has the module's name and its version meets, leniently, the requirement
/// of the scenario.
pub open spec fn dir_verdict(dir: ModuleDir, dep: ScenarioModuleDep) -> DirVerdict {
    if dir.name@ != dep.name@ {
        DirVerdict::Skip
    } else {
        match dir.manifest {
            ManifestLoad::Missing => DirVerdict::Skip,
            ManifestLoad::Failed(e) => DirVerdict::Fail(DirFailure::Load(e)),
            ManifestLoad::Loaded(m) => match engine_check(m.engine_version_req@, VERSION@) {
                EngineCheck::BadRequirement => DirVerdict::Fail(
                    DirFailure::BadRequirement(m.engine_version_req),
                ),
                EngineCheck::BadVersion => DirVerdict::Fail(DirFailure::BadVersion),
                EngineCheck::Mismatch => DirVerdict::Fail(DirFailure::Mismatch),
                EngineCheck::Met => if lacks_feature(m.engine_features@) {
                    DirVerdict::Fail(DirFailure::Feature)
                } else if m.name@ == dep.name@ && lenient_match(dep.version_req@, m.version@) {
                    DirVerdict::Take
                } else {
                    DirVerdict::Skip
                },
            },
        }
    }
}

/// What the search for a module among the directories comes to.
pub enum Search {
    /// The position of the directory that is taken.
    Found(int),
    /// The load stops.
    Fail(DirFailure),
    /// No directory is the module.
    NotFound,
}

/// The search for a module among the directories from position `from` on,
/// in their order.
pub open spec fn search(dirs: Seq<ModuleDir>, dep: ScenarioModuleDep, from: int) -> Search
    decreases dirs.len() - from,
{
    if from < 0 || from >= dirs.len() {
        Search::NotFound
    } else {
        match dir_verdict(dirs[from], dep) {
            DirVerdict::Take => Search::Found(from),
            DirVerdict::Fail(f) => Search::Fail(f),
            DirVerdict::Skip => search(dirs, dep, from + 1),
        }
    }
}

/// What the search for the first `n` modules of the scenario comes to: the
/// positions of the directories that are taken, in the order of the
/// modules, and whether every module was found; or why the load stops.
pub open spec fn picked(deps: Seq<ScenarioModuleDep>, dirs: Seq<ModuleDir>, n: int) -> Result<
    (Seq<int>, bool),
    DirFailure,
>
    decreases n,
{
    if n <= 0 {
        Ok((Seq::empty(), true))
    } else {
        match picked(deps, dirs, n - 1) {
            Err(f) => Err(f),
            Ok((taken, all)) => match search(dirs, deps[n - 1], 0) {
                Search::Found(i) => Ok((taken.push(i), all)),
                Search::Fail(f) => Err(f),
                Search::NotFound => Ok((taken, false)),
            },
        }
    }
}

/// Whether one of the modules is what a dependency asks for: it has the
/// name, and its version meets, leniently, the requirement.
pub open spec fn dep_met(dep: ModuleDep, modules: Seq<Module>) -> bool {
    exists|j: int|
        0 <= j < modules.len() && (#[trigger] modules[j]).manifest.name@ == dep.name@
            && lenient_match(dep.version_req@, modules[j].manifest.version@)
}

/// Whether every dependency of every module is met by one of the modules.
pub open spec fn deps_met(modules: Seq<Module>) -> bool {
    forall|i: int, k: int|
        0 <= i < modules.len() && 0 <= k < modules[i].manifest.dependencies@.len() ==> dep_met(
            #[trigger] modules[i].manifest.dependencies@[k],
            modules,
        )
}

/// Whether two manifests say the same.
pub open spec fn same_manifest(a: ModuleManifest, b: ModuleManifest) -> bool {
    &&& a.name == b.name
    &&& a.version == b.version
    &&& a.engine_version_req == b.engine_version_req
    &&& a.engine_features@ == b.engine_features@
    &&& a.dependencies@ == b.dependencies@
    &&& a.reqs@ == b.reqs@
    &&& a.title == b.title
    &&& a.desc == b.desc
    &&& a.desc_long == b.desc_long
    &&& a.author == b.author
    &&& a.website == b.website
}

fn copy_opt(s: &Option<String>) -> (r: Option<String>)
    ensures
        r == *s,
{
    match s {
        Some(t) => Some(t.clone()),
        None => None,
    }
}

fn copy_manifest(m: &ModuleManifest) -> (r: ModuleManifest)
    ensures
        same_manifest(r, *m),
{
    let mut dependencies: Vec<ModuleDep> = Vec::new();
    let mut i: usize = 0;
    while i < m.dependencies.len()
        invariant
            i <= m.dependencies.len(),
            dependencies@ == m.dependencies@.take(i as int),
        decreases m.dependencies.len() - i,
    {
        let d = &m.dependencies[i];
        dependencies.push(
            ModuleDep {
                name: d.name.clone(),
                version_req: d.version_req.clone(),
                git_address: copy_opt(&d.git_address),
            },
        );
        proof {
            assert(m.dependencies@.take(i + 1) =~= m.dependencies@.take(i as int).push(
                m.dependencies@[i as int],
            ));
        }
        i += 1;
    }
    proof {
        assert(m.dependencies@.take(m.dependencies.len() as int) =~= m.dependencies@);
    }
    ModuleManifest {
        name: m.name.clone(),
        version: m.version.clone(),
        engine_version_req: m.engine_version_req.clone(),
        engine_features: clone_strings(&m.engine_features),
        dependencies,
        reqs: clone_strings(&m.reqs),
        title: copy_opt(&m.title),
        desc: copy_opt(&m.desc),
        desc_long: copy_opt(&m.desc_long),
        author: copy_opt(&m.author),
        website: copy_opt(&m.website),
    }
}

fn feature_lacking(features: &Vec<String>) -> (r: bool)
    ensures
        r == lacks_feature(features@),
{
    if FEATURE_MACHINE_SYSINFO {
        return false;
    }
    let mut i: usize = 0;
    while i < features.len()
        invariant
            i <= features.len(),
            forall|j: int| 0 <= j < i ==> (#[trigger] features@[j])@ != FEATURE_NAME_MACHINE_SYSINFO@,
        decreases features.len() - i,
    {
        if str_eq(features[i].as_str(), FEATURE_NAME_MACHINE_SYSINFO) {
            return true;
        }
        i += 1;
    }
    false
}

/// What a module directory is to a module that the scenario lists.
pub fn judge_dir(dir: &ModuleDir, dep: &ScenarioModuleDep) -> (r: DirVerdict)
    ensures
        r == dir_verdict(*dir, *dep),
{
    if !str_eq(dir.name.as_str(), dep.name.as_str()) {
        return DirVerdict::Skip;
    }
    match &dir.manifest {
        ManifestLoad::Missing => DirVerdict::Skip,
        ManifestLoad::Failed(e) => DirVerdict::Fail(DirFailure::Load(e.clone())),
        ManifestLoad::Loaded(m) => match check_engine(m.engine_version_req.as_str(), VERSION) {
            EngineCheck::BadRequirement => DirVerdict::Fail(
                DirFailure::BadRequirement(m.engine_version_req.clone()),
            ),
            EngineCheck::BadVersion => DirVerdict::Fail(DirFailure::BadVersion),
            EngineCheck::Mismatch => DirVerdict::Fail(DirFailure::Mismatch),
            EngineCheck::Met => {
                if feature_lacking(&m.engine_features) {
                    DirVerdict::Fail(DirFailure::Feature)
                } else if str_eq(m.name.as_str(), dep.name.as_str()) && matches_leniently(
                    dep.version_req.as_str(),
                    m.version.as_str(),
                ) {
                    DirVerdict::Take
                } else {
                    DirVerdict::Skip
                }
            },
        },
    }
}

/// The error that the load of a scenario ends with where it stops at a
/// module directory.
pub open spec fn is_error_of(f: DirFailure, e: Error) -> bool {
    match f {
        DirFailure::Load(x) => e == x,
        DirFailure::BadRequirement(t) => e == Error::ParsingError(t),
        DirFailure::BadVersion => e matches Error::ParsingError(t) && t@ == VERSION@,
        DirFailure::Mismatch => is_other(
            e,
            "a mod specifies a version requirement for the engine that the engine does not meet"@,
        ),
        DirFailure::Feature => is_other(e, "required feature \"system_info\" not available"@),
    }
}

fn error_of(f: DirFailure) -> (r: Error)
    ensures
        is_error_of(f, r),
{
    match f {
        DirFailure::Load(e) => e,
        DirFailure::BadRequirement(t) => Error::ParsingError(t),
        DirFailure::BadVersion => Error::ParsingError(VERSION.to_owned()),
        DirFailure::Mismatch => Error::Other(
            "a mod specifies a version requirement for the engine that the engine does not meet".to_owned(),
        ),
        DirFailure::Feature => Error::Other(
            "required feature \"system_info\" not available".to_owned(),
        ),
    }
}

/// Whether the modules are copies of the manifests of the directories at
/// the given positions.
pub open spec fn modules_from(modules: Seq<Module>, dirs: Seq<ModuleDir>, taken: Seq<int>) -> bool {
    &&& modules.len() == taken.len()
    &&& forall|k: int|
        0 <= k < taken.len() ==> 0 <= #[trigger] taken[k] < dirs.len() && (
        dirs[taken[k]].manifest matches ManifestLoad::Loaded(m) && same_manifest(
            modules[k].manifest,
            m,
        ))
}

/// Whether `r` is what the load of a scenario returns. The engine has to
/// meet the requirement of the scenario manifest. Then the modules that
/// the manifest lists are sought among the directories, each from the
/// first directory on. The load fails with `ScenarioMissingModules` where
/// a module is not found or where a dependency of a module that was found
/// is met by none of the modules found; else the scenario has a copy of
/// the manifest of every module that was found.
pub open spec fn loaded(
    path: String,
    manifest: ScenarioManifest,
    dirs: Seq<ModuleDir>,
    r: Result<Scenario, Error>,
) -> bool {
    match engine_check(manifest.engine@, VERSION@) {
        EngineCheck::BadRequirement => r == Err::<Scenario, Error>(
            Error::ParsingError(manifest.engine),
        ),
        EngineCheck::BadVersion => r matches Err(Error::ParsingError(t)) && t@ == VERSION@,
        EngineCheck::Mismatch => r matches Err(Error::Other(t)) && t@.len() == 0,
        EngineCheck::Met => match picked(manifest.mods@, dirs, manifest.mods@.len() as int) {
            Err(f) => r matches Err(e) && is_error_of(f, e),
            Ok((taken, all)) => if all && deps_met(taken_modules(dirs, taken)) {
                r matches Ok(s) && s.path == path && s.manifest == manifest && modules_from(
                    s.modules@,
                    dirs,
                    taken,
                )
            } else {
                r == Err::<Scenario, Error>(Error::ScenarioMissingModules)
            },
        },
    }
}

/// The modules of the directories at the given positions.
pub open spec fn taken_modules(dirs: Seq<ModuleDir>, taken: Seq<int>) -> Seq<Module> {
    Seq::new(
        taken.len(),
        |k: int|
            Module {
                manifest: match dirs[taken[k]].manifest {
                    ManifestLoad::Loaded(m) => m,
                    _ => arbitrary(),
                },
            },
    )
}

/// Copies of modules meet their dependencies exactly when the modules do.
proof fn lemma_deps_of_copies(modules: Seq<Module>, dirs: Seq<ModuleDir>, taken: Seq<int>)
    requires
        modules_from(modules, dirs, taken),
    ensures
        deps_met(modules) == deps_met(taken_modules(dirs, taken)),
{
    let origin = taken_modules(dirs, taken);
    assert forall|k: int| 0 <= k < taken.len() implies same_manifest(
        #[trigger] modules[k].manifest,
        origin[k].manifest,
    ) by {
        assert(0 <= taken[k] < dirs.len());
    }
    assert forall|d: ModuleDep| dep_met(d, modules) == dep_met(d, origin) by {
        if dep_met(d, modules) {
            let j = choose|j: int|
                0 <= j < modules.len() && (#[trigger] modules[j]).manifest.name@ == d.name@
                    && lenient_match(d.version_req@, modules[j].manifest.version@);
            assert(same_manifest(modules[j].manifest, origin[j].manifest));
            assert(origin[j].manifest.name@ == d.name@);
        }
        if dep_met(d, origin) {
            let j = choose|j: int|
                0 <= j < origin.len() && (#[trigger] origin[j]).manifest.name@ == d.name@
                    && lenient_match(d.version_req@, origin[j].manifest.version@);
            assert(same_manifest(modules[j].manifest, origin[j].manifest));
            assert(modules[j].manifest.name@ == d.name@);
        }
    }
    if deps_met(modules) {
        assert forall|i: int, k: int|
            0 <= i < origin.len() && 0 <= k < origin[i].manifest.dependencies@.len() implies dep_met(
            #[trigger] origin[i].manifest.dependencies@[k],
            origin,
        ) by {
            assert(same_manifest(modules[i].manifest, origin[i].manifest));
            assert(dep_met(modules[i].manifest.dependencies@[k], modules));
        }
    }
    if deps_met(origin) {
        assert forall|i: int, k: int|
            0 <= i < modules.len() && 0 <= k < modules[i].manifest.dependencies@.len() implies dep_met(
            #[trigger] modules[i].manifest.dependencies@[k],
            modules,
        ) by {
            assert(same_manifest(modules[i].manifest, origin[i].manifest));
            assert(dep_met(origin[i].manifest.dependencies@[k], origin));
        }
    }
}

fn find_module(dirs: &Vec<ModuleDir>, dep: &ScenarioModuleDep) -> (r: core::result::Result<
    Option<usize>,
    DirFailure,
>)
    ensures
        match r {
            Ok(Some(i)) => search(dirs@, *dep, 0) == Search::Found(i as int) && i < dirs@.len() && (
            dirs@[i as int].manifest is Loaded),
            Ok(None) => search(dirs@, *dep, 0) is NotFound,
            Err(f) => search(dirs@, *dep, 0) == Search::Fail(f),
        },
{
    let mut i: usize = 0;
    while i < dirs.len()
        invariant
            i <= dirs.len(),
            search(dirs@, *dep, i as int) == search(dirs@, *dep, 0),
        decreases dirs.len() - i,
    {
        match judge_dir(&dirs[i], dep) {
            DirVerdict::Take => {
                return Ok(Some(i));
            },
            DirVerdict::Fail(f) => {
                return Err(f);
            },
            DirVerdict::Skip => {},
        }
        i += 1;
    }
    Ok(None)
}

fn is_dep_met(dep: &ModuleDep, modules: &Vec<Module>) -> (r: bool)
    ensures
        r == dep_met(*dep, modules@),
{
    let mut j: usize = 0;
    while j < modules.len()
        invariant
            j <= modules.len(),
            forall|x: int|
                0 <= x < j ==> !((#[trigger] modules@[x]).manifest.name@ == dep.name@
                    && lenient_match(dep.version_req@, modules@[x].manifest.version@)),
        decreases modules.len() - j,
    {
        let m = &modules[j].manifest;
        if str_eq(m.name.as_str(), dep.name.as_str()) && matches_leniently(
            dep.version_req.as_str(),
            m.version.as_str(),
        ) {
            return true;
        }
        j += 1;
    }
    false
}

fn are_deps_met(modules: &Vec<Module>) -> (r: bool)
    ensures
        r == deps_met(modules@),
{
    let mut i: usize = 0;
    while i < modules.len()
        invariant
            i <= modules.len(),
            forall|a: int, k: int|
                0 <= a < i && 0 <= k < modules@[a].manifest.dependencies@.len() ==> dep_met(
                    #[trigger] modules@[a].manifest.dependencies@[k],
                    modules@,
                ),
        decreases modules.len() - i,
    {
        let deps = &modules[i].manifest.dependencies;
        let mut k: usize = 0;
        while k < deps.len()
            invariant
                i < modules.len(),
                k <= deps.len(),
                *deps == modules@[i as int].manifest.dependencies,
                forall|a: int, b: int|
                    0 <= a < i && 0 <= b < modules@[a].manifest.dependencies@.len() ==> dep_met(
                        #[trigger] modules@[a].manifest.dependencies@[b],
                        modules@,
                    ),
                forall|b: int| 0 <= b < k ==> dep_met(#[trigger] deps@[b], modules@),
            decreases deps.len() - k,
        {
            if !is_dep_met(&deps[k], modules) {
                proof {
                    assert(!dep_met(modules@[i as int].manifest.dependencies@[k as int], modules@));
                }
                return false;
            }
            k += 1;
        }
        i += 1;
    }
    true
}

impl Scenario {
    /// Create a scenario model from what was read from a scenario
    /// directory: its path, its manifest and, for every directory under its
    /// `mods` directory, what became of reading the module manifest.
    pub fn from_dir_at(path: String, manifest: ScenarioManifest, mod_dirs: &Vec<ModuleDir>) -> (r:
        Result<Scenario, Error>)
        ensures
            loaded(path, manifest, mod_dirs@, r),
    {
        match check_engine(manifest.engine.as_str(), VERSION) {
            EngineCheck::BadRequirement => {
                return Err(Error::ParsingError(manifest.engine));
            },
            EngineCheck::BadVersion => {
                return Err(Error::ParsingError(VERSION.to_owned()));
            },
            EngineCheck::Mismatch => {
                return Err(Error::Other(String::new()));
            },
            EngineCheck::Met => {},
        }
        let mut modules: Vec<Module> = Vec::new();
        let ghost mut taken: Seq<int> = Seq::empty();
        let mut all_found = true;
        let mut n: usize = 0;
        while n < manifest.mods.len()
            invariant
                n <= manifest.mods.len(),
                engine_check(manifest.engine@, VERSION@) is Met,
                picked(manifest.mods@, mod_dirs@, n as int) == Ok::<(Seq<int>, bool), DirFailure>(
                    (taken, all_found),
                ),
                modules_from(modules@, mod_dirs@, taken),
            decreases manifest.mods.len() - n,
        {
            match find_module(mod_dirs, &manifest.mods[n]) {
                Ok(Some(i)) => {
                    match &mod_dirs[i].manifest {
                        ManifestLoad::Loaded(m) => {
                            modules.push(Module { manifest: copy_manifest(m) });
                            proof {
                                taken = taken.push(i as int);
                            }
                        },
                        _ => {},
                    }
                },
                Ok(None) => {
                    all_found = false;
                },
                Err(f) => {
                    proof {
                        assert(picked(manifest.mods@, mod_dirs@, n + 1) == Err::<
                            (Seq<int>, bool),
                            DirFailure,
                        >(f));
                        lemma_picked_fails(manifest.mods@, mod_dirs@, n + 1, manifest.mods@.len() as int);
                    }
                    return Err(error_of(f));
                },
            }
            n += 1;
        }
        let deps_ok = are_deps_met(&modules);
        proof {
            lemma_deps_of_copies(modules@, mod_dirs@, taken);
        }
        if !all_found || !deps_ok {
            return Err(Error::ScenarioMissingModules);
        }
        Ok(Scenario { path, manifest, modules })
    }
}

/// Once the search has stopped it stays stopped, for the same reason.
proof fn lemma_picked_fails(deps: Seq<ScenarioModuleDep>, dirs: Seq<ModuleDir>, n: int, m: int)
    requires
        0 <= n <= m,
        picked(deps, dirs, n) is Err,
    ensures
        picked(deps, dirs, m) == picked(deps, dirs, n),
    decreases m - n,
{
    if n < m {
        lemma_picked_fails(deps, dirs, n, m - 1);
    }
}

} // verus!
