use std::collections::BTreeMap;

use ruf_audit::audit::{audit, Action, Audit, Event, Outcome, Phase};
use ruf_audit::build_config::BuildConfig;
use ruf_audit::check_info::{CheckInfo, UsedRufs};
use ruf_audit::command::CommandOutput;
use ruf_audit::dep_manager::PackageMeta;
use ruf_audit::registry::{DepReq, IndexVersion, VersionRow};
use ruf_audit::status::RufLifetimes;

/// A project, a registry and a package manager, all in memory.
struct World {
    /// The locked version of each package.
    locked: BTreeMap<String, String>,
    /// What each published or local version requires of its dependencies.
    manifests: BTreeMap<(String, String), Vec<(String, String)>>,
    /// The features that each version declares, with their conditions.
    declared: BTreeMap<(String, String), Vec<(Option<String>, String)>>,
    /// The published versions of each crate, oldest first.
    published: BTreeMap<String, Vec<String>>,
    /// The packages of the workspace.
    local: Vec<String>,
    /// The cfg predicates that hold.
    cfgs: Vec<String>,
    /// The moves that the package manager was asked for.
    moves: Vec<(String, String, String)>,
    /// The crates whose index entries are on disk.
    cached: Vec<String>,
    /// The questions asked of the registry.
    asked: Vec<String>,
    minimized: bool,
}

impl World {
    fn new() -> World {
        World {
            locked: BTreeMap::new(),
            manifests: BTreeMap::new(),
            declared: BTreeMap::new(),
            published: BTreeMap::new(),
            local: Vec::new(),
            cfgs: Vec::new(),
            moves: Vec::new(),
            cached: Vec::new(),
            asked: Vec::new(),
            minimized: false,
        }
    }

    fn root(&mut self, name: &str, version: &str, deps: &[(&str, &str)]) {
        self.local.push(name.to_string());
        self.locked.insert(name.to_string(), version.to_string());
        self.manifest(name, version, deps);
    }

    fn manifest(&mut self, name: &str, version: &str, deps: &[(&str, &str)]) {
        self.manifests.insert(
            (name.to_string(), version.to_string()),
            deps.iter().map(|(d, r)| (d.to_string(), r.to_string())).collect(),
        );
    }

    fn publish(&mut self, name: &str, version: &str, deps: &[(&str, &str)], rufs: &[(&str, &str)]) {
        self.published.entry(name.to_string()).or_default().push(version.to_string());
        self.manifest(name, version, deps);
        self.declared.insert(
            (name.to_string(), version.to_string()),
            rufs.iter()
                .map(|(c, f)| (if c.is_empty() { None } else { Some(c.to_string()) }, f.to_string()))
                .collect(),
        );
    }

    fn lock(&mut self, name: &str, version: &str) {
        self.locked.insert(name.to_string(), version.to_string());
    }

    fn admits(req: &str, version: &str) -> bool {
        semver::VersionReq::parse(req).unwrap().matches(&semver::Version::parse(version).unwrap())
    }

    /// Locks, for every requirement that the locked version misses, the
    /// newest (or, when minimizing, the oldest) published version that meets
    /// it.
    fn resolve(&mut self, lowest: bool) {
        loop {
            let mut change = None;
            for (name, version) in &self.locked {
                let deps = self.manifests.get(&(name.clone(), version.clone())).cloned();
                for (dep, req) in deps.unwrap_or_default() {
                    let held = self.locked.get(&dep).cloned();
                    let fine = held.as_deref().map_or(false, |v| World::admits(&req, v));
                    if !fine || (lowest && !self.local.contains(&dep)) {
                        let mut fits: Vec<semver::Version> = self.published[&dep]
                            .iter()
                            .filter(|v| World::admits(&req, v))
                            .map(|v| semver::Version::parse(v).unwrap())
                            .collect();
                        fits.sort();
                        let pick = if lowest { fits.first() } else { fits.last() };
                        let pick = pick.expect("nothing fits").to_string();
                        if held.as_deref() != Some(pick.as_str()) {
                            change = Some((dep.clone(), pick));
                        }
                    }
                }
                if change.is_some() {
                    break;
                }
            }
            match change {
                Some((dep, pick)) => {
                    self.locked.insert(dep, pick);
                }
                None => break,
            }
        }
    }

    /// Forgets the packages that nothing depends on any more.
    fn prune(&mut self) {
        let mut kept: Vec<String> = self.local.clone();
        let mut at = 0;
        while at < kept.len() {
            let name = kept[at].clone();
            let version = self.locked[&name].clone();
            for (dep, _) in &self.manifests[&(name, version)] {
                if !kept.contains(dep) {
                    kept.push(dep.clone());
                }
            }
            at += 1;
        }
        self.locked.retain(|name, _| kept.contains(name));
    }

    fn lock_text(&self) -> String {
        let mut text = String::from("version = 3\n");
        for (name, version) in &self.locked {
            text.push_str(&format!("\n[[package]]\nname = \"{name}\"\nversion = \"{version}\"\n"));
            if !self.local.contains(name) {
                text.push_str("source = \"registry+https://github.com/rust-lang/crates.io-index\"\n");
            }
            let deps = &self.manifests[&(name.clone(), version.clone())];
            if !deps.is_empty() {
                let names: Vec<String> = deps.iter().map(|(d, _)| format!(" \"{d}\",\n")).collect();
                text.push_str(&format!("dependencies = [\n{}]\n", names.concat()));
            }
        }
        text
    }

    fn metadata(&self) -> Vec<PackageMeta> {
        self.locked
            .iter()
            .map(|(name, version)| PackageMeta {
                name: name.clone(),
                version: version.clone(),
                source: if self.local.contains(name) { None } else { Some("registry".to_string()) },
                dependencies: self.manifests[&(name.clone(), version.clone())]
                    .iter()
                    .map(|(d, r)| DepReq { name: d.clone(), req: r.clone() })
                    .collect(),
            })
            .collect()
    }

    fn holds(&self, cond: &Option<String>) -> bool {
        match cond {
            None => true,
            Some(c) => self.cfgs.contains(c),
        }
    }

    fn extract(&self) -> CommandOutput {
        let mut stdout = String::from("   Compiling things\n");
        for (name, version) in &self.locked {
            let used: Vec<String> = self
                .declared
                .get(&(name.clone(), version.clone()))
                .map(|d| d.iter().filter(|(c, _)| self.holds(c)).map(|(_, f)| f.clone()).collect())
                .unwrap_or_default();
            let info = CheckInfo {
                crate_name: name.replace('-', "_"),
                used_rufs: UsedRufs::new(used),
                cfg: self.cfgs.clone(),
            };
            stdout.push_str(&info.to_line());
        }
        CommandOutput { success: true, stdout, stderr: String::new() }
    }

    fn rows(&self, name: &str) -> Vec<VersionRow> {
        let mut rows = Vec::new();
        for version in self.published.get(name).cloned().unwrap_or_default() {
            let declared = &self.declared[&(name.to_string(), version.clone())];
            if declared.is_empty() {
                rows.push(VersionRow { num: version.clone(), cond: None, feature: None });
            }
            for (cond, feature) in declared {
                rows.push(VersionRow {
                    num: version.clone(),
                    cond: Some(cond.clone().unwrap_or_default()),
                    feature: Some(feature.clone()),
                });
            }
        }
        rows
    }

    /// Plays the scanner: reports the features whose condition is among the
    /// `--cfg` arguments.
    fn scan(&self, content: &str, args: &[String]) -> CommandOutput {
        assert_eq!(args.first().map(String::as_str), Some("--"));
        assert_eq!(args.last().map(String::as_str), Some("-"));
        assert!(content.ends_with("fn main(){}\n"));
        let mut found = Vec::new();
        for line in content.lines() {
            if let Some(rest) = line.strip_prefix("#![cfg_attr(") {
                let rest = rest.strip_suffix("))]").unwrap();
                let (cond, feature) = rest.split_once(", feature(").unwrap();
                if args.iter().any(|a| a == cond) {
                    found.push(feature.to_string());
                }
            }
        }
        CommandOutput {
            success: true,
            stdout: UsedRufs::new(found).to_line(),
            stderr: String::new(),
        }
    }

    fn answer(&mut self, action: Action) -> Event {
        match action {
            Action::Extract => Event::Extracted(Ok(self.extract())),
            Action::Load => Event::Loaded { lock: Ok(self.lock_text()), metadata: Ok(self.metadata()) },
            Action::Versions { name } => {
                self.asked.push(format!("versions {name}"));
                Event::Versions(Ok(self.rows(&name)))
            }
            Action::Requirements { name, version, remote } => {
                let tier = if remote { "registry" } else { "disk" };
                self.asked.push(format!("requirements {name}@{version} ({tier})"));
                let known = self.published.get(&name).filter(|_| remote || self.cached.contains(&name));
                Event::Requirements(Ok(known.map(|versions| {
                    versions
                        .iter()
                        .map(|v| IndexVersion {
                            version: v.clone(),
                            dependencies: self.manifests[&(name.clone(), v.clone())]
                                .iter()
                                .map(|(d, r)| DepReq { name: d.clone(), req: r.clone() })
                                .collect(),
                        })
                        .collect()
                })))
            }
            Action::Expand { crate_name: _, content, args } => Event::Expanded(self.scan(&content, &args)),
            Action::Update { name, current, target, args } => {
                assert_eq!(
                    args,
                    vec![
                        "update".to_string(),
                        format!("{name}@{current}"),
                        "--precise".to_string(),
                        target.clone()
                    ]
                );
                assert_eq!(self.locked.get(&name), Some(&current));
                self.moves.push((name.clone(), current, target.clone()));
                self.locked.insert(name, target);
                self.resolve(false);
                self.prune();
                Event::Updated {
                    output: CommandOutput { success: true, stdout: String::new(), stderr: String::new() },
                    lock: Ok(self.lock_text()),
                }
            }
            Action::MinimalVersions => {
                self.minimized = true;
                self.resolve(true);
                Event::Regenerated(Ok(CommandOutput {
                    success: true,
                    stdout: String::new(),
                    stderr: String::new(),
                }))
            }
            Action::Continue => Event::Resume,
            Action::Finish(_) => unreachable!(),
        }
    }
}

fn row(spans: &[(usize, usize, u8)]) -> Vec<u8> {
    let mut codes = vec![0u8; 64];
    for (from, to, code) in spans {
        for v in *from..=*to {
            codes[v] = *code;
        }
    }
    codes
}

/// The lifetimes used by the scenarios: `x` and `z` are active at 55, `y` is
/// removed at 55, `w` can be enabled exactly at 52 to 54, `gone` never.
fn table() -> RufLifetimes {
    let mut t = RufLifetimes::empty();
    assert!(t.insert("x".to_string(), row(&[(40, 63, 1)])));
    assert!(t.insert("y".to_string(), row(&[(30, 50, 1), (51, 63, 4)])));
    assert!(t.insert("z".to_string(), row(&[(20, 63, 1)])));
    assert!(t.insert("w".to_string(), row(&[(52, 54, 1), (55, 63, 4)])));
    assert!(t.insert("gone".to_string(), row(&[(0, 63, 4)])));
    t
}

fn config<'c>(version: u32) -> BuildConfig<'c> {
    BuildConfig::new(
        "x86_64-unknown-linux-gnu".to_string(),
        "/home/u/.rustup".to_string(),
        "/home/u/.cargo".to_string(),
        version,
        table(),
    )
    .unwrap()
}

fn run<'c>(world: &mut World, config: BuildConfig<'c>) -> (Outcome, Audit<'c>) {
    let (mut state, mut action) = audit(config);
    for _ in 0..10_000 {
        if let Action::Finish(outcome) = action {
            assert!(state.phase == Phase::Done);
            return (outcome, state);
        }
        let event = world.answer(action);
        action = state.step(event);
    }
    panic!("the audit does not end");
}

#[test]
fn scenario_no_issue() {
    let mut world = World::new();
    world.root("a", "0.1.0", &[("b", "^1")]);
    world.publish("b", "1.2.3", &[], &[("", "x")]);
    world.lock("b", "1.2.3");
    let before = world.lock_text();
    let (outcome, state) = run(&mut world, config(55));
    assert!(matches!(outcome, Outcome::Clean));
    assert_eq!(outcome.exit_code(), 0);
    assert_eq!(state.records.get("b").unwrap().as_slice(), ["x".to_string()]);
    assert!(state.records.get("a").unwrap().as_slice().is_empty());
    assert!(world.moves.is_empty());
    assert_eq!(world.lock_text(), before);
}

fn down_fix_world() -> World {
    let mut world = World::new();
    world.root("a", "0.1.0", &[("b", ">=1, <3")]);
    world.publish("b", "1.8.0", &[], &[("", "z")]);
    world.publish("b", "1.9.0", &[], &[]);
    world.publish("b", "2.0.0", &[], &[("", "y")]);
    world.lock("b", "2.0.0");
    world
}

#[test]
fn scenario_down_fix_picks_oldest() {
    let mut world = down_fix_world();
    let (outcome, state) = run(&mut world, config(55));
    assert!(matches!(outcome, Outcome::Fixed));
    assert_eq!(outcome.exit_code(), 0);
    assert_eq!(world.moves, vec![("b".to_string(), "2.0.0".to_string(), "1.8.0".to_string())]);
    assert_eq!(world.locked["b"], "1.8.0");
    assert_eq!(state.records.get("b").unwrap().as_slice(), ["z".to_string()]);
    assert!(!world.minimized);
}

#[test]
fn scenario_down_fix_picks_newest_when_asked() {
    let mut world = down_fix_world();
    let mut config = config(55);
    config.set_newer_fix(true);
    let (outcome, _) = run(&mut world, config);
    assert!(matches!(outcome, Outcome::Fixed));
    assert_eq!(world.moves, vec![("b".to_string(), "2.0.0".to_string(), "1.9.0".to_string())]);
    assert_eq!(world.locked["b"], "1.9.0");
}

#[test]
fn scenario_up_fix_moves_the_parent() {
    let mut world = World::new();
    world.root("a", "0.1.0", &[("b", ">=0.9, <2")]);
    world.publish("b", "0.9.0", &[("c", "^0.9")], &[]);
    world.publish("b", "1.0.0", &[("c", "^1")], &[]);
    world.publish("c", "0.9.5", &[], &[]);
    world.publish("c", "1.0.0", &[], &[("", "y")]);
    world.lock("b", "1.0.0");
    world.lock("c", "1.0.0");
    let (outcome, state) = run(&mut world, config(55));
    assert!(matches!(outcome, Outcome::Fixed));
    assert_eq!(world.moves, vec![("b".to_string(), "1.0.0".to_string(), "0.9.0".to_string())]);
    assert_eq!(world.locked["b"], "0.9.0");
    assert_eq!(world.locked["c"], "0.9.5");
    assert!(state.records.get("c").unwrap().as_slice().is_empty());
    assert!(state.stack.is_empty());
    assert_eq!(
        world.asked,
        vec![
            "versions c",
            "requirements b@1.0.0 (disk)",
            "requirements b@1.0.0 (registry)",
            "versions b",
            "requirements b@1.0.0 (disk)",
            "requirements b@1.0.0 (registry)",
            "requirements b@0.9.0 (disk)",
            "requirements b@0.9.0 (registry)",
        ]
    );
}

#[test]
fn index_on_disk_is_asked_before_the_registry() {
    let mut world = World::new();
    world.cached.push("b".to_string());
    world.root("a", "0.1.0", &[("b", ">=0.9, <2")]);
    world.publish("b", "0.9.0", &[("c", "^0.9")], &[]);
    world.publish("b", "1.0.0", &[("c", "^1")], &[]);
    world.publish("c", "0.9.5", &[], &[]);
    world.publish("c", "1.0.0", &[], &[("", "y")]);
    world.lock("b", "1.0.0");
    world.lock("c", "1.0.0");
    let (outcome, _) = run(&mut world, config(55));
    assert!(matches!(outcome, Outcome::Fixed));
    assert!(world.asked.iter().all(|q| !q.ends_with("(registry)")));
}

#[test]
fn version_missing_from_the_index_ends_the_audit() {
    let mut world = World::new();
    world.root("a", "0.1.0", &[("b", "*")]);
    world.publish("b", "1.0.0", &[("c", "^1")], &[]);
    world.publish("c", "0.9.0", &[], &[]);
    world.publish("c", "1.0.0", &[], &[("", "y")]);
    world.lock("b", "1.0.0");
    world.lock("c", "1.0.0");
    world.published.get_mut("b").unwrap().clear();
    let (outcome, _) = run(&mut world, config(55));
    assert_eq!(outcome.exit_code(), -1);
    match outcome {
        Outcome::Failed(e) => assert_eq!(
            e.to_text(),
            "unexpected error: cannot get package b-1.0.0 metadata from index: cannot find in index"
        ),
        _ => panic!("expected a failure"),
    }
}

#[test]
fn scenario_compiler_fix_reports_newest_compiler() {
    let mut world = World::new();
    world.root("a", "0.1.0", &[("q", "^1")]);
    world.publish("q", "1.0.0", &[], &[("", "w")]);
    world.publish("q", "1.1.0", &[], &[("", "w"), ("", "y")]);
    world.lock("q", "1.1.0");
    let (outcome, state) = run(&mut world, config(55));
    match outcome {
        Outcome::Rustc(v) => assert_eq!(v, 54),
        _ => panic!("expected a compiler"),
    }
    assert_eq!(outcome.exit_code(), 0);
    assert!(world.minimized);
    assert!(world.moves.is_empty());
    assert_eq!(world.locked["q"], "1.0.0");
    let failure = state.dep_failure.unwrap();
    assert!(!failure.is_unexpected());
    assert_eq!(failure.to_text(), "functionality error: up fix fails");
    assert_eq!(
        state.up_failure.unwrap().to_text(),
        "functionality error: up fix fails at current layer"
    );
}

#[test]
fn scenario_unrepairable_ends_with_functionality_error() {
    let mut world = World::new();
    world.root("a", "0.1.0", &[("q", "*")]);
    world.publish("q", "0.1.0", &[], &[("", "gone")]);
    world.publish("q", "0.2.0", &[], &[("", "gone")]);
    world.publish("q", "1.0.0", &[], &[("", "gone")]);
    world.lock("q", "1.0.0");
    let (outcome, _) = run(&mut world, config(55));
    assert_eq!(outcome.exit_code(), -2);
    match outcome {
        Outcome::Failed(e) => {
            assert!(!e.is_unexpected());
            assert_eq!(
                e.to_text(),
                "functionality error: cannot find usable rustc"
            );
        }
        _ => panic!("expected a failure"),
    }
    assert!(world.moves.is_empty());
    assert!(world.minimized);
}

#[test]
fn quick_fix_skips_the_dependency_tree() {
    let mut world = down_fix_world();
    let mut config = config(55);
    config.set_quick_fix(true);
    let (outcome, state) = run(&mut world, config);
    assert!(world.moves.is_empty());
    assert!(world.asked.is_empty());
    assert!(world.minimized);
    assert!(state.dep_failure.is_none());
    assert_eq!(world.locked["b"], "1.8.0");
    match outcome {
        Outcome::Rustc(v) => assert_eq!(v, 63),
        _ => panic!("expected a compiler"),
    }
}

#[test]
fn conditional_features_are_expanded_under_the_recorded_cfgs() {
    let mut world = World::new();
    world.cfgs = vec!["unix".to_string(), "feature=\"std\"".to_string()];
    world.root("a", "0.1.0", &[("b", "^1")]);
    world.publish("b", "1.0.0", &[], &[("unix", "y")]);
    world.publish("b", "1.1.0", &[], &[("windows", "y"), ("feature=\"std\"", "z")]);
    world.publish("b", "1.2.0", &[], &[("", "y")]);
    world.lock("b", "1.2.0");
    let (outcome, state) = run(&mut world, config(55));
    assert!(matches!(outcome, Outcome::Fixed));
    assert_eq!(world.moves, vec![("b".to_string(), "1.2.0".to_string(), "1.1.0".to_string())]);
    assert_eq!(state.records.get("b").unwrap().as_slice(), ["z".to_string()]);
    assert_eq!(
        state.config.get_build_cfgs("b").unwrap(),
        &vec!["unix".to_string(), "feature=\\\"std\\\"".to_string()]
    );
}

#[test]
fn failed_extraction_ends_with_first_error_line() {
    let (mut state, action) = audit(config(55));
    assert!(matches!(action, Action::Extract));
    let output = CommandOutput {
        success: false,
        stdout: String::new(),
        stderr: "warning: unused\n   error[E0432]: unresolved import\nerror: aborting\n".to_string(),
    };
    match state.step(Event::Extracted(Ok(output))) {
        Action::Finish(outcome) => {
            assert_eq!(outcome.exit_code(), -1);
            match outcome {
                Outcome::Failed(e) => assert_eq!(
                    e.to_text(),
                    "unexpected error: cargo failure:    error[E0432]: unresolved import"
                ),
                _ => panic!("expected a failure"),
            }
        }
        _ => panic!("expected the end"),
    }
    match state.step(Event::Resume) {
        Action::Finish(outcome) => assert_eq!(outcome.exit_code(), -1),
        _ => panic!("expected the end"),
    }
}

#[test]
fn event_out_of_turn_ends_the_audit() {
    let (mut state, _) = audit(config(55));
    match state.step(Event::Versions(Ok(Vec::new()))) {
        Action::Finish(Outcome::Failed(e)) => {
            assert_eq!(e.to_text(), "unexpected error: unexpected event")
        }
        _ => panic!("expected a failure"),
    }
}

#[test]
fn offending_root_cannot_be_fixed_in_the_tree() {
    let mut world = World::new();
    world.root("a", "0.1.0", &[("b", "^1")]);
    world.declared.insert(("a".to_string(), "0.1.0".to_string()), vec![(None, "w".to_string())]);
    world.publish("b", "1.0.0", &[], &[]);
    world.lock("b", "1.0.0");
    let (outcome, state) = run(&mut world, config(55));
    assert!(world.asked.is_empty());
    assert!(world.moves.is_empty());
    let up = state.up_failure.unwrap();
    assert!(!up.is_unexpected());
    assert_eq!(up.to_text(), "functionality error: up fix failed, reaching root");
    assert_eq!(state.dep_failure.unwrap().exit_code(), -2);
    match outcome {
        Outcome::Rustc(v) => assert_eq!(v, 54),
        _ => panic!("expected a compiler"),
    }
}

#[test]
fn lockfile_with_a_cycle_after_a_move_ends_the_audit() {
    let mut world = down_fix_world();
    let (mut state, mut action) = audit(config(55));
    loop {
        if let Action::Update { .. } = action {
            break;
        }
        let event = world.answer(action);
        action = state.step(event);
    }
    let cyclic = "version = 3\n\n[[package]]\nname = \"a\"\nversion = \"0.1.0\"\ndependencies = [\n \"b\",\n]\n\n[[package]]\nname = \"b\"\nversion = \"1.8.0\"\ndependencies = [\n \"c\",\n]\n\n[[package]]\nname = \"c\"\nversion = \"1.0.0\"\ndependencies = [\n \"b\",\n]\n";
    let output = CommandOutput { success: true, stdout: String::new(), stderr: String::new() };
    match state.step(Event::Updated { output, lock: Ok(cyclic.to_string()) }) {
        Action::Finish(Outcome::Failed(e)) => assert_eq!(
            e.to_text(),
            "unexpected error: cannot update dep tree, load dep tree fails: dependency cycle found"
        ),
        _ => panic!("expected a failure"),
    }
    let dm = state.dm.as_ref().unwrap();
    assert_eq!(dm.graph().len(), 2);
    assert_eq!(dm.graph().package(dm.root()).name, "a");
}

#[test]
fn up_fix_walks_up_to_the_grandparent() {
    let mut world = World::new();
    world.root("a", "0.1.0", &[("b", ">=0.9, <2")]);
    world.publish("b", "0.9.0", &[], &[]);
    world.publish("b", "1.0.0", &[("c", "^1")], &[]);
    world.publish("c", "1.0.0", &[("d", "^1")], &[]);
    world.publish("d", "0.9.0", &[], &[]);
    world.publish("d", "1.0.0", &[], &[("", "y")]);
    world.lock("b", "1.0.0");
    world.lock("c", "1.0.0");
    world.lock("d", "1.0.0");
    let (outcome, state) = run(&mut world, config(55));
    assert!(matches!(outcome, Outcome::Fixed));
    assert_eq!(world.moves, vec![("b".to_string(), "1.0.0".to_string(), "0.9.0".to_string())]);
    assert_eq!(world.locked.len(), 2);
    assert!(state.up_failure.is_none());
    assert_eq!(state.dm.as_ref().unwrap().graph().len(), 2);
    let questions: Vec<&str> =
        world.asked.iter().filter(|q| q.starts_with("versions")).map(String::as_str).collect();
    assert_eq!(questions, vec!["versions d", "versions c", "versions b"]);
}

#[test]
fn up_fix_tries_every_parent_before_it_gives_up() {
    let mut world = World::new();
    world.root("a", "0.1.0", &[("left", "^1"), ("right", "^1")]);
    world.publish("left", "1.0.0", &[("c", "^1")], &[]);
    world.publish("right", "1.0.0", &[("c", "^1")], &[]);
    world.publish("c", "1.0.0", &[], &[("", "w")]);
    world.lock("left", "1.0.0");
    world.lock("right", "1.0.0");
    world.lock("c", "1.0.0");
    let (outcome, state) = run(&mut world, config(55));
    match outcome {
        Outcome::Rustc(v) => assert_eq!(v, 54),
        _ => panic!("expected a compiler"),
    }
    assert!(world.moves.is_empty());
    assert_eq!(
        state.up_failure.unwrap().to_text(),
        "functionality error: up fix fails at current layer"
    );
    let mut versions: Vec<&str> =
        world.asked.iter().filter(|q| q.starts_with("versions")).map(String::as_str).collect();
    assert_eq!(versions.remove(0), "versions c");
    versions.sort();
    assert_eq!(versions, vec!["versions left", "versions right"]);
}

#[test]
fn newer_candidates_are_never_chosen() {
    let mut world = World::new();
    world.root("a", "0.1.0", &[("b", "^1")]);
    world.publish("b", "1.0.0", &[], &[("", "y")]);
    world.publish("b", "1.1.0", &[], &[("", "y")]);
    world.publish("b", "1.2.0", &[], &[]);
    world.lock("b", "1.1.0");
    let mut config = config(55);
    config.set_newer_fix(true);
    let (outcome, _) = run(&mut world, config);
    assert!(world.moves.is_empty());
    assert!(!matches!(outcome, Outcome::Fixed));
}

/// Runs the audit in a world, but answers the first action that `pick`
/// knows an answer for with that answer; returns the message the audit
/// ends with.
fn run_with<'c>(
    world: &mut World,
    config: BuildConfig<'c>,
    pick: impl Fn(&Action) -> Option<Event>,
) -> (i32, String) {
    let (mut state, mut action) = audit(config);
    let mut done = false;
    for _ in 0..10_000 {
        if let Action::Finish(outcome) = action {
            let code = outcome.exit_code();
            let text = match outcome {
                Outcome::Failed(e) => e.to_text(),
                _ => String::new(),
            };
            return (code, text);
        }
        let forced = if done { None } else { pick(&action) };
        let event = match forced {
            Some(event) => {
                done = true;
                event
            }
            None => world.answer(action),
        };
        action = state.step(event);
    }
    panic!("the audit does not end");
}

fn failed() -> CommandOutput {
    CommandOutput { success: false, stdout: String::new(), stderr: "went wrong".to_string() }
}

#[test]
fn failures_of_the_surroundings_end_the_audit() {
    let cases: Vec<(Box<dyn Fn(&Action) -> Option<Event>>, &str)> = vec![
        (
            Box::new(|a| matches!(a, Action::Extract).then(|| Event::Extracted(Err("no cargo".to_string())))),
            "unexpected error: no cargo",
        ),
        (
            Box::new(|a| {
                matches!(a, Action::Load).then(|| Event::Loaded {
                    lock: Err("no file".to_string()),
                    metadata: Ok(Vec::new()),
                })
            }),
            "unexpected error: cannot build DepManager, load lock file fails: no file",
        ),
        (
            Box::new(|a| {
                matches!(a, Action::Load).then(|| Event::Loaded {
                    lock: Ok(down_fix_world().lock_text()),
                    metadata: Err("no metadata".to_string()),
                })
            }),
            "unexpected error: cannot build DepManager, load metadata fails: no metadata",
        ),
        (
            Box::new(|a| {
                matches!(a, Action::Versions { .. }).then(|| Event::Versions(Err("no database".to_string())))
            }),
            "unexpected error: cannot get candidates, due to no database",
        ),
        (
            Box::new(|a| {
                matches!(a, Action::Versions { .. }).then(|| {
                    Event::Versions(Ok(vec![VersionRow {
                        num: "1.0.0".to_string(),
                        cond: None,
                        feature: Some("x".to_string()),
                    }]))
                })
            }),
            "unexpected error: cannot get candidates, due to a feature without condition",
        ),
        (
            Box::new(|a| matches!(a, Action::Update { .. }).then(|| Event::Updated {
                output: failed(),
                lock: Ok(String::new()),
            })),
            "unexpected error: cannot update dep version, execute cargo update fails: went wrong",
        ),
        (
            Box::new(|a| matches!(a, Action::Update { .. }).then(|| Event::Updated {
                output: CommandOutput { success: true, stdout: String::new(), stderr: String::new() },
                lock: Err("gone".to_string()),
            })),
            "unexpected error: cannot update dep tree, load lock file fails: gone",
        ),
    ];
    for (pick, message) in cases {
        let (code, text) = run_with(&mut down_fix_world(), config(55), pick);
        assert_eq!(code, -1);
        assert_eq!(text, message);
    }
}

fn stuck_world() -> World {
    let mut world = World::new();
    world.root("a", "0.1.0", &[("q", "*")]);
    world.publish("q", "1.0.0", &[], &[("", "gone")]);
    world.lock("q", "1.0.0");
    world
}

#[test]
fn failures_of_the_package_manager_end_the_compiler_fix() {
    let (code, text) = run_with(&mut stuck_world(), config(55), |a| {
        matches!(a, Action::MinimalVersions).then(|| Event::Regenerated(Err("no cargo".to_string())))
    });
    assert_eq!((code, text.as_str()), (-1, "unexpected error: cannot run cargo generate-lockfile: no cargo"));
    let (code, text) = run_with(&mut stuck_world(), config(55), |a| {
        matches!(a, Action::MinimalVersions).then(|| Event::Regenerated(Ok(failed())))
    });
    assert_eq!((code, text.as_str()), (-1, "unexpected error: failed to minimal generate-lock"));
}

fn up_fix_world() -> World {
    let mut world = World::new();
    world.root("a", "0.1.0", &[("b", ">=0.9, <2")]);
    world.publish("b", "0.9.0", &[("c", "^0.9")], &[]);
    world.publish("b", "1.0.0", &[("c", "^1")], &[]);
    world.publish("c", "0.9.5", &[], &[]);
    world.publish("c", "1.0.0", &[], &[("", "y")]);
    world.lock("b", "1.0.0");
    world.lock("c", "1.0.0");
    world
}

#[test]
fn failures_of_the_index_end_the_audit() {
    let (code, text) = run_with(&mut up_fix_world(), config(55), |a| {
        matches!(a, Action::Requirements { .. }).then(|| Event::Requirements(Err("offline".to_string())))
    });
    assert_eq!(
        (code, text.as_str()),
        (-1, "unexpected error: cannot get package b-1.0.0 metadata from index: offline")
    );
    let (code, text) = run_with(&mut up_fix_world(), config(55), |a| {
        matches!(a, Action::Requirements { .. }).then(|| {
            Event::Requirements(Ok(Some(vec![IndexVersion {
                version: "1.0.0".to_string(),
                dependencies: vec![DepReq { name: "other".to_string(), req: "^1".to_string() }],
            }])))
        })
    });
    assert_eq!((code, text.as_str()), (-1, "unexpected error: cannot find dependency in parent package"));
    let (code, text) = run_with(&mut up_fix_world(), config(55), |a| {
        matches!(a, Action::Requirements { .. }).then(|| {
            Event::Requirements(Ok(Some(vec![IndexVersion {
                version: "1.0.0".to_string(),
                dependencies: vec![DepReq { name: "c".to_string(), req: "one".to_string() }],
            }])))
        })
    });
    assert_eq!(
        (code, text.as_str()),
        (-1, "unexpected error: cannot read requirement of parent package")
    );
}

fn conditional_world() -> World {
    let mut world = World::new();
    world.cfgs = vec!["unix".to_string()];
    world.root("a", "0.1.0", &[("b", "^1")]);
    world.publish("b", "1.0.0", &[], &[("unix", "z")]);
    world.publish("b", "1.2.0", &[], &[("", "y")]);
    world.lock("b", "1.2.0");
    world
}

#[test]
fn failures_of_the_scanner_end_the_audit() {
    let (code, text) = run_with(&mut conditional_world(), config(55), |a| {
        matches!(a, Action::Expand { .. }).then(|| Event::Expanded(failed()))
    });
    assert_eq!(
        (code, text.as_str()),
        (-1, "unexpected error: cannot check candidate rufs: went wrong")
    );
    let (code, text) = run_with(&mut conditional_world(), config(55), |a| {
        matches!(a, Action::Expand { .. }).then(|| {
            Event::Expanded(CommandOutput {
                success: true,
                stdout: "FDelimiter::{oops}::FDelimiter".to_string(),
                stderr: String::new(),
            })
        })
    });
    assert_eq!((code, text.as_str()), (-1, "unexpected error: cannot filter ruf usage"));
}

#[test]
fn records_are_looked_up_under_the_key_of_the_crate() {
    let mut world = conditional_world();
    let (code, text) = run_with(&mut world, config(55), |a| {
        matches!(a, Action::Extract).then(|| {
            let info = CheckInfo {
                crate_name: "c".to_string(),
                used_rufs: UsedRufs::new(vec!["y".to_string()]),
                cfg: Vec::new(),
            };
            Event::Extracted(Ok(CommandOutput {
                success: true,
                stdout: info.to_line(),
                stderr: String::new(),
            }))
        })
    });
    assert_eq!((code, text.as_str()), (0, ""));
    let mut world = World::new();
    world.root("a", "0.1.0", &[("b-x", "^1")]);
    world.publish("b-x", "1.0.0", &[], &[("unix", "z")]);
    world.publish("b-x", "1.2.0", &[], &[("", "y")]);
    world.lock("b-x", "1.2.0");
    let (outcome, _) = run(&mut world, config(55));
    assert!(matches!(outcome, Outcome::Fixed));
    assert_eq!(world.moves, vec![("b-x".to_string(), "1.2.0".to_string(), "1.0.0".to_string())]);
}
