use ruf_audit::build_config::{scanner_args, BuildConfig};
use ruf_audit::check_info::{CheckInfo, CondRuf, CondRufs, UsedRufs};
use ruf_audit::command::CommandOutput;
use ruf_audit::dep_manager::{admitted_by, most_restrictive, DepManager, PackageMeta};
use ruf_audit::extract::{extract, failure, read_records, record_cfgs};
use ruf_audit::graph::{find_root, topological_ranks, DepGraph, LockFault};
use ruf_audit::registry::{find_requirement, Candidates, DepReq, VersionRow};
use ruf_audit::rustc_version::{get_nightly_version, nightly_version};
use ruf_audit::status::RufLifetimes;
use ruf_audit::text::{chars_of, contains, find_line, position, replace_char, union_into};
use ruf_audit::version::{Version, VersionReq};
use ruf_audit::wire::{find_first, find_payloads};

fn strings(items: &[&str]) -> Vec<String> {
    items.iter().map(|s| s.to_string()).collect()
}

fn lock(packages: &[(&str, &str, bool, &[&str])]) -> String {
    let mut text = String::from("version = 3\n");
    for (name, version, local, deps) in packages {
        text.push_str(&format!("\n[[package]]\nname = \"{name}\"\nversion = \"{version}\"\n"));
        if !local {
            text.push_str("source = \"registry+https://github.com/rust-lang/crates.io-index\"\n");
        }
        if !deps.is_empty() {
            let names: Vec<String> = deps.iter().map(|d| format!(" \"{d}\",\n")).collect();
            text.push_str(&format!("dependencies = [\n{}]\n", names.concat()));
        }
    }
    text
}

fn diamond() -> String {
    lock(&[
        ("app", "0.1.0", true, &["left", "right"]),
        ("left", "1.0.0", false, &["shared"]),
        ("right", "2.0.0", false, &["shared"]),
        ("shared", "3.1.4", false, &[]),
    ])
}

fn table() -> RufLifetimes {
    let mut t = RufLifetimes::empty();
    let mut late = vec![0u8; 64];
    for v in 50..64 {
        late[v] = 1;
    }
    let mut early = vec![1u8; 64];
    for v in 55..64 {
        early[v] = 4;
    }
    assert!(t.insert("late".to_string(), late));
    assert!(t.insert("early".to_string(), early));
    t
}

fn config<'c>(version: u32) -> BuildConfig<'c> {
    BuildConfig::new("host".to_string(), "/r".to_string(), "/c".to_string(), version, table()).unwrap()
}

fn candidates(rows: &[(&str, Option<&str>, Option<&str>)]) -> Vec<VersionRow> {
    rows.iter()
        .map(|(num, cond, feature)| VersionRow {
            num: num.to_string(),
            cond: cond.map(str::to_string),
            feature: feature.map(str::to_string),
        })
        .collect()
}

fn listing(c: &Candidates) -> Vec<(String, Vec<(Option<String>, String)>)> {
    (0..c.len())
        .map(|i| {
            (
                c.version(i).as_str().to_string(),
                c.rufs(i).iter().map(|r| (r.cond.clone(), r.feature.clone())).collect(),
            )
        })
        .collect()
}

fn versions(c: &Candidates) -> Vec<String> {
    (0..c.len()).map(|i| c.version(i).as_str().to_string()).collect()
}

fn ok() -> CommandOutput {
    CommandOutput { success: true, stdout: String::new(), stderr: String::new() }
}

#[test]
fn text_helpers() {
    assert_eq!(chars_of("aé-"), vec!['a', 'é', '-']);
    assert_eq!(replace_char("xÿ0", 'ÿ', 'y'), "xy0");
    assert_eq!(replace_char("my-crate-name", '-', '_'), "my_crate_name");
    assert_eq!(replace_char("plain", '-', '_'), "plain");
    let keys = strings(&["b", "a", "b"]);
    assert_eq!(position(&keys, "b"), Some(0));
    assert_eq!(position(&keys, "a"), Some(1));
    assert_eq!(position(&keys, "c"), None);
    assert!(contains(&keys, "a"));
    assert!(!contains(&keys, ""));
    let mut acc = strings(&["a"]);
    union_into(&mut acc, &strings(&["b", "a", "b", "c"]));
    assert_eq!(acc, strings(&["a", "b", "c"]));
}

#[test]
fn first_line_with_a_prefix() {
    let lines = strings(&["x", "rustup home: /r", "rustup home: /s", " rustup home: /t"]);
    assert_eq!(find_line(&lines, "rustup home:").unwrap(), "rustup home: /r");
    assert_eq!(find_line(&lines, " rustup").unwrap(), " rustup home: /t");
    assert!(find_line(&lines, "Default host:").is_none());
    assert_eq!(find_line(&lines, "").unwrap(), "x");
}

#[test]
fn wire_calls() {
    let text = "x CDelimiter::{{\"a\":1}}::CDelimiter y\nCDelimiter::{two}::CDelimiter CDelimiter::{\n}::CDelimiter";
    assert_eq!(
        find_payloads("CDelimiter::\\{(.*?)\\}::CDelimiter", text).unwrap(),
        strings(&["{\"a\":1}", "two"])
    );
    assert!(find_payloads("(", text).is_none());
    assert_eq!(find_first("rustc\\s+1\\.(\\d+)\\.\\d+-nightly", "rustc  1.76.0-nightly (x)").unwrap(), "76");
    assert!(find_first("rustc\\s+1\\.(\\d+)\\.\\d+-nightly", "rustc 1.76.0 (x)").is_none());
}

#[test]
fn nightly_toolchains() {
    assert_eq!(get_nightly_version(1), "nightly-2015-05-16");
    assert_eq!(get_nightly_version(55), "nightly-2021-06-17");
    assert_eq!(get_nightly_version(63), "nightly-2022-05-19");
    assert_eq!(nightly_version(70), Some("nightly-2023-03-09"));
    assert_eq!(nightly_version(0), None);
    assert_eq!(nightly_version(71), None);
}

#[test]
fn graph_from_lock() {
    let g = DepGraph::from_lock(&diamond()).unwrap();
    assert_eq!(g.len(), 4);
    let root = g.root();
    assert_eq!(g.package(root).name, "app");
    assert_eq!(g.package(root).version.as_str(), "0.1.0");
    assert!(g.parents(root).is_empty());
    let order = g.bfs();
    assert_eq!(order.len(), 4);
    assert_eq!(order[0], root);
    let names: Vec<&str> = order.iter().map(|&i| g.package(i).name.as_str()).collect();
    assert_eq!(names[3], "shared");
    assert!(names[1..3].contains(&"left") && names[1..3].contains(&"right"));
    let shared = order[3];
    let mut parents: Vec<&str> =
        g.parents(shared).iter().map(|&i| g.package(i).name.as_str()).collect();
    parents.sort();
    assert_eq!(parents, vec!["left", "right"]);
}

#[test]
fn graph_refuses_what_is_no_single_rooted_dag() {
    assert!(matches!(
        DepGraph::from_lock("this is not toml [").unwrap_err(),
        LockFault::Unreadable(_)
    ));
    let unfit = |text: &str| match DepGraph::from_lock(text).unwrap_err() {
        LockFault::Unfit(why) => why,
        LockFault::Unreadable(why) => panic!("unreadable: {why}"),
    };
    let two_roots = lock(&[("a", "0.1.0", true, &[]), ("b", "0.1.0", true, &[])]);
    assert_eq!(unfit(&two_roots), "not exactly one root package");
    let no_root = lock(&[("a", "0.1.0", false, &["b"]), ("b", "0.1.0", false, &["a"])]);
    assert_eq!(unfit(&no_root), "not exactly one root package");
    let cycle = lock(&[
        ("r", "0.1.0", true, &["a"]),
        ("a", "0.1.0", false, &["b"]),
        ("b", "0.1.0", false, &["a"]),
    ]);
    assert_eq!(unfit(&cycle), "dependency cycle found");
    assert_eq!(unfit("version = 3\n"), "not exactly one root package");
    assert_eq!(
        DepManager::new(&cycle, Vec::new()).unwrap_err().to_text(),
        "unexpected error: cannot build DepManager, load dep tree fails: dependency cycle found"
    );
    let e = DepManager::new("this is not toml [", Vec::new()).unwrap_err().to_text();
    assert!(e.starts_with("unexpected error: cannot build DepManager, load lock file fails: "));
}

#[test]
fn roots_and_ranks() {
    let edges = vec![(0, 1), (0, 2), (1, 3), (2, 3)];
    assert_eq!(find_root(4, &edges), Some(0));
    assert_eq!(find_root(5, &edges), None);
    assert_eq!(find_root(2, &vec![(0, 1), (1, 0)]), None);
    let ranks = topological_ranks(4, &edges).unwrap();
    for (from, to) in &edges {
        assert!(ranks[*from] < ranks[*to]);
    }
    assert_eq!(ranks, vec![0, 1, 1, 2]);
    assert!(topological_ranks(3, &vec![(0, 1), (1, 2), (2, 1)]).is_none());
    assert!(topological_ranks(1, &vec![(0, 0)]).is_none());
    assert_eq!(topological_ranks(0, &Vec::new()), Some(Vec::new()));
}

#[test]
fn rows_are_grouped_by_version() {
    let rows = candidates(&[
        ("1.0.0", Some(""), Some("a")),
        ("not a version", Some(""), Some("zzz")),
        ("0.9.0", None, None),
        ("1.0.0", Some("unix"), Some("b")),
        ("0.9.0", None, None),
        ("2.0.0", Some(""), Some("c")),
    ]);
    let grouped = Candidates::group_rows(&rows).unwrap();
    assert_eq!(
        listing(&grouped),
        vec![
            (
                "1.0.0".to_string(),
                vec![(None, "a".to_string()), (Some("unix".to_string()), "b".to_string())]
            ),
            ("0.9.0".to_string(), vec![]),
            ("2.0.0".to_string(), vec![(None, "c".to_string())]),
        ]
    );
    let broken = candidates(&[("1.0.0", None, Some("a"))]);
    assert!(Candidates::group_rows(&broken).is_none());
    assert_eq!(Candidates::group_rows(&Vec::new()).unwrap().len(), 0);
}

#[test]
fn requirement_of_a_dependency() {
    let reqs = vec![
        DepReq { name: "a".to_string(), req: "^1".to_string() },
        DepReq { name: "b".to_string(), req: "not a requirement".to_string() },
        DepReq { name: "a".to_string(), req: "^2".to_string() },
    ];
    assert_eq!(find_requirement(&reqs, "a").unwrap().unwrap().as_str(), "^1");
    assert!(find_requirement(&reqs, "c").unwrap().is_none());
    assert!(find_requirement(&reqs, "b").is_err());
}

fn manager() -> DepManager {
    let packages = vec![
        PackageMeta {
            name: "app".to_string(),
            version: "0.1.0".to_string(),
            source: None,
            dependencies: vec![
                DepReq { name: "left".to_string(), req: "^1".to_string() },
                DepReq { name: "right".to_string(), req: "^2".to_string() },
            ],
        },
        PackageMeta {
            name: "left".to_string(),
            version: "1.0.0".to_string(),
            source: Some("registry".to_string()),
            dependencies: vec![DepReq { name: "shared".to_string(), req: ">=3".to_string() }],
        },
    ];
    DepManager::new(&diamond(), packages).unwrap()
}

fn node(dm: &DepManager, name: &str) -> usize {
    (0..dm.graph().len()).find(|&i| dm.graph().package(i).name == name).unwrap()
}

#[test]
fn local_crates_of_the_manager() {
    let dm = manager();
    assert!(dm.is_local(dm.root()));
    assert!(!dm.is_local(node(&dm, "left")));
    let reqs = dm.local_reqs("app", "0.1.0").unwrap();
    assert_eq!(reqs.len(), 2);
    assert_eq!(reqs[1].req, "^2");
    assert!(dm.local_reqs("app", "0.1.1").is_none());
    assert!(dm.local_reqs("left", "1.0.0").is_none());
    assert_eq!(dm.req_by(node(&dm, "shared")), None);
    assert!(DepManager::new("nonsense [", Vec::new()).is_err());
}

#[test]
fn candidates_lie_below_and_are_admitted() {
    let mut dm = manager();
    let shared = node(&dm, "shared");
    let parents = dm.get_dep_parent(shared);
    assert_eq!(parents.len(), 2);
    let all = Candidates::group_rows(&candidates(&[
        ("3.2.0", Some(""), Some("a")),
        ("3.1.4", None, None),
        ("3.1.0", Some(""), Some("b")),
        ("3.0.0", None, None),
        ("2.9.0", None, None),
        ("3.1.4-beta", None, None),
    ]))
    .unwrap();
    let reqs: Vec<VersionReq> = parents
        .iter()
        .map(|&p| {
            let text = if dm.graph().package(p).name == "left" { ">=3" } else { ">=3.1" };
            VersionReq::parse(text).unwrap()
        })
        .collect();
    let kept = dm.get_candidates(shared, &all, &reqs);
    assert_eq!(versions(&kept), vec!["3.1.0"]);
    let current = Version::parse("3.1.4").unwrap();
    for i in 0..kept.len() {
        assert!(kept.version(i).less_than(&current));
        assert!(admitted_by(&reqs, kept.version(i)));
    }
    let strict = parents.iter().position(|&p| dm.graph().package(p).name == "right").unwrap();
    assert_eq!(most_restrictive(&all, &reqs), Some(strict));
    assert_eq!(dm.req_by(shared), Some(parents[strict]));
    assert_eq!(dm.req_by(node(&dm, "left")), None);
}

#[test]
fn equally_permissive_parents_record_no_one() {
    let mut dm = manager();
    let shared = node(&dm, "shared");
    let all = Candidates::group_rows(&candidates(&[("3.0.0", None, None), ("3.1.4", None, None)]))
        .unwrap();
    let reqs = vec![VersionReq::parse("^3").unwrap(), VersionReq::parse(">=3").unwrap()];
    let kept = dm.get_candidates(shared, &all, &reqs);
    assert_eq!(versions(&kept), vec!["3.0.0"]);
    assert_eq!(dm.req_by(shared), None);
    let none = dm.get_candidates(shared, &Candidates::empty(), &reqs);
    assert_eq!(none.len(), 0);
}

#[test]
fn candidates_need_one_requirement_for_each_parent() {
    let mut dm = manager();
    let shared = node(&dm, "shared");
    let all = Candidates::group_rows(&candidates(&[("3.0.0", None, None)])).unwrap();
    let one = vec![VersionReq::parse("^3").unwrap()];
    assert!(dm.find_candidates(shared, &all, &one).is_none());
    assert!(dm.find_candidates(99, &all, &one).is_none());
    let two = vec![VersionReq::parse("^3").unwrap(), VersionReq::parse("*").unwrap()];
    assert_eq!(versions(&dm.find_candidates(shared, &all, &two).unwrap()), vec!["3.0.0"]);
}

#[test]
fn local_package_has_no_candidates() {
    let mut dm = manager();
    let root = dm.root();
    let all = Candidates::group_rows(&candidates(&[("0.0.1", None, None)])).unwrap();
    let kept = dm.get_candidates(root, &all, &Vec::new());
    assert_eq!(kept.len(), 0);
    assert_eq!(dm.req_by(root), None);
}

#[test]
fn up_fix_candidates_relax_the_requirement() {
    let cands = Candidates::group_rows(&candidates(&[
        ("0.9.0", None, None),
        ("0.8.0", None, None),
        ("0.7.0", None, None),
        ("0.6.0", None, None),
    ]))
    .unwrap();
    let current = VersionReq::parse("^1").unwrap();
    let reqs = vec![
        Some(VersionReq::parse("^0.9").unwrap()),
        Some(VersionReq::parse("^1").unwrap()),
        None,
        Some(VersionReq::parse(" ^1").unwrap()),
    ];
    let kept = DepManager::get_candidates_up_fix(&cands, &current, &reqs);
    assert_eq!(versions(&kept), vec!["0.9.0", "0.7.0"]);
}

#[test]
fn update_reloads_the_graph_and_clears_the_cache() {
    let mut dm = manager();
    let shared = node(&dm, "shared");
    let all = Candidates::group_rows(&candidates(&[("3.0.0", None, None), ("3.1.0", None, None)]))
        .unwrap();
    let reqs = vec![VersionReq::parse(">=3.1").unwrap(), VersionReq::parse(">=3").unwrap()];
    dm.get_candidates(shared, &all, &reqs);
    assert!(dm.req_by(shared).is_some());
    assert_eq!(
        DepManager::update_args("shared", "3.1.4", "3.1.0"),
        strings(&["update", "shared@3.1.4", "--precise", "3.1.0"])
    );
    let failed = CommandOutput { success: false, stdout: String::new(), stderr: "no".to_string() };
    let e = dm.update_pkg(&failed, &diamond()).unwrap_err();
    assert_eq!(
        e.to_text(),
        "unexpected error: cannot update dep version, execute cargo update fails: no"
    );
    assert!(dm.req_by(shared).is_some());
    assert!(dm
        .update_pkg(&ok(), "broken [")
        .unwrap_err()
        .to_text()
        .starts_with("unexpected error: cannot update dep tree, load lock file fails: "));
    let two_roots = diamond().replace(" \"left\",\n", "");
    assert_eq!(
        dm.update_pkg(&ok(), &two_roots).unwrap_err().to_text(),
        "unexpected error: cannot update dep tree, load dep tree fails: not exactly one root package"
    );
    assert!(dm.req_by(shared).is_some());
    let moved = diamond().replace("3.1.4", "3.1.0");
    dm.update_pkg(&ok(), &moved).unwrap();
    for i in 0..dm.graph().len() {
        assert_eq!(dm.req_by(i), None);
    }
    assert_eq!(dm.graph().package(node(&dm, "shared")).version.as_str(), "3.1.0");
    assert_eq!(dm.graph().package(dm.root()).name, "app");
    assert!(dm.local_reqs("app", "0.1.0").is_some());
}

#[test]
fn usability_under_the_configured_compiler() {
    let c = config(52);
    assert!(c.rufs_usable(&UsedRufs::empty()));
    assert!(c.rufs_usable(&UsedRufs::new(strings(&["late", "early"]))));
    assert!(!c.rufs_usable(&UsedRufs::new(strings(&["late", "unheard_of"]))));
    assert!(!config(49).rufs_usable(&UsedRufs::new(strings(&["late"]))));
    assert!(!config(55).rufs_usable(&UsedRufs::new(strings(&["early"]))));
    assert!(c.rufs_usable_under(&UsedRufs::new(strings(&["early"])), 54));
    assert!(!c.rufs_usable_under(&UsedRufs::new(strings(&["early"])), 55));
    assert!(BuildConfig::new(String::new(), String::new(), String::new(), 64, table()).is_err());
}

#[test]
fn usable_compilers() {
    let c = config(52);
    assert_eq!(c.usable_rustc_for_rufs(&UsedRufs::empty()), (0..64).collect::<Vec<u32>>());
    assert_eq!(
        c.usable_rustc_for_rufs(&UsedRufs::new(strings(&["late"]))),
        (50..64).collect::<Vec<u32>>()
    );
    assert_eq!(
        c.usable_rustc_for_rufs(&UsedRufs::new(strings(&["late", "early"]))),
        vec![50, 51, 52, 53, 54]
    );
    assert!(c.usable_rustc_for_rufs(&UsedRufs::new(strings(&["early", "unheard_of"]))).is_empty());
}

#[test]
fn toolchain_paths_and_flags() {
    let mut c = BuildConfig::new(
        "x86_64-unknown-linux-gnu".to_string(),
        "/home/u/.rustup".to_string(),
        "/home/u/.cargo".to_string(),
        63,
        RufLifetimes::empty(),
    )
    .unwrap();
    assert_eq!(
        c.get_rustlib_path(),
        "/home/u/.rustup/toolchains/nightly-2023-12-12-x86_64-unknown-linux-gnu/lib/rustlib/x86_64-unknown-linux-gnu/lib"
    );
    assert_eq!(
        c.get_audit_rustc_path(),
        "/home/u/.rustup/toolchains/nightly-2023-12-12-x86_64-unknown-linux-gnu/bin/rustc"
    );
    assert_eq!(c.get_rust_version(), 63);
    assert!(!c.is_quick_fix() && !c.is_newer_fix() && !c.is_verbose());
    c.set_quick_fix(true);
    c.set_verbose(true);
    c.set_test(true);
    assert!(c.is_quick_fix() && c.is_verbose() && !c.is_newer_fix());
    c.set_newer_fix(true);
    c.set_quick_fix(false);
    assert!(!c.is_quick_fix() && c.is_newer_fix());
    assert!(c.get_cargo_args().is_none());
    let args = strings(&["--features", "x"]);
    c.update_cargo_args(&args);
    assert_eq!(c.get_cargo_args().unwrap(), &args[..]);
}

#[test]
fn cfgs_are_replaced_on_update() {
    let mut c = config(52);
    assert!(c.get_build_cfgs("my-crate").is_none());
    c.update_build_cfgs("my_crate".to_string(), strings(&["unix", "a"]));
    c.update_build_cfgs("other".to_string(), strings(&["b"]));
    assert_eq!(c.get_build_cfgs("my-crate").unwrap(), &strings(&["unix", "a"]));
    c.update_build_cfgs("my_crate".to_string(), strings(&["windows"]));
    assert_eq!(c.get_build_cfgs("my_crate").unwrap(), &strings(&["windows"]));
    assert_eq!(c.get_build_cfgs("other").unwrap(), &strings(&["b"]));
}

#[test]
fn filter_plan_splits_declarations() {
    let rufs = CondRufs::new(vec![
        CondRuf::new(None, "a".to_string()),
        CondRuf::new(Some("all(unix, feature = \"std\")".to_string()), "b".to_string()),
        CondRuf::new(None, "c".to_string()),
        CondRuf::new(Some("windows".to_string()), "d".to_string()),
    ]);
    let plan = BuildConfig::plan_filter(&rufs);
    assert_eq!(plan.used.as_slice(), strings(&["a", "c"]));
    assert_eq!(
        plan.content,
        "#![cfg_attr(all(unix, feature = \"std\"), feature(b))]\n#![cfg_attr(windows, feature(d))]\nfn main(){}\n"
    );
    let plain = BuildConfig::plan_filter(&CondRufs::new(vec![CondRuf::new(None, "a".to_string())]));
    assert_eq!(plain.content, "");
    assert_eq!(plain.used.as_slice(), strings(&["a"]));
}

#[test]
fn scanner_arguments_and_result() {
    let cfgs = strings(&["unix", "feature=\\\"std\\\""]);
    assert_eq!(
        scanner_args(&cfgs).unwrap(),
        strings(&["--", "--cfg", "unix", "--cfg", "feature=\"std\"", "-"])
    );
    assert_eq!(scanner_args(&Vec::new()).unwrap(), strings(&["--", "-"]));
    assert!(scanner_args(&strings(&["a\\'b"])).is_none());
    let out = CommandOutput {
        success: true,
        stdout: format!("noise{}more", UsedRufs::new(strings(&["b"])).to_line()),
        stderr: String::new(),
    };
    let used = BuildConfig::filter_rufs(UsedRufs::new(strings(&["a"])), &out).unwrap();
    assert_eq!(used.as_slice(), strings(&["a", "b"]));
    let silent = BuildConfig::filter_rufs(UsedRufs::new(strings(&["a"])), &ok()).unwrap();
    assert_eq!(silent.as_slice(), strings(&["a"]));
    let failed = CommandOutput { success: false, stdout: String::new(), stderr: "bad".to_string() };
    assert_eq!(
        BuildConfig::filter_rufs(UsedRufs::empty(), &failed).unwrap_err().to_text(),
        "unexpected error: cannot check candidate rufs: bad"
    );
    let garbled = CommandOutput {
        success: true,
        stdout: "FDelimiter::{[1,2]}::FDelimiter".to_string(),
        stderr: String::new(),
    };
    assert!(BuildConfig::filter_rufs(UsedRufs::empty(), &garbled).is_err());
}

fn rustup(stdout: &str) -> Result<CommandOutput, String> {
    Ok(CommandOutput { success: true, stdout: stdout.to_string(), stderr: String::new() })
}

const PROFILE: &str = "Default host: x86_64-unknown-linux-gnu\nrustup home:  /home/u/.rustup\n\ninstalled toolchains\n--------------------\n\nnightly-2022-05-19-x86_64-unknown-linux-gnu (default)\n\nactive toolchain\n----------------\n\nnightly-2022-05-19-x86_64-unknown-linux-gnu (default)\nrustc 1.63.0-nightly (cd282d7f7 2022-05-18)\n";

#[test]
fn configuration_from_the_toolchain_report() {
    let c = BuildConfig::default(rustup(PROFILE), None, Some("/home/u".to_string()), table()).unwrap();
    assert_eq!(c.get_rust_version(), 63);
    assert_eq!(
        c.get_audit_rustc_path(),
        "/home/u/.rustup/toolchains/nightly-2023-12-12-x86_64-unknown-linux-gnu/bin/rustc"
    );
    assert!(!c.is_quick_fix());
    let with_env =
        BuildConfig::default(rustup(PROFILE), Some("/opt/cargo".to_string()), None, table());
    assert!(with_env.is_ok());
}

#[test]
fn configuration_failures() {
    let message = |r: Result<BuildConfig, ruf_audit::error::AuditError>| r.err().unwrap().to_text();
    assert_eq!(
        message(BuildConfig::default(Err("not found".to_string()), None, None, table())),
        "unexpected error: cannot build BuildConfig, fail to run rustup: not found"
    );
    let failed = Ok(CommandOutput { success: false, stdout: PROFILE.to_string(), stderr: String::new() });
    assert_eq!(
        message(BuildConfig::default(failed, None, None, table())),
        "unexpected error: cannot build BuildConfig, fail to fetch rustup profiles"
    );
    assert_eq!(
        message(BuildConfig::default(rustup("rustup home: /r\n"), None, None, table())),
        "unexpected error: cannot build BuildConfig, fail to fetch rustup default host"
    );
    assert_eq!(
        message(BuildConfig::default(rustup("Default host: h\n"), None, None, table())),
        "unexpected error: cannot build BuildConfig, fail to fetch rustup home"
    );
    assert_eq!(
        message(BuildConfig::default(rustup("Default host: h\nrustup home:\n"), None, None, table())),
        "unexpected error: cannot build BuildConfig, fail to fetch rustup home"
    );
    assert_eq!(
        message(BuildConfig::default(rustup(PROFILE), None, None, table())),
        "unexpected error: cannot build BuildConfig, fail to fetch cargo home"
    );
    let stable = PROFILE.replace("-nightly", "");
    assert_eq!(
        message(BuildConfig::default(rustup(&stable), None, Some("/h".to_string()), table())),
        "unexpected error: cannot build BuildConfig, fail to fetch rustc version"
    );
    let newer = PROFILE.replace("1.63.0", "1.76.0");
    assert_eq!(
        message(BuildConfig::default(rustup(&newer), None, Some("/h".to_string()), table())),
        "unexpected error: cannot build BuildConfig, rustc version not covered"
    );
}

fn scan(name: &str, rufs: &[&str], cfg: &[&str]) -> String {
    CheckInfo {
        crate_name: name.to_string(),
        used_rufs: UsedRufs::new(strings(rufs)),
        cfg: strings(cfg),
    }
    .to_line()
}

#[test]
fn extraction_merges_records_by_crate() {
    let stdout = format!(
        "Compiling{}{}junk{}",
        scan("b", &["x", "y"], &["unix"]),
        scan("a", &[], &["feature=\"std\""]),
        scan("b", &["y", "z"], &["unix", "debug_assertions"]),
    );
    let out = CommandOutput { success: true, stdout, stderr: String::new() };
    let records = read_records(&out).unwrap();
    assert_eq!(records.len(), 2);
    assert_eq!(records.name(0), "b");
    assert_eq!(records.rufs(0).as_slice(), strings(&["x", "y", "z"]));
    assert_eq!(records.cfgs(0), &strings(&["unix", "debug_assertions"]));
    assert_eq!(records.name(1), "a");
    assert!(records.rufs(1).as_slice().is_empty());
    assert_eq!(records.cfgs(1), &strings(&["feature=\\\"std\\\""]));
    assert_eq!(records.get("b").unwrap().len(), 3);
    assert!(records.get("c").is_none());
    let mut c = config(52);
    c.update_build_cfgs("b".to_string(), strings(&["stale"]));
    c.update_build_cfgs("old".to_string(), strings(&["kept"]));
    record_cfgs(&mut c, &records);
    assert_eq!(c.get_build_cfgs("b").unwrap(), &strings(&["unix", "debug_assertions"]));
    assert_eq!(c.get_build_cfgs("a").unwrap(), &strings(&["feature=\\\"std\\\""]));
    assert_eq!(c.get_build_cfgs("old").unwrap(), &strings(&["kept"]));
}

#[test]
fn extraction_failures() {
    let failed = CommandOutput {
        success: false,
        stdout: scan("a", &[], &[]),
        stderr: "note\nwarning: w\n".to_string(),
    };
    assert_eq!(
        read_records(&failed).err().unwrap().to_text(),
        "unexpected error: cargo failure: unknown error"
    );
    assert_eq!(
        failure("  x\n\terror: one\nerror: two").to_text(),
        "unexpected error: cargo failure: \terror: one"
    );
    let garbled = CommandOutput {
        success: true,
        stdout: "CDelimiter::{{\"crate_name\":1}}::CDelimiter".to_string(),
        stderr: String::new(),
    };
    assert!(read_records(&garbled).err().unwrap().is_unexpected());
    assert_eq!(read_records(&ok()).unwrap().len(), 0);
    let mut c = config(52);
    c.update_build_cfgs("a".to_string(), strings(&["kept"]));
    assert!(extract(&mut c, &failed).is_err());
    assert_eq!(c.get_build_cfgs("a").unwrap(), &strings(&["kept"]));
    let fine = CommandOutput { success: true, stdout: scan("a", &["x"], &["unix"]), stderr: String::new() };
    let records = extract(&mut c, &fine).unwrap();
    assert_eq!(records.get("a").unwrap().as_slice(), strings(&["x"]));
    assert_eq!(c.get_build_cfgs("a").unwrap(), &strings(&["unix"]));
}

#[test]
fn mod_test() {
    let rows = candidates(&[
        ("1.0.17", Some(""), Some("doc_cfg")),
        ("1.0.17", Some("no_nonzero_bitscan"), Some("nonzero_leading_trailing_zeros")),
        ("0.9.0", None, None),
    ]);
    let res = Candidates::group_rows(&rows);
    println!("{res:#?}");
    assert_eq!(res.unwrap().len(), 2);
}

#[test]
fn lib_test() {
    let lockfile = DepGraph::from_lock(&diamond()).unwrap();
    println!("{:#?}", lockfile);
    assert_eq!(lockfile.len(), 4);
}
