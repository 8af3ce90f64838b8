use ruf_audit::check_info::{CheckInfo, CondRuf, CondRufs, UsedRufs};
use ruf_audit::cli::{invocation, pass_through, Invocation};
use ruf_audit::error::AuditError;
use ruf_audit::status::{get_ruf_all_status, get_ruf_status, RufLifetimes, RufStatus};
use ruf_audit::version::{max_index, min_index, Version, VersionReq};

fn row(code: u8) -> Vec<u8> {
    vec![code; 64]
}

fn strings(items: &[&str]) -> Vec<String> {
    items.iter().map(|s| s.to_string()).collect()
}

#[test]
fn status_usable_only_when_active_incomplete_or_accepted() {
    assert!(RufStatus::Active.is_usable());
    assert!(RufStatus::Incomplete.is_usable());
    assert!(RufStatus::Accepted.is_usable());
    assert!(!RufStatus::Removed.is_usable());
    assert!(!RufStatus::Unknown.is_usable());
}

#[test]
fn status_codes_round_trip() {
    for (code, status) in [
        (0u32, RufStatus::Unknown),
        (1, RufStatus::Active),
        (2, RufStatus::Incomplete),
        (3, RufStatus::Accepted),
        (4, RufStatus::Removed),
    ] {
        assert_eq!(RufStatus::from_code(code), Some(status));
        assert_eq!(status.code() as u32, code);
    }
    assert_eq!(RufStatus::from_code(5), None);
}

#[test]
fn unknown_feature_is_unknown_at_every_version() {
    let mut table = RufLifetimes::empty();
    assert!(table.insert("never_type".to_string(), row(1)));
    for v in [0u32, 17, 63] {
        assert_eq!(get_ruf_status(&table, "no_such_feature", v), RufStatus::Unknown);
        assert!(!get_ruf_status(&table, "no_such_feature", v).is_usable());
    }
    assert!(get_ruf_all_status(&table, "no_such_feature").is_empty());
}

#[test]
fn table_lookup_by_name_and_version() {
    let mut table = RufLifetimes::empty();
    let mut codes = row(0);
    codes[10] = 1;
    codes[11] = 2;
    codes[12] = 3;
    codes[13] = 4;
    assert!(table.insert("box_syntax".to_string(), codes));
    assert_eq!(get_ruf_status(&table, "box_syntax", 9), RufStatus::Unknown);
    assert_eq!(get_ruf_status(&table, "box_syntax", 10), RufStatus::Active);
    assert_eq!(get_ruf_status(&table, "box_syntax", 11), RufStatus::Incomplete);
    assert_eq!(get_ruf_status(&table, "box_syntax", 12), RufStatus::Accepted);
    assert_eq!(get_ruf_status(&table, "box_syntax", 13), RufStatus::Removed);
    let all = get_ruf_all_status(&table, "box_syntax");
    assert_eq!(all.len(), 64);
    assert_eq!(all[12], RufStatus::Accepted);
    assert_eq!(all[63], RufStatus::Unknown);
}

#[test]
fn table_refuses_bad_rows() {
    let mut table = RufLifetimes::empty();
    assert!(!table.insert("short".to_string(), vec![1; 63]));
    let mut bad = row(1);
    bad[5] = 9;
    assert!(!table.insert("bad_code".to_string(), bad));
    assert!(table.insert("good".to_string(), row(3)));
    assert!(!table.insert("good".to_string(), row(4)));
    assert_eq!(get_ruf_status(&table, "good", 0), RufStatus::Accepted);
}

#[test]
fn error_kinds_and_exit_codes() {
    let u = AuditError::Unexpected("boom".to_string());
    let f = AuditError::Functionality("stuck".to_string());
    assert!(u.is_unexpected());
    assert!(!f.is_unexpected());
    assert_eq!(u.exit_code(), -1);
    assert_eq!(f.exit_code(), -2);
    assert_eq!(u.to_text(), "unexpected error: boom");
    assert_eq!(f.to_text(), "functionality error: stuck");
}

#[test]
fn versions_parse_and_order_as_semver_does() {
    assert!(Version::parse("1.2").is_none());
    assert!(Version::parse("01.2.3").is_none());
    let a = Version::parse("1.9.0").unwrap();
    let b = Version::parse("1.10.0").unwrap();
    let pre = Version::parse("1.10.0-alpha.1").unwrap();
    assert!(a.less_than(&b));
    assert!(!b.less_than(&a));
    assert!(!a.less_than(&a));
    assert!(pre.less_than(&b));
    assert!(a.less_than(&pre));
    assert_eq!(a.as_str(), "1.9.0");
    assert!(a.same(&Version::parse("1.9.0").unwrap()));
}

#[test]
fn least_and_greatest_versions() {
    let list: Vec<Version> = ["1.8.0", "2.0.0", "1.9.0", "0.3.7"]
        .iter()
        .map(|t| Version::parse(t).unwrap())
        .collect();
    assert_eq!(min_index(&list), Some(3));
    assert_eq!(max_index(&list), Some(1));
    assert_eq!(min_index(&Vec::new()), None);
    assert_eq!(max_index(&Vec::new()), None);
}

#[test]
fn requirements_match_as_semver_does() {
    assert!(VersionReq::parse("^1 || ^2").is_none());
    let req = VersionReq::parse(">=1, <3").unwrap();
    assert!(req.matches(&Version::parse("1.8.0").unwrap()));
    assert!(req.matches(&Version::parse("2.0.0").unwrap()));
    assert!(!req.matches(&Version::parse("3.0.0").unwrap()));
    assert!(!req.matches(&Version::parse("0.9.0").unwrap()));
    let caret = VersionReq::parse("^0.9").unwrap();
    assert!(caret.matches(&Version::parse("0.9.5").unwrap()));
    assert!(!caret.matches(&Version::parse("1.0.0").unwrap()));
    assert!(caret.same(&VersionReq::parse("^0.9").unwrap()));
    assert!(caret.same(&VersionReq::parse(" ^0.9 ").unwrap()));
    assert!(!caret.same(&VersionReq::parse("^0.8").unwrap()));
}

#[test]
fn used_rufs_list_operations() {
    let mut rufs = UsedRufs::empty();
    assert_eq!(rufs.len(), 0);
    rufs.push("a".to_string());
    rufs.extend(strings(&["b", "c"]));
    assert_eq!(rufs.iter().cloned().collect::<Vec<_>>(), strings(&["a", "b", "c"]));
    rufs.absorb(&strings(&["c", "d", "a", "d"]));
    assert_eq!(rufs.as_slice().to_vec(), strings(&["a", "b", "c", "d"]));
    assert_eq!(UsedRufs::new(strings(&["x"])).get(0), "x");
}

#[test]
fn cond_rufs_list_operations() {
    let mut rufs = CondRufs::empty();
    rufs.push(CondRuf::new(None, "a".to_string()));
    rufs.extend(vec![CondRuf::new(Some("unix".to_string()), "b".to_string())]);
    assert_eq!(rufs.len(), 2);
    let seen: Vec<(Option<String>, String)> =
        rufs.iter().map(|r| (r.cond.clone(), r.feature.clone())).collect();
    assert_eq!(
        seen,
        vec![(None, "a".to_string()), (Some("unix".to_string()), "b".to_string())]
    );
    let copy = CondRufs::new(vec![rufs.get(1).duplicate()]);
    assert_eq!(copy.get(0).feature, "b");
}

#[test]
fn check_info_json_round_trip() {
    let info = CheckInfo {
        crate_name: "my_crate".to_string(),
        used_rufs: UsedRufs::new(strings(&["never_type", "box \"syntax\""])),
        cfg: strings(&["feature=\"std\"", "unix", "a\\b\n"]),
    };
    let json = info.to_json();
    assert_eq!(
        json,
        "{\"crate_name\":\"my_crate\",\"used_rufs\":[\"never_type\",\"box \\\"syntax\\\"\"],\"cfg\":[\"feature=\\\"std\\\"\",\"unix\",\"a\\\\b\\n\"]}"
    );
    let back = CheckInfo::from_json(&json).unwrap();
    assert_eq!(back.crate_name, info.crate_name);
    assert_eq!(back.used_rufs.as_slice(), info.used_rufs.as_slice());
    assert_eq!(back.cfg, info.cfg);
    assert!(CheckInfo::from_json("{\"crate_name\":\"x\"}").is_none());
    assert!(CheckInfo::from_json("not json").is_none());
}

#[test]
fn used_rufs_json_round_trip() {
    let rufs = UsedRufs::new(strings(&["a", "b\tc", "é"]));
    let json = rufs.to_json();
    assert_eq!(json, "[\"a\",\"b\\tc\",\"é\"]");
    let back = UsedRufs::from_json(&json).unwrap();
    assert_eq!(back.as_slice(), rufs.as_slice());
    assert_eq!(UsedRufs::from_json("[]").unwrap().len(), 0);
    assert!(UsedRufs::from_json("[1]").is_none());
    assert_eq!(rufs.to_line(), "\nFDelimiter::{[\"a\",\"b\\tc\",\"é\"]}::FDelimiter\n");
}

#[test]
fn status_words() {
    assert_eq!(RufStatus::from_name("active"), Some(RufStatus::Active));
    assert_eq!(RufStatus::from_name("incomplete"), Some(RufStatus::Incomplete));
    assert_eq!(RufStatus::from_name("accepted"), Some(RufStatus::Accepted));
    assert_eq!(RufStatus::from_name("removed"), Some(RufStatus::Removed));
    assert_eq!(RufStatus::from_name(""), Some(RufStatus::Unknown));
    assert_eq!(RufStatus::from_name("Active"), None);
}

#[test]
fn command_line_in_place_of_the_compiler() {
    let rustc = "/r/toolchains/nightly/bin/rustc";
    let call = |words: &[&str]| invocation(&strings(words), rustc);
    assert!(matches!(call(&["audit"]), Invocation::Audit));
    assert!(matches!(call(&["audit", "--quick-fix"]), Invocation::Audit));
    assert!(matches!(call(&["audit", "rustc", "-"]), Invocation::Audit));
    match call(&["audit", rustc, "-", "--crate-name", "___"]) {
        Invocation::Rustc { args } => assert_eq!(args, strings(&["-", "--crate-name", "___"])),
        _ => panic!("expected the compiler"),
    }
    match call(&["audit", rustc, "--crate-name", "x", "-"]) {
        Invocation::Scanner { args } => assert_eq!(
            args,
            strings(&["--checkinfo", "--rustc", rustc, "--", "--crate-name", "x", "-"])
        ),
        _ => panic!("expected the scanner"),
    }
    match call(&["audit", rustc]) {
        Invocation::Scanner { args } => {
            assert_eq!(args, strings(&["--checkinfo", "--rustc", rustc, "--"]))
        }
        _ => panic!("expected the scanner"),
    }
    assert_eq!(pass_through(&strings(&["audit", "--verbose"])), None);
    assert_eq!(pass_through(&strings(&["audit", "--", "--features", "--", "x"])), Some(2));
    assert_eq!(pass_through(&strings(&["audit", "--verbose", "--"])), Some(3));
}
