use ruf_audit::audit::Event;
use ruf_audit::build_config::BuildConfig;
use ruf_audit::check_info::{CheckInfo, UsedRufs};
use ruf_audit::command::CommandOutput;
use ruf_audit::diagnose::{Matrix, TestAction, TestPhase};
use ruf_audit::status::RufLifetimes;

fn config<'c>() -> BuildConfig<'c> {
    let mut t = RufLifetimes::empty();
    let mut old = vec![1u8; 64];
    for v in 55..64 {
        old[v] = 4;
    }
    assert!(t.insert("old".to_string(), old));
    assert!(t.insert("fine".to_string(), vec![3u8; 64]));
    assert!(t.insert("gone".to_string(), vec![4u8; 64]));
    BuildConfig::new("h".to_string(), "/r".to_string(), "/c".to_string(), 60, t).unwrap()
}

fn pass(crates: &[(&str, &[&str])]) -> Event {
    let mut stdout = String::new();
    for (name, rufs) in crates {
        stdout.push_str(
            &CheckInfo {
                crate_name: name.to_string(),
                used_rufs: UsedRufs::new(rufs.iter().map(|r| r.to_string()).collect()),
                cfg: Vec::new(),
            }
            .to_line(),
        );
    }
    Event::Extracted(Ok(CommandOutput { success: true, stdout, stderr: String::new() }))
}

fn regenerated(success: bool) -> Event {
    Event::Regenerated(Ok(CommandOutput { success, stdout: String::new(), stderr: String::new() }))
}

fn finish(action: TestAction) -> (i32, Option<Matrix>, Option<u32>) {
    match action {
        TestAction::Finish { code, result, rustc } => (code, result, rustc),
        _ => panic!("expected the end"),
    }
}

fn matrix(a: bool, b: bool, c: bool, d: bool) -> Option<Matrix> {
    Some(Matrix { as_is: a, rustc: b, minimal: c, minimal_rustc: d })
}

#[test]
fn diagnosis_ends_when_the_project_works_as_it_is() {
    let (mut run, first) = ruf_audit::diagnose::test(config());
    assert!(matches!(first, TestAction::Extract { quiet: false }));
    let end = run.step(pass(&[("a", &["fine"]), ("b", &[])]));
    assert_eq!(finish(end), (0, matrix(true, true, true, true), None));
    assert!(run.phase == TestPhase::Done);
}

#[test]
fn diagnosis_reports_another_compiler() {
    let (mut run, _) = ruf_audit::diagnose::test(config());
    let end = run.step(pass(&[("a", &["fine", "old"])]));
    assert_eq!(finish(end), (0, matrix(false, true, true, true), Some(54)));
}

#[test]
fn diagnosis_tries_the_lowest_versions() {
    let (mut run, _) = ruf_audit::diagnose::test(config());
    assert!(matches!(run.step(pass(&[("a", &["gone"])])), TestAction::MinimalVersions));
    assert!(matches!(run.step(regenerated(true)), TestAction::Extract { quiet: true }));
    let end = run.step(pass(&[("a", &["fine"])]));
    assert_eq!(finish(end), (0, matrix(false, false, true, true), None));
}

#[test]
fn diagnosis_reports_another_compiler_for_the_lowest_versions() {
    let (mut run, _) = ruf_audit::diagnose::test(config());
    run.step(pass(&[("a", &["gone"])]));
    run.step(regenerated(true));
    let end = run.step(pass(&[("a", &["old"])]));
    assert_eq!(finish(end), (0, matrix(false, false, false, true), Some(54)));
}

#[test]
fn diagnosis_finds_nothing() {
    let (mut run, _) = ruf_audit::diagnose::test(config());
    run.step(pass(&[("a", &["gone"])]));
    run.step(regenerated(true));
    let end = run.step(pass(&[("a", &["gone", "fine"])]));
    assert_eq!(finish(end), (-2, matrix(false, false, false, false), None));
}

#[test]
fn diagnosis_breaks_down() {
    let (mut run, _) = ruf_audit::diagnose::test(config());
    assert_eq!(finish(run.step(Event::Extracted(Err("no cargo".to_string())))), (-1, None, None));
    let (mut run, _) = ruf_audit::diagnose::test(config());
    run.step(pass(&[("a", &["gone"])]));
    assert_eq!(finish(run.step(regenerated(false))), (-1, None, None));
    let (mut run, _) = ruf_audit::diagnose::test(config());
    assert_eq!(finish(run.step(Event::Resume)), (-1, None, None));
    let (mut run, _) = ruf_audit::diagnose::test(config());
    let failed = CommandOutput { success: false, stdout: String::new(), stderr: String::new() };
    assert_eq!(finish(run.step(Event::Extracted(Ok(failed)))), (-1, None, None));
}
