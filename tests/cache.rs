use cargo_local_install::{Install, InstallFlag, InstallSet};

fn b(s: &str) -> Vec<u8> {
    s.as_bytes().to_vec()
}

fn remote(name: &str) -> Install {
    Install { name: b(name), flags: vec![InstallFlag::new(b("--version"), vec![b("1")])] }
}

fn local(name: &str) -> Install {
    Install { name: b(name), flags: vec![InstallFlag::new(b("--path"), vec![b("/src")])] }
}

fn set(installs: Vec<Install>, from_manifest: bool) -> InstallSet {
    InstallSet { bin: b("/proj/bin"), src: if from_manifest { Some(b("/proj/Cargo.toml")) } else { None }, installs }
}

#[test]
fn marker_path_is_dot_built_in_destination() {
    assert_eq!(set(vec![], true).marker_path(), b("/proj/bin/.built"));
}

#[test]
fn first_run_builds_and_touches_marker() {
    let s = set(vec![remote("a")], true);
    let p = s.plan(Some(100), None);
    assert_eq!(p.run, vec![true]);
    assert!(p.touch_marker);
    assert!(!p.up_to_date);
}

#[test]
fn second_run_skips_remote_requests() {
    let s = set(vec![remote("a"), remote("b")], true);
    let p = s.plan(Some(100), Some(200));
    assert_eq!(p.run, vec![false, false]);
    assert!(p.up_to_date);
    assert!(!p.touch_marker);
}

#[test]
fn local_requests_run_in_an_up_to_date_set() {
    let s = set(vec![remote("a"), local("b")], true);
    let p = s.plan(Some(100), Some(200));
    assert_eq!(p.run, vec![false, true]);
    assert!(p.up_to_date);
    assert!(p.touch_marker);
}

#[test]
fn stale_marker_rebuilds() {
    let s = set(vec![remote("a")], true);
    let p = s.plan(Some(300), Some(200));
    assert_eq!(p.run, vec![true]);
    assert!(p.touch_marker);
}

#[test]
fn equal_times_are_not_up_to_date() {
    let p = set(vec![remote("a")], true).plan(Some(200), Some(200));
    assert_eq!(p.run, vec![true]);
}

#[test]
fn unknown_times_are_not_up_to_date() {
    let p = set(vec![remote("a")], true).plan(None, Some(200));
    assert_eq!(p.run, vec![true]);
    assert!(!p.up_to_date);
}

#[test]
fn command_line_sets_never_touch_marker() {
    let p = set(vec![remote("a")], false).plan(Some(100), Some(200));
    assert_eq!(p.run, vec![true]);
    assert!(!p.touch_marker);
}

#[test]
fn local_only_set_always_runs_and_leaves_marker() {
    let p = set(vec![local("a")], true).plan(Some(100), Some(200));
    assert_eq!(p.run, vec![true]);
    assert!(!p.up_to_date);
    assert!(!p.touch_marker);
}

#[test]
fn empty_set_does_nothing() {
    let p = set(vec![], true).plan(Some(100), None);
    assert!(p.run.is_empty());
    assert!(!p.touch_marker);
}
