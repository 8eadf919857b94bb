use cargo_local_install::{
    crates_cache_root, default_target_dir, find_cwd_installs, parse_args, publish_targets, resolve_sets,
    AfterRun, BinEntry, RunOutcome,
};

fn argv(s: &[&str]) -> Vec<Vec<u8>> {
    s.iter().map(|a| a.as_bytes().to_vec()).collect()
}

#[test]
fn cache_locations_under_home() {
    assert_eq!(crates_cache_root(b"/home/u"), b"/home/u/.cargo/local-install/crates".to_vec());
    assert_eq!(default_target_dir(b"/home/u/"), b"/home/u/.cargo/local-install/target".to_vec());
}

#[test]
fn remote_target_is_built_into_its_cache_entry_and_published() {
    let o = parse_args(&argv(&["--root", "destination", "tool"])).unwrap();
    let sets = resolve_sets(&o, &Vec::new(), b"/home/u/.cargo/local-install/target", None).unwrap();
    let set = &sets[0];
    let plan = set.plan(None, None);
    assert_eq!(plan.run, vec![true]);
    let cache = crates_cache_root(b"/home/u");
    let cmd = set.installs[0].command(&cache);
    let hash = set.installs[0].fingerprint();
    let mut expected_dir = b"/home/u/.cargo/local-install/crates/".to_vec();
    expected_dir.extend(&hash);
    assert_eq!(cmd.build_dir, expected_dir);
    assert!(matches!(cmd.after_run(&RunOutcome::Success), AfterRun::Publish));
    let targets = publish_targets(&cmd.bin_dir, &set.bin, &vec![BinEntry { name: b"tool".to_vec(), is_file: true }]);
    assert_eq!(targets.len(), 1);
    assert_eq!(targets[0].destination, b"destination/bin/tool".to_vec());
    let mut src = expected_dir.clone();
    src.extend(b"/bin/tool");
    assert_eq!(targets[0].source, src);
}

#[test]
fn dry_run_spawns_nothing_and_publishes_nothing() {
    let o = parse_args(&argv(&["--dry-run", "tool"])).unwrap();
    assert!(o.dry_run);
    let sets = resolve_sets(&o, &Vec::new(), b"/t", None).unwrap();
    let cmd = sets[0].installs[0].command(b"/c");
    assert!(matches!(cmd.after_run(&RunOutcome::DryRun), AfterRun::Done));
}

#[test]
fn up_to_date_manifest_set_runs_nothing() {
    let text = "[package.metadata.local-install]\ntool = \"1\"\nother = { git = \"u\" }\n";
    let found = find_cwd_installs(b"/proj", text, None).unwrap();
    let o = parse_args(&argv(&[])).unwrap();
    let sets = resolve_sets(&o, &found, b"/t", None).unwrap();
    let plan = sets[0].plan(Some(1_000), Some(2_000));
    assert!(plan.up_to_date);
    assert_eq!(plan.run, vec![false, false]);
    assert!(!plan.touch_marker);
}

#[test]
fn exit_code_failure_is_fatal_and_skips_publishing() {
    let o = parse_args(&argv(&["tool"])).unwrap();
    let sets = resolve_sets(&o, &Vec::new(), b"/t", None).unwrap();
    let cmd = sets[0].installs[0].command(b"/c");
    match cmd.after_run(&RunOutcome::ExitFailure(101)) {
        AfterRun::Fail(e) => assert!(String::from_utf8_lossy(e.message()).contains("(exit code 101)")),
        other => panic!("unexpected {:?}", other),
    }
}
