use cargo_local_install::{
    classify_exit, copy_failure, publish_targets, AfterRun, BinEntry, Install, InstallFlag, RunOutcome,
};

fn b(s: &str) -> Vec<u8> {
    s.as_bytes().to_vec()
}

fn tool() -> Install {
    Install { name: b("tool"), flags: vec![InstallFlag::new(b("--version"), vec![b("1")])] }
}

#[test]
fn exit_codes_are_classified() {
    assert!(matches!(classify_exit(Some(0)), RunOutcome::Success));
    assert!(matches!(classify_exit(Some(101)), RunOutcome::ExitFailure(101)));
    assert!(matches!(classify_exit(Some(-1)), RunOutcome::ExitFailure(-1)));
    assert!(matches!(classify_exit(None), RunOutcome::SignalFailure));
}

#[test]
fn success_publishes() {
    let cmd = tool().command(b"/c");
    assert!(matches!(cmd.after_run(&RunOutcome::Success), AfterRun::Publish));
}

#[test]
fn exit_code_is_in_failure_message() {
    let cmd = tool().command(b"/c");
    match cmd.after_run(&RunOutcome::ExitFailure(101)) {
        AfterRun::Fail(e) => {
            let m = String::from_utf8(e.message().to_vec()).unwrap();
            assert!(m.starts_with("cargo install --version \"1\" --root "));
            assert!(m.ends_with(" -- tool failed (exit code 101)"));
        }
        other => panic!("unexpected {:?}", other),
    }
}

#[test]
fn negative_exit_code_is_written_with_sign() {
    let cmd = tool().command(b"/c");
    match cmd.after_run(&RunOutcome::ExitFailure(-2147483648)) {
        AfterRun::Fail(e) => {
            let m = String::from_utf8(e.message().to_vec()).unwrap();
            assert!(m.ends_with("failed (exit code -2147483648)"));
        }
        other => panic!("unexpected {:?}", other),
    }
}

#[test]
fn signal_and_spawn_failures_name_the_invocation() {
    let cmd = tool().command(b"/c");
    let trace = String::from_utf8(cmd.trace.clone()).unwrap();
    match cmd.after_run(&RunOutcome::SignalFailure) {
        AfterRun::Fail(e) => assert_eq!(e.message(), format!("{} failed (signal)", trace).as_bytes()),
        other => panic!("unexpected {:?}", other),
    }
    match cmd.after_run(&RunOutcome::SpawnFailure(b("not found"))) {
        AfterRun::Fail(e) => {
            assert_eq!(e.message(), format!("failed to spawn {}: not found", trace).as_bytes());
            assert_eq!(e.cause(), Some(&b"not found"[..]));
        }
        other => panic!("unexpected {:?}", other),
    }
}

#[test]
fn dry_run_is_done_without_publishing() {
    let cmd = tool().command(b"/c");
    assert!(matches!(cmd.after_run(&RunOutcome::DryRun), AfterRun::Done));
}

#[test]
fn only_regular_files_are_published() {
    let entries = vec![
        BinEntry { name: b("tool"), is_file: true },
        BinEntry { name: b("subdir"), is_file: false },
        BinEntry { name: b("tool2"), is_file: true },
    ];
    let t = publish_targets(b"/c/abc/bin", b"/proj/bin/", &entries);
    assert_eq!(t.len(), 2);
    assert_eq!(t[0].source, b("/c/abc/bin/tool"));
    assert_eq!(t[0].destination, b("/proj/bin/tool"));
    assert_eq!(t[1].source, b("/c/abc/bin/tool2"));
    assert_eq!(t[1].destination, b("/proj/bin/tool2"));
}

#[test]
fn copy_failure_names_both_paths() {
    let entries = vec![BinEntry { name: b("tool"), is_file: true }];
    let t = publish_targets(b"/c/bin", b"/d", &entries);
    let e = copy_failure(&t[0], b"denied");
    assert_eq!(e.message(), b"error replacing `/d/tool` with `/c/bin/tool`: denied");
}
