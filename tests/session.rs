use cargo_local_install::{Error, Failures, Install, InstallFlag, InstallSet, SetRun};

fn b(s: &str) -> Vec<u8> {
    s.as_bytes().to_vec()
}

fn request(name: &str, local: bool) -> Install {
    let flag = if local { "--path" } else { "--version" };
    Install { name: b(name), flags: vec![InstallFlag::new(b(flag), vec![b("x")])] }
}

fn err(m: &str) -> Error {
    Error::new(b(m), None)
}

#[test]
fn requests_are_handed_out_in_order_skipping_planned_skips() {
    let set = InstallSet {
        bin: b("/p/bin"),
        src: Some(b("/p/Cargo.toml")),
        installs: vec![request("a", false), request("b", true), request("c", false), request("d", true)],
    };
    let mut run = SetRun::new(set.plan(Some(1), Some(2)), false);
    assert_eq!(run.next_request(), Some(1));
    run.record(Ok(()));
    assert_eq!(run.next_request(), Some(3));
    run.record(Ok(()));
    assert_eq!(run.next_request(), None);
    assert_eq!(run.next_request(), None);
    assert!(run.marker_due());
    assert!(run.finish().is_ok());
}

#[test]
fn failed_request_does_not_stop_the_set_but_keeps_the_marker() {
    let set = InstallSet {
        bin: b("/p/bin"),
        src: Some(b("/p/Cargo.toml")),
        installs: vec![request("a", false), request("b", false)],
    };
    let mut run = SetRun::new(set.plan(None, None), false);
    assert_eq!(run.next_request(), Some(0));
    run.record(Err(err("a failed (exit code 101)")));
    assert_eq!(run.next_request(), Some(1));
    run.record(Err(err("b failed (signal)")));
    assert_eq!(run.next_request(), None);
    assert!(!run.marker_due());
    let e = run.finish().unwrap_err();
    assert_eq!(e.message(), b"a failed (exit code 101)");
}

#[test]
fn failures_keep_the_first() {
    let mut f = Failures::new();
    f.record(Ok(()));
    f.record(Err(err("first")));
    f.record(Ok(()));
    f.record(Err(err("second")));
    assert_eq!(f.finish().unwrap_err().message(), b"first");
    assert!(Failures::new().finish().is_ok());
}

#[test]
fn dry_run_writes_no_marker() {
    let set = InstallSet { bin: b("/p/bin"), src: Some(b("/p/Cargo.toml")), installs: vec![request("a", false)] };
    let plan = set.plan(None, None);
    assert!(plan.touch_marker);
    let mut run = SetRun::new(plan, true);
    assert_eq!(run.next_request(), Some(0));
    run.record(Ok(()));
    assert!(!run.marker_due());
}
