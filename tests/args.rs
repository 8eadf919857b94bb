use cargo_local_install::{needs_locked_warning, parse_args, print_usage, resolve_sets, LogMode};

fn argv(s: &[&str]) -> Vec<Vec<u8>> {
    s.iter().map(|a| a.as_bytes().to_vec()).collect()
}

#[test]
fn crates_and_pass_through_flags() {
    let o = parse_args(&argv(&["cargo-web", "--version", "^0.6", "-q", "--force", "--locked"])).unwrap();
    assert_eq!(o.crates, argv(&["cargo-web"]));
    assert_eq!(o.flags.len(), 3);
    assert_eq!(o.flags[0].flag, b"--version".to_vec());
    assert_eq!(o.flags[0].args, argv(&["^0.6"]));
    assert_eq!(o.flags[1].flag, b"-q".to_vec());
    assert_eq!(o.flags[2].flag, b"--force".to_vec());
    assert_eq!(o.log_mode, LogMode::Quiet);
    assert_eq!(o.locked, Some(true));
    assert!(!o.help);
    assert_eq!(o.dst_bin, b"bin".to_vec());
}

#[test]
fn own_options_are_not_passed_through() {
    let o = parse_args(&argv(&["--root", "/r", "--dry-run", "--no-path-warning", "--unlocked", "--target-dir", "t", "--path", "p", "-v"])).unwrap();
    assert_eq!(o.dst_bin, b"/r/bin".to_vec());
    assert!(o.dry_run);
    assert!(!o.path_warning);
    assert_eq!(o.locked, Some(false));
    assert_eq!(o.target_dir, Some(b"t".to_vec()));
    assert_eq!(o.path, Some(b"p".to_vec()));
    assert_eq!(o.log_mode, LogMode::Verbose);
    assert_eq!(o.flags.len(), 1);
    let o = parse_args(&argv(&["--out-bin", "/o"])).unwrap();
    assert_eq!(o.dst_bin, b"/o".to_vec());
}

#[test]
fn separator_takes_the_rest_as_crates() {
    let o = parse_args(&argv(&["a", "--", "--weird", "b"])).unwrap();
    assert_eq!(o.crates, argv(&["a", "--weird", "b"]));
}

#[test]
fn help_stops_parsing() {
    let o = parse_args(&argv(&["--help", "--bogus"])).unwrap();
    assert!(o.help);
}

#[test]
fn refused_and_unknown_flags_fail() {
    assert!(parse_args(&argv(&["--features", "x"])).is_err());
    assert!(parse_args(&argv(&["--offline"])).is_err());
    let e = parse_args(&argv(&["--bogus"])).unwrap_err();
    assert_eq!(e.message(), b"unsupported or unrecognized flag: --bogus");
}

#[test]
fn missing_flag_argument_fails() {
    assert!(parse_args(&argv(&["--root"])).is_err());
    assert!(parse_args(&argv(&["x", "--version"])).is_err());
}

#[test]
fn locked_warning_only_for_named_crates() {
    assert!(needs_locked_warning(&parse_args(&argv(&["x"])).unwrap()));
    assert!(!needs_locked_warning(&parse_args(&argv(&["x", "--locked"])).unwrap()));
    assert!(!needs_locked_warning(&parse_args(&argv(&[])).unwrap()));
}

#[test]
fn usage_starts_with_program_name() {
    let mut out = b"> ".to_vec();
    print_usage(&mut out);
    let text = String::from_utf8(out).unwrap();
    assert!(text.starts_with("> cargo-local-install\nInstall a Rust binary."));
    assert!(text.contains("--dry-run"));
    assert!(text.ends_with("rebuilt from scratch.\n"));
}

#[test]
fn no_crates_and_no_manifest_sets_fail() {
    let o = parse_args(&argv(&[])).unwrap();
    let e = resolve_sets(&o, &Vec::new(), b"/t", None).unwrap_err();
    assert_eq!(e.message(), b"no crates specified");
}

#[test]
fn shared_flags_are_added_to_named_crates() {
    let o = parse_args(&argv(&["a", "b", "--locked", "--force"])).unwrap();
    let sets = resolve_sets(&o, &Vec::new(), b"/t", Some(b"/src")).unwrap();
    assert_eq!(sets.len(), 1);
    assert_eq!(sets[0].bin, b"bin".to_vec());
    assert!(sets[0].src.is_none());
    assert_eq!(sets[0].installs.len(), 2);
    let flags: Vec<Vec<u8>> = sets[0].installs[1].flags.iter().map(|f| f.flag.clone()).collect();
    assert_eq!(flags, argv(&["--force", "--locked", "--target-dir", "--path"]));
    assert_eq!(sets[0].installs[1].flags[2].args, argv(&["/t"]));
    assert!(sets[0].installs[0].is_local());
}
