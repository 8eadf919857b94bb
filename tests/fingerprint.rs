use cargo_local_install::{Install, InstallFlag};

fn b(s: &str) -> Vec<u8> {
    s.as_bytes().to_vec()
}

fn flag(name: &str, args: &[&str]) -> InstallFlag {
    InstallFlag::new(b(name), args.iter().map(|a| b(a)).collect())
}

fn request(name: &str, flags: Vec<InstallFlag>) -> Install {
    Install { name: b(name), flags }
}

#[test]
fn fingerprint_ignores_flag_order_and_repeats() {
    let a = request("cargo-web", vec![flag("--version", &["^0.6"]), flag("--locked", &[]), flag("--target-dir", &["/t"])]);
    let c = request("cargo-web", vec![flag("--target-dir", &["/t"]), flag("--locked", &[]), flag("--version", &["^0.6"]), flag("--locked", &[])]);
    assert_eq!(a.fingerprint(), c.fingerprint());
}

#[test]
fn fingerprint_is_sixteen_lowercase_hex_digits() {
    let a = request("cargo-web", vec![flag("--version", &["^0.6"])]);
    let f = a.fingerprint();
    assert_eq!(f.len(), 16);
    assert!(f.iter().all(|c| c.is_ascii_digit() || (b'a'..=b'f').contains(c)));
}

#[test]
fn fingerprint_matches_siphash_of_trace() {
    #[allow(deprecated)]
    let mut h = std::hash::SipHasher::new();
    std::hash::Hasher::write(&mut h, b"cargo install --version \"^0.6\" -- cargo-web");
    let expected = format!("{:016x}", std::hash::Hasher::finish(&h));
    let a = request("cargo-web", vec![flag("--version", &["^0.6"])]);
    assert_eq!(String::from_utf8(a.fingerprint()).unwrap(), expected);
}

#[test]
fn fingerprint_differs_by_name_and_flag_value() {
    let a = request("cargo-web", vec![flag("--version", &["^0.6"])]);
    let n = request("cargo-wasm", vec![flag("--version", &["^0.6"])]);
    let v = request("cargo-web", vec![flag("--version", &["^0.5"])]);
    assert_ne!(a.fingerprint(), n.fingerprint());
    assert_ne!(a.fingerprint(), v.fingerprint());
}

#[test]
fn command_puts_cache_entry_and_color_before_name() {
    let a = request("tool", vec![flag("--version", &["1.0"]), flag("--force", &[])]);
    let hash = String::from_utf8(a.fingerprint()).unwrap();
    let cmd = a.command(b"/cache/crates");
    let args: Vec<String> = cmd.args.iter().map(|x| String::from_utf8(x.clone()).unwrap()).collect();
    let dir = format!("/cache/crates/{}", hash);
    assert_eq!(args, vec!["install", "--force", "--version", "1.0", "--root", dir.as_str(), "--color", "always", "--", "tool"]);
    assert_eq!(String::from_utf8(cmd.build_dir.clone()).unwrap(), dir);
    assert_eq!(String::from_utf8(cmd.bin_dir.clone()).unwrap(), format!("{}/bin", dir));
    assert_eq!(
        String::from_utf8(cmd.trace.clone()).unwrap(),
        format!("cargo install --force --version \"1.0\" --root \"{}\" --color always -- tool", dir)
    );
}

#[test]
fn trace_escapes_quotes_and_backslashes() {
    let a = request("x", vec![flag("--git", &["a\"b\\c"])]);
    let cmd = a.command(b"/c");
    let trace = String::from_utf8(cmd.trace).unwrap();
    assert!(trace.starts_with("cargo install --git \"a\\\"b\\\\c\" --root "));
}

#[test]
fn is_local_follows_path_flag() {
    let local = request("x", vec![flag("--path", &["/src/x"])]);
    let remote = request("y", vec![flag("--git", &["https://example.com/y"])]);
    assert!(local.is_local());
    assert!(!local.is_remote());
    assert!(remote.is_remote());
}
