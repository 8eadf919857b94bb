use cargo_local_install::find_cwd_installs;
use cargo_local_install::manifest::fix_version;

fn b(s: &str) -> Vec<u8> {
    s.as_bytes().to_vec()
}

fn flags_of(set: &cargo_local_install::InstallSet, k: usize) -> Vec<(String, Vec<String>)> {
    set.installs[k]
        .flags
        .iter()
        .map(|f| {
            (
                String::from_utf8(f.flag.clone()).unwrap(),
                f.args.iter().map(|a| String::from_utf8(a.clone()).unwrap()).collect(),
            )
        })
        .collect()
}

fn pair(f: &str, args: &[&str]) -> (String, Vec<String>) {
    (f.to_string(), args.iter().map(|a| a.to_string()).collect())
}

#[test]
fn version_starting_with_digit_gets_caret() {
    assert_eq!(fix_version(b"0.6"), b("^0.6"));
    assert_eq!(fix_version(b"=0.6.1"), b("=0.6.1"));
    assert_eq!(fix_version(b""), b(""));
}

#[test]
fn manifest_without_installs_gives_no_set() {
    let sets = find_cwd_installs(b"/proj", "[package]\nname = \"x\"\n", None).unwrap();
    assert!(sets.is_empty());
}

#[test]
fn version_strings_and_tables_become_requests() {
    let text = "[package.metadata.local-install]\n\
                cargo-web = \"0.6\"\n\
                wasm-pack = { version = \"=0.9\", registry = \"r\", locked = false }\n\
                mine = { path = \"tools/mine\", default_features = false }\n\
                gitty = { git = \"https://g/x\", branch = \"dev\", package = \"real\" }\n";
    let sets = find_cwd_installs(b"/proj", text, None).unwrap();
    assert_eq!(sets.len(), 1);
    let s = &sets[0];
    assert_eq!(s.bin, b("/proj/bin"));
    assert_eq!(s.src, Some(b("/proj/Cargo.toml")));
    let names: Vec<Vec<u8>> = s.installs.iter().map(|i| i.name.clone()).collect();
    assert_eq!(names, vec![b("cargo-web"), b("real"), b("mine"), b("wasm-pack")]);
    assert_eq!(flags_of(s, 0), vec![pair("--version", &["^0.6"]), pair("--locked", &[])]);
    assert_eq!(flags_of(s, 1), vec![pair("--git", &["https://g/x"]), pair("--branch", &["dev"]), pair("--locked", &[])]);
    assert_eq!(flags_of(s, 2), vec![pair("--path", &["/proj/tools/mine"]), pair("--locked", &[]), pair("--no-default-features", &[])]);
    assert_eq!(flags_of(s, 3), vec![pair("--version", &["=0.9"]), pair("--registry", &["r"])]);
    assert!(s.installs[2].is_local());
}

#[test]
fn workspace_entries_come_before_package_entries() {
    let text = "[package.metadata.local-install]\nb = \"1\"\n[workspace.metadata.local-install]\na = \"2\"\n";
    let sets = find_cwd_installs(b"/p", text, Some(b("/out"))).unwrap();
    assert_eq!(sets[0].bin, b("/out"));
    assert_eq!(sets[0].installs[0].name, b("a"));
    assert_eq!(sets[0].installs[1].name, b("b"));
}

#[test]
fn git_rev_is_used_without_branch() {
    let text = "[package.metadata.local-install]\nx = { git = \"u\", rev = \"abc\" }\n";
    let sets = find_cwd_installs(b"/p", text, None).unwrap();
    assert_eq!(flags_of(&sets[0], 0), vec![pair("--git", &["u"]), pair("--rev", &["abc"]), pair("--locked", &[])]);
}

#[test]
fn conflicting_fields_are_rejected() {
    let text = "[package.metadata.local-install]\nx = { version = \"1\", path = \"p\" }\n";
    assert!(find_cwd_installs(b"/p", text, None).is_err());
    let text = "[package.metadata.local-install]\nx = { git = \"u\", rev = \"a\", branch = \"b\" }\n";
    assert!(find_cwd_installs(b"/p", text, None).is_err());
}

#[test]
fn unknown_or_mistyped_fields_are_rejected() {
    let text = "[package.metadata.local-install]\nx = { version = \"1\", colour = \"red\" }\n";
    let e = find_cwd_installs(b"/p", text, None).unwrap_err();
    assert!(String::from_utf8_lossy(e.message()).contains("colour"));
    let text = "[package.metadata.local-install]\nx = { version = 1 }\n";
    assert!(find_cwd_installs(b"/p", text, None).is_err());
    let text = "[package.metadata.local-install]\nx = 3\n";
    assert!(find_cwd_installs(b"/p", text, None).is_err());
}

#[test]
fn entry_without_source_is_rejected() {
    let text = "[package.metadata.local-install]\nx = { locked = true }\n";
    assert!(find_cwd_installs(b"/p", text, None).is_err());
}

#[test]
fn metadata_that_is_not_a_table_is_rejected() {
    let text = "[package]\nmetadata = 5\n";
    assert!(find_cwd_installs(b"/p", text, None).is_err());
}

#[test]
fn invalid_toml_is_rejected_with_path() {
    let e = find_cwd_installs(b"/p", "[package\n", None).unwrap_err();
    assert!(String::from_utf8_lossy(e.message()).starts_with("unable to parse /p/Cargo.toml: "));
}
