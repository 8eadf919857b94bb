//! Install requests declared in a manifest, under
//! `[package.metadata.local-install]` and `[workspace.metadata.local-install]`.
//!
//! Each entry maps a crate name either to a version string or to a table with
//! the fields `package`, `locked`, `default_features`, `version`, `registry`,
//! `path`, `git`, `rev` and `branch`.

use vstd::prelude::*;
use crate::Error;
use crate::bytes::{compare_bytes, join_path, path_join, push_all, text, to_bytes};
use crate::request::{FlagView, Install, InstallFlag, InstallSet, InstallView, flag_views, install_views};

verus! {

#[verifier::external_type_specification]
#[verifier::external_body]
pub struct ExTomlValue(toml::Value);

/// A value of a TOML document, as far as manifests are read: strings (as
/// their UTF-8 bytes), booleans and tables; anything else is `Other`.
#[derive(Debug)]
pub enum TomlItem {
    Str(Vec<u8>),
    Bool(bool),
    Table(Vec<(Vec<u8>, TomlItem)>),
    Other,
}

/// The document that a TOML text parses to, or the parser's message.
pub uninterp spec fn toml_document(text: Seq<char>) -> Result<TomlItem, Seq<u8>>;

/// Relies on `toml::from_str`: the parse depends on the text alone.
#[verifier::external_body]
fn parse_toml(text: &str) -> (r: Result<TomlItem, Vec<u8>>)
    ensures
        toml_document(text@) == (match r {
            Ok(t) => Ok::<TomlItem, Seq<u8>>(t),
            Err(e) => Err(e@),
        }),
{
    match toml::from_str::<toml::Value>(text) {
        Ok(v) => Ok(toml_item(v)),
        Err(e) => Err(e.to_string().into_bytes()),
    }
}

/// Relies on the variants of `toml::Value`: copies a parsed value, node for
/// node, keys and strings as bytes.
#[verifier::external_body]
fn toml_item(v: toml::Value) -> TomlItem {
    match v {
        toml::Value::String(s) => TomlItem::Str(s.into_bytes()),
        toml::Value::Boolean(b) => TomlItem::Bool(b),
        toml::Value::Table(t) => TomlItem::Table(
            t.into_iter().map(|(k, c)| (k.into_bytes(), toml_item(c))).collect(),
        ),
        _ => TomlItem::Other,
    }
}

pub open spec fn table_entries(t: Seq<(Vec<u8>, TomlItem)>) -> Seq<(Seq<u8>, TomlItem)> {
    t.map_values(|p: (Vec<u8>, TomlItem)| (p.0@, p.1))
}

/// The value of the first entry named `key`.
pub open spec fn lookup(s: Seq<(Seq<u8>, TomlItem)>, key: Seq<u8>) -> Option<TomlItem>
    decreases s.len(),
{
    if s.len() == 0 {
        None
    } else if s[0].0 == key {
        Some(s[0].1)
    } else {
        lookup(s.drop_first(), key)
    }
}

pub open spec fn has(s: Seq<(Seq<u8>, TomlItem)>, key: &str) -> bool {
    lookup(s, text(key)) is Some
}

pub open spec fn str_field(s: Seq<(Seq<u8>, TomlItem)>, key: &str) -> Seq<u8> {
    match lookup(s, text(key)) {
        Some(TomlItem::Str(v)) => v@,
        _ => seq![],
    }
}

pub open spec fn bool_field(s: Seq<(Seq<u8>, TomlItem)>, key: &str) -> bool {
    match lookup(s, text(key)) {
        Some(TomlItem::Bool(b)) => b,
        _ => true,
    }
}

pub open spec fn string_key(k: Seq<u8>) -> bool {
    ||| k == text("package")
    ||| k == text("version")
    ||| k == text("registry")
    ||| k == text("path")
    ||| k == text("git")
    ||| k == text("rev")
    ||| k == text("branch")
}

pub open spec fn bool_key(k: Seq<u8>) -> bool {
    k == text("locked") || k == text("default_features")
}

/// A known field with a value of its type.
pub open spec fn field_ok(k: Seq<u8>, v: TomlItem) -> bool {
    (string_key(k) && v is Str) || (bool_key(k) && v is Bool)
}

/// Two fields are present that name the source in incompatible ways.
pub open spec fn fields_conflict(s: Seq<(Seq<u8>, TomlItem)>) -> bool {
    let v = has(s, "version");
    let r = has(s, "registry");
    let p = has(s, "path");
    let g = has(s, "git");
    let rv = has(s, "rev");
    let b = has(s, "branch");
    (p && (v || r || g || rv || b)) || ((v || r) && (g || rv || b)) || (rv && b)
}

/// A table entry is valid when its fields are known and typed, do not
/// conflict, and name a source.
pub open spec fn entry_valid(s: Seq<(Seq<u8>, TomlItem)>) -> bool {
    &&& forall|i: int| 0 <= i < s.len() ==> field_ok(#[trigger] s[i].0, s[i].1)
    &&& !fields_conflict(s)
    &&& (has(s, "version") || has(s, "path") || has(s, "git"))
}

/// A version that starts with a digit is a caret requirement.
pub open spec fn fixed_version(v: Seq<u8>) -> Seq<u8> {
    if v.len() > 0 && 0x30u8 <= v[0] <= 0x39u8 {
        seq![0x5eu8] + v
    } else {
        v
    }
}

pub open spec fn flag_of(flag: &str, args: Seq<Seq<u8>>) -> FlagView {
    FlagView { flag: text(flag), args }
}

pub open spec fn source_flags(s: Seq<(Seq<u8>, TomlItem)>, dir: Seq<u8>) -> Seq<FlagView> {
    if has(s, "version") {
        seq![flag_of("--version", seq![fixed_version(str_field(s, "version"))])] + if has(
            s,
            "registry",
        ) {
            seq![flag_of("--registry", seq![str_field(s, "registry")])]
        } else {
            seq![]
        }
    } else if has(s, "path") {
        seq![flag_of("--path", seq![path_join(dir, str_field(s, "path"))])]
    } else {
        seq![flag_of("--git", seq![str_field(s, "git")])] + if has(s, "branch") {
            seq![flag_of("--branch", seq![str_field(s, "branch")])]
        } else if has(s, "rev") {
            seq![flag_of("--rev", seq![str_field(s, "rev")])]
        } else {
            seq![]
        }
    }
}

pub open spec fn option_flags(locked: bool, default_features: bool) -> Seq<FlagView> {
    (if locked {
        seq![flag_of("--locked", seq![])]
    } else {
        seq![]
    }) + (if !default_features {
        seq![flag_of("--no-default-features", seq![])]
    } else {
        seq![]
    })
}

/// The request that the entry `name = item` of a manifest in `dir` declares;
/// `None` if the entry is invalid.
pub open spec fn entry_install(name: Seq<u8>, item: TomlItem, dir: Seq<u8>) -> Option<InstallView> {
    match item {
        TomlItem::Str(v) => Some(
            InstallView {
                name,
                flags: seq![flag_of("--version", seq![fixed_version(v@)])] + option_flags(
                    true,
                    true,
                ),
            },
        ),
        TomlItem::Table(t) => {
            let s = table_entries(t@);
            if entry_valid(s) {
                Some(
                    InstallView {
                        name: if has(s, "package") {
                            str_field(s, "package")
                        } else {
                            name
                        },
                        flags: source_flags(s, dir) + option_flags(
                            bool_field(s, "locked"),
                            bool_field(s, "default_features"),
                        ),
                    },
                )
            } else {
                None
            }
        },
        _ => None,
    }
}

/// The entries of `[<section>.metadata.local-install]`: none where a table on
/// the way is absent, `None` where a value on the way is not a table.
pub open spec fn section_entries(doc: Seq<(Seq<u8>, TomlItem)>, section: &str) -> Option<
    Seq<(Seq<u8>, TomlItem)>,
> {
    match lookup(doc, text(section)) {
        None => Some(seq![]),
        Some(TomlItem::Table(h)) => match lookup(table_entries(h@), text("metadata")) {
            None => Some(seq![]),
            Some(TomlItem::Table(m)) => match lookup(table_entries(m@), text("local-install")) {
                None => Some(seq![]),
                Some(TomlItem::Table(li)) => Some(table_entries(li@)),
                _ => None,
            },
            _ => None,
        },
        _ => None,
    }
}

/// The requests of a list of entries, in order; `None` if one is invalid.
pub open spec fn entries_installs(entries: Seq<(Seq<u8>, TomlItem)>, dir: Seq<u8>) -> Option<
    Seq<InstallView>,
>
    decreases entries.len(),
{
    if entries.len() == 0 {
        Some(seq![])
    } else {
        match (
            entries_installs(entries.drop_last(), dir),
            entry_install(entries.last().0, entries.last().1, dir),
        ) {
            (Some(a), Some(i)) => Some(a.push(i)),
            _ => None,
        }
    }
}

/// The requests of a manifest in `dir`: those of the workspace, then those
/// of the package; `None` if the manifest is invalid.
pub open spec fn manifest_installs(doc: TomlItem, dir: Seq<u8>) -> Option<Seq<InstallView>> {
    match doc {
        TomlItem::Table(t) => {
            let d = table_entries(t@);
            match (section_entries(d, "workspace"), section_entries(d, "package")) {
                (Some(w), Some(p)) => match (entries_installs(w, dir), entries_installs(p, dir)) {
                    (Some(a), Some(b)) => Some(a + b),
                    _ => None,
                },
                _ => None,
            }
        },
        _ => None,
    }
}

/// The sets found in a manifest in `dir` that declares `installs`: none if it
/// declares none, else one set of them all, published to `bin`.
pub open spec fn sets_found(
    sets: Seq<InstallSet>,
    installs: Seq<InstallView>,
    dir: Seq<u8>,
    bin: Seq<u8>,
) -> bool {
    if installs.len() == 0 {
        sets.len() == 0
    } else {
        &&& sets.len() == 1
        &&& install_views(sets[0].installs@) == installs
        &&& sets[0].bin@ == bin
        &&& sets[0].src matches Some(p) && p@ == path_join(dir, text("Cargo.toml"))
    }
}

proof fn lemma_invalid_prefix(entries: Seq<(Seq<u8>, TomlItem)>, dir: Seq<u8>, k: int)
    requires
        0 <= k <= entries.len(),
        entries_installs(entries.subrange(0, k), dir) is None,
    ensures
        entries_installs(entries, dir) is None,
    decreases entries.len(),
{
    if k == entries.len() {
        assert(entries.subrange(0, k) =~= entries);
    } else {
        assert(entries.drop_last().subrange(0, k) =~= entries.subrange(0, k));
        lemma_invalid_prefix(entries.drop_last(), dir, k);
    }
}

fn section_table<'a>(doc: &'a Vec<(Vec<u8>, TomlItem)>, section: &str) -> (r: Result<
    Option<&'a Vec<(Vec<u8>, TomlItem)>>,
    Vec<u8>,
>)
    ensures
        section_entries(table_entries(doc@), section) == (match r {
            Ok(Some(li)) => Some(table_entries(li@)),
            Ok(None) => Some(Seq::<(Seq<u8>, TomlItem)>::empty()),
            Err(_) => None,
        }),
{
    let mut m = to_bytes("`".as_bytes());
    push_all(&mut m, section.as_bytes());
    match find_key(doc, section.as_bytes()) {
        None => Ok(None),
        Some(TomlItem::Table(h)) => match find_key(h, "metadata".as_bytes()) {
            None => Ok(None),
            Some(TomlItem::Table(md)) => match find_key(md, "local-install".as_bytes()) {
                None => Ok(None),
                Some(TomlItem::Table(li)) => Ok(Some(li)),
                _ => {
                    push_all(&mut m, ".metadata.local-install` is not a table".as_bytes());
                    Err(m)
                },
            },
            _ => {
                push_all(&mut m, ".metadata` is not a table".as_bytes());
                Err(m)
            },
        },
        _ => {
            push_all(&mut m, "` is not a table".as_bytes());
            Err(m)
        },
    }
}

fn entries_to_installs(entries: &Vec<(Vec<u8>, TomlItem)>, dir: &[u8], out: &mut Vec<Install>) -> (r:
    Result<(), Vec<u8>>)
    ensures
        r is Ok <==> entries_installs(table_entries(entries@), dir@) is Some,
        r is Ok ==> install_views(final(out)@) == install_views(old(out)@) + entries_installs(
            table_entries(entries@),
            dir@,
        ).unwrap(),
{
    let ghost s = table_entries(entries@);
    let mut i: usize = 0;
    assert(install_views(out@) =~= install_views(old(out)@) + entries_installs(
        s.subrange(0, 0),
        dir@,
    ).unwrap());
    while i < entries.len()
        invariant
            i <= entries@.len(),
            s == table_entries(entries@),
            entries_installs(s.subrange(0, i as int), dir@) is Some,
            install_views(out@) == install_views(old(out)@) + entries_installs(
                s.subrange(0, i as int),
                dir@,
            ).unwrap(),
        decreases entries@.len() - i,
    {
        assert(s[i as int] == (entries@[i as int].0@, entries@[i as int].1));
        assert(s.subrange(0, i + 1).drop_last() =~= s.subrange(0, i as int));
        match entry_to_install(entries[i].0.as_slice(), &entries[i].1, dir) {
            Ok(inst) => {
                let ghost prev = out@;
                out.push(inst);
                assert(install_views(out@) =~= install_views(prev).push(inst@));
            },
            Err(e) => {
                proof {
                    lemma_invalid_prefix(s, dir@, i + 1);
                }
                let mut m = to_bytes("invalid entry `".as_bytes());
                push_all(&mut m, entries[i].0.as_slice());
                push_all(&mut m, "`: ".as_bytes());
                push_all(&mut m, e.as_slice());
                return Err(m);
            },
        }
        i = i + 1;
    }
    assert(s.subrange(0, i as int) =~= s);
    Ok(())
}

/// The install sets declared by the manifest `Cargo.toml` of `dir`, whose
/// text is `manifest_text`: none if it declares no request, else one set,
/// published to `dst_bin` or else to `bin` beside the manifest.
pub fn find_cwd_installs(dir: &[u8], manifest_text: &str, dst_bin: Option<Vec<u8>>) -> (r: Result<
    Vec<InstallSet>,
    Error,
>)
    ensures
        r is Ok <==> (match toml_document(manifest_text@) {
            Ok(doc) => manifest_installs(doc, dir@) is Some,
            Err(_) => false,
        }),
        r matches Ok(sets) ==> (match toml_document(manifest_text@) {
            Ok(doc) => sets_found(
                sets@,
                manifest_installs(doc, dir@).unwrap(),
                dir@,
                match dst_bin {
                    Some(b) => b@,
                    None => path_join(dir@, text("bin")),
                },
            ),
            Err(_) => false,
        }),
{
    let path = join_path(dir, "Cargo.toml".as_bytes());
    let mut m = to_bytes("unable to parse ".as_bytes());
    push_all(&mut m, path.as_slice());
    push_all(&mut m, ": ".as_bytes());
    let doc = match parse_toml(manifest_text) {
        Ok(doc) => doc,
        Err(e) => {
            push_all(&mut m, e.as_slice());
            return Err(Error::new(m, Some(e)));
        },
    };
    let t = match &doc {
        TomlItem::Table(t) => t,
        _ => {
            push_all(&mut m, "the document is not a table".as_bytes());
            return Err(Error::new(m, None));
        },
    };
    let workspace = match section_table(t, "workspace") {
        Ok(w) => w,
        Err(e) => {
            push_all(&mut m, e.as_slice());
            return Err(Error::new(m, None));
        },
    };
    let package = match section_table(t, "package") {
        Ok(p) => p,
        Err(e) => {
            push_all(&mut m, e.as_slice());
            return Err(Error::new(m, None));
        },
    };
    let mut installs: Vec<Install> = Vec::new();
    assert(install_views(installs@) =~= seq![]);
    let ghost d = table_entries(t@);
    if let Some(w) = workspace {
        if let Err(e) = entries_to_installs(w, dir, &mut installs) {
            push_all(&mut m, e.as_slice());
            return Err(Error::new(m, None));
        }
    }
    let ghost after_workspace = install_views(installs@);
    assert(after_workspace =~= entries_installs(section_entries(d, "workspace").unwrap(), dir@).unwrap());
    if let Some(p) = package {
        if let Err(e) = entries_to_installs(p, dir, &mut installs) {
            push_all(&mut m, e.as_slice());
            return Err(Error::new(m, None));
        }
    }
    assert(install_views(installs@) =~= manifest_installs(doc, dir@).unwrap());
    let mut sets: Vec<InstallSet> = Vec::new();
    if installs.len() > 0 {
        let bin = match dst_bin {
            Some(b) => b,
            None => join_path(dir, "bin".as_bytes()),
        };
        sets.push(InstallSet { bin, src: Some(path), installs });
    }
    Ok(sets)
}

fn find_key<'a>(t: &'a Vec<(Vec<u8>, TomlItem)>, key: &[u8]) -> (r: Option<&'a TomlItem>)
    ensures
        lookup(table_entries(t@), key@) == (match r {
            Some(v) => Some(*v),
            None => None::<TomlItem>,
        }),
{
    let ghost s = table_entries(t@);
    assert(s.skip(0) =~= s);
    let mut i: usize = 0;
    while i < t.len()
        invariant
            i <= t@.len(),
            s == table_entries(t@),
            lookup(s, key@) == lookup(s.skip(i as int), key@),
        decreases t@.len() - i,
    {
        assert(s.skip(i as int)[0] == s[i as int]);
        if compare_bytes(t[i].0.as_slice(), key) == 0 {
            return Some(&t[i].1);
        }
        assert(s.skip(i as int).drop_first() =~= s.skip(i + 1));
        i = i + 1;
    }
    None
}

fn key_is(k: &[u8], lit: &str) -> (r: bool)
    ensures
        r == (k@ == text(lit)),
{
    compare_bytes(k, lit.as_bytes()) == 0
}

fn field_is_ok(k: &[u8], v: &TomlItem) -> (r: bool)
    ensures
        r == field_ok(k@, *v),
{
    let string_key = key_is(k, "package") || key_is(k, "version") || key_is(k, "registry")
        || key_is(k, "path") || key_is(k, "git") || key_is(k, "rev") || key_is(k, "branch");
    let bool_key = key_is(k, "locked") || key_is(k, "default_features");
    match v {
        TomlItem::Str(_) => string_key,
        TomlItem::Bool(_) => bool_key,
        _ => false,
    }
}

fn str_value(v: Option<&TomlItem>) -> (r: Vec<u8>)
    ensures
        r@ == (match v {
            Some(TomlItem::Str(s)) => s@,
            _ => seq![],
        }),
{
    match v {
        Some(TomlItem::Str(s)) => to_bytes(s.as_slice()),
        _ => Vec::new(),
    }
}

fn bool_value(v: Option<&TomlItem>) -> (r: bool)
    ensures
        r == (match v {
            Some(TomlItem::Bool(b)) => *b,
            _ => true,
        }),
{
    match v {
        Some(TomlItem::Bool(b)) => *b,
        _ => true,
    }
}

/// Makes a version that starts with a digit a caret requirement.
pub fn fix_version(v: &[u8]) -> (r: Vec<u8>)
    ensures
        r@ == fixed_version(v@),
{
    if v.len() > 0 && 0x30u8 <= v[0] && v[0] <= 0x39u8 {
        let mut r: Vec<u8> = Vec::new();
        r.push(0x5eu8);
        push_all(&mut r, v);
        r
    } else {
        to_bytes(v)
    }
}

fn push_flag(flags: &mut Vec<InstallFlag>, flag: &str, arg: Option<Vec<u8>>)
    ensures
        flag_views(final(flags)@) == flag_views(old(flags)@).push(
            flag_of(
                flag,
                match arg {
                    Some(a) => seq![a@],
                    None => seq![],
                },
            ),
        ),
{
    let mut args: Vec<Vec<u8>> = Vec::new();
    match arg {
        Some(a) => args.push(a),
        None => {},
    }
    let f = InstallFlag::new(to_bytes(flag.as_bytes()), args);
    assert(f@.args =~= match arg {
        Some(a) => seq![a@],
        None => seq![],
    });
    flags.push(f);
    assert(flag_views(flags@) =~= flag_views(old(flags)@).push(f@));
}

fn push_option_flags(flags: &mut Vec<InstallFlag>, locked: bool, default_features: bool)
    ensures
        flag_views(final(flags)@) == flag_views(old(flags)@) + option_flags(
            locked,
            default_features,
        ),
{
    if locked {
        push_flag(flags, "--locked", None);
    }
    if !default_features {
        push_flag(flags, "--no-default-features", None);
    }
    assert(flag_views(flags@) =~= flag_views(old(flags)@) + option_flags(locked, default_features));
}

/// The request that the entry `name = item` of a manifest in `dir` declares,
/// or a message saying why the entry is invalid.
pub fn entry_to_install(name: &[u8], item: &TomlItem, dir: &[u8]) -> (r: Result<Install, Vec<u8>>)
    ensures
        r is Ok <==> entry_install(name@, *item, dir@) is Some,
        r matches Ok(i) ==> entry_install(name@, *item, dir@) == Some(i@),
{
    match item {
        TomlItem::Str(v) => {
            let mut flags: Vec<InstallFlag> = Vec::new();
            assert(flag_views(flags@) =~= seq![]);
            push_flag(&mut flags, "--version", Some(fix_version(v.as_slice())));
            push_option_flags(&mut flags, true, true);
            let i = Install { name: to_bytes(name), flags };
            assert(i@.flags =~= seq![flag_of("--version", seq![fixed_version(v@)])] + option_flags(
                true,
                true,
            ));
            assert(i@ == entry_install(name@, *item, dir@).unwrap());
            Ok(i)
        },
        TomlItem::Table(t) => {
            let ghost s = table_entries(t@);
            let mut k: usize = 0;
            while k < t.len()
                invariant
                    k <= t@.len(),
                    s == table_entries(t@),
                    *item == TomlItem::Table(*t),
                    forall|j: int| 0 <= j < k ==> field_ok(#[trigger] s[j].0, s[j].1),
                decreases t@.len() - k,
            {
                assert(s[k as int] == (t@[k as int].0@, t@[k as int].1));
                if !field_is_ok(t[k].0.as_slice(), &t[k].1) {
                    let mut m = to_bytes("unknown field, or a field of the wrong type: `".as_bytes());
                    push_all(&mut m, t[k].0.as_slice());
                    push_all(&mut m, "`".as_bytes());
                    assert(!field_ok(s[k as int].0, s[k as int].1));
                    assert(!entry_valid(s));
                    assert(entry_install(name@, *item, dir@) is None);
                    return Err(m);
                }
                k = k + 1;
            }
            let package = find_key(t, "package".as_bytes());
            let locked = find_key(t, "locked".as_bytes());
            let default_features = find_key(t, "default_features".as_bytes());
            let version = find_key(t, "version".as_bytes());
            let registry = find_key(t, "registry".as_bytes());
            let path = find_key(t, "path".as_bytes());
            let git = find_key(t, "git".as_bytes());
            let rev = find_key(t, "rev".as_bytes());
            let branch = find_key(t, "branch".as_bytes());
            let v = version.is_some();
            let rg = registry.is_some();
            let p = path.is_some();
            let g = git.is_some();
            let rv = rev.is_some();
            let b = branch.is_some();
            if (p && (v || rg || g || rv || b)) || ((v || rg) && (g || rv || b)) || (rv && b) {
                return Err(to_bytes("conflicting source fields".as_bytes()));
            }
            if !(v || p || g) {
                return Err(to_bytes("expected `version`, `path`, or `git`".as_bytes()));
            }
            let mut flags: Vec<InstallFlag> = Vec::new();
            assert(flag_views(flags@) =~= seq![]);
            if v {
                push_flag(&mut flags, "--version", Some(fix_version(str_value(version).as_slice())));
                if rg {
                    push_flag(&mut flags, "--registry", Some(str_value(registry)));
                }
            } else if p {
                push_flag(&mut flags, "--path", Some(join_path(dir, str_value(path).as_slice())));
            } else {
                push_flag(&mut flags, "--git", Some(str_value(git)));
                if b {
                    push_flag(&mut flags, "--branch", Some(str_value(branch)));
                } else if rv {
                    push_flag(&mut flags, "--rev", Some(str_value(rev)));
                }
            }
            let ghost source = flag_views(flags@);
            assert(source =~= source_flags(s, dir@));
            push_option_flags(&mut flags, bool_value(locked), bool_value(default_features));
            let crate_name = if package.is_some() {
                str_value(package)
            } else {
                to_bytes(name)
            };
            let i = Install { name: crate_name, flags };
            assert(i@ == entry_install(name@, *item, dir@).unwrap());
            Ok(i)
        },
        _ => Err(to_bytes("expected a version string or an installation table".as_bytes())),
    }
}

} // verus!
