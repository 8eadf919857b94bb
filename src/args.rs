//! The command line: options of this tool, flags handed through to
//! `cargo install`, and crate names.

use vstd::prelude::*;
use crate::Error;
use crate::bytes::{compare_bytes, join_path, opt_bytes, path_join, push_all, text, to_bytes};
use crate::request::{FlagView, InstallFlag, byte_strings, flag_views};

verus! {

/// How much is reported.
#[derive(PartialEq, Eq, Structural, Clone, Copy, Debug)]
pub enum LogMode {
    Quiet,
    Normal,
    Verbose,
}

/// What an argument is.
#[derive(PartialEq, Eq, Structural, Clone, Copy, Debug)]
pub enum ArgKind {
    Help,
    Locked,
    Unlocked,
    Root,
    OutBin,
    TargetDir,
    PathDir,
    DryRun,
    NoPathWarning,
    Quiet,
    Verbose,
    /// A flag handed through without an argument.
    Bare,
    /// A flag handed through with one argument.
    WithArg,
    /// `--`: crate names follow.
    Separator,
    /// A flag this tool does not take.
    Refused,
    /// A crate name.
    Crate,
}

pub open spec fn is_one_of(a: Seq<u8>, names: Seq<&str>) -> bool {
    exists|k: int| 0 <= k < names.len() && a == text(#[trigger] names[k])
}

/// Flags handed through to `cargo install` without an argument.
pub open spec fn bare_flags() -> Seq<&'static str> {
    seq!["-j", "--jobs", "-f", "--force", "--all-features", "--no-default-features", "--debug", "--bins", "--examples"]
}

/// Flags handed through to `cargo install` with one argument.
pub open spec fn flags_with_arg() -> Seq<&'static str> {
    seq!["--version", "--git", "--branch", "--tag", "--rev", "--profile", "--target", "--index", "--registry", "--color"]
}

/// Flags of `cargo install` that this tool does not take.
pub open spec fn refused_flags() -> Seq<&'static str> {
    seq!["--list", "--no-track", "-Z", "--frozen", "--offline", "--features", "--bin", "--example"]
}

pub open spec fn arg_kind(a: Seq<u8>) -> ArgKind {
    if a == text("--help") {
        ArgKind::Help
    } else if a == text("--locked") {
        ArgKind::Locked
    } else if a == text("--unlocked") {
        ArgKind::Unlocked
    } else if a == text("--root") {
        ArgKind::Root
    } else if a == text("--out-bin") {
        ArgKind::OutBin
    } else if a == text("--target-dir") {
        ArgKind::TargetDir
    } else if a == text("--path") {
        ArgKind::PathDir
    } else if a == text("--dry-run") {
        ArgKind::DryRun
    } else if a == text("--no-path-warning") {
        ArgKind::NoPathWarning
    } else if a == text("-q") || a == text("--quiet") {
        ArgKind::Quiet
    } else if a == text("-v") || a == text("--verbose") {
        ArgKind::Verbose
    } else if is_one_of(a, bare_flags()) {
        ArgKind::Bare
    } else if is_one_of(a, flags_with_arg()) {
        ArgKind::WithArg
    } else if a == text("--") {
        ArgKind::Separator
    } else if is_one_of(a, refused_flags()) || (a.len() > 0 && a[0] == 0x2du8) {
        ArgKind::Refused
    } else {
        ArgKind::Crate
    }
}

fn is_lit(a: &[u8], lit: &str) -> (r: bool)
    ensures
        r == (a@ == text(lit)),
{
    compare_bytes(a, lit.as_bytes()) == 0
}

fn is_in(a: &[u8], names: &Vec<&'static str>) -> (r: bool)
    ensures
        r == is_one_of(a@, names@),
{
    let mut k: usize = 0;
    while k < names.len()
        invariant
            k <= names@.len(),
            forall|m: int| 0 <= m < k ==> a@ != text(#[trigger] names@[m]),
        decreases names@.len() - k,
    {
        if is_lit(a, names[k]) {
            return true;
        }
        k = k + 1;
    }
    false
}

pub fn classify(a: &[u8]) -> (r: ArgKind)
    ensures
        r == arg_kind(a@),
{
    let bare: Vec<&'static str> = vec!["-j", "--jobs", "-f", "--force", "--all-features", "--no-default-features", "--debug", "--bins", "--examples"];
    assert(bare@ == bare_flags());
    let with_arg: Vec<&'static str> = vec!["--version", "--git", "--branch", "--tag", "--rev", "--profile", "--target", "--index", "--registry", "--color"];
    assert(with_arg@ == flags_with_arg());
    let refused: Vec<&'static str> = vec!["--list", "--no-track", "-Z", "--frozen", "--offline", "--features", "--bin", "--example"];
    assert(refused@ == refused_flags());
    if is_lit(a, "--help") {
        ArgKind::Help
    } else if is_lit(a, "--locked") {
        ArgKind::Locked
    } else if is_lit(a, "--unlocked") {
        ArgKind::Unlocked
    } else if is_lit(a, "--root") {
        ArgKind::Root
    } else if is_lit(a, "--out-bin") {
        ArgKind::OutBin
    } else if is_lit(a, "--target-dir") {
        ArgKind::TargetDir
    } else if is_lit(a, "--path") {
        ArgKind::PathDir
    } else if is_lit(a, "--dry-run") {
        ArgKind::DryRun
    } else if is_lit(a, "--no-path-warning") {
        ArgKind::NoPathWarning
    } else if is_lit(a, "-q") || is_lit(a, "--quiet") {
        ArgKind::Quiet
    } else if is_lit(a, "-v") || is_lit(a, "--verbose") {
        ArgKind::Verbose
    } else if is_in(a, &bare) {
        ArgKind::Bare
    } else if is_in(a, &with_arg) {
        ArgKind::WithArg
    } else if is_lit(a, "--") {
        ArgKind::Separator
    } else if is_in(a, &refused) || (a.len() > 0 && a[0] == 0x2du8) {
        ArgKind::Refused
    } else {
        ArgKind::Crate
    }
}

/// The parsed command line.
#[derive(Debug)]
pub struct Options {
    /// `--help` was asked for; parsing stopped there.
    pub help: bool,
    pub dry_run: bool,
    pub path_warning: bool,
    pub log_mode: LogMode,
    /// `--locked` or `--unlocked`, the last one given.
    pub locked: Option<bool>,
    /// Where binaries are published.
    pub dst_bin: Vec<u8>,
    /// `--target-dir`, as given.
    pub target_dir: Option<Vec<u8>>,
    /// `--path`, as given.
    pub path: Option<Vec<u8>>,
    /// Flags handed through, in the order given.
    pub flags: Vec<InstallFlag>,
    /// Crate names, in the order given.
    pub crates: Vec<Vec<u8>>,
}

pub struct OptionsView {
    pub help: bool,
    pub dry_run: bool,
    pub path_warning: bool,
    pub log_mode: LogMode,
    pub locked: Option<bool>,
    pub dst_bin: Seq<u8>,
    pub target_dir: Option<Seq<u8>>,
    pub path: Option<Seq<u8>>,
    pub flags: Seq<FlagView>,
    pub crates: Seq<Seq<u8>>,
}

impl View for Options {
    type V = OptionsView;

    open spec fn view(&self) -> OptionsView {
        OptionsView {
            help: self.help,
            dry_run: self.dry_run,
            path_warning: self.path_warning,
            log_mode: self.log_mode,
            locked: self.locked,
            dst_bin: self.dst_bin@,
            target_dir: opt_bytes(self.target_dir),
            path: opt_bytes(self.path),
            flags: flag_views(self.flags@),
            crates: byte_strings(self.crates@),
        }
    }
}

/// The options before any argument: publish to `bin`, report normally.
pub open spec fn initial_options() -> OptionsView {
    OptionsView {
        help: false,
        dry_run: false,
        path_warning: true,
        log_mode: LogMode::Normal,
        locked: None,
        dst_bin: text("bin"),
        target_dir: None,
        path: None,
        flags: seq![],
        crates: seq![],
    }
}

/// Parses `args` from position `i` on, with `st` read so far; `None` when an
/// argument is refused or a flag lacks its argument.
pub open spec fn parse_from(st: OptionsView, args: Seq<Seq<u8>>, i: int) -> Option<OptionsView>
    decreases args.len() - i,
{
    if i < 0 || i >= args.len() {
        Some(st)
    } else {
        let a = args[i];
        let has_next = i + 1 < args.len();
        match arg_kind(a) {
            ArgKind::Help => Some(OptionsView { help: true, ..st }),
            ArgKind::Locked => parse_from(OptionsView { locked: Some(true), ..st }, args, i + 1),
            ArgKind::Unlocked => parse_from(OptionsView { locked: Some(false), ..st }, args, i + 1),
            ArgKind::Root => if has_next {
                parse_from(
                    OptionsView { dst_bin: path_join(args[i + 1], text("bin")), ..st },
                    args,
                    i + 2,
                )
            } else {
                None
            },
            ArgKind::OutBin => if has_next {
                parse_from(OptionsView { dst_bin: args[i + 1], ..st }, args, i + 2)
            } else {
                None
            },
            ArgKind::TargetDir => if has_next {
                parse_from(OptionsView { target_dir: Some(args[i + 1]), ..st }, args, i + 2)
            } else {
                None
            },
            ArgKind::PathDir => if has_next {
                parse_from(OptionsView { path: Some(args[i + 1]), ..st }, args, i + 2)
            } else {
                None
            },
            ArgKind::DryRun => parse_from(OptionsView { dry_run: true, ..st }, args, i + 1),
            ArgKind::NoPathWarning => parse_from(
                OptionsView { path_warning: false, ..st },
                args,
                i + 1,
            ),
            ArgKind::Quiet => parse_from(
                OptionsView {
                    log_mode: LogMode::Quiet,
                    flags: st.flags.push(FlagView { flag: a, args: seq![] }),
                    ..st
                },
                args,
                i + 1,
            ),
            ArgKind::Verbose => parse_from(
                OptionsView {
                    log_mode: LogMode::Verbose,
                    flags: st.flags.push(FlagView { flag: a, args: seq![] }),
                    ..st
                },
                args,
                i + 1,
            ),
            ArgKind::Bare => parse_from(
                OptionsView { flags: st.flags.push(FlagView { flag: a, args: seq![] }), ..st },
                args,
                i + 1,
            ),
            ArgKind::WithArg => if has_next {
                parse_from(
                    OptionsView {
                        flags: st.flags.push(FlagView { flag: a, args: seq![args[i + 1]] }),
                        ..st
                    },
                    args,
                    i + 2,
                )
            } else {
                None
            },
            ArgKind::Separator => Some(
                OptionsView { crates: st.crates + args.subrange(i + 1, args.len() as int), ..st },
            ),
            ArgKind::Refused => None,
            ArgKind::Crate => parse_from(
                OptionsView { crates: st.crates.push(a), ..st },
                args,
                i + 1,
            ),
        }
    }
}

fn refusal(prefix: &str, a: &[u8]) -> (r: Error) {
    let mut m = to_bytes(prefix.as_bytes());
    push_all(&mut m, a);
    Error::new(m, None)
}

/// The help text.
pub const USAGE: &'static str = "cargo-local-install\nInstall a Rust binary. Default installation location is ./bin\n\nUSAGE:\n    cargo local-install [OPTIONS] [--] [crate]...\n    cargo-local-install [OPTIONS] [--] [crate]...\n\nOPTIONS:\n    -q, --quiet                                      No output printed to stdout\n        --version <VERSION>                          Specify a version to install\n        --git <URL>                                  Git URL to install the specified crate from\n        --tag <TAG>                                  Tag to use when installing from git\n        --rev <SHA>                                  Specific commit to use when installing from git\n        --path <PATH>                                Filesystem path to local crate to install\n    -j, --jobs <N>                                   Number of parallel jobs, defaults to # of CPUs\n    -f, --force                                      Force overwriting existing crates or binaries\n        --all-features                               Activate all available features\n        --no-default-features                        Do not activate the `default` feature\n        --profile <PROFILE-NAME>                     Install artifacts with the specified profile\n        --debug                                      Build in debug mode instead of release mode\n        --bins                                       Install all binaries\n        --examples                                   Install all examples\n        --target <TRIPLE>                            Build for the target triple\n        --target-dir <DIRECTORY>                     Directory for all generated artifacts\n        --root <DIR>                                 Install package bins into <DIR>/bin\n        --out-bin <DIR>                              Install package bins into <DIR>\n        --index <INDEX>                              Registry index to install from\n        --registry <REGISTRY>                        Registry to use\n    -v, --verbose                                    Use verbose output (-vv very verbose/build.rs output)\n        --color <WHEN>                               Coloring: auto, always, never\n        --locked                                     Require Cargo.lock is up to date\n        --unlocked                                   Don't require an up-to-date Cargo.lock\n        --dry-run                                    Print `cargo install ...` spam but don't actually install\n        --no-path-warning                            Don't remind the user to add `bin` to their PATH\n\nARGS:\n    <crate>...\n\nThis command wraps `cargo install` to solve a couple of problems with using\nthe basic command directly:\n\n* The global `~/.cargo/bin` directory can contain only a single installed\n  version of a package at a time - if you've got one project relying on\n  `cargo web 0.5` and another project relying on `cargo web 0.6`, you're SOL.\n\n* Forcing local installs with `--root my/project` to avoid global version\n  conflicts means you must rebuild the entire dependency for each project,\n  even when you use the exact same version for 100 other projects before.\n\n* When building similar binaries, the lack of target directory caching means\n  the entire dependency tree must still be rebuilt from scratch.\n";

/// Appends the help text to `o`.
pub fn print_usage(o: &mut Vec<u8>)
    ensures
        final(o)@ == old(o)@ + text(USAGE),
{
    push_all(o, USAGE.as_bytes());
}

/// Parses the arguments that follow the subcommand.
pub fn parse_args(args: &Vec<Vec<u8>>) -> (r: Result<Options, Error>)
    ensures
        r is Ok <==> parse_from(initial_options(), byte_strings(args@), 0) is Some,
        r matches Ok(o) ==> parse_from(initial_options(), byte_strings(args@), 0) == Some(o@),
{
    let ghost av = byte_strings(args@);
    let mut o = Options {
        help: false,
        dry_run: false,
        path_warning: true,
        log_mode: LogMode::Normal,
        locked: None,
        dst_bin: to_bytes("bin".as_bytes()),
        target_dir: None,
        path: None,
        flags: Vec::new(),
        crates: Vec::new(),
    };
    assert(flag_views(o.flags@) =~= seq![]);
    assert(byte_strings(o.crates@) =~= seq![]);
    assert(o@ == initial_options());
    let mut i: usize = 0;
    while i < args.len()
        invariant
            i <= args@.len(),
            av == byte_strings(args@),
            parse_from(o@, av, i as int) == parse_from(initial_options(), av, 0),
        decreases args@.len() - i,
    {
        let a = args[i].as_slice();
        assert(av[i as int] == a@);
        let has_next = i + 1 < args.len();
        let kind = classify(a);
        match kind {
            ArgKind::Help => {
                o.help = true;
                return Ok(o);
            },
            ArgKind::Locked => {
                o.locked = Some(true);
                i = i + 1;
            },
            ArgKind::Unlocked => {
                o.locked = Some(false);
                i = i + 1;
            },
            ArgKind::DryRun => {
                o.dry_run = true;
                i = i + 1;
            },
            ArgKind::NoPathWarning => {
                o.path_warning = false;
                i = i + 1;
            },
            ArgKind::Root | ArgKind::OutBin | ArgKind::TargetDir | ArgKind::PathDir
            | ArgKind::WithArg => {
                if !has_next {
                    return Err(refusal("a directory or value must follow ", a));
                }
                let next = args[i + 1].as_slice();
                assert(av[i + 1] == next@);
                match kind {
                    ArgKind::Root => {
                        o.dst_bin = join_path(next, "bin".as_bytes());
                    },
                    ArgKind::OutBin => {
                        o.dst_bin = to_bytes(next);
                    },
                    ArgKind::TargetDir => {
                        o.target_dir = Some(to_bytes(next));
                    },
                    ArgKind::PathDir => {
                        o.path = Some(to_bytes(next));
                    },
                    _ => {
                        let mut fargs: Vec<Vec<u8>> = Vec::new();
                        fargs.push(to_bytes(next));
                        let f = InstallFlag::new(to_bytes(a), fargs);
                        assert(f@.args =~= seq![next@]);
                        let ghost prev = o.flags@;
                        o.flags.push(f);
                        assert(flag_views(o.flags@) =~= flag_views(prev).push(f@));
                    },
                }
                i = i + 2;
            },
            ArgKind::Quiet | ArgKind::Verbose | ArgKind::Bare => {
                if kind == ArgKind::Quiet {
                    o.log_mode = LogMode::Quiet;
                } else if kind == ArgKind::Verbose {
                    o.log_mode = LogMode::Verbose;
                }
                let f = InstallFlag::new(to_bytes(a), Vec::new());
                assert(f@.args =~= seq![]);
                let ghost prev = o.flags@;
                o.flags.push(f);
                assert(flag_views(o.flags@) =~= flag_views(prev).push(f@));
                i = i + 1;
            },
            ArgKind::Separator => {
                let ghost prev = o@;
                let mut k: usize = i + 1;
                while k < args.len()
                    invariant
                        i < k <= args@.len(),
                        av == byte_strings(args@),
                        byte_strings(o.crates@) == prev.crates + av.subrange(i + 1, k as int),
                        o@ == (OptionsView { crates: byte_strings(o.crates@), ..prev }),
                    decreases args@.len() - k,
                {
                    let ghost before = o.crates@;
                    o.crates.push(to_bytes(args[k].as_slice()));
                    assert(byte_strings(o.crates@) =~= byte_strings(before).push(av[k as int]));
                    assert(av.subrange(i + 1, k + 1) =~= av.subrange(i + 1, k as int).push(
                        av[k as int],
                    ));
                    k = k + 1;
                }
                assert(o@ =~= OptionsView {
                    crates: prev.crates + av.subrange(i + 1, av.len() as int),
                    ..prev
                });
                return Ok(o);
            },
            ArgKind::Refused => {
                return Err(refusal("unsupported or unrecognized flag: ", a));
            },
            ArgKind::Crate => {
                let ghost prev = o.crates@;
                o.crates.push(to_bytes(a));
                assert(byte_strings(o.crates@) =~= byte_strings(prev).push(a@));
                i = i + 1;
            },
        }
    }
    Ok(o)
}

} // verus!
