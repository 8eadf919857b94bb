//! From parsed options to the install sets that are run: the sets named on
//! the command line or found in a manifest, with the flags that every request
//! shares, and the cache locations under the home directory.

use vstd::prelude::*;
use crate::Error;
use crate::args::Options;
use crate::bytes::{join_path, opt_bytes, path_join, text, to_bytes};
use crate::request::{
    FlagView, Install, InstallFlag, InstallSet, InstallView, byte_strings, flag_views,
    install_views,
};

verus! {

/// The directory this tool keeps its state in: `<home>/.cargo/local-install`.
pub open spec fn global_dir_of(home: Seq<u8>) -> Seq<u8> {
    path_join(path_join(home, text(".cargo")), text("local-install"))
}

/// Where cache entries live: `crates` in the global directory.
pub fn crates_cache_root(home: &[u8]) -> (r: Vec<u8>)
    ensures
        r@ == path_join(global_dir_of(home@), text("crates")),
{
    let cargo = join_path(home, ".cargo".as_bytes());
    let global = join_path(cargo.as_slice(), "local-install".as_bytes());
    join_path(global.as_slice(), "crates".as_bytes())
}

/// The target directory shared by all builds unless one is given: `target`
/// in the global directory.
pub fn default_target_dir(home: &[u8]) -> (r: Vec<u8>)
    ensures
        r@ == path_join(global_dir_of(home@), text("target")),
{
    let cargo = join_path(home, ".cargo".as_bytes());
    let global = join_path(cargo.as_slice(), "local-install".as_bytes());
    join_path(global.as_slice(), "target".as_bytes())
}

/// The flags every request gets: those handed through, `--locked` when asked
/// for, the target directory, and `--path` when a local crate is given.
pub open spec fn shared_flags_of(
    flags: Seq<FlagView>,
    locked: Option<bool>,
    target_dir: Seq<u8>,
    path: Option<Seq<u8>>,
) -> Seq<FlagView> {
    flags + (if locked == Some(true) {
        seq![FlagView { flag: text("--locked"), args: seq![] }]
    } else {
        seq![]
    }) + seq![FlagView { flag: text("--target-dir"), args: seq![target_dir] }] + match path {
        Some(p) => seq![FlagView { flag: text("--path"), args: seq![p] }],
        None => seq![],
    }
}

/// The requests with `shared` added to the flags of each.
pub open spec fn with_shared(installs: Seq<InstallView>, shared: Seq<FlagView>) -> Seq<InstallView> {
    installs.map_values(|i: InstallView| InstallView { name: i.name, flags: i.flags + shared })
}

/// Requests for the named crates, without flags of their own.
pub open spec fn crate_installs(crates: Seq<Seq<u8>>) -> Seq<InstallView> {
    crates.map_values(|c: Seq<u8>| InstallView { name: c, flags: seq![] })
}

/// Whether to remind the user of `--locked`: crates were named and neither
/// `--locked` nor `--unlocked` was given.
pub fn needs_locked_warning(o: &Options) -> (r: bool)
    ensures
        r == (o.locked is None && o.crates@.len() > 0),
{
    o.locked.is_none() && o.crates.len() > 0
}

fn flag_with(flag: &str, arg: Option<&[u8]>) -> (r: InstallFlag)
    ensures
        r@ == (FlagView {
            flag: text(flag),
            args: match arg {
                Some(a) => seq![a@],
                None => seq![],
            },
        }),
{
    let mut args: Vec<Vec<u8>> = Vec::new();
    match arg {
        Some(a) => args.push(to_bytes(a)),
        None => {},
    }
    let f = InstallFlag::new(to_bytes(flag.as_bytes()), args);
    assert(f@.args =~= match arg {
        Some(a) => seq![a@],
        None => seq![],
    });
    f
}

fn push_flag(flags: &mut Vec<InstallFlag>, f: InstallFlag)
    ensures
        flag_views(final(flags)@) == flag_views(old(flags)@).push(f@),
{
    flags.push(f);
    assert(flag_views(flags@) =~= flag_views(old(flags)@).push(f@));
}

fn append_flags(flags: &mut Vec<InstallFlag>, more: &Vec<InstallFlag>)
    ensures
        flag_views(final(flags)@) == flag_views(old(flags)@) + flag_views(more@),
{
    let mut k: usize = 0;
    while k < more.len()
        invariant
            k <= more@.len(),
            flag_views(flags@) == flag_views(old(flags)@) + flag_views(more@).subrange(0, k as int),
        decreases more@.len() - k,
    {
        push_flag(flags, more[k].duplicate());
        assert(flag_views(more@).subrange(0, k + 1) =~= flag_views(more@).subrange(0, k as int).push(
            more@[k as int]@,
        ));
        k = k + 1;
    }
    assert(flag_views(more@).subrange(0, k as int) =~= flag_views(more@));
}

/// The flags every request gets, from the options, the target directory and
/// the local crate directory (both already resolved by the caller).
pub fn shared_flags(o: &Options, target_dir: &[u8], path: Option<&[u8]>) -> (r: Vec<InstallFlag>)
    ensures
        flag_views(r@) == shared_flags_of(
            flag_views(o.flags@),
            o.locked,
            target_dir@,
            match path {
                Some(p) => Some(p@),
                None => None,
            },
        ),
{
    let mut r: Vec<InstallFlag> = Vec::new();
    assert(flag_views(r@) =~= seq![]);
    append_flags(&mut r, &o.flags);
    let ghost after_flags = flag_views(r@);
    if o.locked == Some(true) {
        push_flag(&mut r, flag_with("--locked", None));
    }
    push_flag(&mut r, flag_with("--target-dir", Some(target_dir)));
    if let Some(p) = path {
        push_flag(&mut r, flag_with("--path", Some(p)));
    }
    assert(flag_views(r@) =~= shared_flags_of(
        flag_views(o.flags@),
        o.locked,
        target_dir@,
        match path {
            Some(p) => Some(p@),
            None => None,
        },
    ));
    r
}

/// The set of the crates named on the command line, without flags of their
/// own, published to the destination of the options.
pub fn command_line_set(o: &Options) -> (r: Option<InstallSet>)
    ensures
        r is None <==> o.crates@.len() == 0,
        r matches Some(s) ==> {
            &&& s.bin@ == o.dst_bin@
            &&& s.src is None
            &&& install_views(s.installs@) == crate_installs(byte_strings(o.crates@))
        },
{
    if o.crates.len() == 0 {
        return None;
    }
    let mut installs: Vec<Install> = Vec::new();
    let mut k: usize = 0;
    while k < o.crates.len()
        invariant
            k <= o.crates@.len(),
            install_views(installs@) == byte_strings(o.crates@).subrange(0, k as int).map_values(
                |c: Seq<u8>| InstallView { name: c, flags: seq![] },
            ),
        decreases o.crates@.len() - k,
    {
        let i = Install { name: to_bytes(o.crates[k].as_slice()), flags: Vec::new() };
        assert(i@.flags =~= seq![]);
        let ghost prev = installs@;
        installs.push(i);
        assert(install_views(installs@) =~= install_views(prev).push(i@));
        assert(byte_strings(o.crates@).subrange(0, k + 1).map_values(
            |c: Seq<u8>| InstallView { name: c, flags: seq![] },
        ) =~= byte_strings(o.crates@).subrange(0, k as int).map_values(
            |c: Seq<u8>| InstallView { name: c, flags: seq![] },
        ).push(i@));
        k = k + 1;
    }
    assert(byte_strings(o.crates@).subrange(0, k as int) =~= byte_strings(o.crates@));
    Some(InstallSet { bin: to_bytes(o.dst_bin.as_slice()), src: None, installs })
}

/// The sets with `shared` added to the flags of every request.
pub fn add_shared_flags(sets: &Vec<InstallSet>, shared: &Vec<InstallFlag>) -> (r: Vec<InstallSet>)
    ensures
        r@.len() == sets@.len(),
        forall|k: int|
            0 <= k < sets@.len() ==> {
                &&& (#[trigger] r@[k]).bin@ == sets@[k].bin@
                &&& opt_bytes(r@[k].src) == opt_bytes(sets@[k].src)
                &&& install_views(r@[k].installs@) == with_shared(
                    install_views(sets@[k].installs@),
                    flag_views(shared@),
                )
            },
{
    let mut r: Vec<InstallSet> = Vec::new();
    let mut k: usize = 0;
    while k < sets.len()
        invariant
            k <= sets@.len(),
            r@.len() == k,
            forall|m: int|
                0 <= m < k ==> {
                    &&& (#[trigger] r@[m]).bin@ == sets@[m].bin@
                    &&& opt_bytes(r@[m].src) == opt_bytes(sets@[m].src)
                    &&& install_views(r@[m].installs@) == with_shared(
                        install_views(sets@[m].installs@),
                        flag_views(shared@),
                    )
                },
        decreases sets@.len() - k,
    {
        let set = &sets[k];
        let ghost want = with_shared(install_views(set.installs@), flag_views(shared@));
        let mut installs: Vec<Install> = Vec::new();
        let mut j: usize = 0;
        while j < set.installs.len()
            invariant
                j <= set.installs@.len(),
                want == with_shared(install_views(set.installs@), flag_views(shared@)),
                install_views(installs@) == want.subrange(0, j as int),
            decreases set.installs@.len() - j,
        {
            let inst = &set.installs[j];
            let mut flags: Vec<InstallFlag> = Vec::new();
            assert(flag_views(flags@) =~= seq![]);
            append_flags(&mut flags, &inst.flags);
            append_flags(&mut flags, shared);
            let n = Install { name: to_bytes(inst.name.as_slice()), flags };
            assert(flag_views(n.flags@) =~= flag_views(inst.flags@) + flag_views(shared@));
            let ghost prev = installs@;
            installs.push(n);
            assert(install_views(installs@) =~= install_views(prev).push(n@));
            assert(want.subrange(0, j + 1) =~= want.subrange(0, j as int).push(n@));
            j = j + 1;
        }
        assert(want.subrange(0, j as int) =~= want);
        let src = match &set.src {
            Some(p) => Some(to_bytes(p.as_slice())),
            None => None,
        };
        r.push(InstallSet { bin: to_bytes(set.bin.as_slice()), src, installs });
        k = k + 1;
    }
    r
}

/// The install sets to run: the crates named on the command line, or else the
/// sets found in a manifest, each request with the shared flags added. Fails
/// when that leaves no set.
pub fn resolve_sets(
    o: &Options,
    manifest_sets: &Vec<InstallSet>,
    target_dir: &[u8],
    path: Option<&[u8]>,
) -> (r: Result<Vec<InstallSet>, Error>)
    ensures
        r is Err <==> (o.crates@.len() == 0 && manifest_sets@.len() == 0),
        r matches Ok(sets) ==> {
            let shared = shared_flags_of(
                flag_views(o.flags@),
                o.locked,
                target_dir@,
                match path {
                    Some(p) => Some(p@),
                    None => None,
                },
            );
            if o.crates@.len() > 0 {
                &&& sets@.len() == 1
                &&& sets@[0].bin@ == o.dst_bin@
                &&& sets@[0].src is None
                &&& install_views(sets@[0].installs@) == with_shared(
                    crate_installs(byte_strings(o.crates@)),
                    shared,
                )
            } else {
                &&& sets@.len() == manifest_sets@.len()
                &&& forall|k: int|
                    0 <= k < sets@.len() ==> {
                        &&& (#[trigger] sets@[k]).bin@ == manifest_sets@[k].bin@
                        &&& opt_bytes(sets@[k].src) == opt_bytes(manifest_sets@[k].src)
                        &&& install_views(sets@[k].installs@) == with_shared(
                            install_views(manifest_sets@[k].installs@),
                            shared,
                        )
                    }
            }
        },
{
    let shared = shared_flags(o, target_dir, path);
    match command_line_set(o) {
        Some(set) => {
            let mut sets: Vec<InstallSet> = Vec::new();
            sets.push(set);
            assert(sets@[0] == set);
            let r = add_shared_flags(&sets, &shared);
            assert(r@[0].src is None);
            Ok(r)
        },
        None => {
            if manifest_sets.len() == 0 {
                return Err(Error::new(to_bytes("no crates specified".as_bytes()), None));
            }
            Ok(add_shared_flags(manifest_sets, &shared))
        },
    }
}

} // verus!
