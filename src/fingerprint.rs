//! The fingerprint of a request and the `cargo install` invocation built from it.

use vstd::prelude::*;
use crate::bytes::{join_path, path_join, push_all, text, to_bytes};
use crate::request::{
    FlagView, Install, InstallFlag, InstallView, byte_strings, flag_views, normalized, sorted_flags,
};

verus! {

/// The SipHash-2-4 digest, with zero keys, of a byte string.
pub uninterp spec fn sip_hash_of(b: Seq<u8>) -> u64;

/// Relies on `std::hash::SipHasher`: writing the bytes and finishing gives a
/// digest that depends on those bytes alone.
#[verifier::external_body]
#[allow(deprecated)]
fn sip_hash(b: &[u8]) -> (r: u64)
    ensures
        r == sip_hash_of(b@),
{
    let mut hasher = std::hash::SipHasher::new();
    std::hash::Hasher::write(&mut hasher, b);
    std::hash::Hasher::finish(&hasher)
}

/// The lowercase hexadecimal digit of `n < 16`.
pub open spec fn hex_digit(n: u64) -> u8 {
    if n < 10 {
        (48 + n) as u8
    } else {
        (87 + n) as u8
    }
}

/// `h` as sixteen lowercase hexadecimal digits, most significant first.
pub open spec fn hex16(h: u64) -> Seq<u8> {
    Seq::new(16, |i: int| hex_digit((h >> ((60 - 4 * i) as u64)) & 15u64))
}

pub fn hex_u64(h: u64) -> (r: Vec<u8>)
    ensures
        r@ == hex16(h),
{
    let mut r: Vec<u8> = Vec::new();
    let mut i: u64 = 0;
    while i < 16
        invariant
            i <= 16,
            r@ == hex16(h).subrange(0, i as int),
        decreases 16 - i,
    {
        let shifted: u64 = h >> (60 - 4 * i);
        let d: u64 = shifted & 15u64;
        assert(d < 16) by (bit_vector)
            requires
                d == shifted & 15u64,
        ;
        let c: u8 = if d < 10 {
            (48 + d) as u8
        } else {
            (87 + d) as u8
        };
        r.push(c);
        assert(r@ =~= hex16(h).subrange(0, i + 1));
        i = i + 1;
    }
    r
}

/// An argument as it stands in a trace: between double quotes, with each
/// double quote and backslash escaped by a backslash.
pub open spec fn quoted(a: Seq<u8>) -> Seq<u8> {
    seq![0x22u8] + escaped(a) + seq![0x22u8]
}

pub open spec fn escaped(a: Seq<u8>) -> Seq<u8>
    decreases a.len(),
{
    if a.len() == 0 {
        seq![]
    } else {
        let c = a.last();
        let e = if c == 0x22u8 || c == 0x5cu8 {
            seq![0x5cu8, c]
        } else {
            seq![c]
        };
        escaped(a.drop_last()) + e
    }
}

fn push_quoted(out: &mut Vec<u8>, a: &[u8])
    ensures
        final(out)@ == old(out)@ + quoted(a@),
{
    out.push(0x22u8);
    let ghost start = out@;
    let mut i: usize = 0;
    while i < a.len()
        invariant
            i <= a@.len(),
            start == old(out)@ + seq![0x22u8],
            out@ == start + escaped(a@.subrange(0, i as int)),
        decreases a@.len() - i,
    {
        let c = a[i];
        if c == 0x22u8 || c == 0x5cu8 {
            out.push(0x5cu8);
        }
        out.push(c);
        assert(a@.subrange(0, i + 1).drop_last() =~= a@.subrange(0, i as int));
        assert(out@ =~= start + escaped(a@.subrange(0, i + 1)));
        i = i + 1;
    }
    out.push(0x22u8);
    assert(a@.subrange(0, i as int) =~= a@);
    assert(out@ =~= old(out)@ + quoted(a@));
}

/// The quoted arguments of a flag, each after a space.
pub open spec fn args_trace(args: Seq<Seq<u8>>) -> Seq<u8>
    decreases args.len(),
{
    if args.len() == 0 {
        seq![]
    } else {
        args_trace(args.drop_last()) + seq![0x20u8] + quoted(args.last())
    }
}

/// Each flag after a space, followed by its quoted arguments.
pub open spec fn flags_trace(flags: Seq<FlagView>) -> Seq<u8>
    decreases flags.len(),
{
    if flags.len() == 0 {
        seq![]
    } else {
        flags_trace(flags.drop_last()) + seq![0x20u8] + flags.last().flag + args_trace(
            flags.last().args,
        )
    }
}

/// Each flag followed by its arguments, as `cargo install` receives them.
pub open spec fn flags_argv(flags: Seq<FlagView>) -> Seq<Seq<u8>>
    decreases flags.len(),
{
    if flags.len() == 0 {
        seq![]
    } else {
        flags_argv(flags.drop_last()) + seq![flags.last().flag] + flags.last().args
    }
}

/// The text that is hashed: the invocation without its cache directory, a
/// ` -- ` separator and the crate name.
pub open spec fn hash_trace(name: Seq<u8>, flags: Seq<FlagView>) -> Seq<u8> {
    text("cargo install") + flags_trace(flags) + text(" -- ") + name
}

/// The cache key of a request: the digest of its trace, over its flags in
/// canonical order, in hexadecimal.
pub open spec fn fingerprint_of(i: InstallView) -> Seq<u8> {
    hex16(sip_hash_of(hash_trace(i.name, normalized(i.flags))))
}

/// The directory that the cache entry of `i` occupies under `cache_root`.
pub open spec fn build_dir_of(cache_root: Seq<u8>, i: InstallView) -> Seq<u8> {
    path_join(cache_root, fingerprint_of(i))
}

/// The full arguments of `cargo install` for `i`.
pub open spec fn install_argv(cache_root: Seq<u8>, i: InstallView) -> Seq<Seq<u8>> {
    seq![text("install")] + flags_argv(normalized(i.flags)) + seq![
        text("--root"),
        build_dir_of(cache_root, i),
        text("--color"),
        text("always"),
        text("--"),
        i.name,
    ]
}

/// The invocation as it is reported to the user.
pub open spec fn install_trace(cache_root: Seq<u8>, i: InstallView) -> Seq<u8> {
    text("cargo install") + flags_trace(normalized(i.flags)) + text(" --root ") + quoted(
        build_dir_of(cache_root, i),
    ) + text(" --color always") + text(" -- ") + i.name
}

/// A resolved `cargo install` invocation.
#[derive(Debug)]
pub struct InstallCommand {
    /// The arguments after the program name.
    pub args: Vec<Vec<u8>>,
    /// The invocation as text, for messages.
    pub trace: Vec<u8>,
    /// The cache entry: `--root` of the invocation.
    pub build_dir: Vec<u8>,
    /// Where the invocation leaves its binaries.
    pub bin_dir: Vec<u8>,
}

/// Fingerprinting does not depend on the order, or repetition, of flags: two
/// requests with the same name and the same set of flags share a fingerprint.
pub proof fn lemma_fingerprint_ignores_flag_order(a: InstallView, b: InstallView)
    requires
        a.name == b.name,
        a.flags.to_set() == b.flags.to_set(),
    ensures
        fingerprint_of(a) == fingerprint_of(b),
{
}

/// Requests that differ in name hash different traces, whatever their flags.
/// (That different traces give different digests is left to the hash.)
pub proof fn lemma_trace_tells_names_apart(a: Seq<u8>, b: Seq<u8>, flags: Seq<FlagView>)
    requires
        a != b,
    ensures
        hash_trace(a, flags) != hash_trace(b, flags),
{
    let p = text("cargo install") + flags_trace(flags) + text(" -- ");
    if hash_trace(a, flags) == hash_trace(b, flags) {
        assert(a =~= hash_trace(a, flags).subrange(p.len() as int, hash_trace(a, flags).len() as int));
        assert(b =~= hash_trace(b, flags).subrange(p.len() as int, hash_trace(b, flags).len() as int));
    }
}

impl Install {
    /// The fingerprint of this request.
    pub fn fingerprint(&self) -> (r: Vec<u8>)
        ensures
            r@ == fingerprint_of(self@),
    {
        let flags = sorted_flags(&self.flags);
        let mut trace = to_bytes("cargo install".as_bytes());
        push_flags_trace(&mut trace, &flags);
        push_all(&mut trace, " -- ".as_bytes());
        push_all(&mut trace, self.name.as_slice());
        assert(trace@ =~= hash_trace(self@.name, normalized(self@.flags)));
        hex_u64(sip_hash(trace.as_slice()))
    }

    /// The invocation of `cargo install` that builds this request into its
    /// cache entry under `cache_root`.
    pub fn command(&self, cache_root: &[u8]) -> (r: InstallCommand)
        ensures
            r.build_dir@ == build_dir_of(cache_root@, self@),
            r.bin_dir@ == path_join(build_dir_of(cache_root@, self@), text("bin")),
            byte_strings(r.args@) == install_argv(cache_root@, self@),
            r.trace@ == install_trace(cache_root@, self@),
    {
        let hash = self.fingerprint();
        let build_dir = join_path(cache_root, hash.as_slice());
        let bin_dir = join_path(build_dir.as_slice(), "bin".as_bytes());
        let flags = sorted_flags(&self.flags);
        let mut trace = to_bytes("cargo install".as_bytes());
        push_flags_trace(&mut trace, &flags);
        push_all(&mut trace, " --root ".as_bytes());
        push_quoted(&mut trace, build_dir.as_slice());
        push_all(&mut trace, " --color always".as_bytes());
        push_all(&mut trace, " -- ".as_bytes());
        push_all(&mut trace, self.name.as_slice());
        let mut args: Vec<Vec<u8>> = Vec::new();
        push_item(&mut args, "install".as_bytes());
        push_flags_argv(&mut args, &flags);
        push_item(&mut args, "--root".as_bytes());
        push_item(&mut args, build_dir.as_slice());
        push_item(&mut args, "--color".as_bytes());
        push_item(&mut args, "always".as_bytes());
        push_item(&mut args, "--".as_bytes());
        push_item(&mut args, self.name.as_slice());
        assert(trace@ =~= install_trace(cache_root@, self@));
        assert(byte_strings(args@) =~= install_argv(cache_root@, self@));
        InstallCommand { args, trace, build_dir, bin_dir }
    }
}

fn push_item(out: &mut Vec<Vec<u8>>, b: &[u8])
    ensures
        byte_strings(final(out)@) == byte_strings(old(out)@).push(b@),
{
    out.push(to_bytes(b));
    assert(byte_strings(out@) =~= byte_strings(old(out)@).push(b@));
}

fn push_flags_trace(out: &mut Vec<u8>, flags: &Vec<InstallFlag>)
    ensures
        final(out)@ == old(out)@ + flags_trace(flag_views(flags@)),
{
    let ghost fv = flag_views(flags@);
    let mut i: usize = 0;
    while i < flags.len()
        invariant
            i <= flags@.len(),
            fv == flag_views(flags@),
            out@ == old(out)@ + flags_trace(fv.subrange(0, i as int)),
        decreases flags@.len() - i,
    {
        let f = &flags[i];
        let ghost before = out@;
        out.push(0x20u8);
        push_all(out, f.flag.as_slice());
        let ghost mid = out@;
        let mut k: usize = 0;
        while k < f.args.len()
            invariant
                k <= f.args@.len(),
                out@ == mid + args_trace(byte_strings(f.args@).subrange(0, k as int)),
            decreases f.args@.len() - k,
        {
            out.push(0x20u8);
            push_quoted(out, f.args[k].as_slice());
            assert(byte_strings(f.args@).subrange(0, k + 1).last() == f.args@[k as int]@);
            assert(byte_strings(f.args@).subrange(0, k + 1).drop_last() =~= byte_strings(
                f.args@,
            ).subrange(0, k as int));
            assert(out@ =~= mid + args_trace(byte_strings(f.args@).subrange(0, k + 1)));
            k = k + 1;
        }
        assert(byte_strings(f.args@).subrange(0, k as int) =~= byte_strings(f.args@));
        assert(fv.subrange(0, i + 1).drop_last() =~= fv.subrange(0, i as int));
        assert(out@ =~= old(out)@ + flags_trace(fv.subrange(0, i + 1)));
        i = i + 1;
    }
    assert(fv.subrange(0, i as int) =~= fv);
}

fn push_flags_argv(out: &mut Vec<Vec<u8>>, flags: &Vec<InstallFlag>)
    ensures
        byte_strings(final(out)@) == byte_strings(old(out)@) + flags_argv(flag_views(flags@)),
{
    let ghost fv = flag_views(flags@);
    let mut i: usize = 0;
    while i < flags.len()
        invariant
            i <= flags@.len(),
            fv == flag_views(flags@),
            byte_strings(out@) == byte_strings(old(out)@) + flags_argv(fv.subrange(0, i as int)),
        decreases flags@.len() - i,
    {
        let f = &flags[i];
        push_item(out, f.flag.as_slice());
        let ghost mid = byte_strings(out@);
        assert(fv.subrange(0, i + 1).last() == fv[i as int]);
        assert(fv[i as int].args == byte_strings(f.args@));
        let mut k: usize = 0;
        while k < f.args.len()
            invariant
                k <= f.args@.len(),
                byte_strings(out@) == mid + byte_strings(f.args@).subrange(0, k as int),
            decreases f.args@.len() - k,
        {
            push_item(out, f.args[k].as_slice());
            assert(byte_strings(out@) =~= mid + byte_strings(f.args@).subrange(0, k + 1));
            k = k + 1;
        }
        assert(byte_strings(f.args@).subrange(0, k as int) =~= byte_strings(f.args@));
        assert(fv.subrange(0, i + 1).drop_last() =~= fv.subrange(0, i as int));
        assert(byte_strings(out@) =~= byte_strings(old(out)@) + flags_argv(fv.subrange(0, i + 1)));
        i = i + 1;
    }
    assert(fv.subrange(0, i as int) =~= fv);
}

} // verus!
