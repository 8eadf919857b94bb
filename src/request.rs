//! Install requests, their flags, and the install sets that group them.

use vstd::prelude::*;
use crate::bytes::{bytes_lt, compare_bytes, text, to_bytes, lemma_bytes_lt_irreflexive,
    lemma_bytes_lt_transitive, lemma_bytes_lt_trichotomy};

verus! {

/// One flag handed to `cargo install`, with the arguments that follow it.
#[derive(Debug)]
pub struct InstallFlag {
    pub flag: Vec<u8>,
    pub args: Vec<Vec<u8>>,
}

/// What an `InstallFlag` holds.
pub struct FlagView {
    pub flag: Seq<u8>,
    pub args: Seq<Seq<u8>>,
}

impl View for InstallFlag {
    type V = FlagView;

    open spec fn view(&self) -> FlagView {
        FlagView { flag: self.flag@, args: byte_strings(self.args@) }
    }
}

/// One request: a crate name and its resolved flags.
#[derive(Debug)]
pub struct Install {
    pub name: Vec<u8>,
    pub flags: Vec<InstallFlag>,
}

/// Requests that share a destination and a freshness marker.
#[derive(Debug)]
pub struct InstallSet {
    /// Directory the binaries are published to.
    pub bin: Vec<u8>,
    /// The manifest the requests were read from, if any.
    pub src: Option<Vec<u8>>,
    pub installs: Vec<Install>,
}

pub open spec fn byte_strings(s: Seq<Vec<u8>>) -> Seq<Seq<u8>> {
    s.map_values(|a: Vec<u8>| a@)
}

/// What an `Install` holds.
pub struct InstallView {
    pub name: Seq<u8>,
    pub flags: Seq<FlagView>,
}

impl View for Install {
    type V = InstallView;

    open spec fn view(&self) -> InstallView {
        InstallView { name: self.name@, flags: flag_views(self.flags@) }
    }
}

/// The flag that makes a request build from a local directory.
pub open spec fn path_flag() -> Seq<u8> {
    text("--path")
}

/// A request is local when one of its flags is `--path`.
pub open spec fn is_local_request(i: InstallView) -> bool {
    exists|k: int| 0 <= k < i.flags.len() && (#[trigger] i.flags[k]).flag == path_flag()
}

pub open spec fn any_local_request(s: Seq<InstallView>) -> bool {
    exists|k: int| 0 <= k < s.len() && is_local_request(#[trigger] s[k])
}

pub open spec fn any_remote_request(s: Seq<InstallView>) -> bool {
    exists|k: int| 0 <= k < s.len() && !is_local_request(#[trigger] s[k])
}

pub open spec fn install_views(s: Seq<Install>) -> Seq<InstallView> {
    s.map_values(|i: Install| i@)
}

/// The same flags, in the canonical order: sorted by `flag_lt`, each once.
pub open spec fn normalized(s: Seq<FlagView>) -> Seq<FlagView> {
    choose|r: Seq<FlagView>| strictly_sorted(r) && r.to_set() == s.to_set()
}

pub open spec fn flag_views(s: Seq<InstallFlag>) -> Seq<FlagView> {
    s.map_values(|f: InstallFlag| f@)
}

/// Lexicographic order on argument lists.
pub open spec fn args_lt(a: Seq<Seq<u8>>, b: Seq<Seq<u8>>) -> bool
    decreases a.len(),
{
    if a.len() == 0 {
        b.len() > 0
    } else if b.len() == 0 {
        false
    } else if a[0] != b[0] {
        bytes_lt(a[0], b[0])
    } else {
        args_lt(a.drop_first(), b.drop_first())
    }
}

/// Flags are ordered by name, then by arguments.
pub open spec fn flag_lt(x: FlagView, y: FlagView) -> bool {
    bytes_lt(x.flag, y.flag) || (x.flag == y.flag && args_lt(x.args, y.args))
}

/// Every flag is below the ones after it: sorted, without repeats.
pub open spec fn strictly_sorted(s: Seq<FlagView>) -> bool {
    forall|i: int, j: int| 0 <= i < j < s.len() ==> flag_lt(#[trigger] s[i], #[trigger] s[j])
}

proof fn lemma_args_lt_trichotomy(a: Seq<Seq<u8>>, b: Seq<Seq<u8>>)
    ensures
        a == b || args_lt(a, b) || args_lt(b, a),
        !(args_lt(a, b) && args_lt(b, a)),
    decreases a.len(),
{
    if a.len() > 0 && b.len() > 0 {
        if a[0] == b[0] {
            lemma_args_lt_trichotomy(a.drop_first(), b.drop_first());
            if a.drop_first() == b.drop_first() {
                assert(a =~= seq![a[0]] + a.drop_first());
                assert(b =~= seq![b[0]] + b.drop_first());
            }
        } else {
            lemma_bytes_lt_trichotomy(a[0], b[0]);
        }
    } else if a.len() == 0 && b.len() == 0 {
        assert(a =~= b);
    }
}

proof fn lemma_args_lt_transitive(a: Seq<Seq<u8>>, b: Seq<Seq<u8>>, c: Seq<Seq<u8>>)
    requires
        args_lt(a, b),
        args_lt(b, c),
    ensures
        args_lt(a, c),
    decreases a.len(),
{
    if a.len() > 0 && b.len() > 0 && c.len() > 0 {
        if a[0] == b[0] && b[0] == c[0] {
            lemma_args_lt_transitive(a.drop_first(), b.drop_first(), c.drop_first());
        } else if a[0] != b[0] && b[0] != c[0] {
            lemma_bytes_lt_transitive(a[0], b[0], c[0]);
            lemma_bytes_lt_irreflexive(a[0]);
        }
    }
}

pub proof fn lemma_flag_lt_trichotomy(x: FlagView, y: FlagView)
    ensures
        x == y || flag_lt(x, y) || flag_lt(y, x),
        !(flag_lt(x, y) && flag_lt(y, x)),
{
    lemma_bytes_lt_trichotomy(x.flag, y.flag);
    lemma_args_lt_trichotomy(x.args, y.args);
    lemma_bytes_lt_irreflexive(x.flag);
}

pub proof fn lemma_flag_lt_transitive(x: FlagView, y: FlagView, z: FlagView)
    requires
        flag_lt(x, y),
        flag_lt(y, z),
    ensures
        flag_lt(x, z),
{
    if bytes_lt(x.flag, y.flag) && bytes_lt(y.flag, z.flag) {
        lemma_bytes_lt_transitive(x.flag, y.flag, z.flag);
    } else if x.flag == y.flag && y.flag == z.flag {
        lemma_args_lt_transitive(x.args, y.args, z.args);
    }
}

/// Two sorted flag lists that hold the same flags are the same list.
pub proof fn lemma_sorted_same_flags_equal(a: Seq<FlagView>, b: Seq<FlagView>)
    requires
        strictly_sorted(a),
        strictly_sorted(b),
        forall|x: FlagView| a.contains(x) <==> b.contains(x),
    ensures
        a == b,
    decreases a.len(),
{
    if a.len() == 0 {
        if b.len() > 0 {
            assert(b.contains(b[0]));
        }
        assert(a =~= b);
    } else if b.len() == 0 {
        assert(a.contains(a[0]));
    } else {
        assert(a.contains(a[0]));
        assert(b.contains(b[0]));
        let i = choose|i: int| 0 <= i < b.len() && b[i] == a[0];
        let j = choose|j: int| 0 <= j < a.len() && a[j] == b[0];
        if a[0] != b[0] {
            assert(i > 0 && j > 0);
            assert(flag_lt(b[0], b[i]));
            assert(flag_lt(a[0], a[j]));
            lemma_flag_lt_trichotomy(a[0], b[0]);
        }
        let a1 = a.drop_first();
        let b1 = b.drop_first();
        assert forall|x: FlagView| a1.contains(x) <==> b1.contains(x) by {
            if a1.contains(x) {
                let k = choose|k: int| 0 <= k < a1.len() && a1[k] == x;
                assert(a[k + 1] == x);
                assert(flag_lt(a[0], x));
                lemma_flag_lt_trichotomy(a[0], x);
                assert(b.contains(x));
                let m = choose|m: int| 0 <= m < b.len() && b[m] == x;
                assert(m != 0);
                assert(b1[m - 1] == x);
            }
            if b1.contains(x) {
                let k = choose|k: int| 0 <= k < b1.len() && b1[k] == x;
                assert(b[k + 1] == x);
                assert(flag_lt(b[0], x));
                lemma_flag_lt_trichotomy(b[0], x);
                assert(a.contains(x));
                let m = choose|m: int| 0 <= m < a.len() && a[m] == x;
                assert(m != 0);
                assert(a1[m - 1] == x);
            }
        }
        lemma_sorted_same_flags_equal(a1, b1);
        assert(a =~= seq![a[0]] + a1);
        assert(b =~= seq![b[0]] + b1);
    }
}

fn compare_args(a: &Vec<Vec<u8>>, b: &Vec<Vec<u8>>) -> (r: i8)
    ensures
        r < 0 <==> args_lt(byte_strings(a@), byte_strings(b@)),
        r == 0 <==> byte_strings(a@) == byte_strings(b@),
        r > 0 <==> args_lt(byte_strings(b@), byte_strings(a@)),
{
    let ghost av = byte_strings(a@);
    let ghost bv = byte_strings(b@);
    proof {
        lemma_args_lt_trichotomy(av, bv);
        lemma_args_lt_trichotomy(av, av);
        assert(av.skip(0) =~= av);
        assert(bv.skip(0) =~= bv);
    }
    let mut i: usize = 0;
    while i < a.len() && i < b.len()
        invariant
            av == byte_strings(a@),
            bv == byte_strings(b@),
            i <= av.len(),
            i <= bv.len(),
            av.subrange(0, i as int) == bv.subrange(0, i as int),
            args_lt(av, bv) == args_lt(av.skip(i as int), bv.skip(i as int)),
            args_lt(bv, av) == args_lt(bv.skip(i as int), av.skip(i as int)),
        decreases av.len() - i,
    {
        let c = compare_bytes(a[i].as_slice(), b[i].as_slice());
        assert(av.skip(i as int)[0] == av[i as int]);
        assert(bv.skip(i as int)[0] == bv[i as int]);
        if c != 0 {
            return c;
        }
        assert(av.skip(i as int).drop_first() =~= av.skip(i + 1));
        assert(bv.skip(i as int).drop_first() =~= bv.skip(i + 1));
        assert(av.subrange(0, i + 1) =~= av.subrange(0, i as int).push(av[i as int]));
        assert(bv.subrange(0, i + 1) =~= bv.subrange(0, i as int).push(bv[i as int]));
        i = i + 1;
    }
    if a.len() == b.len() {
        assert(av =~= av.subrange(0, i as int));
        assert(bv =~= bv.subrange(0, i as int));
        0
    } else if i == a.len() {
        assert(av.skip(i as int).len() == 0);
        -1
    } else {
        assert(bv.skip(i as int).len() == 0);
        1
    }
}

impl InstallFlag {
    pub fn new(flag: Vec<u8>, args: Vec<Vec<u8>>) -> (r: InstallFlag)
        ensures
            r.flag@ == flag@,
            byte_strings(r.args@) == byte_strings(args@),
    {
        InstallFlag { flag, args }
    }

    /// A copy of this flag.
    pub fn duplicate(&self) -> (r: InstallFlag)
        ensures
            r@ == self@,
    {
        let mut args: Vec<Vec<u8>> = Vec::new();
        let mut i: usize = 0;
        while i < self.args.len()
            invariant
                i <= self.args@.len(),
                byte_strings(args@) == byte_strings(self.args@).subrange(0, i as int),
            decreases self.args@.len() - i,
        {
            let b = to_bytes(self.args[i].as_slice());
            let ghost prev = args@;
            args.push(b);
            assert(byte_strings(args@) =~= byte_strings(prev).push(b@));
            assert(byte_strings(self.args@).subrange(0, i + 1) =~= byte_strings(
                self.args@,
            ).subrange(0, i as int).push(self.args@[i as int]@));
            i = i + 1;
        }
        assert(byte_strings(args@) =~= byte_strings(self.args@));
        InstallFlag { flag: to_bytes(self.flag.as_slice()), args }
    }

    /// Three-way comparison in the order of `flag_lt`.
    pub fn compare(&self, other: &InstallFlag) -> (r: i8)
        ensures
            r < 0 <==> flag_lt(self@, other@),
            r == 0 <==> self@ == other@,
            r > 0 <==> flag_lt(other@, self@),
    {
        proof {
            lemma_flag_lt_trichotomy(self@, other@);
            lemma_bytes_lt_irreflexive(self.flag@);
            lemma_args_lt_trichotomy(self@.args, self@.args);
        }
        let c = compare_bytes(self.flag.as_slice(), other.flag.as_slice());
        if c != 0 {
            c
        } else {
            compare_args(&self.args, &other.args)
        }
    }
}

/// The flags of `flags` sorted in the order of `flag_lt`, each once.
pub fn sorted_flags(flags: &Vec<InstallFlag>) -> (r: Vec<InstallFlag>)
    ensures
        flag_views(r@) == normalized(flag_views(flags@)),
        strictly_sorted(flag_views(r@)),
        forall|x: FlagView| flag_views(r@).contains(x) <==> flag_views(flags@).contains(x),
{
    let mut out: Vec<InstallFlag> = Vec::new();
    let mut i: usize = 0;
    while i < flags.len()
        invariant
            i <= flags@.len(),
            strictly_sorted(flag_views(out@)),
            forall|x: FlagView|
                flag_views(out@).contains(x) <==> flag_views(flags@.subrange(0, i as int)).contains(
                    x,
                ),
        decreases flags@.len() - i,
    {
        let f = flags[i].duplicate();
        let ghost fv = f@;
        let ghost before = flag_views(out@);
        let mut j: usize = 0;
        let mut c: i8 = 1;
        while j < out.len()
            invariant
                j <= out@.len(),
                before == flag_views(out@),
                fv == f@,
                forall|k: int| 0 <= k < j ==> flag_lt(#[trigger] before[k], fv),
            ensures
                j <= out@.len(),
                forall|k: int| 0 <= k < j ==> flag_lt(#[trigger] before[k], fv),
                j < out@.len() ==> !flag_lt(before[j as int], fv),
            decreases out@.len() - j,
        {
            c = out[j].compare(&f);
            if c >= 0 {
                break;
            }
            j = j + 1;
        }
        let ghost prefix_views = flag_views(flags@.subrange(0, i as int));
        assert(flag_views(flags@.subrange(0, i + 1)) =~= prefix_views.push(fv));
        if j < out.len() && out[j].compare(&f) == 0 {
            assert(before[j as int] == fv);
            assert forall|x: FlagView|
                flag_views(out@).contains(x) <==> flag_views(
                    flags@.subrange(0, i + 1),
                ).contains(x) by {
                if x == fv {
                    assert(before[j as int] == x);
                    assert(prefix_views.push(fv)[prefix_views.len() as int] == x);
                }
                if prefix_views.push(fv).contains(x) && x != fv {
                    let k = choose|k: int| 0 <= k < prefix_views.push(fv).len() && prefix_views.push(fv)[k] == x;
                    assert(prefix_views[k] == x);
                }
                if prefix_views.contains(x) {
                    let k = choose|k: int| 0 <= k < prefix_views.len() && prefix_views[k] == x;
                    assert(prefix_views.push(fv)[k] == x);
                }
            }
        } else {
            proof {
                if j < out@.len() {
                    lemma_flag_lt_trichotomy(before[j as int], fv);
                }
            }
            out.insert(j, f);
            let ghost after = flag_views(out@);
            assert(after =~= before.insert(j as int, fv));
            assert forall|a: int, b: int| 0 <= a < b < after.len() implies flag_lt(
                #[trigger] after[a],
                #[trigger] after[b],
            ) by {
                if b < j {
                    assert(flag_lt(before[a], before[b]));
                } else if b == j {
                    assert(flag_lt(before[a], fv));
                } else if a < j {
                    assert(flag_lt(before[a], fv));
                    assert(flag_lt(fv, before[b - 1])) by {
                        if b - 1 > j {
                            assert(flag_lt(before[j as int], before[b - 1]));
                            lemma_flag_lt_transitive(fv, before[j as int], before[b - 1]);
                        }
                    }
                    lemma_flag_lt_transitive(before[a], fv, before[b - 1]);
                } else if a == j {
                    if b - 1 > j {
                        assert(flag_lt(before[j as int], before[b - 1]));
                        lemma_flag_lt_transitive(fv, before[j as int], before[b - 1]);
                    }
                } else {
                    assert(flag_lt(before[a - 1], before[b - 1]));
                }
            }
            assert forall|x: FlagView|
                after.contains(x) <==> flag_views(flags@.subrange(0, i + 1)).contains(x) by {
                if after.contains(x) && x != fv {
                    let k = choose|k: int| 0 <= k < after.len() && after[k] == x;
                    if k < j {
                        assert(before[k] == x);
                    } else {
                        assert(before[k - 1] == x);
                    }
                }
                if before.contains(x) {
                    let k = choose|k: int| 0 <= k < before.len() && before[k] == x;
                    if k < j {
                        assert(after[k] == x);
                    } else {
                        assert(after[k + 1] == x);
                    }
                }
                if x == fv {
                    assert(after[j as int] == x);
                    assert(prefix_views.push(fv)[prefix_views.len() as int] == x);
                }
                if before.contains(x) {
                    assert(prefix_views.contains(x));
                    let k = choose|k: int| 0 <= k < prefix_views.len() && prefix_views[k] == x;
                    assert(prefix_views.push(fv)[k] == x);
                }
                if prefix_views.push(fv).contains(x) && x != fv {
                    let k = choose|k: int| 0 <= k < prefix_views.push(fv).len() && prefix_views.push(fv)[k] == x;
                    assert(prefix_views[k] == x);
                }
                if prefix_views.contains(x) {
                    let k = choose|k: int| 0 <= k < prefix_views.len() && prefix_views[k] == x;
                    assert(prefix_views.push(fv)[k] == x);
                }
            }
        }
        i = i + 1;
    }
    assert(flags@.subrange(0, i as int) =~= flags@);
    proof {
        let r = flag_views(out@);
        let s = flag_views(flags@);
        assert(r.to_set() =~= s.to_set());
        let n = normalized(s);
        assert forall|x: FlagView| n.contains(x) <==> r.contains(x) by {
            assert(n.to_set().contains(x) == n.contains(x));
        }
        lemma_sorted_same_flags_equal(n, r);
    }
    out
}

impl Install {
    pub fn is_local(&self) -> (r: bool)
        ensures
            r == is_local_request(self@),
    {
        let mut k: usize = 0;
        while k < self.flags.len()
            invariant
                k <= self.flags@.len(),
                forall|m: int| 0 <= m < k ==> (#[trigger] flag_views(self.flags@)[m]).flag != path_flag(),
            decreases self.flags@.len() - k,
        {
            if compare_bytes(self.flags[k].flag.as_slice(), "--path".as_bytes()) == 0 {
                assert(self@.flags[k as int].flag == path_flag());
                return true;
            }
            k = k + 1;
        }
        false
    }

    pub fn is_remote(&self) -> (r: bool)
        ensures
            r == !is_local_request(self@),
    {
        !self.is_local()
    }
}

impl InstallSet {
    pub fn any_local(&self) -> (r: bool)
        ensures
            r == any_local_request(install_views(self.installs@)),
    {
        let ghost v = install_views(self.installs@);
        let mut k: usize = 0;
        while k < self.installs.len()
            invariant
                k <= self.installs@.len(),
                v == install_views(self.installs@),
                forall|m: int| 0 <= m < k ==> !is_local_request(#[trigger] v[m]),
            decreases self.installs@.len() - k,
        {
            if self.installs[k].is_local() {
                assert(is_local_request(v[k as int]));
                return true;
            }
            k = k + 1;
        }
        false
    }

    pub fn any_remote(&self) -> (r: bool)
        ensures
            r == any_remote_request(install_views(self.installs@)),
    {
        let ghost v = install_views(self.installs@);
        let mut k: usize = 0;
        while k < self.installs.len()
            invariant
                k <= self.installs@.len(),
                v == install_views(self.installs@),
                forall|m: int| 0 <= m < k ==> is_local_request(#[trigger] v[m]),
            decreases self.installs@.len() - k,
        {
            if self.installs[k].is_remote() {
                assert(!is_local_request(v[k as int]));
                return true;
            }
            k = k + 1;
        }
        false
    }
}

} // verus!
