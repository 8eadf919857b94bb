//! Byte strings: lexicographic order, comparison, affixes, path joining.

use vstd::prelude::*;
use vstd::string::StringSliceAdditionalSpecFns;

verus! {

/// Lexicographic order on byte strings: the order of `[u8]` and of `OsStr` on Unix.
pub open spec fn bytes_lt(a: Seq<u8>, b: Seq<u8>) -> bool
    decreases a.len(),
{
    if a.len() == 0 {
        b.len() > 0
    } else if b.len() == 0 {
        false
    } else if a[0] != b[0] {
        a[0] < b[0]
    } else {
        bytes_lt(a.drop_first(), b.drop_first())
    }
}

pub proof fn lemma_bytes_lt_irreflexive(a: Seq<u8>)
    ensures
        !bytes_lt(a, a),
    decreases a.len(),
{
    if a.len() > 0 {
        lemma_bytes_lt_irreflexive(a.drop_first());
    }
}

pub proof fn lemma_bytes_lt_trichotomy(a: Seq<u8>, b: Seq<u8>)
    ensures
        a == b || bytes_lt(a, b) || bytes_lt(b, a),
        !(bytes_lt(a, b) && bytes_lt(b, a)),
    decreases a.len(),
{
    if a.len() > 0 && b.len() > 0 && a[0] == b[0] {
        lemma_bytes_lt_trichotomy(a.drop_first(), b.drop_first());
        if a.drop_first() == b.drop_first() {
            assert(a =~= seq![a[0]] + a.drop_first());
            assert(b =~= seq![b[0]] + b.drop_first());
        }
    } else if a.len() == 0 && b.len() == 0 {
        assert(a =~= b);
    }
}

pub proof fn lemma_bytes_lt_transitive(a: Seq<u8>, b: Seq<u8>, c: Seq<u8>)
    requires
        bytes_lt(a, b),
        bytes_lt(b, c),
    ensures
        bytes_lt(a, c),
    decreases a.len(),
{
    if a.len() > 0 && b.len() > 0 && c.len() > 0 && a[0] == b[0] && b[0] == c[0] {
        lemma_bytes_lt_transitive(a.drop_first(), b.drop_first(), c.drop_first());
    }
}

/// Three-way comparison of byte strings: negative, zero or positive as `a` is
/// below, equal to or above `b`.
pub fn compare_bytes(a: &[u8], b: &[u8]) -> (r: i8)
    ensures
        r < 0 <==> bytes_lt(a@, b@),
        r == 0 <==> a@ == b@,
        r > 0 <==> bytes_lt(b@, a@),
{
    proof {
        lemma_bytes_lt_trichotomy(a@, b@);
        lemma_bytes_lt_irreflexive(a@);
    }
    assert(a@.skip(0) =~= a@);
    assert(b@.skip(0) =~= b@);
    let mut i: usize = 0;
    while i < a.len() && i < b.len()
        invariant
            i <= a@.len(),
            i <= b@.len(),
            a@.subrange(0, i as int) == b@.subrange(0, i as int),
            bytes_lt(a@, b@) == bytes_lt(a@.skip(i as int), b@.skip(i as int)),
            bytes_lt(b@, a@) == bytes_lt(b@.skip(i as int), a@.skip(i as int)),
        decreases a@.len() - i,
    {
        if a[i] != b[i] {
            return if a[i] < b[i] {
                -1
            } else {
                1
            };
        }
        assert(a@.skip(i as int)[0] == a@[i as int]);
        assert(b@.skip(i as int)[0] == b@[i as int]);
        assert(a@.skip(i as int).drop_first() =~= a@.skip(i + 1));
        assert(b@.skip(i as int).drop_first() =~= b@.skip(i + 1));
        assert(a@.subrange(0, i + 1) =~= a@.subrange(0, i as int).push(a@[i as int]));
        assert(b@.subrange(0, i + 1) =~= b@.subrange(0, i as int).push(b@[i as int]));
        i = i + 1;
    }
    if a.len() == b.len() {
        assert(a@ =~= a@.subrange(0, i as int));
        assert(b@ =~= b@.subrange(0, i as int));
        0
    } else if i == a.len() {
        assert(a@.skip(i as int).len() == 0);
        -1
    } else {
        assert(b@.skip(i as int).len() == 0);
        1
    }
}

/// `a` begins with `p`.
pub open spec fn has_prefix(a: Seq<u8>, p: Seq<u8>) -> bool {
    p.len() <= a.len() && a.subrange(0, p.len() as int) == p
}

/// `a` ends with `p`.
pub open spec fn has_suffix(a: Seq<u8>, p: Seq<u8>) -> bool {
    p.len() <= a.len() && a.subrange(a.len() - p.len(), a.len() as int) == p
}

pub fn starts_with(a: &[u8], p: &[u8]) -> (r: bool)
    ensures
        r == has_prefix(a@, p@),
{
    if p.len() > a.len() {
        return false;
    }
    let mut i: usize = 0;
    while i < p.len()
        invariant
            p@.len() <= a@.len(),
            i <= p@.len(),
            a@.subrange(0, i as int) == p@.subrange(0, i as int),
        decreases p@.len() - i,
    {
        if a[i] != p[i] {
            assert(a@.subrange(0, p@.len() as int)[i as int] != p@[i as int]);
            return false;
        }
        assert(a@.subrange(0, i + 1) =~= a@.subrange(0, i as int).push(a@[i as int]));
        assert(p@.subrange(0, i + 1) =~= p@.subrange(0, i as int).push(p@[i as int]));
        i = i + 1;
    }
    assert(p@.subrange(0, i as int) =~= p@);
    true
}

pub fn ends_with(a: &[u8], p: &[u8]) -> (r: bool)
    ensures
        r == has_suffix(a@, p@),
{
    if p.len() > a.len() {
        return false;
    }
    let off: usize = a.len() - p.len();
    let mut i: usize = 0;
    while i < p.len()
        invariant
            off + p@.len() == a@.len(),
            a@.len() == a.len(),
            i <= p@.len(),
            a@.subrange(off as int, off + i) == p@.subrange(0, i as int),
        decreases p@.len() - i,
    {
        if a[off + i] != p[i] {
            assert(a@.subrange(off as int, a@.len() as int)[i as int] != p@[i as int]);
            return false;
        }
        assert(a@.subrange(off as int, off + i + 1) =~= a@.subrange(off as int, off + i).push(
            a@[off + i],
        ));
        assert(p@.subrange(0, i + 1) =~= p@.subrange(0, i as int).push(p@[i as int]));
        i = i + 1;
    }
    assert(p@.subrange(0, i as int) =~= p@);
    true
}

/// Appends the bytes of `b` to `a`.
pub fn push_all(a: &mut Vec<u8>, b: &[u8])
    ensures
        final(a)@ == old(a)@ + b@,
{
    let mut i: usize = 0;
    while i < b.len()
        invariant
            i <= b@.len(),
            a@ == old(a)@ + b@.subrange(0, i as int),
        decreases b@.len() - i,
    {
        a.push(b[i]);
        assert(b@.subrange(0, i + 1) =~= b@.subrange(0, i as int).push(b@[i as int]));
        i = i + 1;
    }
    assert(b@.subrange(0, i as int) =~= b@);
}

/// A copy of `b` as a vector.
pub fn to_bytes(b: &[u8]) -> (r: Vec<u8>)
    ensures
        r@ == b@,
{
    let mut r: Vec<u8> = Vec::new();
    push_all(&mut r, b);
    assert(r@ =~= b@);
    r
}

/// The bytes of an optional byte string.
pub open spec fn opt_bytes(o: Option<Vec<u8>>) -> Option<Seq<u8>> {
    match o {
        Some(v) => Some(v@),
        None => None,
    }
}

/// The bytes of a text: its UTF-8 encoding.
pub open spec fn text(s: &str) -> Seq<u8> {
    s.spec_bytes()
}

/// `dir` joined with `name`, as `Path::join` does on Unix: an absolute `name`
/// replaces `dir`; else a `/` is put between them unless `dir` is empty or
/// already ends with one.
pub open spec fn path_join(dir: Seq<u8>, name: Seq<u8>) -> Seq<u8> {
    if name.len() > 0 && name[0] == 0x2fu8 {
        name
    } else if dir.len() == 0 || dir.last() == 0x2fu8 {
        dir + name
    } else {
        dir + seq![0x2fu8] + name
    }
}

pub fn join_path(dir: &[u8], name: &[u8]) -> (r: Vec<u8>)
    ensures
        r@ == path_join(dir@, name@),
{
    if name.len() > 0 && name[0] == 0x2fu8 {
        return to_bytes(name);
    }
    let mut r = to_bytes(dir);
    if dir.len() > 0 && dir[dir.len() - 1] != 0x2fu8 {
        r.push(0x2fu8);
    }
    push_all(&mut r, name);
    r
}

} // verus!
