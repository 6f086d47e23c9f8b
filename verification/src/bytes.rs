//! Byte-string helpers shared by the codec and the store: equality,
//! lexicographic order (the order of textual keys in the store), and
//! removal of trailing NUL padding from fixed-capacity fields.

use vstd::prelude::*;

verus! {

/// `a` is equal to `b` or precedes it in lexicographic byte order.
pub open spec fn lex_le(a: Seq<u8>, b: Seq<u8>) -> bool
    decreases a.len(),
{
    if a.len() == 0 {
        true
    } else if b.len() == 0 {
        false
    } else if a[0] < b[0] {
        true
    } else if a[0] > b[0] {
        false
    } else {
        lex_le(a.drop_first(), b.drop_first())
    }
}

/// Lexicographic order is total: of any two byte strings, one precedes
/// the other (or they are equal and each precedes the other).
pub proof fn lemma_lex_le_total(a: Seq<u8>, b: Seq<u8>)
    ensures
        lex_le(a, b) || lex_le(b, a),
    decreases a.len(),
{
    if a.len() == 0 {
    } else if b.len() == 0 {
    } else if a[0] == b[0] {
        lemma_lex_le_total(a.drop_first(), b.drop_first());
    }
}

/// Lexicographic order is transitive.
pub proof fn lemma_lex_le_trans(a: Seq<u8>, b: Seq<u8>, c: Seq<u8>)
    requires
        lex_le(a, b),
        lex_le(b, c),
    ensures
        lex_le(a, c),
    decreases a.len(),
{
    if a.len() == 0 {
    } else {
        assert(b.len() > 0);
        assert(c.len() > 0);
        if a[0] == b[0] && b[0] == c[0] {
            lemma_lex_le_trans(a.drop_first(), b.drop_first(), c.drop_first());
        }
    }
}

/// Skipping a common prefix does not change the lexicographic comparison.
pub proof fn lemma_lex_le_skip(a: Seq<u8>, b: Seq<u8>, i: int)
    requires
        0 <= i <= a.len(),
        i <= b.len(),
        forall|k: int| 0 <= k < i ==> a[k] == b[k],
    ensures
        lex_le(a, b) == lex_le(a.skip(i), b.skip(i)),
    decreases i,
{
    if i == 0 {
        assert(a.skip(0) =~= a);
        assert(b.skip(0) =~= b);
    } else {
        assert(a.drop_first() =~= a.skip(1));
        assert(b.drop_first() =~= b.skip(1));
        assert(forall|k: int| 0 <= k < i - 1 ==> a.skip(1)[k] == b.skip(1)[k]);
        lemma_lex_le_skip(a.skip(1), b.skip(1), i - 1);
        assert(a.skip(1).skip(i - 1) =~= a.skip(i));
        assert(b.skip(1).skip(i - 1) =~= b.skip(i));
    }
}

/// Exact byte-string equality.
pub fn bytes_eq(a: &[u8], b: &[u8]) -> (r: bool)
    ensures
        r == (a@ == b@),
{
    if a.len() != b.len() {
        return false;
    }
    let n = a.len();
    let mut i: usize = 0;
    while i < n
        invariant
            n == a.len() == b.len(),
            i <= n,
            forall|k: int| 0 <= k < i ==> a@[k] == b@[k],
        decreases n - i,
    {
        if a[i] != b[i] {
            return false;
        }
        i = i + 1;
    }
    proof {
        assert(a@ =~= b@);
    }
    true
}

/// Lexicographic comparison of byte strings: true when `a` is equal to
/// `b` or precedes it.
pub fn bytes_le(a: &[u8], b: &[u8]) -> (r: bool)
    ensures
        r == lex_le(a@, b@),
{
    let n = if a.len() < b.len() {
        a.len()
    } else {
        b.len()
    };
    let mut i: usize = 0;
    while i < n
        invariant
            n <= a.len(),
            n <= b.len(),
            n == a.len() || n == b.len(),
            i <= n,
            forall|k: int| 0 <= k < i ==> a@[k] == b@[k],
        decreases n - i,
    {
        if a[i] < b[i] {
            proof {
                lemma_lex_le_skip(a@, b@, i as int);
            }
            return true;
        }
        if a[i] > b[i] {
            proof {
                lemma_lex_le_skip(a@, b@, i as int);
                lemma_lex_le_skip(b@, a@, i as int);
            }
            return false;
        }
        i = i + 1;
    }
    proof {
        lemma_lex_le_skip(a@, b@, n as int);
        lemma_lex_le_skip(b@, a@, n as int);
    }
    a.len() <= b.len()
}

/// The byte string with every trailing NUL removed.
pub open spec fn spec_strip(s: Seq<u8>) -> Seq<u8>
    decreases s.len(),
{
    if s.len() > 0 && s.last() == 0 {
        spec_strip(s.drop_last())
    } else {
        s
    }
}

/// `s` padded with NUL bytes up to capacity `cap`.
pub open spec fn spec_pad(s: Seq<u8>, cap: nat) -> Seq<u8>
    recommends
        s.len() <= cap,
{
    s + Seq::new((cap - s.len()) as nat, |i: int| 0u8)
}

/// A stripped byte string is characterized by its cut position: all
/// bytes from `e` on are NUL and the byte before `e`, if any, is not.
pub proof fn lemma_strip_characterization(s: Seq<u8>, e: int)
    requires
        0 <= e <= s.len(),
        forall|k: int| e <= k < s.len() ==> s[k] == 0,
        e == 0 || s[e - 1] != 0,
    ensures
        spec_strip(s) == s.subrange(0, e),
    decreases s.len(),
{
    if s.len() == e {
        assert(s.subrange(0, e) =~= s);
    } else {
        assert(s.last() == 0);
        lemma_strip_characterization(s.drop_last(), e);
        assert(s.drop_last().subrange(0, e) =~= s.subrange(0, e));
    }
}

/// Padding round-trip: a byte string without trailing NULs that fits the
/// capacity is recovered exactly when its padded form is stripped.
pub proof fn lemma_pad_strip_roundtrip(s: Seq<u8>, cap: nat)
    requires
        s.len() <= cap,
        s.len() == 0 || s.last() != 0,
    ensures
        spec_strip(spec_pad(s, cap)) == s,
{
    let p = spec_pad(s, cap);
    assert(forall|k: int| s.len() <= k < p.len() ==> p[k] == 0);
    assert(forall|k: int| 0 <= k < s.len() ==> p[k] == s[k]);
    lemma_strip_characterization(p, s.len() as int);
    assert(p.subrange(0, s.len() as int) =~= s);
}

/// Remove every trailing NUL byte.
pub fn strip_trailing_nuls(v: &[u8]) -> (r: Vec<u8>)
    ensures
        r@ == spec_strip(v@),
{
    let mut e: usize = v.len();
    while e > 0 && v[e - 1] == 0
        invariant
            e <= v.len(),
            forall|k: int| e <= k < v@.len() ==> v@[k] == 0,
        decreases e,
    {
        e = e - 1;
    }
    let mut r: Vec<u8> = Vec::new();
    let mut i: usize = 0;
    while i < e
        invariant
            e <= v.len(),
            i <= e,
            r@ =~= v@.subrange(0, i as int),
        decreases e - i,
    {
        r.push(v[i]);
        proof {
            assert(r@ =~= v@.subrange(0, i + 1 as int));
        }
        i = i + 1;
    }
    proof {
        lemma_strip_characterization(v@, e as int);
    }
    r
}

} // verus!
