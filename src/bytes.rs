//! Byte-level model of the library: the padded prefix, the suffix, and the
//! lexicographic order on byte sequences, with executable counterparts.
use core::cmp::Ordering;
use vstd::prelude::*;
use vstd::slice::slice_subrange;
use vstd::string::StringSliceAdditionalSpecFns;
use vstd::utf8::encode_utf8;

verus! {

/// The first four bytes of `b`, with zeros in place of missing bytes.
pub open spec fn prefix_of(b: Seq<u8>) -> Seq<u8> {
    Seq::new(4, |i: int| if i < b.len() { b[i] } else { 0u8 })
}

/// Every byte of `b` but the first four.
pub open spec fn suffix_of(b: Seq<u8>) -> Seq<u8> {
    if b.len() <= 4 {
        Seq::empty()
    } else {
        b.subrange(4, b.len() as int)
    }
}

/// Lexicographic order on byte sequences, the order of `[u8]` and of `str`.
pub open spec fn lex_cmp(a: Seq<u8>, b: Seq<u8>) -> Ordering
    decreases a.len(),
{
    if a.len() == 0 {
        if b.len() == 0 {
            Ordering::Equal
        } else {
            Ordering::Less
        }
    } else if b.len() == 0 {
        Ordering::Greater
    } else if a[0] < b[0] {
        Ordering::Less
    } else if a[0] > b[0] {
        Ordering::Greater
    } else {
        lex_cmp(a.drop_first(), b.drop_first())
    }
}

/// The order of two sequences is decided after any common prefix.
pub proof fn lemma_lex_cmp_skip(a: Seq<u8>, b: Seq<u8>, k: int)
    requires
        0 <= k <= a.len(),
        k <= b.len(),
        a.take(k) == b.take(k),
    ensures
        lex_cmp(a, b) == lex_cmp(a.subrange(k, a.len() as int), b.subrange(k, b.len() as int)),
    decreases k,
{
    if k > 0 {
        assert(a[0] == a.take(k)[0]);
        assert(b[0] == b.take(k)[0]);
        assert(a.drop_first().take(k - 1) =~= a.take(k).drop_first());
        assert(b.drop_first().take(k - 1) =~= b.take(k).drop_first());
        lemma_lex_cmp_skip(a.drop_first(), b.drop_first(), k - 1);
        assert(a.drop_first().subrange(k - 1, a.len() - 1) =~= a.subrange(k, a.len() as int));
        assert(b.drop_first().subrange(k - 1, b.len() - 1) =~= b.subrange(k, b.len() as int));
    } else {
        assert(a.subrange(0, a.len() as int) =~= a);
        assert(b.subrange(0, b.len() as int) =~= b);
    }
}

/// The order is `Equal` exactly when the sequences are equal.
pub proof fn lemma_lex_cmp_equal(a: Seq<u8>, b: Seq<u8>)
    ensures
        (lex_cmp(a, b) == Ordering::Equal) <==> (a == b),
    decreases a.len(),
{
    if a.len() > 0 && b.len() > 0 && a[0] == b[0] {
        lemma_lex_cmp_equal(a.drop_first(), b.drop_first());
        if a.drop_first() == b.drop_first() {
            assert(a =~= seq![a[0]] + a.drop_first());
            assert(b =~= seq![b[0]] + b.drop_first());
        }
    } else if a.len() > 0 && b.len() > 0 {
        assert(a[0] != b[0]);
    } else if a.len() > 0 || b.len() > 0 {
        assert(a.len() != b.len());
    } else {
        assert(a =~= b);
    }
}

/// Swapping the operands reverses the order.
pub proof fn lemma_lex_cmp_antisymmetric(a: Seq<u8>, b: Seq<u8>)
    ensures
        lex_cmp(a, b) == Ordering::Less <==> lex_cmp(b, a) == Ordering::Greater,
        lex_cmp(a, b) == Ordering::Equal <==> lex_cmp(b, a) == Ordering::Equal,
    decreases a.len(),
{
    if a.len() > 0 && b.len() > 0 && a[0] == b[0] {
        lemma_lex_cmp_antisymmetric(a.drop_first(), b.drop_first());
    }
}

/// When `a` is an initial part of `b`, the order is decided by the lengths.
pub proof fn lemma_lex_cmp_initial(a: Seq<u8>, b: Seq<u8>)
    requires
        a.len() <= b.len(),
        a == b.take(a.len() as int),
    ensures
        lex_cmp(a, b) == (if a.len() == b.len() { Ordering::Equal } else { Ordering::Less }),
        lex_cmp(b, a) == (if a.len() == b.len() { Ordering::Equal } else { Ordering::Greater }),
{
    assert(a.take(a.len() as int) =~= a);
    lemma_lex_cmp_skip(a, b, a.len() as int);
    lemma_lex_cmp_skip(b, a, a.len() as int);
    assert(a.subrange(a.len() as int, a.len() as int) =~= Seq::<u8>::empty());
}

/// The order of two sequences that agree before index `k` and differ at it.
pub proof fn lemma_lex_cmp_first_difference(a: Seq<u8>, b: Seq<u8>, k: int)
    requires
        0 <= k < a.len(),
        k < b.len(),
        a.take(k) == b.take(k),
        a[k] != b[k],
    ensures
        lex_cmp(a, b) == (if a[k] < b[k] { Ordering::Less } else { Ordering::Greater }),
{
    lemma_lex_cmp_skip(a, b, k);
    let sa = a.subrange(k, a.len() as int);
    let sb = b.subrange(k, b.len() as int);
    assert(sa[0] == a[k] && sb[0] == b[k]);
}

/// Two sequences of one length with the same padded prefix and suffix are equal.
pub proof fn lemma_split_determines(a: Seq<u8>, b: Seq<u8>)
    requires
        a.len() == b.len(),
        prefix_of(a) == prefix_of(b),
        suffix_of(a) == suffix_of(b),
    ensures
        a == b,
{
    assert forall|i: int| 0 <= i < a.len() implies a[i] == b[i] by {
        if i < 4 {
            assert(prefix_of(a)[i] == a[i]);
            assert(prefix_of(b)[i] == b[i]);
        } else {
            assert(suffix_of(a)[i - 4] == a[i]);
            assert(suffix_of(b)[i - 4] == b[i]);
        }
    }
    assert(a =~= b);
}

/// Where the padded prefixes differ, their order is the order of the sequences.
pub proof fn lemma_prefix_order(a: Seq<u8>, b: Seq<u8>)
    requires
        prefix_of(a) != prefix_of(b),
    ensures
        lex_cmp(prefix_of(a), prefix_of(b)) == lex_cmp(a, b),
        lex_cmp(a, b) != Ordering::Equal,
{
    let pa = prefix_of(a);
    let pb = prefix_of(b);
    let k: int = if pa[0] != pb[0] {
        0
    } else if pa[1] != pb[1] {
        1
    } else if pa[2] != pb[2] {
        2
    } else {
        if pa[3] == pb[3] {
            assert(pa =~= pb);
        }
        3
    };
    assert(pa.take(k) =~= pb.take(k));
    lemma_lex_cmp_first_difference(pa, pb, k);
    if k < a.len() && k < b.len() {
        assert(a.take(k) =~= b.take(k)) by {
            assert forall|j: int| 0 <= j < k implies a[j] == b[j] by {
                assert(pa[j] == pb[j]);
            }
        }
        lemma_lex_cmp_first_difference(a, b, k);
    } else if k >= a.len() {
        assert(a =~= b.take(a.len() as int)) by {
            assert forall|j: int| 0 <= j < a.len() implies a[j] == b[j] by {
                assert(pa[j] == pb[j]);
            }
        }
        lemma_lex_cmp_initial(a, b);
    } else {
        assert(b =~= a.take(b.len() as int)) by {
            assert forall|j: int| 0 <= j < b.len() implies a[j] == b[j] by {
                assert(pa[j] == pb[j]);
            }
        }
        lemma_lex_cmp_initial(b, a);
    }
}

/// Where the padded prefixes agree and both sequences are at most four bytes
/// long, the order is that of the lengths.
pub proof fn lemma_short_order(a: Seq<u8>, b: Seq<u8>)
    requires
        prefix_of(a) == prefix_of(b),
        a.len() <= 4,
        b.len() <= 4,
    ensures
        lex_cmp(a, b) == (if a.len() < b.len() {
            Ordering::Less
        } else if a.len() > b.len() {
            Ordering::Greater
        } else {
            Ordering::Equal
        }),
        (a == b) == (a.len() == b.len()),
{
    let pa = prefix_of(a);
    let pb = prefix_of(b);
    if a.len() <= b.len() {
        assert(a =~= b.take(a.len() as int)) by {
            assert forall|j: int| 0 <= j < a.len() implies a[j] == b[j] by {
                assert(pa[j] == pb[j]);
            }
        }
        lemma_lex_cmp_initial(a, b);
    } else {
        assert(b =~= a.take(b.len() as int)) by {
            assert forall|j: int| 0 <= j < b.len() implies a[j] == b[j] by {
                assert(pa[j] == pb[j]);
            }
        }
        lemma_lex_cmp_initial(b, a);
    }
    lemma_lex_cmp_equal(a, b);
}

/// Where the padded prefixes agree and one sequence is longer than four
/// bytes, the order is that of the suffixes.
pub proof fn lemma_suffix_order(a: Seq<u8>, b: Seq<u8>)
    requires
        prefix_of(a) == prefix_of(b),
        a.len() > 4 || b.len() > 4,
    ensures
        lex_cmp(a, b) == lex_cmp(suffix_of(a), suffix_of(b)),
        (a == b) == (suffix_of(a) == suffix_of(b)),
{
    let pa = prefix_of(a);
    let pb = prefix_of(b);
    if a.len() >= 4 && b.len() >= 4 {
        assert(a.take(4) =~= b.take(4)) by {
            assert forall|j: int| 0 <= j < 4 implies a[j] == b[j] by {
                assert(pa[j] == pb[j]);
            }
        }
        lemma_lex_cmp_skip(a, b, 4);
        assert(suffix_of(a) =~= a.subrange(4, a.len() as int));
        assert(suffix_of(b) =~= b.subrange(4, b.len() as int));
    } else if a.len() < 4 {
        assert(a =~= b.take(a.len() as int)) by {
            assert forall|j: int| 0 <= j < a.len() implies a[j] == b[j] by {
                assert(pa[j] == pb[j]);
            }
        }
        lemma_lex_cmp_initial(a, b);
    } else {
        assert(b =~= a.take(b.len() as int)) by {
            assert forall|j: int| 0 <= j < b.len() implies a[j] == b[j] by {
                assert(pa[j] == pb[j]);
            }
        }
        lemma_lex_cmp_initial(b, a);
    }
    lemma_lex_cmp_equal(a, b);
    lemma_lex_cmp_equal(suffix_of(a), suffix_of(b));
}

/// The encoding of a concatenation is the concatenation of the encodings.
pub proof fn lemma_encode_utf8_concat(a: Seq<char>, b: Seq<char>)
    ensures
        encode_utf8(a + b) == encode_utf8(a) + encode_utf8(b),
    decreases a.len(),
{
    if a.len() == 0 {
        assert(a + b =~= b);
        assert(encode_utf8(a) + encode_utf8(b) =~= encode_utf8(b));
    } else {
        assert((a + b).drop_first() =~= a.drop_first() + b);
        lemma_encode_utf8_concat(a.drop_first(), b);
        let first = vstd::utf8::encode_scalar(a[0] as u32);
        assert(first + (encode_utf8(a.drop_first()) + encode_utf8(b)) =~= (first + encode_utf8(
            a.drop_first(),
        )) + encode_utf8(b));
    }
}

/// Byte-wise comparison of two slices.
pub fn compare_bytes(a: &[u8], b: &[u8]) -> (r: Ordering)
    ensures
        r == lex_cmp(a@, b@),
{
    let mut i: usize = 0;
    assert(a@.subrange(0, a@.len() as int) =~= a@);
    assert(b@.subrange(0, b@.len() as int) =~= b@);
    while i < a.len() && i < b.len()
        invariant
            i <= a@.len(),
            i <= b@.len(),
            lex_cmp(a@, b@) == lex_cmp(
                a@.subrange(i as int, a@.len() as int),
                b@.subrange(i as int, b@.len() as int),
            ),
        decreases a@.len() - i,
    {
        let x = a[i];
        let y = b[i];
        let ghost sa = a@.subrange(i as int, a@.len() as int);
        let ghost sb = b@.subrange(i as int, b@.len() as int);
        assert(sa[0] == x && sb[0] == y);
        if x < y {
            return Ordering::Less;
        }
        if x > y {
            return Ordering::Greater;
        }
        assert(sa.drop_first() =~= a@.subrange(i + 1, a@.len() as int));
        assert(sb.drop_first() =~= b@.subrange(i + 1, b@.len() as int));
        i = i + 1;
    }
    if a.len() < b.len() {
        Ordering::Less
    } else if a.len() > b.len() {
        Ordering::Greater
    } else {
        Ordering::Equal
    }
}

/// Byte-wise equality of two slices.
pub fn bytes_equal(a: &[u8], b: &[u8]) -> (r: bool)
    ensures
        r == (a@ == b@),
{
    if a.len() != b.len() {
        return false;
    }
    let mut i: usize = 0;
    while i < a.len()
        invariant
            a@.len() == b@.len(),
            i <= a@.len(),
            forall|j: int| 0 <= j < i ==> a@[j] == b@[j],
        decreases a@.len() - i,
    {
        if a[i] != b[i] {
            return false;
        }
        i = i + 1;
    }
    assert(a@ =~= b@);
    true
}

/// Returns the first four bytes of a string.
/// If the string has fewer than four bytes, the missing bytes are zeros.
pub fn str_prefix(src: &str) -> (r: [u8; 4])
    ensures
        r@ == prefix_of(src.spec_bytes()),
{
    let bytes = src.as_bytes();
    let mut out: [u8; 4] = [0u8; 4];
    let mut i: usize = 0;
    while i < 4 && i < bytes.len()
        invariant
            i <= 4,
            i <= bytes@.len(),
            bytes@ == src.spec_bytes(),
            forall|j: int| 0 <= j < i ==> out@[j] == bytes@[j],
            forall|j: int| i <= j < 4 ==> out@[j] == 0u8,
        decreases 4 - i,
    {
        out[i] = bytes[i];
        i = i + 1;
    }
    assert(out@ =~= prefix_of(src.spec_bytes()));
    out
}

/// Returns every byte of a string but the first four.
pub fn str_suffix(src: &str) -> (r: &[u8])
    ensures
        r@ == suffix_of(src.spec_bytes()),
{
    let bytes = src.as_bytes();
    if bytes.len() <= 4 {
        slice_subrange(bytes, 0, 0)
    } else {
        slice_subrange(bytes, 4, bytes.len())
    }
}

} // verus!
