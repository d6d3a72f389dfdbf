//! Laws that relate the library's functions, stated over the views their
//! contracts use.
use core::cmp::Ordering;
use vstd::prelude::*;
use vstd::string::StringSliceAdditionalSpecFns;
use vstd::utf8::{decode_utf8, encode_utf8};

use crate::bytes::{
    lemma_encode_utf8_concat, lemma_lex_cmp_antisymmetric, lemma_lex_cmp_equal, lex_cmp,
};
use crate::german::GermanStr;

verus! {

broadcast use vstd::utf8::group_utf8_lib;

/// The bytes that writing the pieces of `pieces` one after another produces.
pub open spec fn written_bytes(pieces: Seq<Seq<char>>) -> Seq<u8>
    decreases pieces.len(),
{
    if pieces.len() == 0 {
        Seq::empty()
    } else {
        written_bytes(pieces.drop_last()) + encode_utf8(pieces.last())
    }
}

/// The text of the pieces of `pieces` joined together.
pub open spec fn joined_text(pieces: Seq<Seq<char>>) -> Seq<char>
    decreases pieces.len(),
{
    if pieces.len() == 0 {
        Seq::empty()
    } else {
        joined_text(pieces.drop_last()) + pieces.last()
    }
}

/// Reading back a constructed value gives the string it was made from:
/// a value that holds the bytes of `s` has the text of `s`.
pub proof fn lemma_construct_round_trip(s: &str, g: GermanStr)
    requires
        g@ == s.spec_bytes(),
    ensures
        g.text() == s@,
        decode_utf8(g@) == s@,
{
}

/// Comparing two constructed values agrees with comparing their strings:
/// the values are equal exactly when the strings are, their order is the
/// byte-wise order of the strings, `Equal` exactly when the strings are
/// equal, and swapping the operands reverses it.
pub proof fn lemma_comparison_agrees(a: &str, b: &str, ga: GermanStr, gb: GermanStr)
    requires
        ga@ == a.spec_bytes(),
        gb@ == b.spec_bytes(),
    ensures
        (ga@ == gb@) == (a@ == b@),
        lex_cmp(ga@, gb@) == lex_cmp(a.spec_bytes(), b.spec_bytes()),
        (lex_cmp(ga@, gb@) == Ordering::Equal) == (a@ == b@),
        (lex_cmp(ga@, gb@) == Ordering::Less) == (lex_cmp(gb@, ga@) == Ordering::Greater),
{
    lemma_lex_cmp_equal(ga@, gb@);
    lemma_lex_cmp_antisymmetric(ga@, gb@);
    assert(decode_utf8(encode_utf8(a@)) == a@);
    assert(decode_utf8(encode_utf8(b@)) == b@);
}

/// A clone compares equal to its original, both with `==` and with `cmp`,
/// in either order.
pub proof fn lemma_clone_equal(v: GermanStr, c: GermanStr)
    requires
        c@ == v@,
    ensures
        lex_cmp(c@, v@) == Ordering::Equal,
        lex_cmp(v@, c@) == Ordering::Equal,
{
    lemma_lex_cmp_equal(c@, v@);
    lemma_lex_cmp_equal(v@, c@);
}

/// Writing pieces one after another produces the bytes of the joined text,
/// which are what constructing from the joined text stores.
pub proof fn lemma_building_joins(pieces: Seq<Seq<char>>)
    ensures
        written_bytes(pieces) == encode_utf8(joined_text(pieces)),
    decreases pieces.len(),
{
    if pieces.len() > 0 {
        lemma_building_joins(pieces.drop_last());
        lemma_encode_utf8_concat(joined_text(pieces.drop_last()), pieces.last());
    }
}

} // verus!
