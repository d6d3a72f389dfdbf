//! Calls into std that vstd gives no contract, each with the contract that
//! this library relies on.
use std::sync::Arc;
use vstd::prelude::*;
use vstd::string::StringSliceAdditionalSpecFns;
use vstd::utf8::valid_utf8;

verus! {

/// Relies on `core::str::from_utf8`: it accepts exactly the byte sequences
/// that are valid UTF-8, and the text it returns holds those bytes.
#[verifier::external_body]
pub(crate) fn utf8_text(bytes: &[u8]) -> (r: Option<&str>)
    ensures
        r is Some <==> valid_utf8(bytes@),
        r matches Some(s) ==> s.spec_bytes() == bytes@,
{
    core::str::from_utf8(bytes).ok()
}

/// Relies on `Arc::clone`: the new handle refers to the same string.
#[verifier::external_body]
pub(crate) fn share_text(text: &Arc<String>) -> (r: Arc<String>)
    ensures
        r@ == text@,
{
    Arc::clone(text)
}

/// Relies on `<str as Hash>::hash`: it feeds the text to the hasher.
#[verifier::external_body]
pub(crate) fn hash_text<H: core::hash::Hasher>(text: &str, state: &mut H) {
    core::hash::Hash::hash(text, state)
}

/// Relies on `From<&str> for Arc<str>`: it copies the text into a new
/// reference-counted string.
#[verifier::external_body]
pub(crate) fn shared_str(text: &str) -> (r: Arc<str>)
    ensures
        r.spec_bytes() == text.spec_bytes(),
{
    Arc::from(text)
}

/// Relies on `str::as_ptr`: the address of the first byte of the text. An
/// address depends on the allocator, so nothing is promised of its value.
#[verifier::external_body]
pub(crate) fn text_address(text: &str) -> usize {
    text.as_ptr() as usize
}

} // verus!
