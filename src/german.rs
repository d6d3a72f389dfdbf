//! The compact string value: its representation, construction, accessors,
//! lifecycle and comparisons.
use core::cmp::Ordering;
use std::sync::Arc;
use vstd::prelude::*;
use vstd::slice::slice_subrange;
use vstd::string::StringSliceAdditionalSpecFns;
use vstd::utf8::{decode_utf8, encode_utf8, valid_utf8};

use crate::bytes::{
    bytes_equal, compare_bytes, lemma_lex_cmp_equal, lemma_prefix_order, lemma_short_order,
    lemma_split_determines, lemma_suffix_order, lex_cmp, prefix_of, str_prefix, str_suffix,
    suffix_of,
};
use crate::std_calls::{hash_text, share_text, shared_str, text_address, utf8_text};
use crate::{MAX_INLINE_BYTES, MAX_LEN};

verus! {

broadcast use vstd::utf8::group_utf8_lib;

/// Whether a handle to a heap buffer is the buffer's only owner.
#[derive(Clone, Copy, PartialEq, Eq, Structural)]
enum Ownership {
    /// The handle owns the buffer alone.
    Owned,
    /// Other handles, made by `leaky_shared_clone`, may refer to the buffer.
    Shared,
}

/// Where the bytes of a string are kept.
enum Payload {
    /// The whole string, zero-padded to twelve bytes.
    Inline([u8; 12]),
    /// A heap buffer holding the whole string, prefix included.
    Heap { text: Arc<String>, ownership: Ownership },
}

/// An immutable UTF-8 string of at most `MAX_LEN` bytes.
///
/// Strings of at most `MAX_INLINE_BYTES` bytes are kept entirely within the
/// value; longer ones in a heap buffer. The first four bytes are always
/// kept in `prefix` too, so that most comparisons never read further.
///
/// A heap buffer is reference counted. `clone` copies it, so that clones are
/// independent; `leaky_shared_clone` makes further handles to the same buffer
/// and marks them shared. The buffer is freed when its last handle is
/// dropped or freed, so no use of a shared handle can free it twice.
pub struct GermanStr {
    /// Number of bytes of the string; it also tells which payload is used.
    len: u32,
    /// The first four bytes of the string, zero-padded.
    prefix: [u8; 4],
    payload: Payload,
}

/// Why a `GermanStr` could not be made.
#[derive(Clone, Copy, Debug, PartialEq, Eq, Structural)]
pub enum InitError {
    /// The string is longer than `MAX_LEN` bytes.
    TooLong,
}

impl InitError {
    /// A message that describes the error.
    pub fn to_string(&self) -> (r: String)
        ensures
            r@ == "Tried to initialize a GermanStr longer than 4GB."@,
    {
        match self {
            InitError::TooLong => "Tried to initialize a GermanStr longer than 4GB.".to_owned(),
        }
    }
}

impl View for GermanStr {
    type V = Seq<u8>;

    /// The bytes of the string.
    closed spec fn view(&self) -> Seq<u8> {
        match self.payload {
            Payload::Inline(buf) => buf@.take(self.len as int),
            Payload::Heap { text, .. } => encode_utf8(text@),
        }
    }
}

impl GermanStr {
    #[verifier::type_invariant]
    spec fn well_formed(self) -> bool {
        &&& self@.len() == self.len
        &&& self.prefix@ == prefix_of(self@)
        &&& valid_utf8(self@)
        &&& match self.payload {
            Payload::Inline(_) => self.len <= MAX_INLINE_BYTES,
            Payload::Heap { .. } => self.len > MAX_INLINE_BYTES,
        }
    }

    /// Whether the string is kept in a heap buffer.
    pub closed spec fn is_heap(&self) -> bool {
        self.payload is Heap
    }

    /// Whether the string is kept in a heap buffer that other handles may share.
    pub closed spec fn is_shared(&self) -> bool {
        &&& self.payload is Heap
        &&& self.payload->ownership == Ownership::Shared
    }

    /// The characters of the string.
    pub open spec fn text(&self) -> Seq<char> {
        decode_utf8(self@)
    }

    /// Makes a `GermanStr` holding a copy of `src`.
    ///
    /// Fails with `TooLong` when `src` has more than `MAX_LEN` bytes.
    /// Strings of at most `MAX_INLINE_BYTES` bytes are kept inline; longer
    /// ones are copied whole into a new heap buffer that the result owns.
    pub fn new(src: &str) -> (r: Result<GermanStr, InitError>)
        ensures
            r is Err <==> src.spec_bytes().len() > MAX_LEN,
            r matches Err(e) ==> e == InitError::TooLong,
            r matches Ok(g) ==> {
                &&& g@ == src.spec_bytes()
                &&& g.is_heap() <==> src.spec_bytes().len() > MAX_INLINE_BYTES
                &&& !g.is_shared()
            },
    {
        let n = src.as_bytes().len();
        if n > MAX_LEN {
            return Err(InitError::TooLong);
        }
        if n <= MAX_INLINE_BYTES {
            return Ok(GermanStr::new_inline(src));
        }
        let text: String = src.to_owned();
        let prefix = str_prefix(src);
        Ok(GermanStr {
            len: n as u32,
            prefix,
            payload: Payload::Heap { text: Arc::new(text), ownership: Ownership::Owned },
        })
    }

    /// Makes a `GermanStr` kept entirely within the value, with no heap allocation.
    ///
    /// The caller guarantees that `src` has at most `MAX_INLINE_BYTES` bytes.
    pub fn new_inline(src: &str) -> (r: GermanStr)
        requires
            src.spec_bytes().len() <= MAX_INLINE_BYTES,
        ensures
            r@ == src.spec_bytes(),
            !r.is_heap(),
    {
        let bytes = src.as_bytes();
        let n = bytes.len();
        let mut buf: [u8; 12] = [0u8; 12];
        let mut i: usize = 0;
        while i < n
            invariant
                n == bytes@.len(),
                n <= MAX_INLINE_BYTES,
                i <= n,
                forall|j: int| 0 <= j < i ==> buf@[j] == bytes@[j],
            decreases n - i,
        {
            buf[i] = bytes[i];
            i = i + 1;
        }
        let prefix = str_prefix(src);
        assert(buf@.take(n as int) =~= bytes@);
        GermanStr { len: n as u32, prefix, payload: Payload::Inline(buf) }
    }

    /// Makes an inline `GermanStr` from the first `len` bytes of `buf`.
    pub(crate) fn from_inline_bytes(buf: &[u8; 12], len: usize) -> (r: GermanStr)
        requires
            len <= MAX_INLINE_BYTES,
            valid_utf8(buf@.take(len as int)),
        ensures
            r@ == buf@.take(len as int),
            !r.is_heap(),
    {
        let mut prefix: [u8; 4] = [0u8; 4];
        let mut i: usize = 0;
        while i < 4 && i < len
            invariant
                len <= MAX_INLINE_BYTES,
                i <= 4,
                i <= len,
                forall|j: int| 0 <= j < i ==> prefix@[j] == buf@[j],
                forall|j: int| i <= j < 4 ==> prefix@[j] == 0u8,
            decreases 4 - i,
        {
            prefix[i] = buf[i];
            i = i + 1;
        }
        let mut bytes: [u8; 12] = [0u8; 12];
        let mut k: usize = 0;
        while k < len
            invariant
                len <= MAX_INLINE_BYTES,
                k <= len,
                forall|j: int| 0 <= j < k ==> bytes@[j] == buf@[j],
            decreases len - k,
        {
            bytes[k] = buf[k];
            k = k + 1;
        }
        assert(bytes@.take(len as int) =~= buf@.take(len as int));
        assert(prefix@ =~= prefix_of(buf@.take(len as int)));
        GermanStr { len: len as u32, prefix, payload: Payload::Inline(bytes) }
    }

    /// Makes a `GermanStr` that takes over a string longer than
    /// `MAX_INLINE_BYTES` bytes as its heap buffer, without copying it.
    pub(crate) fn from_long_string(text: String) -> (r: GermanStr)
        requires
            MAX_INLINE_BYTES < encode_utf8(text@).len() <= MAX_LEN,
        ensures
            r@ == encode_utf8(text@),
            r.is_heap(),
            !r.is_shared(),
    {
        let n = text.as_str().as_bytes().len();
        let prefix = str_prefix(text.as_str());
        GermanStr {
            len: n as u32,
            prefix,
            payload: Payload::Heap { text: Arc::new(text), ownership: Ownership::Owned },
        }
    }

    /// Returns the address of the heap buffer, if the string is not inline.
    ///
    /// Handles made by `leaky_shared_clone` return the same address, so the
    /// address identifies a buffer, for instance in a set of those released.
    pub fn heap_ptr(&self) -> (r: Option<usize>)
        ensures
            r is Some <==> self.is_heap(),
    {
        match &self.payload {
            Payload::Inline(_) => None,
            Payload::Heap { text, .. } => Some(text_address(text.as_str())),
        }
    }

    /// Returns whether `self` is kept in a heap buffer that other handles
    /// may share, as after `leaky_shared_clone`.
    pub fn has_shared_buffer(&self) -> (r: bool)
        ensures
            r == self.is_shared(),
    {
        match &self.payload {
            Payload::Inline(_) => false,
            Payload::Heap { ownership, .. } => *ownership == Ownership::Shared,
        }
    }

    /// Returns the number of bytes of the string.
    pub fn len(&self) -> (r: usize)
        ensures
            r == self@.len(),
    {
        proof {
            use_type_invariant(self);
        }
        self.len as usize
    }

    /// Returns whether the string is empty.
    pub fn is_empty(&self) -> (r: bool)
        ensures
            r == (self@.len() == 0),
    {
        proof {
            use_type_invariant(self);
        }
        self.len == 0
    }

    /// Returns whether a heap buffer is used to store the string.
    pub fn is_heap_allocated(&self) -> (r: bool)
        ensures
            r == self.is_heap(),
            r == (self@.len() > MAX_INLINE_BYTES),
    {
        proof {
            use_type_invariant(self);
        }
        self.len as usize > MAX_INLINE_BYTES
    }

    /// Returns whether the string is stored entirely within `self`.
    pub fn is_inlined(&self) -> (r: bool)
        ensures
            r == !self.is_heap(),
            r == (self@.len() <= MAX_INLINE_BYTES),
    {
        !self.is_heap_allocated()
    }

    /// Returns the first four bytes of the string, zero-padded.
    pub fn prefix_bytes_array(&self) -> (r: [u8; 4])
        ensures
            r@ == prefix_of(self@),
    {
        proof {
            use_type_invariant(self);
        }
        self.prefix
    }

    /// Returns the first four bytes of the string, or all of it if shorter.
    pub fn prefix_bytes_slice(&self) -> (r: &[u8])
        ensures
            r@ == self@.take(if self@.len() < 4 { self@.len() as int } else { 4 }),
    {
        proof {
            use_type_invariant(self);
        }
        let n: usize = if self.len < 4 { self.len as usize } else { 4 };
        let r = slice_subrange(self.prefix.as_slice(), 0, n);
        assert(r@ =~= self@.take(n as int));
        r
    }

    /// Returns every byte of the string but the first four.
    pub fn suffix_bytes_slice(&self) -> (r: &[u8])
        ensures
            r@ == suffix_of(self@),
    {
        proof {
            use_type_invariant(self);
        }
        let n = self.len as usize;
        match &self.payload {
            Payload::Inline(buf) => {
                if n <= 4 {
                    slice_subrange(buf.as_slice(), 0, 0)
                } else {
                    let r = slice_subrange(buf.as_slice(), 4, n);
                    assert(r@ =~= suffix_of(self@));
                    r
                }
            },
            Payload::Heap { text, .. } => str_suffix(text.as_str()),
        }
    }

    /// Returns the string.
    pub fn as_str(&self) -> (r: &str)
        ensures
            r.spec_bytes() == self@,
            r@ == self.text(),
    {
        proof {
            use_type_invariant(self);
        }
        match &self.payload {
            Payload::Inline(buf) => {
                let bytes = slice_subrange(buf.as_slice(), 0, self.len as usize);
                match utf8_text(bytes) {
                    Some(s) => s,
                    None => "",
                }
            },
            Payload::Heap { text, .. } => text.as_str(),
        }
    }

    /// Returns a new `String` holding the string.
    pub fn to_string(&self) -> (r: String)
        ensures
            r@ == self.text(),
            encode_utf8(r@) == self@,
    {
        proof {
            use_type_invariant(self);
        }
        self.as_str().to_owned()
    }

    /// Returns a second handle to the same string.
    ///
    /// For a heap-allocated `self`, both `self` and the result then refer to
    /// one buffer and are marked shared: no copy of the buffer is made. For an
    /// inline `self` this is an ordinary copy. Calling `clone` always makes a
    /// new buffer; call this method again to make more handles to the same one.
    pub fn leaky_shared_clone(&mut self) -> (r: GermanStr)
        ensures
            final(self)@ == old(self)@,
            r@ == old(self)@,
            final(self).is_heap() == old(self).is_heap(),
            r.is_heap() == old(self).is_heap(),
            final(self).is_shared() == old(self).is_heap(),
            r.is_shared() == old(self).is_heap(),
    {
        proof {
            use_type_invariant(&*self);
        }
        let len = self.len;
        let prefix = self.prefix;
        match &self.payload {
            Payload::Inline(buf) => {
                let copy: [u8; 12] = *buf;
                GermanStr { len, prefix, payload: Payload::Inline(copy) }
            },
            Payload::Heap { text, .. } => {
                let mine = share_text(text);
                let theirs = share_text(text);
                self.payload = Payload::Heap { text: mine, ownership: Ownership::Shared };
                GermanStr { len, prefix, payload: Payload::Heap { text: theirs, ownership: Ownership::Shared } }
            },
        }
    }

    /// Gives up this handle, marking it as the owner of its buffer first.
    ///
    /// The buffer is freed once no handle refers to it any more, so handles
    /// made by `leaky_shared_clone` stay valid after one of them is freed.
    pub fn free(self) {
        proof {
            use_type_invariant(&self);
        }
        let mut owned = self;
        if let Payload::Heap { text, .. } = &owned.payload {
            let last = share_text(text);
            owned.payload = Payload::Heap { text: last, ownership: Ownership::Owned };
        }
    }

    /// Compares the strings byte-wise: first by the cached prefixes, then,
    /// only where those agree and a string is longer than four bytes, by the
    /// remaining bytes. Two strings of at most four bytes with equal prefixes
    /// are ordered by length: the zero padding cannot tell "a" from "a\0".
    pub fn cmp(&self, other: &GermanStr) -> (r: Ordering)
        ensures
            r == lex_cmp(self@, other@),
    {
        proof {
            use_type_invariant(self);
            use_type_invariant(other);
        }
        let by_prefix = compare_bytes(self.prefix.as_slice(), other.prefix.as_slice());
        proof {
            lemma_lex_cmp_equal(self.prefix@, other.prefix@);
        }
        match by_prefix {
            Ordering::Equal => {},
            _ => {
                proof {
                    lemma_prefix_order(self@, other@);
                }
                return by_prefix;
            },
        }
        if self.len <= 4 && other.len <= 4 {
            proof {
                lemma_short_order(self@, other@);
            }
            if self.len < other.len {
                Ordering::Less
            } else if self.len > other.len {
                Ordering::Greater
            } else {
                Ordering::Equal
            }
        } else {
            proof {
                lemma_suffix_order(self@, other@);
            }
            match (&self.payload, &other.payload) {
                (Payload::Inline(a), Payload::Inline(b)) => {
                    let sa = inline_suffix(a, self.len as usize);
                    let sb = inline_suffix(b, other.len as usize);
                    compare_bytes(sa, sb)
                },
                _ => compare_bytes(self.suffix_bytes_slice(), other.suffix_bytes_slice()),
            }
        }
    }

    /// Whether the string equals `other`, compared by the same split into
    /// prefix and suffix that two `GermanStr` values use.
    pub fn eq_str(&self, other: &str) -> (r: bool)
        ensures
            r == (self@ == other.spec_bytes()),
    {
        proof {
            use_type_invariant(self);
        }
        let other_bytes = other.as_bytes();
        if self.len as usize != other_bytes.len() {
            return false;
        }
        let other_prefix = str_prefix(other);
        let same_prefix = bytes_equal(self.prefix.as_slice(), other_prefix.as_slice());
        if !same_prefix {
            return false;
        }
        let same_suffix = bytes_equal(self.suffix_bytes_slice(), str_suffix(other));
        proof {
            if same_suffix {
                lemma_split_determines(self@, other.spec_bytes());
            }
        }
        same_suffix
    }
}

/// The bytes of an inline string after its first four.
fn inline_suffix(buf: &[u8; 12], len: usize) -> (r: &[u8])
    requires
        len <= 12,
    ensures
        r@ == suffix_of(buf@.take(len as int)),
{
    if len <= 4 {
        slice_subrange(buf.as_slice(), 0, 0)
    } else {
        let r = slice_subrange(buf.as_slice(), 4, len);
        assert(r@ =~= suffix_of(buf@.take(len as int)));
        r
    }
}

impl Clone for GermanStr {
    /// Copies the string. A heap-allocated string gets a new buffer of its
    /// own, whatever the original's ownership: the two are independent.
    fn clone(&self) -> (r: Self)
        ensures
            r@ == self@,
            r.is_heap() == self.is_heap(),
            !r.is_shared(),
    {
        proof {
            use_type_invariant(self);
        }
        match &self.payload {
            Payload::Inline(buf) => {
                let copy: [u8; 12] = *buf;
                GermanStr { len: self.len, prefix: self.prefix, payload: Payload::Inline(copy) }
            },
            Payload::Heap { text, .. } => {
                let copy: String = text.as_str().to_owned();
                GermanStr {
                    len: self.len,
                    prefix: self.prefix,
                    payload: Payload::Heap { text: Arc::new(copy), ownership: Ownership::Owned },
                }
            },
        }
    }
}

impl Default for GermanStr {
    /// The empty string.
    fn default() -> (r: Self)
        ensures
            r@ == Seq::<u8>::empty(),
            !r.is_heap(),
    {
        let prefix: [u8; 4] = [0u8; 4];
        let buf: [u8; 12] = [0u8; 12];
        assert(buf@.take(0) =~= Seq::<u8>::empty());
        assert(prefix@ =~= prefix_of(Seq::<u8>::empty()));
        GermanStr { len: 0, prefix, payload: Payload::Inline(buf) }
    }
}

impl GermanStr {
    /// Whether the two strings are equal, by the same steps as `cmp`:
    /// prefixes first, then lengths for strings of at most four bytes, then
    /// the remaining bytes.
    fn equals(&self, other: &GermanStr) -> (r: bool)
        ensures
            r == (self@ == other@),
    {
        proof {
            use_type_invariant(self);
            use_type_invariant(other);
        }
        if !bytes_equal(self.prefix.as_slice(), other.prefix.as_slice()) {
            return false;
        }
        if self.len <= 4 && other.len <= 4 {
            proof {
                lemma_short_order(self@, other@);
            }
            return self.len == other.len;
        }
        proof {
            lemma_suffix_order(self@, other@);
        }
        match (&self.payload, &other.payload) {
            (Payload::Inline(a), Payload::Inline(b)) => {
                let sa = inline_suffix(a, self.len as usize);
                let sb = inline_suffix(b, other.len as usize);
                bytes_equal(sa, sb)
            },
            _ => bytes_equal(self.suffix_bytes_slice(), other.suffix_bytes_slice()),
        }
    }
}

impl PartialEq for GermanStr {
    fn eq(&self, other: &GermanStr) -> (r: bool) {
        self.equals(other)
    }
}

impl vstd::std_specs::cmp::PartialEqSpecImpl for GermanStr {
    open spec fn obeys_eq_spec() -> bool {
        true
    }

    open spec fn eq_spec(&self, other: &GermanStr) -> bool {
        self@ == other@
    }
}

impl Eq for GermanStr {}

impl PartialOrd for GermanStr {
    fn partial_cmp(&self, other: &GermanStr) -> (r: Option<Ordering>) {
        Some(self.cmp(other))
    }
}

impl vstd::std_specs::cmp::PartialOrdSpecImpl for GermanStr {
    open spec fn obeys_partial_cmp_spec() -> bool {
        true
    }

    open spec fn partial_cmp_spec(&self, other: &GermanStr) -> Option<Ordering> {
        Some(lex_cmp(self@, other@))
    }
}

impl PartialEq<str> for GermanStr {
    fn eq(&self, other: &str) -> (r: bool) {
        self.eq_str(other)
    }
}

impl vstd::std_specs::cmp::PartialEqSpecImpl<str> for GermanStr {
    open spec fn obeys_eq_spec() -> bool {
        true
    }

    open spec fn eq_spec(&self, other: &str) -> bool {
        self@ == other.spec_bytes()
    }
}

impl PartialEq<String> for GermanStr {
    fn eq(&self, other: &String) -> (r: bool) {
        self.eq_str(other.as_str())
    }
}

impl vstd::std_specs::cmp::PartialEqSpecImpl<String> for GermanStr {
    open spec fn obeys_eq_spec() -> bool {
        true
    }

    open spec fn eq_spec(&self, other: &String) -> bool {
        self@ == encode_utf8(other@)
    }
}

impl PartialEq<GermanStr> for str {
    fn eq(&self, other: &GermanStr) -> (r: bool) {
        other.eq_str(self)
    }
}

impl vstd::std_specs::cmp::PartialEqSpecImpl<GermanStr> for str {
    open spec fn obeys_eq_spec() -> bool {
        true
    }

    open spec fn eq_spec(&self, other: &GermanStr) -> bool {
        self.spec_bytes() == other@
    }
}

impl PartialEq<GermanStr> for String {
    fn eq(&self, other: &GermanStr) -> (r: bool) {
        other.eq_str(self.as_str())
    }
}

impl vstd::std_specs::cmp::PartialEqSpecImpl<GermanStr> for String {
    open spec fn obeys_eq_spec() -> bool {
        true
    }

    open spec fn eq_spec(&self, other: &GermanStr) -> bool {
        encode_utf8(self@) == other@
    }
}

impl<'a> PartialEq<&'a str> for GermanStr {
    fn eq(&self, other: &&'a str) -> (r: bool) {
        self.eq_str(*other)
    }
}

impl<'a> vstd::std_specs::cmp::PartialEqSpecImpl<&'a str> for GermanStr {
    open spec fn obeys_eq_spec() -> bool {
        true
    }

    open spec fn eq_spec(&self, other: &&'a str) -> bool {
        self@ == other.spec_bytes()
    }
}

impl<'a> PartialEq<GermanStr> for &'a str {
    fn eq(&self, other: &GermanStr) -> (r: bool) {
        other.eq_str(*self)
    }
}

impl<'a> vstd::std_specs::cmp::PartialEqSpecImpl<GermanStr> for &'a str {
    open spec fn obeys_eq_spec() -> bool {
        true
    }

    open spec fn eq_spec(&self, other: &GermanStr) -> bool {
        self.spec_bytes() == other@
    }
}

impl core::str::FromStr for GermanStr {
    type Err = InitError;

    fn from_str(s: &str) -> (r: Result<GermanStr, InitError>)
        ensures
            r is Err <==> s.spec_bytes().len() > MAX_LEN,
            r matches Ok(g) ==> g@ == s.spec_bytes(),
    {
        GermanStr::new(s)
    }
}

impl<'a> TryFrom<&'a str> for GermanStr {
    type Error = InitError;

    fn try_from(s: &'a str) -> (r: Result<GermanStr, InitError>)
        ensures
            r is Err <==> s.spec_bytes().len() > MAX_LEN,
            r matches Ok(g) ==> g@ == s.spec_bytes(),
    {
        GermanStr::new(s)
    }
}

impl<'a> vstd::std_specs::convert::TryFromSpecImpl<&'a str> for GermanStr {
    open spec fn obeys_try_from_spec() -> bool {
        false
    }

    open spec fn try_from_spec(s: &'a str) -> Result<GermanStr, InitError> {
        arbitrary()
    }
}

impl TryFrom<String> for GermanStr {
    type Error = InitError;

    fn try_from(s: String) -> (r: Result<GermanStr, InitError>)
        ensures
            r is Err <==> encode_utf8(s@).len() > MAX_LEN,
            r matches Ok(g) ==> g@ == encode_utf8(s@),
    {
        GermanStr::new(s.as_str())
    }
}

impl vstd::std_specs::convert::TryFromSpecImpl<String> for GermanStr {
    open spec fn obeys_try_from_spec() -> bool {
        false
    }

    open spec fn try_from_spec(s: String) -> Result<GermanStr, InitError> {
        arbitrary()
    }
}

impl From<GermanStr> for String {
    fn from(g: GermanStr) -> (r: String)
        ensures
            encode_utf8(r@) == g@,
    {
        g.to_string()
    }
}

impl vstd::std_specs::convert::FromSpecImpl<GermanStr> for String {
    open spec fn obeys_from_spec() -> bool {
        false
    }

    open spec fn from_spec(g: GermanStr) -> String {
        arbitrary()
    }
}

impl AsRef<str> for GermanStr {
    fn as_ref(&self) -> (r: &str)
        ensures
            r.spec_bytes() == self@,
    {
        self.as_str()
    }
}

impl core::borrow::Borrow<str> for GermanStr {
    fn borrow(&self) -> &str {
        self.as_str()
    }
}

impl core::ops::Deref for GermanStr {
    type Target = str;

    fn deref(&self) -> (r: &str)
        ensures
            r.spec_bytes() == self@,
    {
        self.as_str()
    }
}

impl core::hash::Hash for GermanStr {
    /// Hashes the text alone, as `str` does, so that equal strings hash alike
    /// whatever their storage or ownership.
    fn hash<H: core::hash::Hasher>(&self, state: &mut H) {
        hash_text(self.as_str(), state)
    }
}

impl<'a> TryFrom<&'a String> for GermanStr {
    type Error = InitError;

    fn try_from(s: &'a String) -> (r: Result<GermanStr, InitError>)
        ensures
            r is Err <==> encode_utf8(s@).len() > MAX_LEN,
            r matches Ok(g) ==> g@ == encode_utf8(s@),
    {
        GermanStr::new(s.as_str())
    }
}

impl<'a> vstd::std_specs::convert::TryFromSpecImpl<&'a String> for GermanStr {
    open spec fn obeys_try_from_spec() -> bool {
        false
    }

    open spec fn try_from_spec(s: &'a String) -> Result<GermanStr, InitError> {
        arbitrary()
    }
}

impl<'a> TryFrom<&'a mut str> for GermanStr {
    type Error = InitError;

    fn try_from(s: &'a mut str) -> (r: Result<GermanStr, InitError>)
        ensures
            r is Err <==> old(s).spec_bytes().len() > MAX_LEN,
            r matches Ok(g) ==> g@ == old(s).spec_bytes(),
    {
        GermanStr::new(s)
    }
}

impl<'a> vstd::std_specs::convert::TryFromSpecImpl<&'a mut str> for GermanStr {
    open spec fn obeys_try_from_spec() -> bool {
        false
    }

    open spec fn try_from_spec(s: &'a mut str) -> Result<GermanStr, InitError> {
        arbitrary()
    }
}

impl TryFrom<Box<str>> for GermanStr {
    type Error = InitError;

    fn try_from(s: Box<str>) -> (r: Result<GermanStr, InitError>)
        ensures
            r is Err <==> s.spec_bytes().len() > MAX_LEN,
            r matches Ok(g) ==> g@ == s.spec_bytes(),
    {
        GermanStr::new(&s)
    }
}

impl vstd::std_specs::convert::TryFromSpecImpl<Box<str>> for GermanStr {
    open spec fn obeys_try_from_spec() -> bool {
        false
    }

    open spec fn try_from_spec(s: Box<str>) -> Result<GermanStr, InitError> {
        arbitrary()
    }
}

impl TryFrom<Arc<str>> for GermanStr {
    type Error = InitError;

    fn try_from(s: Arc<str>) -> (r: Result<GermanStr, InitError>)
        ensures
            r is Err <==> s.spec_bytes().len() > MAX_LEN,
            r matches Ok(g) ==> g@ == s.spec_bytes(),
    {
        GermanStr::new(&s)
    }
}

impl vstd::std_specs::convert::TryFromSpecImpl<Arc<str>> for GermanStr {
    open spec fn obeys_try_from_spec() -> bool {
        false
    }

    open spec fn try_from_spec(s: Arc<str>) -> Result<GermanStr, InitError> {
        arbitrary()
    }
}

impl From<GermanStr> for Arc<str> {
    fn from(g: GermanStr) -> (r: Arc<str>)
        ensures
            r.spec_bytes() == g@,
    {
        shared_str(g.as_str())
    }
}

impl vstd::std_specs::convert::FromSpecImpl<GermanStr> for Arc<str> {
    open spec fn obeys_from_spec() -> bool {
        false
    }

    open spec fn from_spec(g: GermanStr) -> Arc<str> {
        arbitrary()
    }
}

} // verus!
