//! An incremental builder: text is appended piece by piece, inline while
//! the total fits in `MAX_INLINE_BYTES` bytes and in a growing heap string
//! from the first append that goes past it.
use vstd::prelude::*;
use vstd::string::StringSliceAdditionalSpecFns;
use vstd::utf8::{encode_utf8, valid_utf8};

use crate::bytes::lemma_encode_utf8_concat;
use crate::german::{GermanStr, InitError};
use crate::std_calls::utf8_text;
use crate::{MAX_INLINE_BYTES, MAX_LEN};

verus! {

broadcast use vstd::utf8::group_utf8_lib;

/// What a `Writer` has accumulated so far.
enum Written {
    /// Up to `MAX_INLINE_BYTES` bytes; those past `len` are zeros.
    Inline { len: usize, bytes: [u8; 12] },
    /// More than `MAX_INLINE_BYTES` bytes.
    Heap(String),
}

/// Builds a `GermanStr` from pieces of text, without a heap allocation
/// while the total stays within `MAX_INLINE_BYTES` bytes.
pub struct Writer {
    written: Written,
}

impl View for Writer {
    type V = Seq<u8>;

    /// The bytes written so far.
    closed spec fn view(&self) -> Seq<u8> {
        self.written.bytes()
    }
}

impl Written {
    spec fn bytes(self) -> Seq<u8> {
        match self {
            Written::Inline { len, bytes } => bytes@.take(len as int),
            Written::Heap(text) => encode_utf8(text@),
        }
    }

    fn empty() -> (r: Written)
        ensures
            r.bytes() == Seq::<u8>::empty(),
            r is Inline,
            r->len == 0,
    {
        let bytes: [u8; 12] = [0u8; 12];
        assert(bytes@.take(0) =~= Seq::<u8>::empty());
        Written::Inline { len: 0, bytes }
    }
}

impl Writer {
    #[verifier::type_invariant]
    spec fn well_formed(self) -> bool {
        &&& valid_utf8(self@)
        &&& self@.len() <= MAX_LEN
        &&& match self.written {
            Written::Inline { len, .. } => len <= MAX_INLINE_BYTES,
            Written::Heap(_) => self@.len() > MAX_INLINE_BYTES,
        }
    }

    /// Makes an empty writer.
    pub fn new() -> (r: Writer)
        ensures
            r@ == Seq::<u8>::empty(),
    {
        Writer { written: Written::empty() }
    }

    /// The number of bytes written so far.
    pub fn len(&self) -> (r: usize)
        ensures
            r == self@.len(),
    {
        proof {
            use_type_invariant(self);
        }
        match &self.written {
            Written::Inline { len, .. } => *len,
            Written::Heap(text) => text.as_str().as_bytes().len(),
        }
    }

    /// Appends `s`.
    ///
    /// Fails with `TooLong`, and changes nothing, when the total would exceed
    /// `MAX_LEN` bytes. When the total first exceeds `MAX_INLINE_BYTES`
    /// bytes, the bytes written so far move to a heap string.
    pub fn push_str(&mut self, s: &str) -> (r: Result<(), InitError>)
        ensures
            r is Err <==> old(self)@.len() + s.spec_bytes().len() > MAX_LEN,
            r matches Err(e) ==> e == InitError::TooLong,
            r is Ok ==> final(self)@ == old(self)@ + s.spec_bytes(),
            r is Err ==> final(self)@ == old(self)@,
    {
        proof {
            use_type_invariant(&*self);
        }
        let added = s.as_bytes();
        let old_len = self.len();
        if added.len() > MAX_LEN - old_len {
            return Err(InitError::TooLong);
        }
        let new_len = old_len + added.len();
        let ghost before = self@;
        let mut taken = Written::empty();
        core::mem::swap(&mut self.written, &mut taken);
        assert(taken.bytes() == before);
        let next = match taken {
            Written::Heap(mut text) => {
                let ghost old_text = text@;
                text.append(s);
                proof {
                    lemma_encode_utf8_concat(old_text, s@);
                }
                Written::Heap(text)
            },
            Written::Inline { len, mut bytes } => {
                assert(before =~= bytes@.take(len as int));
                if new_len <= MAX_INLINE_BYTES {
                    let mut i: usize = 0;
                    while i < added.len()
                        invariant
                            len == old_len,
                            old_len + added@.len() == new_len,
                            new_len <= MAX_INLINE_BYTES,
                            i <= added@.len(),
                            forall|j: int| 0 <= j < old_len ==> bytes@[j] == before[j],
                            forall|j: int| 0 <= j < i ==> bytes@[old_len + j] == added@[j],
                        decreases added@.len() - i,
                    {
                        bytes[old_len + i] = added[i];
                        i = i + 1;
                    }
                    assert(bytes@.take(new_len as int) =~= before + added@);
                    Written::Inline { len: new_len, bytes }
                } else {
                    let so_far = vstd::slice::slice_subrange(bytes.as_slice(), 0, old_len);
                    let mut text: String = match utf8_text(so_far) {
                        Some(t) => t.to_owned(),
                        None => String::new(),
                    };
                    let ghost old_text = text@;
                    text.append(s);
                    proof {
                        lemma_encode_utf8_concat(old_text, s@);
                    }
                    Written::Heap(text)
                }
            },
        };
        self.written = next;
        Ok(())
    }
}

impl From<Writer> for GermanStr {
    /// The text written, as a `GermanStr`; a heap string is taken over
    /// without a copy.
    fn from(w: Writer) -> (r: GermanStr)
        ensures
            r@ == w@,
    {
        proof {
            use_type_invariant(&w);
        }
        match w.written {
            Written::Inline { len, bytes } => GermanStr::from_inline_bytes(&bytes, len),
            Written::Heap(text) => GermanStr::from_long_string(text),
        }
    }
}

impl vstd::std_specs::convert::FromSpecImpl<Writer> for GermanStr {
    open spec fn obeys_from_spec() -> bool {
        false
    }

    open spec fn from_spec(w: Writer) -> GermanStr {
        arbitrary()
    }
}

} // verus!
