//! The immutable byte string and its constructors and read accessors.

use crate::utf8::{
    decode, encoded_len, encoded_size, encoding_error, lemma_encode_push, lemma_encoded_len,
    lemma_encoded_len_prefix, write_scalar, EncodingError,
};
use vstd::prelude::*;
use vstd::slice::slice_to_vec;
use vstd::utf8::*;

verus! {

/// An immutable owned byte string.
///
/// The bytes live in a boxed slice, so a value is a pointer and a length and
/// nothing else: there is no spare capacity and no way to grow. The bytes
/// may or may not be UTF-8; that is checked when asked for, never assumed.
#[derive(Eq, Ord, Hash)]
pub struct IString {
    storage: Box<[u8]>,
}

impl View for IString {
    type V = Seq<u8>;

    closed spec fn view(&self) -> Seq<u8> {
        self.storage@
    }
}

/// Calls `Vec::into_boxed_slice`. Taken on trust: the boxed slice holds the
/// vector's elements in the same order; only spare capacity is dropped.
#[verifier::external_body]
fn into_boxed(bytes: Vec<u8>) -> (boxed: Box<[u8]>)
    ensures
        boxed@ == bytes@,
{
    bytes.into_boxed_slice()
}

impl IString {
    /// A string holding the UTF-8 bytes of `s`.
    pub fn new(s: &str) -> (r: IString)
        ensures
            r@ == encode_utf8(s@),
    {
        Self::from_bytes(s.as_bytes())
    }

    /// A string holding a copy of `bytes`, whatever they are.
    pub fn from_bytes(bytes: &[u8]) -> (r: IString)
        ensures
            r@ == bytes@,
    {
        IString { storage: into_boxed(slice_to_vec(bytes)) }
    }

    /// A string holding the UTF-8 encoding of `chars`, or `None` where that
    /// encoding is longer than any buffer can be.
    ///
    /// The length is computed first, the buffer is allocated once at that
    /// length, and each scalar is encoded straight into the part of the
    /// buffer that is still unwritten.
    pub fn try_from_chars(chars: &[char]) -> (r: Option<IString>)
        ensures
            match r {
                Some(s) => s@ == encode_utf8(chars@) && s@.len() == encoded_len(chars@),
                None => encoded_len(chars@) > usize::MAX,
            },
    {
        let size = match encoded_size(chars) {
            Some(size) => size,
            None => {
                return None;
            },
        };
        let mut buf: Vec<u8> = vec![0u8; size];
        let mut at: usize = 0;
        let mut i: usize = 0;
        while i < chars.len()
            invariant
                i <= chars.len(),
                size == encoded_len(chars@),
                buf@.len() == size,
                at == encoded_len(chars@.take(i as int)),
                buf@.take(at as int) == encode_utf8(chars@.take(i as int)),
            decreases chars.len() - i,
        {
            proof {
                assert(chars@.take(i + 1).drop_last() =~= chars@.take(i as int));
                assert(chars@.take(i + 1) =~= chars@.take(i as int).push(chars@[i as int]));
                lemma_encoded_len_prefix(chars@, i + 1);
                lemma_encode_push(chars@.take(i as int), chars@[i as int]);
            }
            let ghost before = buf@;
            let written = write_scalar(&mut buf, at, chars[i]);
            proof {
                assert(buf@.take(at + written) =~= before.take(at as int) + buf@.subrange(
                    at as int,
                    at + written,
                ));
            }
            at += written;
            i += 1;
        }
        proof {
            assert(chars@.take(i as int) =~= chars@);
            // The cursor has reached the end: every byte of the buffer was written.
            assert(at == size);
            assert(buf@.take(at as int) =~= buf@);
            lemma_encoded_len(chars@);
        }
        Some(IString { storage: into_boxed(buf) })
    }

    /// A string holding the UTF-8 encoding of `chars`.
    ///
    /// The encoding has to fit in a buffer. `lemma_encoded_len_bounds` shows
    /// that it does for every slice of at most `usize::MAX / 4` scalars;
    /// `try_from_chars` tests it at run time.
    pub fn from_chars(chars: &[char]) -> (r: IString)
        requires
            encoded_len(chars@) <= usize::MAX,
        ensures
            r@ == encode_utf8(chars@),
            r@.len() == encoded_len(chars@),
    {
        Self::try_from_chars(chars).unwrap()
    }

    /// The bytes, all of them, borrowed.
    pub fn as_bytes(&self) -> (bytes: &[u8])
        ensures
            bytes@ == self@,
    {
        &*self.storage
    }

    /// Whether the bytes are valid UTF-8. Nothing is cached: the bytes are
    /// checked on each call.
    pub fn is_valid_utf8(&self) -> (valid: bool)
        ensures
            valid == valid_utf8(self@),
    {
        decode(self.as_bytes()).is_ok()
    }

    /// The bytes as text, without copying, or the place where they stop
    /// being UTF-8.
    pub fn as_str(&self) -> (r: Result<&str, EncodingError>)
        ensures
            match r {
                Ok(text) => valid_utf8(self@) && text@ == decode_utf8(self@),
                Err(e) => !valid_utf8(self@) && e == encoding_error(self@),
            },
    {
        decode(self.as_bytes())
    }
}

impl Clone for IString {
    /// A string with the same bytes in a freshly allocated buffer: the clone
    /// shares no storage with `self`.
    fn clone(&self) -> (r: IString)
        ensures
            r@ == self@,
    {
        IString::from_bytes(self.as_bytes())
    }
}

impl Default for IString {
    /// The empty string.
    fn default() -> (r: IString)
        ensures
            r@ == Seq::<u8>::empty(),
    {
        IString { storage: into_boxed(Vec::new()) }
    }
}

impl core::ops::Deref for IString {
    type Target = [u8];

    /// The same slice as `as_bytes`.
    fn deref(&self) -> (bytes: &[u8])
        ensures
            bytes@ == self@,
    {
        self.as_bytes()
    }
}

impl IString {
    /// The string whose bytes are `bytes`.
    pub closed spec fn holding(bytes: Seq<u8>) -> IString {
        choose|s: IString| s@ == bytes
    }

    /// A string is determined by its bytes.
    pub proof fn lemma_holding(self)
        ensures
            IString::holding(self@) == self,
    {
        let t = IString::holding(self@);
        assert(t@ == self@);
        assert(t.storage =~= self.storage);
    }
}

impl<'a> From<&'a [u8]> for IString {
    /// Same as `from_bytes`.
    fn from(bytes: &'a [u8]) -> (r: IString)
        ensures
            r@ == bytes@,
    {
        let r = IString::from_bytes(bytes);
        proof {
            r.lemma_holding();
        }
        r
    }
}

impl<'a> vstd::std_specs::convert::FromSpecImpl<&'a [u8]> for IString {
    open spec fn obeys_from_spec() -> bool {
        true
    }

    open spec fn from_spec(bytes: &'a [u8]) -> IString {
        IString::holding(bytes@)
    }
}

impl<'a> From<&'a str> for IString {
    /// Same as `new`.
    fn from(s: &'a str) -> (r: IString)
        ensures
            r@ == encode_utf8(s@),
    {
        let r = IString::new(s);
        proof {
            r.lemma_holding();
        }
        r
    }
}

impl<'a> vstd::std_specs::convert::FromSpecImpl<&'a str> for IString {
    open spec fn obeys_from_spec() -> bool {
        true
    }

    open spec fn from_spec(s: &'a str) -> IString {
        IString::holding(encode_utf8(s@))
    }
}

} // verus!
