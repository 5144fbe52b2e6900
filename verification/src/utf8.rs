//! UTF-8 as this library needs it: how long an encoding is, where a byte
//! string stops being valid, and the standard library's routines that encode
//! and decode, each stated over the definitions of `vstd::utf8`.

use vstd::prelude::*;
use vstd::utf8::*;

verus! {

/// Number of bytes that the UTF-8 encoding of `c` takes.
pub open spec fn scalar_len(c: char) -> nat {
    encode_scalar(c as u32).len()
}

/// Sum of the encoded lengths of the scalars of `chars`.
pub open spec fn encoded_len(chars: Seq<char>) -> nat
    decreases chars.len(),
{
    if chars.len() == 0 {
        0
    } else {
        encoded_len(chars.drop_last()) + scalar_len(chars.last())
    }
}

/// An encoding takes one byte up to U+007F, two up to U+07FF, three up to
/// U+FFFF and four beyond.
pub proof fn lemma_scalar_len(c: char)
    ensures
        scalar_len(c) == if c as u32 <= 0x7F {
            1nat
        } else if c as u32 <= 0x7FF {
            2nat
        } else if c as u32 <= 0xFFFF {
            3nat
        } else {
            4nat
        },
        1 <= scalar_len(c) <= 4,
{
    char_is_scalar(c);
}

/// Encoding distributes over concatenation.
pub proof fn lemma_encode_concat(a: Seq<char>, b: Seq<char>)
    ensures
        encode_utf8(a + b) == encode_utf8(a) + encode_utf8(b),
    decreases a.len(),
{
    if a.len() == 0 {
        assert(a + b =~= b);
        assert(encode_utf8(a) + encode_utf8(b) =~= encode_utf8(b));
    } else {
        assert((a + b).drop_first() =~= a.drop_first() + b);
        lemma_encode_concat(a.drop_first(), b);
        assert(encode_utf8(a + b) =~= encode_utf8(a) + encode_utf8(b));
    }
}

/// Appending one scalar appends its encoding.
pub proof fn lemma_encode_push(chars: Seq<char>, c: char)
    ensures
        encode_utf8(chars.push(c)) == encode_utf8(chars) + encode_scalar(c as u32),
{
    let one = seq![c];
    assert(one.drop_first() =~= Seq::<char>::empty());
    assert(encode_utf8(one) =~= encode_scalar(c as u32)) by {
        reveal_with_fuel(encode_utf8, 2);
    }
    assert(chars.push(c) =~= chars + one);
    lemma_encode_concat(chars, one);
}

/// The encoding of a sequence is as long as the sum of its scalars' lengths.
pub proof fn lemma_encoded_len(chars: Seq<char>)
    ensures
        encode_utf8(chars).len() == encoded_len(chars),
    decreases chars.len(),
{
    if chars.len() > 0 {
        lemma_encoded_len(chars.drop_last());
        lemma_encode_push(chars.drop_last(), chars.last());
        assert(chars.drop_last().push(chars.last()) =~= chars);
    }
}

/// A prefix never takes more bytes than the whole.
pub proof fn lemma_encoded_len_prefix(chars: Seq<char>, n: int)
    requires
        0 <= n <= chars.len(),
    ensures
        encoded_len(chars.take(n)) <= encoded_len(chars),
    decreases chars.len() - n,
{
    if n == chars.len() {
        assert(chars.take(n) =~= chars);
    } else {
        lemma_encoded_len_prefix(chars, n + 1);
        assert(chars.take(n + 1).drop_last() =~= chars.take(n));
    }
}

/// Every scalar takes at least one byte and at most four.
pub proof fn lemma_encoded_len_bounds(chars: Seq<char>)
    ensures
        chars.len() <= encoded_len(chars) <= 4 * chars.len(),
    decreases chars.len(),
{
    if chars.len() > 0 {
        lemma_encoded_len_bounds(chars.drop_last());
        lemma_scalar_len(chars.last());
    }
}

/// `char::len_utf8`. Taken on trust: it returns the number of bytes that
/// `c` takes when encoded as UTF-8.
pub assume_specification[ char::len_utf8 ](c: char) -> (n: usize)
    ensures
        n == encode_scalar(c as u32).len(),
;

/// Calls `char::encode_utf8`. Taken on trust: it writes the UTF-8 encoding
/// of `c` at the front of `dst` and hands back the part it wrote, of which
/// this keeps the length. It panics where `dst` is too short for the
/// encoding, so room for it is required. Nothing is claimed of the bytes
/// behind the encoding.
#[verifier::external_body]
fn encode_into(c: char, dst: &mut [u8]) -> (written: usize)
    requires
        encode_scalar(c as u32).len() <= old(dst)@.len(),
    ensures
        written == encode_scalar(c as u32).len(),
        final(dst)@.len() == old(dst)@.len(),
        final(dst)@.take(written as int) == encode_scalar(c as u32),
{
    c.encode_utf8(dst).len()
}

/// The number of bytes that `chars` takes as UTF-8, or `None` where that
/// number does not fit in `usize`.
pub fn encoded_size(chars: &[char]) -> (size: Option<usize>)
    ensures
        match size {
            Some(n) => n == encoded_len(chars@),
            None => encoded_len(chars@) > usize::MAX,
        },
{
    let mut total: usize = 0;
    let mut i: usize = 0;
    while i < chars.len()
        invariant
            i <= chars.len(),
            total == encoded_len(chars@.take(i as int)),
        decreases chars.len() - i,
    {
        proof {
            assert(chars@.take(i + 1).drop_last() =~= chars@.take(i as int));
            lemma_encoded_len_prefix(chars@, i + 1);
        }
        match total.checked_add(chars[i].len_utf8()) {
            Some(sum) => {
                total = sum;
            },
            None => {
                return None;
            },
        }
        i += 1;
    }
    proof {
        assert(chars@.take(i as int) =~= chars@);
    }
    Some(total)
}

/// Encodes `c` into `buf` from index `at` on, in place. What stands before
/// `at` stays as it was.
pub(crate) fn write_scalar(buf: &mut Vec<u8>, at: usize, c: char) -> (written: usize)
    requires
        at + scalar_len(c) <= old(buf)@.len(),
    ensures
        written == scalar_len(c),
        final(buf)@.len() == old(buf)@.len(),
        final(buf)@.take(at as int) == old(buf)@.take(at as int),
        final(buf)@.subrange(at as int, at + written) == encode_scalar(c as u32),
{
    let (_, tail) = buf.as_mut_slice().split_at_mut(at);
    encode_into(c, tail)
}

/// Length of the longest prefix of `bytes` that is valid UTF-8: the scalars
/// are walked from the front until one is malformed or cut short.
pub open spec fn valid_prefix_len(bytes: Seq<u8>) -> int
    decreases bytes.len(),
{
    if bytes.len() > 0 && valid_first_scalar(bytes) {
        length_of_first_scalar(bytes) + valid_prefix_len(pop_first_scalar(bytes))
    } else {
        0
    }
}

/// True when `n` is the greatest length of a prefix of `bytes` that is valid
/// UTF-8.
pub open spec fn is_longest_valid_prefix(bytes: Seq<u8>, n: int) -> bool {
    &&& 0 <= n <= bytes.len()
    &&& valid_utf8(bytes.take(n))
    &&& forall|m: int| n < m <= bytes.len() ==> !valid_utf8(#[trigger] bytes.take(m))
}

/// Whether a byte string starts with a well-formed scalar depends only on
/// the bytes of that scalar.
proof fn lemma_first_scalar_of_prefix(bytes: Seq<u8>, m: int)
    requires
        0 <= m <= bytes.len(),
    ensures
        valid_first_scalar(bytes.take(m)) <==> valid_first_scalar(bytes)
            && length_of_first_scalar(bytes) <= m,
        valid_first_scalar(bytes.take(m)) ==> {
            &&& length_of_first_scalar(bytes.take(m)) == length_of_first_scalar(bytes)
            &&& pop_first_scalar(bytes.take(m)) == pop_first_scalar(bytes).take(
                m - length_of_first_scalar(bytes),
            )
        },
{
    let front = bytes.take(m);
    if valid_first_scalar(front) {
        assert(pop_first_scalar(front) =~= pop_first_scalar(bytes).take(
            m - length_of_first_scalar(bytes),
        ));
    }
}

/// The walk finds the longest valid prefix, and reaches the end exactly on
/// valid UTF-8.
pub proof fn lemma_valid_prefix_len(bytes: Seq<u8>)
    ensures
        is_longest_valid_prefix(bytes, valid_prefix_len(bytes)),
        valid_prefix_len(bytes) == bytes.len() <==> valid_utf8(bytes),
    decreases bytes.len(),
{
    let n = valid_prefix_len(bytes);
    if bytes.len() > 0 && valid_first_scalar(bytes) {
        let k = length_of_first_scalar(bytes);
        let rest = pop_first_scalar(bytes);
        lemma_valid_prefix_len(rest);
        lemma_first_scalar_of_prefix(bytes, n);
        assert(valid_utf8(bytes.take(n)));
        assert forall|m: int| n < m <= bytes.len() implies !valid_utf8(
            #[trigger] bytes.take(m),
        ) by {
            lemma_first_scalar_of_prefix(bytes, m);
            assert(rest.take(m - k) == pop_first_scalar(bytes.take(m)));
        }
    } else {
        assert(bytes.take(0) =~= Seq::<u8>::empty());
        assert forall|m: int| 0 < m <= bytes.len() implies !valid_utf8(
            #[trigger] bytes.take(m),
        ) by {
            lemma_first_scalar_of_prefix(bytes, m);
        }
    }
    assert(bytes.take(bytes.len() as int) =~= bytes);
}

/// Only one length is the longest valid prefix's.
pub proof fn lemma_longest_valid_prefix_unique(bytes: Seq<u8>, n: int)
    requires
        is_longest_valid_prefix(bytes, n),
    ensures
        n == valid_prefix_len(bytes),
{
    lemma_valid_prefix_len(bytes);
}

/// Why a byte string is not UTF-8 text.
#[derive(Clone, Copy, Debug, PartialEq, Eq)]
pub struct EncodingError {
    /// Length of the longest prefix that is valid UTF-8.
    pub valid_up_to: usize,
    /// Length of the malformed sequence that follows that prefix, or `None`
    /// where the input ends in the middle of a scalar.
    pub error_len: Option<usize>,
}

impl EncodingError {
    /// Index of the first byte that is not part of valid UTF-8.
    pub fn valid_up_to(&self) -> (n: usize)
        ensures
            n == self.valid_up_to,
    {
        self.valid_up_to
    }

    /// Length of the malformed sequence, or `None` for input that ends too
    /// early.
    pub fn error_len(&self) -> (len: Option<usize>)
        ensures
            len == self.error_len,
    {
        self.error_len
    }
}

/// What `Utf8Error::error_len` reports for `bytes` that are not valid UTF-8.
pub uninterp spec fn utf8_error_len(bytes: Seq<u8>) -> Option<usize>;

/// The error that decoding `bytes` gives when they are not valid UTF-8.
pub open spec fn encoding_error(bytes: Seq<u8>) -> EncodingError {
    EncodingError {
        valid_up_to: valid_prefix_len(bytes) as usize,
        error_len: utf8_error_len(bytes),
    }
}

/// Calls `core::str::from_utf8`. Taken on trust: it accepts exactly the
/// valid UTF-8 byte strings and then hands back the same bytes as text; its
/// error tells by `valid_up_to` the greatest length of a prefix that it
/// would accept, and by `error_len` how long the malformed sequence is. Both
/// are moved into an `EncodingError`.
#[verifier::external_body]
fn from_utf8(bytes: &[u8]) -> (r: Result<&str, EncodingError>)
    ensures
        r is Ok <==> valid_utf8(bytes@),
        r matches Ok(text) ==> encode_utf8(text@) == bytes@,
        r matches Err(e) ==> is_longest_valid_prefix(bytes@, e.valid_up_to as int) && e.error_len
            == utf8_error_len(bytes@),
{
    match core::str::from_utf8(bytes) {
        Ok(text) => Ok(text),
        Err(e) => Err(EncodingError { valid_up_to: e.valid_up_to(), error_len: e.error_len() }),
    }
}

/// Reads `bytes` as UTF-8 text without copying, or says where they stop
/// being UTF-8.
pub fn decode(bytes: &[u8]) -> (r: Result<&str, EncodingError>)
    ensures
        match r {
            Ok(text) => valid_utf8(bytes@) && text@ == decode_utf8(bytes@),
            Err(e) => !valid_utf8(bytes@) && e == encoding_error(bytes@),
        },
{
    let r = from_utf8(bytes);
    proof {
        match r {
            Ok(text) => {
                encode_utf8_decode_utf8(text@);
            },
            Err(e) => {
                lemma_longest_valid_prefix_unique(bytes@, e.valid_up_to as int);
            },
        }
    }
    r
}

} // verus!
