//! What holds of the constructors and accessors taken together.

use crate::string::IString;
use crate::utf8::{encoded_len, encoding_error, EncodingError};
use vstd::prelude::*;
use vstd::utf8::*;

verus! {

/// A string built from a slice reads back as that slice's bytes.
pub proof fn law_bytes_round_trip(bytes: &[u8], s: IString, read: &[u8])
    requires
        call_ensures(IString::from_bytes, (bytes,), s),
        call_ensures(IString::as_bytes, (&s,), read),
    ensures
        read@ == bytes@,
{
}

/// A string built from text is valid UTF-8 and reads back as that text.
pub proof fn law_text_round_trip(
    text: &str,
    s: IString,
    read: Result<&str, EncodingError>,
    valid: bool,
)
    requires
        call_ensures(IString::new, (text,), s),
        call_ensures(IString::as_str, (&s,), read),
        call_ensures(IString::is_valid_utf8, (&s,), valid),
    ensures
        read matches Ok(t) && t@ == text@,
        valid,
{
    encode_utf8_valid_utf8(text@);
    encode_utf8_decode_utf8(text@);
}

/// A string built from bytes that are not UTF-8 is not valid UTF-8, and
/// reading it as text fails with the encoding error of those bytes.
pub proof fn law_invalid_bytes(
    bytes: &[u8],
    s: IString,
    read: Result<&str, EncodingError>,
    valid: bool,
)
    requires
        !valid_utf8(bytes@),
        call_ensures(IString::from_bytes, (bytes,), s),
        call_ensures(IString::as_str, (&s,), read),
        call_ensures(IString::is_valid_utf8, (&s,), valid),
    ensures
        read == Err::<&str, EncodingError>(encoding_error(bytes@)),
        !valid,
{
}

/// A string built from scalars is as long as the sum of their encoded
/// lengths, is valid UTF-8, and reads back as the same scalars.
pub proof fn law_chars_round_trip(
    chars: &[char],
    s: IString,
    read: Result<&str, EncodingError>,
    valid: bool,
)
    requires
        call_requires(IString::from_chars, (chars,)),
        call_ensures(IString::from_chars, (chars,), s),
        call_ensures(IString::as_str, (&s,), read),
        call_ensures(IString::is_valid_utf8, (&s,), valid),
    ensures
        s@.len() == encoded_len(chars@),
        read matches Ok(t) && t@ == chars@,
        valid,
{
    encode_utf8_valid_utf8(chars@);
    encode_utf8_decode_utf8(chars@);
}

/// A clone holds the same bytes as the string it was made from, and the
/// two compare equal.
pub proof fn law_clone_is_equal(s: IString, copy: IString, equal: bool)
    requires
        call_ensures(<IString as Clone>::clone, (&s,), copy),
        call_ensures(<IString as PartialEq>::eq, (&copy, &s), equal),
    ensures
        copy@ == s@,
        equal,
{
}

} // verus!
