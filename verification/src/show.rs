//! How a string is printed for debugging: as text where it is text, as a
//! list of bytes where it is not.

use crate::string::IString;
use vstd::prelude::*;
use vstd::utf8::*;

verus! {

/// What a string shows itself as: its text where the bytes are UTF-8, the
/// bare bytes where they are not.
#[derive(Clone, Copy, Debug, PartialEq, Eq)]
pub enum Shown<'a> {
    Text(&'a str),
    Bytes(&'a [u8]),
}

/// What `{:?}` prints for the text `text`: the text in double quotes, with
/// escapes.
pub uninterp spec fn quoted_text(text: Seq<char>) -> Seq<char>;

/// What `{:?}` prints for the byte slice `bytes`: the numbers in brackets.
pub uninterp spec fn listed_bytes(bytes: Seq<u8>) -> Seq<char>;

/// The debug representation of a string holding `bytes`.
pub open spec fn debug_text(bytes: Seq<u8>) -> Seq<char> {
    if valid_utf8(bytes) {
        quoted_text(decode_utf8(bytes))
    } else {
        listed_bytes(bytes)
    }
}

/// Formats `text` with `{:?}`, that is with `<str as Debug>::fmt`, into a
/// new `String`. Taken on trust: the output depends on the text alone, so
/// it has a name.
#[verifier::external_body]
fn quote(text: &str) -> (out: String)
    ensures
        out@ == quoted_text(text@),
{
    format!("{:?}", text)
}

/// Formats `bytes` with `{:?}`, that is with `<[u8] as Debug>::fmt`, into a
/// new `String`. Taken on trust: the output depends on the bytes alone, so
/// it has a name.
#[verifier::external_body]
fn list(bytes: &[u8]) -> (out: String)
    ensures
        out@ == listed_bytes(bytes@),
{
    format!("{:?}", bytes)
}

/// `core::fmt::Formatter`, opaque: it is only handed on to the standard
/// library's own `fmt` methods.
#[verifier::external_type_specification]
#[verifier::external_body]
pub struct ExFormatter<'a>(core::fmt::Formatter<'a>);

/// `core::fmt::Error`, opaque: the failure that a formatter's sink reports.
#[verifier::external_type_specification]
#[verifier::external_body]
pub struct ExFmtError(core::fmt::Error);

/// Calls `<str as Debug>::fmt`, which writes `text`, quoted and escaped, to
/// the formatter. Nothing is claimed of the outcome: whether the write
/// succeeds is up to the formatter's sink.
#[verifier::external_body]
fn fmt_text(text: &str, f: &mut core::fmt::Formatter<'_>) -> Result<(), core::fmt::Error> {
    core::fmt::Debug::fmt(text, f)
}

/// Calls `<[u8] as Debug>::fmt`, which writes `bytes` as a bracketed list
/// to the formatter. Nothing is claimed of the outcome: whether the write
/// succeeds is up to the formatter's sink.
#[verifier::external_body]
fn fmt_bytes(bytes: &[u8], f: &mut core::fmt::Formatter<'_>) -> Result<(), core::fmt::Error> {
    core::fmt::Debug::fmt(bytes, f)
}

impl IString {
    /// The form in which this string is printed for debugging.
    pub fn shown(&self) -> (form: Shown<'_>)
        ensures
            match form {
                Shown::Text(text) => valid_utf8(self@) && text@ == decode_utf8(self@),
                Shown::Bytes(bytes) => !valid_utf8(self@) && bytes@ == self@,
            },
    {
        match self.as_str() {
            Ok(text) => Shown::Text(text),
            Err(_) => Shown::Bytes(self.as_bytes()),
        }
    }

    /// The debug representation as a `String`.
    pub fn debug_string(&self) -> (out: String)
        ensures
            out@ == debug_text(self@),
    {
        match self.shown() {
            Shown::Text(text) => quote(text),
            Shown::Bytes(bytes) => list(bytes),
        }
    }
}

impl core::fmt::Debug for IString {
    /// Prints the text where the bytes are UTF-8, the list of bytes where
    /// they are not, as `shown` decides. The formatter's flags apply as they
    /// do to `str` and to `[u8]`.
    fn fmt(&self, f: &mut core::fmt::Formatter<'_>) -> Result<(), core::fmt::Error> {
        match self.shown() {
            Shown::Text(text) => fmt_text(text, f),
            Shown::Bytes(bytes) => fmt_bytes(bytes, f),
        }
    }
}

} // verus!
