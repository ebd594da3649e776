//! What can go wrong, and the one outside error that is carried along.

use core::str::Utf8Error;
use vstd::prelude::*;
use vstd::utf8::*;

verus! {

/// An error that the broker's own logic can report.
///
/// Failures of sockets, of the file system and of the Steam client arise outside this
/// library and never pass through it.
#[derive(Debug, PartialEq, Eq)]
pub enum BrokerError {
    /// A command was not UTF-8 text.
    Utf8(Utf8Error),
    /// A command lacks the named argument.
    Missing(&'static str),
    /// The named argument of a command does not denote a value of its kind.
    Parse(&'static str),
    /// Anything else, as a fixed message.
    Custom(&'static str),
}

/// The decoding error of `core::str`. It is carried, never looked into.
#[verifier::external_type_specification]
#[verifier::external_body]
pub struct ExUtf8Error(Utf8Error);

/// The error that [`core::str::from_utf8`] reports for bytes that are not UTF-8.
pub uninterp spec fn utf8_error(bytes: Seq<u8>) -> Utf8Error;

/// [`core::str::from_utf8`] accepts exactly the well-formed UTF-8 byte strings, and then
/// hands back the text that those very bytes encode. Otherwise it reports an error that
/// depends on the bytes alone.
pub assume_specification[ core::str::from_utf8 ](v: &[u8]) -> (r: Result<&str, Utf8Error>)
    ensures
        r is Ok <==> valid_utf8(v@),
        r matches Ok(text) ==> encode_utf8(text@) == v@,
        r matches Err(e) ==> e == utf8_error(v@),
;

} // verus!
