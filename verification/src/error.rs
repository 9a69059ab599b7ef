//! The failures a native contract can report.

use vstd::prelude::*;
use vstd::string::*;

verus! {

/// The text that `{:?}` writes for a string: the string between double
/// quotes, with the characters escaped that the standard library escapes.
pub uninterp spec fn debug_quoted(text: Seq<char>) -> Seq<char>;

/// Why a native contract gave up on a call.
#[derive(Debug)]
pub enum NativeError {
    /// The call needed more gas than it was given.
    OutOfGas,
    /// Any other failure. The text is for logs only.
    Internal(String),
}

/// Formats `text` with `{:?}`, the standard library's `Debug` for `str`.
/// Unverified: trusted to return exactly what that formatter writes, which
/// depends on `text` alone.
#[verifier::external_body]
fn debug_quote(text: &str) -> (quoted: String)
    ensures
        quoted@ == debug_quoted(text@),
{
    format!("{:?}", text)
}

impl NativeError {
    /// What `to_string` writes for this error.
    pub open spec fn text(&self) -> Seq<char> {
        match self {
            NativeError::OutOfGas => "Out of gas"@,
            NativeError::Internal(detail) => "Internal error "@ + debug_quoted(detail@),
        }
    }

    /// The line shown for an internal error whose detail, already quoted,
    /// is `quoted`.
    pub fn internal_message(quoted: &str) -> (message: String)
        ensures
            message@ == "Internal error "@ + quoted@,
    {
        let mut message = String::from_str("Internal error ");
        message.append(quoted);
        message
    }

    /// The error as one line of text.
    pub fn to_string(&self) -> (message: String)
        ensures
            message@ == self.text(),
    {
        match self {
            NativeError::OutOfGas => String::from_str("Out of gas"),
            NativeError::Internal(detail) => {
                let quoted = debug_quote(detail.as_str());
                NativeError::internal_message(quoted.as_str())
            },
        }
    }
}

} // verus!
