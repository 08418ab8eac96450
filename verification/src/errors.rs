//! The error classifier: from a native status code to a typed outcome.

use crate::utils::{
    c_char_ptr_to_string, decimal, lenient, push_decimal, push_signed_decimal, signed_decimal,
};
use vstd::prelude::*;
use vstd::string::StringExecFns;

verus! {

/// The status with which the backend reports that the caller's buffer was
/// too small for the result.
pub const OVERFLOW_CODE: i32 = -34;

/// Why an operation failed.
#[derive(Debug)]
pub enum Error {
    /// The backend refused: its status code and its own description of it.
    RadosError((isize, String)),
    /// A pool, cluster, user or path name holds a zero byte, at this offset.
    NulError(usize),
    /// An object, attribute or snapshot name holds a zero byte, at this
    /// offset.
    IoError(usize),
    /// A name that has to be text is not UTF-8: the offset up to which it
    /// is, and its bytes.
    Utf8Error((usize, Vec<u8>)),
    /// Anything else, in words: a result that outgrew every buffer the
    /// client is willing to offer.
    OtherError(String),
}

/// An `Error` as a mathematical value.
pub ghost enum ErrorView {
    RadosError(int, Seq<char>),
    NulError(nat),
    IoError(nat),
    Utf8Error(nat, Seq<u8>),
    OtherError(Seq<char>),
}

impl View for Error {
    type V = ErrorView;

    open spec fn view(&self) -> ErrorView {
        match self {
            Error::RadosError((code, message)) => ErrorView::RadosError(*code as int, message@),
            Error::NulError(at) => ErrorView::NulError(*at as nat),
            Error::IoError(at) => ErrorView::IoError(*at as nat),
            Error::Utf8Error((at, bytes)) => ErrorView::Utf8Error(*at as nat, bytes@),
            Error::OtherError(message) => ErrorView::OtherError(message@),
        }
    }
}

impl DeepView for Error {
    type V = ErrorView;

    open spec fn deep_view(&self) -> ErrorView {
        self@
    }
}

impl ErrorView {
    /// The failure is the backend's "buffer too small".
    pub open spec fn is_overflow(self) -> bool {
        self matches ErrorView::RadosError(code, _) && code == OVERFLOW_CODE
    }

    /// The error in words.
    pub open spec fn describe(self) -> Seq<char> {
        match self {
            ErrorView::RadosError(code, message) => "RadosError: code: "@ + signed_decimal(code)
                + ", message: "@ + message,
            ErrorView::NulError(at) => "NulError: nul byte found in provided data at position: "@
                + decimal(at),
            ErrorView::IoError(at) => "IoError: nul byte found in provided data at position: "@
                + decimal(at),
            ErrorView::Utf8Error(at, _) => "Utf8Error: invalid utf-8 sequence from index "@
                + decimal(at),
            ErrorView::OtherError(message) => "OtherError: "@ + message,
        }
    }
}

impl Error {
    /// The error in words: its kind, then what it carries.
    pub fn describe(&self) -> (text: String)
        ensures
            text@ == self@.describe(),
    {
        match self {
            Error::RadosError((code, message)) => {
                let mut text = "RadosError: code: ".to_owned();
                push_signed_decimal(&mut text, *code);
                text.append(", message: ");
                text.append(message.as_str());
                text
            },
            Error::NulError(at) => {
                let mut text = "NulError: nul byte found in provided data at position: ".to_owned();
                push_decimal(&mut text, *at);
                text
            },
            Error::IoError(at) => {
                let mut text = "IoError: nul byte found in provided data at position: ".to_owned();
                push_decimal(&mut text, *at);
                text
            },
            Error::Utf8Error((at, _)) => {
                let mut text = "Utf8Error: invalid utf-8 sequence from index ".to_owned();
                push_decimal(&mut text, *at);
                text
            },
            Error::OtherError(message) => {
                let mut text = "OtherError: ".to_owned();
                text.append(message.as_str());
                text
            },
        }
    }

    /// Whether this is the backend's "buffer too small": told by the code,
    /// never by the message.
    pub fn is_overflow(&self) -> (res: bool)
        ensures
            res == self@.is_overflow(),
    {
        match self {
            Error::RadosError((code, _)) => *code == -34isize,
            _ => false,
        }
    }
}

/// Two errors are equal when both come from the backend with the same
/// status code; the messages are not compared, and no other kind of error
/// equals anything.
impl PartialEq for Error {
    fn eq(&self, other: &Self) -> (res: bool) {
        match (self, other) {
            (Error::RadosError((code1, _)), Error::RadosError((code2, _))) => *code1 == *code2,
            _ => false,
        }
    }
}

impl vstd::std_specs::cmp::PartialEqSpecImpl for Error {
    open spec fn obeys_eq_spec() -> bool {
        true
    }

    open spec fn eq_spec(&self, other: &Self) -> bool {
        match (self, other) {
            (Error::RadosError((code1, _)), Error::RadosError((code2, _))) => *code1 == *code2,
            _ => false,
        }
    }
}

/// The error that a negative status code stands for, given the backend's
/// text for it. The kind of the failure is told by the code; the text is
/// advisory and is read leniently.
pub open spec fn failure(code: int, message: Seq<u8>) -> ErrorView {
    ErrorView::RadosError(code, lenient(message))
}

/// Classifies a native status code. A code of zero or more is success.
/// A negative code is a backend failure that carries the code and
/// `message`, the backend's own description of it, read leniently.
pub fn check_error(code: i32, message: &[u8]) -> (res: Result<(), Error>)
    ensures
        res is Ok <==> code >= 0,
        res matches Err(e) ==> e@ == failure(code as int, message@),
{
    if code >= 0 {
        return Ok(());
    }
    Err(Error::RadosError((code as isize, c_char_ptr_to_string(message))))
}

} // verus!
