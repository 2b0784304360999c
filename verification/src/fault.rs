//! Coded failures: a stable code for machines and a sentence for people.

use vstd::prelude::*;

use crate::text;

verus! {

/// What a failure says: its code and its message.
#[verifier::ext_equal]
pub struct Fault {
    pub code: Seq<char>,
    pub message: Seq<char>,
}

/// The failure with the given code and message.
pub open spec fn fault(code: &str, message: &str) -> Fault {
    Fault { code: code@, message: message@ }
}

/// A failure of the provider boundary.
#[derive(Debug, Clone)]
pub struct LegacyProviderError {
    pub code: String,
    pub message: String,
}

impl LegacyProviderError {
    pub open spec fn view(&self) -> Fault {
        Fault { code: self.code@, message: self.message@ }
    }

    pub fn invalid(code: &str, message: &str) -> (r: Self)
        ensures
            r@ == fault(code, message),
    {
        LegacyProviderError { code: text::owned(code), message: text::owned(message) }
    }

    pub fn code(&self) -> (r: &str)
        ensures
            r@ == self@.code,
    {
        self.code.as_str()
    }

    pub fn message(&self) -> (r: &str)
        ensures
            r@ == self@.message,
    {
        self.message.as_str()
    }
}

/// A failure of the mounted file system.
#[derive(Debug, Clone)]
pub struct LegacyCoreError {
    pub code: String,
    pub message: String,
}

impl LegacyCoreError {
    pub open spec fn view(&self) -> Fault {
        Fault { code: self.code@, message: self.message@ }
    }

    pub fn invalid(code: &str, message: &str) -> (r: Self)
        ensures
            r@ == fault(code, message),
    {
        LegacyCoreError { code: text::owned(code), message: text::owned(message) }
    }

    pub fn code(&self) -> (r: &str)
        ensures
            r@ == self@.code,
    {
        self.code.as_str()
    }

    pub fn message(&self) -> (r: &str)
        ensures
            r@ == self@.message,
    {
        self.message.as_str()
    }
}

/// A file that does not follow its format.
#[derive(Debug, Clone)]
pub struct FvpFormatError {
    code: &'static str,
    message: String,
}

impl FvpFormatError {
    pub closed spec fn view(&self) -> Fault {
        Fault { code: self.code@, message: self.message@ }
    }

    pub fn new(code: &'static str, message: &str) -> (r: Self)
        ensures
            r@ == fault(code, message),
    {
        FvpFormatError { code, message: text::owned(message) }
    }

    pub fn code(&self) -> (r: &'static str)
        ensures
            r@ == self@.code,
    {
        self.code
    }

    pub fn message(&self) -> (r: &str)
        ensures
            r@ == self@.message,
    {
        self.message.as_str()
    }

    /// The line shown to people: code, colon, message.
    pub fn to_text(&self) -> (r: String)
        ensures
            r@ == self@.code + ": "@ + self@.message,
    {
        text::join3(self.code, ": ", self.message.as_str())
    }
}

}
