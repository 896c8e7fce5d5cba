use vstd::prelude::*;
use vstd::string::StringExecFns;

verus! {

/// Relies on `core::fmt::Error`: the opaque, payload-free value that a
/// formatting sink reports on a failed write. Declared so that
/// `Error::Write` can carry the underlying cause.
#[verifier::external_type_specification]
#[verifier::external_body]
pub struct ExFmtError(core::fmt::Error);

/// The mathematical shape of an [`Error`]: what every contract of this
/// crate says about failures. Key-carrying variants hold the key as a
/// character sequence; a write failure is a bare tag, since the value of
/// `core::fmt::Error` carries no information.
pub enum ErrorModel {
    UnknownKey(Seq<char>),
    NoData(Seq<char>),
    ImbalancedBrackets,
    Overflow,
    WriteFailed,
}

/// An error produced while compiling a template or rendering its pieces.
#[derive(Debug)]
pub enum Error {
    /// A placeholder named a key with no entry in the `FormatMap`.
    /// Carries the unknown key.
    UnknownKey(String),
    /// A callback returned `None` during rendering: it had no data for the
    /// given input. Carries the key whose callback declined.
    NoData(String),
    /// The template held an unmatched `{` or `}`. Literal braces must be
    /// escaped as `{{` and `}}`.
    ImbalancedBrackets,
    /// Internal index or capacity arithmetic would overflow.
    Overflow,
    /// The output sink rejected an append; carries the underlying cause.
    Write(core::fmt::Error),
}

impl View for Error {
    type V = ErrorModel;

    open spec fn view(&self) -> ErrorModel {
        match self {
            Error::UnknownKey(k) => ErrorModel::UnknownKey(k@),
            Error::NoData(k) => ErrorModel::NoData(k@),
            Error::ImbalancedBrackets => ErrorModel::ImbalancedBrackets,
            Error::Overflow => ErrorModel::Overflow,
            Error::Write(_) => ErrorModel::WriteFailed,
        }
    }
}

impl PartialEq for Error {
    /// Two errors are equal when their models are: same variant, and for the
    /// key-carrying variants the same key. The payload of `Write` is ignored,
    /// as `core::fmt::Error` is a unit type.
    fn eq(&self, other: &Error) -> (r: bool) {
        match (self, other) {
            (Error::UnknownKey(a), Error::UnknownKey(b)) => *a == *b,
            (Error::NoData(a), Error::NoData(b)) => *a == *b,
            (Error::ImbalancedBrackets, Error::ImbalancedBrackets) => true,
            (Error::Overflow, Error::Overflow) => true,
            (Error::Write(_), Error::Write(_)) => true,
            _ => false,
        }
    }
}

impl Eq for Error {

}

impl vstd::std_specs::cmp::PartialEqSpecImpl for Error {
    open spec fn obeys_eq_spec() -> bool {
        true
    }

    open spec fn eq_spec(&self, other: &Error) -> bool {
        self@ == other@
    }
}

impl From<core::fmt::Error> for Error {
    fn from(e: core::fmt::Error) -> (r: Error) {
        Error::Write(e)
    }
}

impl vstd::std_specs::convert::FromSpecImpl<core::fmt::Error> for Error {
    open spec fn obeys_from_spec() -> bool {
        true
    }

    open spec fn from_spec(e: core::fmt::Error) -> Error {
        Error::Write(e)
    }
}

impl Error {
    /// The human-readable description of this error, by variant; the
    /// key-carrying variants embed the key.
    pub open spec fn message_model(&self) -> Seq<char> {
        match self@ {
            ErrorModel::UnknownKey(k) => "unknown key '"@ + k + "'"@,
            ErrorModel::NoData(k) => "no data for key '"@ + k + "'"@,
            ErrorModel::ImbalancedBrackets => "imbalanced brackets in template"@,
            ErrorModel::Overflow => "integer overflow/underflow"@,
            ErrorModel::WriteFailed => "std::fmt::Write error"@,
        }
    }

    /// A human-readable description of the error.
    pub fn message(&self) -> (r: String)
        ensures
            r@ == self.message_model(),
    {
        match self {
            Error::UnknownKey(k) => {
                let mut m = String::from_str("unknown key '");
                m.append(k.as_str());
                m.append("'");
                m
            },
            Error::NoData(k) => {
                let mut m = String::from_str("no data for key '");
                m.append(k.as_str());
                m.append("'");
                m
            },
            Error::ImbalancedBrackets => String::from_str("imbalanced brackets in template"),
            Error::Overflow => String::from_str("integer overflow/underflow"),
            Error::Write(_) => String::from_str("std::fmt::Write error"),
        }
    }
}

} // verus!
