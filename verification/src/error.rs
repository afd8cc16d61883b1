use crate::text::{decimal, to_decimal};
use vstd::prelude::*;
use vstd::std_specs::convert::IntoSpec;

verus! {

/// Why a kernel call produced no output.
#[derive(Debug)]
pub enum StringpyErr {
    /// The pattern text is malformed; carries the pattern compiler's message.
    PatternError(String),
    /// A capture group was requested that the pattern does not have: the
    /// group asked for, the number of groups of the pattern, and its text.
    InvalidGroupIndex { group: usize, groups: usize, pattern: String },
    /// An input array does not hold the expected kind of element.
    TypeMismatch(String),
    /// A parameter is outside its allowed values.
    InvalidParameter(String),
    /// The exchange of an array with the host failed.
    HostBoundaryError(String),
}

/// What is said of a side that is none of left, right, both.
pub open spec fn side_message() -> Seq<char> {
    "side must be one of 'left', 'right', 'both'"@
}

/// What is said of a side that is none of left, right, center.
pub open spec fn keep_message() -> Seq<char> {
    "Not a valid side, side must be ['left', 'right', 'center']"@
}

/// What is said of a per-row parameter with a wrong number of values.
pub open spec fn rows_message() -> Seq<char> {
    "a per-row parameter must have one value, or one for each row"@
}

/// What is said where no column is given to combine.
pub open spec fn columns_message() -> Seq<char> {
    "at least one column is needed"@
}

/// What is said of flags that do not have one row for each row.
pub open spec fn flags_message() -> Seq<char> {
    "the flags must have one row for each row of the column"@
}

/// What is said of an array that holds another kind of element.
pub open spec fn kind_message() -> Seq<char> {
    "the array does not hold the expected kind of element"@
}

/// What is said of offsets that do not fit 32 bits.
pub open spec fn offsets_message() -> Seq<char> {
    "the list column is too long for 32-bit offsets"@
}

/// Whether an error is an `InvalidParameter` with the given message.
pub open spec fn is_parameter_error(e: StringpyErr, message: Seq<char>) -> bool {
    e matches StringpyErr::InvalidParameter(m) && m@ == message
}

/// Whether an error is a `TypeMismatch` with the given message.
pub open spec fn is_type_error(e: StringpyErr, message: Seq<char>) -> bool {
    e matches StringpyErr::TypeMismatch(m) && m@ == message
}

/// Whether an error is a `HostBoundaryError` with the given message.
pub open spec fn is_host_error(e: StringpyErr, message: Seq<char>) -> bool {
    e matches StringpyErr::HostBoundaryError(m) && m@ == message
}

impl StringpyErr {
    /// An `InvalidParameter` error with the given message.
    pub fn new_value_err<S: Into<String>>(message: S) -> (e: Self)
        ensures
            e is InvalidParameter,
            S::obeys_into_spec() ==> e == StringpyErr::InvalidParameter(message.into_spec()),
    {
        StringpyErr::InvalidParameter(message.into())
    }

    /// The message of an error: the text it carries, or for a group that the
    /// pattern does not have, the group and the pattern.
    pub open spec fn message_of(self) -> Seq<char> {
        match self {
            StringpyErr::PatternError(m) => m@,
            StringpyErr::InvalidGroupIndex { group, groups, pattern } => "Group "@ + decimal(
                group as nat,
            ) + " does not exist in `"@ + pattern@ + "`"@,
            StringpyErr::TypeMismatch(m) => m@,
            StringpyErr::InvalidParameter(m) => m@,
            StringpyErr::HostBoundaryError(m) => m@,
        }
    }

    /// The message of the error, for the caller to show.
    pub fn message(&self) -> (out: String)
        ensures
            out@ == self.message_of(),
    {
        match self {
            StringpyErr::PatternError(m) => m.clone(),
            StringpyErr::InvalidGroupIndex { group, groups, pattern } => {
                let mut out = String::from_str("Group ");
                out.append(to_decimal(*group).as_str());
                out.append(" does not exist in `");
                out.append(pattern.as_str());
                out.append("`");
                out
            },
            StringpyErr::TypeMismatch(m) => m.clone(),
            StringpyErr::InvalidParameter(m) => m.clone(),
            StringpyErr::HostBoundaryError(m) => m.clone(),
        }
    }
}

} // verus!
