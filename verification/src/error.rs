//! The parse-failure taxonomy shared by every decoder.  Each variant names
//! what failed: a column with no header entry, a token that would not
//! coerce, a structurally unusable row, or a correlation miss.

use vstd::prelude::*;

verus! {

/// A decoding or correlation failure, attributed to the identifier it
/// concerns.  Every failure aborts the whole operation it occurred in.
#[derive(Eq, PartialEq, Debug)]
pub enum Error {
    /// A required column has no entry in the current header (the header
    /// never arrived, or the output format changed).  Carries the column
    /// or field name.
    MissingColumn(String),
    /// A token failed coercion to its target type.  Carries the field
    /// name and the offending token.
    BadValue(String, String),
    /// A data row has fewer tokens than the header position of the named
    /// column requires.
    RowTooShort(String),
    /// A line too malformed to dispatch on.  Carries the line.
    BadLine(String),
    /// A pool row whose data and metadata gates are both off.  Carries
    /// the pool name.
    NoPoolSizes(String),
    /// A device path without a final path component.  Carries the path.
    BadDevicePath(String),
    /// A device named by the pool grouping has no kernel statistics
    /// entry.  Carries the device path.
    NoDeviceStat(String),
    /// Summing the named counter left the 64-bit range.
    CounterOverflow(String),
}

/// The mathematical shape of an [`Error`]: the same variants over
/// character sequences.
pub enum ErrorSpec {
    MissingColumn(Seq<char>),
    BadValue(Seq<char>, Seq<char>),
    RowTooShort(Seq<char>),
    BadLine(Seq<char>),
    NoPoolSizes(Seq<char>),
    BadDevicePath(Seq<char>),
    NoDeviceStat(Seq<char>),
    CounterOverflow(Seq<char>),
}

impl View for Error {
    type V = ErrorSpec;

    open spec fn view(&self) -> ErrorSpec {
        match self {
            Error::MissingColumn(c) => ErrorSpec::MissingColumn(c@),
            Error::BadValue(c, v) => ErrorSpec::BadValue(c@, v@),
            Error::RowTooShort(c) => ErrorSpec::RowTooShort(c@),
            Error::BadLine(l) => ErrorSpec::BadLine(l@),
            Error::NoPoolSizes(p) => ErrorSpec::NoPoolSizes(p@),
            Error::BadDevicePath(p) => ErrorSpec::BadDevicePath(p@),
            Error::NoDeviceStat(d) => ErrorSpec::NoDeviceStat(d@),
            Error::CounterOverflow(f) => ErrorSpec::CounterOverflow(f@),
        }
    }
}

} // verus!
