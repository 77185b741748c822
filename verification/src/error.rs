//! Why a manifest entry was refused.

use vstd::prelude::*;
use vstd::string::StringExecFns;

verus! {

/// The ways in which a field of a manifest entry can be malformed.
#[derive(Clone, Copy, Debug, PartialEq, Eq, Structural)]
pub enum DecodeError {
    /// The download link lacks `&sid=`, or `&mid` after it.
    MalformedLink,
    /// The location holds no colon.
    MissingColon,
    /// What follows the location's last colon is not two parts with a comma between them.
    ComponentCount,
    /// One of the two parts of the location is not a decimal number.
    NotNumeric,
    /// The date does not have the shape `YYYY-MM-DD HH:MM:SS UTC`.
    DateShape,
    /// The date has the right shape and names no instant of the calendar.
    DateInvalid,
    /// The media type is neither `Image` nor `Video`.
    UnknownMediaType,
}

impl DecodeError {
    /// The text of each error.
    pub open spec fn text(self) -> Seq<char> {
        match self {
            DecodeError::MalformedLink => "Could not parse ID from Download Link"@,
            DecodeError::MissingColon => "Missing colon in Location string"@,
            DecodeError::ComponentCount => "Expected two comma-separated values"@,
            DecodeError::NotNumeric => "invalid float literal"@,
            DecodeError::DateShape => "input is not of the form YYYY-MM-DD HH:MM:SS UTC"@,
            DecodeError::DateInvalid => "input is out of range"@,
            DecodeError::UnknownMediaType => "unknown variant, expected `Image` or `Video`"@,
        }
    }

    /// The error in words.
    pub fn message(&self) -> (r: String)
        ensures
            r@ == self.text(),
    {
        match self {
            DecodeError::MalformedLink => String::from_str("Could not parse ID from Download Link"),
            DecodeError::MissingColon => String::from_str("Missing colon in Location string"),
            DecodeError::ComponentCount => String::from_str("Expected two comma-separated values"),
            DecodeError::NotNumeric => String::from_str("invalid float literal"),
            DecodeError::DateShape => String::from_str(
                "input is not of the form YYYY-MM-DD HH:MM:SS UTC",
            ),
            DecodeError::DateInvalid => String::from_str("input is out of range"),
            DecodeError::UnknownMediaType => String::from_str(
                "unknown variant, expected `Image` or `Video`",
            ),
        }
    }
}

} // verus!
