//! Why a file was refused.

use crate::number::{append_decimal, decimal_digits};
use vstd::prelude::*;

verus! {

/// The reason for which a file could not be decoded.
#[derive(Debug, PartialEq, Eq)]
pub enum DecodeError {
    /// The text holds fewer than four `;;`-separated segments; `segments`
    /// is how many it holds.
    MalformedHeader { segments: usize },
    /// The version field, `text`, is no unsigned 16-bit decimal number.
    InvalidVersion { text: String },
    /// The dimension field, `text`, is not of the form `WIDTHxHEIGHT` with
    /// two unsigned 32-bit decimal numbers.
    InvalidDimensions { text: String },
    /// The payload ends before the grid is full; `position` is the payload
    /// index of the first character that is missing.
    TruncatedData { position: usize },
}

/// Mathematical value of a [`DecodeError`].
pub enum DecodeErrorView {
    MalformedHeader { segments: nat },
    InvalidVersion { text: Seq<char> },
    InvalidDimensions { text: Seq<char> },
    TruncatedData { position: nat },
}

impl View for DecodeError {
    type V = DecodeErrorView;

    open spec fn view(&self) -> DecodeErrorView {
        match self {
            DecodeError::MalformedHeader { segments } => DecodeErrorView::MalformedHeader {
                segments: *segments as nat,
            },
            DecodeError::InvalidVersion { text } => DecodeErrorView::InvalidVersion { text: text@ },
            DecodeError::InvalidDimensions { text } => DecodeErrorView::InvalidDimensions {
                text: text@,
            },
            DecodeError::TruncatedData { position } => DecodeErrorView::TruncatedData {
                position: *position as nat,
            },
        }
    }
}

/// The sentence that tells a reader why a file was refused.
pub open spec fn message_of(error: DecodeErrorView) -> Seq<char> {
    match error {
        DecodeErrorView::MalformedHeader { segments } => "Malformed header: found "@
            + decimal_digits(segments) + " of 4 segments"@,
        DecodeErrorView::InvalidVersion { text } => "Conversion error: invalid version '"@ + text
            + "'"@,
        DecodeErrorView::InvalidDimensions { text } => "Conversion error: invalid dimensions '"@
            + text + "'"@,
        DecodeErrorView::TruncatedData { position } => "Truncated data: payload ends at character "@
            + decimal_digits(position),
    }
}

impl DecodeError {
    /// The sentence that tells a reader why the file was refused.
    pub fn message(&self) -> (text: String)
        ensures
            text@ == message_of(self@),
    {
        let mut text = String::new();
        match self {
            DecodeError::MalformedHeader { segments } => {
                text.append("Malformed header: found ");
                append_decimal(&mut text, *segments as u64);
                text.append(" of 4 segments");
            },
            DecodeError::InvalidVersion { text: field } => {
                text.append("Conversion error: invalid version '");
                text.append(field.as_str());
                text.append("'");
            },
            DecodeError::InvalidDimensions { text: field } => {
                text.append("Conversion error: invalid dimensions '");
                text.append(field.as_str());
                text.append("'");
            },
            DecodeError::TruncatedData { position } => {
                text.append("Truncated data: payload ends at character ");
                append_decimal(&mut text, *position as u64);
            },
        }
        assert(text@ =~= message_of(self@));
        text
    }
}

} // verus!
