//! The ways in which writing the summary can fail.

use vstd::prelude::*;
use vstd::string::*;

verus! {

/// A member that every artist entry must hold as a string.
#[derive(Debug, Clone, Copy, PartialEq, Eq, Structural)]
pub enum ArtistField {
    Name,
    Playcount,
}

impl ArtistField {
    /// What `key` returns.
    pub open spec fn key_text(self) -> Seq<char> {
        match self {
            ArtistField::Name => "name"@,
            ArtistField::Playcount => "playcount"@,
        }
    }

    /// The key under which the member stands in an artist entry.
    pub fn key(&self) -> (key: &'static str)
        ensures
            key@ == self.key_text(),
    {
        match self {
            ArtistField::Name => "name",
            ArtistField::Playcount => "playcount",
        }
    }
}

/// Why no summary was written.
#[derive(Debug, Clone, PartialEq, Eq)]
pub enum FormatError {
    /// The configured period is none of the six codes; the value is kept.
    InvalidPeriod(String),
    /// The response holds no array at `topartists.artist`.
    MalformedResponse,
    /// An entry of the array lacks the member, or holds something other than
    /// a string there.
    MissingField(ArtistField),
}

/// A `FormatError` as plain values.
pub enum FormatFailure {
    InvalidPeriod(Seq<char>),
    MalformedResponse,
    MissingField(ArtistField),
}

impl View for FormatError {
    type V = FormatFailure;

    open spec fn view(&self) -> FormatFailure {
        match self {
            FormatError::InvalidPeriod(code) => FormatFailure::InvalidPeriod(code@),
            FormatError::MalformedResponse => FormatFailure::MalformedResponse,
            FormatError::MissingField(field) => FormatFailure::MissingField(*field),
        }
    }
}

/// The message that `FormatError::message` gives.
pub open spec fn message_text(failure: FormatFailure) -> Seq<char> {
    match failure {
        FormatFailure::InvalidPeriod(code) => "Period "@ + code
            + " not allowed. Only allow \"overall\", \"7day\", \"1month\", \"3month\", \"6month\", or \"12month\"."@,
        FormatFailure::MalformedResponse => "Error parsing JSON."@,
        FormatFailure::MissingField(ArtistField::Name) => "Artist not found."@,
        FormatFailure::MissingField(ArtistField::Playcount) => "Playcount not found."@,
    }
}

impl FormatError {
    /// One line for the user that says what went wrong.
    pub fn message(&self) -> (text: String)
        ensures
            text@ == message_text(self@),
    {
        match self {
            FormatError::InvalidPeriod(code) => {
                let mut text = String::from_str("Period ");
                text.append(code.as_str());
                text.append(
                    " not allowed. Only allow \"overall\", \"7day\", \"1month\", \"3month\", \"6month\", or \"12month\".",
                );
                text
            },
            FormatError::MalformedResponse => String::from_str("Error parsing JSON."),
            FormatError::MissingField(ArtistField::Name) => String::from_str("Artist not found."),
            FormatError::MissingField(ArtistField::Playcount) => String::from_str(
                "Playcount not found.",
            ),
        }
    }
}

/// Why the body of a response gave no summary.
#[derive(Debug, Clone, PartialEq, Eq)]
pub enum SummaryError {
    /// The body is not one JSON text.
    Decoding,
    /// The body was decoded and the summary could not be written.
    Format(FormatError),
}

/// A `SummaryError` as plain values.
pub enum SummaryFailure {
    Decoding,
    Format(FormatFailure),
}

impl View for SummaryError {
    type V = SummaryFailure;

    open spec fn view(&self) -> SummaryFailure {
        match self {
            SummaryError::Decoding => SummaryFailure::Decoding,
            SummaryError::Format(e) => SummaryFailure::Format(e@),
        }
    }
}

/// The message that `SummaryError::message` gives.
pub open spec fn summary_message_text(failure: SummaryFailure) -> Seq<char> {
    match failure {
        SummaryFailure::Decoding => "Could not convert response to JSON."@,
        SummaryFailure::Format(inner) => message_text(inner),
    }
}

impl SummaryError {
    /// One line for the user that says what went wrong.
    pub fn message(&self) -> (text: String)
        ensures
            text@ == summary_message_text(self@),
    {
        match self {
            SummaryError::Decoding => String::from_str("Could not convert response to JSON."),
            SummaryError::Format(e) => e.message(),
        }
    }
}

} // verus!
