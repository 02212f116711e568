//! The errors that the library reports.

use vstd::prelude::*;

verus! {

/// Why an address could not be predicted or a text could not be decoded.
#[derive(Debug)]
pub enum Create2Error {
    /// An address is not written as its format asks; the text says how.
    InvalidAddress(String),
    /// A salt is longer than 32 bytes; the text gives its length.
    InvalidSalt(String),
    /// A text is not an even number of hexadecimal digits.
    MalformedHex,
    /// The checksum at the end of a Base58Check text is not that of its payload.
    InvalidChecksum,
    /// A Base58Check text does not decode to 25 bytes.
    InvalidLength,
    /// No compute device is configured.
    GpuUnavailable,
    /// The compute device could not be set up, or a dispatch failed.
    GpuError(String),
}

/// What a [`Create2Error`] is in contracts: its variant, with the characters of
/// its text.
pub enum ErrorView {
    InvalidAddress(Seq<char>),
    InvalidSalt(Seq<char>),
    MalformedHex,
    InvalidChecksum,
    InvalidLength,
    GpuUnavailable,
    GpuError(Seq<char>),
}

impl View for Create2Error {
    type V = ErrorView;

    open spec fn view(&self) -> ErrorView {
        match *self {
            Create2Error::InvalidAddress(m) => ErrorView::InvalidAddress(m@),
            Create2Error::InvalidSalt(m) => ErrorView::InvalidSalt(m@),
            Create2Error::MalformedHex => ErrorView::MalformedHex,
            Create2Error::InvalidChecksum => ErrorView::InvalidChecksum,
            Create2Error::InvalidLength => ErrorView::InvalidLength,
            Create2Error::GpuUnavailable => ErrorView::GpuUnavailable,
            Create2Error::GpuError(m) => ErrorView::GpuError(m@),
        }
    }
}

/// What a text or an error is in contracts: the characters of the text, or the
/// view of the error.
pub open spec fn text_result(r: Result<String, Create2Error>) -> Result<Seq<char>, ErrorView> {
    match r {
        Ok(text) => Ok(text@),
        Err(e) => Err(e@),
    }
}

/// The line that is printed for an error: what kind of error it is, and the
/// error's own text behind it where it has one.
pub open spec fn message_text(e: ErrorView) -> Seq<char> {
    match e {
        ErrorView::InvalidAddress(text) => "Invalid address format: "@ + text,
        ErrorView::InvalidSalt(text) => "Invalid salt: "@ + text,
        ErrorView::MalformedHex => "Malformed hexadecimal text"@,
        ErrorView::InvalidChecksum => "Invalid Base58Check checksum"@,
        ErrorView::InvalidLength => "Invalid Base58Check length"@,
        ErrorView::GpuUnavailable => "GPU not available"@,
        ErrorView::GpuError(text) => "GPU error: "@ + text,
    }
}

impl Create2Error {
    /// The line that is printed for the error.
    pub fn message(&self) -> (line: String)
        ensures
            line@ == message_text(self@),
    {
        match self {
            Create2Error::InvalidAddress(text) => {
                let mut line = "Invalid address format: ".to_owned();
                line.append(text.as_str());
                line
            },
            Create2Error::InvalidSalt(text) => {
                let mut line = "Invalid salt: ".to_owned();
                line.append(text.as_str());
                line
            },
            Create2Error::MalformedHex => "Malformed hexadecimal text".to_owned(),
            Create2Error::InvalidChecksum => "Invalid Base58Check checksum".to_owned(),
            Create2Error::InvalidLength => "Invalid Base58Check length".to_owned(),
            Create2Error::GpuUnavailable => "GPU not available".to_owned(),
            Create2Error::GpuError(text) => {
                let mut line = "GPU error: ".to_owned();
                line.append(text.as_str());
                line
            },
        }
    }
}

} // verus!
