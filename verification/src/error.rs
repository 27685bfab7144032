//! Errors the library reports.

use vstd::prelude::*;

verus! {

/// A setting the library does not know or cannot use.
#[derive(Debug)]
pub enum AutoparqError {
    UnsupportedType(String),
    UnsupportedCodec(String),
}

pub enum ErrorView {
    UnsupportedType(Seq<char>),
    UnsupportedCodec(Seq<char>),
}

impl View for AutoparqError {
    type V = ErrorView;

    open spec fn view(&self) -> ErrorView {
        match self {
            AutoparqError::UnsupportedType(m) => ErrorView::UnsupportedType(m@),
            AutoparqError::UnsupportedCodec(m) => ErrorView::UnsupportedCodec(m@),
        }
    }
}

impl AutoparqError {
    /// The message of the error, as `Display` would show it.
    pub open spec fn message_text(&self) -> Seq<char> {
        match self {
            AutoparqError::UnsupportedType(m) => "Unsupported type: "@ + m@,
            AutoparqError::UnsupportedCodec(m) => "Unsupported codec: "@ + m@,
        }
    }

    pub fn message(&self) -> (s: String)
        ensures
            s@ == self.message_text(),
    {
        match self {
            AutoparqError::UnsupportedType(m) => crate::text::concat2("Unsupported type: ", m.as_str()),
            AutoparqError::UnsupportedCodec(m) => crate::text::concat2("Unsupported codec: ", m.as_str()),
        }
    }
}

} // verus!
