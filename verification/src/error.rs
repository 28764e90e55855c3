//! Errors the parsers report.
use vstd::prelude::*;

verus! {

#[derive(Debug, Clone)]
pub enum ParseError {
    /// A malformed value, with a description.
    Generic(String),
    /// A number that did not parse, with the integer parser's message.
    IntParse(String),
    /// A required key was absent.
    KeyMissing(String),
}

/// A `ParseError` as plain values.
pub enum ParseErrorView {
    Generic(Seq<char>),
    IntParse(Seq<char>),
    KeyMissing(Seq<char>),
}

impl View for ParseError {
    type V = ParseErrorView;

    open spec fn view(&self) -> ParseErrorView {
        match self {
            ParseError::Generic(s) => ParseErrorView::Generic(s@),
            ParseError::IntParse(s) => ParseErrorView::IntParse(s@),
            ParseError::KeyMissing(s) => ParseErrorView::KeyMissing(s@),
        }
    }
}

/// The message `str::parse::<i64>` gives when `s` does not parse.
pub uninterp spec fn int_error_text(s: Seq<char>) -> Seq<char>;

/// `str::parse::<i64>`, keeping the `ParseIntError`'s `to_string()`. The
/// contract names the message `int_error_text`; its wording is not restated.
#[verifier::external_body]
pub(crate) fn int_error_message(s: &str) -> (r: String)
    ensures
        r@ == int_error_text(s@),
{
    match s.parse::<i64>() {
        Ok(_) => String::new(),
        Err(e) => e.to_string(),
    }
}

} // verus!
