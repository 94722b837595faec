//! Why a string was not accepted as the address of a database.

use vstd::prelude::*;
use vstd::string::StringExecFns;

verus! {

/// Result of anything that validates a URL.
pub type UrlParseResult<T> = Result<T, UrlParseError>;

/// Error enum for URL parsing errors.
#[derive(Debug)]
pub enum UrlParseError {
    /// The URL path is missing.
    NoPath,
    /// The URL protocol should be HTTPS.
    NotHttps,
    /// Error occurred while parsing the URL.
    Parser(url::ParseError),
}

/// What [`UrlParseError::message`] says before the parser's own words.
pub open spec fn parser_prefix() -> Seq<char> {
    "Error while parsing the URL: "@
}

/// The text that `url::ParseError` displays. Nothing is claimed of it.
#[verifier::external_body]
fn parser_words(error: &url::ParseError) -> String {
    error.to_string()
}

/// The message for a parser's error with these `words`.
pub fn parser_message(words: &str) -> (res: String)
    ensures
        res@ == parser_prefix() + words@,
{
    let mut res = String::from_str("Error while parsing the URL: ");
    res.append(words);
    res
}

impl UrlParseError {
    /// The message for a person to read; for a parser's error, what
    /// [`parser_message`] makes of the parser's own words.
    pub fn message(&self) -> (res: String)
        ensures
            self is NoPath ==> res@ == "URL path is missing."@,
            self is NotHttps ==> res@ == "The URL protocol should be https."@,
            self is Parser ==> res@.len() >= parser_prefix().len() && res@.take(
                parser_prefix().len() as int,
            ) == parser_prefix(),
    {
        match self {
            UrlParseError::NoPath => String::from_str("URL path is missing."),
            UrlParseError::NotHttps => String::from_str("The URL protocol should be https."),
            UrlParseError::Parser(e) => {
                let words = parser_words(e);
                let res = parser_message(words.as_str());
                assert(res@.take(parser_prefix().len() as int) == parser_prefix());
                res
            },
        }
    }
}

} // verus!
