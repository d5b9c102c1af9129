//! strings that mean more than their text: URLs and paths
use vstd::prelude::*;
use crate::text::{text, contains_char};

verus! {

/// a kind of string that is shown with its own shape
#[derive(Debug, Clone, Copy, PartialEq, Eq, Structural)]
pub enum SpecialString {
    Url,
    Path,
}

/// how a special string is shown
pub open spec fn special_text(s: SpecialString) -> Seq<char> {
    match s {
        SpecialString::Url => "url"@,
        SpecialString::Path => "path"@,
    }
}

/// the scheme of `input` read as an absolute URL, lower-cased and without the `:`, `None` when
/// `input` is not an absolute URL
pub uninterp spec fn url_scheme(input: Seq<char>) -> Option<Seq<char>>;

/// `url::Url::parse`, then `url::Url::scheme` on the URL parsed: the scheme of `input` when it
/// is an absolute URL
#[verifier::external_body]
pub(crate) fn parsed_url_scheme(input: &str) -> (r: Option<String>)
    ensures
        r is None <==> url_scheme(input@) is None,
        r matches Some(s) ==> url_scheme(input@) == Some(s@),
{
    match url::Url::parse(input) {
        Ok(url) => Some(url.scheme().to_string()),
        Err(_) => None,
    }
}

/// what a string is, given its text and its scheme as a URL, if it is one: a `file` URL is a
/// path, any other URL is a URL, and a text of one line with a `/` is a path
pub open spec fn special_of(input: Seq<char>, scheme: Option<Seq<char>>) -> Option<SpecialString> {
    match scheme {
        Some(s) => if s == "file"@ {
            Some(SpecialString::Path)
        } else {
            Some(SpecialString::Url)
        },
        None => if input.contains('\n') {
            None
        } else if input.contains('/') {
            Some(SpecialString::Path)
        } else {
            None
        },
    }
}

impl SpecialString {
    /// how this special string is shown
    pub fn text(&self) -> (r: String)
        ensures
            r@ == special_text(*self),
    {
        match self {
            SpecialString::Url => text("url"),
            SpecialString::Path => text("path"),
        }
    }

    /// what `input` is, given its scheme as a URL, if it is one
    pub fn classify(input: &str, scheme: Option<String>) -> (r: Option<SpecialString>)
        ensures
            r == special_of(input@, match scheme {
                Some(s) => Some(s@),
                None => None::<Seq<char>>,
            }),
    {
        match scheme {
            Some(s) => {
                if s == text("file") {
                    Some(SpecialString::Path)
                } else {
                    Some(SpecialString::Url)
                }
            },
            None => {
                if contains_char(input, '\n') {
                    None
                } else if contains_char(input, '/') {
                    Some(SpecialString::Path)
                } else {
                    None
                }
            },
        }
    }

    /// what `input` is: a URL, a path, or nothing special
    pub fn parse(input: &str) -> (r: Option<SpecialString>)
        ensures
            r == special_of(input@, url_scheme(input@)),
    {
        let scheme = parsed_url_scheme(input);
        SpecialString::classify(input, scheme)
    }
}

} // verus!
