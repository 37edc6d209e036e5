//! Web addresses: what the launcher logic reads of a parsed URL, and URL normalisation.
//!
//! Parsing and joining are done by the `url` crate; their results are named
//! (`url_parse`, `url_join`) and the logic around them is verified against those names.
use vstd::prelude::*;

use crate::text::{ascii_lower, ascii_lower_chars, chars_of, contains, contains_str, string_of, trim, trim_str};

verus! {

#[verifier::external_type_specification]
#[verifier::external_body]
pub struct ExUrl(url::Url);

/// What the logic reads of a parsed URL.
pub ghost struct UrlView {
    /// The serialisation (`Url::as_str`).
    pub text: Seq<char>,
    /// `Url::scheme`.
    pub scheme: Seq<char>,
    /// `Url::host_str`.
    pub host: Option<Seq<char>>,
    /// `Url::path`.
    pub path: Seq<char>,
}

/// A parsed URL together with the plain values that the logic reads of it.
#[derive(Debug)]
pub struct UrlParts {
    url: url::Url,
    text: String,
    scheme: String,
    host: Option<String>,
    path: String,
}

pub open spec fn opt_string_view(o: Option<String>) -> Option<Seq<char>> {
    match o {
        Some(s) => Some(s@),
        None => None,
    }
}

impl View for UrlParts {
    type V = UrlView;

    closed spec fn view(&self) -> UrlView {
        UrlView {
            text: self.text@,
            scheme: self.scheme@,
            host: opt_string_view(self.host),
            path: self.path@,
        }
    }
}

pub open spec fn opt_url_view(o: Option<UrlParts>) -> Option<UrlView> {
    match o {
        Some(u) => Some(u@),
        None => None,
    }
}

/// The result of `url::Url::parse` on `input`: `None` when it is refused.
pub uninterp spec fn url_parse(input: Seq<char>) -> Option<UrlView>;

/// The result of `url::Url::join` of `input` onto the URL whose serialisation is `base`.
pub uninterp spec fn url_join(base: Seq<char>, input: Seq<char>) -> Option<UrlView>;

/// Calls `url::Url::parse`; the contract claims that the result, read as plain values,
/// is `url_parse` of the input (a function of the input alone).
#[verifier::external_body]
fn parse_url(input: &str) -> (r: Option<UrlParts>)
    ensures
        opt_url_view(r) == url_parse(input@),
{
    let url = url::Url::parse(input).ok()?;
    let text = url.as_str().to_string();
    let scheme = url.scheme().to_string();
    let host = url.host_str().map(|h| h.to_string());
    let path = url.path().to_string();
    Some(UrlParts { url, text, scheme, host, path })
}

/// Calls `url::Url::join` on the parsed base; the contract claims that the result, read as
/// plain values, is `url_join` of the base's serialisation and the input.
#[verifier::external_body]
fn join_url(base: &UrlParts, input: &str) -> (r: Option<UrlParts>)
    ensures
        opt_url_view(r) == url_join(base@.text, input@),
{
    let url = base.url.join(input).ok()?;
    let text = url.as_str().to_string();
    let scheme = url.scheme().to_string();
    let host = url.host_str().map(|h| h.to_string());
    let path = url.path().to_string();
    Some(UrlParts { url, text, scheme, host, path })
}

impl UrlParts {
    /// Parses `input` as an absolute URL.
    pub fn parse(input: &str) -> (r: Option<UrlParts>)
        ensures
            opt_url_view(r) == url_parse(input@),
    {
        parse_url(input)
    }

    /// Resolves `input` against this URL.
    pub fn join(&self, input: &str) -> (r: Option<UrlParts>)
        ensures
            opt_url_view(r) == url_join(self@.text, input@),
    {
        join_url(self, input)
    }

    /// The serialisation of the URL (`Url::as_str`).
    pub fn as_str(&self) -> (r: &str)
        ensures
            r@ == self@.text,
    {
        self.text.as_str()
    }

    pub fn scheme(&self) -> (r: &str)
        ensures
            r@ == self@.scheme,
    {
        self.scheme.as_str()
    }

    pub fn host_str(&self) -> (r: Option<&str>)
        ensures
            r matches Some(h) ==> self@.host == Some(h@),
            r is None ==> self@.host is None,
    {
        match &self.host {
            Some(h) => Some(h.as_str()),
            None => None,
        }
    }

    pub fn path(&self) -> (r: &str)
        ensures
            r@ == self@.path,
    {
        self.path.as_str()
    }
}

/// Why a URL was refused.
#[derive(Debug, Clone, Copy, PartialEq, Eq, Structural)]
pub enum UrlError {
    /// The input is empty (after trimming).
    Empty,
    /// The URL parser refused the input.
    Invalid,
}

/// The text that `normalize_url` parses: the trimmed input, with `https://` in front when
/// it names no scheme.
pub open spec fn with_scheme(input: Seq<char>) -> Seq<char> {
    let t = trim(input);
    if contains(t, "://"@) {
        t
    } else {
        "https://"@ + t
    }
}

/// Ensure the URL has a scheme; default to https.
pub fn normalize_url(input: &str) -> (r: Result<UrlParts, UrlError>)
    ensures
        trim(input@).len() == 0 ==> r == Err::<UrlParts, UrlError>(UrlError::Empty),
        trim(input@).len() > 0 ==> match url_parse(with_scheme(input@)) {
            Some(v) => r matches Ok(u) && u@ == v,
            None => r == Err::<UrlParts, UrlError>(UrlError::Invalid),
        },
{
    let trimmed = trim_str(input);
    if trimmed.as_str().unicode_len() == 0 {
        return Err(UrlError::Empty);
    }
    let full = if contains_str(trimmed.as_str(), "://") {
        trimmed
    } else {
        let mut s = String::from_str("https://");
        s.append(trimmed.as_str());
        s
    };
    match parse_url(full.as_str()) {
        Some(u) => Ok(u),
        None => Err(UrlError::Invalid),
    }
}

/// The lower-cased host of `page_url`, when it parses and has one.
pub open spec fn host_from_url_spec(page_url: Seq<char>) -> Option<Seq<char>> {
    match url_parse(page_url) {
        Some(v) => match v.host {
            Some(h) => Some(ascii_lower(h)),
            None => None,
        },
        None => None,
    }
}

/// Host from a page URL (lowercase), if parseable.
pub fn host_from_url(page_url: &str) -> (r: Option<String>)
    ensures
        opt_string_view(r) == host_from_url_spec(page_url@),
{
    match parse_url(page_url) {
        Some(u) => match u.host_str() {
            Some(h) => {
                let c = chars_of(h);
                let l = ascii_lower_chars(&c);
                Some(string_of(&l))
            },
            None => None,
        },
        None => None,
    }
}

} // verus!
