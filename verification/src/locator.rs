//! Locations, as far as the lake reads them.

use vstd::prelude::*;

verus! {

/// A parsed URL: its normal form, and the parts of it that the lake reads.
#[derive(Debug)]
pub struct Url {
    /// The URL in its normal form.
    pub serialization: String,
    /// The scheme, in lower case and without the colon.
    pub scheme: String,
    /// The host, where the URL has one.
    pub host: Option<String>,
    /// The port, where the URL names one that is not the default of its scheme.
    pub port: Option<u16>,
    /// The path, percent-encoded.
    pub path: String,
}

/// The mathematical value of a [`Url`].
pub struct UrlView {
    pub serialization: Seq<char>,
    pub scheme: Seq<char>,
    pub host: Option<Seq<char>>,
    pub port: Option<u16>,
    pub path: Seq<char>,
}

/// The characters of a string that may be absent.
pub open spec fn optional_text(s: Option<String>) -> Option<Seq<char>> {
    match s {
        Some(text) => Some(text@),
        None => None,
    }
}

impl View for Url {
    type V = UrlView;

    open spec fn view(&self) -> UrlView {
        UrlView {
            serialization: self.serialization@,
            scheme: self.scheme@,
            host: optional_text(self.host),
            port: self.port,
            path: self.path@,
        }
    }
}

/// An error of the url crate.
#[verifier::external_type_specification]
#[verifier::external_body]
pub struct ExUrlParseError(url::ParseError);

/// What `url::Url::parse` makes of a text: the URL, or the error.
pub uninterp spec fn parsed_url(input: Seq<char>) -> Result<UrlView, url::ParseError>;

/// Calls `url::Url::parse`, and takes the parts of the result that [`Url`] holds by `as_str`,
/// `scheme`, `host_str`, `port` and `path`. The contract claims that the outcome depends on nothing
/// but the text: it is [`parsed_url`] of it.
#[verifier::external_body]
fn parse_url(input: &str) -> (parsed: Result<Url, url::ParseError>)
    ensures
        match parsed {
            Ok(url) => parsed_url(input@) == Ok::<UrlView, url::ParseError>(url@),
            Err(err) => parsed_url(input@) == Err::<UrlView, url::ParseError>(err),
        },
{
    url::Url::parse(input).map(|u| Url {
        serialization: u.as_str().to_owned(),
        scheme: u.scheme().to_owned(),
        host: u.host_str().map(|host| host.to_owned()),
        port: u.port(),
        path: u.path().to_owned(),
    })
}

/// A text that is not a URL, and why.
#[derive(Debug)]
pub struct InvalidUrl {
    pub cause: url::ParseError,
}

impl Url {
    /// The URL that `input` spells.
    pub fn parse(input: &str) -> (parsed: Result<Url, InvalidUrl>)
        ensures
            match parsed {
                Ok(url) => parsed_url(input@) == Ok::<UrlView, url::ParseError>(url@),
                Err(err) => parsed_url(input@) == Err::<UrlView, url::ParseError>(err.cause),
            },
    {
        match parse_url(input) {
            Ok(url) => Ok(url),
            Err(cause) => Err(InvalidUrl { cause }),
        }
    }

    /// The URL in its normal form.
    pub fn as_str(&self) -> (s: &str)
        ensures
            s@ == self@.serialization,
    {
        self.serialization.as_str()
    }

    /// The scheme.
    pub fn scheme(&self) -> (s: &str)
        ensures
            s@ == self@.scheme,
    {
        self.scheme.as_str()
    }

    /// Whether the URL has a host.
    pub fn has_host(&self) -> (b: bool)
        ensures
            b == (self@.host is Some),
    {
        self.host.is_some()
    }

    /// The host, if any.
    pub fn host_str(&self) -> (s: Option<&str>)
        ensures
            match s {
                Some(host) => self@.host == Some(host@),
                None => self@.host is None,
            },
    {
        match &self.host {
            Some(host) => Some(host.as_str()),
            None => None,
        }
    }

    /// The port, if the URL names one.
    pub fn port(&self) -> (port: Option<u16>)
        ensures
            port == self@.port,
    {
        self.port
    }

    /// The path.
    pub fn path(&self) -> (s: &str)
        ensures
            s@ == self@.path,
    {
        self.path.as_str()
    }
}

impl Clone for Url {
    fn clone(&self) -> (url: Self)
        ensures
            url@ == self@,
    {
        Url {
            serialization: self.serialization.clone(),
            scheme: self.scheme.clone(),
            host: match &self.host {
                Some(host) => Some(host.clone()),
                None => None,
            },
            port: self.port,
            path: self.path.clone(),
        }
    }
}

/// The parts of a URL are what its methods give.
pub proof fn law_url_is_its_parts(url: Url)
    ensures
        url@.serialization == url.serialization@,
        url@.scheme == url.scheme@,
        url@.host is Some <==> url.host is Some,
        url.host is Some ==> url@.host->0 == url.host->0@,
        url@.port == url.port,
        url@.path == url.path@,
{
}

} // verus!
