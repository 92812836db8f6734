//! The parts of an absolute URL.

use vstd::prelude::*;
use vstd::string::*;
use crate::config::optional_text;

verus! {

/// The parts of a URL that the runtime looks at.
pub struct UrlParts {
    pub scheme: String,
    pub host: Option<String>,
    pub username: String,
    pub password: Option<String>,
    pub fragment: Option<String>,
    pub port: Option<u16>,
    pub path: String,
    pub query: Option<String>,
}

pub struct UrlView {
    pub scheme: Seq<char>,
    pub host: Option<Seq<char>>,
    pub username: Seq<char>,
    pub password: Option<Seq<char>>,
    pub fragment: Option<Seq<char>>,
    pub port: Option<u16>,
    pub path: Seq<char>,
    pub query: Option<Seq<char>>,
}

impl UrlParts {
    pub open spec fn view(&self) -> UrlView {
        UrlView {
            scheme: self.scheme@,
            host: optional_text(self.host),
            username: self.username@,
            password: optional_text(self.password),
            fragment: optional_text(self.fragment),
            port: self.port,
            path: self.path@,
            query: optional_text(self.query),
        }
    }
}

/// The parts of the URL that a text is, where it is one.
pub uninterp spec fn url_parsed(source: Seq<char>) -> Option<UrlView>;

/// `url::Url::parse`, and the accessors of its result: the parts of the URL. The port is the one
/// that the URL names, else the one that its scheme implies.
#[verifier::external_body]
pub(crate) fn parse_url(source: &str) -> (r: Option<UrlParts>)
    ensures
        match r {
            Some(parts) => url_parsed(source@) == Some(parts@),
            None => url_parsed(source@) is None,
        },
{
    url::Url::parse(source).ok().map(|url| UrlParts {
        scheme: url.scheme().to_owned(),
        host: url.host_str().map(str::to_owned),
        username: url.username().to_owned(),
        password: url.password().map(str::to_owned),
        fragment: url.fragment().map(str::to_owned),
        port: url.port_or_known_default(),
        path: url.path().to_owned(),
        query: url.query().map(str::to_owned),
    })
}

} // verus!
