//! The parts of a request URI.

use vstd::prelude::*;
use vstd::string::*;
use crate::backend::ToolInfrastructureError;
use crate::config::{clone_optional, optional_text};

verus! {

/// The parts of a URI that requests are addressed with.
pub struct UriParts {
    pub scheme: Option<String>,
    pub authority: Option<String>,
    pub host: Option<String>,
    pub path: String,
    pub query: Option<String>,
}

pub struct UriView {
    pub scheme: Option<Seq<char>>,
    pub authority: Option<Seq<char>>,
    pub host: Option<Seq<char>>,
    pub path: Seq<char>,
    pub query: Option<Seq<char>>,
}

impl UriParts {
    pub open spec fn view(&self) -> UriView {
        UriView {
            scheme: optional_text(self.scheme),
            authority: optional_text(self.authority),
            host: optional_text(self.host),
            path: self.path@,
            query: optional_text(self.query),
        }
    }
}

impl Clone for UriParts {
    fn clone(&self) -> (r: Self)
        ensures
            r@ == self@,
    {
        UriParts {
            scheme: clone_optional(&self.scheme),
            authority: clone_optional(&self.authority),
            host: clone_optional(&self.host),
            path: self.path.clone(),
            query: clone_optional(&self.query),
        }
    }
}

/// The parts of the URI that a text is, where it is one.
pub uninterp spec fn uri_parsed(source: Seq<char>) -> Option<UriView>;

/// `http::Uri::from_str`, and the accessors of its result: the parts of the URI.
#[verifier::external_body]
pub(crate) fn parse_uri(source: &str) -> (r: Option<UriParts>)
    ensures
        match r {
            Some(parts) => uri_parsed(source@) == Some(parts@),
            None => uri_parsed(source@) is None,
        },
{
    source.parse::<http::Uri>().ok().map(|uri| UriParts {
        scheme: uri.scheme_str().map(str::to_owned),
        authority: uri.authority().map(|authority| authority.as_str().to_owned()),
        host: uri.host().map(str::to_owned),
        path: uri.path().to_owned(),
        query: uri.query().map(str::to_owned),
    })
}

/// The host of the URI that a text is, where it is one and has one.
pub fn host_of(source: &str) -> (r: Option<String>)
    ensures
        optional_text(r) == (match uri_parsed(source@) {
            Some(uri) => uri.host,
            None => None,
        }),
{
    match parse_uri(source) {
        Some(parts) => parts.host,
        None => None,
    }
}

/// The text of a URI with the scheme and the authority of another, and this path.
pub open spec fn joined_uri(base: UriView, path: Seq<char>) -> Option<Seq<char>> {
    match (base.scheme, base.authority) {
        (Some(scheme), Some(authority)) => {
            let uri = scheme + "://"@ + authority + path;
            if uri_parsed(uri) is Some {
                Some(uri)
            } else {
                None
            }
        },
        _ => None,
    }
}

/// What a text is, as the result of a function that gives one.
pub open spec fn text_result(r: Result<String, ToolInfrastructureError>) -> Result<
    Seq<char>,
    ToolInfrastructureError,
> {
    match r {
        Ok(s) => Ok(s@),
        Err(error) => Err(error),
    }
}

/// The URI with the scheme and the authority of another, and this path.
pub fn join_uri(base: &UriParts, path: &str) -> (r: Result<String, ToolInfrastructureError>)
    ensures
        text_result(r) == (match joined_uri(base@, path@) {
            Some(uri) => Ok(uri),
            None => Err(ToolInfrastructureError::Configuration),
        }),
{
    match (&base.scheme, &base.authority) {
        (Some(scheme), Some(authority)) => {
            let mut uri = scheme.clone();
            uri.append("://");
            uri.append(authority.as_str());
            uri.append(path);
            match parse_uri(uri.as_str()) {
                Some(_) => Ok(uri),
                None => Err(ToolInfrastructureError::configuration()),
            }
        },
        _ => Err(ToolInfrastructureError::configuration()),
    }
}

} // verus!
