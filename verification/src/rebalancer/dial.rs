//! Where a request to a daemon goes, by its URL.

use vstd::prelude::*;

use crate::text;
use vstd::string::*;

verus! {

/// The port that a URL without one means.
pub const HTTP_PORT: u16 = 80;

/// What `hyper::Uri` makes of a URL: the host, the port, and the path with the query, each where
/// there is one; or, for what is no URL, the words of its error.
pub uninterp spec fn parsed_uri(url: Seq<char>) -> Result<
    (Option<Seq<char>>, Option<u16>, Option<Seq<char>>),
    Seq<char>,
>;

/// The parts of a URL that a request needs.
#[derive(Debug, PartialEq, Eq)]
pub struct UriParts {
    /// The host.
    pub host: Option<String>,
    /// The port.
    pub port: Option<u16>,
    /// The path with the query.
    pub path: Option<String>,
}

/// The characters of a text that may be there.
pub open spec fn text_of(s: Option<String>) -> Option<Seq<char>> {
    match s {
        Some(s) => Some(s@),
        None => None,
    }
}

/// The parts of a URL, or the reason why it is none, as plain values.
pub open spec fn plain(parsed: Result<UriParts, String>) -> Result<
    (Option<Seq<char>>, Option<u16>, Option<Seq<char>>),
    Seq<char>,
> {
    match parsed {
        Ok(parts) => Ok((text_of(parts.host), parts.port, text_of(parts.path))),
        Err(why) => Err(why@),
    }
}

/// `hyper::Uri`'s `from_str`, and of what it makes of the URL `host`, `port_u16` and
/// `path_and_query`; or its error's `Display`. What they say of a URL depends on the URL alone.
#[verifier::external_body]
fn uri_parts(url: &str) -> (parsed: Result<UriParts, String>)
    ensures
        plain(parsed) == parsed_uri(url@),
{
    let uri: hyper::Uri = url.parse().map_err(|e: hyper::http::uri::InvalidUri| e.to_string())?;
    Ok(
        UriParts {
            host: uri.host().map(str::to_owned),
            port: uri.port_u16(),
            path: uri.path_and_query().map(|p| p.as_str().to_owned()),
        },
    )
}

/// Where a request goes.
#[derive(Debug, PartialEq, Eq)]
pub struct DialTarget {
    /// The host to connect to.
    pub host: String,
    /// Its port.
    pub port: u16,
    /// The path to ask for, with the query.
    pub path: String,
}

/// Whether `r` is where a request to `url` goes, by the parts of the URL. A URL without a host is
/// refused; the port is 80 and the path is a slash where the URL has none.
pub open spec fn leads_to(
    url: Seq<char>,
    parsed: Result<(Option<Seq<char>>, Option<u16>, Option<Seq<char>>), Seq<char>>,
    r: Result<DialTarget, String>,
) -> bool {
    match parsed {
        Err(why) => r matches Err(e) && e@ == "bad url "@ + url + ": "@ + why,
        Ok((None, _, _)) => r matches Err(e) && e@ == "no host in "@ + url,
        Ok((Some(host), port, path)) => {
            &&& r matches Ok(target)
            &&& target.host@ == host
            &&& target.port == match port {
                Some(port) => port,
                None => HTTP_PORT,
            }
            &&& target.path@ == match path {
                Some(path) => path,
                None => "/"@,
            }
        },
    }
}

/// Where a request to `url` goes, where `parsed` are the parts of the URL.
pub fn target_of(url: &str, parsed: Result<UriParts, String>) -> (r: Result<DialTarget, String>)
    ensures
        leads_to(url@, plain(parsed), r),
{
    let parts = match parsed {
        Ok(parts) => parts,
        Err(why) => {
            let mut e = "bad url ".to_owned();
            e.append(url);
            e.append(": ");
            e.append(&why);
            return Err(e);
        },
    };
    let host = match parts.host {
        Some(host) => host,
        None => {
            let mut e = "no host in ".to_owned();
            e.append(url);
            return Err(e);
        },
    };
    let port: u16 = match parts.port {
        Some(port) => port,
        None => HTTP_PORT,
    };
    let path = match parts.path {
        Some(path) => path,
        None => "/".to_owned(),
    };
    Ok(DialTarget { host, port, path })
}

/// Where a request to `url` goes.
pub fn dial_target(url: &str) -> (r: Result<DialTarget, String>)
    ensures
        leads_to(url@, parsed_uri(url@), r),
{
    target_of(url, uri_parts(url))
}

/// A URL leads to its own host, port and path; where it names no port it leads to that of the web, and
/// where it names no path to the root. A URL that is none, or names no host, is told in the error.
pub proof fn law_url_leads_to_its_parts(url: Seq<char>, parts: UriParts, why: String, r: Result<DialTarget, String>)
    ensures
        leads_to(url, plain(Ok(parts)), r) ==> {
            &&& r is Ok <==> parts.host is Some
            &&& r matches Ok(target) ==> {
                &&& target.host@ == parts.host->0@
                &&& parts.port matches Some(port) ==> target.port == port
                &&& parts.port is None ==> target.port == 80
                &&& parts.path matches Some(path) ==> target.path@ == path@
                &&& parts.path is None ==> target.path@ == seq!['/']
            }
            &&& r matches Err(e) ==> text::ends_with(e@, url)
        },
        leads_to(url, plain(Err(why)), r) ==> (r matches Err(e) && text::has_part(e@, url)
            && text::ends_with(e@, why@)),
{
    reveal_strlit("/");
    text::law_parts_are_found("no host in "@, url, Seq::empty());
    text::law_parts_are_found("bad url "@, url, ": "@ + why@);
    text::law_parts_are_found("bad url "@ + url + ": "@, why@, Seq::empty());
    assert("bad url "@ + url + ": "@ + why@ =~= "bad url "@ + url + (": "@ + why@));
    assert("/"@ =~= seq!['/']);
}

} // verus!
