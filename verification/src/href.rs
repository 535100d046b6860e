//! Checking the hrefs a server hands back before any request is sent to
//! them: they must stay on the configured server.

use vstd::prelude::*;
use crate::text::{chars_are, chars_of, has_prefix, starts_with};

verus! {

/// The parts of a parsed URL the client compares.
#[derive(Clone, Debug)]
pub struct UrlParts {
    /// The scheme, lower-case (`url::Url::scheme`).
    pub scheme: String,
    /// The host in its text form (`url::Url::host`, displayed).
    pub host: Option<String>,
    /// The port, or the scheme's default port (`url::Url::port_or_known_default`).
    pub port: Option<u16>,
    /// The whole URL, serialized (`url::Url::to_string`).
    pub text: String,
}

/// What a parsed URL is, as text.
pub struct UrlView {
    pub scheme: Seq<char>,
    pub host: Option<Seq<char>>,
    pub port: Option<u16>,
    pub text: Seq<char>,
}

impl View for UrlParts {
    type V = UrlView;

    open spec fn view(&self) -> UrlView {
        UrlView {
            scheme: self.scheme@,
            host: self.host.deep_view(),
            port: self.port,
            text: self.text@,
        }
    }
}

/// The view of an optional parsed URL.
pub open spec fn opt_url(u: Option<UrlParts>) -> Option<UrlView> {
    match u {
        Some(p) => Some(p@),
        None => None,
    }
}

/// What `url::Url::parse(s)` gives.
pub uninterp spec fn url_parse(s: Seq<char>) -> Option<UrlView>;

/// What `url::Url::parse(base)` followed by `join(href)` gives.
pub uninterp spec fn url_join(base: Seq<char>, href: Seq<char>) -> Option<UrlView>;

/// `reqwest::Url::parse` (the `url` crate's parser), reduced to the parts the
/// client compares. The result is named, not stated.
#[verifier::external_body]
fn parse_url(s: &str) -> (r: Option<UrlParts>)
    ensures
        opt_url(r) == url_parse(s@),
{
    match reqwest::Url::parse(s) {
        Ok(u) => Some(UrlParts {
            scheme: u.scheme().to_string(),
            host: u.host().map(|h| h.to_string()),
            port: u.port_or_known_default(),
            text: u.to_string(),
        }),
        Err(_) => None,
    }
}

/// `reqwest::Url::parse(base)` then `Url::join(href)`, reduced to the parts
/// the client compares. The result is named, not stated.
#[verifier::external_body]
fn join_url(base: &str, href: &str) -> (r: Option<UrlParts>)
    ensures
        opt_url(r) == url_join(base@, href@),
{
    match reqwest::Url::parse(base).and_then(|b| b.join(href)) {
        Ok(u) => Some(UrlParts {
            scheme: u.scheme().to_string(),
            host: u.host().map(|h| h.to_string()),
            port: u.port_or_known_default(),
            text: u.to_string(),
        }),
        Err(_) => None,
    }
}

/// Why an href is refused.
pub const BASE_INVALID: &'static str = "The configured server URL is invalid";
pub const HREF_INVALID: &'static str = "Server returned an invalid URL";
pub const SCHEME_UNSUPPORTED: &'static str = "Server href uses an unsupported URL scheme";
pub const SCHEME_CHANGED: &'static str =
    "Server href uses a different scheme than configured — request blocked";
pub const HOST_CHANGED: &'static str =
    "Server href points to a different host/port than configured — request blocked";

/// The verdict on a resolved href: it must use http or https, the scheme of
/// the configured server, and the same host and port.
pub open spec fn href_verdict(base: UrlView, resolved: UrlView) -> Result<Seq<char>, Seq<char>> {
    if resolved.scheme != "http"@ && resolved.scheme != "https"@ {
        Err(SCHEME_UNSUPPORTED@)
    } else if resolved.scheme != base.scheme {
        Err(SCHEME_CHANGED@)
    } else if resolved.host != base.host || resolved.port != base.port {
        Err(HOST_CHANGED@)
    } else {
        Ok(resolved.text)
    }
}

/// An href is absolute when it starts with `http://` or `https://`; anything
/// else is resolved against the configured server URL.
pub open spec fn is_absolute_href(href: Seq<char>) -> bool {
    starts_with(href, "http://"@) || starts_with(href, "https://"@)
}

/// The outcome of checking `href` against the configured `base_url`.
pub open spec fn href_check(href: Seq<char>, base_url: Seq<char>) -> Result<Seq<char>, Seq<char>> {
    match url_parse(base_url) {
        None => Err(BASE_INVALID@),
        Some(base) => {
            let resolved = if is_absolute_href(href) {
                url_parse(href)
            } else {
                url_join(base_url, href)
            };
            match resolved {
                None => Err(HREF_INVALID@),
                Some(r) => href_verdict(base, r),
            }
        },
    }
}

/// The text view of a string result.
pub open spec fn text_result(r: Result<String, String>) -> Result<Seq<char>, Seq<char>> {
    match r {
        Ok(s) => Ok(s@),
        Err(e) => Err(e@),
    }
}

/// The verdict on an href that resolved to `resolved`, for a server
/// configured at `base`.
pub fn judge_resolved_href(base: &UrlParts, resolved: &UrlParts) -> (r: Result<String, String>)
    ensures
        text_result(r) == href_verdict(base@, resolved@),
{
    let scheme = chars_of(resolved.scheme.as_str());
    if !chars_are(scheme.as_slice(), "http") && !chars_are(scheme.as_slice(), "https") {
        return Err(SCHEME_UNSUPPORTED.to_owned());
    }
    if resolved.scheme != base.scheme {
        return Err(SCHEME_CHANGED.to_owned());
    }
    let same_host = match (&resolved.host, &base.host) {
        (Some(a), Some(b)) => *a == *b,
        (None, None) => true,
        _ => false,
    };
    if !same_host || resolved.port != base.port {
        return Err(HOST_CHANGED.to_owned());
    }
    Ok(resolved.text.clone())
}

/// Validates an href returned by the CalDAV server before it is used in a
/// request. Absolute hrefs must use http or https and point to the same
/// scheme, host and port as the configured server; relative hrefs are
/// resolved against the configured server URL and held to the same rule.
pub fn validate_server_href(href: &str, base_url: &str) -> (r: Result<String, String>)
    ensures
        text_result(r) == href_check(href@, base_url@),
        r matches Ok(t) ==> exists|b: UrlView, u: UrlView|
            url_parse(base_url@) == Some(b) && u.text == t@ && u.scheme == b.scheme && u.host
                == b.host && u.port == b.port,
{
    let base = match parse_url(base_url) {
        Some(b) => b,
        None => return Err(BASE_INVALID.to_owned()),
    };
    let hv = chars_of(href);
    let absolute = has_prefix(hv.as_slice(), "http://") || has_prefix(hv.as_slice(), "https://");
    let resolved = if absolute { parse_url(href) } else { join_url(base_url, href) };
    match resolved {
        None => Err(HREF_INVALID.to_owned()),
        Some(res) => {
            let r = judge_resolved_href(&base, &res);
            proof {
                if r is Ok {
                    assert(res@.text == r->Ok_0@);
                }
            }
            r
        },
    }
}

} // verus!
