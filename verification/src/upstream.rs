use vstd::prelude::*;

use crate::text::str_equal;

verus! {

/// The scheme and host that `reqwest::Url::parse` finds in `url`, or `None`
/// when the text is not a URL.
pub uninterp spec fn parsed_url_parts(url: Seq<char>) -> Option<(Seq<char>, Option<Seq<char>>)>;

/// Parses `url` with `reqwest::Url::parse` (the `url` crate's WHATWG parser)
/// and hands back its `scheme()` and `host_str()`. The contract claims only
/// that the result is the parser's, as a function of the text alone.
#[verifier::external_body]
fn parse_url_parts(url: &str) -> (r: Option<(String, Option<String>)>)
    ensures
        r.deep_view() == parsed_url_parts(url@),
{
    match reqwest::Url::parse(url) {
        Ok(u) => {
            let host = match u.host_str() {
                Some(h) => Some(h.to_owned()),
                None => None,
            };
            Some((u.scheme().to_owned(), host))
        },
        Err(_) => None,
    }
}

/// The only upstream host the proxy forwards to.
pub open spec fn allowed_host() -> Seq<char> {
    "icourses.jlu.edu.cn"@
}

/// A parsed URL is allowed when its scheme is `https` and its host is
/// exactly the course-selection server.
pub open spec fn upstream_allowed_spec(parts: Option<(Seq<char>, Option<Seq<char>>)>) -> bool {
    match parts {
        Some((scheme, host)) => scheme == "https"@ && host == Some(allowed_host()),
        None => false,
    }
}

/// Decides the allow-list on the scheme and host of a parsed URL.
pub fn upstream_allowed(parts: &Option<(String, Option<String>)>) -> (r: bool)
    ensures
        r == upstream_allowed_spec(parts.deep_view()),
{
    match parts {
        Some((scheme, host)) => {
            if !str_equal(scheme.as_str(), "https") {
                return false;
            }
            match host {
                Some(h) => str_equal(h.as_str(), "icourses.jlu.edu.cn"),
                None => false,
            }
        },
        None => false,
    }
}

/// The proxy forwards only to `https` URLs whose host is the
/// course-selection server; anything else, unparsable text included, is
/// refused.
pub fn is_allowed_upstream(url: &str) -> (r: bool)
    ensures
        r == upstream_allowed_spec(parsed_url_parts(url@)),
{
    let parts = parse_url_parts(url);
    upstream_allowed(&parts)
}

/// The page the GET proxy serves for `profile/index.html`.
pub open spec fn profile_page_url() -> Seq<char> {
    "https://icourses.jlu.edu.cn/xsxk/profile/index.html"@
}

/// The upstream URL the GET proxy uses for an endpoint and query string.
pub open spec fn get_upstream_url_spec(endpoint: Seq<char>, params: Seq<char>) -> Option<Seq<char>> {
    if endpoint == "profile/index.html"@ {
        Some(profile_page_url())
    } else if endpoint == "elective/grablessons"@ {
        Some("https://icourses.jlu.edu.cn/xsxk/elective/grablessons?"@ + params)
    } else {
        None
    }
}

/// Maps an endpoint of the GET proxy to its upstream URL; `None` for an
/// endpoint that the GET proxy does not serve.
pub fn get_upstream_url(endpoint: &str, params: &str) -> (r: Option<String>)
    ensures
        r.deep_view() == get_upstream_url_spec(endpoint@, params@),
{
    if str_equal(endpoint, "profile/index.html") {
        Some("https://icourses.jlu.edu.cn/xsxk/profile/index.html".to_owned())
    } else if str_equal(endpoint, "elective/grablessons") {
        let mut u = "https://icourses.jlu.edu.cn/xsxk/elective/grablessons?".to_owned();
        u.append(params);
        Some(u)
    } else {
        None
    }
}

} // verus!
