//! The parts of a URL that the rest of the library reads, as the WHATWG
//! parser of the `url` crate (re-exported by `reqwest`) splits them.
use vstd::prelude::*;

verus! {

/// A parsed URL, by the components the library looks at.
#[derive(Debug)]
pub struct UrlParts {
    /// Lower-cased scheme, without the `:`.
    pub scheme: String,
    /// The user name, percent-encoded; empty when there is none.
    pub username: String,
    /// The password, percent-encoded, if the URL has one.
    pub password: Option<String>,
    /// The host as serialised, if the URL has one.
    pub host: Option<String>,
    /// The explicit port, `None` when absent or equal to the scheme default.
    pub port: Option<u16>,
    /// The port, or the scheme's default when one is known.
    pub known_port: Option<u16>,
    /// The path, starting with `/` for URLs with a host.
    pub path: String,
    /// The fragment, without the `#`, if the URL has one.
    pub fragment: Option<String>,
}

/// A parsed URL as plain values:
/// `(scheme, username, password, host, port, path, fragment)`.
pub type UrlView = (
    Seq<char>,
    Seq<char>,
    Option<Seq<char>>,
    Option<Seq<char>>,
    Option<u16>,
    Seq<char>,
    Option<Seq<char>>,
);

/// The components of a URL text (see [`UrlView`]), or `None` when it does
/// not parse. The parser is the WHATWG URL standard as the `url` crate
/// implements it: pages of rules, so the result is named rather than written
/// out.
pub uninterp spec fn parsed_url(text: Seq<char>) -> Option<(Seq<char>, Seq<char>, Option<Seq<char>>, Option<Seq<char>>, Option<u16>, Seq<char>, Option<Seq<char>>)>;

pub open spec fn opt_chars(s: Option<String>) -> Option<Seq<char>> {
    match s {
        Some(x) => Some(x@),
        None => None,
    }
}

/// The default port of the schemes the `url` crate knows one for.
pub open spec fn default_port(scheme: Seq<char>) -> Option<u16> {
    if scheme == "http"@ || scheme == "ws"@ {
        Some(80)
    } else if scheme == "https"@ || scheme == "wss"@ {
        Some(443)
    } else if scheme == "ftp"@ {
        Some(21)
    } else {
        None
    }
}

pub open spec fn parts_view(p: UrlParts) -> UrlView {
    (p.scheme@, p.username@, opt_chars(p.password), opt_chars(p.host), p.port, p.path@, opt_chars(p.fragment))
}

/// Parses `text` with `reqwest::Url::parse` (the `url` crate's `Url::parse`)
/// and reads back `scheme()`, `username()`, `password()`, `host_str()`,
/// `port()`, `port_or_known_default()`, `path()` and `fragment()`.
///
/// Trusted: the components are what `parsed_url` names for `text`, and, as
/// the crate's source shows, `port_or_known_default()` is `port()` or else
/// the default of the scheme.
#[verifier::external_body]
pub(crate) fn parse_url(text: &str) -> (r: Option<UrlParts>)
    ensures
        match r {
            Some(p) => {
                &&& parsed_url(text@) == Some(parts_view(p))
                &&& p.known_port == match p.port {
                    Some(n) => Some(n),
                    None => default_port(p.scheme@),
                }
            },
            None => parsed_url(text@) is None,
        },
{
    match reqwest::Url::parse(text) {
        Ok(u) => Some(UrlParts {
            scheme: u.scheme().to_string(),
            username: u.username().to_string(),
            password: u.password().map(str::to_string),
            host: u.host_str().map(str::to_string),
            port: u.port(),
            known_port: u.port_or_known_default(),
            path: u.path().to_string(),
            fragment: u.fragment().map(str::to_string),
        }),
        Err(_) => None,
    }
}

/// What `Url::parse(url)` serialises to after `set_scheme(scheme)`; `None`
/// when the text does not parse or the URL refuses the scheme.
pub uninterp spec fn url_with_scheme(url: Seq<char>, scheme: Seq<char>) -> Option<Seq<char>>;

/// What `Url::parse(url)` serialises to after `set_path(path)`; `None` when
/// the text does not parse.
pub uninterp spec fn url_with_path(url: Seq<char>, path: Seq<char>) -> Option<Seq<char>>;

/// What `Url::parse(url)` serialises to after its query is cleared and the
/// one pair `key=value` is form-encoded into it; `None` when the text does
/// not parse.
pub uninterp spec fn url_with_only_query_pair(url: Seq<char>, key: Seq<char>, value: Seq<char>) -> Option<Seq<char>>;

/// What `Url::parse(url)` serialises to after the pair `key=value` is
/// form-encoded onto the end of its query; `None` when the text does not
/// parse.
pub uninterp spec fn url_with_query_pair_appended(url: Seq<char>, key: Seq<char>, value: Seq<char>) -> Option<Seq<char>>;

/// Parses `url` with `reqwest::Url::parse`, calls `set_scheme(scheme)` and
/// serialises the result with `to_string()`.
///
/// Trusted: the result is what `url_with_scheme` names for the arguments.
#[verifier::external_body]
pub(crate) fn with_scheme(url: &str, scheme: &str) -> (r: Option<String>)
    ensures
        opt_chars(r) == url_with_scheme(url@, scheme@),
{
    let mut u = reqwest::Url::parse(url).ok()?;
    u.set_scheme(scheme).ok()?;
    Some(u.to_string())
}

/// Parses `url` with `reqwest::Url::parse`, calls `set_path(path)` and
/// serialises the result with `to_string()`.
///
/// Trusted: the result is what `url_with_path` names for the arguments.
#[verifier::external_body]
pub(crate) fn with_path(url: &str, path: &str) -> (r: Option<String>)
    ensures
        opt_chars(r) == url_with_path(url@, path@),
{
    let mut u = reqwest::Url::parse(url).ok()?;
    u.set_path(path);
    Some(u.to_string())
}

/// Parses `url` with `reqwest::Url::parse`, calls
/// `query_pairs_mut().clear().append_pair(key, value)` and serialises the
/// result with `to_string()`.
///
/// Trusted: the result is what `url_with_only_query_pair` names for the
/// arguments.
#[verifier::external_body]
pub(crate) fn with_only_query_pair(url: &str, key: &str, value: &str) -> (r: Option<String>)
    ensures
        opt_chars(r) == url_with_only_query_pair(url@, key@, value@),
{
    let mut u = reqwest::Url::parse(url).ok()?;
    u.query_pairs_mut().clear().append_pair(key, value);
    Some(u.to_string())
}

/// Parses `url` with `reqwest::Url::parse`, calls
/// `query_pairs_mut().append_pair(key, value)` and serialises the result
/// with `to_string()`.
///
/// Trusted: the result is what `url_with_query_pair_appended` names for the
/// arguments.
#[verifier::external_body]
pub(crate) fn with_query_pair_appended(url: &str, key: &str, value: &str) -> (r: Option<String>)
    ensures
        opt_chars(r) == url_with_query_pair_appended(url@, key@, value@),
{
    let mut u = reqwest::Url::parse(url).ok()?;
    u.query_pairs_mut().append_pair(key, value);
    Some(u.to_string())
}

} // verus!
