//! What the server decides: where to listen, who is told of what, and the
//! pages it makes itself.

use vstd::prelude::*;
use crate::text::{chars_of, find_first, first_index, spec_starts_with, starts_with, str_eq};

verus! {

/// Configuration settings for running as a server
#[derive(Clone, Debug, PartialEq, Eq)]
pub struct ServeConfig {
    /// The URL to serve on
    pub url: Option<String>,
    /// Secret key to use for signing and verifying JSON Web Tokens
    pub key: Option<String>,
    /// Do not require a JSON Web Token to access the server
    pub insecure: bool,
}

impl Default for ServeConfig {
    fn default() -> (config: ServeConfig)
        ensures
            config.url is None,
            config.key is None,
            !config.insecure,
    {
        ServeConfig { url: None, key: None, insecure: false }
    }
}

/// Why a URL gives no address to listen on.
#[derive(Clone, Copy, Debug, PartialEq, Eq, Structural)]
pub enum UrlError {
    /// The text is no URL
    Invalid,
    /// The URL names no host
    NoHost,
    /// The URL names no port, and its scheme has none of its own
    NoPort,
}

/// Whether `Url::parse` of the `url` crate takes a text for a URL.
pub uninterp spec fn url_parses(text: Seq<char>) -> bool;

/// What `Url::host_str` gives as the host of the URL that a text stands
/// for.
pub uninterp spec fn url_host(text: Seq<char>) -> Option<Seq<char>>;

/// What `Url::port_or_known_default` gives as the port of the URL that a
/// text stands for: the port that the URL names, or else the port of its
/// scheme.
pub uninterp spec fn url_port(text: Seq<char>) -> Option<u16>;

/// The host and the port of the URL that a text stands for, by `Url::parse`,
/// `Url::host_str` and `Url::port_or_known_default`; none where the parser
/// refuses the text. The parser reads nothing but the text, so the same
/// text has the same parts wherever it is parsed; no more is claimed of
/// them.
#[verifier::external_body]
fn url_parts(text: &str) -> (parts: Option<(Option<String>, Option<u16>)>)
    ensures
        match parts {
            Some((host, port)) => url_parses(text@) && url_port(text@) == port && url_host(text@)
                == (match host {
                Some(host) => Some(host@),
                None => None,
            }),
            None => !url_parses(text@),
        },
{
    match url::Url::parse(text) {
        Ok(url) => Some((url.host_str().map(String::from), url.port_or_known_default())),
        Err(_) => None,
    }
}

/// The address to listen on, by the host and the port of a URL: both have
/// to be there.
pub fn address_of(host: Option<String>, port: Option<u16>) -> (address: Result<
    (String, u16),
    UrlError,
>)
    ensures
        address == match (host, port) {
            (None, _) => Err::<(String, u16), UrlError>(UrlError::NoHost),
            (Some(_), None) => Err::<(String, u16), UrlError>(UrlError::NoPort),
            (Some(host), Some(port)) => Ok::<(String, u16), UrlError>((host, port)),
        },
{
    match (host, port) {
        (None, _) => Err(UrlError::NoHost),
        (Some(_), None) => Err(UrlError::NoPort),
        (Some(host), Some(port)) => Ok((host, port)),
    }
}

/// Parse a URL into address and port components
///
/// A text that the parser of URLs refuses is `Invalid`. A URL gives its
/// address exactly if it has a host and a port, the port of its scheme
/// standing in for one that it does not name: the address is then that
/// host and that port. A URL without a host has `NoHost`, and one with a
/// host but without a port has `NoPort`.
pub fn parse_url(url: &str) -> (address: Result<(String, u16), UrlError>)
    ensures
        !url_parses(url@) ==> address == Err::<(String, u16), UrlError>(UrlError::Invalid),
        url_parses(url@) ==> match (url_host(url@), url_port(url@)) {
            (None, _) => address == Err::<(String, u16), UrlError>(UrlError::NoHost),
            (Some(_), None) => address == Err::<(String, u16), UrlError>(UrlError::NoPort),
            (Some(host), Some(port)) => address matches Ok(found) && found.0@ == host && found.1
                == port,
        },
{
    match url_parts(url) {
        None => Err(UrlError::Invalid),
        Some((host, port)) => address_of(host, port),
    }
}

/// A client of the server, with the topics it has subscribed to.
#[derive(Clone, Debug, PartialEq, Eq)]
pub struct Client {
    /// A list of subscription topics for this client, each once
    pub subscriptions: Vec<String>,
}

/// The topic is covered by the subscription: the subscription is `*`, or
/// the topic starts with it.
pub open spec fn covers(subscription: Seq<char>, topic: Seq<char>) -> bool {
    subscription == "*"@ || spec_starts_with(topic, subscription)
}

impl Client {
    /// The topics of the client.
    pub open spec fn topics(self) -> Set<Seq<char>> {
        Set::new(|topic: Seq<char>| self.has(topic))
    }

    /// The client has subscribed to this very topic.
    pub open spec fn has(self, topic: Seq<char>) -> bool {
        exists|i: int| 0 <= i < self.subscriptions.len() && (#[trigger] self.subscriptions[i])@ == topic
    }

    /// A client without subscriptions.
    pub fn new() -> (client: Client)
        ensures
            client.subscriptions@.len() == 0,
    {
        Client { subscriptions: Vec::new() }
    }

    /// The place of the subscription to this very topic.
    fn find(&self, topic: &str) -> (place: Option<usize>)
        ensures
            match place {
                Some(i) => i < self.subscriptions.len() && self.subscriptions[i as int]@ == topic@,
                None => !self.has(topic@),
            },
    {
        let mut i: usize = 0;
        while i < self.subscriptions.len()
            invariant
                i <= self.subscriptions.len(),
                forall|k: int| 0 <= k < i ==> (#[trigger] self.subscriptions[k])@ != topic@,
            decreases self.subscriptions.len() - i,
        {
            if str_eq(self.subscriptions[i].as_str(), topic) {
                return Some(i);
            }
            i += 1;
        }
        None
    }

    /// Subscribe the client to a topic. The answer is whether the client
    /// had not subscribed to it before.
    pub fn subscribe(&mut self, topic: &str) -> (added: bool)
        ensures
            added == !old(self).has(topic@),
            final(self).topics() == old(self).topics().insert(topic@),
    {
        let added = self.find(topic).is_none();
        if added {
            self.subscriptions.push(String::from_str(topic));
        }
        proof {
            assert forall|other: Seq<char>| self.has(other) == (old(self).has(other) || other
                == topic@) by {
                if old(self).has(other) {
                    let i = choose|i: int|
                        0 <= i < old(self).subscriptions.len() && (
                        #[trigger] old(self).subscriptions[i])@ == other;
                    assert(self.subscriptions[i]@ == other);
                }
                if other == topic@ && added {
                    assert(self.subscriptions[self.subscriptions.len() - 1]@ == other);
                }
                if self.has(other) && added {
                    let i = choose|i: int|
                        0 <= i < self.subscriptions.len() && (#[trigger] self.subscriptions[i])@
                            == other;
                    if i < old(self).subscriptions.len() {
                        assert(old(self).subscriptions[i]@ == other);
                    }
                }
            }
            assert(self.topics() =~= old(self).topics().insert(topic@));
        }
        added
    }

    /// Take back the subscription of the client to a topic. The answer is
    /// whether the client had subscribed to it.
    pub fn unsubscribe(&mut self, topic: &str) -> (removed: bool)
        ensures
            removed == old(self).has(topic@),
            match removed {
                true => exists|i: int|
                    0 <= i < old(self).subscriptions.len() && (
                    #[trigger] old(self).subscriptions[i])@ == topic@ && final(self).subscriptions@
                        == old(self).subscriptions@.remove(i),
                false => final(self).subscriptions@ == old(self).subscriptions@,
            },
    {
        match self.find(topic) {
            Some(i) => {
                self.subscriptions.remove(i);
                assert(old(self).subscriptions[i as int]@ == topic@);
                true
            },
            None => false,
        }
    }

    /// Is a client subscribed to a particular topic, or set of topics?
    pub fn subscribed(&self, topic: &str) -> (b: bool)
        ensures
            b == exists|i: int|
                0 <= i < self.subscriptions.len() && covers(
                    (#[trigger] self.subscriptions[i])@,
                    topic@,
                ),
    {
        let text = chars_of(topic);
        let mut i: usize = 0;
        while i < self.subscriptions.len()
            invariant
                text@ == topic@,
                i <= self.subscriptions.len(),
                forall|k: int| 0 <= k < i ==> !covers((#[trigger] self.subscriptions[k])@, topic@),
            decreases self.subscriptions.len() - i,
        {
            let subscription = self.subscriptions[i].as_str();
            if str_eq(subscription, "*") || starts_with(&text, subscription) {
                assert(covers(self.subscriptions[i as int]@, topic@));
                return true;
            }
            i += 1;
        }
        false
    }
}

/// The page that sends a browser on to `path`.
pub open spec fn redirect_page(path: Seq<char>) -> Seq<char> {
    "<!DOCTYPE HTML>\n<html lang=\"en-US\">\n<head>\n    <title>Redirecting</title>\n    <meta charset=\"UTF-8\">\n    <meta http-equiv=\"refresh\" content=\"0; url="@
        + path + "\">\n    <script type=\"text/javascript\">window.location.href = \""@ + path
        + "\"</script>\n</head>\n<body>If you are not redirected automatically, please follow this <a href=\""@
        + path + "\">link</a>.</body>\n</html>"@
}

/// Generate HTML for a page redirect
pub fn html_page_redirect(path: &str) -> (page: String)
    ensures
        page@ == redirect_page(path@),
{
    let mut page = String::from_str(
        "<!DOCTYPE HTML>\n<html lang=\"en-US\">\n<head>\n    <title>Redirecting</title>\n    <meta charset=\"UTF-8\">\n    <meta http-equiv=\"refresh\" content=\"0; url=",
    );
    page.append(path);
    page.append("\">\n    <script type=\"text/javascript\">window.location.href = \"");
    page.append(path);
    page.append(
        "\"</script>\n</head>\n<body>If you are not redirected automatically, please follow this <a href=\"",
    );
    page.append(path);
    page.append("\">link</a>.</body>\n</html>");
    assert(page@ =~= redirect_page(path@));
    page
}

/// The line of a listing for one entry of a directory: a link to its path
/// with its name.
pub fn listing_entry(href: &str, name: &str) -> (line: String)
    ensures
        line@ == "<p><a href=\"/"@ + href@ + "\">"@ + name@ + "</a></p>"@,
{
    let mut line = String::from_str("<p><a href=\"/");
    line.append(href);
    line.append("\">");
    line.append(name);
    line.append("</a></p>");
    line
}

/// The path of a static asset within its store: the path as asked for
/// without its first part, which names a version; the whole path where it
/// has one part only.
pub fn static_asset_path(path: &str) -> (asset: String)
    ensures
        asset@ == if first_index(path@, '/') < path@.len() {
            path@.skip(first_index(path@, '/') + 1)
        } else {
            path@
        },
{
    let text = chars_of(path);
    let slash = find_first(&text, '/');
    if slash < text.len() {
        proof {
            assert(path@.subrange(slash + 1, text.len() as int) =~= path@.skip(slash + 1));
        }
        String::from_str(path.substring_char(slash + 1, text.len()))
    } else {
        String::from_str(path)
    }
}

/// Whether a key for the server is short enough: 64 bytes at most.
pub fn key_fits(key: &str) -> (fits: bool)
    ensures
        fits == (key.len() <= 64),
{
    key.len() <= 64
}

/// What a request for a path is answered with.
#[derive(Clone, Debug, PartialEq, Eq)]
pub enum GetResponse {
    /// Nothing is at the path
    NotFound,
    /// The path reaches out of the directory that is served
    TraversalForbidden,
    /// The path lies outside what the token of the request allows
    PermissionDenied,
    /// A page that sends the browser on to the same path without its token
    Redirect,
    /// A listing of the directory at the path
    Listing,
    /// The bytes of the file at the path
    Raw,
    /// The document at the path, in a format
    Document {
        format: String,
        mode: String,
        theme: String,
        components: String,
    },
}

/// What is known of the path of a request.
#[derive(Clone, Copy, Debug, PartialEq, Eq, Structural)]
pub struct PathFacts {
    /// Whether something is at the path
    pub exists: bool,
    /// Whether the path lies within the directory that is served
    pub within_home: bool,
    /// Whether the path lies within what the token allows; none where the
    /// token allows everything
    pub within_scope: Option<bool>,
    /// Whether a directory is at the path
    pub is_dir: bool,
}

/// The text that is there, or `default` where none is.
pub open spec fn or_default(given: Option<String>, default: Seq<char>) -> Seq<char> {
    match given {
        Some(text) => text@,
        None => default,
    }
}

/// The text that is there, or `default` where none is.
fn given_or(given: Option<String>, default: &str) -> (text: String)
    ensures
        text@ == or_default(given, default@),
{
    match given {
        Some(text) => text,
        None => String::from_str(default),
    }
}

/// What a request for a path is answered with.
///
/// A path at which nothing is, is not found. A path outside the directory
/// that is served is forbidden unless traversal is allowed, and so is a path
/// outside what the token allows. A request that carries its token in its
/// address is sent on to the address without it. A directory is listed, a
/// file in the format `raw` is given as it is, and anything else is given
/// as a document: in HTML, to view, with the theme `wilmore` and static
/// components, unless the request says otherwise.
pub fn get_response(
    facts: PathFacts,
    traversal: bool,
    has_token: bool,
    format: Option<String>,
    mode: Option<String>,
    theme: Option<String>,
    components: Option<String>,
) -> (response: GetResponse)
    ensures
        !facts.exists ==> response == GetResponse::NotFound,
        facts.exists && !traversal && !facts.within_home ==> response
            == GetResponse::TraversalForbidden,
        facts.exists && (traversal || facts.within_home) && facts.within_scope == Some(false)
            ==> response == GetResponse::PermissionDenied,
        facts.exists && (traversal || facts.within_home) && facts.within_scope != Some(false) ==> {
            if has_token {
                response == GetResponse::Redirect
            } else if facts.is_dir {
                response == GetResponse::Listing
            } else if or_default(format, "html"@) == "raw"@ {
                response == GetResponse::Raw
            } else {
                response matches GetResponse::Document { format: f, mode: m, theme: t, components: c }
                    && f@ == or_default(format, "html"@) && m@ == or_default(mode, "view"@) && t@
                    == or_default(theme, "wilmore"@) && c@ == or_default(components, "static"@)
            }
        },
{
    if !facts.exists {
        return GetResponse::NotFound;
    }
    if !traversal && !facts.within_home {
        return GetResponse::TraversalForbidden;
    }
    if let Some(false) = facts.within_scope {
        return GetResponse::PermissionDenied;
    }
    let format = given_or(format, "html");
    if has_token {
        GetResponse::Redirect
    } else if facts.is_dir {
        GetResponse::Listing
    } else if str_eq(format.as_str(), "raw") {
        GetResponse::Raw
    } else {
        GetResponse::Document {
            format,
            mode: given_or(mode, "view"),
            theme: given_or(theme, "wilmore"),
            components: given_or(components, "static"),
        }
    }
}

/// Where the token of a request was found.
#[derive(Clone, Copy, Debug, PartialEq, Eq, Structural)]
pub enum TokenSource {
    Param,
    Header,
    Cookie,
}

/// What the authentication of a request came to.
#[derive(Clone, Copy, Debug, PartialEq, Eq, Structural)]
pub enum Authentication {
    /// The server has no key: every request is let in, with no claims and
    /// no cookie
    Insecure,
    /// The request is let in with the claims of the token from `source`; a
    /// cookie with a new token is set unless the token came from a cookie
    Accepted { source: TokenSource, set_cookie: bool },
    /// The request is turned away, for the token from `source`; for want of
    /// any token where there is no source
    Rejected { source: Option<TokenSource> },
}

/// What the authentication of a request comes to, by the validity of the
/// token from each source that the request has.
///
/// Without a key every request is let in. With one, the first valid token
/// lets the request in, the sources tried in their order; a request
/// without a valid token is turned away for the last token that was tried.
pub fn authenticate(
    has_key: bool,
    param: Option<bool>,
    header: Option<bool>,
    cookie: Option<bool>,
) -> (outcome: Authentication)
    ensures
        outcome == if !has_key {
            Authentication::Insecure
        } else if param == Some(true) {
            Authentication::Accepted { source: TokenSource::Param, set_cookie: true }
        } else if header == Some(true) {
            Authentication::Accepted { source: TokenSource::Header, set_cookie: true }
        } else if cookie == Some(true) {
            Authentication::Accepted { source: TokenSource::Cookie, set_cookie: false }
        } else if cookie is Some {
            Authentication::Rejected { source: Some(TokenSource::Cookie) }
        } else if header is Some {
            Authentication::Rejected { source: Some(TokenSource::Header) }
        } else if param is Some {
            Authentication::Rejected { source: Some(TokenSource::Param) }
        } else {
            Authentication::Rejected { source: None }
        },
{
    if !has_key {
        return Authentication::Insecure;
    }
    if let Some(true) = param {
        return Authentication::Accepted { source: TokenSource::Param, set_cookie: true };
    }
    if let Some(true) = header {
        return Authentication::Accepted { source: TokenSource::Header, set_cookie: true };
    }
    match (param, header, cookie) {
        (_, _, Some(true)) => Authentication::Accepted {
            source: TokenSource::Cookie,
            set_cookie: false,
        },
        (_, _, Some(false)) => Authentication::Rejected { source: Some(TokenSource::Cookie) },
        (_, Some(_), None) => Authentication::Rejected { source: Some(TokenSource::Header) },
        (Some(_), None, None) => Authentication::Rejected { source: Some(TokenSource::Param) },
        (None, None, None) => Authentication::Rejected { source: None },
    }
}

/// The header that sets the cookie with a token: the token, and the time
/// in seconds for which it holds.
pub fn token_cookie(token: &str, expiry_seconds: u64) -> (cookie: String)
    ensures
        cookie@ == "token="@ + token@ + "; Max-Age="@ + crate::text::decimal(expiry_seconds as nat)
            + "; SameSite; HttpOnly"@,
{
    let mut cookie = String::from_str("token=");
    cookie.append(token);
    cookie.append("; Max-Age=");
    let seconds = crate::text::u64_to_decimal(expiry_seconds);
    cookie.append(seconds.as_str());
    cookie.append("; SameSite; HttpOnly");
    cookie
}

} // verus!
