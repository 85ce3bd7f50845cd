//! Where a connection is to lead, and where a proxy is found.
use vstd::prelude::*;

use crate::error::ParseError;
use crate::tunnel_laws::is_unbroken_text;

verus! {

/// The error of reading an `http::Uri` or an `http::uri::Authority`.
#[verifier::external_type_specification]
#[verifier::external_body]
pub struct ExInvalidUri(http::uri::InvalidUri);

/// The error of building an `http::Uri`.
#[verifier::external_type_specification]
#[verifier::external_body]
pub struct ExHttpError(http::Error);

/// What an optional text holds.
pub open spec fn text_of(text: Option<String>) -> Option<Seq<char>> {
    match text {
        Some(t) => Some(t@),
        None => None,
    }
}

/// Whether a text holds only printable ASCII other than the space, as every
/// host in a URI does.
pub open spec fn is_uri_text(text: Seq<char>) -> bool {
    forall|i: int| 0 <= i < text.len() ==> '!' <= #[trigger] text[i] <= '~'
}

/// Whether an optional host is one that can stand in a URI.
pub open spec fn is_uri_host(host: Option<Seq<char>>) -> bool {
    host matches Some(h) ==> is_uri_text(h)
}

fn all_uri_text(text: &str) -> (r: bool)
    ensures
        r == is_uri_text(text@),
{
    let n: usize = text.unicode_len();
    let mut i: usize = 0;
    while i < n
        invariant
            n == text@.len(),
            i <= n,
            forall|j: int| 0 <= j < i ==> '!' <= #[trigger] text@[j] <= '~',
        decreases n - i,
    {
        let c = text.get_char(i);
        if c < '!' || c > '~' {
            return false;
        }
        i = i + 1;
    }
    true
}

/// The scheme, the host and the port of the URI that `http::Uri` reads in a
/// text; `None` if it reads none.
pub uninterp spec fn parsed_uri(text: Seq<char>) -> Option<
    (Option<Seq<char>>, Option<Seq<char>>, Option<u16>),
>;

/// The host and the port of the authority that `http::uri::Authority` reads in
/// a text; `None` if it reads none.
pub uninterp spec fn parsed_authority(text: Seq<char>) -> Option<(Seq<char>, Option<u16>)>;

/// The host of an authority.
pub open spec fn authority_host(text: Seq<char>) -> Seq<char> {
    match parsed_authority(text) {
        Some((host, _)) => host,
        None => Seq::empty(),
    }
}

/// The port that an authority names, if it names one.
pub open spec fn authority_port(text: Seq<char>) -> Option<u16> {
    match parsed_authority(text) {
        Some((_, port)) => port,
        None => None,
    }
}

/// Reads a text as an `http::Uri` and gives what `scheme_str`, `host` and
/// `port_u16` say of it. Claimed: the same text is always read alike, and a host
/// is made of printable ASCII without spaces.
#[verifier::external_body]
fn read_uri(text: &str) -> (r: Result<
    (Option<String>, Option<String>, Option<u16>),
    http::uri::InvalidUri,
>)
    ensures
        match r {
            Ok(parts) => parsed_uri(text@) == Some((text_of(parts.0), text_of(parts.1), parts.2))
                && is_uri_host(text_of(parts.1)),
            Err(_) => parsed_uri(text@) is None,
        },
{
    let uri = text.parse::<http::Uri>()?;
    Ok((uri.scheme_str().map(str::to_owned), uri.host().map(str::to_owned), uri.port_u16()))
}

/// Reads a text as an `http::uri::Authority` and gives what `host` and `port_u16`
/// say of it. Claimed: the same text is always read alike, and a host is made of
/// printable ASCII without spaces.
#[verifier::external_body]
fn read_authority(text: &str) -> (r: Result<(String, Option<u16>), http::uri::InvalidUri>)
    ensures
        match r {
            Ok(parts) => parsed_authority(text@) == Some((parts.0@, parts.1)) && is_uri_text(
                parts.0@,
            ),
            Err(_) => parsed_authority(text@) is None,
        },
{
    let authority = text.parse::<http::uri::Authority>()?;
    Ok((authority.host().to_owned(), authority.port_u16()))
}

/// Builds an `http::Uri` with `Uri::builder` from a scheme, an authority and the
/// path `/`, and gives its text and what `scheme_str`, `host` and `port_u16` say
/// of it. Claimed: this succeeds if and only if the text is an authority; the URI's
/// text is `scheme://authority/`, and its parts are those that went in.
#[verifier::external_body]
fn build_uri(scheme: Scheme, authority: &str, path: &str) -> (r: Result<
    (String, Option<String>, Option<String>, Option<u16>),
    http::Error,
>)
    requires
        path@ == "/"@,
    ensures
        match r {
            Ok(uri) => {
                &&& parsed_authority(authority@) is Some
                &&& uri.0@ == root_uri(scheme, authority@)
                &&& text_of(uri.1) == Some(scheme_text(scheme))
                &&& text_of(uri.2) == Some(authority_host(authority@))
                &&& uri.3 == authority_port(authority@)
            },
            Err(_) => parsed_authority(authority@) is None,
        },
{
    let scheme = match scheme {
        Scheme::Http => http::uri::Scheme::HTTP,
        Scheme::Https => http::uri::Scheme::HTTPS,
    };
    let uri = http::Uri::builder().scheme(scheme).authority(authority).path_and_query(path).build()?;
    let host = uri.host().map(str::to_owned);
    Ok((uri.to_string(), uri.scheme_str().map(str::to_owned), host, uri.port_u16()))
}

/// A scheme that a proxy can be spoken to with.
#[derive(Clone, Copy, Debug, PartialEq, Eq, Structural)]
pub enum Scheme {
    Http,
    Https,
}

/// The name of a scheme.
pub open spec fn scheme_text(scheme: Scheme) -> Seq<char> {
    match scheme {
        Scheme::Http => "http"@,
        Scheme::Https => "https"@,
    }
}

/// The URI of the root of a server.
pub open spec fn root_uri(scheme: Scheme, authority: Seq<char>) -> Seq<char> {
    scheme_text(scheme) + "://"@ + authority + "/"@
}

/// What a [`Destination`] says.
pub struct DestinationView {
    /// The URI as it was written.
    pub text: Seq<char>,
    pub scheme: Option<Seq<char>>,
    pub host: Option<Seq<char>>,
    pub port: Option<u16>,
}

impl DestinationView {
    /// Whether the destination is to be spoken to over TLS.
    pub open spec fn is_https(self) -> bool {
        self.scheme == Some("https"@)
    }

    /// The port to connect to: the one that is given, or else `default`.
    pub open spec fn port_or(self, default: u16) -> u16 {
        match self.port {
            Some(p) => p,
            None => default,
        }
    }
}

/// A URI that a connection is wanted to.
#[derive(Debug)]
pub struct Destination {
    text: String,
    scheme: Option<String>,
    host: Option<String>,
    port: Option<u16>,
}

impl View for Destination {
    type V = DestinationView;

    closed spec fn view(&self) -> DestinationView {
        DestinationView {
            text: self.text@,
            scheme: text_of(self.scheme),
            host: text_of(self.host),
            port: self.port,
        }
    }
}

/// What a text says as a destination, if it is a URI.
pub open spec fn destination(text: Seq<char>) -> Option<DestinationView> {
    match parsed_uri(text) {
        Some((scheme, host, port)) => Some(DestinationView { text, scheme, host, port }),
        None => None,
    }
}

impl Destination {
    #[verifier::type_invariant]
    spec fn valid(self) -> bool {
        is_uri_host(text_of(self.host))
    }

    /// Reads a URI.
    pub fn parse(text: &str) -> (r: Result<Destination, ParseError>)
        ensures
            match r {
                Ok(d) => destination(text@) == Some(d@),
                Err(e) => destination(text@) is None && e == ParseError::Uri,
            },
    {
        match read_uri(text) {
            Ok((scheme, host, port)) => Ok(
                Destination { text: text.to_owned(), scheme, host, port },
            ),
            Err(_) => Err(ParseError::Uri),
        }
    }

    /// A destination of which the parts are known. A host has to be one that can
    /// stand in a URI.
    pub fn from_parts(
        text: String,
        scheme: Option<String>,
        host: Option<String>,
        port: Option<u16>,
    ) -> (r: Result<Destination, ParseError>)
        ensures
            match r {
                Ok(d) => is_uri_host(text_of(host)) && d@ == (DestinationView {
                    text: text@,
                    scheme: text_of(scheme),
                    host: text_of(host),
                    port,
                }),
                Err(e) => !is_uri_host(text_of(host)) && e == ParseError::Uri,
            },
    {
        if let Some(h) = &host {
            if !all_uri_text(h.as_str()) {
                return Err(ParseError::Uri);
            }
        }
        Ok(Destination { text, scheme, host, port })
    }

    /// The URI as it was written.
    pub fn text(&self) -> (r: &str)
        ensures
            r@ == self@.text,
    {
        self.text.as_str()
    }

    /// The host, if the URI has one. It is made of printable ASCII without spaces.
    pub fn host(&self) -> (r: Option<&str>)
        ensures
            match r {
                Some(h) => self@.host == Some(h@),
                None => self@.host is None,
            },
            is_uri_host(self@.host),
    {
        proof {
            use_type_invariant(self);
        }
        match &self.host {
            Some(h) => Some(h.as_str()),
            None => None,
        }
    }

    /// The port, if the URI names one.
    pub fn port(&self) -> (r: Option<u16>)
        ensures
            r == self@.port,
    {
        self.port
    }

    /// Whether the destination is to be spoken to over TLS.
    pub fn is_https(&self) -> (r: bool)
        ensures
            r == self@.is_https(),
    {
        match &self.scheme {
            Some(scheme) => *scheme == "https".to_owned(),
            None => false,
        }
    }
}

/// The host of a proxy, and its port if one is named.
#[derive(Debug)]
pub struct Authority {
    text: String,
}

impl View for Authority {
    type V = Seq<char>;

    closed spec fn view(&self) -> Seq<char> {
        self.text@
    }
}

impl Authority {
    #[verifier::type_invariant]
    spec fn valid(self) -> bool {
        parsed_authority(self.text@) is Some && is_uri_text(authority_host(self.text@))
    }

    /// Reads an authority.
    pub fn parse(text: &str) -> (r: Result<Authority, ParseError>)
        ensures
            match r {
                Ok(a) => parsed_authority(text@) is Some && a@ == text@,
                Err(e) => parsed_authority(text@) is None && e == ParseError::Authority,
            },
    {
        match read_authority(text) {
            Ok(_) => Ok(Authority { text: text.to_owned() }),
            Err(_) => Err(ParseError::Authority),
        }
    }

    /// The text of the authority.
    pub fn as_str(&self) -> (r: &str)
        ensures
            r@ == self@,
            parsed_authority(self@) is Some,
            is_uri_text(authority_host(self@)),
    {
        proof {
            use_type_invariant(self);
        }
        self.text.as_str()
    }
}

/// The root of the server at an authority.
pub open spec fn root_destination(scheme: Scheme, authority: Seq<char>) -> DestinationView {
    DestinationView {
        text: root_uri(scheme, authority),
        scheme: Some(scheme_text(scheme)),
        host: Some(authority_host(authority)),
        port: authority_port(authority),
    }
}

/// The URI under which a proxy is connected to.
pub fn into_uri(scheme: Scheme, host: &Authority) -> (r: Destination)
    ensures
        r@ == root_destination(scheme, host@),
{
    let authority = host.as_str();
    match build_uri(scheme, authority, "/") {
        Ok((text, scheme, host, port)) => Destination { text, scheme, host, port },
        Err(_) => {
            assert(false);
            vstd::pervasive::unreached()
        },
    }
}

/// A host that can stand in a URI holds no line break, so that a request which
/// names it keeps its lines.
pub proof fn uri_text_is_unbroken(text: Seq<char>)
    requires
        is_uri_text(text),
    ensures
        is_unbroken_text(text),
{
}

/// A text is a destination exactly if it is read as a URI. The destination is the text
/// with the parts that were read.
pub proof fn destinations_are_what_is_read(text: &str, r: Result<Destination, ParseError>)
    requires
        call_ensures(Destination::parse, (text,), r),
    ensures
        match (parsed_uri(text@), r) {
            (Some((scheme, host, port)), Ok(d)) => {
                &&& d@.text == text@
                &&& d@.scheme == scheme
                &&& d@.host == host
                &&& d@.port == port
            },
            (None, Err(e)) => e == ParseError::Uri,
            _ => false,
        },
{
}

/// A destination made of parts holds these. It can be made exactly if the host, where
/// there is one, holds nothing but characters from `!` to `~`.
pub proof fn destinations_are_their_parts(
    text: String,
    scheme: Option<String>,
    host: Option<String>,
    port: Option<u16>,
    r: Result<Destination, ParseError>,
)
    requires
        call_ensures(Destination::from_parts, (text, scheme, host, port), r),
    ensures
        match r {
            Ok(d) => {
                &&& d@.text == text@
                &&& d@.port == port
                &&& match scheme {
                    Some(own) => d@.scheme == Some(own@),
                    None => d@.scheme is None,
                }
                &&& match host {
                    Some(own) => d@.host == Some(own@),
                    None => d@.host is None,
                }
            },
            Err(e) => e == ParseError::Uri,
        },
        r is Ok <==> (host matches Some(own) ==> forall|i: int|
            0 <= i < own@.len() ==> '!' <= #[trigger] own@[i] && own@[i] <= '~'),
{
    if let Some(own) = host {
        assert(is_uri_text(own@) <==> forall|i: int|
            0 <= i < own@.len() ==> '!' <= #[trigger] own@[i] && own@[i] <= '~');
    }
}

/// A destination tells its parts. It is to be spoken to over TLS exactly if its
/// scheme is `https`, whatever else it holds.
pub proof fn destinations_tell_their_parts(
    d: &Destination,
    text: &str,
    host: Option<&str>,
    port: Option<u16>,
    https: bool,
)
    requires
        call_ensures(Destination::text, (d,), text),
        call_ensures(Destination::host, (d,), host),
        call_ensures(Destination::port, (d,), port),
        call_ensures(Destination::is_https, (d,), https),
    ensures
        text@ == d@.text,
        port == d@.port,
        match host {
            Some(own) => d@.host == Some(own@),
            None => d@.host is None,
        },
        https == (d@.scheme == Some(seq!['h', 't', 't', 'p', 's'])),
{
    reveal_strlit("https");
    assert("https"@ =~= seq!['h', 't', 't', 'p', 's']);
}

/// A text is an authority exactly if it is read as one, and the authority is the text.
pub proof fn authorities_are_their_text(
    text: &str,
    r: Result<Authority, ParseError>,
    authority: &Authority,
    told: &str,
)
    requires
        call_ensures(Authority::parse, (text,), r),
        call_ensures(Authority::as_str, (authority,), told),
        r matches Ok(a) ==> *authority == a,
    ensures
        told@ == authority@,
        match r {
            Ok(_) => parsed_authority(text@) is Some && told@ == text@,
            Err(e) => parsed_authority(text@) is None && e == ParseError::Authority,
        },
{
}

/// The URI of a proxy is its scheme, its authority and the root; its scheme, host and
/// port are those.
pub proof fn proxies_are_at_their_root(scheme: Scheme, host: &Authority, r: Destination)
    requires
        call_ensures(into_uri, (scheme, host), r),
        parsed_authority(host@) is Some,
    ensures
        ({
            let name = if scheme == Scheme::Http {
                seq!['h', 't', 't', 'p']
            } else {
                seq!['h', 't', 't', 'p', 's']
            };
            &&& r@.text == name + seq![':', '/', '/'] + host@ + seq!['/']
            &&& r@.scheme == Some(name)
            &&& parsed_authority(host@) matches Some((own, port))
            &&& r@.host == Some(own)
            &&& r@.port == port
        }),
{
    reveal_strlit("http");
    reveal_strlit("https");
    reveal_strlit("://");
    reveal_strlit("/");
    assert("http"@ =~= seq!['h', 't', 't', 'p']);
    assert("https"@ =~= seq!['h', 't', 't', 'p', 's']);
    assert("://"@ =~= seq![':', '/', '/']);
    assert("/"@ =~= seq!['/']);
}

} // verus!
