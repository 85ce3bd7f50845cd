use std::sync::Arc;
use std::time::Duration;

use connect::attempt::{Action, Attempt, Event};
use connect::conn::{tls_connected, Conn, Connected};
use connect::connector::{Connector, HttpConnector, Inner};
use connect::error::{ConnectError, ErrorKind};
use connect::header::HeaderValue;
use connect::proxy::{IpAddress, ProxyScheme, SocketAddress};
use connect::timeout::{with_timeout, Next, Timed};
use connect::tls::{Tls, TlsConfig};
use connect::uri::{Authority, Destination};
use connect::verbose::{Wrapped, Wrapper};

type Failure = &'static str;
type Step = Action<Failure>;

const ADDR: SocketAddress = SocketAddress::V4 { ip: 0x7f00_0001, port: 1080 };

fn plain_http(proxies: Vec<u8>, nodelay: bool) -> Connector<u8> {
    Connector::new(Arc::new(proxies), None, nodelay).unwrap()
}

fn agent() -> Option<HeaderValue> {
    Some(HeaderValue::from_bytes(b"agent/1").unwrap())
}

fn native(nodelay: bool) -> Connector<u8> {
    let tls = native_tls::TlsConnector::new().unwrap();
    Connector::from_built_default_tls(tls, Arc::new(vec![]), agent(), None, nodelay).unwrap()
}

fn config(alpn: &[&[u8]]) -> TlsConfig {
    TlsConfig {
        settings: Arc::new(rustls::ClientConfig::new()),
        alpn_protocols: Arc::new(alpn.iter().map(|p| p.to_vec()).collect()),
    }
}

fn rustls(nodelay: bool) -> Connector<u8> {
    Connector::new_rustls_tls(config(&[b"h2"]), Arc::new(vec![]), agent(), None, nodelay).unwrap()
}

fn dst(text: &str) -> Destination {
    Destination::parse(text).unwrap()
}

fn http_proxy() -> ProxyScheme {
    ProxyScheme::Http { auth: None, host: Authority::parse("proxy:3128").unwrap() }
}

fn https_proxy() -> ProxyScheme {
    let auth = Some(HeaderValue::from_bytes(b"Basic Zm9v").unwrap());
    ProxyScheme::Https { auth, host: Authority::parse("proxy").unwrap() }
}

fn socks_proxy(remote_dns: bool) -> ProxyScheme {
    let auth = Some(("me".to_string(), "secret".to_string()));
    ProxyScheme::Socks5 { addr: ADDR, auth, remote_dns }
}

fn settings(nodelay: bool, enforce_http: bool) -> HttpConnector {
    HttpConnector { local_address: None, nodelay, enforce_http }
}

fn assert_dial(action: &Step, http: HttpConnector, tls: Option<Tls>, uri: &str) {
    match action {
        Action::Dial { http: h, tls: t, uri: u } => {
            assert_eq!(*h, http);
            assert_eq!(*t, tls);
            assert_eq!(u, uri);
        }
        other => panic!("no dial but {:?}", other),
    }
}

fn assert_finish(action: &Step, is_proxy: bool) {
    match action {
        Action::Finish { is_proxy: p } => assert_eq!(*p, is_proxy),
        other => panic!("no finish but {:?}", other),
    }
}

fn assert_fail(action: &Step, error: ConnectError) {
    match action {
        Action::Fail(e) => assert_eq!(*e, error),
        other => panic!("no failure but {:?}", other),
    }
}

fn assert_handshake(action: &Step, tls: Tls, name: &str) {
    match action {
        Action::Handshake { tls: t, name: n } => {
            assert_eq!(*t, tls);
            assert_eq!(n, name);
        }
        other => panic!("no handshake but {:?}", other),
    }
}

#[test]
fn constructors_set_everything() {
    let addr = Some(IpAddress::V4(0x0a00_0001));
    let c = Connector::<u8>::new(Arc::new(vec![1]), addr, true).unwrap();
    match c.inner {
        Inner::Http(http) => {
            assert_eq!(http, HttpConnector { local_address: addr, nodelay: true, enforce_http: true })
        }
        _ => panic!("TCP alone"),
    }
    assert_eq!(*c.proxies, vec![1]);
    assert_eq!(c.verbose, Wrapper(false));
    assert_eq!(c.timeout, None);
    assert!(c.user_agent.is_none());

    let builder = native_tls::TlsConnector::builder();
    let c = Connector::<u8>::new_default_tls(builder, Arc::new(vec![]), agent(), addr, true).unwrap();
    match c.inner {
        Inner::DefaultTls(http, _) => {
            assert_eq!(http, HttpConnector { local_address: addr, nodelay: false, enforce_http: false })
        }
        _ => panic!("the TLS library of the system"),
    }
    assert!(c.nodelay);
    assert_eq!(c.user_agent.unwrap().as_bytes(), b"agent/1");
}

#[test]
fn proxies_are_offered_no_protocol() {
    let tls = config(&[b"h2", b"http/1.1"]);
    let shared = tls.settings.clone();
    let c = Connector::<u8>::new_rustls_tls(tls, Arc::new(vec![1]), None, None, false).unwrap();
    match &c.inner {
        Inner::RustlsTls { http, tls, tls_proxy } => {
            assert_eq!(*http, settings(false, false));
            assert_eq!(*tls.alpn_protocols, vec![b"h2".to_vec(), b"http/1.1".to_vec()]);
            assert!(tls_proxy.alpn_protocols.is_empty());
            assert!(Arc::ptr_eq(&tls.settings, &shared));
            assert!(Arc::ptr_eq(&tls_proxy.settings, &shared));
        }
        _ => panic!("configurations of its own"),
    }
    let c = Connector::<u8>::new_rustls_tls(config(&[b"h2"]), Arc::new(vec![]), None, None, false).unwrap();
    match &c.inner {
        Inner::RustlsTls { tls, tls_proxy, .. } => {
            assert!(Arc::ptr_eq(&tls.alpn_protocols, &tls_proxy.alpn_protocols));
            assert!(Arc::ptr_eq(&tls.settings, &tls_proxy.settings));
        }
        _ => panic!("configurations of its own"),
    }
}

#[test]
fn setters_set_one_thing() {
    let mut c = plain_http(vec![3], false);
    c.set_timeout(Some(Duration::from_secs(5)));
    c.set_verbose(true);
    assert_eq!(c.timeout, Some(Duration::from_secs(5)));
    assert_eq!(c.verbose, Wrapper(true));
    assert_eq!(*c.proxies, vec![3]);
    c.set_timeout(None);
    c.set_verbose(false);
    assert_eq!(c.timeout, None);
    assert_eq!(c.verbose, Wrapper(false));
}

#[test]
fn direct_connections_over_tcp_alone() {
    let c = plain_http(vec![], false);
    let (attempt, action): (Attempt, Step) = c.connect_with_maybe_proxy(&dst("http://a/b"), false);
    assert_dial(&action, settings(false, true), None, "http://a/b");
    let (attempt, action): (Attempt, Step) = attempt.step(Event::Opened { https: false });
    assert_finish(&action, false);
    match attempt {
        Attempt::Closed => {}
        other => panic!("not over but {:?}", other),
    }
}

#[test]
fn delay_is_off_for_the_handshake_only() {
    for (c, tls) in [(native(false), Tls::Native), (rustls(false), Tls::Rustls)] {
        let (attempt, action): (Attempt, Step) = c.connect_with_maybe_proxy(&dst("https://a/"), false);
        assert_dial(&action, settings(true, false), Some(tls), "https://a/");
        let (attempt, action): (Attempt, Step) = attempt.step(Event::Opened { https: true });
        match action {
            Action::RestoreDelay => {}
            other => panic!("delay not restored but {:?}", other),
        }
        let (_, action): (Attempt, Step) = attempt.step(Event::Done);
        assert_finish(&action, false);

        let (attempt, action): (Attempt, Step) = c.connect_with_maybe_proxy(&dst("http://a/"), true);
        assert_dial(&action, settings(false, false), Some(tls), "http://a/");
        let (_, action): (Attempt, Step) = attempt.step(Event::Opened { https: false });
        assert_finish(&action, true);
    }
    for (c, tls) in [(native(true), Tls::Native), (rustls(true), Tls::Rustls)] {
        let (attempt, action): (Attempt, Step) = c.connect_with_maybe_proxy(&dst("https://a/"), false);
        assert_dial(&action, settings(true, false), Some(tls), "https://a/");
        let (_, action): (Attempt, Step) = attempt.step(Event::Opened { https: true });
        assert_finish(&action, false);
    }
}

#[test]
fn delay_is_off_for_no_other_dial_over_tls_settings() {
    for nodelay in [false, true] {
        for c in [native(nodelay), rustls(nodelay)] {
            let starts: Vec<(Attempt, Step)> = vec![
                c.connect_with_maybe_proxy(&dst("http://a/"), false),
                c.connect_via_proxy(&dst("http://a/"), http_proxy()),
                c.connect_via_proxy(&dst("https://a/"), http_proxy()),
                c.connect_via_proxy(&dst("https://a/"), https_proxy()),
            ];
            for (_, action) in starts {
                match action {
                    Action::Dial { http, .. } => assert_eq!(http, settings(false, false)),
                    other => panic!("no dial but {:?}", other),
                }
            }
            let (_, action): (Attempt, Step) = c.connect_via_proxy(&dst("http://a/"), https_proxy());
            match action {
                Action::Dial { http, .. } => assert_eq!(http, settings(true, false)),
                other => panic!("no dial but {:?}", other),
            }
        }
        let c = plain_http(vec![], nodelay);
        let (_, action): (Attempt, Step) = c.connect_with_maybe_proxy(&dst("http://a/"), false);
        assert_dial(&action, settings(nodelay, true), None, "http://a/");
    }
}

#[test]
fn tunnels_lead_to_a_handshake() {
    let cases = [
        (native(false), Tls::Native, Tls::Native, "Example.com"),
        (rustls(false), Tls::RustlsProxy, Tls::Rustls, "example.com"),
    ];
    for (c, dial, tls, name) in cases {
        let target = dst("https://Example.com/x");
        let (attempt, action): (Attempt, Step) = c.connect_via_proxy(&target, https_proxy());
        assert_dial(&action, settings(false, false), Some(dial), "https://proxy/");
        let (attempt, action): (Attempt, Step) = attempt.step(Event::Opened { https: true });
        match action {
            Action::Send { bytes } => assert_eq!(
                bytes,
                b"CONNECT Example.com:443 HTTP/1.1\r\nHost: Example.com:443\r\n\
                  User-Agent: agent/1\r\nProxy-Authorization: Basic Zm9v\r\n\r\n"
                    .to_vec()
            ),
            other => panic!("nothing sent but {:?}", other),
        }
        let (attempt, action): (Attempt, Step) = attempt.step(Event::Done);
        match action {
            Action::Receive { limit } => assert_eq!(limit, 8192),
            other => panic!("nothing read but {:?}", other),
        }
        let (attempt, action): (Attempt, Step) = attempt.step(Event::Received(b"HTTP/1.1 200 OK\r\n".to_vec()));
        match action {
            Action::Receive { limit } => assert_eq!(limit, 8192 - 17),
            other => panic!("nothing read but {:?}", other),
        }
        let (attempt, action): (Attempt, Step) = attempt.step(Event::Received(b"\r\n".to_vec()));
        assert_handshake(&action, tls, name);
        let (_, action): (Attempt, Step) = attempt.step(Event::Done);
        assert_finish(&action, false);
    }
}

fn requested(c: &Connector<u8>, text: &str) -> Attempt {
    let (attempt, _): (Attempt, Step) = c.connect_via_proxy(&dst(text), http_proxy());
    let (attempt, _): (Attempt, Step) = attempt.step(Event::Opened { https: false });
    let (attempt, _): (Attempt, Step) = attempt.step(Event::Done);
    attempt
}

#[test]
fn refused_tunnels_fail() {
    let cases: [(&[u8], ConnectError); 3] = [
        (b"HTTP/1.1 407 x\r\n\r\n", ConnectError::ProxyAuthRequired),
        (b"HTTP/1.1 500 x\r\n\r\n", ConnectError::Unsuccessful),
        (b"", ConnectError::TunnelEof),
    ];
    for (reply, error) in cases {
        let (_, action): (Attempt, Step) = requested(&native(false), "https://a/").step(Event::Received(reply.to_vec()));
        assert_fail(&action, error);
    }
}

#[test]
fn given_ports_are_kept() {
    let (attempt, _): (Attempt, Step) = rustls(false).connect_via_proxy(&dst("https://a:8443/"), http_proxy());
    let (_, action): (Attempt, Step) = attempt.step(Event::Opened { https: false });
    match action {
        Action::Send { bytes } => assert!(bytes.starts_with(b"CONNECT a:8443 HTTP/1.1\r\n")),
        other => panic!("nothing sent but {:?}", other),
    }
}

#[test]
fn names_are_checked_after_the_tunnel() {
    let ok = b"HTTP/1.1 200 OK\r\n\r\n".to_vec();
    let (_, action): (Attempt, Step) = requested(&rustls(false), "https://127.0.0.1/").step(Event::Received(ok.clone()));
    assert_fail(&action, ConnectError::InvalidDnsName);
    assert_eq!(ConnectError::InvalidDnsName.message(), "Invalid DNS Name");
    let (_, action): (Attempt, Step) = requested(&native(false), "https://127.0.0.1/").step(Event::Received(ok));
    assert_handshake(&action, Tls::Native, "127.0.0.1");
}

#[test]
fn plain_requests_are_forwarded() {
    for c in [native(false), rustls(false), plain_http(vec![], false)] {
        let (attempt, action): (Attempt, Step) = c.connect_via_proxy(&dst("http://a/"), http_proxy());
        match &action {
            Action::Dial { http, uri, .. } => {
                assert!(!http.nodelay);
                assert_eq!(uri, "http://proxy:3128/");
            }
            other => panic!("no dial but {:?}", other),
        }
        let (_, action): (Attempt, Step) = attempt.step(Event::Opened { https: false });
        assert_finish(&action, true);
    }
    let c = plain_http(vec![], false);
    let (_, action): (Attempt, Step) = c.connect_via_proxy(&dst("https://a/"), http_proxy());
    assert_dial(&action, settings(false, true), None, "http://proxy:3128/");
    let (_, action): (Attempt, Step) = native(false).connect_via_proxy(&dst("http://a/"), https_proxy());
    assert_dial(&action, settings(true, false), Some(Tls::Native), "https://proxy/");
}

#[test]
fn socks_proxies_may_look_names_up() {
    let (attempt, action): (Attempt, Step) = native(false).connect_via_proxy(&dst("https://a/"), socks_proxy(true));
    match action {
        Action::SocksDial { target } => {
            assert_eq!(target.proxy, ADDR);
            assert_eq!(target.auth, Some(("me".to_string(), "secret".to_string())));
            assert_eq!(target.host, "a");
            assert_eq!(target.port, 443);
        }
        other => panic!("no SOCKS connection but {:?}", other),
    }
    let (attempt, action): (Attempt, Step) = attempt.step(Event::Done);
    assert_handshake(&action, Tls::Native, "a");
    let (_, action): (Attempt, Step) = attempt.step(Event::Done);
    assert_finish(&action, false);
}

#[test]
fn names_may_be_looked_up_here() {
    let c = rustls(false);
    for (address, host) in [(Some("10.1.2.3".to_string()), "10.1.2.3"), (None, "a.example")] {
        let (attempt, action): (Attempt, Step) = c.connect_socks(&dst("https://a.example/"), socks_proxy(false));
        match action {
            Action::Resolve { host, port } => {
                assert_eq!(host, "a.example");
                assert_eq!(port, 443);
            }
            other => panic!("no lookup but {:?}", other),
        }
        let (attempt, action): (Attempt, Step) = attempt.step(Event::Resolved(address));
        match action {
            Action::SocksDial { target } => {
                assert_eq!(target.host, host);
                assert_eq!(target.port, 443);
            }
            other => panic!("no SOCKS connection but {:?}", other),
        }
        let (_, action): (Attempt, Step) = attempt.step(Event::Done);
        assert_handshake(&action, Tls::RustlsProxy, "a.example");
    }
}

#[test]
fn socks_without_tls_is_delivered_at_once() {
    for (c, text, port) in [
        (native(false), "http://a/", 80),
        (rustls(false), "http://a:81/", 81),
        (plain_http(vec![], false), "https://a/", 443),
    ] {
        let (attempt, action): (Attempt, Step) = c.connect_via_proxy(&dst(text), socks_proxy(true));
        match action {
            Action::SocksDial { target } => assert_eq!(target.port, port),
            other => panic!("no SOCKS connection but {:?}", other),
        }
        let (_, action): (Attempt, Step) = attempt.step(Event::Done);
        assert_finish(&action, false);
    }
}

#[test]
fn socks_failures_say_so() {
    let (attempt, _): (Attempt, Step) = native(false).connect_via_proxy(&dst("https://a/"), socks_proxy(true));
    let (_, action): (Attempt, Step) = attempt.step(Event::SocksFailed("refused".to_string()));
    match action {
        Action::FailSocks { message } => assert_eq!(message, "socks connect error: refused"),
        other => panic!("no failure but {:?}", other),
    }
}

#[test]
fn destinations_without_host_fail() {
    let path = dst("/path");
    let (_, action): (Attempt, Step) = native(false).connect_via_proxy(&path, socks_proxy(true));
    assert_fail(&action, ConnectError::NoSocksHost);
    let (_, action): (Attempt, Step) = rustls(false).connect_via_proxy(&path, socks_proxy(false));
    assert_fail(&action, ConnectError::NoSocksHost);

    let hidden = || {
        Destination::from_parts("https:".to_string(), Some("https".to_string()), None, None).unwrap()
    };
    for c in [native(false), rustls(false)] {
        let (_, action): (Attempt, Step) = c.connect_via_proxy(&hidden(), socks_proxy(true));
        assert_fail(&action, ConnectError::NoHost);
    }
    let c = plain_http(vec![], false);
    let (_, action): (Attempt, Step) = c.connect_via_proxy(&hidden(), socks_proxy(true));
    assert_fail(&action, ConnectError::NoSocksHost);
    let (_, action): (Attempt, Step) = rustls(false).connect_via_proxy(&hidden(), http_proxy());
    assert_fail(&action, ConnectError::NoHost);
    let (attempt, action): (Attempt, Step) = native(false).connect_via_proxy(&hidden(), http_proxy());
    assert_dial(&action, settings(false, false), Some(Tls::Native), "http://proxy:3128/");
    let (_, action): (Attempt, Step) = attempt.step(Event::Opened { https: false });
    assert_fail(&action, ConnectError::NoHost);
}

#[test]
fn failures_have_a_text_and_a_kind() {
    let texts = [
        (ConnectError::NoHost, "no host in url"),
        (ConnectError::InvalidDnsName, "Invalid DNS Name"),
        (ConnectError::TunnelEof, "unexpected eof while tunneling"),
        (ConnectError::HeadersTooLong, "proxy headers too long for tunnel"),
        (ConnectError::ProxyAuthRequired, "proxy authentication required"),
        (ConnectError::Unsuccessful, "unsuccessful tunnel"),
    ];
    for (error, text) in texts {
        assert_eq!(error.message(), text);
        assert_eq!(error.kind(), ErrorKind::Message);
    }
    assert_eq!(ConnectError::NoSocksHost.message(), "no host in url");
    assert_eq!(ConnectError::NoSocksHost.kind(), ErrorKind::IoOther);
}

#[test]
fn transport_failures_are_handed_on() {
    let (attempt, _): (Attempt, Step) = native(false).connect_via_proxy(&dst("https://a/"), http_proxy());
    let (attempt, action): (Attempt, Step) = attempt.step(Event::Failed("reset"));
    match (attempt, action) {
        (Attempt::Closed, Action::Relay(e)) => assert_eq!(e, "reset"),
        other => panic!("not handed on but {:?}", other),
    }
}

#[test]
fn first_claiming_proxy_is_taken() {
    let c = plain_http(vec![1, 2, 3], false);
    let asked = std::cell::RefCell::new(Vec::new());
    let intercept = |p: &u8| {
        asked.borrow_mut().push(*p);
        if *p == 2 {
            Some(http_proxy())
        } else {
            None
        }
    };
    let (connecting, action) = c.call::<Failure, _>(&dst("http://a/"), intercept);
    assert_dial(&action, settings(false, true), None, "http://proxy:3128/");
    assert_eq!(connecting.timeout, None);
    assert_eq!(*asked.borrow(), vec![1, 2]);

    let (_, action) = c.call::<Failure, _>(&dst("http://a/"), |_: &u8| None);
    assert_dial(&action, settings(false, true), None, "http://a/");
    let (_, action) = plain_http(vec![], false).call::<Failure, _>(&dst("http://a/"), |_: &u8| Some(http_proxy()));
    assert_dial(&action, settings(false, true), None, "http://a/");
}

#[test]
fn time_is_up_or_makes_no_difference() {
    let mut c = plain_http(vec![], false);
    c.set_timeout(Some(Duration::from_millis(10)));
    let (connecting, _) = c.call::<Failure, _>(&dst("http://a/"), |_: &u8| None);
    assert_eq!(connecting.timeout, Some(Duration::from_millis(10)));
    let (connecting, next) = connecting.step(Timed::<Failure>::Elapsed);
    match (connecting.attempt, next) {
        (Attempt::Closed, Next::TimedOut) => {}
        other => panic!("not over but {:?}", other),
    }

    let (connecting, _) = c.call::<Failure, _>(&dst("http://a/"), |_: &u8| None);
    let (_, next) = connecting.step(Timed::<Failure>::InTime(Event::Opened { https: false }));
    match next {
        Next::Act(action) => assert_finish(&action, false),
        Next::TimedOut => panic!("in time"),
    }
    let (_, next) = with_timeout(Attempt::Handshaking, Wrapper(false), None).step(Timed::InTime(Event::Failed("bad certificate")));
    match next {
        Next::Act(Action::Relay(e)) => assert_eq!(e, "bad certificate"),
        other => panic!("not handed on but {:?}", other),
    }
}

#[test]
fn settings_of_the_call_are_used() {
    let mut c = plain_http(vec![], false);
    c.set_timeout(Some(Duration::from_secs(1)));
    c.set_verbose(true);
    let (connecting, _) = c.call::<Failure, _>(&dst("http://a/"), |_: &u8| None);
    c.set_timeout(None);
    c.set_verbose(false);
    assert_eq!(connecting.timeout, Some(Duration::from_secs(1)));
    let (connecting, next) = connecting.step(Timed::<Failure>::InTime(Event::Opened { https: false }));
    match next {
        Next::Act(action) => assert_finish(&action, false),
        Next::TimedOut => panic!("in time"),
    }
    assert_eq!(connecting.timeout, Some(Duration::from_secs(1)));
    let conn = connecting.deliver("conn", true, true, 5);
    assert!(conn.is_proxy);
    match conn.inner {
        Wrapped::Verbose(verbose) => {
            assert_eq!(verbose.id, 5);
            assert_eq!(verbose.inner, "conn");
        }
        Wrapped::Plain(_) => panic!("to be shown"),
    }

    let (connecting, _) = c.call::<Failure, _>(&dst("http://a/"), |_: &u8| None);
    c.set_verbose(true);
    let conn = connecting.deliver("conn", false, true, 5);
    assert!(!conn.is_proxy);
    match conn.inner {
        Wrapped::Plain(conn) => assert_eq!(conn, "conn"),
        Wrapped::Verbose(_) => panic!("not to be shown"),
    }
}

#[test]
fn what_is_known_of_connections() {
    let known = Connected { is_proxied: false, negotiated_h2: true };
    assert_eq!(
        Conn { inner: (), is_proxy: true }.connected(known),
        Connected { is_proxied: true, negotiated_h2: true }
    );
    let carrier = Connected { is_proxied: true, negotiated_h2: false };
    assert_eq!(Conn { inner: (), is_proxy: false }.connected(carrier).is_proxied, false);
    assert_eq!(
        tls_connected(Some(b"h2"), carrier),
        Connected { is_proxied: true, negotiated_h2: true }
    );
    for protocol in [None, Some(&b"http/1.1"[..]), Some(b"h2c"), Some(b"h"), Some(b"")] {
        assert_eq!(tls_connected(protocol, carrier), carrier);
        assert_eq!(tls_connected(protocol, known), known);
    }
}

#[test]
fn attempts_end_however_slow_the_proxy_is() {
    let mut attempt = requested(&rustls(false), "https://a/");
    let (now, mut action): (Attempt, Step) = attempt.step(Event::Received(b"HTTP/1.1 200".to_vec()));
    attempt = now;
    let mut reads = 1;
    while let Action::Receive { limit } = action {
        assert!(limit > 0);
        let (now, next): (Attempt, Step) = attempt.step(Event::Received(b"a".to_vec()));
        attempt = now;
        action = next;
        reads += 1;
    }
    assert_fail(&action, ConnectError::HeadersTooLong);
    assert_eq!(reads, 8192 - 11);
}

#[test]
fn tunnels_alone_are_written_to() {
    let routes: Vec<(Attempt, Step)> = vec![
        native(false).connect_with_maybe_proxy(&dst("https://a/"), false),
        native(false).connect_via_proxy(&dst("http://a/"), https_proxy()),
        rustls(false).connect_via_proxy(&dst("http://a/"), http_proxy()),
        plain_http(vec![], true).connect_via_proxy(&dst("https://a/"), https_proxy()),
    ];
    for (attempt, _) in routes {
        let (_, action): (Attempt, Step) = attempt.step(Event::Opened { https: false });
        match action {
            Action::Finish { .. } => {}
            other => panic!("not delivered but {:?}", other),
        }
    }
}
