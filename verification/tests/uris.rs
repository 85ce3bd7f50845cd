use connect::error::ParseError;
use connect::uri::{into_uri, Authority, Destination, Scheme};

#[test]
fn destinations_are_read() {
    let d = Destination::parse("https://user@hyper.rs:8443/a?b=c").unwrap();
    assert_eq!(d.text(), "https://user@hyper.rs:8443/a?b=c");
    assert!(d.is_https());
    assert_eq!(d.host(), Some("hyper.rs"));
    assert_eq!(d.port(), Some(8443));

    let d = Destination::parse("http://[::1]/").unwrap();
    assert!(!d.is_https());
    assert_eq!(d.host(), Some("[::1]"));
    assert_eq!(d.port(), None);

    let d = Destination::parse("HTTPS://Example.COM").unwrap();
    assert!(d.is_https());
    assert_eq!(d.host(), Some("Example.COM"));

    let d = Destination::parse("ftp://example.com/").unwrap();
    assert!(!d.is_https());

    let d = Destination::parse("/only/a/path").unwrap();
    assert!(!d.is_https());
    assert_eq!(d.host(), None);
    assert_eq!(d.port(), None);
}

#[test]
fn other_texts_are_refused() {
    for text in ["", "http://", "http://a b/", "http://a\r\nb/", "http://a:1:2/", "http://\u{e9}/"] {
        assert_eq!(Destination::parse(text).unwrap_err(), ParseError::Uri);
    }
    for text in ["", "a/b", "a b", "a\nb", "a:1:2", "user@"] {
        assert_eq!(Authority::parse(text).unwrap_err(), ParseError::Authority);
    }
}

#[test]
fn proxies_are_found_at_their_root() {
    let host = Authority::parse("proxy.local:3128").unwrap();
    assert_eq!(host.as_str(), "proxy.local:3128");
    let d = into_uri(Scheme::Http, &host);
    assert_eq!(d.text(), "http://proxy.local:3128/");
    assert!(!d.is_https());
    assert_eq!(d.host(), Some("proxy.local"));
    assert_eq!(d.port(), Some(3128));

    let host = Authority::parse("user:pass@[::1]").unwrap();
    let d = into_uri(Scheme::Https, &host);
    assert_eq!(d.text(), "https://user:pass@[::1]/");
    assert!(d.is_https());
    assert_eq!(d.host(), Some("[::1]"));
    assert_eq!(d.port(), None);
}

#[test]
fn parts_are_kept() {
    let parts = |host: Option<&str>| {
        Destination::from_parts(
            "https://a/".to_string(),
            Some("https".to_string()),
            host.map(str::to_string),
            Some(8443),
        )
    };
    let d = parts(Some("b.example")).unwrap();
    assert_eq!(d.text(), "https://a/");
    assert!(d.is_https());
    assert_eq!(d.host(), Some("b.example"));
    assert_eq!(d.port(), Some(8443));
    assert_eq!(parts(None).unwrap().host(), None);
    for host in ["a b", "a\r\nb", "\u{e9}", "a\u{7f}"] {
        assert_eq!(parts(Some(host)).unwrap_err(), ParseError::Uri);
    }
}
