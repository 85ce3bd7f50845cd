use connect::escape::Escape;
use connect::verbose::{Polled, Verbose, Wrapped, Wrapper};

#[test]
fn every_kind_of_byte_is_escaped() {
    let bytes = b"GET / \"q\" \\ \n\r\t\0\x01\x1f\x7f\x80\xff~ ";
    assert_eq!(
        Escape(bytes).fmt(),
        "b\"GET / \\\"q\\\" \\\\ \\n\\r\\t\\0\\x01\\x1f\\x7f\\x80\\xff~ \""
    );
    assert_eq!(Escape(b"").fmt(), "b\"\"");
}

#[test]
fn escapes_are_printable_and_distinct() {
    let mut seen: Vec<String> = Vec::new();
    for b in 0..=255u8 {
        let text = Escape(&[b]).fmt();
        assert!(text.bytes().all(|c| (0x20..0x7f).contains(&c)));
        assert!(!seen.contains(&text));
        seen.push(text);
    }
    assert_ne!(Escape(b"\\n").fmt(), Escape(b"\n").fmt());
    assert_ne!(Escape(b"\x001").fmt(), Escape(b"\x01").fmt());
}

#[test]
fn only_verbose_connections_are_wrapped() {
    for (asked, enabled) in [(false, false), (false, true), (true, false)] {
        match Wrapper(asked).wrap("conn", enabled, 7) {
            Wrapped::Plain(conn) => assert_eq!(conn, "conn"),
            Wrapped::Verbose(_) => panic!("not asked for, or not enabled"),
        }
    }
    match Wrapper(true).wrap("conn", true, 0xdead_beef_0123_4567) {
        Wrapped::Verbose(verbose) => {
            assert_eq!(verbose.id, 0x0123_4567);
            assert_eq!(verbose.inner, "conn");
        }
        Wrapped::Plain(_) => panic!("asked for and enabled"),
    }
}

#[test]
fn reads_and_writes_are_shown() {
    let verbose = Verbose { id: 0x2a, inner: () };
    let (line, polled) = verbose.poll_read(b"abc\r\nxyz", Polled::<u8>::Ready(Ok(5)));
    assert_eq!(line.unwrap(), "0000002a read: b\"abc\\r\\n\"");
    assert_eq!(polled, Polled::Ready(Ok(5)));
    let (line, polled) = verbose.poll_write(b"abc", Polled::<u8>::Ready(Ok(0)));
    assert_eq!(line.unwrap(), "0000002a write: b\"\"");
    assert_eq!(polled, Polled::Ready(Ok(0)));
    let loud = Verbose { id: 0xffff_fff0, inner: () };
    let (line, _) = loud.poll_write(b"a", Polled::<u8>::Ready(Ok(1)));
    assert_eq!(line.unwrap(), "fffffff0 write: b\"a\"");
}

#[test]
fn nothing_is_shown_where_nothing_passed() {
    let verbose = Verbose { id: 1, inner: () };
    assert_eq!(verbose.poll_read(b"abc", Polled::Ready(Err(3u8))), (None, Polled::Ready(Err(3))));
    assert_eq!(verbose.poll_read(b"abc", Polled::<u8>::Pending), (None, Polled::Pending));
    assert_eq!(verbose.poll_write(b"abc", Polled::Ready(Err(3u8))), (None, Polled::Ready(Err(3))));
    assert_eq!(verbose.poll_write(b"abc", Polled::<u8>::Pending), (None, Polled::Pending));
}

#[test]
fn wrapping_makes_no_difference() {
    let mut plain = Wrapper(true).wrap(vec![1u8], false, 9);
    let mut shown = Wrapper(true).wrap(vec![1u8], true, 9);
    let mut alone = vec![1u8];
    for byte in 2..6u8 {
        alone.push(byte);
        plain.inner_mut().push(byte);
        shown.inner_mut().push(byte);
    }
    assert_eq!(*plain.inner(), alone);
    assert_eq!(*shown.inner(), alone);
    for outcome in [Ok(0), Ok(3), Err(7u8)] {
        let (line, polled) = plain.poll_read(b"abc", Polled::Ready(outcome));
        assert_eq!((line, polled), (None, Polled::Ready(outcome)));
        let (line, polled) = plain.poll_write(b"abc", Polled::Ready(outcome));
        assert_eq!((line, polled), (None, Polled::Ready(outcome)));
        let (line, polled) = shown.poll_read(b"abc", Polled::Ready(outcome));
        assert_eq!((line.is_some(), polled), (outcome.is_ok(), Polled::Ready(outcome)));
        let (line, polled) = shown.poll_write(b"abc", Polled::Ready(outcome));
        assert_eq!((line.is_some(), polled), (outcome.is_ok(), Polled::Ready(outcome)));
    }
    assert_eq!(shown.poll_read(b"abc", Polled::<u8>::Pending), (None, Polled::Pending));
    let (line, _) = shown.poll_write(b"abc", Polled::<u8>::Ready(Ok(2)));
    assert_eq!(line.unwrap(), "00000009 write: b\"ab\"");
    match shown {
        Wrapped::Verbose(verbose) => assert_eq!(verbose.id, 9),
        Wrapped::Plain(_) => panic!("asked for and enabled"),
    }
}
