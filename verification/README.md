# connect

The decisions of an HTTP client's connector, verified with Verus: which way leads
to a destination (directly, through an HTTP proxy that forwards requests or grants
a tunnel, or through a SOCKS proxy), what is said to a proxy and what its reply
means, when TLS handshakes are due and against which name, what a time limit does,
and how traffic is shown in the log.

* `src/` is the library. It touches no network: an attempt to connect hands out one
  action after the other and is told what each of them brought. `route_laws.rs`
  and `tunnel_laws.rs` state what holds of every attempt, whatever the network
  brings; `escape.rs` and `verbose.rs` state what holds of every log line.
* `app/` does the actions, over hyper, tokio, native-tls, rustls and tokio-socks, and
  offers the whole as a connector for hyper.
* `tests/` runs the library on concrete values.

Taken on trust, and said so where they stand: what the `http` crate reads and
builds (URIs, authorities, header values), which texts `webpki` takes as DNS names,
and that `String::push` appends.
