//! What an HTTP client's connector decides, apart from the network.
//!
//! A [`connector::Connector`] chooses the way to a destination: directly, through
//! an HTTP proxy that forwards requests or grants a tunnel, or through a SOCKS
//! proxy. It does so without touching the network: it hands out one
//! [`attempt::Action`] after the other and is told by an [`attempt::Event`] what
//! each of them brought.
//!
//! * [`connector`], [`proxy`], [`uri`], [`tls`], [`header`]: the settings, and the
//!   values that an attempt is made from.
//! * [`attempt`], [`timeout`], [`socks`], [`tunnel`]: the course of an attempt.
//! * [`conn`], [`verbose`], [`escape`]: connections that stand, and showing in the
//!   log what passes over them.
//! * [`route_laws`], [`tunnel_laws`]: what holds of every attempt, whatever the
//!   network brings.
//! * [`connector_laws`], [`attempt_laws`]: what each call brings, told from what goes
//!   into it and what comes out.
pub mod attempt;
pub mod attempt_laws;
pub mod conn;
pub mod connector;
pub mod connector_laws;
pub mod error;
pub mod escape;
pub mod header;
pub mod proxy;
pub mod route_laws;
pub mod socks;
pub mod text;
pub mod timeout;
pub mod tls;
pub mod tunnel;
pub mod tunnel_laws;
pub mod uri;
pub mod verbose;
