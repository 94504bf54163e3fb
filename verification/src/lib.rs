//! The decisions of a small SOCKS5 forward proxy.
//!
//! A browser talks SOCKS5 to the client side, the client side hands the wanted
//! address on to the server side, and from then on bytes are copied in both
//! directions. Everything here works on plain values and on streams that
//! implement [`AsyncRead`] and [`AsyncWrite`]; sockets, timers and tasks belong to
//! the program around it.

use vstd::prelude::*;

pub mod accept;
pub mod addr;
pub mod addressing;
pub mod cache;
pub mod channel;
pub mod client;
pub mod negotiation;
pub mod random;
pub mod relay;
pub mod server;
pub mod stream;
pub mod text;
pub mod transfer;

pub use channel::Channel;
pub use relay::Relay;
pub use stream::{AsyncRead, AsyncWrite};

verus! {

/// Where the server side listens unless it is told otherwise.
pub const DEFAULT_SERVER_ADDR: &'static str = "127.0.0.1:18888";

} // verus!
