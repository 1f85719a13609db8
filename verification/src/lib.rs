//! Client-side transport engine for the X11 wire protocol.
//!
//! The crate frames complete protocol packets out of an arbitrarily
//! fragmented byte stream, correlates sequence-numbered requests with the
//! replies and errors the server sends back, keeps the out-of-band file
//! descriptor queue in arrival order, memoizes extension information, and
//! provides byte-level encoders and decoders for several protocol
//! extensions.  All socket I/O stays outside: callers hand in the bytes and
//! descriptors they read and write out the bytes this crate produces.

pub mod connection;
pub mod dri3;
pub mod errors;
pub mod extension;
pub mod fdqueue;
pub mod ge;
pub mod packet;
pub mod wire;
pub mod xproto;
pub mod xselinux;
pub mod xvmc;
