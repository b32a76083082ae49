//! Camera frame streaming over a small-MTU datagram link: the wire format,
//! the frame chunker and the session state machine that drives the
//! flow-controlled send loop.
pub mod chunker;
pub mod protocol;
pub mod session;
