//! A small user-space TCP/IPv4 stack for a TUN device: packet decoding and
//! encoding, ICMP echo replies, a per-connection TCP state machine, the
//! connection table that drives it, and a stateless one-reply-per-packet
//! responder.
pub mod packet;
pub mod tcp;
pub mod engine;
pub mod responder;
