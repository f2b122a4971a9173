//! Protocol engine of a multicast-DNS / DNS-SD responder: decides which
//! resource records answer a query, encodes them, and keeps the queue of
//! datagrams that wait for the socket, and decides when the multicast
//! membership is renewed.

pub mod name;
pub mod wire;
pub mod services;
pub mod emitter;
pub mod bindings;
pub mod engine;
pub mod laws;
pub mod keeper;
