//! File sharing over multicast datagrams: the request codec, the trust check on
//! paths, the dispatch of a command to response text, and the fragmentation of
//! a response into datagram-sized pieces.

pub mod codec;
pub mod dispatch;
pub mod fragment;
pub mod guard;
pub mod server;
pub mod size;
pub mod text;
