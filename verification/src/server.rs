//! What a server does with a datagram, decided before any disk is touched.
//!
//! The server's loop receives, asks here what the datagram calls for, gathers
//! from the filesystem what the answer needs, and has the response built and
//! fragmented. A datagram that carries no command is dropped and the server
//! listens on.

use crate::codec::{decode, decoded, CodecError};
use crate::dispatch::{classify, kind_of, CommandKind};
use crate::text::words;
use vstd::prelude::*;

verus! {

/// What a received datagram calls for.
pub enum Plan {
    /// The payload is no command: drop the datagram and listen on.
    Drop(CodecError),
    /// The command is empty: there is nothing to answer.
    Ignore,
    /// Answer `command`, of the given kind. A listing needs the entries under
    /// the trusted roots first, a read the probes of its path arguments.
    Serve { kind: CommandKind, command: Vec<String> },
}

/// Decides what to do with a datagram's payload.
pub fn plan(payload: &[u8]) -> (p: Plan)
    ensures
        match p {
            Plan::Drop(e) => decoded(payload@) is None && e == CodecError::MalformedCommand,
            Plan::Ignore => decoded(payload@) == Some(Seq::<Seq<char>>::empty()),
            Plan::Serve { kind, command } => {
                &&& command.len() >= 1
                &&& decoded(payload@) == Some(words(command@))
                &&& kind == kind_of(command[0]@)
            },
        },
{
    match decode(payload) {
        Err(e) => Plan::Drop(e),
        Ok(command) => {
            if command.len() == 0 {
                assert(words(command@) =~= Seq::<Seq<char>>::empty());
                Plan::Ignore
            } else {
                let kind = classify(&command[0]);
                Plan::Serve { kind, command }
            }
        },
    }
}

} // verus!
