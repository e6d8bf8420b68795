//! A browser terminal gateway's verified core: the framed sub-protocol, the
//! output coalescer, the flow gate, the TTY announce scanner and the client
//! TTY registry, together with the parsers of the helper commands' output.
use vstd::prelude::*;

pub mod registry;
pub mod text;
pub mod announce;
pub mod pump;
pub mod flow;
pub mod protocol;
pub mod session;
pub mod script;
pub mod collab;
pub mod diff;
pub mod web;
