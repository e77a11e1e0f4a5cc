//! Messages of the keepalive channel.

use vstd::prelude::*;

verus! {

/// The keepalive exchange: a ping is answered with a pong.
#[derive(Clone, Debug, PartialEq, Eq, Structural)]
pub enum Heartbeat {
    Ping,
    Pong,
}

} // verus!
