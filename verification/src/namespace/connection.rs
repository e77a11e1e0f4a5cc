//! Messages of the virtual-connection channel.

use vstd::prelude::*;

verus! {

/// Opens or closes a virtual connection to an endpoint.
#[derive(Clone, Debug, PartialEq, Eq, Structural)]
pub enum Connection {
    Connect,
    Close,
}

} // verus!
