//! The relay layer's interface.
//!
//! Once a punched session exists, byte relays move application traffic
//! between local sockets and transport streams. The relays themselves are
//! I/O plumbing outside the library; these traits name the two directions
//! a relay endpoint can serve.

use vstd::prelude::*;

verus! {

/// An endpoint that accepts inbound traffic.
pub trait InBound {
    fn recv();
}

/// An endpoint that originates outbound traffic.
pub trait OutBound {
    fn send();
}

/// A relay endpoint serving both directions.
pub trait Proxy: InBound + OutBound {

}

} // verus!
