//! The netlink protocol itself: messages on the wire and the exchange of a
//! request for its responses.

use vstd::prelude::*;

pub mod conn;
pub mod packet;

pub use self::packet::{NetlinkHeader, NetlinkMessage};

verus! {

} // verus!
