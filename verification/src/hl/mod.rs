//! What sits on top of the protocol: links as the kernel describes them.

use vstd::prelude::*;

pub mod iface;

verus! {

} // verus!
