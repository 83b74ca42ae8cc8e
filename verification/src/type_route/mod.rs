//! What the routing family puts into a message's payload: the link
//! sub-header and the attributes that follow it.

use vstd::prelude::*;

pub mod ifinfo;
pub mod rtattr;

pub use self::ifinfo::IfInfoMsg;
pub use self::rtattr::RtAttr;

verus! {

} // verus!
