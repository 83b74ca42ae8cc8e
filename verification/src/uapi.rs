//! The numbers that the kernel's interface gives to message types, flags
//! and attribute types, as far as this library reads or writes them.

use vstd::prelude::*;

verus! {

/// The protocol of routing and link messages.
pub const NETLINK_ROUTE: u32 = 0;

/// No address family in particular.
pub const AF_UNSPEC: u32 = 0;

/// The message is a request.
pub const NLM_F_REQUEST: u32 = 0x1;

/// The message is one of several that answer a request.
pub const NLM_F_MULTI: u32 = 0x2;

/// The sender asks for an acknowledgment.
pub const NLM_F_ACK: u32 = 0x4;

/// Dump the whole table.
pub const NLM_F_DUMP: u32 = 0x300;

/// An acknowledgment or an error; the payload opens with the code.
pub const NLMSG_ERROR: u32 = 0x2;

/// The end of a run of multipart messages.
pub const NLMSG_DONE: u32 = 0x3;

/// A link was created or is reported.
pub const RTM_NEWLINK: u32 = 16;

/// A request for one link or for all of them.
pub const RTM_GETLINK: u32 = 18;

/// The hardware address of a link.
pub const IFLA_ADDRESS: u32 = 1;

/// The name of a link.
pub const IFLA_IFNAME: u32 = 3;

/// The largest packet a link carries.
pub const IFLA_MTU: u32 = 4;

/// The index of the link below this one.
pub const IFLA_LINK: u32 = 5;

/// The index of the link that this one is enslaved to.
pub const IFLA_MASTER: u32 = 10;

/// The length of the transmit queue.
pub const IFLA_TXQLEN: u32 = 13;

/// Nested attributes on the kind of a link.
pub const IFLA_LINKINFO: u32 = 18;

/// The alias of a link.
pub const IFLA_IFALIAS: u32 = 20;

/// Within the link info: the name of the kind.
pub const IFLA_INFO_KIND: u32 = 1;

/// Within the link info: the attributes that belong to the kind.
pub const IFLA_INFO_DATA: u32 = 2;

/// Within the data of a vlan: its id.
pub const IFLA_VLAN_ID: u32 = 1;

/// Within the data of a bridge: whether it filters by vlan.
pub const IFLA_BR_VLAN_FILTERING: u32 = 7;

} // verus!
