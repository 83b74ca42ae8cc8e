//! The flags of a network device.

use vstd::prelude::*;

verus! {

/// interface is up
pub const IFF_UP: u32 = 0x1;

/// broadcast address valid
pub const IFF_BROADCAST: u32 = 0x2;

/// turn on debugging
pub const IFF_DEBUG: u32 = 0x4;

/// is a loopback net
pub const IFF_LOOPBACK: u32 = 0x8;

/// interface is a p-p link
pub const IFF_POINTOPOINT: u32 = 0x10;

/// avoid use of trailers
pub const IFF_NOTRAILERS: u32 = 0x20;

/// interface RFC2863 OPER_UP
pub const IFF_RUNNING: u32 = 0x40;

/// no ARP protocol
pub const IFF_NOARP: u32 = 0x80;

/// receive all packets
pub const IFF_PROMISC: u32 = 0x100;

/// receive all multicast packets
pub const IFF_ALLMULTI: u32 = 0x200;

/// master of a load balancer
pub const IFF_MASTER: u32 = 0x400;

/// slave of a load balancer
pub const IFF_SLAVE: u32 = 0x800;

/// supports multicast
pub const IFF_MULTICAST: u32 = 0x1000;

/// can set media type
pub const IFF_PORTSEL: u32 = 0x2000;

/// auto media select active
pub const IFF_AUTOMEDIA: u32 = 0x4000;

/// dialup device with changing addresses
pub const IFF_DYNAMIC: u32 = 0x8000;

/// driver signals L1 up
pub const IFF_LOWER_UP: u32 = 0x10000;

/// driver signals dormant
pub const IFF_DORMANT: u32 = 0x20000;

/// echo sent packets
pub const IFF_ECHO: u32 = 0x40000;

/// Every flag that has a name.
pub const IFF_ALL: u32 = 0x7ffff;

/// A set of device flags, one bit each.
#[derive(Debug, Clone, Copy, PartialEq, Eq, Structural)]
pub struct IfFlags {
    /// The bits of the flags that are set.
    pub bits: u32,
}

/// The named flags together are the lowest nineteen bits.
pub proof fn lemma_all_flags()
    ensures
        IFF_ALL == IFF_UP | IFF_BROADCAST | IFF_DEBUG | IFF_LOOPBACK | IFF_POINTOPOINT
            | IFF_NOTRAILERS | IFF_RUNNING | IFF_NOARP | IFF_PROMISC | IFF_ALLMULTI | IFF_MASTER
            | IFF_SLAVE | IFF_MULTICAST | IFF_PORTSEL | IFF_AUTOMEDIA | IFF_DYNAMIC | IFF_LOWER_UP
            | IFF_DORMANT | IFF_ECHO,
{
    assert(0x7ffffu32 == 0x1u32 | 0x2u32 | 0x4u32 | 0x8u32 | 0x10u32 | 0x20u32 | 0x40u32 | 0x80u32
        | 0x100u32 | 0x200u32 | 0x400u32 | 0x800u32 | 0x1000u32 | 0x2000u32 | 0x4000u32 | 0x8000u32
        | 0x10000u32 | 0x20000u32 | 0x40000u32) by (bit_vector);
}

impl IfFlags {
    /// The set with no flag.
    pub fn empty() -> (f: IfFlags)
        ensures
            f.bits == 0,
    {
        IfFlags { bits: 0 }
    }

    /// The set with every named flag.
    pub fn all() -> (f: IfFlags)
        ensures
            f.bits == IFF_ALL,
    {
        IfFlags { bits: IFF_ALL }
    }

    /// The bits of the set.
    pub fn bits(&self) -> (b: u32)
        ensures
            b == self.bits,
    {
        self.bits
    }

    /// The set of the named flags among `bits`; other bits are dropped.
    pub fn from_bits_truncate(bits: u32) -> (f: IfFlags)
        ensures
            f.bits == bits & IFF_ALL,
    {
        IfFlags { bits: bits & IFF_ALL }
    }

    /// Whether every flag of `other` is in the set.
    pub fn contains(&self, other: IfFlags) -> (r: bool)
        ensures
            r == (self.bits & other.bits == other.bits),
    {
        (self.bits & other.bits) == other.bits
    }
}

impl Default for IfFlags {
    fn default() -> (f: IfFlags)
        ensures
            f.bits == 0,
    {
        IfFlags::empty()
    }
}

} // verus!
