//! A client-side engine for the netlink protocol: the wire codec for
//! message headers and nested attributes, and the decisions of one
//! request/response transaction with the kernel.
//!
//! Every length on the wire is rounded up to four bytes and every integer is
//! in the byte order of the host.

use vstd::prelude::*;

pub mod error;
pub mod hl;
pub mod proto;
pub mod type_route;
pub mod uapi;
pub mod util;
pub mod wire;

verus! {

/// A value with a form on the wire.
pub trait Serializable {
    /// Whether the value can be written: `to_bytes` asks for it.
    spec fn encodable(&self) -> bool;

    /// The bytes that stand for the value on the wire.
    spec fn serialized(&self) -> Seq<u8>;

    /// Writes the value out.
    fn to_bytes(&self) -> (out: Vec<u8>)
        requires
            self.encodable(),
        ensures
            out@ == self.serialized(),
    ;
}

impl Serializable for Vec<u8> {
    open spec fn encodable(&self) -> bool {
        true
    }

    /// Bytes stand for themselves.
    open spec fn serialized(&self) -> Seq<u8> {
        self@
    }

    fn to_bytes(&self) -> (out: Vec<u8>) {
        self.clone()
    }
}

} // verus!
