//! Interfaces as the kernel reports them: a small set of fixed properties
//! and a list of attributes. Every attribute may be missing, so what comes
//! from one is an `Option`.

use crate::error::NetlinkError;
use crate::proto::packet::{message_views, MessageView};
use crate::proto::NetlinkMessage;
use crate::type_route::ifinfo::IfInfoMsg;
use crate::type_route::rtattr::{attr_views, AttrView, RtAttr};
use crate::uapi;
use crate::Serializable;
use vstd::array::array_as_slice;
use vstd::endian::endianness;
use vstd::prelude::*;
use vstd::slice::{slice_subrange, slice_to_vec};

pub mod ifflags;

pub use self::ifflags::IfFlags;

verus! {

/// What is particular to a vlan.
#[derive(Debug, Clone, Copy, PartialEq, Eq, Structural)]
pub struct Vlan {
    pub vlan_id: Option<u16>,
}

/// What is particular to a veth pair. The kernel takes the peer on
/// creation only and never reports it.
#[derive(Debug, Clone, Copy, PartialEq, Eq, Structural)]
pub struct Veth {
    pub peer_name: Option<i32>,
}

/// What is particular to a bridge.
#[derive(Debug, Clone, Copy, PartialEq, Eq, Structural)]
pub struct Bridge {
    pub vlan_filtering: Option<bool>,
}

/// The kind of a link, with what is particular to that kind.
#[derive(Debug, Clone, Copy, PartialEq, Eq, Structural)]
pub enum LinkType {
    Unknown,
    Bridge(Bridge),
    Dummy,
    Ifb,
    Veth(Veth),
    Vlan(Vlan),
}

impl Default for Vlan {
    fn default() -> (v: Vlan)
        ensures
            v == (Vlan { vlan_id: None }),
    {
        Vlan { vlan_id: None }
    }
}

impl Default for Veth {
    fn default() -> (v: Veth)
        ensures
            v == (Veth { peer_name: None }),
    {
        Veth { peer_name: None }
    }
}

impl Default for Bridge {
    fn default() -> (b: Bridge)
        ensures
            b == (Bridge { vlan_filtering: None }),
    {
        Bridge { vlan_filtering: None }
    }
}

impl Default for LinkType {
    fn default() -> (t: LinkType)
        ensures
            t == LinkType::Unknown,
    {
        LinkType::Unknown
    }
}

/// The name of the kind `bridge`.
pub open spec fn kind_bridge() -> Seq<u8> {
    seq![0x62u8, 0x72u8, 0x69u8, 0x64u8, 0x67u8, 0x65u8]
}

/// The name of the kind `dummy`.
pub open spec fn kind_dummy() -> Seq<u8> {
    seq![0x64u8, 0x75u8, 0x6du8, 0x6du8, 0x79u8]
}

/// The name of the kind `veth`.
pub open spec fn kind_veth() -> Seq<u8> {
    seq![0x76u8, 0x65u8, 0x74u8, 0x68u8]
}

/// The name of the kind `vlan`.
pub open spec fn kind_vlan() -> Seq<u8> {
    seq![0x76u8, 0x6cu8, 0x61u8, 0x6eu8]
}

/// A bridge after the attributes `attrs`, taken in order: each one that
/// says whether the bridge filters by vlan sets that field; an attribute
/// that says so with an empty value is invalid data.
pub open spec fn bridge_with(b: Bridge, attrs: Seq<AttrView>) -> Result<Bridge, NetlinkError>
    decreases attrs.len(),
{
    if attrs.len() == 0 {
        Ok(b)
    } else if attrs[0].header.typ == uapi::IFLA_BR_VLAN_FILTERING {
        match attrs[0].value_bool() {
            Err(e) => Err(e),
            Ok(on) => bridge_with(Bridge { vlan_filtering: Some(on) }, attrs.drop_first()),
        }
    } else {
        bridge_with(b, attrs.drop_first())
    }
}

/// A vlan after the attributes `attrs`, taken in order: each one that
/// holds the vlan's id sets that field; an attribute that holds it in fewer
/// than two bytes is invalid data.
pub open spec fn vlan_with(v: Vlan, attrs: Seq<AttrView>) -> Result<Vlan, NetlinkError>
    decreases attrs.len(),
{
    if attrs.len() == 0 {
        Ok(v)
    } else if attrs[0].header.typ == uapi::IFLA_VLAN_ID {
        match attrs[0].value_u16() {
            Err(e) => Err(e),
            Ok(id) => vlan_with(Vlan { vlan_id: Some(id) }, attrs.drop_first()),
        }
    } else {
        vlan_with(v, attrs.drop_first())
    }
}

/// What the kind named `kind` and its attributes `attrs` say of a link. A
/// name that is none of the known ones gives `Unknown`.
pub open spec fn link_type_of(kind: Seq<u8>, attrs: Seq<AttrView>) -> Result<
    LinkType,
    NetlinkError,
> {
    if kind == kind_bridge() {
        match bridge_with(Bridge { vlan_filtering: None }, attrs) {
            Err(e) => Err(e),
            Ok(b) => Ok(LinkType::Bridge(b)),
        }
    } else if kind == kind_dummy() {
        Ok(LinkType::Dummy)
    } else if kind == kind_veth() {
        Ok(LinkType::Veth(Veth { peer_name: None }))
    } else if kind == kind_vlan() {
        match vlan_with(Vlan { vlan_id: None }, attrs) {
            Err(e) => Err(e),
            Ok(v) => Ok(LinkType::Vlan(v)),
        }
    } else {
        Ok(LinkType::Unknown)
    }
}

/// Whether two runs of bytes are the same.
fn same_bytes(a: &[u8], b: &[u8]) -> (r: bool)
    ensures
        r == (a@ == b@),
{
    if a.len() != b.len() {
        return false;
    }
    let mut i: usize = 0;
    while i < a.len()
        invariant
            a@.len() == b@.len(),
            i <= a@.len(),
            forall|j: int| 0 <= j < i ==> a@[j] == b@[j],
        decreases a@.len() - i,
    {
        if a[i] != b[i] {
            return false;
        }
        i += 1;
    }
    assert(a@ =~= b@);
    true
}

impl LinkType {
    /// Reads what is particular to a link of the kind named `kind` from the
    /// attributes of that kind.
    pub fn from_attrs(kind: &Vec<u8>, rt_attrs: &Vec<RtAttr>) -> (r: Result<LinkType, NetlinkError>)
        ensures
            r == link_type_of(kind@, attr_views(rt_attrs@)),
    {
        let bridge: [u8; 6] = [0x62, 0x72, 0x69, 0x64, 0x67, 0x65];
        let dummy: [u8; 5] = [0x64, 0x75, 0x6d, 0x6d, 0x79];
        let veth: [u8; 4] = [0x76, 0x65, 0x74, 0x68];
        let vlan: [u8; 4] = [0x76, 0x6c, 0x61, 0x6e];
        assert(bridge@ =~= kind_bridge());
        assert(dummy@ =~= kind_dummy());
        assert(veth@ =~= kind_veth());
        assert(vlan@ =~= kind_vlan());
        let ghost all = attr_views(rt_attrs@);
        let ghost name = kind@;
        let text = kind.as_slice();
        if same_bytes(text, array_as_slice(&bridge)) {
            let mut b: Bridge = Bridge::default();
            let mut i: usize = 0;
            assert(all.skip(0) =~= all);
            while i < rt_attrs.len()
                invariant
                    i <= rt_attrs@.len(),
                    all == attr_views(rt_attrs@),
                    name == kind_bridge(),
                    name == kind@,
                    bridge_with(Bridge { vlan_filtering: None }, all) == bridge_with(
                        b,
                        all.skip(i as int),
                    ),
                decreases rt_attrs@.len() - i,
            {
                let rt_attr = &rt_attrs[i];
                assert(all.skip(i as int)[0] == rt_attr@);
                assert(all.skip(i as int).drop_first() =~= all.skip(i + 1));
                if rt_attr.get_typ() as u32 == uapi::IFLA_BR_VLAN_FILTERING {
                    match rt_attr.as_bool() {
                        Ok(on) => {
                            b.vlan_filtering = Some(on);
                        },
                        Err(e) => {
                            return Err(e);
                        },
                    }
                }
                i += 1;
            }
            Ok(LinkType::Bridge(b))
        } else if same_bytes(text, array_as_slice(&dummy)) {
            Ok(LinkType::Dummy)
        } else if same_bytes(text, array_as_slice(&veth)) {
            // veth fields are create-only, oddly enough
            Ok(LinkType::Veth(Veth::default()))
        } else if same_bytes(text, array_as_slice(&vlan)) {
            let mut v: Vlan = Vlan::default();
            let mut i: usize = 0;
            assert(all.skip(0) =~= all);
            while i < rt_attrs.len()
                invariant
                    i <= rt_attrs@.len(),
                    all == attr_views(rt_attrs@),
                    name != kind_bridge() && name != kind_dummy() && name != kind_veth() && name
                        == kind_vlan(),
                    name == kind@,
                    vlan_with(Vlan { vlan_id: None }, all) == vlan_with(v, all.skip(i as int)),
                decreases rt_attrs@.len() - i,
            {
                let rt_attr = &rt_attrs[i];
                assert(all.skip(i as int)[0] == rt_attr@);
                assert(all.skip(i as int).drop_first() =~= all.skip(i + 1));
                if rt_attr.get_typ() as u32 == uapi::IFLA_VLAN_ID {
                    match rt_attr.as_u16() {
                        Ok(id) => {
                            v.vlan_id = Some(id);
                        },
                        Err(e) => {
                            return Err(e);
                        },
                    }
                }
                i += 1;
            }
            Ok(LinkType::Vlan(v))
        } else {
            // unrecognized link type
            Ok(LinkType::Unknown)
        }
    }
}

/// What the kernel says of one link.
///
/// Every field is optional except `index`, `flags` and `flags_change`,
/// which come from the fixed sub-header.
#[derive(Debug)]
pub struct LinkMsg {
    pub index: i32,
    pub flags: IfFlags,
    pub flags_change: IfFlags,
    pub mtu: Option<u32>,
    pub tx_q_len: Option<u32>,
    pub name: Option<Vec<u8>>,
    pub hadrware_addr: Option<Vec<u8>>,
    pub parent_index: Option<u32>,
    pub alias: Option<Vec<u8>>,
    pub promisc: Option<i32>,
    pub kind: Option<Vec<u8>>,
    pub master_index: Option<u32>,
    pub specific: LinkType,
}

/// What a link record is, with bytes as sequences.
pub struct LinkView {
    pub index: i32,
    pub flags: IfFlags,
    pub flags_change: IfFlags,
    pub mtu: Option<u32>,
    pub tx_q_len: Option<u32>,
    pub name: Option<Seq<u8>>,
    pub hadrware_addr: Option<Seq<u8>>,
    pub parent_index: Option<u32>,
    pub alias: Option<Seq<u8>>,
    pub promisc: Option<i32>,
    pub kind: Option<Seq<u8>>,
    pub master_index: Option<u32>,
    pub specific: LinkType,
}

/// The bytes of an optional vector.
pub open spec fn bytes_of(field: Option<Vec<u8>>) -> Option<Seq<u8>> {
    match field {
        Some(bytes) => Some(bytes@),
        None => None,
    }
}

impl View for LinkMsg {
    type V = LinkView;

    open spec fn view(&self) -> LinkView {
        LinkView {
            index: self.index,
            flags: self.flags,
            flags_change: self.flags_change,
            mtu: self.mtu,
            tx_q_len: self.tx_q_len,
            name: bytes_of(self.name),
            hadrware_addr: bytes_of(self.hadrware_addr),
            parent_index: self.parent_index,
            alias: bytes_of(self.alias),
            promisc: self.promisc,
            kind: bytes_of(self.kind),
            master_index: self.master_index,
            specific: self.specific,
        }
    }
}

/// The views of a run of link records, in order.
pub open spec fn link_views(links: Seq<LinkMsg>) -> Seq<LinkView> {
    links.map_values(|l: LinkMsg| l@)
}

impl LinkView {
    /// The record with nothing set.
    pub open spec fn blank() -> LinkView {
        LinkView {
            index: 0,
            flags: IfFlags { bits: 0 },
            flags_change: IfFlags { bits: 0 },
            mtu: None,
            tx_q_len: None,
            name: None,
            hadrware_addr: None,
            parent_index: None,
            alias: None,
            promisc: None,
            kind: None,
            master_index: None,
            specific: LinkType::Unknown,
        }
    }

    /// The record that the sub-header alone gives: the index and the named
    /// flags among the header's.
    pub open spec fn of_header(info: IfInfoMsg) -> LinkView {
        LinkView {
            index: info.index,
            flags: IfFlags { bits: info.flags & ifflags::IFF_ALL },
            ..Self::blank()
        }
    }

    /// The record after one attribute of the link info. The name of the
    /// kind sets `kind`; any other attribute changes nothing.
    pub open spec fn with_info_attr(self, a: AttrView) -> Result<LinkView, NetlinkError> {
        if a.header.typ == uapi::IFLA_INFO_KIND {
            match a.value_text() {
                Err(e) => Err(e),
                Ok(text) => Ok(LinkView { kind: Some(text), ..self }),
            }
        } else {
            Ok(self)
        }
    }

    /// The record after the attributes of the link info, taken in order.
    pub open spec fn with_info_attrs(self, attrs: Seq<AttrView>) -> Result<LinkView, NetlinkError>
        decreases attrs.len(),
    {
        if attrs.len() == 0 {
            Ok(self)
        } else {
            match self.with_info_attr(attrs[0]) {
                Err(e) => Err(e),
                Ok(next) => next.with_info_attrs(attrs.drop_first()),
            }
        }
    }

    /// The value of the last attribute of the link info that holds the
    /// kind's own attributes, or `found` where `attrs` has none.
    pub open spec fn info_data(found: Seq<u8>, attrs: Seq<AttrView>) -> Seq<u8>
        decreases attrs.len(),
    {
        if attrs.len() == 0 {
            found
        } else if attrs[0].header.typ == uapi::IFLA_INFO_DATA {
            Self::info_data(attrs[0].data, attrs.drop_first())
        } else {
            Self::info_data(found, attrs.drop_first())
        }
    }

    /// The record with what is particular to its kind, read from `data`,
    /// the run of attributes that belongs to the kind. A record without a
    /// kind stays as it is; one with a kind gets what `link_type_of` makes
    /// of that kind and the attributes, so a kind of no known name gives
    /// `Unknown`.
    pub open spec fn with_kind_data(self, data: Seq<u8>) -> Result<LinkView, NetlinkError> {
        match self.kind {
            None => Ok(self),
            Some(kind) => match AttrView::decode_all_in(endianness(), data) {
                Err(e) => Err(e),
                Ok(attrs) => match link_type_of(kind, attrs) {
                    Err(e) => Err(e),
                    Ok(specific) => Ok(LinkView { specific, ..self }),
                },
            },
        }
    }

    /// The record after the link info `attrs`: first the name of the kind
    /// is taken, then what is particular to that kind from the attributes
    /// nested in the link info's data, which are none where it has no data.
    pub open spec fn with_link_info(self, attrs: Seq<AttrView>) -> Result<LinkView, NetlinkError> {
        match self.with_info_attrs(attrs) {
            Err(e) => Err(e),
            Ok(named) => named.with_kind_data(Self::info_data(Seq::empty(), attrs)),
        }
    }

    /// The record after one attribute of the link.
    ///
    /// An attribute of a known type sets its field from its value, read as
    /// that type asks; a value that cannot be read so fails the whole. The
    /// link info is itself a run of attributes, from which the kind and
    /// what is particular to it are taken. An attribute of another type
    /// changes nothing.
    pub open spec fn with_attr(self, a: AttrView) -> Result<LinkView, NetlinkError> {
        let typ = a.header.typ;
        if typ == uapi::IFLA_MTU {
            match a.value_u32() {
                Err(e) => Err(e),
                Ok(v) => Ok(LinkView { mtu: Some(v), ..self }),
            }
        } else if typ == uapi::IFLA_IFNAME {
            match a.value_text() {
                Err(e) => Err(e),
                Ok(text) => Ok(LinkView { name: Some(text), ..self }),
            }
        } else if typ == uapi::IFLA_TXQLEN {
            match a.value_u32() {
                Err(e) => Err(e),
                Ok(v) => Ok(LinkView { tx_q_len: Some(v), ..self }),
            }
        } else if typ == uapi::IFLA_ADDRESS {
            Ok(LinkView { hadrware_addr: Some(a.data), ..self })
        } else if typ == uapi::IFLA_LINK {
            match a.value_u32() {
                Err(e) => Err(e),
                Ok(v) => Ok(LinkView { parent_index: Some(v), ..self }),
            }
        } else if typ == uapi::IFLA_MASTER {
            match a.value_u32() {
                Err(e) => Err(e),
                Ok(v) => Ok(LinkView { master_index: Some(v), ..self }),
            }
        } else if typ == uapi::IFLA_IFALIAS {
            match a.value_text() {
                Err(e) => Err(e),
                Ok(text) => Ok(LinkView { alias: Some(text), ..self }),
            }
        } else if typ == uapi::IFLA_LINKINFO {
            match AttrView::decode_all_in(endianness(), a.data) {
                Err(e) => Err(e),
                Ok(inner) => self.with_link_info(inner),
            }
        } else {
            Ok(self)
        }
    }

    /// The record after the attributes `attrs`, taken in order.
    pub open spec fn with_attrs(self, attrs: Seq<AttrView>) -> Result<LinkView, NetlinkError>
        decreases attrs.len(),
    {
        if attrs.len() == 0 {
            Ok(self)
        } else {
            match self.with_attr(attrs[0]) {
                Err(e) => Err(e),
                Ok(next) => next.with_attrs(attrs.drop_first()),
            }
        }
    }

    /// The record that a sub-header and the attributes after it give.
    pub open spec fn from_attrs(info: IfInfoMsg, attrs: Seq<AttrView>) -> Result<
        LinkView,
        NetlinkError,
    > {
        Self::of_header(info).with_attrs(attrs)
    }

    /// The record that a link message gives: its payload opens with the
    /// sub-header, and attributes fill the rest.
    pub open spec fn from_message(m: MessageView) -> Result<LinkView, NetlinkError> {
        match IfInfoMsg::decode_in(endianness(), m.data) {
            Err(e) => Err(e),
            Ok(info) => match AttrView::decode_all_in(
                endianness(),
                m.data.subrange(16, m.data.len() as int),
            ) {
                Err(e) => Err(e),
                Ok(attrs) => Self::from_attrs(info, attrs),
            },
        }
    }

    /// The records that a run of link messages gives, or the first error.
    pub open spec fn from_messages(msgs: Seq<MessageView>) -> Result<Seq<LinkView>, NetlinkError>
        decreases msgs.len(),
    {
        if msgs.len() == 0 {
            Ok(Seq::empty())
        } else {
            match Self::from_message(msgs[0]) {
                Err(e) => Err(e),
                Ok(link) => match Self::from_messages(msgs.drop_first()) {
                    Err(e) => Err(e),
                    Ok(rest) => Ok(seq![link] + rest),
                },
            }
        }
    }

    /// The one record that the answer to a request for one link gives: not
    /// found where the answer is empty, ambiguous where it holds more than
    /// one message.
    pub open spec fn from_single(msgs: Seq<MessageView>) -> Result<LinkView, NetlinkError> {
        if msgs.len() == 0 {
            Err(NetlinkError::NotFound)
        } else if msgs.len() == 1 {
            Self::from_message(msgs[0])
        } else {
            Err(NetlinkError::Ambiguous)
        }
    }
}

/// The four known names of kinds differ from one another.
pub proof fn lemma_kinds_differ()
    ensures
        kind_bridge() != kind_dummy(),
        kind_bridge() != kind_veth(),
        kind_bridge() != kind_vlan(),
        kind_dummy() != kind_veth(),
        kind_dummy() != kind_vlan(),
        kind_veth() != kind_vlan(),
{
    assert(kind_bridge().len() == 6);
    assert(kind_dummy().len() == 5);
    assert(kind_veth().len() == 4);
    assert(kind_vlan().len() == 4);
    assert(kind_veth()[1] != kind_vlan()[1]);
}

/// Reading the name of the kind from a link info changes no other field
/// of the record.
pub proof fn lemma_info_attrs_set_kind_only(start: LinkView, attrs: Seq<AttrView>)
    requires
        start.with_info_attrs(attrs) is Ok,
    ensures
        start.with_info_attrs(attrs)->Ok_0 == (LinkView {
            kind: start.with_info_attrs(attrs)->Ok_0.kind,
            ..start
        }),
    decreases attrs.len(),
{
    if attrs.len() > 0 {
        let next = start.with_info_attr(attrs[0])->Ok_0;
        lemma_info_attrs_set_kind_only(next, attrs.drop_first());
    }
}

/// What is particular to a link follows the kind that its link info names:
/// a bridge for `bridge`, a dummy for `dummy`, a veth for `veth`, a vlan for
/// `vlan`, and `Unknown` for any other name. A record that still has no
/// kind after the link info keeps what it had.
pub proof fn lemma_specific_follows_kind(start: LinkView, info: Seq<AttrView>)
    requires
        start.with_link_info(info) is Ok,
    ensures
        ({
            let link = start.with_link_info(info)->Ok_0;
            &&& link.kind is None ==> link.specific == start.specific
            &&& link.kind == Some(kind_bridge()) ==> link.specific is Bridge
            &&& link.kind == Some(kind_dummy()) ==> link.specific == LinkType::Dummy
            &&& link.kind == Some(kind_veth()) ==> link.specific == LinkType::Veth(
                Veth { peer_name: None },
            )
            &&& link.kind == Some(kind_vlan()) ==> link.specific is Vlan
            &&& link.kind is Some && link.kind->0 != kind_bridge() && link.kind->0 != kind_dummy()
                && link.kind->0 != kind_veth() && link.kind->0 != kind_vlan() ==> link.specific
                == LinkType::Unknown
        }),
{
    lemma_kinds_differ();
    lemma_info_attrs_set_kind_only(start, info);
}

/// Attributes other than the link info leave the kind of a record, and
/// what is particular to it, as they were.
pub proof fn lemma_other_attrs_keep_kind(start: LinkView, attrs: Seq<AttrView>)
    requires
        forall|i: int| 0 <= i < attrs.len() ==> (#[trigger] attrs[i]).header.typ
            != uapi::IFLA_LINKINFO,
        start.with_attrs(attrs) is Ok,
    ensures
        start.with_attrs(attrs)->Ok_0.kind == start.kind,
        start.with_attrs(attrs)->Ok_0.specific == start.specific,
    decreases attrs.len(),
{
    if attrs.len() > 0 {
        let next = start.with_attr(attrs[0])->Ok_0;
        let rest = attrs.drop_first();
        assert forall|i: int| 0 <= i < rest.len() implies (#[trigger] rest[i]).header.typ
            != uapi::IFLA_LINKINFO by {
            assert(rest[i] == attrs[i + 1]);
        }
        lemma_other_attrs_keep_kind(next, rest);
    }
}

/// A link whose attributes hold no link info has no kind, and what is
/// particular to it is `Unknown`.
pub proof fn lemma_no_link_info_is_unknown(info: IfInfoMsg, attrs: Seq<AttrView>)
    requires
        forall|i: int| 0 <= i < attrs.len() ==> (#[trigger] attrs[i]).header.typ
            != uapi::IFLA_LINKINFO,
        LinkView::from_attrs(info, attrs) is Ok,
    ensures
        LinkView::from_attrs(info, attrs)->Ok_0.kind is None,
        LinkView::from_attrs(info, attrs)->Ok_0.specific == LinkType::Unknown,
{
    lemma_other_attrs_keep_kind(LinkView::of_header(info), attrs);
}

/// Taking two runs of attributes one after the other is taking their
/// concatenation.
pub proof fn lemma_with_attrs_in_two_parts(
    start: LinkView,
    first: Seq<AttrView>,
    second: Seq<AttrView>,
)
    ensures
        start.with_attrs(first + second) == match start.with_attrs(first) {
            Err(e) => Err(e),
            Ok(mid) => mid.with_attrs(second),
        },
    decreases first.len(),
{
    if first.len() == 0 {
        assert(first + second =~= second);
    } else {
        let all = first + second;
        assert(all[0] == first[0]);
        assert(all.drop_first() =~= first.drop_first() + second);
        match start.with_attr(first[0]) {
            Ok(next) => {
                lemma_with_attrs_in_two_parts(next, first.drop_first(), second);
            },
            Err(_) => {},
        }
    }
}

/// The record of a link carries what is particular to the kind that its
/// last link info names. Where `info_attr` is a link info and no attribute
/// after it is one, a record with the kind `bridge` is a bridge, one with
/// `dummy` a dummy, one with `veth` a veth, one with `vlan` a vlan, and one
/// with any other kind is `Unknown`.
pub proof fn lemma_link_kind_selects_specific(
    info: IfInfoMsg,
    before: Seq<AttrView>,
    info_attr: AttrView,
    after: Seq<AttrView>,
)
    requires
        info_attr.header.typ == uapi::IFLA_LINKINFO,
        forall|i: int| 0 <= i < after.len() ==> (#[trigger] after[i]).header.typ
            != uapi::IFLA_LINKINFO,
        LinkView::from_attrs(info, before + seq![info_attr] + after) is Ok,
    ensures
        ({
            let link = LinkView::from_attrs(info, before + seq![info_attr] + after)->Ok_0;
            &&& link.kind == Some(kind_bridge()) ==> link.specific is Bridge
            &&& link.kind == Some(kind_dummy()) ==> link.specific == LinkType::Dummy
            &&& link.kind == Some(kind_veth()) ==> link.specific == LinkType::Veth(
                Veth { peer_name: None },
            )
            &&& link.kind == Some(kind_vlan()) ==> link.specific is Vlan
            &&& link.kind is Some && link.kind->0 != kind_bridge() && link.kind->0 != kind_dummy()
                && link.kind->0 != kind_veth() && link.kind->0 != kind_vlan() ==> link.specific
                == LinkType::Unknown
        }),
{
    let start = LinkView::of_header(info);
    let one = seq![info_attr];
    lemma_with_attrs_in_two_parts(start, before + one, after);
    lemma_with_attrs_in_two_parts(start, before, one);
    let mid = start.with_attrs(before)->Ok_0;
    assert(one.drop_first() =~= Seq::<AttrView>::empty());
    assert(mid.with_attrs(one) == mid.with_attr(info_attr)) by {
        match mid.with_attr(info_attr) {
            Ok(next) => {
                assert(next.with_attrs(Seq::empty()) == Ok::<LinkView, NetlinkError>(next));
            },
            Err(_) => {},
        }
    }
    let inner = AttrView::decode_all_in(endianness(), info_attr.data)->Ok_0;
    let read = mid.with_attr(info_attr)->Ok_0;
    lemma_specific_follows_kind(mid, inner);
    lemma_other_attrs_keep_kind(read, after);
}

impl Default for LinkMsg {
    fn default() -> (l: LinkMsg)
        ensures
            l@ == LinkView::blank(),
    {
        LinkMsg {
            index: 0,
            flags: IfFlags::empty(),
            flags_change: IfFlags::empty(),
            mtu: None,
            tx_q_len: None,
            name: None,
            hadrware_addr: None,
            parent_index: None,
            alias: None,
            promisc: None,
            kind: None,
            master_index: None,
            specific: LinkType::Unknown,
        }
    }
}

impl LinkMsg {
    /// Reads a link record from a link message.
    pub fn from_message(nlmsg: &NetlinkMessage) -> (r: Result<LinkMsg, NetlinkError>)
        ensures
            match r {
                Ok(link) => LinkView::from_message(nlmsg@) == Ok::<LinkView, NetlinkError>(link@),
                Err(e) => LinkView::from_message(nlmsg@) == Err::<LinkView, NetlinkError>(e),
            },
    {
        // peel off ifinfo message
        let data = nlmsg.data.as_slice();
        let ifinfo = match IfInfoMsg::from_bytes(data) {
            Ok(ifinfo) => ifinfo,
            Err(e) => {
                return Err(e);
            },
        };
        let attrs = match RtAttr::from_bytes(slice_subrange(data, IfInfoMsg::size(), data.len())) {
            Ok(attrs) => attrs,
            Err(e) => {
                return Err(e);
            },
        };
        LinkMsg::from_attrs(&ifinfo, &attrs)
    }

    /// Takes the name of the kind from the attributes of the link info.
    fn read_info(&mut self, info_attrs: &Vec<RtAttr>) -> (r: Result<(), NetlinkError>)
        ensures
            match r {
                Ok(()) => old(self)@.with_info_attrs(attr_views(info_attrs@)) == Ok::<
                    LinkView,
                    NetlinkError,
                >(final(self)@),
                Err(e) => old(self)@.with_info_attrs(attr_views(info_attrs@)) == Err::<
                    LinkView,
                    NetlinkError,
                >(e),
            },
    {
        let ghost all = attr_views(info_attrs@);
        let mut i: usize = 0;
        assert(all.skip(0) =~= all);
        while i < info_attrs.len()
            invariant
                i <= info_attrs@.len(),
                all == attr_views(info_attrs@),
                old(self)@.with_info_attrs(all) == self@.with_info_attrs(all.skip(i as int)),
            decreases info_attrs@.len() - i,
        {
            let info_attr = &info_attrs[i];
            assert(all.skip(i as int)[0] == info_attr@);
            assert(all.skip(i as int).drop_first() =~= all.skip(i + 1));
            if info_attr.get_typ() as u32 == uapi::IFLA_INFO_KIND {
                match info_attr.to_cstring() {
                    Ok(text) => {
                        self.kind = Some(text);
                    },
                    Err(e) => {
                        return Err(e);
                    },
                }
            }
            i += 1;
        }
        Ok(())
    }

    /// Where the link info holds the attributes of the kind: the index of
    /// the last attribute that does, if there is one.
    fn find_info_data(info_attrs: &Vec<RtAttr>) -> (at: Option<usize>)
        ensures
            match at {
                Some(j) => j < info_attrs@.len() && LinkView::info_data(
                    Seq::empty(),
                    attr_views(info_attrs@),
                ) == info_attrs@[j as int].data@,
                None => LinkView::info_data(Seq::empty(), attr_views(info_attrs@))
                    == Seq::<u8>::empty(),
            },
    {
        let ghost all = attr_views(info_attrs@);
        let ghost mut found = Seq::<u8>::empty();
        let mut at: Option<usize> = None;
        let mut i: usize = 0;
        assert(all.skip(0) =~= all);
        while i < info_attrs.len()
            invariant
                i <= info_attrs@.len(),
                all == attr_views(info_attrs@),
                LinkView::info_data(Seq::empty(), all) == LinkView::info_data(
                    found,
                    all.skip(i as int),
                ),
                match at {
                    Some(j) => j < i && found == info_attrs@[j as int].data@,
                    None => found == Seq::<u8>::empty(),
                },
            decreases info_attrs@.len() - i,
        {
            let info_attr = &info_attrs[i];
            assert(all.skip(i as int)[0] == info_attr@);
            assert(all.skip(i as int).drop_first() =~= all.skip(i + 1));
            if info_attr.get_typ() as u32 == uapi::IFLA_INFO_DATA {
                at = Some(i);
                proof {
                    found = info_attr.data@;
                }
            }
            i += 1;
        }
        at
    }

    /// Takes what is particular to the record's kind from `data`, the run
    /// of attributes that belongs to the kind.
    fn read_kind_data(&mut self, data: &[u8]) -> (r: Result<(), NetlinkError>)
        ensures
            match r {
                Ok(()) => old(self)@.with_kind_data(data@) == Ok::<LinkView, NetlinkError>(
                    final(self)@,
                ),
                Err(e) => old(self)@.with_kind_data(data@) == Err::<LinkView, NetlinkError>(e),
            },
    {
        let specific = match &self.kind {
            None => {
                return Ok(());
            },
            Some(kind) => {
                let attrs = match RtAttr::from_bytes(data) {
                    Ok(attrs) => attrs,
                    Err(e) => {
                        return Err(e);
                    },
                };
                match LinkType::from_attrs(kind, &attrs) {
                    Ok(specific) => specific,
                    Err(e) => {
                        return Err(e);
                    },
                }
            },
        };
        self.specific = specific;
        Ok(())
    }

    /// Takes the link info into the record: the name of the kind, then
    /// what is particular to that kind.
    fn read_link_info(&mut self, info_attrs: &Vec<RtAttr>) -> (r: Result<(), NetlinkError>)
        ensures
            match r {
                Ok(()) => old(self)@.with_link_info(attr_views(info_attrs@)) == Ok::<
                    LinkView,
                    NetlinkError,
                >(final(self)@),
                Err(e) => old(self)@.with_link_info(attr_views(info_attrs@)) == Err::<
                    LinkView,
                    NetlinkError,
                >(e),
            },
    {
        match self.read_info(info_attrs) {
            Ok(()) => {},
            Err(e) => {
                return Err(e);
            },
        }
        match LinkMsg::find_info_data(info_attrs) {
            Some(j) => self.read_kind_data(info_attrs[j].data.as_slice()),
            None => {
                let none: Vec<u8> = Vec::new();
                self.read_kind_data(none.as_slice())
            },
        }
    }

    /// Takes one attribute of the link into the record.
    fn read_attr(&mut self, rt_attr: &RtAttr) -> (r: Result<(), NetlinkError>)
        ensures
            match r {
                Ok(()) => old(self)@.with_attr(rt_attr@) == Ok::<LinkView, NetlinkError>(
                    final(self)@,
                ),
                Err(e) => old(self)@.with_attr(rt_attr@) == Err::<LinkView, NetlinkError>(e),
            },
    {
        let typ = rt_attr.get_typ() as u32;
        if typ == uapi::IFLA_MTU {
            match rt_attr.as_u32() {
                Ok(v) => {
                    self.mtu = Some(v);
                },
                Err(e) => {
                    return Err(e);
                },
            }
        } else if typ == uapi::IFLA_IFNAME {
            match rt_attr.to_cstring() {
                Ok(text) => {
                    self.name = Some(text);
                },
                Err(e) => {
                    return Err(e);
                },
            }
        } else if typ == uapi::IFLA_TXQLEN {
            match rt_attr.as_u32() {
                Ok(v) => {
                    self.tx_q_len = Some(v);
                },
                Err(e) => {
                    return Err(e);
                },
            }
        } else if typ == uapi::IFLA_ADDRESS {
            self.hadrware_addr = Some(slice_to_vec(rt_attr.data.as_slice()));
        } else if typ == uapi::IFLA_LINK {
            match rt_attr.as_u32() {
                Ok(v) => {
                    self.parent_index = Some(v);
                },
                Err(e) => {
                    return Err(e);
                },
            }
        } else if typ == uapi::IFLA_MASTER {
            match rt_attr.as_u32() {
                Ok(v) => {
                    self.master_index = Some(v);
                },
                Err(e) => {
                    return Err(e);
                },
            }
        } else if typ == uapi::IFLA_IFALIAS {
            match rt_attr.to_cstring() {
                Ok(text) => {
                    self.alias = Some(text);
                },
                Err(e) => {
                    return Err(e);
                },
            }
        } else if typ == uapi::IFLA_LINKINFO {
            // LINKINFO is just a nested list of more attributes
            let info_attrs = match RtAttr::from_bytes(rt_attr.data.as_slice()) {
                Ok(info_attrs) => info_attrs,
                Err(e) => {
                    return Err(e);
                },
            };
            return self.read_link_info(&info_attrs);
        }
        Ok(())
    }

    /// Builds a link record from the sub-header and the attributes of a
    /// link message.
    pub fn from_attrs(info: &IfInfoMsg, rt_attrs: &Vec<RtAttr>) -> (r: Result<
        LinkMsg,
        NetlinkError,
    >)
        ensures
            match r {
                Ok(link) => LinkView::from_attrs(*info, attr_views(rt_attrs@)) == Ok::<
                    LinkView,
                    NetlinkError,
                >(link@),
                Err(e) => LinkView::from_attrs(*info, attr_views(rt_attrs@)) == Err::<
                    LinkView,
                    NetlinkError,
                >(e),
            },
    {
        let mut out = LinkMsg::default();
        out.index = info.index;
        out.flags = IfFlags::from_bits_truncate(info.flags);
        out.flags_change = IfFlags::empty();
        let ghost all = attr_views(rt_attrs@);
        let ghost start = out@;
        let mut i: usize = 0;
        assert(all.skip(0) =~= all);
        while i < rt_attrs.len()
            invariant
                i <= rt_attrs@.len(),
                all == attr_views(rt_attrs@),
                start == LinkView::of_header(*info),
                start.with_attrs(all) == out@.with_attrs(all.skip(i as int)),
            decreases rt_attrs@.len() - i,
        {
            let rt_attr = &rt_attrs[i];
            assert(all.skip(i as int)[0] == rt_attr@);
            assert(all.skip(i as int).drop_first() =~= all.skip(i + 1));
            match out.read_attr(rt_attr) {
                Ok(()) => {},
                Err(e) => {
                    return Err(e);
                },
            }
            i += 1;
        }
        Ok(out)
    }
}

/// The message that asks about links: a request of type `RTM_GETLINK`
/// with the flags `flags`, whose payload is a sub-header that names the
/// link `index` and nothing else.
pub open spec fn link_request(flags: u16, index: i32) -> MessageView {
    MessageView {
        header: crate::proto::NetlinkHeader { len: 32, typ: 18, flags, seq: 0, pid: 0 },
        data: (IfInfoMsg { family: 0, _pad: 0, typ: 0, index, flags: 0, change: 0 }).wire_in(
            endianness(),
        ),
    }
}

/// Builds the request about link `index` with the flags `flags`.
fn build_link_request(flags: u16, index: i32) -> (req: NetlinkMessage)
    ensures
        req@ == link_request(flags, index),
        req@.consistent(),
{
    let mut req = NetlinkMessage::new(uapi::RTM_GETLINK as u16, flags);
    let msg = IfInfoMsg {
        family: uapi::AF_UNSPEC as u8,
        _pad: 0,
        typ: 0,
        index: index,
        flags: 0,
        change: 0,
    };
    let bytes = msg.to_bytes();
    proof {
        crate::type_route::ifinfo::lemma_ifinfo_round_trip(endianness(), msg, Seq::empty());
        crate::util::lemma_align_up(16);
    }
    req.add_data(bytes);
    assert(req.data@ =~= msg.wire_in(endianness()));
    req
}

/// The request that asks the kernel for every link: a dump.
pub fn link_list_request() -> (req: NetlinkMessage)
    ensures
        req@ == link_request(0x301, 0),
        req@.consistent(),
{
    assert(0x300u32 | 0x1u32 == 0x301u32) by (bit_vector);
    build_link_request((uapi::NLM_F_DUMP | uapi::NLM_F_REQUEST) as u16, 0)
}

/// The request that asks the kernel for the link with index `idx` and for
/// an acknowledgment.
pub fn link_get_request(idx: i32) -> (req: NetlinkMessage)
    ensures
        req@ == link_request(0x5, idx),
        req@.consistent(),
{
    assert(0x4u32 | 0x1u32 == 0x5u32) by (bit_vector);
    build_link_request((uapi::NLM_F_ACK | uapi::NLM_F_REQUEST) as u16, idx)
}

/// Reads the links that the answer to a dump holds, one from each message
/// and in their order.
pub fn links_from_responses(resp: &Vec<NetlinkMessage>) -> (r: Result<Vec<LinkMsg>, NetlinkError>)
    ensures
        match r {
            Ok(links) => LinkView::from_messages(message_views(resp@)) == Ok::<
                Seq<LinkView>,
                NetlinkError,
            >(link_views(links@)),
            Err(e) => LinkView::from_messages(message_views(resp@)) == Err::<
                Seq<LinkView>,
                NetlinkError,
            >(e),
        },
{
    let ghost all = message_views(resp@);
    let mut out: Vec<LinkMsg> = Vec::new();
    let mut i: usize = 0;
    assert(all.skip(0) =~= all);
    assert(link_views(out@) =~= Seq::empty());
    while i < resp.len()
        invariant
            i <= resp@.len(),
            all == message_views(resp@),
            LinkView::from_messages(all) == prepend_links(
                link_views(out@),
                LinkView::from_messages(all.skip(i as int)),
            ),
        decreases resp@.len() - i,
    {
        let nlmsg = &resp[i];
        let ghost before = link_views(out@);
        assert(all.skip(i as int)[0] == nlmsg@);
        assert(all.skip(i as int).drop_first() =~= all.skip(i + 1));
        let link = match LinkMsg::from_message(nlmsg) {
            Ok(link) => link,
            Err(e) => {
                return Err(e);
            },
        };
        proof {
            assert(link_views(out@.push(link)) =~= before + seq![link@]);
            match LinkView::from_messages(all.skip(i + 1)) {
                Ok(more) => {
                    assert(before + (seq![link@] + more) =~= (before + seq![link@]) + more);
                },
                Err(_) => {},
            }
        }
        out.push(link);
        i += 1;
    }
    assert(link_views(out@) + Seq::<LinkView>::empty() =~= link_views(out@));
    Ok(out)
}

/// `found` put in front of what the rest of the messages give.
pub open spec fn prepend_links(
    found: Seq<LinkView>,
    rest: Result<Seq<LinkView>, NetlinkError>,
) -> Result<Seq<LinkView>, NetlinkError> {
    match rest {
        Err(e) => Err(e),
        Ok(more) => Ok(found + more),
    }
}

/// Reads the one link that the answer to a request for one link holds.
pub fn link_from_responses(resp: &Vec<NetlinkMessage>) -> (r: Result<LinkMsg, NetlinkError>)
    ensures
        match r {
            Ok(link) => LinkView::from_single(message_views(resp@)) == Ok::<
                LinkView,
                NetlinkError,
            >(link@),
            Err(e) => LinkView::from_single(message_views(resp@)) == Err::<LinkView, NetlinkError>(
                e,
            ),
        },
{
    if resp.len() == 0 {
        Err(NetlinkError::NotFound)
    } else if resp.len() == 1 {
        LinkMsg::from_message(&resp[0])
    } else {
        Err(NetlinkError::Ambiguous)
    }
}

} // verus!
