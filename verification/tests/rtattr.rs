use netlink::error::NetlinkError;
use netlink::type_route::rtattr::RtAttrHeader;
use netlink::type_route::RtAttr;
use netlink::Serializable;

#[test]
fn test_rtattr() {
    let mut ra = RtAttr::new(1, vec![]);

    assert_eq!(ra.header.typ, 1);
    assert_eq!(ra.header.len, 0x4);

    // Add some data
    let v = vec![0x12, 0x34, 0x56, 0x78];
    ra.add_data(&v);
    assert_eq!(ra.header.len, 0x8);
    assert_eq!(ra.header.data_size(), 4);
    let d = ra.as_u32();
    assert_eq!(d.is_ok(), true);
    let big = u16::from_ne_bytes([0, 1]) == 1;
    assert_eq!(d.unwrap(), if big { 0x12345678 } else { 0x78563412 });

    // Add some unaligned data
    let v = vec![1, 2, 3, 4, 5, 6];
    ra.add_data(&v);
    assert_eq!(ra.header.len, 0x10);

    let v = vec![7, 8, 9];
    ra.add_data(&v);

    assert_eq!(
        ra.to_bytes(),
        vec![
            0x14, 0, //len
            1, 0, //typ
            0x12, 0x34, 0x56, 0x78, 1, 2, 3, 4, 5, 6, 0, 0, 7, 8, 9, 0,
        ]
    );
}

fn attr_bytes(len: u16, typ: u16, value: &[u8]) -> Vec<u8> {
    let mut b = Vec::new();
    b.extend_from_slice(&len.to_ne_bytes());
    b.extend_from_slice(&typ.to_ne_bytes());
    b.extend_from_slice(value);
    b
}

#[test]
fn attr_header_sizes() {
    assert_eq!(RtAttrHeader::size(), 4);
    assert_eq!(RtAttrHeader { len: 4, typ: 0 }.data_size(), 0);
    assert_eq!(RtAttrHeader { len: 11, typ: 0 }.data_size(), 7);
    assert_eq!(RtAttrHeader { len: 65535, typ: 0 }.data_size(), 65531);
}

#[test]
fn attr_header_decode() {
    let b = attr_bytes(0x1234, 0xabcd, &[9]);
    assert_eq!(
        RtAttrHeader::from_bytes(&b),
        Ok(RtAttrHeader {
            len: 0x1234,
            typ: 0xabcd
        })
    );
    assert_eq!(RtAttrHeader::from_bytes(&b[..3]), Err(NetlinkError::Truncated));
}

#[test]
fn new_attr_counts_header_and_value() {
    let a = RtAttr::new(7, vec![1, 2, 3]);
    assert_eq!(a.header.len, 7);
    assert_eq!(a.header.typ, 7);
    assert_eq!(a.get_typ(), 7);
    assert_eq!(a.data, vec![1, 2, 3]);
    let largest = RtAttr::new(1, vec![0; 65531]);
    assert_eq!(largest.header.len, 65535);
}

#[test]
fn serialized_attr_is_padded_but_its_length_is_not() {
    let a = RtAttr::new(3, vec![0x65, 0x74, 0x68, 0x30, 0]);
    assert_eq!(a.header.len, 9);
    let b = a.to_bytes();
    let mut want = attr_bytes(9, 3, &[0x65, 0x74, 0x68, 0x30, 0]);
    want.extend_from_slice(&[0, 0, 0]);
    assert_eq!(b, want);
    assert_eq!(b.len(), 12);

    let aligned = RtAttr::new(4, vec![1, 2, 3, 4]);
    assert_eq!(aligned.to_bytes(), attr_bytes(8, 4, &[1, 2, 3, 4]));
    let bare = RtAttr::new(5, vec![]);
    assert_eq!(bare.to_bytes(), attr_bytes(4, 5, &[]));
}

#[test]
fn attr_round_trip_through_bytes() {
    let a = RtAttr::new(0x0102, vec![9, 8, 7]);
    let b = a.to_bytes();
    let back = RtAttr::from_bytes(&b).unwrap();
    assert_eq!(back.len(), 1);
    assert_eq!(back[0].header, a.header);
    assert_eq!(back[0].data, vec![9, 8, 7]);
}

#[test]
fn appended_lengths_and_padding() {
    let mut ra = RtAttr::new(1, vec![]);
    ra.add_data(&vec![0xa, 0xb, 0xc, 0xd]);
    assert_eq!(ra.header.len, 8);
    assert_eq!(ra.data, vec![0xa, 0xb, 0xc, 0xd]);
    ra.add_data(&vec![1, 2, 3, 4, 5, 6]);
    assert_eq!(ra.header.len, 16);
    assert_eq!(ra.data, vec![0xa, 0xb, 0xc, 0xd, 1, 2, 3, 4, 5, 6, 0, 0]);
    ra.add_data(&vec![7, 8, 9]);
    assert_eq!(ra.header.len, 20);
    let b = ra.to_bytes();
    assert_eq!(b.len(), 20);
    assert_eq!(
        b,
        attr_bytes(20, 1, &[0xa, 0xb, 0xc, 0xd, 1, 2, 3, 4, 5, 6, 0, 0, 7, 8, 9, 0])
    );
}

#[test]
fn attr_nested_in_attr() {
    let inner = RtAttr::new(1, vec![0x76, 0x6c, 0x61, 0x6e, 0]);
    let mut outer = RtAttr::new(18, vec![]);
    outer.add_data(&inner);
    assert_eq!(outer.header.len, 16);
    let got = RtAttr::from_bytes(&outer.data).unwrap();
    assert_eq!(got.len(), 1);
    assert_eq!(got[0].get_typ(), 1);
    assert_eq!(got[0].header.len, 9);
    assert_eq!(got[0].data, vec![0x76, 0x6c, 0x61, 0x6e, 0]);
}

#[test]
fn typed_values() {
    let a = RtAttr::new(4, 1500u32.to_ne_bytes().to_vec());
    assert_eq!(a.as_u32(), Ok(1500));
    let long = RtAttr::new(4, {
        let mut v = 0xdead_beefu32.to_ne_bytes().to_vec();
        v.extend_from_slice(&[1, 2]);
        v
    });
    assert_eq!(long.as_u32(), Ok(0xdead_beef));
    let id = RtAttr::new(1, 0x0fa1u16.to_ne_bytes().to_vec());
    assert_eq!(id.as_u16(), Ok(0x0fa1));
    assert_eq!(RtAttr::new(7, vec![1]).as_bool(), Ok(true));
    assert_eq!(RtAttr::new(7, vec![0]).as_bool(), Ok(false));
    assert_eq!(RtAttr::new(7, vec![2]).as_bool(), Ok(false));
    assert_eq!(RtAttr::new(7, vec![1, 0]).as_bool(), Ok(true));
}

#[test]
fn short_values_are_invalid() {
    assert_eq!(RtAttr::new(4, vec![1, 2, 3]).as_u32(), Err(NetlinkError::InvalidData));
    assert_eq!(RtAttr::new(4, vec![]).as_u32(), Err(NetlinkError::InvalidData));
    assert_eq!(RtAttr::new(1, vec![1]).as_u16(), Err(NetlinkError::InvalidData));
    assert_eq!(RtAttr::new(1, vec![]).as_u16(), Err(NetlinkError::InvalidData));
    assert_eq!(RtAttr::new(7, vec![]).as_bool(), Err(NetlinkError::InvalidData));
}

#[test]
fn text_values() {
    let name = RtAttr::new(3, vec![0x6c, 0x6f, 0]);
    assert_eq!(name.to_cstring(), Ok(vec![0x6c, 0x6f]));
    let empty = RtAttr::new(3, vec![0]);
    assert_eq!(empty.to_cstring(), Ok(vec![]));
}

#[test]
fn text_without_its_terminator_is_invalid() {
    assert_eq!(
        RtAttr::new(3, vec![0x6c, 0x6f]).to_cstring(),
        Err(NetlinkError::InvalidData)
    );
    assert_eq!(RtAttr::new(3, vec![]).to_cstring(), Err(NetlinkError::InvalidData));
    // a terminator before the end
    assert_eq!(
        RtAttr::new(3, vec![0x6c, 0, 0x6f, 0]).to_cstring(),
        Err(NetlinkError::InvalidData)
    );
    assert_eq!(
        RtAttr::new(3, vec![0, 0]).to_cstring(),
        Err(NetlinkError::InvalidData)
    );
}

#[test]
fn one_attr_at_an_offset() {
    let mut buf = vec![0xff; 4];
    buf.extend_from_slice(&attr_bytes(6, 9, &[1, 2]));
    let a = RtAttr::one_from_bytes(&buf, 4).unwrap();
    assert_eq!(a.header, RtAttrHeader { len: 6, typ: 9 });
    assert_eq!(a.data, vec![1, 2]);
}

#[test]
fn siblings_are_found_after_the_padding() {
    let mut buf = attr_bytes(5, 1, &[0xaa]);
    buf.extend_from_slice(&[0, 0, 0]);
    buf.extend_from_slice(&attr_bytes(8, 2, &[1, 2, 3, 4]));
    buf.extend_from_slice(&attr_bytes(6, 3, &[5, 6]));
    let attrs = RtAttr::from_bytes(&buf).unwrap();
    assert_eq!(attrs.len(), 3);
    assert_eq!(attrs[0].header, RtAttrHeader { len: 5, typ: 1 });
    assert_eq!(attrs[0].data, vec![0xaa]);
    assert_eq!(attrs[1].header, RtAttrHeader { len: 8, typ: 2 });
    assert_eq!(attrs[1].data, vec![1, 2, 3, 4]);
    assert_eq!(attrs[2].header, RtAttrHeader { len: 6, typ: 3 });
    assert_eq!(attrs[2].data, vec![5, 6]);
}

#[test]
fn empty_buffer_holds_no_attr() {
    assert!(RtAttr::from_bytes(&[]).unwrap().is_empty());
}

#[test]
fn attr_shorter_than_its_header_is_truncated() {
    let b = attr_bytes(4, 1, &[]);
    assert_eq!(
        RtAttr::one_from_bytes(&b[..3], 0).unwrap_err(),
        NetlinkError::Truncated
    );
    assert_eq!(RtAttr::one_from_bytes(&b, 1).unwrap_err(), NetlinkError::Truncated);
    assert_eq!(RtAttr::one_from_bytes(&b, 9).unwrap_err(), NetlinkError::Truncated);
    assert_eq!(RtAttr::from_bytes(&b[..2]).unwrap_err(), NetlinkError::Truncated);
}

#[test]
fn attr_shorter_than_declared_length_is_truncated() {
    let b = attr_bytes(8, 1, &[1, 2, 3]);
    assert_eq!(RtAttr::one_from_bytes(&b, 0).unwrap_err(), NetlinkError::Truncated);
    assert_eq!(RtAttr::from_bytes(&b).unwrap_err(), NetlinkError::Truncated);
    // the padding after the last value may be missing
    let unpadded = attr_bytes(7, 1, &[1, 2, 3]);
    assert_eq!(RtAttr::from_bytes(&unpadded).unwrap().len(), 1);
}

#[test]
fn attr_length_below_header_is_invalid() {
    let b = attr_bytes(3, 1, &[]);
    assert_eq!(RtAttr::one_from_bytes(&b, 0).unwrap_err(), NetlinkError::InvalidData);
    let zero = attr_bytes(0, 1, &[1, 2, 3, 4]);
    assert_eq!(RtAttr::from_bytes(&zero).unwrap_err(), NetlinkError::InvalidData);
}
