use netlink::error::NetlinkError;
use netlink::type_route::IfInfoMsg;
use netlink::Serializable;

#[test]
fn ifinfo_test_from_bytes() {
    let b = vec![
        1, // family
        0, //padding
        2, 0, //typ
        3, 0, 0, 0, //index
        4, 0, 0, 0, //flags
        5, 0, 0, 0, // change
        1, 2, 3, 4, // extra junk
    ];

    let msg = IfInfoMsg::from_bytes(&b).unwrap();
    assert_eq!(
        msg,
        IfInfoMsg {
            family: 1,
            typ: 2,
            index: 3,
            flags: 4,
            change: 5,
            ..Default::default()
        }
    );
}

#[test]
fn ifinfo_size_is_sixteen() {
    assert_eq!(IfInfoMsg::size(), 16);
}

#[test]
fn ifinfo_default_is_all_zero() {
    let m = IfInfoMsg::default();
    assert_eq!(m.family, 0);
    assert_eq!(m._pad, 0);
    assert_eq!(m.typ, 0);
    assert_eq!(m.index, 0);
    assert_eq!(m.flags, 0);
    assert_eq!(m.change, 0);
}

#[test]
fn ifinfo_round_trip_with_negative_index() {
    let m = IfInfoMsg {
        family: 17,
        _pad: 0x5a,
        typ: 0x0304,
        index: -2,
        flags: 0x1_1043,
        change: 0xffff_ffff,
    };
    let b = m.to_bytes();
    let mut want = vec![17, 0x5a];
    want.extend_from_slice(&0x0304u16.to_ne_bytes());
    want.extend_from_slice(&(-2i32).to_ne_bytes());
    want.extend_from_slice(&0x1_1043u32.to_ne_bytes());
    want.extend_from_slice(&0xffff_ffffu32.to_ne_bytes());
    assert_eq!(b, want);
    let back = IfInfoMsg::from_bytes(&b).unwrap();
    assert_eq!(back, m);
    assert_eq!(back._pad, 0x5a);
    assert_eq!(back.index, -2);
}

#[test]
fn ifinfo_index_extremes() {
    for index in [i32::MIN, -1, 0, 1, i32::MAX] {
        let m = IfInfoMsg {
            index,
            ..Default::default()
        };
        let b = m.to_bytes();
        assert_eq!(b[4..8], index.to_ne_bytes());
        assert_eq!(IfInfoMsg::from_bytes(&b).unwrap().index, index);
    }
}

#[test]
fn ifinfo_short_buffer_is_truncated() {
    let b = IfInfoMsg::default().to_bytes();
    assert_eq!(b.len(), 16);
    assert_eq!(IfInfoMsg::from_bytes(&b[..15]), Err(NetlinkError::Truncated));
    assert_eq!(IfInfoMsg::from_bytes(&[]), Err(NetlinkError::Truncated));
}

#[test]
fn ifinfo_equality_leaves_padding_out() {
    let a = IfInfoMsg {
        family: 1,
        _pad: 0,
        typ: 2,
        index: 3,
        flags: 4,
        change: 5,
    };
    let b = IfInfoMsg { _pad: 9, ..a };
    assert_eq!(a, b);
    assert_ne!(a, IfInfoMsg { family: 2, ..a });
    assert_ne!(a, IfInfoMsg { typ: 3, ..a });
    assert_ne!(a, IfInfoMsg { index: 4, ..a });
    assert_ne!(a, IfInfoMsg { flags: 5, ..a });
    assert_ne!(a, IfInfoMsg { change: 6, ..a });
}
