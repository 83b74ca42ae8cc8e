use netlink::util::{align, align_within};
use netlink::wire::{i32_from_bits, i32_to_bits};

#[test]
fn align_rounds_up_to_four() {
    assert_eq!(align(0), 0);
    assert_eq!(align(1), 4);
    assert_eq!(align(2), 4);
    assert_eq!(align(3), 4);
    assert_eq!(align(4), 4);
    assert_eq!(align(5), 8);
    assert_eq!(align(17), 20);
    assert_eq!(align(65536), 65536);
    assert_eq!(align(usize::MAX - 3), usize::MAX - 3);
}

#[test]
fn align_properties_on_a_range() {
    let mut n: usize = 0;
    while n < 300 {
        let a = align(n);
        assert!(a >= n);
        assert!(a < n + 4);
        assert_eq!(a % 4, 0);
        assert_eq!(align(a), a);
        n += 1;
    }
}

#[test]
fn align_within_stops_at_the_limit() {
    assert_eq!(align_within(0, 0), 0);
    assert_eq!(align_within(4, 100), 4);
    assert_eq!(align_within(5, 100), 8);
    assert_eq!(align_within(5, 8), 8);
    assert_eq!(align_within(5, 7), 7);
    assert_eq!(align_within(5, 5), 5);
    assert_eq!(align_within(usize::MAX, usize::MAX), usize::MAX);
    assert_eq!(align_within(usize::MAX - 2, usize::MAX), usize::MAX);
}

#[test]
fn signed_and_unsigned_bits() {
    assert_eq!(i32_from_bits(0), 0);
    assert_eq!(i32_from_bits(5), 5);
    assert_eq!(i32_from_bits(0x7fff_ffff), i32::MAX);
    assert_eq!(i32_from_bits(0x8000_0000), i32::MIN);
    assert_eq!(i32_from_bits(0xffff_fffe), -2);
    assert_eq!(i32_to_bits(0), 0);
    assert_eq!(i32_to_bits(-1), 0xffff_ffff);
    assert_eq!(i32_to_bits(i32::MIN), 0x8000_0000);
    assert_eq!(i32_to_bits(i32::MAX), 0x7fff_ffff);
    assert_eq!(i32_to_bits(-19), (-19i32) as u32);
}
