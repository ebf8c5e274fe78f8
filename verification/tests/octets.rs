use flowtable::mask::prefix_mask;
use flowtable::octets::{as_br, as_u32_be};

#[test]
fn joins_octets_most_significant_first() {
    assert_eq!(as_u32_be(&[1, 2, 3, 4]), 0x0102_0304);
    assert_eq!(as_u32_be(&[0, 0, 0, 0]), 0);
    assert_eq!(as_u32_be(&[255, 255, 255, 255]), u32::MAX);
    assert_eq!(as_u32_be(&[192, 168, 12, 34]), 3_232_238_626);
    assert_eq!(as_u32_be(&[0, 0, 0, 1]), 1);
    assert_eq!(as_u32_be(&[1, 0, 0, 0]), 16_777_216);
}

#[test]
fn splits_address_most_significant_first() {
    assert_eq!(as_br(0x0102_0304), [1, 2, 3, 4]);
    assert_eq!(as_br(0), [0, 0, 0, 0]);
    assert_eq!(as_br(u32::MAX), [255, 255, 255, 255]);
    assert_eq!(as_br(3_232_238_626), [192, 168, 12, 34]);
    assert_eq!(as_br(256), [0, 0, 1, 0]);
}

#[test]
fn split_agrees_with_std_and_round_trips() {
    for x in [0u32, 1, 255, 256, 65_535, 65_536, 0x7fff_ffff, 0x8000_0000, 0xdead_beef, u32::MAX] {
        assert_eq!(as_br(x), x.to_be_bytes());
        assert_eq!(as_u32_be(&as_br(x)), x);
    }
    for octets in [[10u8, 1, 0, 200], [0, 255, 0, 255], [127, 0, 0, 1]] {
        assert_eq!(as_br(as_u32_be(&octets)), octets);
    }
}

#[test]
fn masks_of_prefix_lengths() {
    assert_eq!(prefix_mask(0), 0);
    assert_eq!(prefix_mask(1), 0x8000_0000);
    assert_eq!(prefix_mask(8), 0xff00_0000);
    assert_eq!(prefix_mask(20), 0xffff_f000);
    assert_eq!(prefix_mask(23), 0xffff_fe00);
    assert_eq!(prefix_mask(24), 0xffff_ff00);
    assert_eq!(prefix_mask(25), 0xffff_ff80);
    assert_eq!(prefix_mask(31), 0xffff_fffe);
    assert_eq!(prefix_mask(32), 0xffff_ffff);
    assert_eq!(prefix_mask(33), 0xffff_ffff);
    assert_eq!(prefix_mask(255), 0xffff_ffff);
}

#[test]
fn masks_grow_with_the_prefix_length() {
    for len in 0u8..32 {
        assert!(prefix_mask(len) < prefix_mask(len + 1));
        assert_eq!(prefix_mask(len).count_ones(), len as u32);
    }
}
