use ring::bignum::{add_bytes, bytes_less_than, pad_to, shift_right_one};

#[test]
fn bytes_less_than_compares_numerically() {
    assert!(bytes_less_than(&[0x00, 0xff], &[0x01, 0x00]));
    assert!(!bytes_less_than(&[0x01, 0x00], &[0x00, 0xff]));
    assert!(!bytes_less_than(&[0x12, 0x34], &[0x12, 0x34]));
    assert!(!bytes_less_than(&[], &[]));
}

#[test]
fn shift_right_one_halves() {
    assert_eq!(shift_right_one(&[0x01, 0x01]), vec![0x00, 0x80]);
    assert_eq!(shift_right_one(&[0xff, 0xff]), vec![0x7f, 0xff]);
    assert_eq!(shift_right_one(&[0x03]), vec![0x01]);
}

#[test]
fn add_bytes_carries() {
    assert_eq!(add_bytes(&[0x00, 0xff], &[0x00, 0x01]), vec![0x01, 0x00]);
    assert_eq!(add_bytes(&[0x12, 0x34], &[0x01, 0x01]), vec![0x13, 0x35]);
}

#[test]
fn pad_to_prepends_zeros() {
    assert_eq!(pad_to(4, &[0x01, 0x02]), vec![0x00, 0x00, 0x01, 0x02]);
    assert_eq!(pad_to(2, &[0x01, 0x02]), vec![0x01, 0x02]);
}
