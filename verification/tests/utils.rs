use io_buffer::{is_all_zero, rand_buffer, safe_copy, set_zero};

#[test]
fn test_safe_copy() {
    let buf1: [u8; 10] = [0; 10];
    let mut buf2: [u8; 10] = [1; 10];
    let mut buf3: [u8; 10] = [2; 10];
    let zero: usize = 0;
    // dst zero size copy should be protected
    assert_eq!(0, safe_copy(&mut buf2[0..zero], &buf3));
    assert_eq!(&buf2, &[1; 10]);
    assert_eq!(0, safe_copy(&mut buf2[10..], &buf3));
    assert_eq!(&buf2, &[1; 10]);

    assert_eq!(10, safe_copy(&mut buf2, &buf1));
    assert_eq!(buf1, buf2);
    assert_eq!(5, safe_copy(&mut buf2[5..], &buf3));
    assert_eq!(buf1[0..5], buf2[0..5]);
    assert_eq!(buf2[5..], buf3[5..]);
    assert_eq!(5, safe_copy(&mut buf3[0..5], &buf1));
    assert_eq!(buf2, buf3);
}

#[test]
fn test_rand_buffer() {
    let mut buf1: [u8; 10] = [0; 10];
    let mut buf2: [u8; 10] = [0; 10];
    rand_buffer(&mut buf1);
    rand_buffer(&mut buf2);
    assert!(md5::compute(&buf1) != md5::compute(&buf2));
}

#[test]
fn test_set_zero() {
    let mut buf1: [u8; 10] = [1; 10];
    set_zero(&mut buf1);
    for i in &buf1 {
        assert_eq!(*i, 0)
    }
}

#[test]
fn safe_copy_longer_source_fills_destination() {
    let src: [u8; 6] = [1, 2, 3, 4, 5, 6];
    let mut dst: [u8; 4] = [9; 4];
    assert_eq!(4, safe_copy(&mut dst, &src));
    assert_eq!(dst, [1, 2, 3, 4]);
}

#[test]
fn safe_copy_shorter_source_leaves_tail() {
    let src: [u8; 2] = [7, 8];
    let mut dst: [u8; 5] = [1, 2, 3, 4, 5];
    assert_eq!(2, safe_copy(&mut dst, &src));
    assert_eq!(dst, [7, 8, 3, 4, 5]);
}

#[test]
fn safe_copy_empty_source_changes_nothing() {
    let src: [u8; 0] = [];
    let mut dst: [u8; 3] = [1, 2, 3];
    assert_eq!(0, safe_copy(&mut dst, &src));
    assert_eq!(dst, [1, 2, 3]);
}

#[test]
fn set_zero_on_empty_slice() {
    let mut empty: [u8; 0] = [];
    set_zero(&mut empty);
    assert!(is_all_zero(&empty));
}

#[test]
fn is_all_zero_finds_a_set_byte() {
    assert!(is_all_zero(&[0u8; 32]));
    let mut bytes = [0u8; 32];
    bytes[31] = 1;
    assert!(!is_all_zero(&bytes));
    bytes[31] = 0;
    bytes[0] = 0x80;
    assert!(!is_all_zero(&bytes));
}

#[test]
fn rand_buffer_writes_letters_and_digits_only() {
    let mut bytes = [0u8; 4096];
    rand_buffer(&mut bytes);
    for b in bytes.iter() {
        assert!(b.is_ascii_alphanumeric());
    }
    let first = bytes[0];
    assert!(bytes.iter().any(|b| *b != first));
}
