use librados::utils::{
    c_char_ptr_to_string, encode_name, push_decimal, push_signed_decimal, truncate_to,
};

#[test]
fn names_are_encoded_with_a_terminator() {
    assert_eq!(encode_name("obj1"), Ok(b"obj1\0".to_vec()));
    assert_eq!(encode_name(""), Ok(vec![0]));
    assert_eq!(encode_name("\u{e9}t\u{e9}"), Ok(vec![0xc3, 0xa9, b't', 0xc3, 0xa9, 0]));
}

#[test]
fn names_with_a_zero_byte_are_refused_at_its_offset() {
    assert_eq!(encode_name("\0"), Err(0));
    assert_eq!(encode_name("ab\0cd\0"), Err(2));
    assert_eq!(encode_name("\u{e9}\0"), Err(2));
}

#[test]
fn native_strings_are_read_leniently() {
    assert_eq!(c_char_ptr_to_string(b"entry"), "entry");
    assert_eq!(c_char_ptr_to_string("\u{4e16}\u{754c}".as_bytes()), "\u{4e16}\u{754c}");
    assert_eq!(c_char_ptr_to_string(b""), "");
    assert_eq!(c_char_ptr_to_string(&[b'a', 0xff]), "a\u{fffd}");
    assert_eq!(c_char_ptr_to_string(&[0xc3]), "\u{fffd}");
    assert_eq!(c_char_ptr_to_string(&[0xff, b'a', 0xe2, 0x82, b'b']), "\u{fffd}a\u{fffd}b");
}

#[test]
fn buffers_are_cut_to_the_reported_length() {
    assert_eq!(truncate_to(&[1u8, 2, 3, 4], 2), vec![1, 2]);
    assert_eq!(truncate_to(&[1u8, 2, 3, 4], 0), Vec::<u8>::new());
    assert_eq!(truncate_to(&[1u8, 2, 3, 4], 4), vec![1, 2, 3, 4]);
    assert_eq!(truncate_to(&[1u8, 2, 3, 4], 9), vec![1, 2, 3, 4]);
    assert_eq!(truncate_to(&[7u64, 8], 1), vec![7]);
}

#[test]
fn numbers_are_written_in_decimal() {
    let mut text = String::from("n=");
    push_decimal(&mut text, 0);
    assert_eq!(text, "n=0");
    push_decimal(&mut text, 9);
    push_decimal(&mut text, 10);
    push_decimal(&mut text, 4096);
    assert_eq!(text, "n=09104096");
    let mut text = String::new();
    push_decimal(&mut text, usize::MAX);
    assert_eq!(text, usize::MAX.to_string());
    for n in [-1isize, -34, 0, 7, isize::MAX, isize::MIN, -1000] {
        let mut text = String::new();
        push_signed_decimal(&mut text, n);
        assert_eq!(text, n.to_string());
    }
}
