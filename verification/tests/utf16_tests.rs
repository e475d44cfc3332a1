use efi_pong::utf16::utf16_cstring;

#[test]
fn ascii_name_is_terminated() {
    let buf = utf16_cstring::<12>("PONG_RESULT");
    let expected: Vec<u16> = "PONG_RESULT".bytes().map(|b| b as u16).chain([0u16]).collect();
    assert_eq!(buf.to_vec(), expected);
}

#[test]
fn rest_of_buffer_is_zero() {
    let buf = utf16_cstring::<8>("ab");
    assert_eq!(buf, [0x61, 0x62, 0, 0, 0, 0, 0, 0]);
}

#[test]
fn empty_string() {
    assert_eq!(utf16_cstring::<1>(""), [0]);
}

#[test]
fn non_ascii_characters() {
    assert_eq!(utf16_cstring::<4>("é\\"), [0x00e9, 0x005c, 0, 0]);
    // a character outside the basic plane takes a surrogate pair
    assert_eq!(utf16_cstring::<4>("😀"), [0xd83d, 0xde00, 0, 0]);
    assert_eq!(utf16_cstring::<3>("\u{10ffff}"), [0xdbff, 0xdfff, 0]);
}

#[test]
fn matches_std_encoding() {
    let s = "\\vmlinuz ü 𝄞 end";
    let buf = utf16_cstring::<32>(s);
    let expected: Vec<u16> = s.encode_utf16().collect();
    assert_eq!(&buf[..expected.len()], &expected[..]);
    assert!(buf[expected.len()..].iter().all(|&u| u == 0));
}

#[test]
fn law_first_zero_is_terminator() {
    let s = "initrd=\\initrd.img";
    let buf = utf16_cstring::<32>(s);
    let n = s.encode_utf16().count();
    assert_eq!(buf.iter().position(|&u| u == 0), Some(n));
}
