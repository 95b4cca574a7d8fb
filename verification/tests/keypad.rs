use chip8::key_from_ascii;

#[test]
fn hexadecimal_digits_name_keys() {
    assert_eq!(key_from_ascii(b'0'), Some(0));
    assert_eq!(key_from_ascii(b'9'), Some(9));
    assert_eq!(key_from_ascii(b'a'), Some(10));
    assert_eq!(key_from_ascii(b'f'), Some(15));
    assert_eq!(key_from_ascii(b'A'), Some(10));
    assert_eq!(key_from_ascii(b'F'), Some(15));
}

#[test]
fn other_characters_name_no_key() {
    assert_eq!(key_from_ascii(b'g'), None);
    assert_eq!(key_from_ascii(b'G'), None);
    assert_eq!(key_from_ascii(b'/'), None);
    assert_eq!(key_from_ascii(b':'), None);
    assert_eq!(key_from_ascii(b'\n'), None);
    assert_eq!(key_from_ascii(0), None);
    assert_eq!(key_from_ascii(255), None);
}
