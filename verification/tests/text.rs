use kata_linux::text::{find_char, hex_digit, parse_hex_u8, str_chars};

fn hex(s: &str) -> Option<u8> {
    let chars = str_chars(s);
    parse_hex_u8(&chars, 0, chars.len())
}

#[test]
fn hex_bytes_as_from_str_radix_reads_them() {
    for s in ["0", "00", "7f", "FF", "+1a", "0000ff", "+", "-", "-1", "", "100", "g", "1 ", "é"] {
        assert_eq!(hex(s), u8::from_str_radix(s, 16).ok(), "{:?}", s);
    }
}

#[test]
fn digits_and_search() {
    assert_eq!(hex_digit('a'), Some(10));
    assert_eq!(hex_digit('F'), Some(15));
    assert_eq!(hex_digit('x'), None);
    let chars = str_chars("ab/cd/e");
    assert_eq!(find_char(&chars, 0, chars.len(), '/'), 2);
    assert_eq!(find_char(&chars, 3, chars.len(), '/'), 5);
    assert_eq!(find_char(&chars, 6, chars.len(), '/'), 7);
    assert_eq!(str_chars("héllo").len(), 5);
}
