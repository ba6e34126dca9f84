use universe::text::{find_line, push_i64, read_i64, read_unsigned};

#[test]
fn lines_strip_newline_and_carriage_return() {
    let s = b"ab\r\ncd\ne\r";
    assert_eq!(find_line(s, 0), (2, 3));
    assert_eq!(find_line(s, 4), (6, 6));
    assert_eq!(find_line(s, 7), (9, 9));
}

#[test]
fn integers_as_parse_reads_them() {
    let t = b"-42";
    assert_eq!(read_i64(t, 0, 3), Some(-42));
    assert_eq!(read_i64(b"+42", 0, 3), Some(42));
    assert_eq!(read_i64(b"+", 0, 1), None);
    assert_eq!(read_i64(b"", 0, 0), None);
    assert_eq!(read_i64(b"0009", 0, 4), Some(9));
    assert_eq!(read_unsigned(b"65535", 0, 5, 65535), Some(65535));
    assert_eq!(read_unsigned(b"65536", 0, 5, 65535), None);
    assert_eq!(read_unsigned(b"-1", 0, 2, 65535), None);
}

#[test]
fn integers_as_to_string_writes_them() {
    for v in [0i64, 7, -7, 10, 1234567890, i64::MIN, i64::MAX] {
        let mut out = vec![];
        push_i64(&mut out, v);
        assert_eq!(out, v.to_string().into_bytes());
        assert_eq!(read_i64(&out, 0, out.len()), Some(v));
    }
}
