use roster::frame::write::{write_decimal, write_frame, write_value};
use roster::frame::{Cursor, Frame};

fn encode(frame: &Frame) -> Vec<u8> {
    let mut out = Vec::new();
    write_frame(&mut out, frame);
    out
}

fn round_trip(frame: Frame) {
    let bytes = encode(&frame);
    let mut cursor = Cursor::new(&bytes);
    assert_eq!(Frame::check(&mut cursor), Ok(()));
    assert_eq!(cursor.position(), bytes.len());
    let mut cursor = Cursor::new(&bytes);
    assert_eq!(Frame::parse(&mut cursor), Ok(frame));
    assert_eq!(cursor.position(), bytes.len());
}

#[test]
fn simple_decimal_write() {
    let mut v = Vec::new();
    write_decimal(&mut v, 12);
    assert_eq!(v, b"12\r\n");
}

#[test]
fn simple_decimal_write_value_null() {
    let mut v = Vec::new();
    write_value(&mut v, &Frame::Null);
    assert_eq!(String::from_utf8(v).unwrap(), "$-1\r\n");
}

#[test]
fn simple_decimal_write_value_string() {
    let mut v = Vec::new();
    let frame = Frame::Simple(b"blblblbl".to_vec());
    write_value(&mut v, &frame);
    assert_eq!(String::from_utf8(v).unwrap(), "+blblblbl\r\n");
}

#[test]
fn simple_decimal_write_value_int() {
    let mut v = Vec::new();
    let frame = Frame::Integer(123456);
    write_value(&mut v, &frame);
    assert_eq!(String::from_utf8(v).unwrap(), ":123456\r\n");
}

#[test]
fn simple_decimal_write_value_err() {
    let mut v = Vec::new();
    let frame = Frame::Error(b"blblblbl".to_vec());
    write_value(&mut v, &frame);
    assert_eq!(String::from_utf8(v).unwrap(), "-blblblbl\r\n");
}

#[test]
fn simple_decimal_write_value_hashmap() {
    let mut v = Vec::new();
    let frame = Frame::Mapping(vec![
        (Frame::Simple(b"first".to_vec()), Frame::Integer(1)),
        (Frame::Simple(b"second".to_vec()), Frame::Integer(2)),
    ]);
    write_frame(&mut v, &frame);
    let possible_1 = String::from_utf8_lossy(b"%2\r\n+first\r\n:1\r\n+second\r\n:2\r\n");
    let possible_2 = String::from_utf8_lossy(b"%2\r\n+second\r\n:2\r\n+first\r\n:1\r\n");
    let result = String::from_utf8(v).unwrap();
    assert!(result == possible_1 || result == possible_2);
}

#[test]
fn map_entries_are_written_in_their_order() {
    let frame = Frame::Mapping(vec![
        (Frame::Simple(b"second".to_vec()), Frame::Integer(2)),
        (Frame::Simple(b"first".to_vec()), Frame::Integer(1)),
    ]);
    assert_eq!(encode(&frame), b"%2\r\n+second\r\n:2\r\n+first\r\n:1\r\n");
}

#[test]
fn write_decimal_of_edge_values() {
    let mut v = Vec::new();
    write_decimal(&mut v, 0);
    assert_eq!(v, b"0\r\n");
    let mut v = Vec::new();
    write_decimal(&mut v, 9);
    write_decimal(&mut v, 10);
    assert_eq!(v, b"9\r\n10\r\n");
    let mut v = Vec::new();
    write_decimal(&mut v, u64::MAX);
    assert_eq!(v, b"18446744073709551615\r\n");
}

#[test]
fn writing_appends_to_what_the_buffer_holds() {
    let mut v = b"+OK\r\n".to_vec();
    write_value(&mut v, &Frame::Integer(5));
    write_frame(&mut v, &Frame::Null);
    assert_eq!(v, b"+OK\r\n:5\r\n$-1\r\n");
}

#[test]
fn write_bulk_and_array() {
    assert_eq!(encode(&Frame::Bulk(b"hello".to_vec())), b"$5\r\nhello\r\n");
    assert_eq!(encode(&Frame::Bulk(Vec::new())), b"$0\r\n\r\n");
    assert_eq!(encode(&Frame::Array(Vec::new())), b"*0\r\n");
    assert_eq!(
        encode(&Frame::Array(vec![
            Frame::Bulk(b"GET".to_vec()),
            Frame::Bulk(b"hello".to_vec())
        ])),
        b"*2\r\n$3\r\nGET\r\n$5\r\nhello\r\n"
    );
}

#[test]
fn write_value_and_write_frame_agree_on_nested_arrays() {
    let frame = Frame::Array(vec![
        Frame::Array(vec![Frame::Integer(1), Frame::Array(vec![])]),
        Frame::Mapping(vec![(Frame::Null, Frame::Array(vec![Frame::Simple(b"x".to_vec())]))]),
    ]);
    let mut by_value = Vec::new();
    write_value(&mut by_value, &frame);
    assert_eq!(encode(&frame), by_value);
    assert_eq!(by_value, b"*2\r\n*2\r\n:1\r\n*0\r\n%1\r\n$-1\r\n*1\r\n+x\r\n");
}

#[test]
fn frames_are_read_back_as_written() {
    round_trip(Frame::Simple(b"PONG".to_vec()));
    round_trip(Frame::Simple(Vec::new()));
    round_trip(Frame::Simple(b"ends with cr\r".to_vec()));
    round_trip(Frame::Error(b"ERR unknown command 'foo'".to_vec()));
    round_trip(Frame::Integer(0));
    round_trip(Frame::Integer(u64::MAX));
    round_trip(Frame::Bulk(b"with\r\ncrlf".to_vec()));
    round_trip(Frame::Bulk(Vec::new()));
    round_trip(Frame::Null);
    round_trip(Frame::Array(Vec::new()));
    round_trip(Frame::Array(vec![
        Frame::Bulk(b"SET".to_vec()),
        Frame::Bulk(b"mykey".to_vec()),
        Frame::Array(vec![Frame::Null, Frame::Integer(3)]),
    ]));
    round_trip(Frame::Mapping(vec![
        (Frame::Simple(b"proto".to_vec()), Frame::Integer(3)),
        (Frame::Simple(b"modules".to_vec()), Frame::Array(Vec::new())),
        (Frame::Simple(b"proto".to_vec()), Frame::Integer(2)),
    ]));
}

#[test]
fn text_with_crlf_inside_is_not_read_back() {
    let frame = Frame::Simple(b"a\r\nb".to_vec());
    let bytes = encode(&frame);
    assert_eq!(bytes, b"+a\r\nb\r\n");
    let mut cursor = Cursor::new(&bytes);
    assert_eq!(Frame::parse(&mut cursor), Ok(Frame::Simple(b"a".to_vec())));
    assert_eq!(cursor.position(), 4);
}
