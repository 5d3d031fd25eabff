use roster::frame::{Cursor, Error, Frame};

fn check_all(bytes: &[u8]) -> Result<usize, Error> {
    let mut cursor = Cursor::new(bytes);
    Frame::check(&mut cursor)?;
    Ok(cursor.position())
}

fn parse_all(bytes: &[u8]) -> Result<(Frame, usize), Error> {
    let mut cursor = Cursor::new(bytes);
    let frame = Frame::parse(&mut cursor)?;
    Ok((frame, cursor.position()))
}

fn protocol_error(text: &str) -> Error {
    Error::Other(text.to_string())
}

#[test]
fn test_simple_frame() {
    let test_case: Vec<&[u8]> = vec![
        b"*2\r\n$3\r\nGET\r\n$5\r\nhello\r\n",
        b"*2\r\n$4\r\nPING\r\n$5\r\nhello\r\n",
    ];

    for t in test_case {
        let mut cur = Cursor::new(t);
        assert!(Frame::check(&mut cur).is_ok());
    }
}

#[test]
fn test_map_frame() {
    let test_case: Vec<&[u8]> = vec![b"%2\r\n+first\r\n:1\r\n+second\r\n:2\r\n"];

    for t in test_case {
        let mut cur = Cursor::new(t);
        assert!(Frame::check(&mut cur).is_ok());
    }
}

#[test]
fn check_advances_past_exactly_one_frame() {
    assert_eq!(check_all(b"+OK\r\n+NEXT\r\n"), Ok(5));
    assert_eq!(check_all(b"-ERR no\r\nrest"), Ok(9));
    assert_eq!(check_all(b":1234\r\n:5\r\n"), Ok(7));
    assert_eq!(check_all(b"$5\r\nhello\r\n$1"), Ok(11));
    assert_eq!(check_all(b"$-1\r\n+x"), Ok(5));
    assert_eq!(check_all(b"*2\r\n$3\r\nGET\r\n$5\r\nhello\r\n*1"), Ok(24));
    assert_eq!(check_all(b"%1\r\n+k\r\n:7\r\n+tail\r\n"), Ok(12));
    assert_eq!(check_all(b"*0\r\n"), Ok(4));
    assert_eq!(check_all(b"$0\r\n\r\n"), Ok(6));
}

#[test]
fn parse_builds_every_kind_of_frame() {
    assert_eq!(parse_all(b"+OK\r\n"), Ok((Frame::Simple(b"OK".to_vec()), 5)));
    assert_eq!(parse_all(b"-ERR no\r\n"), Ok((Frame::Error(b"ERR no".to_vec()), 9)));
    assert_eq!(parse_all(b":1234\r\n"), Ok((Frame::Integer(1234), 7)));
    assert_eq!(parse_all(b"$5\r\nhello\r\n"), Ok((Frame::Bulk(b"hello".to_vec()), 11)));
    assert_eq!(parse_all(b"$0\r\n\r\n"), Ok((Frame::Bulk(Vec::new()), 6)));
    assert_eq!(parse_all(b"$-1\r\n"), Ok((Frame::Null, 5)));
    assert_eq!(
        parse_all(b"*2\r\n$3\r\nGET\r\n$5\r\nhello\r\n"),
        Ok((
            Frame::Array(vec![Frame::Bulk(b"GET".to_vec()), Frame::Bulk(b"hello".to_vec())]),
            24
        ))
    );
    assert_eq!(
        parse_all(b"%2\r\n+first\r\n:1\r\n+second\r\n:2\r\n"),
        Ok((
            Frame::Mapping(vec![
                (Frame::Simple(b"first".to_vec()), Frame::Integer(1)),
                (Frame::Simple(b"second".to_vec()), Frame::Integer(2)),
            ]),
            29
        ))
    );
}

#[test]
fn parse_reads_nested_arrays() {
    assert_eq!(
        parse_all(b"*2\r\n*1\r\n:1\r\n*0\r\n"),
        Ok((
            Frame::Array(vec![Frame::Array(vec![Frame::Integer(1)]), Frame::Array(vec![])]),
            16
        ))
    );
}

#[test]
fn bulk_bytes_may_hold_any_octet() {
    assert_eq!(
        parse_all(b"$4\r\n\r\n\x00\xff\r\n"),
        Ok((Frame::Bulk(vec![13, 10, 0, 255]), 10))
    );
    assert_eq!(check_all(b"$4\r\n\r\n\x00\xff\r\n"), Ok(10));
}

#[test]
fn simple_text_may_hold_a_lone_cr_or_lf() {
    assert_eq!(parse_all(b"+a\rb\nc\r\n"), Ok((Frame::Simple(b"a\rb\nc".to_vec()), 8)));
    assert_eq!(parse_all(b"+a\r\r\n"), Ok((Frame::Simple(b"a\r".to_vec()), 5)));
}

#[test]
fn incomplete_inputs_are_incomplete() {
    let whole: &[u8] = b"*2\r\n$3\r\nGET\r\n$5\r\nhello\r\n";
    for cut in 0..whole.len() {
        assert_eq!(check_all(&whole[..cut]), Err(Error::Incomplete), "cut at {}", cut);
        assert_eq!(parse_all(&whole[..cut]).err(), Some(Error::Incomplete), "cut at {}", cut);
    }
    assert_eq!(check_all(b""), Err(Error::Incomplete));
    assert_eq!(check_all(b"$-1\r"), Err(Error::Incomplete));
    assert_eq!(check_all(b"$-"), Err(Error::Incomplete));
    assert_eq!(check_all(b"$5\r\nhello\r"), Err(Error::Incomplete));
    assert_eq!(check_all(b"%1\r\n+k\r\n"), Err(Error::Incomplete));
    assert_eq!(check_all(b"*99999999\r\n"), Err(Error::Incomplete));
    assert_eq!(check_all(b"$18446744073709551615\r\n"), Err(Error::Incomplete));
}

#[test]
fn invalid_type_byte_is_a_protocol_error() {
    let expected = protocol_error("protocol error; invalid frame type byte `33`");
    assert_eq!(check_all(b"!x\r\n"), Err(expected));
    let expected = protocol_error("protocol error; invalid frame type byte `0`");
    assert_eq!(parse_all(b"\x00").err(), Some(expected));
    let expected = protocol_error("protocol error; invalid frame type byte `255`");
    assert_eq!(parse_all(b"\xff").err(), Some(expected));
}

#[test]
fn invalid_numbers_are_protocol_errors() {
    let format = || protocol_error("protocol error; invalid frame format");
    assert_eq!(check_all(b":12a\r\n"), Err(format()));
    assert_eq!(check_all(b":\r\n"), Err(format()));
    assert_eq!(check_all(b":-1\r\n"), Err(format()));
    assert_eq!(check_all(b":+1\r\n"), Err(format()));
    assert_eq!(check_all(b": 1\r\n"), Err(format()));
    assert_eq!(check_all(b"$abc\r\n"), Err(format()));
    assert_eq!(check_all(b"*x\r\n"), Err(format()));
    assert_eq!(parse_all(b":12a\r\n").err(), Some(format()));
}

#[test]
fn integer_overflow_is_a_protocol_error() {
    let format = || protocol_error("protocol error; invalid frame format");
    assert_eq!(parse_all(b":18446744073709551615\r\n"), Ok((Frame::Integer(u64::MAX), 23)));
    assert_eq!(check_all(b":18446744073709551616\r\n"), Err(format()));
    assert_eq!(parse_all(b":18446744073709551616\r\n").err(), Some(format()));
    assert_eq!(check_all(b":99999999999999999999\r\n"), Err(format()));
}

#[test]
fn decimal_lines_take_at_most_twenty_digits() {
    let format = || protocol_error("protocol error; invalid frame format");
    assert_eq!(parse_all(b":00000000000000000042\r\n"), Ok((Frame::Integer(42), 23)));
    assert_eq!(check_all(b":000000000000000000042\r\n"), Err(format()));
    assert_eq!(parse_all(b":000000000000000000042\r\n").err(), Some(format()));
}

#[test]
fn misspelt_null_is_a_protocol_error() {
    let format = || protocol_error("protocol error; invalid frame format");
    assert_eq!(check_all(b"$-2\r\n"), Err(format()));
    assert_eq!(parse_all(b"$-2\r\n").err(), Some(format()));
    assert_eq!(check_all(b"$-1234\r\n"), Err(format()));
    assert_eq!(check_all(b"$-\r\n"), Err(format()));
}

#[test]
fn bulk_without_closing_crlf_is_a_protocol_error() {
    let format = || protocol_error("protocol error; invalid frame format");
    assert_eq!(check_all(b"$3\r\nabcXY"), Err(format()));
    assert_eq!(parse_all(b"$3\r\nabcXY").err(), Some(format()));
    assert_eq!(check_all(b"$3\r\nabcd\r\n"), Err(format()));
}

#[test]
fn check_and_parse_agree_on_the_bytes_of_a_frame() {
    let inputs: Vec<&[u8]> = vec![
        b"+OK\r\ntrailing",
        b":7\r\n:8\r\n",
        b"$3\r\nabc\r\n$",
        b"$-1\r\n$-1\r\n",
        b"*2\r\n+a\r\n*1\r\n$1\r\nb\r\n+c\r\n",
        b"%1\r\n$1\r\nk\r\n*0\r\n%",
    ];
    for input in inputs {
        let n = check_all(input).unwrap();
        let (whole, used) = parse_all(input).unwrap();
        assert_eq!(used, n);
        let (alone, used_alone) = parse_all(&input[..n]).unwrap();
        assert_eq!(used_alone, n);
        assert_eq!(alone, whole);
    }
}

#[test]
fn more_bytes_never_change_a_verdict() {
    let whole: &[u8] = b"*3\r\n$3\r\nSET\r\n:12a\r\n$1\r\nx\r\n";
    let mut verdict: Option<Result<usize, Error>> = None;
    for cut in 0..=whole.len() {
        let now = check_all(&whole[..cut]);
        match &verdict {
            Some(earlier) => assert_eq!(&now, earlier),
            None => {
                if now != Err(Error::Incomplete) {
                    verdict = Some(now);
                }
            }
        }
    }
    assert_eq!(
        verdict,
        Some(Err(protocol_error("protocol error; invalid frame format")))
    );
}

#[test]
fn cursor_reports_position_and_remaining() {
    let bytes: &[u8] = b"+OK\r\n:1\r\n";
    let mut cursor = Cursor::new(bytes);
    assert_eq!(cursor.position(), 0);
    assert_eq!(cursor.remaining(), 9);
    assert_eq!(cursor.get_ref(), bytes);
    assert_eq!(Frame::parse(&mut cursor), Ok(Frame::Simple(b"OK".to_vec())));
    assert_eq!(cursor.position(), 5);
    assert_eq!(cursor.remaining(), 4);
    assert_eq!(Frame::parse(&mut cursor), Ok(Frame::Integer(1)));
    assert_eq!(cursor.remaining(), 0);
    assert_eq!(Frame::parse(&mut cursor), Err(Error::Incomplete));
}

#[test]
fn errors_describe_themselves() {
    assert_eq!(Error::Incomplete.describe(), "ended early");
    assert_eq!(
        protocol_error("protocol error; invalid frame format").describe(),
        "Invalid message encoding: protocol error; invalid frame format"
    );
}

#[test]
fn clone_frame_copies_the_whole_tree() {
    let frame = Frame::Array(vec![
        Frame::Simple(b"a".to_vec()),
        Frame::Mapping(vec![(Frame::Bulk(b"k".to_vec()), Frame::Null)]),
        Frame::Error(b"e".to_vec()),
        Frame::Integer(3),
    ]);
    assert_eq!(frame.clone_frame(), frame);
    assert_eq!(frame.clone(), frame);
}
