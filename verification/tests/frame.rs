use respkv::resp::frame::RespFrame;

fn text_frame(s: &str) -> RespFrame {
    RespFrame::SimpleString(s.to_string())
}

fn bulk_frame(s: &str) -> RespFrame {
    RespFrame::BulkString(s.as_bytes().to_vec())
}

#[test]
fn encode_simple_string() {
    assert_eq!(text_frame("OK").encode(), b"+OK\r\n".to_vec());
    assert_eq!(text_frame("").encode(), b"+\r\n".to_vec());
}

#[test]
fn encode_error() {
    let frame = RespFrame::Error("ERR unknown".to_string());
    assert_eq!(frame.encode(), b"-ERR unknown\r\n".to_vec());
}

#[test]
fn encode_integer_without_sign_when_not_negative() {
    assert_eq!(RespFrame::Integer(0).encode(), b":0\r\n".to_vec());
    assert_eq!(RespFrame::Integer(7).encode(), b":7\r\n".to_vec());
    assert_eq!(RespFrame::Integer(1000).encode(), b":1000\r\n".to_vec());
}

#[test]
fn encode_integer_with_one_minus_when_negative() {
    assert_eq!(RespFrame::Integer(-5).encode(), b":-5\r\n".to_vec());
    assert_eq!(RespFrame::Integer(-120).encode(), b":-120\r\n".to_vec());
}

#[test]
fn encode_integer_at_the_limits() {
    assert_eq!(
        RespFrame::Integer(i64::MAX).encode(),
        b":9223372036854775807\r\n".to_vec()
    );
    assert_eq!(
        RespFrame::Integer(i64::MIN).encode(),
        b":-9223372036854775808\r\n".to_vec()
    );
}

#[test]
fn encode_bulk_string() {
    assert_eq!(bulk_frame("hey").encode(), b"$3\r\nhey\r\n".to_vec());
    assert_eq!(bulk_frame("").encode(), b"$0\r\n\r\n".to_vec());
    assert_eq!(
        bulk_frame("hello world!").encode(),
        b"$12\r\nhello world!\r\n".to_vec()
    );
}

#[test]
fn encode_bulk_string_counts_bytes_not_characters() {
    let frame = bulk_frame("h\u{e9}");
    assert_eq!(frame.encode(), vec![b'$', b'3', 13, 10, b'h', 0xc3, 0xa9, 13, 10]);
}

#[test]
fn encode_bulk_string_is_binary_safe() {
    let payload = vec![0u8, 13, 10, 255, 36];
    let frame = RespFrame::BulkString(payload);
    assert_eq!(frame.encode(), vec![b'$', b'5', 13, 10, 0, 13, 10, 255, 36, 13, 10]);
}

#[test]
fn encode_the_markers_of_no_value() {
    assert_eq!(RespFrame::Null.encode(), b"_\r\n".to_vec());
    assert_eq!(RespFrame::NullBulkString.encode(), b"$-1\r\n".to_vec());
    assert_eq!(RespFrame::NullArray.encode(), b"*-1\r\n".to_vec());
    assert_eq!(RespFrame::EmptyArray.encode(), b"*0\r\n".to_vec());
}

#[test]
fn encode_array_in_order() {
    let frame = RespFrame::Array(vec![bulk_frame("a"), bulk_frame("bc"), RespFrame::Integer(3)]);
    assert_eq!(frame.encode(), b"*3\r\n$1\r\na\r\n$2\r\nbc\r\n:3\r\n".to_vec());
}

#[test]
fn encode_nested_array() {
    let inner = RespFrame::Array(vec![RespFrame::Integer(-1), RespFrame::NullBulkString]);
    let frame = RespFrame::Array(vec![text_frame("x"), inner, RespFrame::EmptyArray]);
    assert_eq!(frame.encode(), b"*3\r\n+x\r\n*2\r\n:-1\r\n$-1\r\n*0\r\n".to_vec());
}

#[test]
fn encode_array_without_items_like_the_empty_array() {
    assert_eq!(RespFrame::Array(vec![]).encode(), RespFrame::EmptyArray.encode());
}

#[test]
fn encode_array_of_more_than_nine_items() {
    let mut items = Vec::new();
    for _ in 0..11 {
        items.push(RespFrame::Integer(1));
    }
    let mut expected = b"*11\r\n".to_vec();
    for _ in 0..11 {
        expected.extend_from_slice(b":1\r\n");
    }
    assert_eq!(RespFrame::Array(items).encode(), expected);
}

#[test]
fn encode_gives_equal_frames_equal_bytes() {
    let make = || RespFrame::Array(vec![bulk_frame("a"), RespFrame::Integer(42), text_frame("z")]);
    let first = make().encode();
    let second = make().encode();
    assert_eq!(first, second);
    assert_eq!(first, b"*3\r\n$1\r\na\r\n:42\r\n+z\r\n".to_vec());
}

#[test]
fn encode_into_appends_to_what_is_there() {
    let mut out = b"+A\r\n".to_vec();
    RespFrame::Integer(5).encode_into(&mut out);
    RespFrame::Null.encode_into(&mut out);
    assert_eq!(out, b"+A\r\n:5\r\n_\r\n".to_vec());
}

#[test]
fn frames_compare_by_value() {
    assert_eq!(bulk_frame("a"), bulk_frame("a"));
    assert_ne!(bulk_frame("a"), text_frame("a"));
    assert_ne!(RespFrame::EmptyArray, RespFrame::Array(vec![]));
    assert_ne!(RespFrame::Null, RespFrame::NullBulkString);
}
