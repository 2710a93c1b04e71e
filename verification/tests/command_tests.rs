use sharded_kv::command::Command;
use sharded_kv::command::Frame;
use sharded_kv::command::ParseError;
use sharded_kv::command::Response;
use sharded_kv::command::parse;

fn bulk(bytes: &[u8]) -> Frame {
    Frame::Bulk(bytes.to_vec())
}

fn simple(s: &str) -> Frame {
    Frame::Simple(s.to_string())
}

#[test]
fn parse_get_from_bulk_frames() {
    let frame = Frame::Array(vec![bulk(b"GET"), bulk(b"hello")]);
    assert_eq!(
        parse(frame),
        Ok(Command::Get {
            key: "hello".to_string()
        })
    );
}

#[test]
fn parse_set_from_bulk_frames() {
    let frame = Frame::Array(vec![bulk(b"SET"), bulk(b"hello"), bulk(b"world")]);
    assert_eq!(
        parse(frame),
        Ok(Command::SetValue {
            key: "hello".to_string(),
            value: b"world".to_vec()
        })
    );
}

#[test]
fn parse_is_ascii_case_insensitive() {
    let frame = Frame::Array(vec![bulk(b"GeT"), bulk(b"k")]);
    assert_eq!(parse(frame), Ok(Command::Get { key: "k".to_string() }));
    let frame = Frame::Array(vec![bulk(b"sEt"), bulk(b"k"), bulk(b"v")]);
    assert_eq!(
        parse(frame),
        Ok(Command::SetValue {
            key: "k".to_string(),
            value: b"v".to_vec()
        })
    );
}

#[test]
fn parse_simple_frames_carry_name_key_and_value() {
    let frame = Frame::Array(vec![simple("get"), simple("k")]);
    assert_eq!(parse(frame), Ok(Command::Get { key: "k".to_string() }));
    let frame = Frame::Array(vec![simple("set"), simple("k"), simple("v")]);
    assert_eq!(
        parse(frame),
        Ok(Command::SetValue {
            key: "k".to_string(),
            value: b"v".to_vec()
        })
    );
}

#[test]
fn parse_unknown_command_is_rejected_by_name() {
    let frame = Frame::Array(vec![bulk(b"DELETE"), bulk(b"k")]);
    assert_eq!(
        parse(frame),
        Err(ParseError::Unsupported {
            name: "DELETE".to_string()
        })
    );
}

#[test]
fn parse_non_array_frame_is_malformed() {
    assert_eq!(parse(simple("PING")), Err(ParseError::Malformed));
    assert_eq!(parse(Frame::Null), Err(ParseError::Malformed));
    assert_eq!(parse(Frame::Integer(7)), Err(ParseError::Malformed));
    assert_eq!(parse(bulk(b"GET")), Err(ParseError::Malformed));
}

#[test]
fn parse_empty_array_is_malformed() {
    assert_eq!(parse(Frame::Array(Vec::new())), Err(ParseError::Malformed));
}

#[test]
fn parse_get_with_wrong_arity_is_malformed() {
    let too_few = Frame::Array(vec![bulk(b"GET")]);
    assert_eq!(parse(too_few), Err(ParseError::Malformed));
    let too_many = Frame::Array(vec![bulk(b"GET"), bulk(b"a"), bulk(b"b")]);
    assert_eq!(parse(too_many), Err(ParseError::Malformed));
}

#[test]
fn parse_set_with_wrong_arity_is_malformed() {
    let too_few = Frame::Array(vec![bulk(b"SET"), bulk(b"k")]);
    assert_eq!(parse(too_few), Err(ParseError::Malformed));
    let too_many = Frame::Array(vec![bulk(b"SET"), bulk(b"k"), bulk(b"v"), bulk(b"w")]);
    assert_eq!(parse(too_many), Err(ParseError::Malformed));
}

#[test]
fn parse_invalid_utf8_name_is_malformed() {
    let frame = Frame::Array(vec![bulk(&[0xff, 0xfe]), bulk(b"k")]);
    assert_eq!(parse(frame), Err(ParseError::Malformed));
}

#[test]
fn parse_invalid_utf8_key_is_malformed() {
    let frame = Frame::Array(vec![bulk(b"GET"), bulk(&[0xff])]);
    assert_eq!(parse(frame), Err(ParseError::Malformed));
}

#[test]
fn parse_non_text_name_or_key_is_malformed() {
    let frame = Frame::Array(vec![Frame::Integer(1), bulk(b"k")]);
    assert_eq!(parse(frame), Err(ParseError::Malformed));
    let frame = Frame::Array(vec![bulk(b"GET"), Frame::Null]);
    assert_eq!(parse(frame), Err(ParseError::Malformed));
    let frame = Frame::Array(vec![bulk(b"SET"), bulk(b"k"), Frame::Integer(1)]);
    assert_eq!(parse(frame), Err(ParseError::Malformed));
}

#[test]
fn responses_are_written_as_their_frames() {
    assert_eq!(
        Response::Acknowledged.to_frame(),
        Frame::Simple("OK".to_string())
    );
    assert_eq!(
        Response::Value(b"world".to_vec()).to_frame(),
        Frame::Bulk(b"world".to_vec())
    );
    assert_eq!(Response::Null.to_frame(), Frame::Null);
}

#[test]
fn parse_set_value_keeps_raw_bytes() {
    let frame = Frame::Array(vec![bulk(b"SET"), bulk(b"k"), bulk(&[0x00, 0xff, 0x7f])]);
    assert_eq!(
        parse(frame),
        Ok(Command::SetValue {
            key: "k".to_string(),
            value: vec![0x00, 0xff, 0x7f]
        })
    );
}
