use my_redis::value::array::Array;
use my_redis::value::boolean::Boolean;
use my_redis::value::bulk_string::BulkString;
use my_redis::value::deserialize::Deserialize;
use my_redis::value::integer::Integer;
use my_redis::value::serialize::Serialize;
use my_redis::value::simple_error::{ErrorType, SimpleError};
use my_redis::value::simple_string::SimpleString;
use my_redis::value::Value;

fn samples() -> Vec<Value> {
    let leaves = vec![
        Value::SimpleString(SimpleString(String::new())),
        Value::SimpleString(SimpleString("OK".to_owned())),
        Value::SimpleString(SimpleString("sn\u{f6}, \u{96ea}, \u{2744}".to_owned())),
        Value::SimpleString(SimpleString("\na\rb\n\rc\r".to_owned())),
        Value::SimpleError(SimpleError {
            error_type: ErrorType::ERR,
            message: "\r \n\r".to_owned(),
        }),
        Value::SimpleError(SimpleError {
            error_type: ErrorType::ERR,
            message: "unknown command 'x y'".to_owned(),
        }),
        Value::SimpleError(SimpleError {
            error_type: ErrorType::WRONGTYPE,
            message: String::new(),
        }),
        Value::Integer(Integer(0)),
        Value::Integer(Integer(-1)),
        Value::Integer(Integer(i64::MAX)),
        Value::Integer(Integer(i64::MIN)),
        Value::BulkString(BulkString(String::new())),
        Value::BulkString(BulkString("with\r\ninside\r\n".to_owned())),
        Value::BulkString(BulkString("+:$*#_-".to_owned())),
        Value::BulkString(BulkString("caf\u{e9} \u{1f980}".to_owned())),
        Value::Boolean(Boolean(true)),
        Value::Boolean(Boolean(false)),
        Value::Array(Array(vec![])),
    ];
    let mut all = leaves.clone();
    let flat = Value::Array(Array(leaves.clone()));
    all.push(flat.clone());
    let deep = Value::Array(Array(vec![
        flat.clone(),
        Value::Array(Array(vec![Value::Array(Array(vec![Value::Array(Array(vec![]))]))])),
        Value::Integer(Integer(7)),
        flat,
    ]));
    all.push(deep.clone());
    let mut tower = Value::Boolean(Boolean(true));
    for _ in 0..40 {
        tower = Value::Array(Array(vec![tower]));
    }
    all.push(tower);
    all
}

#[test]
fn decoding_a_frame_gives_the_value_back() {
    for value in samples() {
        let frame = value.encode();
        let found = Value::deserialize(&frame).unwrap();
        assert_eq!(found.value, value);
        assert_eq!(found.index, (0, frame.len() - 1));
        assert_eq!(value.serialize().as_bytes(), frame.as_slice());
    }
}

#[test]
fn decoding_takes_the_first_of_two_frames_only() {
    let all = samples();
    for first in &all {
        for second in &all {
            let mut stream = first.encode();
            let first_len = stream.len();
            stream.extend(second.encode());
            let found = Value::deserialize(&stream).unwrap();
            assert_eq!(&found.value, first);
            assert_eq!(found.index, (0, first_len - 1));
            let rest = &stream[first_len..];
            assert_eq!(rest, second.encode().as_slice());
            let next = Value::deserialize(rest).unwrap();
            assert_eq!(&next.value, second);
            assert_eq!(next.index, (0, rest.len() - 1));
        }
    }
}

#[test]
fn decoding_is_not_disturbed_by_what_follows() {
    for value in samples() {
        let mut stream = value.encode();
        let len = stream.len();
        stream.extend_from_slice(&[0xff, 13, 10, b'*', b'9']);
        let found = Value::deserialize(&stream).unwrap();
        assert_eq!(found.value, value);
        assert_eq!(found.index, (0, len - 1));
    }
}

#[test]
fn nested_arrays_round_trip() {
    let inner = Value::Array(Array(vec![
        Value::SimpleString(SimpleString("a".to_owned())),
        Value::SimpleError(SimpleError { error_type: ErrorType::ERR, message: "b".to_owned() }),
        Value::Integer(Integer(3)),
        Value::BulkString(BulkString("d".to_owned())),
        Value::Boolean(Boolean(true)),
    ]));
    let outer = Value::Array(Array(vec![inner.clone(), Value::Array(Array(vec![inner]))]));
    let text = outer.serialize();
    assert_eq!(
        text,
        "*2\r\n*5\r\n+a\r\n-ERR b\r\n:3\r\n$1\r\nd\r\n#t\r\n*1\r\n*5\r\n+a\r\n-ERR b\r\n:3\r\n$1\r\nd\r\n#t\r\n"
    );
    assert_eq!(Value::deserialize(text.as_bytes()).unwrap().value, outer);
}

#[test]
fn simple_text_with_a_line_break_does_not_round_trip() {
    let value = Value::SimpleString(SimpleString("a\r\nb".to_owned()));
    let found = Value::deserialize(&value.encode()).unwrap();
    assert_eq!(found.value, Value::SimpleString(SimpleString("a".to_owned())));
    assert_eq!(found.index, (0, 3));
}
