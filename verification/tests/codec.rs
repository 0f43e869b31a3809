use my_redis::constants::CRLF;
use my_redis::value::array::Array;
use my_redis::value::boolean::Boolean;
use my_redis::value::bulk_string::BulkString;
use my_redis::value::deserialize::Deserialize;
use my_redis::value::integer::Integer;
use my_redis::value::nulls::Nulls;
use my_redis::value::serialize::Serialize;
use my_redis::value::simple_error::{ErrorType, SimpleError};
use my_redis::value::simple_string::SimpleString;
use my_redis::value::Value;

fn serialize_and_assert(value: Value, expected: &str) {
    assert_eq!(expected, Value::serialize(&value));
}

fn deserialize_and_assert(bytes: &[u8], expected: Option<Value>, should_succeed: bool) {
    let result = Value::deserialize(bytes);
    if should_succeed {
        assert!(result.is_ok());
        assert_eq!(result.unwrap().value, expected.unwrap());
    } else {
        assert!(result.is_err());
    }
}

#[test]
fn test_deserialize_all_values() {
    let test_cases = vec![
        (
            b"+OK\r\n".to_vec(),
            Value::SimpleString(SimpleString("OK".to_owned())),
        ),
        (
            b"-ERR unknown command\r\n".to_vec(),
            Value::SimpleError(SimpleError {
                error_type: ErrorType::ERR,
                message: "unknown command".to_owned(),
            }),
        ),
        (b":1000\r\n".to_vec(), Value::Integer(Integer(1000))),
        (
            b"$6\r\nfoobar\r\n".to_vec(),
            Value::BulkString(BulkString("foobar".to_owned())),
        ),
        (b"#t\r\n".to_vec(), Value::Boolean(Boolean(true))),
        (b"#f\r\n".to_vec(), Value::Boolean(Boolean(false))),
    ];

    for (input, expected) in test_cases {
        let result = Value::deserialize(&input).unwrap().value;
        assert_eq!(result, expected);
    }
}

#[test]
fn test_serialize_array() {
    let value1 = Value::SimpleString(SimpleString("OK".to_owned()));
    let value2 = Value::SimpleError(SimpleError {
        error_type: ErrorType::ERR,
        message: "Unknown Command".to_owned(),
    });
    let value3 = Value::Integer(Integer(56_i64));
    let value4 = Value::BulkString(BulkString("bulk string".to_owned()));
    let value5 = Value::Boolean(Boolean(true));

    let nested_array1 = Value::Array(Array(vec![value1.clone(), value2.clone()]));
    let nested_array2 = Value::Array(Array(vec![value3.clone(), value4.clone(), value5.clone()]));

    let outer_array = Value::Array(Array(vec![nested_array1.clone(), nested_array2.clone()]));

    let expected1 = format!("+OK{CRLF}");
    let expected2 = format!("-ERR Unknown Command{CRLF}");
    let expected3 = format!(":56{CRLF}");
    let expected4 = format!("${}{CRLF}bulk string{CRLF}", "bulk string".len());
    let expected5 = format!("#t{CRLF}");

    let expected_nested_array1 = format!("*2{CRLF}{}{}", expected1, expected2);
    let expected_nested_array2 = format!("*3{CRLF}{}{}{}", expected3, expected4, expected5);
    let expected_outer_array = format!(
        "*2{CRLF}{}{}",
        expected_nested_array1, expected_nested_array2
    );

    serialize_and_assert(outer_array, &expected_outer_array);
}

#[test]
fn test_deserialize_array() {
    let test_cases = vec![
        (
            b"*2\r\n+OK\r\n-ERR unknown command\r\n".to_vec(),
            Some(Value::Array(Array(vec![
                Value::SimpleString(SimpleString("OK".to_owned())),
                Value::SimpleError(SimpleError {
                    error_type: ErrorType::ERR,
                    message: "unknown command".to_owned(),
                }),
            ]))),
            true,
        ),
        (
            b"*3\r\n:1000\r\n$6\r\nfoobar\r\n#t\r\n".to_vec(),
            Some(Value::Array(Array(vec![
                Value::Integer(Integer(1000)),
                Value::BulkString(BulkString("foobar".to_owned())),
                Value::Boolean(Boolean(true)),
            ]))),
            true,
        ),
        (
            b"*2\r\n*1\r\n:123\r\n*2\r\n$3\r\nfoo\r\n$3\r\nbar\r\n".to_vec(),
            Some(Value::Array(Array(vec![
                Value::Array(Array(vec![Value::Integer(Integer(123))])),
                Value::Array(Array(vec![
                    Value::BulkString(BulkString("foo".to_owned())),
                    Value::BulkString(BulkString("bar".to_owned())),
                ])),
            ]))),
            true,
        ),
        (b"*1\r\n~unknown\r\n".to_vec(), None, false),
        (b"*2\r\n+OK\r\n".to_vec(), None, false),
        (b"*2\r\n*1\r\n:123".to_vec(), None, false),
    ];

    for (input, expected, should_succeed) in test_cases {
        deserialize_and_assert(&input, expected, should_succeed);
    }
}

#[test]
fn test_serialize_boolean() {
    let value_t = Value::Boolean(Boolean(true));
    let value_f = Value::Boolean(Boolean(false));
    let expected_t = format!("#t{CRLF}");
    let expected_f = format!("#f{CRLF}");
    serialize_and_assert(value_t, &expected_t);
    serialize_and_assert(value_f, &expected_f);
}

#[test]
fn test_deserialize_boolean() {
    let test_cases = vec![
        (b"#t\r\n".to_vec(), Boolean(true), true),
        (b"#f\r\n".to_vec(), Boolean(false), true),
        (b"#t\n".to_vec(), Boolean(true), false),
        (b"#x\r\n".to_vec(), Boolean(false), false),
        (b"#\r\n".to_vec(), Boolean(false), false),
    ];

    for (input, expected, should_succeed) in test_cases {
        let result = Boolean::deserialize(input.as_slice());
        if should_succeed {
            assert_eq!(result.unwrap().value, expected);
        } else {
            assert!(result.is_err());
        }
    }
}

#[test]
fn test_serialize_bulk_string() {
    let value = Value::BulkString(BulkString("bulk string".to_owned()));
    let expected = format!("$11{CRLF}bulk string{CRLF}");
    serialize_and_assert(value, &expected);
}

#[test]
fn test_deseriaize_bulk_string() {
    let test_cases = vec![
        (
            b"$11\r\nbulk string\r\n".to_vec(),
            "bulk string".to_string(),
            true,
        ),
        (
            b"$12\r\nbulk\r\nstring\r\n".to_vec(),
            "bulk\r\nstring".to_string(),
            true,
        ),
        (
            b"$12\r\nbulk\r\nstring\r\n".to_vec(),
            "bulk\r\nstring".to_string(),
            true,
        ),
        (
            b"$12\r\nhello\r\nworld\r\n".to_vec(),
            "hello\r\nworld".to_string(),
            true,
        ),
        (
            b"$13\r\na simple test\r\n".to_vec(),
            "a simple test".to_string(),
            true,
        ),
        (
            b"$10\r\n1234567890\r\n".to_vec(),
            "1234567890".to_string(),
            true,
        ),
        (
            b"$10\r\n1234567890\r\n\r\n".to_vec(),
            "1234567890".to_string(),
            true,
        ),
        (b"$0\r\n\r\n".to_vec(), "".to_string(), true),
        (b"$0\r\n\r\n\r\n".to_vec(), "".to_string(), true),
        (
            b"$5\r\nlonger string\r\n".to_vec(),
            "longer string".to_string(),
            false,
        ),
        (b"$5\r\nhello\n".to_vec(), "hello".to_string(), false),
        (b"$-5\r\nhello\r\n".to_vec(), "".to_string(), false),
        (b"$abc\r\nhello\r\n".to_vec(), "".to_string(), false),
        (b"$5\r\nhel".to_vec(), "hel".to_string(), false),
        (b"$".to_vec(), "".to_string(), false),
        (b"$4".to_vec(), "".to_string(), false),
        (b"$4\r".to_vec(), "".to_string(), false),
        (b"$1\n".to_vec(), "".to_string(), false),
        (b"$23\r\n".to_vec(), "".to_string(), false),
    ];

    for (input, expected, should_succeed) in test_cases {
        let result = BulkString::deserialize(input.as_slice());
        if should_succeed {
            assert_eq!(result.unwrap().value.0, expected);
        } else {
            assert!(result.is_err());
        }
    }
}

#[test]
fn test_serialize_integer() {
    let value = Value::Integer(Integer(56_i64));
    let expected = format!(":56{CRLF}");
    serialize_and_assert(value, &expected);
}

#[test]
fn test_deserialize_integer() {
    let test_cases = vec![
        (b":123\r\n".to_vec(), Integer(123), true),
        (b":0\r\n".to_vec(), Integer(0), true),
        (b":-456\r\n".to_vec(), Integer(-456), true),
        (b":789\n".to_vec(), Integer(789), false),
        (b":789".to_vec(), Integer(789), false),
        (b":\r\n".to_vec(), Integer(0), false),
        (b":".to_vec(), Integer(0), false),
        (b":abc\r\n".to_vec(), Integer(0), false),
    ];

    for (input, expected, should_succeed) in test_cases {
        let result = Integer::deserialize(input.as_slice());
        if should_succeed {
            assert_eq!(result.unwrap().value, expected);
        } else {
            assert!(result.is_err());
        }
    }
}

#[test]
fn test_serialize_nulls() {
    let value = Value::Nulls(Nulls);
    let expected = format!("_{CRLF}");
    serialize_and_assert(value, &expected);
}

#[test]
fn test_deserialize_nulls() {
    let test_cases = vec![(b"_\r\n".to_vec(), Nulls, true)];

    for (input, expected, should_succeed) in test_cases {
        let result = Nulls::deserialize(input.as_slice());
        if should_succeed {
            assert_eq!(result.unwrap().value, expected);
        } else {
            assert!(result.is_err());
        }
    }
}

#[test]
fn test_serialize_simple_error() {
    let value = Value::SimpleError(SimpleError {
        error_type: ErrorType::ERR,
        message: "Unknown Command".to_owned(),
    });
    let expected = format!("-ERR Unknown Command{CRLF}");
    serialize_and_assert(value, &expected);

    let value = Value::SimpleError(SimpleError {
        error_type: ErrorType::WRONGTYPE,
        message: "Operation against a key holding the wrong kind of value".to_owned(),
    });
    let expected =
        format!("-WRONGTYPE Operation against a key holding the wrong kind of value{CRLF}");
    serialize_and_assert(value, &expected);

    let value = Value::SimpleError(SimpleError {
        error_type: ErrorType::ERR,
        message: "Some other error".to_owned(),
    });
    let expected = format!("-ERR Some other error{CRLF}");
    serialize_and_assert(value, &expected);
}

#[test]
fn test_deserialize_simple_error() {
    let test_cases = vec![
        (
            b"-ERR message\r\n".to_vec(),
            SimpleError {
                error_type: ErrorType::ERR,
                message: "message".to_string(),
            },
            true,
        ),
        (
            b"-ERR unknown command 'foobar'\r\n".to_vec(),
            SimpleError {
                error_type: ErrorType::ERR,
                message: "unknown command 'foobar'".to_string(),
            },
            true,
        ),
        (
            b"-WRONGTYPE Operation against a key holding the wrong kind of value\r\n".to_vec(),
            SimpleError {
                error_type: ErrorType::WRONGTYPE,
                message: "Operation against a key holding the wrong kind of value".to_string(),
            },
            true,
        ),
        (
            b"-ERR syntax error\r\n".to_vec(),
            SimpleError {
                error_type: ErrorType::ERR,
                message: "syntax error".to_string(),
            },
            true,
        ),
        (
            b"-ERR unknown command\r\n".to_vec(),
            SimpleError {
                error_type: ErrorType::ERR,
                message: "unknown command".to_string(),
            },
            true,
        ),
        (
            b"-ERR no such key\r\n".to_vec(),
            SimpleError {
                error_type: ErrorType::ERR,
                message: "no such key".to_string(),
            },
            true,
        ),
        (
            b"-ERR wrong number of arguments\r\n".to_vec(),
            SimpleError {
                error_type: ErrorType::ERR,
                message: "wrong number of arguments".to_string(),
            },
            true,
        ),
        (
            b"-ERR value is not an integer or out of range\r\n".to_vec(),
            SimpleError {
                error_type: ErrorType::ERR,
                message: "value is not an integer or out of range".to_string(),
            },
            true,
        ),
        (
            b"-UNKNOWN error type\r\n".to_vec(),
            SimpleError {
                error_type: ErrorType::ERR,
                message: "error type".to_string(),
            },
            false,
        ),
        (
            b"-SOMEERR some unknown error\r\n".to_vec(),
            SimpleError {
                error_type: ErrorType::ERR,
                message: "some unknown error".to_string(),
            },
            false,
        ),
        (
            b"-Error message\n".to_vec(),
            SimpleError {
                error_type: ErrorType::ERR,
                message: "Error message".to_string(),
            },
            false,
        ),
        (
            b"-Error message".to_vec(),
            SimpleError {
                error_type: ErrorType::ERR,
                message: "Error message".to_string(),
            },
            false,
        ),
        (
            b"-".to_vec(),
            SimpleError {
                error_type: ErrorType::ERR,
                message: "".to_string(),
            },
            false,
        ),
        (
            b"-E".to_vec(),
            SimpleError {
                error_type: ErrorType::ERR,
                message: "E".to_string(),
            },
            false,
        ),
    ];

    for (input, expected, should_succeed) in test_cases {
        let result = SimpleError::deserialize(input.as_slice());
        if should_succeed {
            assert_eq!(result.unwrap().value, expected);
        } else {
            assert!(result.is_err());
        }
    }
}

#[test]
fn test_serialize_simple_string() {
    let value = Value::SimpleString(SimpleString("OK".to_owned()));
    let expected = format!("+OK{CRLF}");
    serialize_and_assert(value, &expected);
}

#[test]
fn test_deserialize_simple_string() {
    let test_cases = vec![
        (b"+OK\r\n".to_vec(), "OK".to_string(), true),
        (b"+PONG\r\n".to_vec(), "PONG".to_string(), true),
        (
            b"+Hello, world!\r\n".to_vec(),
            "Hello, world!".to_string(),
            true,
        ),
        (b"+1234567890\r\n".to_vec(), "1234567890".to_string(), true),
        (
            b"+A simple test\r\n".to_vec(),
            "A simple test".to_string(),
            true,
        ),
        (b"+\r\n".to_vec(), "".to_string(), true),
        (
            b"+This is a test.\r\n".to_vec(),
            "This is a test.".to_string(),
            true,
        ),
        (b"+Hello\n".to_vec(), "Hello".to_string(), false),
        (b"+Hello".to_vec(), "Hello".to_string(), false),
        (b"+".to_vec(), "".to_string(), false),
        (b"+H".to_vec(), "H".to_string(), false),
    ];

    for (input, expected, should_succeed) in test_cases {
        let result = SimpleString::deserialize(input.as_slice());
        if should_succeed {
            assert_eq!(result.unwrap().value.0, expected);
        } else {
            assert!(result.is_err());
        }
    }
}
