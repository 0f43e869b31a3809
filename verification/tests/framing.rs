use my_redis::constants::{CR, CRLF, IP, LF, PORT};
use my_redis::decimal::{decimal_digits, parse_decimal, parse_i64, signed_decimal_digits};
use my_redis::error::{ParseError, RedisError};
use my_redis::text::text_of;
use my_redis::value::array::{decode_array_frame, encode_array_frame, same_items, Array};
use my_redis::value::boolean::Boolean;
use my_redis::value::bulk_string::BulkString;
use my_redis::value::deserialize::{Deserialize, WithIndex};
use my_redis::value::integer::Integer;
use my_redis::value::nulls::Nulls;
use my_redis::value::serialize::Serialize;
use my_redis::value::simple_error::{ErrorType, SimpleError};
use my_redis::value::simple_string::SimpleString;
use my_redis::value::{
    clone_value, decode_value, encode_value, same_value, Value, ValueWithIndex,
};
use my_redis::{check_crlf, line_end, read_until_crlf};

fn invalid(kind: fn(ParseError) -> RedisError) -> RedisError {
    kind(ParseError::InvalidFormat)
}

fn error_of<T>(result: Result<T, RedisError>) -> RedisError {
    match result {
        Ok(_) => panic!("decoded"),
        Err(e) => e,
    }
}

#[test]
fn constants_of_the_wire() {
    assert_eq!(CRLF.as_bytes(), &[CR, LF]);
    assert_eq!(IP, "127.0.0.1");
    assert_eq!(PORT, 6379);
}

#[test]
fn check_crlf_cases() {
    let bytes = b"a\r\nb\rc\r";
    assert_eq!(check_crlf(bytes, 0), Ok(false));
    assert_eq!(check_crlf(bytes, 1), Ok(true));
    assert_eq!(check_crlf(bytes, 2), Ok(false));
    assert_eq!(check_crlf(bytes, 4), Ok(false));
    assert_eq!(check_crlf(bytes, 6), Err(RedisError::IndexOutOfBoundError));
    assert_eq!(check_crlf(bytes, 7), Err(RedisError::IndexOutOfBoundError));
    assert_eq!(check_crlf(bytes, usize::MAX), Err(RedisError::IndexOutOfBoundError));
    assert_eq!(check_crlf(b"", 0), Err(RedisError::IndexOutOfBoundError));
}

#[test]
fn read_until_crlf_finds_the_nth_terminator() {
    let bytes = b"ab\r\ncd\r\n\r\nx";
    assert_eq!(read_until_crlf(bytes, 1), Ok(2));
    assert_eq!(read_until_crlf(bytes, 2), Ok(6));
    assert_eq!(read_until_crlf(bytes, 3), Ok(8));
    assert_eq!(read_until_crlf(bytes, 4), Err(RedisError::CRLFNotFoundError));
    assert_eq!(read_until_crlf(bytes, 0), Err(RedisError::CRLFNotFoundError));
    assert_eq!(read_until_crlf(b"", 1), Err(RedisError::CRLFNotFoundError));
    assert_eq!(read_until_crlf(b"abc", 1), Err(RedisError::CRLFNotFoundError));
    assert_eq!(read_until_crlf(b"a\nb\n", 1), Err(RedisError::CRLFNotFoundError));
    assert_eq!(read_until_crlf(b"abc\r", 1), Err(RedisError::IndexOutOfBoundError));
    assert_eq!(read_until_crlf(b"a\r\nbc\r", 2), Err(RedisError::IndexOutOfBoundError));
    assert_eq!(read_until_crlf(b"a\r\nbc\r", 1), Ok(1));
    assert_eq!(read_until_crlf(b"\r\r\n", 1), Ok(1));
}

#[test]
fn line_end_finds_the_first_terminator_from_a_position() {
    let bytes = b"\r\nab\r\ncd\r\n";
    assert_eq!(line_end(bytes, 0), Ok(0));
    assert_eq!(line_end(bytes, 1), Ok(4));
    assert_eq!(line_end(bytes, 4), Ok(4));
    assert_eq!(line_end(bytes, 5), Ok(8));
    assert_eq!(line_end(bytes, 9), Err(RedisError::IndexOutOfBoundError));
    assert_eq!(line_end(bytes, 100), Err(RedisError::IndexOutOfBoundError));
    assert_eq!(line_end(b"abc\r", 0), Err(RedisError::IndexOutOfBoundError));
}

#[test]
fn decimal_numerals_are_parsed_exactly() {
    assert_eq!(parse_decimal(b"0", 0), Some(0));
    assert_eq!(parse_decimal(b"1", 0), None);
    assert_eq!(parse_decimal(b"000", 5), Some(0));
    assert_eq!(parse_decimal(b"0042", 100), Some(42));
    assert_eq!(parse_decimal(b"255", 255), Some(255));
    assert_eq!(parse_decimal(b"256", 255), None);
    assert_eq!(parse_decimal(b"", 255), None);
    assert_eq!(parse_decimal(b"+1", 255), None);
    assert_eq!(parse_decimal(b"-1", 255), None);
    assert_eq!(parse_decimal(b"1 ", 255), None);
    assert_eq!(parse_decimal(b"1a", 255), None);
    assert_eq!(parse_decimal(b"9/", 255), None);
    assert_eq!(parse_decimal(b"9:", 255), None);
    assert_eq!(
        parse_decimal(b"340282366920938463463374607431768211455", u128::MAX),
        Some(u128::MAX)
    );
    assert_eq!(
        parse_decimal(b"340282366920938463463374607431768211456", u128::MAX),
        None
    );
    assert_eq!(
        parse_decimal(b"3402823669209384634633746074317682114550", u128::MAX),
        None
    );
    assert_eq!(parse_decimal(b"99999999999999999999999999999999999999999x", 5), None);
}

#[test]
fn signed_numerals_are_parsed_exactly() {
    assert_eq!(parse_i64(b"0"), Some(0));
    assert_eq!(parse_i64(b"-0"), Some(0));
    assert_eq!(parse_i64(b"17"), Some(17));
    assert_eq!(parse_i64(b"-17"), Some(-17));
    assert_eq!(parse_i64(b"9223372036854775807"), Some(i64::MAX));
    assert_eq!(parse_i64(b"9223372036854775808"), None);
    assert_eq!(parse_i64(b"-9223372036854775808"), Some(i64::MIN));
    assert_eq!(parse_i64(b"-9223372036854775809"), None);
    assert_eq!(parse_i64(b""), None);
    assert_eq!(parse_i64(b"-"), None);
    assert_eq!(parse_i64(b"--1"), None);
    assert_eq!(parse_i64(b"+1"), None);
    assert_eq!(parse_i64(b"1-"), None);
    assert_eq!(parse_i64(b"12a"), None);
}

#[test]
fn numerals_are_written_in_shortest_form() {
    assert_eq!(decimal_digits(0), b"0".to_vec());
    assert_eq!(decimal_digits(9), b"9".to_vec());
    assert_eq!(decimal_digits(10), b"10".to_vec());
    assert_eq!(decimal_digits(1_234_567_890), b"1234567890".to_vec());
    assert_eq!(
        decimal_digits(u128::MAX),
        b"340282366920938463463374607431768211455".to_vec()
    );
    assert_eq!(signed_decimal_digits(0), b"0".to_vec());
    assert_eq!(signed_decimal_digits(-1), b"-1".to_vec());
    assert_eq!(signed_decimal_digits(i64::MAX), b"9223372036854775807".to_vec());
    assert_eq!(signed_decimal_digits(i64::MIN), b"-9223372036854775808".to_vec());
}

#[test]
fn text_is_read_from_well_formed_bytes_only() {
    assert_eq!(text_of(b"plain"), Some("plain".to_owned()));
    assert_eq!(text_of(b""), Some(String::new()));
    assert_eq!(text_of("h\u{e9}llo \u{1f600}".as_bytes()), Some("h\u{e9}llo \u{1f600}".to_owned()));
    assert_eq!(text_of(&[0xff]), None);
    assert_eq!(text_of(&[0xc3]), None);
    assert_eq!(text_of(&[0xc0, 0x80]), None);
    assert_eq!(text_of(&[0xed, 0xa0, 0x80]), None);
}

#[test]
fn header_counts_are_unsigned_numerals() {
    assert_eq!(BulkString::deserialize(b"$0002\r\nab\r\n").unwrap().value.0, "ab");
    assert_eq!(
        error_of(BulkString::deserialize(b"$\r\n")),
        invalid(RedisError::CommandParseError)
    );
    assert_eq!(
        error_of(BulkString::deserialize(b"$-1\r\n")),
        invalid(RedisError::CommandParseError)
    );
    assert_eq!(
        error_of(BulkString::deserialize(b"$+1\r\na\r\n")),
        invalid(RedisError::CommandParseError)
    );
    assert_eq!(
        error_of(Array::deserialize(b"*340282366920938463463374607431768211456\r\n")),
        invalid(RedisError::CommandParseError)
    );
    assert_eq!(
        error_of(BulkString::deserialize(&[b'$', 0xff, 13, 10])),
        RedisError::CommandParseError(ParseError::InvalidUTF)
    );
    assert_eq!(error_of(Array::deserialize(b"*12")), RedisError::CRLFNotFoundError);
    assert_eq!(error_of(Array::deserialize(b"*12\r")), RedisError::IndexOutOfBoundError);
}

#[test]
fn simple_string_errors() {
    assert_eq!(
        error_of(SimpleString::deserialize(b"")),
        invalid(RedisError::SimpleStringParseError)
    );
    assert_eq!(
        error_of(SimpleString::deserialize(b"-OK\r\n")),
        invalid(RedisError::SimpleStringParseError)
    );
    assert_eq!(
        error_of(SimpleString::deserialize(b"+OK")),
        RedisError::IndexOutOfBoundError
    );
    assert_eq!(
        error_of(SimpleString::deserialize(b"+OK\r")),
        RedisError::IndexOutOfBoundError
    );
    assert_eq!(
        error_of(SimpleString::deserialize(&[b'+', 0xff, 13, 10])),
        RedisError::SimpleStringParseError(ParseError::InvalidUTF)
    );
}

#[test]
fn simple_string_keeps_lone_carriage_returns_and_line_feeds() {
    let found = SimpleString::deserialize(b"+a\rb\nc\r\r\n+next\r\n").unwrap();
    assert_eq!(found.value.0, "a\rb\nc\r");
    assert_eq!(found.index, (0, 8));
}

#[test]
fn simple_error_errors() {
    assert_eq!(
        error_of(SimpleError::deserialize(b"+ERR x\r\n")),
        invalid(RedisError::SimpleErrorParseError)
    );
    assert_eq!(
        error_of(SimpleError::deserialize(b"-ERR x")),
        RedisError::IndexOutOfBoundError
    );
    assert_eq!(
        error_of(SimpleError::deserialize(b"-ERR\r\n")),
        invalid(RedisError::SimpleErrorParseError)
    );
    assert_eq!(
        error_of(SimpleError::deserialize(b"-ERR\nmessage\r\n")),
        invalid(RedisError::SimpleErrorParseError)
    );
    assert_eq!(
        error_of(SimpleError::deserialize(b"-OOPS x\r\n")),
        RedisError::SimpleErrorParseError(ParseError::UnknownValue)
    );
    assert_eq!(
        error_of(SimpleError::deserialize(b"- x\r\n")),
        RedisError::SimpleErrorParseError(ParseError::UnknownValue)
    );
    assert_eq!(
        error_of(SimpleError::deserialize(&[b'-', 0xff, b' ', b'x', 13, 10])),
        RedisError::SimpleErrorParseError(ParseError::UnknownValue)
    );
    assert_eq!(
        error_of(SimpleError::deserialize(&[b'-', b'E', b'R', b'R', b' ', 0xff, 13, 10])),
        RedisError::SimpleErrorParseError(ParseError::InvalidUTF)
    );
}

#[test]
fn simple_error_kind_matches_in_any_case_and_splits_on_the_first_blank() {
    let found = SimpleError::deserialize(b"-err  two  blanks \r\n").unwrap();
    assert_eq!(
        found.value,
        SimpleError { error_type: ErrorType::ERR, message: " two  blanks ".to_owned() }
    );
    assert_eq!(found.index, (0, 19));
    let found = SimpleError::deserialize(b"-WrongType \r\n").unwrap();
    assert_eq!(
        found.value,
        SimpleError { error_type: ErrorType::WRONGTYPE, message: String::new() }
    );
}

#[test]
fn error_type_words() {
    assert_eq!(ErrorType::ERR.to_string(), "ERR");
    assert_eq!(ErrorType::WRONGTYPE.to_string(), "WRONGTYPE");
    assert_eq!(ErrorType::try_from("ERR"), Ok(ErrorType::ERR));
    assert_eq!(ErrorType::try_from("eRr"), Ok(ErrorType::ERR));
    assert_eq!(ErrorType::try_from("wrongtype"), Ok(ErrorType::WRONGTYPE));
    assert_eq!(
        ErrorType::try_from("ERROR"),
        Err(RedisError::SimpleErrorParseError(ParseError::UnknownValue))
    );
    assert_eq!(
        ErrorType::try_from(""),
        Err(RedisError::SimpleErrorParseError(ParseError::UnknownValue))
    );
    assert_eq!(ErrorType::from_token(b"err"), Ok(ErrorType::ERR));
    assert_eq!(
        ErrorType::from_token(&[0x80]),
        Err(RedisError::SimpleErrorParseError(ParseError::UnknownValue))
    );
}

#[test]
fn integer_errors() {
    assert_eq!(
        error_of(Integer::deserialize(b"")),
        invalid(RedisError::IntegerParseError)
    );
    assert_eq!(
        error_of(Integer::deserialize(b"+1\r\n")),
        invalid(RedisError::IntegerParseError)
    );
    assert_eq!(error_of(Integer::deserialize(b":1")), RedisError::IndexOutOfBoundError);
    assert_eq!(
        error_of(Integer::deserialize(b":\r\n")),
        invalid(RedisError::CommandParseError)
    );
    assert_eq!(
        error_of(Integer::deserialize(b":+1\r\n")),
        invalid(RedisError::CommandParseError)
    );
    assert_eq!(
        error_of(Integer::deserialize(b":1 \r\n")),
        invalid(RedisError::CommandParseError)
    );
    assert_eq!(
        error_of(Integer::deserialize(b":9223372036854775808\r\n")),
        invalid(RedisError::CommandParseError)
    );
    assert_eq!(
        error_of(Integer::deserialize(&[b':', 0xff, 13, 10])),
        RedisError::CommandParseError(ParseError::InvalidUTF)
    );
}

#[test]
fn integer_limits() {
    let found = Integer::deserialize(b":-9223372036854775808\r\n").unwrap();
    assert_eq!(found.value, Integer(i64::MIN));
    assert_eq!(found.index, (0, 22));
    assert_eq!(Integer(i64::MIN).serialize(), ":-9223372036854775808\r\n");
    assert_eq!(Integer(i64::MAX).serialize(), ":9223372036854775807\r\n");
    assert_eq!(Integer::deserialize(b":007\r\n").unwrap().value, Integer(7));
}

#[test]
fn bulk_string_errors() {
    assert_eq!(
        error_of(BulkString::deserialize(b"")),
        invalid(RedisError::BulkStringParseError)
    );
    assert_eq!(
        error_of(BulkString::deserialize(b"+3\r\nabc\r\n")),
        invalid(RedisError::BulkStringParseError)
    );
    assert_eq!(error_of(BulkString::deserialize(b"$3")), RedisError::CRLFNotFoundError);
    assert_eq!(error_of(BulkString::deserialize(b"$3\r")), RedisError::IndexOutOfBoundError);
    assert_eq!(
        error_of(BulkString::deserialize(b"$x\r\nabc\r\n")),
        invalid(RedisError::CommandParseError)
    );
    assert_eq!(
        error_of(BulkString::deserialize(b"$4\r\nabc")),
        invalid(RedisError::BulkStringParseError)
    );
    assert_eq!(
        error_of(BulkString::deserialize(b"$3\r\nabc")),
        RedisError::IndexOutOfBoundError
    );
    assert_eq!(
        error_of(BulkString::deserialize(b"$3\r\nabc\r")),
        RedisError::IndexOutOfBoundError
    );
    assert_eq!(
        error_of(BulkString::deserialize(b"$3\r\nabcd\r\n")),
        invalid(RedisError::BulkStringParseError)
    );
    assert_eq!(
        error_of(BulkString::deserialize(b"$3\r\nabc\rx")),
        invalid(RedisError::BulkStringParseError)
    );
    assert_eq!(
        error_of(BulkString::deserialize(&[b'$', b'1', 13, 10, 0xff, 13, 10])),
        RedisError::BulkStringParseError(ParseError::InvalidUTF)
    );
    assert_eq!(
        error_of(BulkString::deserialize(b"$18446744073709551615\r\nabc\r\n")),
        invalid(RedisError::BulkStringParseError)
    );
}

#[test]
fn bulk_string_length_counts_bytes() {
    let value = BulkString("h\u{e9}llo".to_owned());
    assert_eq!(value.serialize(), "$6\r\nh\u{e9}llo\r\n");
    assert_eq!(value.encode(), b"$6\r\nh\xc3\xa9llo\r\n".to_vec());
    let found = BulkString::deserialize(&value.encode()).unwrap();
    assert_eq!(found.value, value);
    assert_eq!(found.index, (0, 11));
}

#[test]
fn boolean_and_nulls_errors() {
    assert_eq!(
        error_of(Boolean::deserialize(b"#")),
        invalid(RedisError::BooleanParseError)
    );
    assert_eq!(
        error_of(Boolean::deserialize(b"#t")),
        invalid(RedisError::BooleanParseError)
    );
    assert_eq!(
        error_of(Boolean::deserialize(b"#t\r")),
        invalid(RedisError::BooleanParseError)
    );
    assert_eq!(
        error_of(Boolean::deserialize(b"#T\r\n")),
        invalid(RedisError::BooleanParseError)
    );
    assert_eq!(Boolean::deserialize(b"#f\r\nmore").unwrap().index, (0, 3));
    assert_eq!(
        error_of(Nulls::deserialize(b"")),
        invalid(RedisError::NullsParseError)
    );
    assert_eq!(
        error_of(Nulls::deserialize(b"+\r\n")),
        invalid(RedisError::NullsParseError)
    );
    assert_eq!(
        error_of(Nulls::deserialize(b"_x\r\n")),
        invalid(RedisError::NullsParseError)
    );
    assert_eq!(error_of(Nulls::deserialize(b"_")), RedisError::IndexOutOfBoundError);
    assert_eq!(error_of(Nulls::deserialize(b"_\r")), RedisError::IndexOutOfBoundError);
    assert_eq!(Nulls::deserialize(b"_\r\n_\r\n").unwrap().get_index(), (0, 2));
}

#[test]
fn array_errors() {
    assert_eq!(
        error_of(Array::deserialize(b"")),
        invalid(RedisError::CommandParseError)
    );
    assert_eq!(
        error_of(Array::deserialize(b"$1\r\na\r\n")),
        invalid(RedisError::CommandParseError)
    );
    assert_eq!(error_of(Array::deserialize(b"*1")), RedisError::CRLFNotFoundError);
    assert_eq!(
        error_of(Array::deserialize(b"*1\r\n")),
        invalid(RedisError::ValueParseError)
    );
    assert_eq!(
        error_of(Array::deserialize(b"*1\r\n_\r\n")),
        invalid(RedisError::ValueParseError)
    );
    assert_eq!(
        error_of(Array::deserialize(b"*2\r\n:1\r\n#x\r\n")),
        invalid(RedisError::BooleanParseError)
    );
    assert_eq!(
        error_of(decode_array_frame(b"*1\r\n$3\r\nab\r\n")),
        invalid(RedisError::BulkStringParseError)
    );
}

#[test]
fn value_errors() {
    assert_eq!(error_of(Value::deserialize(b"")), invalid(RedisError::ValueParseError));
    assert_eq!(
        error_of(Value::deserialize(b"_\r\n")),
        invalid(RedisError::ValueParseError)
    );
    assert_eq!(
        error_of(Value::deserialize(b"hello\r\n")),
        invalid(RedisError::ValueParseError)
    );
    assert_eq!(
        error_of(decode_value(b"\r\n")),
        invalid(RedisError::ValueParseError)
    );
}

#[test]
fn empty_array_and_spans() {
    let found = Array::deserialize(b"*0\r\n+next\r\n").unwrap();
    assert_eq!(found.value, Array(vec![]));
    assert_eq!(found.index, (0, 3));
    assert_eq!(Array(vec![]).serialize(), "*0\r\n");
    let found = Value::deserialize(b"*2\r\n*1\r\n:123\r\n*2\r\n$3\r\nfoo\r\n$3\r\nbar\r\n:9\r\n").unwrap();
    assert_eq!(found.get_index(), (0, 35));
}

#[test]
fn spans_are_handed_out_unchanged() {
    let found = Value::deserialize(b"+OK\r\n").unwrap();
    assert_eq!(found.index(), (0, 4));
    assert_eq!(SimpleString::deserialize(b"+OK\r\n").unwrap().index(), (0, 4));
    assert_eq!(SimpleError::deserialize(b"-ERR x\r\n").unwrap().index(), (0, 7));
    assert_eq!(Integer::deserialize(b":12\r\n").unwrap().index(), (0, 4));
    assert_eq!(BulkString::deserialize(b"$2\r\nab\r\n").unwrap().index(), (0, 7));
    assert_eq!(Array::deserialize(b"*1\r\n#t\r\n").unwrap().index(), (0, 7));
    assert_eq!(Boolean::deserialize(b"#t\r\n").unwrap().index(), (0, 3));
    assert_eq!(Nulls::deserialize(b"_\r\n").unwrap().index(), (0, 2));
    assert_eq!(SimpleString::deserialize(b"+OK\r\n").unwrap().get_index(), (0, 4));
    assert_eq!(SimpleError::deserialize(b"-ERR x\r\n").unwrap().get_index(), (0, 7));
    assert_eq!(Integer::deserialize(b":12\r\n").unwrap().get_index(), (0, 4));
    assert_eq!(BulkString::deserialize(b"$2\r\nab\r\n").unwrap().get_index(), (0, 7));
    assert_eq!(Array::deserialize(b"*1\r\n#t\r\n").unwrap().get_index(), (0, 7));
    assert_eq!(Boolean::deserialize(b"#t\r\n").unwrap().get_index(), (0, 3));
}

#[test]
fn copies_and_equality() {
    let nested = Value::Array(Array(vec![
        Value::SimpleString(SimpleString("a".to_owned())),
        Value::Array(Array(vec![Value::Nulls(Nulls), Value::Boolean(Boolean(false))])),
        Value::SimpleError(SimpleError {
            error_type: ErrorType::WRONGTYPE,
            message: "m".to_owned(),
        }),
    ]));
    let copy = clone_value(&nested);
    assert!(same_value(&nested, &copy));
    assert_eq!(nested, copy);
    assert_eq!(nested.clone(), nested);
    let other = Value::Array(Array(vec![
        Value::SimpleString(SimpleString("a".to_owned())),
        Value::Array(Array(vec![Value::Nulls(Nulls), Value::Boolean(Boolean(true))])),
        Value::SimpleError(SimpleError {
            error_type: ErrorType::WRONGTYPE,
            message: "m".to_owned(),
        }),
    ]));
    assert!(!same_value(&nested, &other));
    assert_ne!(nested, other);
    assert_ne!(
        Value::SimpleString(SimpleString("a".to_owned())),
        Value::BulkString(BulkString("a".to_owned()))
    );
    assert_ne!(
        Value::SimpleError(SimpleError { error_type: ErrorType::ERR, message: "m".to_owned() }),
        Value::SimpleError(SimpleError {
            error_type: ErrorType::WRONGTYPE,
            message: "m".to_owned(),
        })
    );
    assert_ne!(Value::Integer(Integer(1)), Value::Integer(Integer(2)));
    assert!(!same_items(&vec![Value::Nulls(Nulls)], &vec![]));
    assert_eq!(Array(vec![Value::Nulls(Nulls)]).clone(), Array(vec![Value::Nulls(Nulls)]));
    assert_ne!(Array(vec![Value::Nulls(Nulls)]), Array(vec![]));
}

#[test]
fn frames_as_bytes() {
    assert_eq!(Boolean(true).encode(), b"#t\r\n".to_vec());
    assert_eq!(Nulls.encode(), b"_\r\n".to_vec());
    assert_eq!(Integer(-5).encode(), b":-5\r\n".to_vec());
    assert_eq!(SimpleString("OK".to_owned()).encode(), b"+OK\r\n".to_vec());
    assert_eq!(SimpleString("OK".to_owned()).serialize(), "+OK\r\n");
    assert_eq!(
        SimpleError { error_type: ErrorType::ERR, message: "x".to_owned() }.encode(),
        b"-ERR x\r\n".to_vec()
    );
    assert_eq!(
        SimpleError { error_type: ErrorType::ERR, message: "x".to_owned() }.serialize(),
        "-ERR x\r\n"
    );
    assert_eq!(Boolean(false).serialize(), "#f\r\n");
    assert_eq!(Nulls.serialize(), "_\r\n");
    assert_eq!(
        encode_array_frame(&vec![Value::Nulls(Nulls), Value::Integer(Integer(1))]),
        b"*2\r\n_\r\n:1\r\n".to_vec()
    );
    assert_eq!(
        Array(vec![Value::Boolean(Boolean(true))]).encode(),
        b"*1\r\n#t\r\n".to_vec()
    );
    assert_eq!(encode_value(&Value::Boolean(Boolean(true))), b"#t\r\n".to_vec());
    assert_eq!(Value::Integer(Integer(12)).encode(), b":12\r\n".to_vec());
    let twelve: Vec<Value> = (0..12).map(|n| Value::Integer(Integer(n))).collect();
    assert!(Array(twelve).serialize().starts_with("*12\r\n:0\r\n:1\r\n"));
}

#[test]
fn error_messages() {
    assert_eq!(
        ParseError::InvalidUTF.message(),
        "request should contain valid UTF-8 characters"
    );
    assert_eq!(ParseError::InvalidFormat.message(), "request has invalid format");
    assert_eq!(ParseError::UnknownValue.message(), "unknown value");
    let reason = ParseError::InvalidFormat;
    assert_eq!(
        RedisError::CommandParseError(reason).message(),
        "Command Parse Error: request has invalid format"
    );
    assert_eq!(
        RedisError::BulkStringParseError(reason).message(),
        "Bulk String Parse Error: request has invalid format"
    );
    assert_eq!(
        RedisError::SimpleStringParseError(ParseError::InvalidUTF).message(),
        "Simple String Parse Error: request should contain valid UTF-8 characters"
    );
    assert_eq!(
        RedisError::SimpleErrorParseError(ParseError::UnknownValue).message(),
        "Simple Error Parse Error: unknown value"
    );
    assert_eq!(
        RedisError::IntegerParseError(reason).message(),
        "Integer Parse Error: request has invalid format"
    );
    assert_eq!(
        RedisError::BooleanParseError(reason).message(),
        "Boolean Parse Error: request has invalid format"
    );
    assert_eq!(
        RedisError::NullsParseError(reason).message(),
        "Nulls Parse Error: request has invalid format"
    );
    assert_eq!(
        RedisError::ValueParseError(reason).message(),
        "Redis Value Parse Error: request has invalid format"
    );
    assert_eq!(RedisError::IndexOutOfBoundError.message(), "index is out of bound");
    assert_eq!(RedisError::CRLFNotFoundError.message(), "CRLF not found");
    assert_eq!(RedisError::UnknownCommand.message(), "Unknown command");
    assert_eq!(RedisError::KeyDoesNotExist.message(), "Key does not exist");
    assert_eq!(RedisError::ExpiredKey.message(), "Key has been expired");
}

#[test]
fn utf8_error_becomes_a_parse_error() {
    let bad = [0xffu8];
    let e = std::str::from_utf8(&bad).unwrap_err();
    assert_eq!(
        RedisError::from(e),
        RedisError::CommandParseError(ParseError::InvalidUTF)
    );
}

#[test]
fn outcome_of_a_kind_becomes_the_outcome_of_a_value() {
    let found = ValueWithIndex::from(SimpleString::deserialize(b"+OK\r\n").unwrap());
    assert_eq!(found.value, Value::SimpleString(SimpleString("OK".to_owned())));
    assert_eq!(found.index, (0, 4));
    let found = ValueWithIndex::from(SimpleError::deserialize(b"-ERR x\r\n").unwrap());
    assert_eq!(
        found.value,
        Value::SimpleError(SimpleError { error_type: ErrorType::ERR, message: "x".to_owned() })
    );
    assert_eq!(found.index, (0, 7));
    let found = ValueWithIndex::from(Integer::deserialize(b":-12\r\n").unwrap());
    assert_eq!(found.value, Value::Integer(Integer(-12)));
    assert_eq!(found.index, (0, 5));
    let found = ValueWithIndex::from(BulkString::deserialize(b"$2\r\nab\r\n").unwrap());
    assert_eq!(found.value, Value::BulkString(BulkString("ab".to_owned())));
    assert_eq!(found.index, (0, 7));
    let found = ValueWithIndex::from(Array::deserialize(b"*1\r\n#f\r\n").unwrap());
    assert_eq!(found.value, Value::Array(Array(vec![Value::Boolean(Boolean(false))])));
    assert_eq!(found.index, (0, 7));
    let found = ValueWithIndex::from(Boolean::deserialize(b"#t\r\n").unwrap());
    assert_eq!(found.value, Value::Boolean(Boolean(true)));
    assert_eq!(found.index, (0, 3));
}
