use xsd_parser::bytes::{local_name_of, trim_ascii_bytes};
use xsd_parser::deserialize_bytes::DeserializeBytes;
use xsd_parser::error::{Error, IntErrorKind};

#[test]
fn bool_spellings() {
    for w in ["TRUE", "True", "true", "YES", "Yes", "yes", "1"] {
        assert_eq!(bool::deserialize_bytes(w.as_bytes()).unwrap(), true);
    }
    for w in ["FALSE", "False", "false", "NO", "No", "no", "0"] {
        assert_eq!(bool::deserialize_bytes(w.as_bytes()).unwrap(), false);
    }
    match bool::deserialize_bytes(b"tRue") {
        Err(Error::UnknownOrInvalidValue(v)) => assert_eq!(v, b"tRue".to_vec()),
        _ => panic!(),
    }
    assert!(bool::deserialize_str("yes").unwrap());
}

#[test]
fn string_from_bytes() {
    assert_eq!(String::deserialize_bytes("grüß".as_bytes()).unwrap(), "grüß");
    assert!(matches!(String::deserialize_bytes(&[0xc3]), Err(Error::InvalidUtf8)));
}

fn int_error<T: DeserializeBytes + std::fmt::Debug>(s: &str) -> IntErrorKind {
    match T::deserialize_bytes(s.as_bytes()) {
        Err(Error::InvalidNumber(e)) => {
            assert_eq!(e.value, s);
            e.error
        }
        other => panic!("expected a number error, got {:?}", other.map(|_| ())),
    }
}

#[test]
fn unsigned_integers() {
    assert_eq!(u8::deserialize_bytes(b"255").unwrap(), 255);
    assert_eq!(u8::deserialize_bytes(b"+7").unwrap(), 7);
    assert_eq!(u16::deserialize_bytes(b"65535").unwrap(), 65535);
    assert_eq!(u32::deserialize_bytes(b"0004294967295").unwrap(), 4294967295);
    assert_eq!(u64::deserialize_bytes(b"18446744073709551615").unwrap(), u64::MAX);
    assert_eq!(usize::deserialize_bytes(b"12").unwrap(), 12);
    assert_eq!(int_error::<u8>("256"), IntErrorKind::PosOverflow);
    assert_eq!(int_error::<u8>("-1"), IntErrorKind::InvalidDigit);
    assert_eq!(int_error::<u8>(""), IntErrorKind::Empty);
    assert_eq!(int_error::<u8>("+"), IntErrorKind::InvalidDigit);
    assert_eq!(int_error::<u32>("12a"), IntErrorKind::InvalidDigit);
    assert_eq!(int_error::<u32>(" 1"), IntErrorKind::InvalidDigit);
    assert_eq!(int_error::<u64>("18446744073709551616"), IntErrorKind::PosOverflow);
}

#[test]
fn signed_integers() {
    assert_eq!(i8::deserialize_bytes(b"-128").unwrap(), -128);
    assert_eq!(i8::deserialize_bytes(b"127").unwrap(), 127);
    assert_eq!(i16::deserialize_bytes(b"-32768").unwrap(), i16::MIN);
    assert_eq!(i32::deserialize_bytes(b"+42").unwrap(), 42);
    assert_eq!(i64::deserialize_bytes(b"-9223372036854775808").unwrap(), i64::MIN);
    assert_eq!(isize::deserialize_bytes(b"-3").unwrap(), -3);
    assert_eq!(int_error::<i8>("128"), IntErrorKind::PosOverflow);
    assert_eq!(int_error::<i8>("-129"), IntErrorKind::NegOverflow);
    assert_eq!(int_error::<i8>("-"), IntErrorKind::InvalidDigit);
    assert_eq!(int_error::<i32>("--1"), IntErrorKind::InvalidDigit);
    assert!(matches!(i32::deserialize_bytes(&[0x31, 0xff]), Err(Error::InvalidUtf8)));
}

#[test]
fn integers_agree_with_std() {
    for s in ["0", "+0", "-0", "00", "+", "-", "", "1a", "99999", "-99999", "255", "256", "-128", "-129", "+127", "128", "4294967296", "-2147483649"] {
        let ours = u8::deserialize_bytes(s.as_bytes()).ok();
        assert_eq!(ours, s.parse::<u8>().ok(), "u8 {}", s);
        let ours = i8::deserialize_bytes(s.as_bytes()).ok();
        assert_eq!(ours, s.parse::<i8>().ok(), "i8 {}", s);
        let ours = u32::deserialize_bytes(s.as_bytes()).ok();
        assert_eq!(ours, s.parse::<u32>().ok(), "u32 {}", s);
        let ours = i32::deserialize_bytes(s.as_bytes()).ok();
        assert_eq!(ours, s.parse::<i32>().ok(), "i32 {}", s);
        if let (Err(Error::InvalidNumber(e)), Err(std_e)) = (i8::deserialize_bytes(s.as_bytes()), s.parse::<i8>()) {
            let k = match std_e.kind() {
                std::num::IntErrorKind::Empty => IntErrorKind::Empty,
                std::num::IntErrorKind::InvalidDigit => IntErrorKind::InvalidDigit,
                std::num::IntErrorKind::PosOverflow => IntErrorKind::PosOverflow,
                std::num::IntErrorKind::NegOverflow => IntErrorKind::NegOverflow,
                _ => panic!(),
            };
            assert_eq!(e.error, k, "kind of {}", s);
        }
    }
}

#[test]
fn trimming_ascii_whitespace() {
    assert_eq!(trim_ascii_bytes(b" \t\n\x0c\rab c\r\n "), b"ab c".to_vec());
    assert_eq!(trim_ascii_bytes(b"   "), Vec::<u8>::new());
    assert_eq!(trim_ascii_bytes(b"x"), b"x".to_vec());
    assert_eq!(trim_ascii_bytes(b" x y ").as_slice(), b" x y ".trim_ascii());
}

#[test]
fn local_names() {
    assert_eq!(local_name_of(b"tns:Foo"), b"Foo".to_vec());
    assert_eq!(local_name_of(b"Foo"), b"Foo".to_vec());
    assert_eq!(local_name_of(b"a:b:c"), b"b:c".to_vec());
    assert_eq!(local_name_of(b":x"), b"x".to_vec());
}

#[test]
fn string_and_bytes_parse_alike() {
    assert_eq!(u8::deserialize_str("255").unwrap(), u8::deserialize_bytes(b"255").unwrap());
    let a = u8::deserialize_str("256");
    let b = u8::deserialize_bytes(b"256");
    match (a, b) {
        (Err(Error::InvalidNumber(x)), Err(Error::InvalidNumber(y))) => {
            assert_eq!(x.value, "256");
            assert_eq!(x.value, y.value);
            assert_eq!(x.error, y.error);
        }
        _ => panic!("both must fail with the number error"),
    }
    assert!(matches!(u32::deserialize_bytes(&[0xff, 0x31]), Err(Error::InvalidUtf8)));
    assert!(matches!(String::deserialize_bytes(&[0xff]), Err(Error::InvalidUtf8)));
}
