use xsd_parser::error::{Error, IntErrorKind};
use xsd_parser::lists::{dynamic_list, split_list, static_list};

#[test]
fn lists_are_split_at_separators() {
    let parts = split_list(b"1 2|3,,4;");
    let expected: Vec<Vec<u8>> = vec![b"1".to_vec(), b"2".to_vec(), b"3".to_vec(), b"".to_vec(), b"4".to_vec(), b"".to_vec()];
    assert_eq!(parts, expected);
    assert_eq!(split_list(b""), vec![Vec::<u8>::new()]);
}

#[test]
fn dynamic_list_reads_every_part() {
    let v: Vec<u32> = dynamic_list(b"1 2 3").unwrap();
    assert_eq!(v, vec![1, 2, 3]);
    let r: Result<Vec<u32>, Error> = dynamic_list(b"1 x 3");
    assert!(matches!(r, Err(Error::InvalidNumber(ref p)) if p.error == IntErrorKind::InvalidDigit && p.value == "x"));
    let r: Result<Vec<u32>, Error> = dynamic_list(b"1  3");
    assert!(matches!(r, Err(Error::InvalidNumber(ref p)) if p.error == IntErrorKind::Empty));
}

#[test]
fn static_list_needs_its_size() {
    let v: Vec<u32> = static_list(b"1,2", 2).unwrap();
    assert_eq!(v, vec![1, 2]);
    let r: Result<Vec<u32>, Error> = static_list(b"1", 2);
    assert!(matches!(r, Err(Error::InsufficientSize { min: 2, max: 2, actual: 1 })));
    let r: Result<Vec<u32>, Error> = static_list(b"1 2 x", 2);
    assert!(matches!(r, Err(Error::InsufficientSize { min: 2, max: 2, actual: 2 })));
    let r: Result<Vec<u32>, Error> = static_list(b"x 2 3", 2);
    assert!(matches!(r, Err(Error::InvalidNumber(_))));
}
