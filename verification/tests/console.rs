use neural_os::console::decimal_digits;
use neural_os::uart::expand_newlines;

#[test]
fn decimal_digits_of_numbers() {
    assert_eq!(decimal_digits(0), b"0".to_vec());
    assert_eq!(decimal_digits(7), b"7".to_vec());
    assert_eq!(decimal_digits(1200), b"1200".to_vec());
    assert_eq!(decimal_digits(usize::MAX), usize::MAX.to_string().into_bytes());
}

#[test]
fn newlines_get_carriage_returns() {
    assert_eq!(expand_newlines(b"a\nb"), b"a\r\nb".to_vec());
    assert_eq!(expand_newlines(b"\n\n"), b"\r\n\r\n".to_vec());
    assert_eq!(expand_newlines(b""), Vec::<u8>::new());
    assert_eq!(expand_newlines(b"plain"), b"plain".to_vec());
}
