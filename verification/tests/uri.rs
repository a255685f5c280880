use bagger::uri::{hex_decode, percent_decode, text_of, DecodeError};
use bagger::Uri;

#[test]
fn two_digits_name_a_byte() {
    assert_eq!(hex_decode(b'4', b'1'), Ok(0x41));
    assert_eq!(hex_decode(b'0', b'0'), Ok(0));
    assert_eq!(hex_decode(b'9', b'9'), Ok(0x99));
}

#[test]
fn the_six_bytes_after_nine_count_as_digits() {
    assert_eq!(hex_decode(b'2', b':'), Ok(42));
    assert_eq!(hex_decode(b'?', b'?'), Ok(255));
}

#[test]
fn letters_and_bytes_before_zero_are_no_digits() {
    assert_eq!(hex_decode(b'4', b'A'), Err(DecodeError::InvalidHexDigit));
    assert_eq!(hex_decode(b'a', b'0'), Err(DecodeError::InvalidHexDigit));
    assert_eq!(hex_decode(b'/', b'0'), Err(DecodeError::InvalidHexDigit));
    assert_eq!(hex_decode(b'0', b' '), Err(DecodeError::InvalidHexDigit));
    assert_eq!(hex_decode(b'@', b'0'), Err(DecodeError::InvalidHexDigit));
}

#[test]
fn percent_decoding_replaces_escapes() {
    assert_eq!(percent_decode("hello"), Ok("hello".to_string()));
    assert_eq!(percent_decode(""), Ok(String::new()));
    assert_eq!(percent_decode("a%20b"), Ok("a b".to_string()));
    assert_eq!(percent_decode("%41%42"), Ok("AB".to_string()));
    assert_eq!(percent_decode("100%25"), Ok("100%".to_string()));
}

#[test]
fn percent_decoding_reports_the_first_fault() {
    assert_eq!(percent_decode("a%4"), Err(DecodeError::IncompleteHexByte));
    assert_eq!(percent_decode("a%"), Err(DecodeError::IncompleteHexByte));
    assert_eq!(percent_decode("a%4Gb"), Err(DecodeError::InvalidHexDigit));
    assert_eq!(percent_decode("%zz%4"), Err(DecodeError::InvalidHexDigit));
    assert_eq!(percent_decode("%80"), Err(DecodeError::NotUtf8));
}

#[test]
fn decode_errors_have_their_words() {
    assert_eq!(DecodeError::InvalidHexDigit.message(), "invalid hex digit");
    assert_eq!(DecodeError::IncompleteHexByte.message(), "incomplete hex byte");
    assert_eq!(
        DecodeError::NotUtf8.message(),
        "percent-encoded string is not valid UTF-8"
    );
}

#[test]
fn bytes_that_are_utf8_are_text() {
    assert_eq!(text_of(vec![0xc3, 0xa9]), Some("é".to_string()));
    assert_eq!(text_of(vec![0xc3]), None);
    assert_eq!(text_of(Vec::new()), Some(String::new()));
}

#[test]
fn a_local_locator_is_a_path_alone() {
    let uri = Uri::local("./tests/hello.txt");
    assert_eq!(uri.scheme, None);
    assert_eq!(uri.auth, None);
    assert_eq!(uri.host, None);
    assert_eq!(uri.path, "./tests/hello.txt");
}
