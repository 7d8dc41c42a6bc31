//! Value decoding: hex strings, quoted strings, integers, algorithm names.

use vectest::case::DigestAlg;
use vectest::case::TestCase;
use vectest::errors::TestError;
use vectest::hex::from_hex;

fn case_with(entries: &[(&str, &str)]) -> TestCase {
    let mut case = TestCase::new();
    for (k, v) in entries {
        case.push_attribute((*k).to_string(), (*v).to_string());
    }
    case
}

#[test]
fn hex_decodes_digit_pairs() {
    assert_eq!(from_hex("00ff10"), Ok(vec![0x00, 0xff, 0x10]));
    assert_eq!(from_hex("A28C"), Ok(vec![0xa2, 0x8c]));
    assert_eq!(from_hex(""), Ok(vec![]));
}

#[test]
fn hex_is_case_insensitive() {
    assert_eq!(from_hex("aBcDeF"), from_hex("ABCDEF"));
    assert_eq!(from_hex("2b11cb"), Ok(vec![0x2b, 0x11, 0xcb]));
}

#[test]
fn hex_rejects_odd_length() {
    assert_eq!(from_hex("abc"), Err(TestError::MalformedHex));
}

#[test]
fn hex_rejects_non_digits() {
    assert_eq!(from_hex("0g"), Err(TestError::MalformedHex));
    assert_eq!(from_hex("zz"), Err(TestError::MalformedHex));
}

#[test]
fn quoted_value_gives_verbatim_bytes() {
    let mut case = case_with(&[("Input", "\"My test data\"")]);
    assert_eq!(case.consume_bytes("Input"), Ok(b"My test data".to_vec()));
}

#[test]
fn quoted_empty_string_gives_empty_bytes() {
    let mut case = case_with(&[("Key", "\"\"")]);
    assert_eq!(case.consume_bytes("Key"), Ok(vec![]));
}

#[test]
fn unterminated_quote_is_malformed() {
    let mut case = case_with(&[("Key", "\"abc")]);
    assert_eq!(case.consume_bytes("Key"), Err(TestError::MalformedQuoted));
}

#[test]
fn unquoted_value_is_decoded_as_hex() {
    let mut case = case_with(&[("Key", "0a0B")]);
    assert_eq!(case.consume_bytes("Key"), Ok(vec![0x0a, 0x0b]));
}

#[test]
fn consume_usize_reads_decimal() {
    let mut case = case_with(&[("Len", "123"), ("Zero", "0")]);
    assert_eq!(case.consume_usize("Len"), Ok(123));
    assert_eq!(case.consume_usize("Zero"), Ok(0));
}

#[test]
fn consume_usize_rejects_non_decimal() {
    let mut case = case_with(&[("A", "12a"), ("B", "99999999999999999999999999")]);
    assert_eq!(case.consume_usize("A"), Err(TestError::MalformedInteger));
    assert_eq!(case.consume_usize("B"), Err(TestError::MalformedInteger));
}

#[test]
fn digest_alg_names_resolve() {
    let mut case = case_with(&[
        ("A", "SHA1"),
        ("B", "SHA224"),
        ("C", "SHA256"),
        ("D", "SHA384"),
        ("E", "SHA512"),
        ("F", "SHA512_256"),
        ("G", "MD5"),
    ]);
    assert_eq!(case.consume_digest_alg("A"), Ok(Some(DigestAlg::Sha1)));
    assert_eq!(case.consume_digest_alg("B"), Ok(None));
    assert_eq!(case.consume_digest_alg("C"), Ok(Some(DigestAlg::Sha256)));
    assert_eq!(case.consume_digest_alg("D"), Ok(Some(DigestAlg::Sha384)));
    assert_eq!(case.consume_digest_alg("E"), Ok(Some(DigestAlg::Sha512)));
    assert_eq!(case.consume_digest_alg("F"), Ok(Some(DigestAlg::Sha512_256)));
    assert_eq!(case.consume_digest_alg("G"), Err(TestError::UnsupportedAlgorithm));
}

#[test]
fn missing_attribute_is_an_error() {
    let mut case = case_with(&[("Key", "Value")]);
    assert_eq!(case.consume_string("Other"), Err(TestError::MissingAttribute));
}

#[test]
fn optional_missing_attribute_is_none() {
    let mut case = case_with(&[("Key", "Value")]);
    assert_eq!(case.consume_optional_string("Other"), Ok(None));
}

#[test]
fn second_read_is_already_consumed() {
    let mut case = case_with(&[("Key", "Value")]);
    assert_eq!(case.consume_string("Key"), Ok("Value".to_string()));
    assert_eq!(case.consume_string("Key"), Err(TestError::AlreadyConsumed));
}
