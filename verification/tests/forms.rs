//! Form decoding behaviour: key lookup, percent and plus decoding, and the
//! two rejection cases.

use greeter::forms::parse_form;
use greeter::forms::FormError;

#[test]
fn plain_name_is_decoded() {
    let f = parse_form(b"name=World").unwrap();
    assert_eq!(f.name, "World");
}

#[test]
fn empty_value_is_decoded_as_empty() {
    let f = parse_form(b"name=").unwrap();
    assert_eq!(f.name, "");
}

#[test]
fn name_key_must_be_present() {
    assert_eq!(parse_form(b"").unwrap_err(), FormError::MissingName);
    assert_eq!(parse_form(b"other=x").unwrap_err(), FormError::MissingName);
    assert_eq!(parse_form(b"names=x").unwrap_err(), FormError::MissingName);
    assert_eq!(parse_form(b"name").unwrap().name, "");
}

#[test]
fn plus_decodes_to_space() {
    let f = parse_form(b"name=Ada+Lovelace").unwrap();
    assert_eq!(f.name, "Ada Lovelace");
}

#[test]
fn percent_escapes_are_decoded() {
    let f = parse_form(b"name=a%2Bb").unwrap();
    assert_eq!(f.name, "a+b");
    let f2 = parse_form(b"name=%26%3C%3E%22%27").unwrap();
    assert_eq!(f2.name, "&<>\"'");
    let f3 = parse_form(b"name=%C3%A9").unwrap();
    assert_eq!(f3.name, "\u{e9}");
}

#[test]
fn ill_formed_percent_stands_unchanged() {
    let f = parse_form(b"name=100%").unwrap();
    assert_eq!(f.name, "100%");
    let f2 = parse_form(b"name=%zz").unwrap();
    assert_eq!(f2.name, "%zz");
}

#[test]
fn decoded_value_must_be_utf8() {
    assert_eq!(parse_form(b"name=%FF").unwrap_err(), FormError::Malformed);
}

#[test]
fn first_name_segment_wins() {
    let f = parse_form(b"greeting=hi&name=First&name=Second").unwrap();
    assert_eq!(f.name, "First");
}

#[test]
fn key_is_percent_decoded_too() {
    let f = parse_form(b"na%6De=Z").unwrap();
    assert_eq!(f.name, "Z");
}
