//! Decoding of form-encoded bodies: escapes, field lookup, and the
//! rejections for missing or undecodable fields.

use zero2prod::form::{parse_form, DecodeError};

#[test]
fn parse_form_decodes_percent_and_plus_escapes() {
    let form = parse_form(b"name=le+guin%21&email=a%40b.com").unwrap();
    assert_eq!(form.name, "le guin!");
    assert_eq!(form.email, "a@b.com");
}

#[test]
fn parse_form_decodes_multi_byte_utf8_escapes() {
    let form = parse_form(b"name=%C3%A9&email=a%40b.com").unwrap();
    assert_eq!(form.name, "\u{e9}");
}

#[test]
fn parse_form_reports_a_missing_name_first() {
    assert_eq!(parse_form(b"").unwrap_err(), DecodeError::MissingName);
    assert_eq!(
        parse_form(b"email=a%40b.com").unwrap_err(),
        DecodeError::MissingName
    );
}

#[test]
fn parse_form_reports_a_missing_email() {
    assert_eq!(
        parse_form(b"name=le%20guin").unwrap_err(),
        DecodeError::MissingEmail
    );
}

#[test]
fn parse_form_rejects_fields_that_are_not_utf8() {
    assert_eq!(
        parse_form(b"name=%FF&email=a%40b.com").unwrap_err(),
        DecodeError::NameNotUtf8
    );
    assert_eq!(
        parse_form(b"name=x&email=%FF").unwrap_err(),
        DecodeError::EmailNotUtf8
    );
}

#[test]
fn parse_form_rejects_a_repeated_field() {
    assert_eq!(
        parse_form(b"name=first&name=second&email=a%40b.com").unwrap_err(),
        DecodeError::DuplicateName
    );
    assert_eq!(
        parse_form(b"name=x&email=a%40b.com&email=b%40c.de").unwrap_err(),
        DecodeError::DuplicateEmail
    );
}

#[test]
fn parse_form_passes_incomplete_escapes_through() {
    let form = parse_form(b"name=%G1%2&email=a%40b.com").unwrap();
    assert_eq!(form.name, "%G1%2");
}

#[test]
fn parse_form_decodes_escapes_in_keys() {
    let form = parse_form(b"n%61me=x&email=a%40b.com").unwrap();
    assert_eq!(form.name, "x");
}

#[test]
fn parse_form_gives_a_segment_without_equals_an_empty_value() {
    let form = parse_form(b"name&email=a%40b.com").unwrap();
    assert_eq!(form.name, "");
}

#[test]
fn parse_form_ignores_unknown_fields() {
    let form = parse_form(b"hp=1&name=le+guin&email=a%40b.com&extra=2").unwrap();
    assert_eq!(form.name, "le guin");
    assert_eq!(form.email, "a@b.com");
}
