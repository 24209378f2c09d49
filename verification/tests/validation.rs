//! The validator's rules, one by one, with the edge cases spelled out.

use zero2prod::validation::{validate, ValidationError};

#[test]
fn validator_accepts_a_conforming_submission() {
    let submission = validate("le guin", "ursula_le_guin@gmail.com").unwrap();
    assert_eq!(submission.name(), "le guin");
    assert_eq!(submission.email(), "ursula_le_guin@gmail.com");
}

#[test]
fn validator_rejects_an_empty_name() {
    let err = validate("", "a@b.com").unwrap_err();
    assert_eq!(err, ValidationError::EmptyName);
}

#[test]
fn validator_rejects_a_whitespace_only_name() {
    let err = validate(" \t\n\u{a0}\u{3000} ", "a@b.com").unwrap_err();
    assert_eq!(err, ValidationError::EmptyName);
}

#[test]
fn validator_accepts_a_name_of_256_graphemes() {
    let name = "a".repeat(256);
    assert!(validate(&name, "a@b.com").is_ok());
}

#[test]
fn validator_rejects_a_name_of_257_graphemes() {
    let name = "a".repeat(257);
    let err = validate(&name, "a@b.com").unwrap_err();
    assert_eq!(err, ValidationError::NameTooLong);
}

#[test]
fn validator_counts_graphemes_rather_than_code_points() {
    // 200 copies of "e" + COMBINING ACUTE ACCENT: 400 code points but only
    // 200 user-perceived characters, so the name is within the bound.
    let name = "e\u{301}".repeat(200);
    assert_eq!(name.chars().count(), 400);
    assert!(validate(&name, "a@b.com").is_ok());
}

#[test]
fn validator_rejects_each_forbidden_character() {
    for forbidden in ['/', '(', ')', '"', '<', '>', '\\', '{', '}'] {
        let name = format!("le{}guin", forbidden);
        let err = validate(&name, "a@b.com").unwrap_err();
        assert_eq!(err, ValidationError::ForbiddenCharacter);
    }
}

#[test]
fn validator_rejects_malformed_emails() {
    for bad_email in [
        "",
        "ursula_le_guin.gmail.com",
        "@gmail.com",
        "ursula@",
        "ursula@@gmail.com",
        "ursula le_guin@gmail.com",
    ] {
        let err = validate("le guin", bad_email).unwrap_err();
        assert_eq!(err, ValidationError::InvalidEmail);
    }
}

#[test]
fn validator_checks_name_rules_before_the_email() {
    let err = validate("", "not-an-email").unwrap_err();
    assert_eq!(err, ValidationError::EmptyName);
}

#[test]
fn validator_is_idempotent() {
    let cases = [
        ("le guin", "ursula_le_guin@gmail.com"),
        ("", "a@b.com"),
        ("le/guin", "a@b.com"),
        ("le guin", "not-an-email"),
    ];
    for (name, email) in cases {
        let first = validate(name, email);
        let second = validate(name, email);
        match (&first, &second) {
            (Ok(a), Ok(b)) => {
                assert_eq!(a.name(), b.name());
                assert_eq!(a.email(), b.email());
            }
            (Err(a), Err(b)) => assert_eq!(a, b),
            _ => panic!("the two verdicts disagree for {name:?} / {email:?}"),
        }
    }
}
