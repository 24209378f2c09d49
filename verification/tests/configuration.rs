//! Environment selection and the secret wrapper.

use zero2prod::configuration::Environment;
use zero2prod::secret::SecretString;

#[test]
fn environment_names_round_trip() {
    assert_eq!(Environment::Local.as_str(), "local");
    assert_eq!(Environment::Production.as_str(), "production");
    assert!(matches!(
        Environment::try_from(String::from("local")),
        Ok(Environment::Local)
    ));
    assert!(matches!(
        Environment::try_from(String::from("production")),
        Ok(Environment::Production)
    ));
}

#[test]
fn environment_selection_ignores_ascii_case() {
    assert!(matches!(
        Environment::try_from(String::from("LOCAL")),
        Ok(Environment::Local)
    ));
    assert!(matches!(
        Environment::try_from(String::from("Production")),
        Ok(Environment::Production)
    ));
}

#[test]
fn environment_selection_hands_back_an_unsupported_name() {
    let err = Environment::try_from(String::from("staging")).unwrap_err();
    assert_eq!(err, "staging");
}

#[test]
fn secret_string_reveals_only_through_expose_secret() {
    let secret = SecretString::new(String::from("swordfish"));
    assert_eq!(secret.expose_secret(), "swordfish");
}
