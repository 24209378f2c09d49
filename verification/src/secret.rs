//! A wrapper for credentials that must not leak into diagnostics.

use vstd::prelude::*;

verus! {

/// A string that is kept out of logs and error output.
///
/// The wrapped value offers no ordinary string conversion; the one way back
/// to the characters is the explicit [`SecretString::expose_secret`], which a
/// caller uses only at the point where the secret is consumed, such as when
/// opening a storage connection.
pub struct SecretString {
    value: String,
}

impl View for SecretString {
    type V = Seq<char>;

    closed spec fn view(&self) -> Seq<char> {
        self.value@
    }
}

impl SecretString {
    /// Wraps a freshly supplied secret.
    pub fn new(value: String) -> (s: SecretString)
        ensures
            s@ == value@,
    {
        SecretString { value }
    }

    /// Reveals the wrapped value; to be called only where the secret is
    /// actually needed.
    pub fn expose_secret(&self) -> (r: &String)
        ensures
            r@ == self@,
    {
        &self.value
    }
}

} // verus!
