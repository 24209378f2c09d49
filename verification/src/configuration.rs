//! Settings the bootstrap hands to the core, and the runtime environment.
//!
//! Loading these values from files and environment variables is the
//! surrounding binary's job; the core only consumes them.

use vstd::prelude::*;
use crate::secret::SecretString;

verus! {

/// Connection parameters for the subscriber storage.
pub struct DatabaseSettings {
    pub username: String,
    pub password: SecretString,
    pub port: u16,
    pub host: String,
    pub database_name: String,
    pub require_ssl: bool,
}

/// Listener parameters for the HTTP server.
pub struct ApplicationSettings {
    pub port: u16,
    pub host: String,
}

/// Everything the process needs before it starts serving.
pub struct Settings {
    pub database: DatabaseSettings,
    pub application: ApplicationSettings,
}

/// The runtime environment the process was started for.
#[derive(Clone, Copy, Debug)]
pub enum Environment {
    Local,
    Production,
}

/// The code of `c` with an ASCII capital letter folded to its small form.
pub open spec fn lower_code(c: char) -> int {
    if 65 <= c as int <= 90 {
        c as int + 32
    } else {
        c as int
    }
}

/// Character-wise equality up to ASCII case.
pub open spec fn eq_ignore_ascii_case(s: Seq<char>, t: Seq<char>) -> bool {
    &&& s.len() == t.len()
    &&& forall|i: int| 0 <= i < s.len() ==> lower_code(s[i]) == lower_code(t[i])
}

impl Environment {
    /// The name under which this environment is selected, and which names its
    /// configuration file.
    pub open spec fn name(self) -> Seq<char> {
        match self {
            Environment::Local => "local"@,
            Environment::Production => "production"@,
        }
    }

    pub fn as_str(&self) -> (r: &'static str)
        ensures
            r@ == self.name(),
    {
        match self {
            Environment::Local => "local",
            Environment::Production => "production",
        }
    }

    /// Selects the environment named by `value`, matching without regard to
    /// ASCII case. A value that names no environment is handed back unchanged
    /// as the error, for the caller to report.
    pub fn try_from(value: String) -> (r: Result<Environment, String>)
        ensures
            r is Ok <==> eq_ignore_ascii_case(value@, "local"@) || eq_ignore_ascii_case(
                value@,
                "production"@,
            ),
            r is Ok ==> (r->Ok_0 is Local <==> eq_ignore_ascii_case(value@, "local"@)),
            r is Ok ==> (r->Ok_0 is Production <==> eq_ignore_ascii_case(value@, "production"@)),
            r is Err ==> r->Err_0@ == value@,
    {
        proof {
            reveal_strlit("local");
            reveal_strlit("production");
        }
        if str_eq_ignore_ascii_case(value.as_str(), "local") {
            Ok(Environment::Local)
        } else if str_eq_ignore_ascii_case(value.as_str(), "production") {
            Ok(Environment::Production)
        } else {
            Err(value)
        }
    }
}

/// Compares two strings character by character up to ASCII case.
fn str_eq_ignore_ascii_case(s: &str, t: &str) -> (b: bool)
    ensures
        b == eq_ignore_ascii_case(s@, t@),
{
    let s_len = s.unicode_len();
    let t_len = t.unicode_len();
    if s_len != t_len {
        return false;
    }
    let mut i: usize = 0;
    while i < s_len
        invariant
            s_len == s@.len(),
            t_len == t@.len(),
            s_len == t_len,
            0 <= i <= s_len,
            forall|j: int| 0 <= j < i ==> lower_code(s@[j]) == lower_code(t@[j]),
        decreases s_len - i,
    {
        let sc = s.get_char(i);
        let tc = t.get_char(i);
        if lower_code_of(sc) != lower_code_of(tc) {
            return false;
        }
        i = i + 1;
    }
    true
}

/// The ASCII-case-folded code of one character.
fn lower_code_of(c: char) -> (r: u32)
    ensures
        r == lower_code(c),
{
    let v = c as u32;
    if 65 <= v && v <= 90 {
        v + 32
    } else {
        v
    }
}

} // verus!
