//! The validator: decides whether a submitted name and email are acceptable.
//!
//! The rules, each checked independently: the name must not be empty once
//! surrounding whitespace is trimmed, must not exceed
//! [`MAX_NAME_GRAPHEMES`] user-perceived characters, and must not contain a
//! forbidden character; the email must be syntactically well-formed. That
//! last rule is a deliberate policy choice: an address must parse, not
//! merely be present. The verdict is a function of the submitted fields
//! alone, so validating the same input twice yields the same verdict.

use vstd::prelude::*;

verus! {

/// The largest accepted name length, counted in extended grapheme clusters.
pub const MAX_NAME_GRAPHEMES: usize = 256;

/// The code points with the Unicode `White_Space` property, exactly those
/// that trimming removes from the ends of a string.
pub open spec fn is_space_char(c: char) -> bool {
    ||| c as int == 0x09
    ||| c as int == 0x0a
    ||| c as int == 0x0b
    ||| c as int == 0x0c
    ||| c as int == 0x0d
    ||| c as int == 0x20
    ||| c as int == 0x85
    ||| c as int == 0xa0
    ||| c as int == 0x1680
    ||| (0x2000 <= c as int && c as int <= 0x200a)
    ||| c as int == 0x2028
    ||| c as int == 0x2029
    ||| c as int == 0x202f
    ||| c as int == 0x205f
    ||| c as int == 0x3000
}

/// The characters a subscriber name may not contain.
pub open spec fn is_forbidden_char(c: char) -> bool {
    ||| c == '/'
    ||| c == '('
    ||| c == ')'
    ||| c == '"'
    ||| c == '<'
    ||| c == '>'
    ||| c == '\\'
    ||| c == '{'
    ||| c == '}'
}

/// True when every character is whitespace, so that trimming leaves nothing.
pub open spec fn all_whitespace(s: Seq<char>) -> bool {
    forall|k: int| 0 <= k < s.len() ==> is_space_char(s[k])
}

/// True when some character of `s` is forbidden in a name.
pub open spec fn has_forbidden_char(s: Seq<char>) -> bool {
    exists|k: int| 0 <= k < s.len() && is_forbidden_char(s[k])
}

/// The number of extended grapheme clusters of a character sequence.
pub uninterp spec fn grapheme_count(s: Seq<char>) -> nat;

/// `s` splits at position `i` into a non-empty local part, one `@`, and a
/// non-empty domain.
pub open spec fn email_splits_at(s: Seq<char>, i: int) -> bool {
    0 < i && i + 1 < s.len() && s[i] == '@'
}

/// A syntactically well-formed email address: exactly one `@`, with
/// something on each side of it, and no whitespace anywhere.
pub open spec fn valid_email(s: Seq<char>) -> bool {
    &&& exists|i: int| email_splits_at(s, i)
    &&& forall|p: int, q: int| 0 <= p < q < s.len() ==> !(s[p] == '@' && s[q] == '@')
    &&& forall|k: int| 0 <= k < s.len() ==> !is_space_char(s[k])
}

/// Every rule a submitted name must meet.
pub open spec fn valid_name(s: Seq<char>) -> bool {
    &&& !all_whitespace(s)
    &&& grapheme_count(s) <= MAX_NAME_GRAPHEMES
    &&& !has_forbidden_char(s)
}

/// Why a submission was rejected.
#[derive(PartialEq, Eq, Structural, Clone, Copy, Debug)]
pub enum ValidationError {
    /// The name is empty once surrounding whitespace is trimmed.
    EmptyName,
    /// The name exceeds [`MAX_NAME_GRAPHEMES`] grapheme clusters.
    NameTooLong,
    /// The name contains a forbidden character.
    ForbiddenCharacter,
    /// The email is not a well-formed address.
    InvalidEmail,
}

/// The verdict the validator owes for the given fields: `None` to accept,
/// otherwise the error reported. Name rules are reported before the email
/// rule, emptiness before length before forbidden characters.
pub open spec fn validation_verdict(name: Seq<char>, email: Seq<char>) -> Option<ValidationError> {
    if all_whitespace(name) {
        Some(ValidationError::EmptyName)
    } else if grapheme_count(name) > MAX_NAME_GRAPHEMES {
        Some(ValidationError::NameTooLong)
    } else if has_forbidden_char(name) {
        Some(ValidationError::ForbiddenCharacter)
    } else if !valid_email(email) {
        Some(ValidationError::InvalidEmail)
    } else {
        None
    }
}

/// A submission that has passed every rule of the validator.
///
/// Values exist only as results of [`validate`], so holding one is holding
/// the verdict.
#[derive(Debug)]
pub struct ValidSubmission {
    name: String,
    email: String,
}

impl ValidSubmission {
    /// The accepted name.
    pub closed spec fn spec_name(&self) -> Seq<char> {
        self.name@
    }

    /// The accepted email address.
    pub closed spec fn spec_email(&self) -> Seq<char> {
        self.email@
    }

    /// Both fields meet the validator's rules.
    pub open spec fn wf(&self) -> bool {
        valid_name(self.spec_name()) && valid_email(self.spec_email())
    }

    pub fn name(&self) -> (r: &String)
        ensures
            r@ == self.spec_name(),
    {
        &self.name
    }

    pub fn email(&self) -> (r: &String)
        ensures
            r@ == self.spec_email(),
    {
        &self.email
    }
}

/// Decides whether the submitted fields are acceptable.
///
/// The result is exactly [`validation_verdict`] of the two fields: the
/// submission is accepted precisely when the name is non-empty after
/// trimming, within the length bound, free of forbidden characters, and the
/// email is well-formed.
pub fn validate(name: &str, email: &str) -> (r: Result<ValidSubmission, ValidationError>)
    ensures
        r is Ok <==> validation_verdict(name@, email@) is None,
        r is Err ==> validation_verdict(name@, email@) == Some(r->Err_0),
        r is Ok ==> r->Ok_0.spec_name() == name@ && r->Ok_0.spec_email() == email@
            && r->Ok_0.wf(),
{
    let (has_non_space, has_forbidden) = scan_name(name);
    if !has_non_space {
        Err(ValidationError::EmptyName)
    } else if count_graphemes(name) > MAX_NAME_GRAPHEMES {
        Err(ValidationError::NameTooLong)
    } else if has_forbidden {
        Err(ValidationError::ForbiddenCharacter)
    } else if !email_is_valid(email) {
        Err(ValidationError::InvalidEmail)
    } else {
        Ok(ValidSubmission { name: name.to_owned(), email: email.to_owned() })
    }
}

/// A submission meeting every rule is accepted.
pub proof fn lemma_every_rule_met_accepts(name: Seq<char>, email: Seq<char>)
    requires
        !all_whitespace(name),
        grapheme_count(name) <= MAX_NAME_GRAPHEMES,
        !has_forbidden_char(name),
        valid_email(email),
    ensures
        validation_verdict(name, email) is None,
{
}

/// A submission breaking any one rule is rejected, whatever the other field
/// holds.
pub proof fn lemma_any_violation_rejects(name: Seq<char>, email: Seq<char>)
    ensures
        all_whitespace(name) ==> validation_verdict(name, email) is Some,
        grapheme_count(name) > MAX_NAME_GRAPHEMES ==> validation_verdict(name, email) is Some,
        has_forbidden_char(name) ==> validation_verdict(name, email) is Some,
        !valid_email(email) ==> validation_verdict(name, email) is Some,
{
}

/// Validation is idempotent: the verdict depends on the submitted fields
/// alone, so two runs over the same fields agree.
pub proof fn lemma_validation_idempotent(
    name1: Seq<char>,
    email1: Seq<char>,
    name2: Seq<char>,
    email2: Seq<char>,
)
    requires
        name1 == name2,
        email1 == email2,
    ensures
        validation_verdict(name1, email1) == validation_verdict(name2, email2),
{
}

/// Relies on `unicode_segmentation::UnicodeSegmentation::graphemes`: the
/// decomposition of a string into extended grapheme clusters is a function
/// of its characters alone, and an empty string has none.
#[verifier::external_body]
fn count_graphemes(s: &str) -> (n: usize)
    ensures
        n == grapheme_count(s@),
        s@.len() == 0 ==> n == 0,
{
    unicode_segmentation::UnicodeSegmentation::graphemes(s, true).count()
}

/// One pass over the name: whether some character is not whitespace, and
/// whether some character is forbidden.
fn scan_name(s: &str) -> (r: (bool, bool))
    ensures
        r.0 == !all_whitespace(s@),
        r.1 == has_forbidden_char(s@),
{
    let len = s.unicode_len();
    let mut has_non_space = false;
    let mut has_forbidden = false;
    let mut i: usize = 0;
    while i < len
        invariant
            len == s@.len(),
            0 <= i <= len,
            has_non_space == (exists|k: int| 0 <= k < i && !is_space_char(s@[k])),
            has_forbidden == (exists|k: int| 0 <= k < i && is_forbidden_char(s@[k])),
        decreases len - i,
    {
        let c = s.get_char(i);
        if !char_is_space(c) {
            has_non_space = true;
        }
        if char_is_forbidden(c) {
            has_forbidden = true;
        }
        i = i + 1;
    }
    proof {
        if !has_non_space {
            assert(all_whitespace(s@));
        }
    }
    (has_non_space, has_forbidden)
}

/// Decides [`valid_email`] in one pass.
fn email_is_valid(s: &str) -> (b: bool)
    ensures
        b == valid_email(s@),
{
    let len = s.unicode_len();
    let mut first_at: Option<usize> = None;
    let mut second_at = false;
    let mut has_space = false;
    let mut i: usize = 0;
    while i < len
        invariant
            len == s@.len(),
            0 <= i <= len,
            first_at is None ==> forall|k: int| 0 <= k < i ==> s@[k] != '@',
            first_at is Some ==> 0 <= first_at->0 < i && s@[first_at->0 as int] == '@'
                && (forall|k: int| 0 <= k < first_at->0 ==> s@[k] != '@'),
            second_at == (exists|p: int, q: int|
                0 <= p < q < i && s@[p] == '@' && s@[q] == '@'),
            has_space == (exists|k: int| 0 <= k < i && is_space_char(s@[k])),
        decreases len - i,
    {
        let c = s.get_char(i);
        if c == '@' {
            match first_at {
                None => {
                    first_at = Some(i);
                },
                Some(a) => {
                    proof {
                        assert(s@[a as int] == '@' && s@[i as int] == '@');
                    }
                    second_at = true;
                },
            }
        }
        if char_is_space(c) {
            has_space = true;
        }
        i = i + 1;
    }
    match first_at {
        None => {
            proof {
                assert(!valid_email(s@)) by {
                    if exists|j: int| email_splits_at(s@, j) {
                        let j = choose|j: int| email_splits_at(s@, j);
                        assert(s@[j] == '@');
                    }
                }
            }
            false
        },
        Some(a) => {
            let ok = !second_at && !has_space && a > 0 && a + 1 < len;
            proof {
                if ok {
                    assert(email_splits_at(s@, a as int));
                } else if !second_at && !has_space {
                    // The first `@` is the only one, but it sits at an end.
                    if exists|j: int| email_splits_at(s@, j) {
                        let j = choose|j: int| email_splits_at(s@, j);
                        assert(s@[j] == '@');
                        if j != a as int {
                            assert(a < j || j < a);
                            assert(false);
                        }
                    }
                }
            }
            ok
        },
    }
}

/// Decides [`is_space_char`].
fn char_is_space(c: char) -> (b: bool)
    ensures
        b == is_space_char(c),
{
    let v = c as u32;
    v == 0x09 || v == 0x0a || v == 0x0b || v == 0x0c || v == 0x0d || v == 0x20 || v == 0x85
        || v == 0xa0 || v == 0x1680 || (0x2000 <= v && v <= 0x200a) || v == 0x2028 || v == 0x2029
        || v == 0x202f || v == 0x205f || v == 0x3000
}

/// Decides [`is_forbidden_char`].
fn char_is_forbidden(c: char) -> (b: bool)
    ensures
        b == is_forbidden_char(c),
{
    c == '/' || c == '(' || c == ')' || c == '"' || c == '<' || c == '>' || c == '\\' || c == '{'
        || c == '}'
}

} // verus!
