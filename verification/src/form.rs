//! Decoding of form-encoded request bodies into a submission.
//!
//! A body is a sequence of `key=value` segments separated by `&`. Within a
//! segment, `+` stands for a space and `%XY` with two hexadecimal digits for
//! the byte `0xXY`; any other byte, including a `%` that is not followed by
//! two hexadecimal digits, passes through unchanged. The decoded bytes of
//! the `name` and `email` fields must form valid UTF-8; a body missing a
//! field, repeating one, or carrying one that does not decode, is rejected.

use vstd::prelude::*;
use vstd::utf8::{valid_utf8, decode_utf8};

verus! {

/// A decoded submission: the `name` and `email` fields of a form body.
#[derive(Debug)]
pub struct FormData {
    pub email: String,
    pub name: String,
}

/// Why a request body could not be decoded into a [`FormData`].
#[derive(PartialEq, Eq, Structural, Clone, Copy, Debug)]
pub enum DecodeError {
    /// No segment carries a `name` field.
    MissingName,
    /// No segment carries an `email` field.
    MissingEmail,
    /// More than one segment carries a `name` field.
    DuplicateName,
    /// More than one segment carries an `email` field.
    DuplicateEmail,
    /// The decoded bytes of the `name` field are not valid UTF-8.
    NameNotUtf8,
    /// The decoded bytes of the `email` field are not valid UTF-8.
    EmailNotUtf8,
}

/// `&`, the byte separating segments.
pub const AMPERSAND: u8 = 0x26;

/// `=`, the byte separating a key from its value.
pub const EQUALS: u8 = 0x3d;

/// `%`, the byte opening a percent escape.
pub const PERCENT: u8 = 0x25;

/// `+`, the byte standing for a space.
pub const PLUS: u8 = 0x2b;

/// The space byte that `+` decodes to.
pub const SPACE: u8 = 0x20;

/// An ASCII hexadecimal digit.
pub open spec fn is_hex_digit(b: u8) -> bool {
    ||| 0x30 <= b <= 0x39
    ||| 0x41 <= b <= 0x46
    ||| 0x61 <= b <= 0x66
}

/// The numeric value of an ASCII hexadecimal digit.
pub open spec fn hex_value(b: u8) -> u8
    recommends
        is_hex_digit(b),
{
    if 0x30 <= b <= 0x39 {
        (b - 0x30) as u8
    } else if 0x41 <= b <= 0x46 {
        (b - 0x41 + 10) as u8
    } else {
        (b - 0x61 + 10) as u8
    }
}

/// The percent- and plus-decoding of one form component.
pub open spec fn decode_component(s: Seq<u8>) -> Seq<u8>
    decreases s.len(),
{
    if s.len() == 0 {
        Seq::empty()
    } else if s[0] == PERCENT && s.len() >= 3 && is_hex_digit(s[1]) && is_hex_digit(s[2]) {
        seq![(hex_value(s[1]) * 16 + hex_value(s[2])) as u8] + decode_component(s.skip(3))
    } else if s[0] == PLUS {
        seq![SPACE] + decode_component(s.skip(1))
    } else {
        seq![s[0]] + decode_component(s.skip(1))
    }
}

/// The offset of the first occurrence of `b` in `s`, or `s.len()` if there
/// is none.
pub open spec fn find_byte(s: Seq<u8>, b: u8) -> nat
    decreases s.len(),
{
    if s.len() == 0 {
        0
    } else if s[0] == b {
        0
    } else {
        (1 + find_byte(s.skip(1), b)) as nat
    }
}

/// The decoded key of one `key=value` segment.
pub open spec fn segment_key(seg: Seq<u8>) -> Seq<u8> {
    decode_component(seg.take(find_byte(seg, EQUALS) as int))
}

/// The decoded value of one `key=value` segment; a segment without `=` has
/// the empty value.
pub open spec fn segment_value(seg: Seq<u8>) -> Seq<u8> {
    if find_byte(seg, EQUALS) >= seg.len() {
        Seq::empty()
    } else {
        decode_component(seg.skip(find_byte(seg, EQUALS) as int + 1))
    }
}

/// The decoded value of the first segment of `body` whose decoded key is
/// `key`, or `None` if no segment carries that key.
pub open spec fn field_value(body: Seq<u8>, key: Seq<u8>) -> Option<Seq<u8>>
    decreases body.len(),
{
    let amp = find_byte(body, AMPERSAND);
    let seg = body.take(amp as int);
    if segment_key(seg) == key {
        Some(segment_value(seg))
    } else if amp >= body.len() {
        None
    } else {
        field_value(body.skip(amp as int + 1), key)
    }
}

/// How many segments of `body` carry the decoded key `key`.
pub open spec fn key_occurrences(body: Seq<u8>, key: Seq<u8>) -> nat
    decreases body.len(),
{
    let amp = find_byte(body, AMPERSAND);
    let seg = body.take(amp as int);
    (if segment_key(seg) == key {
        1nat
    } else {
        0nat
    }) + (if amp >= body.len() {
        0nat
    } else {
        key_occurrences(body.skip(amp as int + 1), key)
    })
}

/// The bytes of the key `name`.
pub open spec fn name_key() -> Seq<u8> {
    seq![0x6eu8, 0x61u8, 0x6du8, 0x65u8]
}

/// The bytes of the key `email`.
pub open spec fn email_key() -> Seq<u8> {
    seq![0x65u8, 0x6du8, 0x61u8, 0x69u8, 0x6cu8]
}

/// What decoding owes for a body: the characters of the `name` and `email`
/// fields, or the error reported. Missing fields are reported first, then
/// repeated ones, then undecodable ones, `name` before `email` throughout.
pub open spec fn parse_result(body: Seq<u8>) -> Result<(Seq<char>, Seq<char>), DecodeError> {
    match field_value(body, name_key()) {
        Option::None => Result::Err(DecodeError::MissingName),
        Option::Some(nb) => match field_value(body, email_key()) {
            Option::None => Result::Err(DecodeError::MissingEmail),
            Option::Some(eb) => if key_occurrences(body, name_key()) > 1 {
                Result::Err(DecodeError::DuplicateName)
            } else if key_occurrences(body, email_key()) > 1 {
                Result::Err(DecodeError::DuplicateEmail)
            } else if !valid_utf8(nb) {
                Result::Err(DecodeError::NameNotUtf8)
            } else if !valid_utf8(eb) {
                Result::Err(DecodeError::EmailNotUtf8)
            } else {
                Result::Ok((decode_utf8(nb), decode_utf8(eb)))
            },
        },
    }
}

/// [`find_byte`] points at the first occurrence: nothing before it matches,
/// and it matches unless it is the length.
pub proof fn lemma_find_byte(s: Seq<u8>, b: u8)
    ensures
        find_byte(s, b) <= s.len(),
        forall|k: int| 0 <= k < find_byte(s, b) ==> s[k] != b,
        find_byte(s, b) < s.len() ==> s[find_byte(s, b) as int] == b,
    decreases s.len(),
{
    if s.len() == 0 {
    } else if s[0] == b {
    } else {
        lemma_find_byte(s.skip(1), b);
        let f = find_byte(s, b);
        assert forall|k: int| 0 <= k < f implies s[k] != b by {
            if k > 0 {
                assert(s.skip(1)[k - 1] == s[k]);
            }
        }
        if f < s.len() {
            assert(s.skip(1)[f - 1] == s[f as int]);
        }
    }
}

/// A position with no match before it, and a match at it unless it is the
/// length, is exactly [`find_byte`].
pub proof fn lemma_find_byte_unique(s: Seq<u8>, b: u8, m: int)
    requires
        0 <= m <= s.len(),
        forall|k: int| 0 <= k < m ==> s[k] != b,
        m < s.len() ==> s[m] == b,
    ensures
        find_byte(s, b) == m,
{
    lemma_find_byte(s, b);
    let f = find_byte(s, b) as int;
    if f < m {
        assert(s[f] != b);
    }
    if m < f {
        assert(s[m] != b);
    }
}

/// The offset of the first occurrence of `b` in `s[start..end]`, found by a
/// left-to-right scan.
fn find_byte_in(s: &[u8], start: usize, end: usize, b: u8) -> (j: usize)
    requires
        start <= end <= s@.len(),
    ensures
        start <= j <= end,
        j - start == find_byte(s@.subrange(start as int, end as int), b),
        forall|k: int| start <= k < j ==> s@[k] != b,
        j < end ==> s@[j as int] == b,
{
    let mut j = start;
    loop
        invariant
            start <= j <= end <= s@.len(),
            forall|k: int| start <= k < j ==> s@[k] != b,
        ensures
            start <= j <= end,
            forall|k: int| start <= k < j ==> s@[k] != b,
            j < end ==> s@[j as int] == b,
        decreases end - j,
    {
        if j == end {
            break ;
        }
        if s[j] == b {
            break ;
        }
        j = j + 1;
    }
    proof {
        let sub = s@.subrange(start as int, end as int);
        assert forall|k: int| 0 <= k < j - start implies sub[k] != b by {
            assert(sub[k] == s@[start + k]);
        }
        if (j - start) < sub.len() {
            assert(sub[j - start] == s@[j as int]);
        }
        lemma_find_byte_unique(sub, b, j - start);
    }
    j
}

/// The numeric value of an ASCII hexadecimal digit.
fn hex_value_of(b: u8) -> (r: u8)
    requires
        is_hex_digit(b),
    ensures
        r == hex_value(b),
        r <= 15,
{
    if 0x30 <= b && b <= 0x39 {
        b - 0x30
    } else if 0x41 <= b && b <= 0x46 {
        b - 0x41 + 10
    } else {
        b - 0x61 + 10
    }
}

/// Decides [`is_hex_digit`].
fn is_hex_digit_byte(b: u8) -> (r: bool)
    ensures
        r == is_hex_digit(b),
{
    (0x30 <= b && b <= 0x39) || (0x41 <= b && b <= 0x46) || (0x61 <= b && b <= 0x66)
}

/// Percent- and plus-decodes `s[from..to]`.
fn decode_range(s: &[u8], from: usize, to: usize) -> (v: Vec<u8>)
    requires
        from <= to <= s@.len(),
    ensures
        v@ == decode_component(s@.subrange(from as int, to as int)),
{
    let ghost whole = s@.subrange(from as int, to as int);
    let mut v: Vec<u8> = Vec::new();
    let mut i = from;
    while i < to
        invariant
            from <= i <= to <= s@.len(),
            whole == s@.subrange(from as int, to as int),
            v@ + decode_component(s@.subrange(i as int, to as int)) == decode_component(whole),
        decreases to - i,
    {
        let ghost rest = s@.subrange(i as int, to as int);
        proof {
            assert(rest[0] == s@[i as int]);
            if to - i >= 3 {
                assert(rest[1] == s@[i + 1]);
                assert(rest[2] == s@[i + 2]);
            }
        }
        let b = s[i];
        if b == PERCENT && to - i >= 3 && is_hex_digit_byte(s[i + 1]) && is_hex_digit_byte(
            s[i + 2],
        ) {
            let x = hex_value_of(s[i + 1]) * 16 + hex_value_of(s[i + 2]);
            v.push(x);
            proof {
                assert(rest.skip(3) =~= s@.subrange(i + 3, to as int));
                assert(decode_component(rest) == seq![x] + decode_component(rest.skip(3)));
                assert(v@ + decode_component(rest.skip(3)) =~= decode_component(whole));
            }
            i = i + 3;
        } else {
            let out = if b == PLUS {
                SPACE
            } else {
                b
            };
            v.push(out);
            proof {
                assert(rest.skip(1) =~= s@.subrange(i + 1, to as int));
                assert(decode_component(rest) == seq![out] + decode_component(rest.skip(1)));
                assert(v@ + decode_component(rest.skip(1)) =~= decode_component(whole));
            }
            i = i + 1;
        }
    }
    proof {
        assert(s@.subrange(i as int, to as int) =~= Seq::<u8>::empty());
        assert(v@ =~= decode_component(whole));
    }
    v
}

/// Decides whether `k` is the byte string `name`.
fn is_name_key(k: &Vec<u8>) -> (b: bool)
    ensures
        b == (k@ == name_key()),
{
    let r = k.len() == 4 && k[0] == 0x6e && k[1] == 0x61 && k[2] == 0x6d && k[3] == 0x65;
    proof {
        if r {
            assert(k@ =~= name_key());
        } else if k@ == name_key() {
            assert(false);
        }
    }
    r
}

/// Decides whether `k` is the byte string `email`.
fn is_email_key(k: &Vec<u8>) -> (b: bool)
    ensures
        b == (k@ == email_key()),
{
    let r = k.len() == 5 && k[0] == 0x65 && k[1] == 0x6d && k[2] == 0x61 && k[3] == 0x69 && k[4]
        == 0x6c;
    proof {
        if r {
            assert(k@ =~= email_key());
        } else if k@ == email_key() {
            assert(false);
        }
    }
    r
}

/// Relies on `String::from_utf8`: it succeeds exactly on input that is valid
/// UTF-8, and then yields the characters those bytes encode.
#[verifier::external_body]
fn utf8_to_string(bytes: Vec<u8>) -> (r: Option<String>)
    ensures
        r is Some <==> valid_utf8(bytes@),
        r is Some ==> r->0@ == decode_utf8(bytes@),
{
    String::from_utf8(bytes).ok()
}

/// Decodes a form body into the submitted `name` and `email`.
///
/// The result is exactly [`parse_result`] of the body bytes: the first
/// `name` and `email` segments are decoded, and a body missing either field
/// or carrying one whose decoded bytes are not UTF-8 is rejected with the
/// corresponding error.
pub fn parse_form(body: &[u8]) -> (r: Result<FormData, DecodeError>)
    ensures
        r is Ok <==> parse_result(body@) is Ok,
        r is Err ==> parse_result(body@) is Err && r->Err_0 == parse_result(body@)->Err_0,
        r is Ok ==> r->Ok_0.name@ == parse_result(body@)->Ok_0.0,
        r is Ok ==> r->Ok_0.email@ == parse_result(body@)->Ok_0.1,
{
    let len = body.len();
    let mut name_bytes: Option<Vec<u8>> = None;
    let mut email_bytes: Option<Vec<u8>> = None;
    let mut name_dup = false;
    let mut email_dup = false;
    let mut i: usize = 0;
    proof {
        assert(body@.skip(0) =~= body@);
    }
    loop
        invariant_except_break
            name_bytes is None ==> key_occurrences(body@, name_key()) == key_occurrences(
                body@.skip(i as int),
                name_key(),
            ),
            name_bytes is Some && !name_dup ==> key_occurrences(body@, name_key()) == 1
                + key_occurrences(body@.skip(i as int), name_key()),
            name_dup ==> name_bytes is Some && key_occurrences(body@, name_key()) >= 2,
            email_bytes is None ==> key_occurrences(body@, email_key()) == key_occurrences(
                body@.skip(i as int),
                email_key(),
            ),
            email_bytes is Some && !email_dup ==> key_occurrences(body@, email_key()) == 1
                + key_occurrences(body@.skip(i as int), email_key()),
            email_dup ==> email_bytes is Some && key_occurrences(body@, email_key()) >= 2,
        invariant
            i <= len,
            len == body@.len(),
            name_bytes is Some ==> field_value(body@, name_key()) == Some(name_bytes->0@),
            name_bytes is None ==> field_value(body@, name_key()) == field_value(
                body@.skip(i as int),
                name_key(),
            ),
            email_bytes is Some ==> field_value(body@, email_key()) == Some(email_bytes->0@),
            email_bytes is None ==> field_value(body@, email_key()) == field_value(
                body@.skip(i as int),
                email_key(),
            ),
        ensures
            name_bytes is Some ==> field_value(body@, name_key()) == Some(name_bytes->0@),
            name_bytes is None ==> field_value(body@, name_key()) is None,
            email_bytes is Some ==> field_value(body@, email_key()) == Some(email_bytes->0@),
            email_bytes is None ==> field_value(body@, email_key()) is None,
            name_dup <==> key_occurrences(body@, name_key()) > 1,
            email_dup <==> key_occurrences(body@, email_key()) > 1,
        decreases len - i,
    {
        let ghost rest = body@.skip(i as int);
        let j = find_byte_in(body, i, len, AMPERSAND);
        let ghost seg = rest.take((j - i) as int);
        proof {
            assert(body@.subrange(i as int, len as int) =~= rest);
            assert(seg =~= body@.subrange(i as int, j as int));
        }
        let e = find_byte_in(body, i, j, EQUALS);
        proof {
            assert(body@.subrange(i as int, j as int) == seg);
            assert(seg.take((e - i) as int) =~= body@.subrange(i as int, e as int));
        }
        let key = decode_range(body, i, e);
        let value = if e == j {
            Vec::new()
        } else {
            decode_range(body, e + 1, j)
        };
        proof {
            if e < j {
                assert(seg.skip((e - i) as int + 1) =~= body@.subrange(e + 1, j as int));
            }
            assert(key@ == segment_key(seg));
            assert(value@ == segment_value(seg));
        }
        if is_name_key(&key) {
            if name_bytes.is_none() {
                name_bytes = Some(value);
            } else {
                name_dup = true;
            }
        } else if is_email_key(&key) {
            if email_bytes.is_none() {
                email_bytes = Some(value);
            } else {
                email_dup = true;
            }
        }
        proof {
            // One unfolding of `field_value` and `key_occurrences` over the
            // remainder, for each key.
            assert(field_value(rest, name_key()) == (if segment_key(seg) == name_key() {
                Some(segment_value(seg))
            } else if j == len {
                Option::<Seq<u8>>::None
            } else {
                field_value(body@.skip(j + 1), name_key())
            })) by {
                if j < len {
                    assert(rest.skip((j - i) as int + 1) =~= body@.skip(j + 1));
                }
            }
            assert(field_value(rest, email_key()) == (if segment_key(seg) == email_key() {
                Some(segment_value(seg))
            } else if j == len {
                Option::<Seq<u8>>::None
            } else {
                field_value(body@.skip(j + 1), email_key())
            })) by {
                if j < len {
                    assert(rest.skip((j - i) as int + 1) =~= body@.skip(j + 1));
                }
            }
            assert(key_occurrences(rest, name_key()) == (if segment_key(seg) == name_key() {
                1nat
            } else {
                0nat
            }) + (if j == len {
                0nat
            } else {
                key_occurrences(body@.skip(j + 1), name_key())
            })) by {
                if j < len {
                    assert(rest.skip((j - i) as int + 1) =~= body@.skip(j + 1));
                }
            }
            assert(key_occurrences(rest, email_key()) == (if segment_key(seg) == email_key() {
                1nat
            } else {
                0nat
            }) + (if j == len {
                0nat
            } else {
                key_occurrences(body@.skip(j + 1), email_key())
            })) by {
                if j < len {
                    assert(rest.skip((j - i) as int + 1) =~= body@.skip(j + 1));
                }
            }
        }
        if j == len {
            break ;
        }
        i = j + 1;
    }
    match name_bytes {
        None => Err(DecodeError::MissingName),
        Some(nb) => match email_bytes {
            None => Err(DecodeError::MissingEmail),
            Some(eb) => {
                if name_dup {
                    return Err(DecodeError::DuplicateName);
                }
                if email_dup {
                    return Err(DecodeError::DuplicateEmail);
                }
                let ghost nb_spec = nb@;
                let ghost eb_spec = eb@;
                match utf8_to_string(nb) {
                    None => Err(DecodeError::NameNotUtf8),
                    Some(name) => match utf8_to_string(eb) {
                        None => Err(DecodeError::EmailNotUtf8),
                        Some(email) => Ok(FormData { email, name }),
                    },
                }
            },
        },
    }
}

} // verus!
