//! Nonces, the clock, PEM keys, and reading claims out of a claims map.

use vstd::prelude::*;
use crate::errors::{AsapError, ValidatorError};
use crate::json::{ClaimMap, ClaimValue};

verus! {

/// Whether `c` is an ASCII letter or digit.
pub open spec fn is_alphanumeric(c: char) -> bool {
    ('a' <= c && c <= 'z') || ('A' <= c && c <= 'Z') || ('0' <= c && c <= '9')
}

/// Every second since the Unix epoch that the clock can report lies below
/// this bound (the last day of the latest year a UTC date can hold).
pub open spec fn clock_bound() -> int {
    0x800_0000_0000
}

/// One random ASCII letter or digit.
///
/// Trusted: samples `rand::distributions::Alphanumeric` from the thread's
/// random number generator; its documentation and source state that the
/// sample is drawn from `A-Z`, `a-z` and `0-9`. Which character comes back is
/// left open.
#[verifier::external_body]
fn random_alphanumeric() -> (c: char)
    ensures
        is_alphanumeric(c),
{
    char::from(rand::Rng::sample(&mut rand::thread_rng(), rand::distributions::Alphanumeric))
}

/// The current time, in whole seconds since the Unix epoch.
///
/// Trusted: calls `chrono::Utc::now().timestamp()`. `Utc::now` takes the
/// system time since the epoch and builds a date of it, so the result is
/// never negative and stays below the largest date chrono can hold. Which
/// second comes back is left open. (`Utc::now` panics when the system clock
/// is set before 1970.)
#[verifier::external_body]
pub fn now_timestamp() -> (t: i64)
    ensures
        0 <= t < clock_bound(),
{
    chrono::Utc::now().timestamp()
}

/// A fresh `jti` nonce: twenty random ASCII letters and digits.
pub fn generate_jti() -> (res: String)
    ensures
        res@.len() == 20,
        forall|i: int| 0 <= i < 20 ==> is_alphanumeric(#[trigger] res@[i]),
{
    let mut chars: Vec<char> = Vec::new();
    let mut i: usize = 0;
    while i < 20
        invariant
            i <= 20,
            chars@.len() == i,
            forall|j: int| 0 <= j < i ==> is_alphanumeric(#[trigger] chars@[j]),
        decreases 20 - i,
    {
        chars.push(random_alphanumeric());
        i = i + 1;
    }
    crate::text::string_from_chars(chars.as_slice())
}

/// What `pem::parse` makes of the given bytes: the binary contents of the
/// PEM block, or the text of the error it reports.
pub uninterp spec fn pem_contents(input: Seq<u8>) -> Result<Seq<u8>, Seq<char>>;

/// Parses PEM-encoded data.
///
/// Trusted: calls `pem::parse` and hands back the decoded `contents`, or the
/// error's message. The result is a function of the input alone.
#[verifier::external_body]
fn pem_parse(input: &[u8]) -> (res: Result<Vec<u8>, String>)
    ensures
        match res {
            Ok(der) => pem_contents(input@) == Ok::<Seq<u8>, Seq<char>>(der@),
            Err(msg) => pem_contents(input@) == Err::<Seq<u8>, Seq<char>>(msg@),
        },
{
    match pem::parse(input) {
        Ok(key) => Ok(key.contents),
        Err(err) => Err(err.to_string()),
    }
}

/// The message of a PEM key that could not be read.
pub open spec fn pem_error_message(msg: Seq<char>) -> Seq<char> {
    seq!['f', 'a', 'i', 'l', 'e', 'd', ' ', 't', 'o', ' ', 'p', 'a', 'r', 's', 'e', ' ', 'p', 'e', 'm', ' ', 'd', 'a', 't', 'a', ':', ' '] + msg
}

/// Converts a PEM-encoded key into its DER bytes.
pub fn convert_pem_to_der(input: &[u8]) -> (res: Result<Vec<u8>, AsapError>)
    ensures
        match pem_contents(input@) {
            Ok(der) => res matches Ok(v) && v@ == der,
            Err(msg) => res matches Err(AsapError::Pem(m)) && m@ == pem_error_message(msg),
        },
{
    match pem_parse(input) {
        Ok(der) => Ok(der),
        Err(msg) => {
            let mut text: Vec<char> = Vec::new();
            crate::text::push_all(&mut text, &['f', 'a', 'i', 'l', 'e', 'd', ' ', 't', 'o', ' ', 'p', 'a', 'r', 's', 'e', ' ', 'p', 'e', 'm', ' ', 'd', 'a', 't', 'a', ':', ' ']);
            let rest = crate::text::chars_of(msg.as_str());
            crate::text::push_all(&mut text, rest.as_slice());
            let m = crate::text::string_from_chars(text.as_slice());
            assert(m@ =~= pem_error_message(msg@));
            Err(AsapError::Pem(m))
        },
    }
}

/// The integer a JSON value holds, when it holds one that fits in an `i64`.
pub open spec fn value_as_i64(v: ClaimValue) -> Option<i64> {
    match v {
        ClaimValue::PosInt(n) => if n <= i64::MAX {
            Some(n as i64)
        } else {
            None
        },
        ClaimValue::NegInt(n) => Some(n),
        _ => None,
    }
}

/// The string a JSON value holds, when it is a string.
pub open spec fn value_as_string(v: ClaimValue) -> Option<Seq<char>> {
    match v {
        ClaimValue::Str(s) => Some(s@),
        _ => None,
    }
}

/// Reads the integer claim `key`: `ClaimNotFound` when the claim is absent,
/// `InvalidClaimType` when it is not an integer that fits in an `i64`.
pub fn extract_claim_i64(claims: &ClaimMap, key: &str) -> (res: Result<i64, ValidatorError>)
    ensures
        match claims.get_spec(key@) {
            None => res matches Err(ValidatorError::ClaimNotFound(k)) && k@ == key@,
            Some(v) => match value_as_i64(v) {
                Some(n) => res == Ok::<i64, ValidatorError>(n),
                None => res matches Err(ValidatorError::InvalidClaimType(k)) && k@ == key@,
            },
        },
{
    match claims.get(key) {
        None => Err(ValidatorError::ClaimNotFound(key.to_owned())),
        Some(v) => match v {
            ClaimValue::PosInt(n) => {
                if *n <= 0x7fff_ffff_ffff_ffffu64 {
                    Ok(*n as i64)
                } else {
                    Err(ValidatorError::InvalidClaimType(key.to_owned()))
                }
            },
            ClaimValue::NegInt(n) => Ok(*n),
            _ => Err(ValidatorError::InvalidClaimType(key.to_owned())),
        },
    }
}

/// Reads the string claim `key`: `ClaimNotFound` when the claim is absent,
/// `InvalidClaimType` when it is not a string.
pub fn extract_claim_string(claims: &ClaimMap, key: &str) -> (res: Result<String, ValidatorError>)
    ensures
        match claims.get_spec(key@) {
            None => res matches Err(ValidatorError::ClaimNotFound(k)) && k@ == key@,
            Some(v) => match value_as_string(v) {
                Some(s) => res matches Ok(r) && r@ == s,
                None => res matches Err(ValidatorError::InvalidClaimType(k)) && k@ == key@,
            },
        },
{
    match claims.get(key) {
        None => Err(ValidatorError::ClaimNotFound(key.to_owned())),
        Some(v) => match v {
            ClaimValue::Str(s) => Ok(s.clone()),
            _ => Err(ValidatorError::InvalidClaimType(key.to_owned())),
        },
    }
}


/// The audiences a JSON value names: the strings of an array of strings, or
/// a single string; `None` for any other value.
pub open spec fn value_as_audiences(v: ClaimValue) -> Option<Seq<Seq<char>>> {
    match v {
        ClaimValue::Array(items) => if forall|i: int| 0 <= i < items@.len() ==> (#[trigger] items@[i]) is Str {
            Some(items@.map_values(|x: ClaimValue| value_as_string(x).unwrap()))
        } else {
            None
        },
        ClaimValue::Str(s) => Some(seq![s@]),
        _ => None,
    }
}

/// Reads the `aud` claim, which may hold a string or an array of strings,
/// as a list: `ClaimNotFound` when it is absent, `InvalidClaimType` when it
/// holds anything else.
pub fn extract_aud_from_claims(claims: &ClaimMap) -> (res: Result<Vec<String>, ValidatorError>)
    ensures
        match claims.get_spec("aud"@) {
            None => res matches Err(ValidatorError::ClaimNotFound(k)) && k@ == "aud"@,
            Some(v) => match value_as_audiences(v) {
                Some(list) => res matches Ok(r) && r@.map_values(|x: String| x@) == list,
                None => res matches Err(ValidatorError::InvalidClaimType(k)) && k@ == "aud"@,
            },
        },
{
    match claims.get("aud") {
        None => Err(ValidatorError::ClaimNotFound("aud".to_owned())),
        Some(v) => match v {
            ClaimValue::Array(items) => {
                let mut out: Vec<String> = Vec::new();
                let mut i: usize = 0;
                while i < items.len()
                    invariant
                        claims.get_spec("aud"@) == Some(*v),
                        *v == ClaimValue::Array(*items),
                        i <= items@.len(),
                        out@.len() == i,
                        forall|j: int| 0 <= j < i ==> (#[trigger] items@[j]) is Str,
                        forall|j: int| 0 <= j < i ==> Some(#[trigger] out@[j]@) == value_as_string(items@[j]),
                    decreases items@.len() - i,
                {
                    match &items[i] {
                        ClaimValue::Str(s) => out.push(s.clone()),
                        _ => {
                            assert(!(items@[i as int] is Str));
                            return Err(ValidatorError::InvalidClaimType("aud".to_owned()));
                        },
                    }
                    i = i + 1;
                }
                assert(out@.map_values(|x: String| x@) =~= items@.map_values(
                    |x: ClaimValue| value_as_string(x).unwrap(),
                ));
                Ok(out)
            },
            ClaimValue::Str(s) => {
                let mut out: Vec<String> = Vec::new();
                out.push(s.clone());
                assert(out@.map_values(|x: String| x@) =~= seq![s@]);
                Ok(out)
            },
            _ => Err(ValidatorError::InvalidClaimType("aud".to_owned())),
        },
    }
}

} // verus!
