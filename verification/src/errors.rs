//! The errors of the library.

use vstd::prelude::*;
use crate::jwt::{JwtHeader, JwtError};
use crate::json::{json_int, write_int};
use crate::text::{chars_of, debug_quoted, debug_text, push_all, string_from_chars};

verus! {

/// Why a token was not accepted by a validator.
#[derive(Debug)]
pub enum ValidatorError {
    /// A claim that the check needs is missing.
    ClaimNotFound(String),
    /// A claim holds a value of another type than the check needs.
    InvalidClaimType(String),
    /// The token's header names no key id.
    NoKIDFound(JwtHeader),
    /// No keyserver gave a key; the text says why.
    KeyserverError(String),
    /// The key id (first) does not start with the issuer (second) and `/`.
    InvalidKID(String, String),
    /// The token is not valid yet (`nbf`, `exp`).
    ImmatureSignature(i64, i64),
    /// The token is not valid any more (`nbf`, `exp`).
    ExpiredSignature(i64, i64),
    /// The token lives longer than the validator allows.
    InvalidLifespan,
    /// The token's audiences do not name the resource server.
    UnrecognisedAudience(Vec<String>),
    /// The subject is not among the whitelisted issuers (both given).
    UnauthorizedSubject(String, Vec<String>),
    /// The nonce has been seen before.
    DuplicateJTI(String),
    /// The cached key for this key id is too old.
    ExpiredCache(String),
    /// No key is cached for the key id.
    CacheError,
    /// The clock is earlier than the time a key was cached.
    ClockError,
}

/// The errors of the library.
#[derive(Debug)]
pub enum AsapError {
    /// The token was not accepted.
    Validator(ValidatorError),
    /// The token could not be read, checked or signed.
    Jwt(JwtError),
    /// A JSON text could not be read.
    Json(String),
    /// A PEM key could not be read.
    Pem(String),
}


/// How `{:?}` writes a list of strings: `[`, each string quoted, with `, `
/// between them, and `]`.
pub open spec fn debug_list(items: Seq<Seq<char>>) -> Seq<char> {
    seq!['['] + debug_items(items) + seq![']']
}

/// The quoted strings of a list, with `, ` between them.
pub open spec fn debug_items(items: Seq<Seq<char>>) -> Seq<char>
    decreases items.len(),
{
    if items.len() == 0 {
        Seq::empty()
    } else if items.len() == 1 {
        debug_text(items[0])
    } else {
        debug_items(items.drop_last()) + seq![',', ' '] + debug_text(items.last())
    }
}

/// Appends how `{:?}` writes a list of strings.
fn write_debug_list(items: &Vec<String>, out: &mut Vec<char>)
    ensures
        final(out)@ == old(out)@ + debug_list(items@.map_values(|x: String| x@)),
{
    let ghost views = items@.map_values(|x: String| x@);
    out.push('[');
    let ghost start = out@;
    let mut i: usize = 0;
    while i < items.len()
        invariant
            i <= items@.len(),
            views == items@.map_values(|x: String| x@),
            out@ == start + debug_items(views.take(i as int)),
        decreases items@.len() - i,
    {
        if i > 0 {
            push_all(out, &[',', ' ']);
        }
        let quoted = chars_of(debug_quoted(items[i].as_str()).as_str());
        push_all(out, quoted.as_slice());
        let ghost taken = views.take(i + 1);
        assert(taken.drop_last() =~= views.take(i as int));
        assert(taken.last() == items@[i as int]@);
        assert(out@ =~= start + debug_items(taken));
        i = i + 1;
    }
    assert(views.take(items@.len() as int) =~= views);
    out.push(']');
    assert(out@ =~= old(out)@ + debug_list(views));
}

/// Appends the text of a string.
fn write_text(s: &str, out: &mut Vec<char>)
    ensures
        final(out)@ == old(out)@ + s@,
{
    let c = chars_of(s);
    push_all(out, c.as_slice());
}

impl ValidatorError {
    /// The text of the error.
    pub open spec fn text(&self) -> Seq<char> {
        match self {
            ValidatorError::ClaimNotFound(c) => "Claim not found in token: "@ + c@,
            ValidatorError::InvalidClaimType(c) => "Claim has an invalid type: "@ + c@,
            ValidatorError::NoKIDFound(_) => "JWT header did not contain a `kid` claim"@,
            ValidatorError::KeyserverError(m) => "Failed to retrieve public key from keyserver: "@ + debug_text(m@),
            ValidatorError::InvalidKID(k, i) => "JWT header did not contain a valid `kid` claim. As per ASAP spec, the `kid` claim must start with \"$iss/\" where $iss is the issuer (kid: "@
                + debug_text(k@) + ", iss: "@ + debug_text(i@) + ")"@,
            ValidatorError::ImmatureSignature(nbf, exp) => "Immature jwt signature (nbf: "@ + json_int(*nbf as int)
                + ", exp: "@ + json_int(*exp as int) + ")"@,
            ValidatorError::ExpiredSignature(nbf, exp) => "Expired jwt signature (nbf: "@ + json_int(*nbf as int)
                + ", exp: "@ + json_int(*exp as int) + ")"@,
            ValidatorError::InvalidLifespan => "Token contained a lifespan greater than the `max_lifespan` (hard limit of 3600 seconds)"@,
            ValidatorError::UnrecognisedAudience(a) => "Resource server audience not found in `aud` claims of token "@
                + debug_list(a@.map_values(|x: String| x@)),
            ValidatorError::UnauthorizedSubject(s, l) => "Unknown or unauthorized subject "@ + debug_text(s@)
                + ". The `sub` claim (or `iss`) must exist in `whitelisted_issuers` "@ + debug_list(
                l@.map_values(|x: String| x@),
            ),
            ValidatorError::DuplicateJTI(j) => "Duplicate `jti` encountered: "@ + debug_text(j@),
            ValidatorError::ExpiredCache(k) => "Cached public key has expired: "@ + k@,
            ValidatorError::CacheError => "Public key not found in cache"@,
            ValidatorError::ClockError => "System clock is earlier than the time the key was cached"@,
        }
    }

    /// The text of the error (see `text`).
    pub fn describe(&self) -> (res: String)
        ensures
            res@ == self.text(),
    {
        let mut out: Vec<char> = Vec::new();
        match self {
            ValidatorError::ClaimNotFound(c) => {
                write_text("Claim not found in token: ", &mut out);
                write_text(c.as_str(), &mut out);
            },
            ValidatorError::InvalidClaimType(c) => {
                write_text("Claim has an invalid type: ", &mut out);
                write_text(c.as_str(), &mut out);
            },
            ValidatorError::NoKIDFound(_) => {
                write_text("JWT header did not contain a `kid` claim", &mut out);
            },
            ValidatorError::KeyserverError(m) => {
                write_text("Failed to retrieve public key from keyserver: ", &mut out);
                write_text(debug_quoted(m.as_str()).as_str(), &mut out);
            },
            ValidatorError::InvalidKID(k, i) => {
                write_text(
                    "JWT header did not contain a valid `kid` claim. As per ASAP spec, the `kid` claim must start with \"$iss/\" where $iss is the issuer (kid: ",
                    &mut out,
                );
                write_text(debug_quoted(k.as_str()).as_str(), &mut out);
                write_text(", iss: ", &mut out);
                write_text(debug_quoted(i.as_str()).as_str(), &mut out);
                write_text(")", &mut out);
            },
            ValidatorError::ImmatureSignature(nbf, exp) => {
                write_text("Immature jwt signature (nbf: ", &mut out);
                write_int(*nbf, &mut out);
                write_text(", exp: ", &mut out);
                write_int(*exp, &mut out);
                write_text(")", &mut out);
            },
            ValidatorError::ExpiredSignature(nbf, exp) => {
                write_text("Expired jwt signature (nbf: ", &mut out);
                write_int(*nbf, &mut out);
                write_text(", exp: ", &mut out);
                write_int(*exp, &mut out);
                write_text(")", &mut out);
            },
            ValidatorError::InvalidLifespan => {
                write_text(
                    "Token contained a lifespan greater than the `max_lifespan` (hard limit of 3600 seconds)",
                    &mut out,
                );
            },
            ValidatorError::UnrecognisedAudience(a) => {
                write_text("Resource server audience not found in `aud` claims of token ", &mut out);
                write_debug_list(a, &mut out);
            },
            ValidatorError::UnauthorizedSubject(s, l) => {
                write_text("Unknown or unauthorized subject ", &mut out);
                write_text(debug_quoted(s.as_str()).as_str(), &mut out);
                write_text(". The `sub` claim (or `iss`) must exist in `whitelisted_issuers` ", &mut out);
                write_debug_list(l, &mut out);
            },
            ValidatorError::DuplicateJTI(j) => {
                write_text("Duplicate `jti` encountered: ", &mut out);
                write_text(debug_quoted(j.as_str()).as_str(), &mut out);
            },
            ValidatorError::ExpiredCache(k) => {
                write_text("Cached public key has expired: ", &mut out);
                write_text(k.as_str(), &mut out);
            },
            ValidatorError::CacheError => {
                write_text("Public key not found in cache", &mut out);
            },
            ValidatorError::ClockError => {
                write_text("System clock is earlier than the time the key was cached", &mut out);
            },
        }
        assert(out@ =~= self.text());
        string_from_chars(out.as_slice())
    }
}

impl AsapError {
    /// The text of the error: that of the validator error, the
    /// `jsonwebtoken` error's message, or the message of the JSON or PEM
    /// error.
    pub open spec fn text(&self) -> Seq<char> {
        match self {
            AsapError::Validator(e) => e.text(),
            AsapError::Jwt(e) => e.message@,
            AsapError::Json(m) => m@,
            AsapError::Pem(m) => m@,
        }
    }

    /// The text of the error (see `text`).
    pub fn describe(&self) -> (res: String)
        ensures
            res@ == self.text(),
    {
        match self {
            AsapError::Validator(e) => e.describe(),
            AsapError::Jwt(e) => e.message.clone(),
            AsapError::Json(m) => m.clone(),
            AsapError::Pem(m) => m.clone(),
        }
    }
}

} // verus!
