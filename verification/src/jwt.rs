//! The JSON web token operations the library takes from `jsonwebtoken`:
//! reading a token's header, checking a token's signature, and signing.

use vstd::prelude::*;

verus! {

/// A signing algorithm of a JSON web token.
#[derive(Debug, Clone, Copy, PartialEq, Eq, Structural)]
pub enum JwtAlgorithm {
    HS256,
    HS384,
    HS512,
    ES256,
    ES384,
    RS256,
    RS384,
    RS512,
    PS256,
    PS384,
    PS512,
    EdDSA,
}

/// The header of a JSON web token (its `jwk` member is not kept).
#[derive(Debug)]
pub struct JwtHeader {
    pub typ: Option<String>,
    pub alg: JwtAlgorithm,
    pub cty: Option<String>,
    pub jku: Option<String>,
    pub kid: Option<String>,
    pub x5u: Option<String>,
    pub x5c: Option<Vec<String>>,
    pub x5t: Option<String>,
    pub x5t_s256: Option<String>,
}

/// Why a token could not be read, checked or signed, as `jsonwebtoken`
/// words it.
#[derive(Debug)]
pub struct JwtError {
    pub message: String,
}

/// The form of a key that checks signatures.
#[derive(Debug, Clone, Copy, PartialEq, Eq, Structural)]
pub enum KeyKind {
    Secret,
    RsaDer,
    EcDer,
    EdDer,
    RsaComponents,
}

/// A key that checks signatures: an HMAC secret, a DER-encoded public key,
/// or the modulus and exponent of an RSA public key.
#[derive(Debug)]
pub struct PublicKey {
    pub kind: KeyKind,
    pub bytes: Vec<u8>,
    pub exponent: Vec<u8>,
}

impl View for PublicKey {
    type V = (KeyKind, Seq<u8>, Seq<u8>);

    open spec fn view(&self) -> (KeyKind, Seq<u8>, Seq<u8>) {
        (self.kind, self.bytes@, self.exponent@)
    }
}

impl PublicKey {
    /// A DER-encoded RSA public key, as keyservers serve them.
    pub fn from_rsa_der(der: Vec<u8>) -> (res: PublicKey)
        ensures
            res@ == (KeyKind::RsaDer, der@, Seq::<u8>::empty()),
    {
        PublicKey { kind: KeyKind::RsaDer, bytes: der, exponent: Vec::new() }
    }

    /// A copy of this key.
    pub fn duplicate(&self) -> (res: PublicKey)
        ensures
            res@ == self@,
    {
        let bytes = self.bytes.clone();
        let exponent = self.exponent.clone();
        assert(bytes@ =~= self.bytes@);
        assert(exponent@ =~= self.exponent@);
        PublicKey { kind: self.kind, bytes, exponent }
    }
}

/// Declares `jsonwebtoken::Algorithm` to Verus.
#[verifier::external_type_specification]
#[verifier::external_body]
pub struct ExJwtAlgorithm(jsonwebtoken::Algorithm);

/// Declares `jsonwebtoken::Header` to Verus.
#[verifier::external_type_specification]
#[verifier::external_body]
pub struct ExJwtHeader(jsonwebtoken::Header);

/// Declares `jsonwebtoken::DecodingKey` to Verus.
#[verifier::external_type_specification]
#[verifier::external_body]
pub struct ExJwtDecodingKey(jsonwebtoken::DecodingKey);

/// The `jsonwebtoken` algorithm of the same name.
///
/// Trusted: a one-for-one conversion between the two enums.
#[verifier::external_body]
fn algorithm_to_jwt(alg: JwtAlgorithm) -> jsonwebtoken::Algorithm {
        match alg {
        JwtAlgorithm::HS256 => jsonwebtoken::Algorithm::HS256, JwtAlgorithm::HS384 => jsonwebtoken::Algorithm::HS384, JwtAlgorithm::HS512 => jsonwebtoken::Algorithm::HS512,
        JwtAlgorithm::ES256 => jsonwebtoken::Algorithm::ES256, JwtAlgorithm::ES384 => jsonwebtoken::Algorithm::ES384, JwtAlgorithm::RS256 => jsonwebtoken::Algorithm::RS256,
        JwtAlgorithm::RS384 => jsonwebtoken::Algorithm::RS384, JwtAlgorithm::RS512 => jsonwebtoken::Algorithm::RS512, JwtAlgorithm::PS256 => jsonwebtoken::Algorithm::PS256,
        JwtAlgorithm::PS384 => jsonwebtoken::Algorithm::PS384, JwtAlgorithm::PS512 => jsonwebtoken::Algorithm::PS512, JwtAlgorithm::EdDSA => jsonwebtoken::Algorithm::EdDSA,
    }
}

/// The library algorithm of the same name.
///
/// Trusted: a one-for-one conversion between the two enums.
#[verifier::external_body]
fn algorithm_from_jwt(alg: jsonwebtoken::Algorithm) -> JwtAlgorithm {
        match alg {
        jsonwebtoken::Algorithm::HS256 => JwtAlgorithm::HS256, jsonwebtoken::Algorithm::HS384 => JwtAlgorithm::HS384, jsonwebtoken::Algorithm::HS512 => JwtAlgorithm::HS512,
        jsonwebtoken::Algorithm::ES256 => JwtAlgorithm::ES256, jsonwebtoken::Algorithm::ES384 => JwtAlgorithm::ES384, jsonwebtoken::Algorithm::RS256 => JwtAlgorithm::RS256,
        jsonwebtoken::Algorithm::RS384 => JwtAlgorithm::RS384, jsonwebtoken::Algorithm::RS512 => JwtAlgorithm::RS512, jsonwebtoken::Algorithm::PS256 => JwtAlgorithm::PS256,
        jsonwebtoken::Algorithm::PS384 => JwtAlgorithm::PS384, jsonwebtoken::Algorithm::PS512 => JwtAlgorithm::PS512, jsonwebtoken::Algorithm::EdDSA => JwtAlgorithm::EdDSA,
    }
}

/// The library header holding the fields of a `jsonwebtoken` header.
///
/// Trusted: moves the fields over one for one; `jwk` is dropped.
#[verifier::external_body]
fn header_from_jwt(h: jsonwebtoken::Header) -> JwtHeader {
    JwtHeader {
        typ: h.typ, alg: algorithm_from_jwt(h.alg), cty: h.cty, jku: h.jku, kid: h.kid,
        x5u: h.x5u, x5c: h.x5c, x5t: h.x5t, x5t_s256: h.x5t_s256,
    }
}

/// The `jsonwebtoken` key for a library key, built by the matching constructor.
///
/// Trusted: calls `DecodingKey::from_secret`, `from_rsa_der`, `from_ec_der`,
/// `from_ed_der` or `from_rsa_raw_components` on the key's bytes.
#[verifier::external_body]
fn decoding_key(key: &PublicKey) -> jsonwebtoken::DecodingKey {
    match key.kind {
        KeyKind::Secret => jsonwebtoken::DecodingKey::from_secret(&key.bytes), KeyKind::RsaDer => jsonwebtoken::DecodingKey::from_rsa_der(&key.bytes),
        KeyKind::EcDer => jsonwebtoken::DecodingKey::from_ec_der(&key.bytes), KeyKind::EdDer => jsonwebtoken::DecodingKey::from_ed_der(&key.bytes),
        KeyKind::RsaComponents => jsonwebtoken::DecodingKey::from_rsa_raw_components(&key.bytes, &key.exponent),
    }
}

/// What `jsonwebtoken::decode_header` makes of a token.
pub uninterp spec fn jwt_header(token: Seq<char>) -> Result<JwtHeader, JwtError>;

/// What `jsonwebtoken::decode` makes of a token checked with the given key
/// and algorithm: the JSON text of the token's claims, or the error.
pub uninterp spec fn jwt_payload(
    token: Seq<char>,
    key: (KeyKind, Seq<u8>, Seq<u8>),
    alg: JwtAlgorithm,
) -> Result<Seq<char>, JwtError>;

/// What `jsonwebtoken::encode` makes of an RS256 header with the given key
/// id, the given claims JSON, and the given DER-encoded RSA private key.
pub uninterp spec fn jwt_signed(kid: Seq<char>, claims_json: Seq<char>, private_key: Seq<u8>) -> Result<
    Seq<char>,
    JwtError,
>;

/// Reads the header of a token without checking its signature.
///
/// Trusted: calls `jsonwebtoken::decode_header`, which splits the token on
/// its last two dots and decodes the first part as a base64url JSON header.
/// The header's fields are moved over one for one (`jwk` is dropped) and
/// the error kind is kept. The result is a function of the token alone.
#[verifier::external_body]
pub fn decode_header(token: &str) -> (res: Result<JwtHeader, JwtError>)
    ensures
        res == jwt_header(token@),
{
    match jsonwebtoken::decode_header(token) {
        Ok(h) => Ok(header_from_jwt(h)),
        Err(e) => Err(JwtError { message: e.to_string() }),
    }
}

/// Checks a token's algorithm and signature and returns the JSON text of
/// its claims.
///
/// Trusted: calls `jsonwebtoken::decode` with a `Validation` for `alg` whose
/// own claim checks (`exp`, `nbf`, `aud`, `iss`, `sub`, leeway) are turned
/// off, as the library makes those checks itself; the `exp` claim stays
/// required, as `Validation::new` sets it. `decode` rejects a token whose
/// header names another algorithm, a key of another family, a bad
/// signature, and claims that are not valid JSON. The claims come back as
/// their JSON text. The result is a function of the token, the key and the
/// algorithm.
#[verifier::external_body]
pub fn decode_payload(token: &str, key: &PublicKey, alg: JwtAlgorithm) -> (res: Result<String, JwtError>)
    ensures
        match res {
            Ok(text) => jwt_payload(token@, key@, alg) == Ok::<Seq<char>, JwtError>(text@),
            Err(e) => jwt_payload(token@, key@, alg) == Err::<Seq<char>, JwtError>(e),
        },
{
    let mut v = jsonwebtoken::Validation::new(algorithm_to_jwt(alg));
    (v.validate_aud, v.validate_exp, v.validate_nbf, v.leeway) = (false, false, false, 0);
    (v.iss, v.sub, v.aud) = (None, None, None);
    match jsonwebtoken::decode::<Box<serde_json::value::RawValue>>(token, &decoding_key(key), &v) {
        Ok(data) => Ok(data.claims.get().to_string()),
        Err(e) => Err(JwtError { message: e.to_string() }),
    }
}

/// Signs the given claims JSON with RS256 under the given key id.
///
/// Trusted: builds `jsonwebtoken::Header::new(JwtAlgorithm::RS256)` with `kid`
/// set, takes the claims text as a `serde_json` raw value (so it is written
/// into the token as it is), and calls `jsonwebtoken::encode` with
/// `EncodingKey::from_rsa_der`. RSASSA-PKCS1-v1_5 signing is deterministic,
/// so the result is a function of the three arguments.
#[verifier::external_body]
pub fn encode_rs256(kid: &str, claims_json: &str, private_key: &[u8]) -> (res: Result<String, JwtError>)
    ensures
        match res {
            Ok(token) => jwt_signed(kid@, claims_json@, private_key@) == Ok::<Seq<char>, JwtError>(token@),
            Err(e) => jwt_signed(kid@, claims_json@, private_key@) == Err::<Seq<char>, JwtError>(e),
        },
{
    let mut header = jsonwebtoken::Header::new(jsonwebtoken::Algorithm::RS256);
    header.kid = Some(kid.to_string());
    let claims = match serde_json::value::RawValue::from_string(claims_json.to_string()) {
        Ok(raw) => raw,
        Err(e) => return Err(JwtError { message: e.to_string() }),
    };
    match jsonwebtoken::encode(&header, &claims, &jsonwebtoken::EncodingKey::from_rsa_der(private_key)) {
        Ok(token) => Ok(token),
        Err(e) => Err(JwtError { message: e.to_string() }),
    }
}

} // verus!
