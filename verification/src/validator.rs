//! Everything needed to validate and verify an incoming ASAP token, apart
//! from fetching public keys, which the keyserver of a validator does.

use vstd::prelude::*;
use crate::cache::{KeyCache, SeenNonces, CacheEntry, elapsed_nanos, elapsed_reading, system_time_now};
use crate::claims::{Aud, Claims, string_views};
use crate::errors::{AsapError, ValidatorError};
use crate::json::lookup;
use crate::generator::{Generator, built_claims};
use crate::keyserver::HttpKeyserver;
use crate::jwt::{JwtAlgorithm, JwtHeader, PublicKey, decode_header, decode_payload, jwt_header, jwt_payload};
use crate::text::{concat, str_equal, str_starts_with};
use crate::util::{extract_claim_i64, extract_claim_string, value_as_i64, value_as_string, now_timestamp, clock_bound};

verus! {

/// The max lifespan of a token before it's considered expired: one hour
/// (as ASAP demands).
pub const DEFAULT_MAX_LIFESPAN: i64 = 3600;

/// How long a validator caches public keys fetched from the keyserver, in
/// nanoseconds: ten minutes.
pub const DEFAULT_CACHE_DURATION_NANOS: u128 = 600_000_000_000;

/// The number of nanoseconds in a duration.
pub uninterp spec fn duration_nanos(d: std::time::Duration) -> u128;

/// The length of a duration in nanoseconds.
///
/// Trusted: calls `Duration::as_nanos`, a function of the duration alone.
#[verifier::external_body]
pub fn duration_as_nanos(d: &std::time::Duration) -> (n: u128)
    ensures
        n == duration_nanos(*d),
{
    d.as_nanos()
}

/// The settings a validator builder holds.
pub ghost struct BuilderView<S> {
    pub resource_server_audience: Option<Seq<char>>,
    pub keyserver: Option<S>,
    pub jwt_algorithm: Option<JwtAlgorithm>,
    pub leeway: Option<i64>,
    pub max_lifespan: Option<i64>,
    pub validate_jti: bool,
    pub validate_kid: bool,
    pub cache_duration: Option<u128>,
}

/// Options used to configure an ASAP validator.
pub struct GenericValidatorBuilder<S> {
    /// The identifier of the resource server. Incoming ASAP tokens must
    /// include this identifier in their `aud` claim in order to be valid.
    resource_server_audience: Option<String>,
    /// The keyserver to fetch the public keys from.
    keyserver: Option<S>,
    /// The algorithm to verify the tokens with; RS256 when unset.
    jwt_algorithm: Option<JwtAlgorithm>,
    /// Seconds of leeway added to the `nbf` and `exp` checks; 0 when unset.
    leeway: Option<i64>,
    /// The max lifespan (`exp` minus `iat`) of a token in seconds; one hour
    /// when unset.
    max_lifespan: Option<i64>,
    /// Whether to reject tokens whose `jti` has been seen before.
    validate_jti: bool,
    /// Whether to check that the `kid` starts with `"$iss/"`.
    validate_kid: bool,
    /// How long fetched public keys are cached, in nanoseconds; ten minutes
    /// when unset.
    cache_duration: Option<u128>,
}

impl<S> View for GenericValidatorBuilder<S> {
    type V = BuilderView<S>;

    closed spec fn view(&self) -> BuilderView<S> {
        BuilderView {
            resource_server_audience: match self.resource_server_audience {
                Some(a) => Some(a@),
                None => None,
            },
            keyserver: self.keyserver,
            jwt_algorithm: self.jwt_algorithm,
            leeway: self.leeway,
            max_lifespan: self.max_lifespan,
            validate_jti: self.validate_jti,
            validate_kid: self.validate_kid,
            cache_duration: self.cache_duration,
        }
    }
}

impl<S> GenericValidatorBuilder<S> {
    /// A builder for a validator that fetches keys from `keyserver` and
    /// accepts tokens for `resource_server_audience`. It checks `kid`s and
    /// does not check `jti`s.
    pub fn with_keyserver(keyserver: S, resource_server_audience: String) -> (res: Self)
        ensures
            res@ == (BuilderView {
                resource_server_audience: Some(resource_server_audience@),
                keyserver: Some(keyserver),
                jwt_algorithm: None,
                leeway: None,
                max_lifespan: None,
                validate_jti: false,
                validate_kid: true,
                cache_duration: None,
            }),
    {
        GenericValidatorBuilder {
            resource_server_audience: Some(resource_server_audience),
            keyserver: Some(keyserver),
            jwt_algorithm: None,
            leeway: None,
            max_lifespan: None,
            validate_kid: true,
            validate_jti: false,
            cache_duration: None,
        }
    }

    /// Sets the `leeway` (in seconds) for the validator. Defaults to `0`.
    pub fn leeway(&mut self, leeway: i64) -> (res: &mut Self)
        ensures
            res@ == (BuilderView { leeway: Some(leeway), ..old(self)@ }),
            *final(self) == *final(res),
    {
        self.leeway = Some(leeway);
        self
    }

    /// Sets the `max_lifespan` (in seconds) for the validator. The ASAP protocol
    /// sets a hard limit of one hour, but some uses (such as session tokens)
    /// need a higher one, which this allows. Defaults to `3600`.
    pub fn max_lifespan(&mut self, max_lifespan: i64) -> (res: &mut Self)
        ensures
            res@ == (BuilderView { max_lifespan: Some(max_lifespan), ..old(self)@ }),
            *final(self) == *final(res),
    {
        self.max_lifespan = Some(max_lifespan);
        self
    }

    /// Sets how long the validator caches public keys. Defaults to ten
    /// minutes.
    pub fn cache_duration(&mut self, cache_duration: std::time::Duration) -> (res: &mut Self)
        ensures
            res@ == (BuilderView { cache_duration: Some(duration_nanos(cache_duration)), ..old(self)@ }),
            *final(self) == *final(res),
    {
        self.cache_duration = Some(duration_as_nanos(&cache_duration));
        self
    }

    /// Sets whether the validator checks that the `kid` starts with
    /// `"$iss/"`. Defaults to `true`.
    pub fn validate_kid(&mut self, validate_kid: bool) -> (res: &mut Self)
        ensures
            res@ == (BuilderView { validate_kid, ..old(self)@ }),
            *final(self) == *final(res),
    {
        self.validate_kid = validate_kid;
        self
    }

    /// Sets whether the validator rejects tokens whose `jti` it has seen
    /// before. Defaults to `false`.
    pub fn validate_jti(&mut self, validate_jti: bool) -> (res: &mut Self)
        ensures
            res@ == (BuilderView { validate_jti, ..old(self)@ }),
            *final(self) == *final(res),
    {
        self.validate_jti = validate_jti;
        self
    }

    /// Sets the algorithm tokens must be signed with. Defaults to RS256.
    pub fn algorithm(&mut self, algorithm: JwtAlgorithm) -> (res: &mut Self)
        ensures
            res@ == (BuilderView { jwt_algorithm: Some(algorithm), ..old(self)@ }),
            *final(self) == *final(res),
    {
        self.jwt_algorithm = Some(algorithm);
        self
    }

    /// Builds a validator with the configured options. The keyserver and the
    /// audience move into the validator, so a builder builds once; the
    /// algorithm setting is used up as well.
    pub fn build(&mut self) -> (res: GenericValidator<S>)
        requires
            old(self)@.keyserver is Some,
            old(self)@.resource_server_audience is Some,
        ensures
            final(self)@ == (BuilderView {
                keyserver: None,
                resource_server_audience: None,
                jwt_algorithm: None,
                ..old(self)@
            }),
            res.checks_jti() == old(self)@.validate_jti,
            res.checks_kid() == old(self)@.validate_kid,
            res.keyserver_of() == old(self)@.keyserver.unwrap(),
            res.audience() == old(self)@.resource_server_audience.unwrap(),
            res.algorithm() == match old(self)@.jwt_algorithm {
                Some(a) => a,
                None => JwtAlgorithm::RS256,
            },
            res.leeway_of() == match old(self)@.leeway {
                Some(l) => l,
                None => 0,
            },
            res.max_lifespan_of() == match old(self)@.max_lifespan {
                Some(m) => if m < 0 {
                    0
                } else {
                    m
                },
                None => DEFAULT_MAX_LIFESPAN,
            },
            res.cache_duration_of() == match old(self)@.cache_duration {
                Some(d) => d,
                None => DEFAULT_CACHE_DURATION_NANOS,
            },
            res.seen() == Set::<Seq<char>>::empty(),
            forall|k: Seq<char>| #[trigger] res.cached(k) is None,
    {
        let alg = match self.jwt_algorithm.take() {
            Some(a) => a,
            None => JwtAlgorithm::RS256,
        };
        let max_lifespan = match self.max_lifespan {
            Some(m) => m,
            None => DEFAULT_MAX_LIFESPAN,
        };
        let keyserver = self.keyserver.take().unwrap();
        let resource_server_audience = self.resource_server_audience.take().unwrap();
        GenericValidator {
            leeway: match self.leeway {
                Some(l) => l,
                None => 0,
            },
            max_lifespan: if max_lifespan < 0 {
                0
            } else {
                max_lifespan
            },
            jwt_algorithm: alg,
            keyserver,
            resource_server_audience,
            validate_kid: self.validate_kid,
            validate_jti: self.validate_jti,
            jti_seen: SeenNonces::new(),
            key_cache: KeyCache::new(),
            key_cache_duration: match self.cache_duration {
                Some(d) => d,
                None => DEFAULT_CACHE_DURATION_NANOS,
            },
        }
    }

    /// Builds a validator the way the first releases did: as `build`, but
    /// the max lifespan is held to the hard limit of one hour (a larger
    /// setting gives one hour, a negative one gives 0), and tokens must be
    /// signed with RS256 whatever algorithm was set.
    pub fn finish(&mut self) -> (res: GenericValidator<S>)
        requires
            old(self)@.keyserver is Some,
            old(self)@.resource_server_audience is Some,
        ensures
            final(self)@ == (BuilderView {
                keyserver: None,
                resource_server_audience: None,
                jwt_algorithm: None,
                ..old(self)@
            }),
            res.checks_jti() == old(self)@.validate_jti,
            res.checks_kid() == old(self)@.validate_kid,
            res.keyserver_of() == old(self)@.keyserver.unwrap(),
            res.audience() == old(self)@.resource_server_audience.unwrap(),
            res.algorithm() == JwtAlgorithm::RS256,
            res.leeway_of() == match old(self)@.leeway {
                Some(l) => l,
                None => 0,
            },
            res.max_lifespan_of() == match old(self)@.max_lifespan {
                Some(m) => if m < 0 {
                    0
                } else if m > DEFAULT_MAX_LIFESPAN {
                    DEFAULT_MAX_LIFESPAN
                } else {
                    m
                },
                None => DEFAULT_MAX_LIFESPAN,
            },
            res.cache_duration_of() == match old(self)@.cache_duration {
                Some(d) => d,
                None => DEFAULT_CACHE_DURATION_NANOS,
            },
            res.seen() == Set::<Seq<char>>::empty(),
            forall|k: Seq<char>| #[trigger] res.cached(k) is None,
    {
        let mut v = self.build();
        let ghost built = v;
        if v.max_lifespan > DEFAULT_MAX_LIFESPAN {
            v.max_lifespan = DEFAULT_MAX_LIFESPAN;
        }
        v.jwt_algorithm = JwtAlgorithm::RS256;
        assert forall|k: Seq<char>| #[trigger] v.cached(k) is None by {
            assert(built.cached(k) is None);
        }
        v
    }
}

/// A validator builder whose validator fetches keys from HTTP keyservers.
pub type ValidatorBuilder = GenericValidatorBuilder<HttpKeyserver>;

/// A validator that fetches keys from HTTP keyservers.
pub type Validator = GenericValidator<HttpKeyserver>;

/// Whether `v` is the setting of a new builder for an HTTP keyserver at
/// `keyserver_url` and the audience `resource_server_audience`.
pub open spec fn new_http_builder(v: BuilderView<HttpKeyserver>, keyserver_url: Seq<char>, resource_server_audience: Seq<char>) -> bool {
    &&& v.keyserver matches Some(ks) && ks.urls() == seq![keyserver_url] && ks.timeout() is None
    &&& v.resource_server_audience == Some(resource_server_audience)
    &&& v.jwt_algorithm is None
    &&& v.leeway is None
    &&& v.max_lifespan is None
    &&& !v.validate_jti
    &&& v.validate_kid
    &&& v.cache_duration is None
}

impl GenericValidatorBuilder<HttpKeyserver> {
    /// A builder for a validator that fetches keys from the keyserver at
    /// `keyserver_url` (which must end with `/`) and accepts tokens for
    /// `resource_server_audience`.
    pub fn new(keyserver_url: String, resource_server_audience: String) -> (res: Self)
        ensures
            new_http_builder(res@, keyserver_url@, resource_server_audience@),
    {
        let ghost url = keyserver_url@;
        let ks = HttpKeyserver::new(vec![keyserver_url]);
        proof {
            assert(ks.urls() =~= seq![url]);
        }
        GenericValidatorBuilder::with_keyserver(ks, resource_server_audience)
    }

    /// Adds a fallback keyserver, asked when the keyservers before it give
    /// no key.
    pub fn fallback_keyserver(&mut self, keyserver: String) -> (res: &mut Self)
        requires
            old(self)@.keyserver is Some,
        ensures
            res@.keyserver matches Some(ks) && ks.urls() == old(self)@.keyserver.unwrap().urls().push(keyserver@)
                && ks.timeout() == old(self)@.keyserver.unwrap().timeout(),
            res@ == (BuilderView { keyserver: res@.keyserver, ..old(self)@ }),
            *final(self) == *final(res),
    {
        match &mut self.keyserver {
            Some(ks) => ks.append_url(keyserver),
            None => {},
        }
        self
    }
}

impl GenericValidator<HttpKeyserver> {
    /// A builder for a validator that fetches keys from the keyserver at
    /// `keyserver` (which must end with `/`) and accepts tokens for
    /// `resource_server_audience`.
    pub fn builder(keyserver: String, resource_server_audience: String) -> (res: ValidatorBuilder)
        ensures
            new_http_builder(res@, keyserver@, resource_server_audience@),
    {
        GenericValidatorBuilder::new(keyserver, resource_server_audience)
    }
}

/// A decoded token: its header and its claims.
#[derive(Debug)]
pub struct TokenData {
    pub header: JwtHeader,
    pub claims: Claims,
}

/// Why the ASAP rules reject a token, in the order they are checked.
#[derive(Debug, Clone, Copy, PartialEq, Eq, Structural)]
pub enum Rejection {
    DuplicateJti,
    InvalidKid,
    ImmatureSignature,
    ExpiredSignature,
    InvalidLifespan,
    UnrecognisedAudience,
    UnauthorizedSubject,
}

/// The `nbf` claim of a token: the extra claim `nbf` when it holds an
/// integer that fits in an `i64`, and `iat` otherwise.
pub open spec fn not_before(c: Claims) -> i64 {
    match c.extra_claims {
        Some(m) => match lookup(m.entries@, seq!['n', 'b', 'f']) {
            Some(v) => match value_as_i64(v) {
                Some(n) => n,
                None => c.iat,
            },
            None => c.iat,
        },
        None => c.iat,
    }
}

/// The effective subject of a token: the extra claim `sub` when it holds a
/// string, and the issuer otherwise.
pub open spec fn subject(c: Claims) -> Seq<char> {
    match c.extra_claims {
        Some(m) => match lookup(m.entries@, seq!['s', 'u', 'b']) {
            Some(v) => match value_as_string(v) {
                Some(s) => s,
                None => c.iss@,
            },
            None => c.iss@,
        },
        None => c.iss@,
    }
}

/// The names in a list of whitelisted issuers.
pub open spec fn whitelist_view(whitelisted_issuers: Option<&[&str]>) -> Option<Seq<Seq<char>>> {
    match whitelisted_issuers {
        Some(list) => Some(list@.map_values(|s: &str| s@)),
        None => None,
    }
}

/// Whether `e` is the error that reports `r` for the key id `kid`, the
/// claims `c` and the whitelist `wl`.
pub open spec fn reports(e: ValidatorError, r: Rejection, kid: Seq<char>, c: Claims, wl: Option<Seq<Seq<char>>>) -> bool {
    match r {
        Rejection::DuplicateJti => e matches ValidatorError::DuplicateJTI(j) && j@ == c.jti@,
        Rejection::InvalidKid => e matches ValidatorError::InvalidKID(k, i) && k@ == kid && i@ == c.iss@,
        Rejection::ImmatureSignature => e == ValidatorError::ImmatureSignature(not_before(c), c.exp),
        Rejection::ExpiredSignature => e == ValidatorError::ExpiredSignature(not_before(c), c.exp),
        Rejection::InvalidLifespan => e == ValidatorError::InvalidLifespan,
        Rejection::UnrecognisedAudience => e matches ValidatorError::UnrecognisedAudience(a) && string_views(a@)
            == c.aud.audiences(),
        Rejection::UnauthorizedSubject => e matches ValidatorError::UnauthorizedSubject(s, l) && s@ == subject(c)
            && Some(string_views(l@)) == wl,
    }
}

/// An ASAP validator: it checks incoming tokens against the ASAP
/// protocol, remembers the `jti` nonces it has seen when asked to, and
/// caches the public keys its keyserver gives.
pub struct GenericValidator<S> {
    /// Whether the validator rejects tokens whose `jti` it has seen before.
    validate_jti: bool,
    /// Whether the validator checks that the `kid` starts with `"$iss/"`.
    validate_kid: bool,
    jwt_algorithm: JwtAlgorithm,
    resource_server_audience: String,
    leeway: i64,
    max_lifespan: i64,
    keyserver: S,
    jti_seen: SeenNonces,
    key_cache: KeyCache,
    key_cache_duration: u128,
}

impl<S> GenericValidator<S> {
    /// Whether the validator rejects tokens whose `jti` it has seen before.
    pub closed spec fn checks_jti(&self) -> bool {
        self.validate_jti
    }

    /// Whether the validator checks that the `kid` starts with `"$iss/"`.
    pub closed spec fn checks_kid(&self) -> bool {
        self.validate_kid
    }

    /// The algorithm tokens must be signed with.
    pub closed spec fn algorithm(&self) -> JwtAlgorithm {
        self.jwt_algorithm
    }

    /// The identifier of the resource server.
    pub closed spec fn audience(&self) -> Seq<char> {
        self.resource_server_audience@
    }

    /// The leeway of the time checks, in seconds.
    pub closed spec fn leeway_of(&self) -> i64 {
        self.leeway
    }

    /// The longest lifespan accepted, in seconds.
    pub closed spec fn max_lifespan_of(&self) -> i64 {
        self.max_lifespan
    }

    /// The keyserver.
    pub closed spec fn keyserver_of(&self) -> S {
        self.keyserver
    }

    /// The `jti` nonces seen so far.
    pub closed spec fn seen(&self) -> Set<Seq<char>> {
        self.jti_seen.view()
    }

    /// The key cached under `kid`.
    pub closed spec fn cached(&self, kid: Seq<char>) -> Option<CacheEntry> {
        self.key_cache.get_spec(kid)
    }

    /// How long keys stay cached, in nanoseconds.
    pub closed spec fn cache_duration_of(&self) -> u128 {
        self.key_cache_duration
    }

    /// Why the ASAP rules reject the claims `c` of a token whose key id is
    /// `kid`, at the time `now`, when only the issuers `wl` are allowed (if
    /// given); `None` when they accept it.
    pub open spec fn rejection(&self, kid: Seq<char>, c: Claims, now: i64, wl: Option<Seq<Seq<char>>>) -> Option<
        Rejection,
    > {
        if self.checks_jti() && self.seen().contains(c.jti@) {
            Some(Rejection::DuplicateJti)
        } else if self.checks_kid() && !(c.iss@ + seq!['/']).is_prefix_of(kid) {
            Some(Rejection::InvalidKid)
        } else if not_before(c) > now + self.leeway_of() {
            Some(Rejection::ImmatureSignature)
        } else if c.exp < now - self.leeway_of() {
            Some(Rejection::ExpiredSignature)
        } else if c.exp - c.iat > self.max_lifespan_of() {
            Some(Rejection::InvalidLifespan)
        } else if !c.aud.audiences().contains(self.audience()) {
            Some(Rejection::UnrecognisedAudience)
        } else if wl is Some && !wl.unwrap().contains(subject(c)) {
            Some(Rejection::UnauthorizedSubject)
        } else {
            None
        }
    }

    /// The validator's settings and memory are those of `other`, but for the
    /// nonces seen and the keys cached.
    pub open spec fn same_settings(&self, other: &Self) -> bool {
        &&& self.checks_jti() == other.checks_jti()
        &&& self.checks_kid() == other.checks_kid()
        &&& self.algorithm() == other.algorithm()
        &&& self.audience() == other.audience()
        &&& self.leeway_of() == other.leeway_of()
        &&& self.max_lifespan_of() == other.max_lifespan_of()
        &&& self.keyserver_of() == other.keyserver_of()
        &&& self.cache_duration_of() == other.cache_duration_of()
    }

    /// The keyserver of this validator.
    pub fn keyserver(&self) -> (res: &S)
        ensures
            *res == self.keyserver_of(),
    {
        &self.keyserver
    }

    /// The public key cached for `kid`, when it is fresh; a stale entry, or
    /// one that cannot be dated, is forgotten.
    pub fn cached_public_key(&mut self, kid: &str) -> (res: Option<PublicKey>)
        ensures
            final(self).same_settings(old(self)),
            final(self).seen() == old(self).seen(),
            forall|k: Seq<char>| k != kid@ ==> #[trigger] final(self).cached(k) == old(self).cached(k),
            match res {
                Some(key) => old(self).cached(kid@) matches Some((_, k)) && k == key@ && final(self).cached(kid@)
                    == old(self).cached(kid@),
                None => final(self).cached(kid@) is None,
            },
            res is Some ==> exists|e: Option<u128>|
                #[trigger] elapsed_reading(e) && (e matches Some(n) && n <= old(self).cache_duration_of()),
            res is None && old(self).cached(kid@) is Some ==> exists|e: Option<u128>|
                #[trigger] elapsed_reading(e) && (e matches Some(n) ==> n > old(self).cache_duration_of()),
    {
        match get_key_from_cache(&self.key_cache, self.key_cache_duration, kid) {
            Ok(key) => Some(key),
            Err(_) => {
                self.key_cache.remove(kid);
                None
            },
        }
    }

    /// Checks the signature and the algorithm of a token with `key`, and
    /// returns the JSON text of its claims.
    pub fn check_signature(&self, token: &str, key: &PublicKey) -> (res: Result<String, AsapError>)
        ensures
            match jwt_payload(token@, key@, self.algorithm()) {
                Ok(text) => res matches Ok(t) && t@ == text,
                Err(e) => res == Err::<String, AsapError>(AsapError::Jwt(e)),
            },
    {
        match decode_payload(token, key, self.jwt_algorithm) {
            Ok(text) => Ok(text),
            Err(e) => Err(AsapError::Jwt(e)),
        }
    }

    /// Checks the claims of a token against the ASAP protocol at the
    /// current time (see `validate`).
    pub fn validate_now(&mut self, kid: &str, claims: &Claims, whitelisted_issuers: Option<&[&str]>) -> (res: Result<
        (),
        ValidatorError,
    >)
        ensures
            final(self).same_settings(old(self)),
            forall|k: Seq<char>| #[trigger] final(self).cached(k) == old(self).cached(k),
            final(self).seen() == if old(self).checks_jti() {
                old(self).seen().insert(claims.jti@)
            } else {
                old(self).seen()
            },
            exists|now: i64|
                0 <= now < clock_bound() && match #[trigger] old(self).rejection(
                    kid@,
                    *claims,
                    now,
                    whitelist_view(whitelisted_issuers),
                ) {
                    None => res is Ok,
                    Some(r) => res matches Err(e) && reports(e, r, kid@, *claims, whitelist_view(whitelisted_issuers)),
                },
    {
        let now = now_timestamp();
        let res = self.validate(kid, claims, now, whitelisted_issuers);
        assert(0 <= now < clock_bound());
        res
    }

    /// Caches `key` for `kid`, stamped with the current time, unless a key
    /// is cached for `kid` already.
    pub fn remember_key(&mut self, kid: String, key: PublicKey)
        ensures
            final(self).same_settings(old(self)),
            final(self).seen() == old(self).seen(),
            forall|k: Seq<char>| k != kid@ ==> #[trigger] final(self).cached(k) == old(self).cached(k),
            old(self).cached(kid@) is Some ==> final(self).cached(kid@) == old(self).cached(kid@),
            old(self).cached(kid@) is None ==> (final(self).cached(kid@) matches Some((_, k)) && k == key@),
    {
        let when = system_time_now();
        self.key_cache.insert_if_absent(kid, when, key);
    }

    /// Accepts a token whose signature has been checked with `key`: its
    /// claims are validated at the current time, and when they pass, `key`
    /// is cached for `kid`.
    pub fn accept(&mut self, kid: String, claims: &Claims, key: PublicKey, whitelisted_issuers: Option<&[&str]>) -> (res:
        Result<(), AsapError>)
        ensures
            final(self).same_settings(old(self)),
            final(self).seen() == if old(self).checks_jti() {
                old(self).seen().insert(claims.jti@)
            } else {
                old(self).seen()
            },
            forall|k: Seq<char>| k != kid@ ==> #[trigger] final(self).cached(k) == old(self).cached(k),
            res is Err ==> final(self).cached(kid@) == old(self).cached(kid@),
            res is Ok && old(self).cached(kid@) is Some ==> final(self).cached(kid@) == old(self).cached(kid@),
            res is Ok && old(self).cached(kid@) is None ==> (final(self).cached(kid@) matches Some((_, k)) && k
                == key@),
            exists|now: i64|
                0 <= now < clock_bound() && match #[trigger] old(self).rejection(
                    kid@,
                    *claims,
                    now,
                    whitelist_view(whitelisted_issuers),
                ) {
                    None => res is Ok,
                    Some(r) => res matches Err(AsapError::Validator(e)) && reports(
                        e,
                        r,
                        kid@,
                        *claims,
                        whitelist_view(whitelisted_issuers),
                    ),
                },
    {
        match self.validate_now(kid.as_str(), claims, whitelisted_issuers) {
            Ok(()) => {
                self.remember_key(kid, key);
                Ok(())
            },
            Err(e) => Err(AsapError::Validator(e)),
        }
    }

    /// Checks the claims of a token against the ASAP protocol, at the
    /// time `now` (in seconds since the Unix epoch):
    /// - a `jti` seen before is rejected, when `validate_jti` is set; an
    ///   unseen one is remembered;
    /// - the `kid` must start with `"$iss/"`, when `validate_kid` is set;
    /// - `now` must lie between `nbf` (or `iat`, when there is no `nbf`) and
    ///   `exp`, with the leeway on both sides;
    /// - the lifespan (`exp` minus `iat`) must not exceed the max lifespan;
    /// - `aud` must name the resource server;
    /// - the subject (`sub`, or `iss` when there is no `sub`) must be one of
    ///   the whitelisted issuers, when they are given.
    pub fn validate(&mut self, kid: &str, claims: &Claims, now: i64, whitelisted_issuers: Option<&[&str]>) -> (res:
        Result<(), ValidatorError>)
        ensures
            final(self).same_settings(old(self)),
            forall|k: Seq<char>| #[trigger] final(self).cached(k) == old(self).cached(k),
            final(self).seen() == if old(self).checks_jti() {
                old(self).seen().insert(claims.jti@)
            } else {
                old(self).seen()
            },
            match old(self).rejection(kid@, *claims, now, whitelist_view(whitelisted_issuers)) {
                None => res is Ok,
                Some(r) => res matches Err(e) && reports(e, r, kid@, *claims, whitelist_view(whitelisted_issuers)),
            },
    {
        let ghost old_seen = self.jti_seen.view();
        if self.validate_jti {
            if self.jti_seen.contains(claims.jti.as_str()) {
                assert(old_seen.insert(claims.jti@) =~= old_seen);
                return Err(ValidatorError::DuplicateJTI(claims.jti.clone()));
            } else {
                self.jti_seen.insert(claims.jti.clone());
            }
        }
        if self.validate_kid {
            let prefix = concat(claims.iss.as_str(), "/");
            proof {
                reveal_strlit("/");
                assert(prefix@ =~= claims.iss@ + seq!['/']);
            }
            if !str_starts_with(kid, prefix.as_str()) {
                return Err(ValidatorError::InvalidKID(kid.to_owned(), claims.iss.clone()));
            }
        }
        let nbf = claim_not_before(claims);
        let exp = claims.exp;
        if (nbf as i128) > (now as i128) + (self.leeway as i128) {
            return Err(ValidatorError::ImmatureSignature(nbf, exp));
        } else if (exp as i128) < (now as i128) - (self.leeway as i128) {
            return Err(ValidatorError::ExpiredSignature(nbf, exp));
        }
        if (exp as i128) - (claims.iat as i128) > (self.max_lifespan as i128) {
            return Err(ValidatorError::InvalidLifespan);
        }
        let aud = claims.aud.to_list();
        if !contains_string(&aud, self.resource_server_audience.as_str()) {
            return Err(ValidatorError::UnrecognisedAudience(aud));
        }
        let sub = claim_subject(claims);
        match whitelisted_issuers {
            Some(issuers) => {
                if !contains_str(issuers, sub.as_str()) {
                    let subjects = to_owned_all(issuers);
                    return Err(ValidatorError::UnauthorizedSubject(sub, subjects));
                }
            },
            None => {},
        }
        Ok(())
    }
}

/// Attempts to fetch the public key for `kid` from the cache: `CacheError`
/// when no key is cached for it; otherwise the key when it was cached at
/// most `key_cache_duration` nanoseconds ago, `ExpiredCache` when longer
/// ago, and `ClockError` when the clock reads earlier than the time the key
/// was cached.
pub fn get_key_from_cache(key_cache: &KeyCache, key_cache_duration: u128, kid: &str) -> (res: Result<
    PublicKey,
    ValidatorError,
>)
    ensures
        match key_cache.get_spec(kid@) {
            None => res == Err::<PublicKey, ValidatorError>(ValidatorError::CacheError),
            Some((_, key)) => match res {
                Ok(k) => k@ == key,
                Err(e) => e == ValidatorError::ClockError || (e matches ValidatorError::ExpiredCache(k) && k@
                    == kid@),
            },
        },
        key_cache.get_spec(kid@) is Some ==> exists|e: Option<u128>|
            #[trigger] elapsed_reading(e) && match e {
                None => res == Err::<PublicKey, ValidatorError>(ValidatorError::ClockError),
                Some(n) => (res is Ok) == (n <= key_cache_duration),
            },
{
    match key_cache.get(kid) {
        Some((when, key)) => {
            let elapsed = elapsed_nanos(when);
            let res = key_from_cache_entry(key, elapsed, key_cache_duration, kid);
            assert(elapsed_reading(elapsed));
            res
        },
        None => Err(ValidatorError::CacheError),
    }
}

/// Decides on a cached key, given the time elapsed since it was cached (in
/// nanoseconds; `None` when the clock reads earlier than that time).
pub fn key_from_cache_entry(key: &PublicKey, elapsed: Option<u128>, key_cache_duration: u128, kid: &str) -> (res:
    Result<PublicKey, ValidatorError>)
    ensures
        match elapsed {
            None => res == Err::<PublicKey, ValidatorError>(ValidatorError::ClockError),
            Some(t) => if t <= key_cache_duration {
                res matches Ok(k) && k@ == key@
            } else {
                res matches Err(ValidatorError::ExpiredCache(k)) && k@ == kid@
            },
        },
{
    match elapsed {
        None => Err(ValidatorError::ClockError),
        Some(t) => {
            if t <= key_cache_duration {
                Ok(key.duplicate())
            } else {
                Err(ValidatorError::ExpiredCache(kid.to_owned()))
            }
        },
    }
}

/// Reads the header of a token and its key id: the header's error when it
/// cannot be read, `NoKIDFound` when it names no key id.
pub fn read_header(token: &str) -> (res: Result<(JwtHeader, String), AsapError>)
    ensures
        match jwt_header(token@) {
            Err(e) => res == Err::<(JwtHeader, String), AsapError>(AsapError::Jwt(e)),
            Ok(h) => match h.kid {
                None => res == Err::<(JwtHeader, String), AsapError>(
                    AsapError::Validator(ValidatorError::NoKIDFound(h)),
                ),
                Some(k) => res matches Ok((hh, kk)) && hh == h && kk@ == k@,
            },
        },
{
    match decode_header(token) {
        Err(e) => Err(AsapError::Jwt(e)),
        Ok(header) => {
            let kid = match &header.kid {
                Some(k) => Some(k.clone()),
                None => None,
            };
            match kid {
                Some(k) => Ok((header, k)),
                None => Err(AsapError::Validator(ValidatorError::NoKIDFound(header))),
            }
        },
    }
}

/// The message of the error given when no keyserver gave a key.
pub open spec fn keyserver_failure_message() -> Seq<char> {
    "Failed to fetch a key from any keyserver"@
}

/// The key a keyserver gave, or `KeyserverError` when it gave none.
pub fn key_from_keyserver<E>(fetched: Result<PublicKey, E>) -> (res: Result<PublicKey, AsapError>)
    ensures
        match fetched {
            Ok(k) => res matches Ok(r) && r@ == k@,
            Err(_) => res matches Err(AsapError::Validator(ValidatorError::KeyserverError(m))) && m@
                == keyserver_failure_message(),
        },
{
    match fetched {
        Ok(k) => Ok(k),
        Err(_) => Err(
            AsapError::Validator(ValidatorError::KeyserverError("Failed to fetch a key from any keyserver".to_owned())),
        ),
    }
}

/// The `nbf` claim of a token.
fn claim_not_before(claims: &Claims) -> (res: i64)
    ensures
        res == not_before(*claims),
{
    proof {
        reveal_strlit("nbf");
        assert("nbf"@ =~= seq!['n', 'b', 'f']);
    }
    match &claims.extra_claims {
        Some(m) => match extract_claim_i64(m, "nbf") {
            Ok(n) => n,
            Err(_) => claims.iat,
        },
        None => claims.iat,
    }
}

/// The effective subject of a token.
fn claim_subject(claims: &Claims) -> (res: String)
    ensures
        res@ == subject(*claims),
{
    proof {
        reveal_strlit("sub");
        assert("sub"@ =~= seq!['s', 'u', 'b']);
    }
    match &claims.extra_claims {
        Some(m) => match extract_claim_string(m, "sub") {
            Ok(s) => s,
            Err(_) => claims.iss.clone(),
        },
        None => claims.iss.clone(),
    }
}

/// Whether `list` holds a string equal to `s`.
fn contains_string(list: &Vec<String>, s: &str) -> (res: bool)
    ensures
        res == string_views(list@).contains(s@),
{
    let mut i: usize = 0;
    while i < list.len()
        invariant
            i <= list@.len(),
            forall|j: int| 0 <= j < i ==> #[trigger] list@[j]@ != s@,
        decreases list@.len() - i,
    {
        if str_equal(list[i].as_str(), s) {
            assert(string_views(list@)[i as int] == s@);
            return true;
        }
        i = i + 1;
    }
    assert(!string_views(list@).contains(s@)) by {
        if string_views(list@).contains(s@) {
            let j = choose|j: int| 0 <= j < string_views(list@).len() && string_views(list@)[j] == s@;
            assert(list@[j]@ == s@);
        }
    }
    false
}

/// Whether `list` holds a string equal to `s`.
fn contains_str(list: &[&str], s: &str) -> (res: bool)
    ensures
        res == list@.map_values(|x: &str| x@).contains(s@),
{
    let ghost views = list@.map_values(|x: &str| x@);
    let mut i: usize = 0;
    while i < list.len()
        invariant
            i <= list@.len(),
            views == list@.map_values(|x: &str| x@),
            forall|j: int| 0 <= j < i ==> #[trigger] list@[j]@ != s@,
        decreases list@.len() - i,
    {
        if str_equal(list[i], s) {
            assert(views[i as int] == s@);
            return true;
        }
        i = i + 1;
    }
    assert(!views.contains(s@)) by {
        if views.contains(s@) {
            let j = choose|j: int| 0 <= j < views.len() && views[j] == s@;
            assert(list@[j]@ == s@);
        }
    }
    false
}

/// Owned copies of the given strings, in order.
fn to_owned_all(list: &[&str]) -> (res: Vec<String>)
    ensures
        string_views(res@) == list@.map_values(|x: &str| x@),
{
    let mut out: Vec<String> = Vec::new();
    let mut i: usize = 0;
    while i < list.len()
        invariant
            i <= list@.len(),
            out@.len() == i,
            forall|j: int| 0 <= j < i ==> #[trigger] out@[j]@ == list@[j]@,
        decreases list@.len() - i,
    {
        out.push(list[i].to_owned());
        i = i + 1;
    }
    assert(string_views(out@) =~= list@.map_values(|x: &str| x@));
    out
}


/// A token whose claims a validator accepts complies with ASAP: its `jti`
/// is new (when nonces are checked), its `kid` starts with `"$iss/"` (when
/// key ids are checked), the time lies between `nbf` and `exp` with the
/// leeway on both sides, its lifespan does not exceed the max lifespan, its
/// `aud` names the resource server, and its subject is whitelisted (when a
/// whitelist is given).
pub proof fn lemma_accepted_claims_comply<S>(
    v: GenericValidator<S>,
    kid: Seq<char>,
    c: Claims,
    now: i64,
    wl: Option<Seq<Seq<char>>>,
)
    requires
        v.rejection(kid, c, now, wl) is None,
    ensures
        v.checks_jti() ==> !v.seen().contains(c.jti@),
        v.checks_kid() ==> (c.iss@ + seq!['/']).is_prefix_of(kid),
        not_before(c) <= now + v.leeway_of(),
        now - v.leeway_of() <= c.exp,
        c.exp - c.iat <= v.max_lifespan_of(),
        c.aud.audiences().contains(v.audience()),
        wl is Some ==> wl.unwrap().contains(subject(c)),
{
}

/// A token that passes every check the validator makes is accepted: a new
/// `jti` (or none checked), a `kid` starting with `"$iss/"` (or key ids not
/// checked, whatever the `kid` is), the time between `nbf` and `exp` with
/// the leeway, a lifespan within the max lifespan, an `aud` naming the
/// resource server, and a whitelisted subject (or no whitelist).
pub proof fn lemma_compliant_claims_accepted<S>(
    v: GenericValidator<S>,
    kid: Seq<char>,
    c: Claims,
    now: i64,
    wl: Option<Seq<Seq<char>>>,
)
    requires
        v.checks_jti() ==> !v.seen().contains(c.jti@),
        v.checks_kid() ==> (c.iss@ + seq!['/']).is_prefix_of(kid),
        not_before(c) <= now + v.leeway_of(),
        now - v.leeway_of() <= c.exp,
        c.exp - c.iat <= v.max_lifespan_of(),
        c.aud.audiences().contains(v.audience()),
        wl is Some ==> wl.unwrap().contains(subject(c)),
    ensures
        v.rejection(kid, c, now, wl) is None,
{
}

/// Once a validator that checks nonces has validated claims, accepted or
/// not, any later claims with the same `jti` are rejected as a duplicate.
pub proof fn lemma_replayed_jti_rejected<S>(
    before: GenericValidator<S>,
    after: GenericValidator<S>,
    first: Claims,
    kid: Seq<char>,
    c: Claims,
    now: i64,
    wl: Option<Seq<Seq<char>>>,
)
    requires
        before.checks_jti(),
        after.same_settings(&before),
        after.seen() == before.seen().insert(first.jti@),
        c.jti@ == first.jti@,
    ensures
        after.rejection(kid, c, now, wl) == Some(Rejection::DuplicateJti),
{
}

/// Claims a generator builds are accepted by a validator for their
/// audience: when the generator's key id starts with its issuer and `/`,
/// the claims carry no extra claims, the lifespan is within the validator's
/// max lifespan, the time lies between issue and expiry (with the leeway),
/// the nonce is new to the validator, and the issuer is whitelisted (when a
/// whitelist is given).
pub proof fn lemma_generated_claims_accepted<S>(
    g: Generator,
    v: GenericValidator<S>,
    c: Claims,
    aud: Aud,
    now: i64,
    wl: Option<Seq<Seq<char>>>,
)
    requires
        built_claims(c, g.issuer(), g.lifespan_of(), aud, None),
        (g.issuer() + seq!['/']).is_prefix_of(g.key_id()),
        aud.audiences().contains(v.audience()),
        g.lifespan_of() <= v.max_lifespan_of(),
        c.iat <= now + v.leeway_of(),
        now - v.leeway_of() <= c.exp,
        v.checks_jti() ==> !v.seen().contains(c.jti@),
        wl is Some ==> wl.unwrap().contains(g.issuer()),
    ensures
        v.rejection(g.key_id(), c, now, wl) is None,
{
}

} // verus!
