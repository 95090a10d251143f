//! Generation of ASAP tokens: a generator builds the claims of a token, signs
//! them with its private key under its key id, and may cache the tokens it
//! signs.

use vstd::prelude::*;
use crate::claims::{Aud, Claims, ClaimsBuilder, ExtraClaims, MAX_LIFESPAN_SETTING, DEFAULT_TOKEN_LIFESPAN};
use crate::errors::{AsapError, ValidatorError};
use crate::jwt::{JwtError, encode_rs256, jwt_signed};
use crate::text::{concat, str_starts_with};
use crate::util::{clock_bound, is_alphanumeric};
use crate::validator::duration_nanos;

verus! {

/// Declares `lru_time_cache::LruCache` to Verus.
#[verifier::external_type_specification]
#[verifier::external_body]
#[verifier::reject_recursive_types(Key)]
#[verifier::reject_recursive_types(Value)]
pub struct ExLruCache<Key, Value>(lru_time_cache::LruCache<Key, Value>);

/// A cache of signed tokens, by cache key.
pub type TokenCache = lru_time_cache::LruCache<String, String>;

/// The tokens a token cache stores, by cache key (those whose time to live
/// has run out included, until the cache drops them).
pub uninterp spec fn token_cache_contents(cache: TokenCache) -> Map<
    Seq<char>,
    Seq<char>,
>;

/// The capacity and the time to live (in nanoseconds) a token cache was made
/// with.
pub uninterp spec fn token_cache_limits(cache: TokenCache) -> (nat, nat);

/// The longest time to live of a token cache, in nanoseconds: the cache adds
/// it to instants of the monotonic clock, which must not overflow.
pub open spec fn max_token_ttl() -> nat {
    0xffff_ffff_ffff_ffff
}

/// An empty token cache.
///
/// Trusted: calls `LruCache::with_expiry_duration_and_capacity`, which makes
/// a cache with an empty map, the given capacity and the given time to live.
#[verifier::external_body]
fn token_cache_new(ttl: std::time::Duration, capacity: usize) -> (res: TokenCache)
    ensures
        token_cache_contents(res) =~= Map::empty(),
        token_cache_limits(res) == (capacity as nat, duration_nanos(ttl) as nat),
{
    lru_time_cache::LruCache::with_expiry_duration_and_capacity(ttl, capacity)
}

/// The token cached under `key`, if it has not expired.
///
/// Trusted: calls `LruCache::get`, which first drops the entries whose time
/// to live has run out, then looks `key` up and, when found, marks it as the
/// most recently used. The limits stay; the entries kept are a part of those
/// before; a token that comes back is the one stored under `key`, and no
/// token is left under `key` when none comes back. Which entries expire
/// depends on the clock and is left unsaid. (`get` panics when adding the
/// time to live to an instant overflows, hence the bound.)
#[verifier::external_body]
fn token_cache_get(cache: &mut TokenCache, key: &str) -> (res: Option<String>)
    requires
        token_cache_limits(*old(cache)).1 <= max_token_ttl(),
    ensures
        token_cache_limits(*final(cache)) == token_cache_limits(*old(cache)),
        token_cache_contents(*final(cache)).submap_of(token_cache_contents(*old(cache))),
        match res {
            Some(t) => token_cache_contents(*final(cache)).contains_pair(key@, t@),
            None => !token_cache_contents(*final(cache)).dom().contains(key@),
        },
{
    cache.get(key).cloned()
}

/// Stores `token` under `key`.
///
/// Trusted: calls `LruCache::insert`, which first drops the entries whose
/// time to live has run out; a new key then evicts the least recently used
/// entries until there is room for it under the capacity, and the token is
/// stored under `key`. So the cache holds `token` under `key`, every other
/// entry it holds was there before, and it holds no more entries than its
/// capacity. Which entries leave depends on the clock and is left unsaid.
/// (`insert` panics on a cache of capacity 0, and when adding the time to
/// live to an instant overflows, hence the bounds.)
#[verifier::external_body]
fn token_cache_insert(cache: &mut TokenCache, key: String, token: String)
    requires
        token_cache_limits(*old(cache)).0 > 0,
        token_cache_limits(*old(cache)).1 <= max_token_ttl(),
        token_cache_contents(*old(cache)).dom().finite(),
        token_cache_contents(*old(cache)).len() <= token_cache_limits(*old(cache)).0,
    ensures
        token_cache_limits(*final(cache)) == token_cache_limits(*old(cache)),
        token_cache_contents(*final(cache)).contains_pair(key@, token@),
        token_cache_contents(*final(cache)).submap_of(token_cache_contents(*old(cache)).insert(key@, token@)),
        token_cache_contents(*final(cache)).dom().finite(),
        token_cache_contents(*final(cache)).len() <= token_cache_limits(*old(cache)).0,
{
    let _ = cache.insert(key, token);
}

/// Whether `res` is what signing gave: the token, or the signing error.
pub open spec fn signing_outcome(res: Result<Seq<char>, AsapError>, signed: Result<Seq<char>, JwtError>) -> bool {
    match signed {
        Ok(t) => res == Ok::<Seq<char>, AsapError>(t),
        Err(e) => res == Err::<Seq<char>, AsapError>(AsapError::Jwt(e)),
    }
}

/// The text of a result holding a string.
pub open spec fn result_text(res: Result<String, AsapError>) -> Result<Seq<char>, AsapError> {
    match res {
        Ok(s) => Ok(s@),
        Err(e) => Err(e),
    }
}

/// The value of an `Authorization` header carrying the token of `res`.
pub open spec fn bearer(res: Result<Seq<char>, AsapError>) -> Result<Seq<char>, AsapError> {
    match res {
        Ok(t) => Ok(seq!['B', 'e', 'a', 'r', 'e', 'r', ' '] + t),
        Err(e) => Err(e),
    }
}

/// Whether `c` are claims a generator issuing as `iss` with the lifespan
/// `lifespan` builds for `aud` and `extra_claims`: a fresh nonce of twenty
/// letters and digits, issued at a time the clock can report.
pub open spec fn built_claims(c: Claims, iss: Seq<char>, lifespan: i64, aud: Aud, extra_claims: Option<ExtraClaims>) -> bool {
    &&& c.aud == aud
    &&& c.extra_claims == extra_claims
    &&& c.iss@ == iss
    &&& c.jti@.len() == 20
    &&& forall|i: int| 0 <= i < 20 ==> is_alphanumeric(#[trigger] c.jti@[i])
    &&& 0 <= c.iat < clock_bound()
    &&& c.exp == c.iat + lifespan
}

/// Whether claims may be signed under the key id `kid`: the key id starts
/// with the issuer and `/`, and the lifespan is at most one hour.
pub open spec fn claims_sound(kid: Seq<char>, c: Claims) -> bool {
    (c.iss@ + seq!['/']).is_prefix_of(kid) && c.exp - c.iat <= 3600
}

/// Whether `e` is the error given for claims that may not be signed under
/// `kid`: `InvalidKID` when the key id does not start with the issuer and
/// `/`, and `InvalidLifespan` otherwise.
pub open spec fn claims_fault(kid: Seq<char>, c: Claims, e: ValidatorError) -> bool {
    if !(c.iss@ + seq!['/']).is_prefix_of(kid) {
        e matches ValidatorError::InvalidKID(k, i) && k@ == kid && i@ == c.iss@
    } else {
        e == ValidatorError::InvalidLifespan
    }
}

/// An ASAP generator: it creates ASAP tokens and `Authorization` headers,
/// signed with its private key under its key id, and may cache the tokens
/// it creates.
pub struct Generator {
    kid: String,
    private_key: Vec<u8>,
    claims_builder: ClaimsBuilder,
    cache: Option<TokenCache>,
    check_claims: bool,
}

impl Generator {
    /// A token cache, when there is one, can take tokens and holds no more
    /// than its capacity.
    #[verifier::type_invariant]
    spec fn cache_usable(self) -> bool {
        match self.cache {
            Some(c) => {
                &&& token_cache_limits(c).0 > 0
                &&& token_cache_limits(c).1 <= max_token_ttl()
                &&& token_cache_contents(c).dom().finite()
                &&& token_cache_contents(c).len() <= token_cache_limits(c).0
            },
            None => true,
        }
    }

    /// The key id tokens are signed under.
    pub closed spec fn key_id(&self) -> Seq<char> {
        self.kid@
    }

    /// The DER-encoded RSA private key tokens are signed with.
    pub closed spec fn signing_key(&self) -> Seq<u8> {
        self.private_key@
    }

    /// The issuer (`iss`) of the tokens.
    pub closed spec fn issuer(&self) -> Seq<char> {
        self.claims_builder.issuer()
    }

    /// The lifespan of the tokens, in seconds.
    pub closed spec fn lifespan_of(&self) -> i64 {
        self.claims_builder.lifespan_of()
    }

    /// The tokens cached, by cache key; `None` when caching is off.
    pub closed spec fn cached_tokens(&self) -> Option<Map<Seq<char>, Seq<char>>> {
        match self.cache {
            Some(c) => Some(token_cache_contents(c)),
            None => None,
        }
    }

    /// The capacity and time to live (in nanoseconds) of the token cache;
    /// `None` when caching is off.
    pub closed spec fn cache_limits(&self) -> Option<(nat, nat)> {
        match self.cache {
            Some(c) => Some(token_cache_limits(c)),
            None => None,
        }
    }

    /// Whether claims are checked before they are signed.
    pub closed spec fn checks_claims(&self) -> bool {
        self.check_claims
    }

    /// The two generators sign alike: same key id, private key, issuer,
    /// lifespan and claim checking.
    pub open spec fn same_signer(&self, other: &Generator) -> bool {
        &&& self.checks_claims() == other.checks_claims()
        &&& self.key_id() == other.key_id()
        &&& self.signing_key() == other.signing_key()
        &&& self.issuer() == other.issuer()
        &&& self.lifespan_of() == other.lifespan_of()
    }

    /// The generator holds no more cached tokens than its cache's capacity.
    pub open spec fn cache_within_capacity(&self) -> bool {
        match (self.cached_tokens(), self.cache_limits()) {
            (Some(m), Some(l)) => m.dom().finite() && m.len() <= l.0,
            (None, None) => true,
            _ => false,
        }
    }

    /// What giving a token for the claims `c` does: without a cache, the
    /// token signed for `c`; with one, either a token cached under the
    /// claims' cache key (which stays cached), or the token signed for `c`,
    /// which is then cached under that key; the cache keeps no entry it did
    /// not hold before but for that one, and a failed signing leaves no
    /// entry under the key.
    pub open spec fn token_outcome(
        before: &Generator,
        after: &Generator,
        c: Claims,
        res: Result<Seq<char>, AsapError>,
    ) -> bool {
        let key = c.cache_key_text();
        let signed = jwt_signed(before.key_id(), c.json(), before.signing_key());
        &&& after.same_signer(before)
        &&& after.cache_limits() == before.cache_limits()
        &&& after.cache_within_capacity()
        &&& if before.checks_claims() && !claims_sound(before.key_id(), c) {
            &&& after.cached_tokens() == before.cached_tokens()
            &&& res matches Err(AsapError::Validator(e)) && claims_fault(before.key_id(), c, e)
        } else {
            match before.cached_tokens() {
            None => after.cached_tokens() is None && signing_outcome(res, signed),
            Some(m) => after.cached_tokens() matches Some(n) && {
                ||| res matches Ok(t) && m.contains_pair(key, t) && n.contains_pair(key, t) && n.submap_of(m)
                ||| signing_outcome(res, signed) && match res {
                    Ok(t) => n.contains_pair(key, t) && n.submap_of(m.insert(key, t)),
                    Err(_) => n.submap_of(m.remove(key)),
                }
            },
            }
        }
    }

    /// A generator that signs tokens issued by `iss` under the key id `kid`
    /// with `private_key` (a DER-encoded RSA private key), with tokens
    /// living `DEFAULT_TOKEN_LIFESPAN` seconds and no token caching.
    ///
    /// The key id has the form `"issuer/key-id"`, where the issuer matches
    /// `iss`.
    pub fn new(iss: String, kid: String, private_key: Vec<u8>) -> (res: Generator)
        ensures
            res.issuer() == iss@,
            res.key_id() == kid@,
            res.signing_key() == private_key@,
            res.lifespan_of() == DEFAULT_TOKEN_LIFESPAN,
            res.cached_tokens() is None,
            res.cache_limits() is None,
            !res.checks_claims(),
    {
        let claims_builder = ClaimsBuilder::new(iss);
        Generator { kid, private_key, claims_builder, cache: None, check_claims: false }
    }

    /// Sets whether claims are checked (see `validate_claims`) before they
    /// are signed; a generator does not check them unless asked to.
    pub fn set_validate_claims(&mut self, validate: bool)
        ensures
            final(self).checks_claims() == validate,
            final(self).key_id() == old(self).key_id(),
            final(self).signing_key() == old(self).signing_key(),
            final(self).issuer() == old(self).issuer(),
            final(self).lifespan_of() == old(self).lifespan_of(),
            final(self).cached_tokens() == old(self).cached_tokens(),
            final(self).cache_limits() == old(self).cache_limits(),
    {
        proof {
            use_type_invariant(&*self);
        }
        self.check_claims = validate;
    }

    /// Turns token caching on, dropping any cache there was: at most
    /// `max_count` tokens are cached, each for `ttl`.
    ///
    /// Caution: a cached token is handed out again, with the same `jti`. Do
    /// not use this with a server that rejects repeated `jti` claims.
    pub fn enable_token_caching(&mut self, max_count: usize, ttl: std::time::Duration)
        requires
            max_count > 0,
            duration_nanos(ttl) <= max_token_ttl(),
        ensures
            final(self).same_signer(old(self)),
            final(self).cached_tokens() == Some(Map::<Seq<char>, Seq<char>>::empty()),
            final(self).cache_limits() == Some((max_count as nat, duration_nanos(ttl) as nat)),
    {
        let cache = token_cache_new(ttl, max_count);
        proof {
            assert(token_cache_contents(cache).dom() =~= Set::<Seq<char>>::empty());
        }
        self.cache = Some(cache);
    }

    /// Turns token caching off and hands back the cache there was.
    pub fn disable_token_caching(&mut self) -> (res: Option<TokenCache>)
        ensures
            final(self).same_signer(old(self)),
            final(self).cached_tokens() is None,
            final(self).cache_limits() is None,
            match res {
                Some(c) => old(self).cached_tokens() == Some(token_cache_contents(c)) && old(self).cache_limits()
                    == Some(token_cache_limits(c)),
                None => old(self).cached_tokens() is None,
            },
    {
        let mut slot: Option<TokenCache> = None;
        std::mem::swap(&mut slot, &mut self.cache);
        slot
    }

    /// Sets the lifespan (in seconds) of the tokens created from now on.
    pub fn set_max_lifespan(&mut self, lifespan: i64)
        requires
            lifespan <= MAX_LIFESPAN_SETTING,
        ensures
            final(self).key_id() == old(self).key_id(),
            final(self).signing_key() == old(self).signing_key(),
            final(self).issuer() == old(self).issuer(),
            final(self).lifespan_of() == lifespan,
            final(self).cached_tokens() == old(self).cached_tokens(),
            final(self).cache_limits() == old(self).cache_limits(),
    {
        proof {
            use_type_invariant(&*self);
        }
        let _ = self.claims_builder.lifespan(lifespan);
    }

    /// What giving a token for `claims` does once the token cache was asked
    /// and gave `cached`: a cached token is handed out as it is, without
    /// signing; otherwise the claims are signed, and a signed token is cached
    /// under the claims' cache key when caching is on.
    pub fn token_after_lookup(&mut self, claims: &Claims, cached: Option<String>) -> (res: Result<String, AsapError>)
        ensures
            final(self).same_signer(old(self)),
            final(self).cache_limits() == old(self).cache_limits(),
            final(self).cache_within_capacity(),
            match cached {
                Some(t) => res == Ok::<String, AsapError>(t) && final(self).cached_tokens() == old(self).cached_tokens(),
                None => {
                    &&& signing_outcome(
                        result_text(res),
                        jwt_signed(old(self).key_id(), claims.json(), old(self).signing_key()),
                    )
                    &&& match old(self).cached_tokens() {
                        None => final(self).cached_tokens() is None,
                        Some(m) => final(self).cached_tokens() matches Some(n) && match res {
                            Ok(t) => n.contains_pair(claims.cache_key_text(), t@) && n.submap_of(
                                m.insert(claims.cache_key_text(), t@),
                            ),
                            Err(_) => n == m,
                        },
                    }
                },
            },
    {
        proof {
            use_type_invariant(&*self);
        }
        match cached {
            Some(t) => Ok(t),
            None => {
                let signed = generate_token(self.kid.as_str(), claims, self.private_key.as_slice());
                match signed {
                    Ok(token) => {
                        let mut slot: Option<TokenCache> = None;
                        std::mem::swap(&mut slot, &mut self.cache);
                        match slot {
                            Some(mut cache) => {
                                token_cache_insert(&mut cache, claims.cache_key(), token.clone());
                                self.cache = Some(cache);
                            },
                            None => {},
                        }
                        Ok(token)
                    },
                    Err(e) => Err(e),
                }
            },
        }
    }

    /// The token for `claims`: taken from the cache when caching is on and a
    /// token for claims with the same cache key is cached, otherwise signed
    /// (and then cached, when caching is on).
    pub fn token_for(&mut self, claims: &Claims) -> (res: Result<String, AsapError>)
        ensures
            Generator::token_outcome(old(self), final(self), *claims, result_text(res)),
    {
        proof {
            use_type_invariant(&*self);
        }
        if self.check_claims {
            match self.validate_claims(claims) {
                Err(e) => return Err(AsapError::Validator(e)),
                Ok(()) => {},
            }
        }
        let ghost start = match self.cached_tokens() {
            Some(m) => m,
            None => Map::empty(),
        };
        let mut slot: Option<TokenCache> = None;
        std::mem::swap(&mut slot, &mut self.cache);
        let cached = match slot {
            Some(mut cache) => {
                let key = claims.cache_key();
                let found = token_cache_get(&mut cache, key.as_str());
                proof {
                    lemma_submap_len(token_cache_contents(cache), start);
                }
                self.cache = Some(cache);
                found
            },
            None => None,
        };
        let ghost mid = match self.cached_tokens() {
            Some(m) => m,
            None => Map::empty(),
        };
        let res = self.token_after_lookup(claims, cached);
        proof {
            let key = claims.cache_key_text();
            if old(self).cached_tokens() is Some && cached is None {
                assert(mid.submap_of(start.remove(key)));
                if res is Ok {
                    let t = result_text(res)->Ok_0;
                    lemma_submap_insert(mid, start, key, t);
                    vstd::map_lib::lemma_submap_of_trans(
                        self.cached_tokens()->Some_0,
                        mid.insert(key, t),
                        start.insert(key, t),
                    );
                }
            }
        }
        res
    }

    /// A token for `aud` with the given extra claims, issued now with a
    /// fresh nonce (see `token_for` for the caching).
    pub fn token(&mut self, aud: Aud, extra_claims: Option<ExtraClaims>) -> (res: Result<String, AsapError>)
        ensures
            exists|c: Claims|
                built_claims(c, old(self).issuer(), old(self).lifespan_of(), aud, extra_claims)
                    && #[trigger] Generator::token_outcome(old(self), final(self), c, result_text(res)),
    {
        let claims = self.claims_builder.build(aud, extra_claims);
        let res = self.token_for(&claims);
        assert(built_claims(claims, old(self).issuer(), old(self).lifespan_of(), aud, extra_claims));
        res
    }

    /// A pre-formatted `Authorization` header for `aud` with the given extra
    /// claims: `"Bearer "` followed by a token (see `token`).
    pub fn auth_header(&mut self, aud: Aud, extra_claims: Option<ExtraClaims>) -> (res: Result<String, AsapError>)
        ensures
            exists|c: Claims, r: Result<Seq<char>, AsapError>|
                built_claims(c, old(self).issuer(), old(self).lifespan_of(), aud, extra_claims)
                    && #[trigger] Generator::token_outcome(old(self), final(self), c, r) && result_text(res)
                    == bearer(r),
    {
        let res = self.token(aud, extra_claims);
        let ghost r = result_text(res);
        match res {
            Ok(t) => {
                let header = concat("Bearer ", t.as_str());
                proof {
                    reveal_strlit("Bearer ");
                    assert(header@ =~= seq!['B', 'e', 'a', 'r', 'e', 'r', ' '] + t@);
                }
                Ok(header)
            },
            Err(e) => Err(e),
        }
    }

    /// Checks claims before they are signed: the key id must start with
    /// `"$iss/"` (`InvalidKID` with the key id and the issuer otherwise),
    /// and the lifespan (`exp` minus `iat`) must not exceed the hard limit of
    /// one hour (`InvalidLifespan` otherwise).
    pub fn validate_claims(&self, claims: &Claims) -> (res: Result<(), ValidatorError>)
        ensures
            !(claims.iss@ + seq!['/']).is_prefix_of(self.key_id()) ==> (res matches Err(
                ValidatorError::InvalidKID(k, i),
            ) && k@ == self.key_id() && i@ == claims.iss@),
            (claims.iss@ + seq!['/']).is_prefix_of(self.key_id()) && claims.exp - claims.iat > 3600 ==> res
                == Err::<(), ValidatorError>(ValidatorError::InvalidLifespan),
            (claims.iss@ + seq!['/']).is_prefix_of(self.key_id()) && claims.exp - claims.iat <= 3600 ==> res
                is Ok,
    {
        let prefix = concat(claims.iss.as_str(), "/");
        proof {
            reveal_strlit("/");
            assert(prefix@ =~= claims.iss@ + seq!['/']);
        }
        if !str_starts_with(self.kid.as_str(), prefix.as_str()) {
            return Err(ValidatorError::InvalidKID(self.kid.clone(), claims.iss.clone()));
        }
        if (claims.exp as i128) - (claims.iat as i128) > 3600 {
            return Err(ValidatorError::InvalidLifespan);
        }
        Ok(())
    }
}

/// Storing the same entry in a map and in a part of it keeps the part a part.
proof fn lemma_submap_insert(
    small: Map<Seq<char>, Seq<char>>,
    big: Map<Seq<char>, Seq<char>>,
    k: Seq<char>,
    v: Seq<char>,
)
    requires
        small.submap_of(big),
    ensures
        small.insert(k, v).submap_of(big.insert(k, v)),
{
    assert forall|j: Seq<char>| #[trigger] small.insert(k, v).dom().contains(j) implies big.insert(k, v).dom().contains(
        j,
    ) && small.insert(k, v)[j] == big.insert(k, v)[j] by {
        if j != k {
            assert(small.dom().contains(j));
            assert(big.dom().contains(j));
        }
    }
}

/// A part of a finite map is finite and no larger.
proof fn lemma_submap_len(small: Map<Seq<char>, Seq<char>>, big: Map<Seq<char>, Seq<char>>)
    requires
        small.submap_of(big),
        big.dom().finite(),
    ensures
        small.dom().finite(),
        small.len() <= big.len(),
{
    vstd::set_lib::lemma_len_subset(small.dom(), big.dom());
}

/// Signs `claims` with RS256 under the key id `kid` with `private_key`: the
/// token, or the signing error.
pub fn generate_token(kid: &str, claims: &Claims, private_key: &[u8]) -> (res: Result<String, AsapError>)
    ensures
        signing_outcome(result_text(res), jwt_signed(kid@, claims.json(), private_key@)),
{
    let json = claims.to_json();
    match encode_rs256(kid, json.as_str(), private_key) {
        Ok(token) => Ok(token),
        Err(e) => Err(AsapError::Jwt(e)),
    }
}

} // verus!
