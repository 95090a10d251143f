//! The validator's memory: the `jti` nonces it has seen and the public keys
//! it has fetched.

use vstd::prelude::*;
use crate::jwt::{KeyKind, PublicKey};
use crate::validator::{duration_as_nanos, duration_nanos};

verus! {

/// Declares `std::time::SystemTime` to Verus.
#[verifier::external_type_specification]
#[verifier::external_body]
pub struct ExSystemTime(std::time::SystemTime);

/// The current system time.
///
/// Trusted: calls `std::time::SystemTime::now`. Nothing is stated of the
/// value, which depends on the clock.
#[verifier::external_body]
pub fn system_time_now() -> std::time::SystemTime {
    std::time::SystemTime::now()
}

/// The time elapsed since `when`; `None` when the clock reads earlier than
/// `when`.
///
/// Trusted: calls `SystemTime::elapsed`, keeping the duration and dropping
/// the error. Nothing is stated of the value, which depends on the clock.
#[verifier::external_body]
fn time_since(when: &std::time::SystemTime) -> Option<std::time::Duration> {
    when.elapsed().ok()
}

/// Whether `e` is something the clock can report as the time elapsed since
/// an instant: `None` (the clock reads earlier), or the length in
/// nanoseconds of some duration.
pub open spec fn elapsed_reading(e: Option<u128>) -> bool {
    e matches Some(n) ==> exists|d: std::time::Duration| n == #[trigger] duration_nanos(d)
}

/// The time elapsed since `when`, in nanoseconds; `None` when the clock
/// reads earlier than `when`. How long that is depends on the clock; what
/// comes back is the length in nanoseconds of the duration the clock gave.
pub fn elapsed_nanos(when: &std::time::SystemTime) -> (res: Option<u128>)
    ensures
        res matches Some(n) ==> exists|d: std::time::Duration| n == #[trigger] duration_nanos(d),
        elapsed_reading(res),
{
    match time_since(when) {
        Some(d) => Some(duration_as_nanos(&d)),
        None => None,
    }
}

/// The names of a list of strings.
pub open spec fn names(v: Seq<String>) -> Seq<Seq<char>> {
    v.map_values(|s: String| s@)
}

/// The `jti` nonces a validator has seen.
pub struct SeenNonces {
    nonces: Vec<String>,
}

impl SeenNonces {
    /// The nonces seen so far.
    pub closed spec fn view(&self) -> Set<Seq<char>> {
        Set::new(|s: Seq<char>| names(self.nonces@).contains(s))
    }

    /// No nonce seen.
    pub fn new() -> (res: SeenNonces)
        ensures
            res.view() == Set::<Seq<char>>::empty(),
    {
        let res = SeenNonces { nonces: Vec::new() };
        assert(res.view() =~= Set::<Seq<char>>::empty());
        res
    }

    /// Whether `jti` has been seen.
    pub fn contains(&self, jti: &str) -> (res: bool)
        ensures
            res == self.view().contains(jti@),
    {
        let mut i: usize = 0;
        while i < self.nonces.len()
            invariant
                i <= self.nonces@.len(),
                forall|j: int| 0 <= j < i ==> #[trigger] self.nonces@[j]@ != jti@,
            decreases self.nonces@.len() - i,
        {
            if crate::text::str_equal(self.nonces[i].as_str(), jti) {
                assert(names(self.nonces@)[i as int] == jti@);
                return true;
            }
            i = i + 1;
        }
        assert(!names(self.nonces@).contains(jti@)) by {
            if names(self.nonces@).contains(jti@) {
                let j = choose|j: int| 0 <= j < names(self.nonces@).len() && names(self.nonces@)[j] == jti@;
                assert(self.nonces@[j]@ == jti@);
            }
        }
        false
    }

    /// Records `jti` as seen.
    pub fn insert(&mut self, jti: String)
        ensures
            final(self).view() == old(self).view().insert(jti@),
    {
        let ghost before = names(self.nonces@);
        self.nonces.push(jti);
        assert(names(self.nonces@) =~= before.push(jti@));
        let ghost after = names(self.nonces@);
        assert forall|s: Seq<char>| #[trigger] self.view().contains(s) == old(self).view().insert(jti@).contains(s) by {
            if s == jti@ {
                assert(after[before.len() as int] == s);
            } else {
                if after.contains(s) {
                    let j = choose|j: int| 0 <= j < after.len() && after[j] == s;
                    assert(j < before.len());
                    assert(before[j] == s);
                }
                if before.contains(s) {
                    let j = choose|j: int| 0 <= j < before.len() && before[j] == s;
                    assert(after[j] == s);
                }
            }
        }
        assert(self.view() =~= old(self).view().insert(jti@));
    }
}

/// A cached key: when it was stored, and the key.
pub type CacheEntry = (std::time::SystemTime, (KeyKind, Seq<u8>, Seq<u8>));

/// The entry the first element named `kid` holds.
pub open spec fn cache_lookup(entries: Seq<(String, std::time::SystemTime, PublicKey)>, kid: Seq<char>) -> Option<
    CacheEntry,
>
    decreases entries.len(),
{
    if entries.len() == 0 {
        None
    } else if entries[0].0@ == kid {
        Some((entries[0].1, entries[0].2@))
    } else {
        cache_lookup(entries.drop_first(), kid)
    }
}

/// The public keys a validator has fetched, by key id.
pub struct KeyCache {
    entries: Vec<(String, std::time::SystemTime, PublicKey)>,
}

impl KeyCache {
    /// The entry cached under `kid`.
    pub closed spec fn get_spec(&self, kid: Seq<char>) -> Option<CacheEntry> {
        cache_lookup(self.entries@, kid)
    }

    /// An empty cache.
    pub fn new() -> (res: KeyCache)
        ensures
            forall|k: Seq<char>| #[trigger] res.get_spec(k) is None,
    {
        KeyCache { entries: Vec::new() }
    }

    /// The entry cached under `kid`, if any.
    pub fn get(&self, kid: &str) -> (res: Option<(&std::time::SystemTime, &PublicKey)>)
        ensures
            match res {
                Some((when, key)) => self.get_spec(kid@) == Some((*when, key@)),
                None => self.get_spec(kid@) is None,
            },
    {
        let mut i: usize = 0;
        assert(self.entries@.skip(0) =~= self.entries@);
        while i < self.entries.len()
            invariant
                i <= self.entries@.len(),
                cache_lookup(self.entries@, kid@) == cache_lookup(self.entries@.skip(i as int), kid@),
            decreases self.entries@.len() - i,
        {
            assert(self.entries@.skip(i as int).drop_first() =~= self.entries@.skip(i + 1));
            if crate::text::str_equal(self.entries[i].0.as_str(), kid) {
                return Some((&self.entries[i].1, &self.entries[i].2));
            }
            i = i + 1;
        }
        None
    }

    /// Forgets the entry cached under `kid`.
    pub fn remove(&mut self, kid: &str)
        ensures
            final(self).get_spec(kid@) is None,
            forall|k: Seq<char>| k != kid@ ==> #[trigger] final(self).get_spec(k) == old(self).get_spec(k),
    {
        let mut i: usize = 0;
        while i < self.entries.len()
            invariant
                i <= self.entries@.len(),
                forall|k: Seq<char>| k != kid@ ==> #[trigger] cache_lookup(self.entries@, k) == cache_lookup(
                    old(self).entries@,
                    k,
                ),
                forall|j: int| 0 <= j < i ==> #[trigger] self.entries@[j].0@ != kid@,
            decreases self.entries@.len() - i,
        {
            if crate::text::str_equal(self.entries[i].0.as_str(), kid) {
                let ghost before = self.entries@;
                proof {
                    lemma_cache_remove(before, i as int, kid@);
                }
                let _ = self.entries.remove(i);
                assert forall|j: int| 0 <= j < i implies #[trigger] self.entries@[j].0@ != kid@ by {
                    assert(self.entries@[j] == before[j]);
                }
            } else {
                i = i + 1;
            }
        }
        proof {
            lemma_cache_absent(self.entries@, kid@);
        }
    }

    /// Stores `key` under `kid`, stamped `when`, unless a key is cached under
    /// `kid` already.
    pub fn insert_if_absent(&mut self, kid: String, when: std::time::SystemTime, key: PublicKey)
        ensures
            old(self).get_spec(kid@) is None ==> final(self).get_spec(kid@) == Some((when, key@)),
            old(self).get_spec(kid@) is Some ==> final(self).get_spec(kid@) == old(self).get_spec(kid@),
            forall|k: Seq<char>| k != kid@ ==> #[trigger] final(self).get_spec(k) == old(self).get_spec(k),
    {
        if self.get(kid.as_str()).is_none() {
            let ghost before = self.entries@;
            proof {
                lemma_cache_push(before, (kid, when, key));
            }
            self.entries.push((kid, when, key));
        }
    }
}

/// No entry is named `kid`, so a lookup finds nothing.
proof fn lemma_cache_absent(entries: Seq<(String, std::time::SystemTime, PublicKey)>, kid: Seq<char>)
    requires
        forall|j: int| 0 <= j < entries.len() ==> #[trigger] entries[j].0@ != kid,
    ensures
        cache_lookup(entries, kid) is None,
    decreases entries.len(),
{
    if entries.len() > 0 {
        assert(entries[0].0@ != kid);
        assert forall|j: int| 0 <= j < entries.drop_first().len() implies #[trigger] entries.drop_first()[j].0@
            != kid by {
            assert(entries.drop_first()[j] == entries[j + 1]);
        }
        lemma_cache_absent(entries.drop_first(), kid);
    }
}

/// Removing an element named `kid` leaves the lookups of other names unchanged.
proof fn lemma_cache_remove(entries: Seq<(String, std::time::SystemTime, PublicKey)>, i: int, kid: Seq<char>)
    requires
        0 <= i < entries.len(),
        entries[i].0@ == kid,
    ensures
        forall|k: Seq<char>| k != kid ==> #[trigger] cache_lookup(entries.remove(i), k) == cache_lookup(entries, k),
    decreases entries.len(),
{
    if i == 0 {
        assert(entries.remove(0) =~= entries.drop_first());
        assert forall|k: Seq<char>| k != kid implies #[trigger] cache_lookup(entries.remove(i), k) == cache_lookup(
            entries,
            k,
        ) by {
            assert(entries[0].0@ != k);
        }
    } else {
        lemma_cache_remove(entries.drop_first(), i - 1, kid);
        assert(entries.remove(i).drop_first() =~= entries.drop_first().remove(i - 1));
        assert forall|k: Seq<char>| k != kid implies #[trigger] cache_lookup(entries.remove(i), k) == cache_lookup(
            entries,
            k,
        ) by {
            assert(entries.remove(i)[0] == entries[0]);
            assert(cache_lookup(entries.drop_first().remove(i - 1), k) == cache_lookup(entries.drop_first(), k));
        }
    }
}

/// Appending an entry leaves the lookups of other names unchanged and makes a
/// new name find the appended entry.
proof fn lemma_cache_push(
    entries: Seq<(String, std::time::SystemTime, PublicKey)>,
    e: (String, std::time::SystemTime, PublicKey),
)
    ensures
        forall|k: Seq<char>| k != e.0@ ==> #[trigger] cache_lookup(entries.push(e), k) == cache_lookup(entries, k),
        cache_lookup(entries, e.0@) is None ==> cache_lookup(entries.push(e), e.0@) == Some((e.1, e.2@)),
    decreases entries.len(),
{
    if entries.len() == 0 {
        assert(entries.push(e).drop_first() =~= Seq::<(String, std::time::SystemTime, PublicKey)>::empty());
        assert forall|k: Seq<char>| k != e.0@ implies #[trigger] cache_lookup(entries.push(e), k) == cache_lookup(
            entries,
            k,
        ) by {
            assert(entries.push(e)[0] == e);
            assert(cache_lookup(entries.push(e).drop_first(), k) is None);
        }
        assert(entries.push(e)[0] == e);
    } else {
        assert(entries.push(e).drop_first() =~= entries.drop_first().push(e));
        lemma_cache_push(entries.drop_first(), e);
        assert forall|k: Seq<char>| k != e.0@ implies #[trigger] cache_lookup(entries.push(e), k) == cache_lookup(
            entries,
            k,
        ) by {
            assert(entries.push(e)[0] == entries[0]);
            assert(cache_lookup(entries.drop_first().push(e), k) == cache_lookup(entries.drop_first(), k));
        }
        assert(entries.push(e)[0] == entries[0]);
    }
}

} // verus!
