//! The JSON values that a token's claims may hold, and the JSON text the
//! library writes for them.

use vstd::prelude::*;

verus! {

/// A JSON value held in a claim.
///
/// Numbers keep the three forms that a JSON reader gives them: a
/// non-negative integer, a negative integer, or any other number, which is
/// kept as its JSON text.
#[derive(Debug)]
pub enum ClaimValue {
    Null,
    Bool(bool),
    PosInt(u64),
    NegInt(i64),
    Float(String),
    Str(String),
    Array(Vec<ClaimValue>),
    Object(ClaimMap),
}

/// A JSON object: named claim values, in the order they are written.
///
/// Looking a name up finds its first entry. A map built by `new` and
/// `insert` names each key once and keeps its entries in the order of their
/// names (`wf`), as `serde_json` keeps the members of an object.
#[derive(Debug)]
pub struct ClaimMap {
    pub entries: Vec<(String, ClaimValue)>,
}

/// The value of the first entry named `key`, if any.
pub open spec fn lookup(entries: Seq<(String, ClaimValue)>, key: Seq<char>) -> Option<ClaimValue>
    decreases entries.len(),
{
    if entries.len() == 0 {
        None
    } else if entries[0].0@ == key {
        Some(entries[0].1)
    } else {
        lookup(entries.drop_first(), key)
    }
}

/// The names of the entries, in order.
pub open spec fn entry_names(entries: Seq<(String, ClaimValue)>) -> Seq<Seq<char>> {
    entries.map_values(|e: (String, ClaimValue)| e.0@)
}

/// Whether the name `a` comes before `b` in the order of their characters'
/// code points (the order of `String`, and of the keys of a JSON object as
/// `serde_json` keeps them).
pub open spec fn name_less(a: Seq<char>, b: Seq<char>) -> bool
    decreases a.len(),
{
    if a.len() == 0 {
        b.len() > 0
    } else if b.len() == 0 {
        false
    } else if a[0] != b[0] {
        (a[0] as int) < (b[0] as int)
    } else {
        name_less(a.drop_first(), b.drop_first())
    }
}

/// Whether the entries' names come in strictly increasing order (so each
/// name occurs once).
pub open spec fn names_ascending(entries: Seq<(String, ClaimValue)>) -> bool {
    forall|i: int, j: int|
        0 <= i < j < entries.len() ==> name_less(#[trigger] entries[i].0@, #[trigger] entries[j].0@)
}

/// No name comes before itself.
pub proof fn lemma_name_less_irreflexive(a: Seq<char>)
    ensures
        !name_less(a, a),
    decreases a.len(),
{
    if a.len() > 0 {
        lemma_name_less_irreflexive(a.drop_first());
    }
}

/// Of two different names, one comes before the other, and not both ways.
pub proof fn lemma_name_less_total(a: Seq<char>, b: Seq<char>)
    ensures
        a != b ==> name_less(a, b) || name_less(b, a),
        !(name_less(a, b) && name_less(b, a)),
    decreases a.len(),
{
    if a.len() > 0 && b.len() > 0 && a[0] == b[0] {
        lemma_name_less_total(a.drop_first(), b.drop_first());
        if a.drop_first() == b.drop_first() {
            assert(a =~= seq![a[0]] + a.drop_first());
            assert(b =~= seq![b[0]] + b.drop_first());
        }
    } else if a.len() == 0 && b.len() == 0 {
        assert(a =~= b);
    }
}

/// The order is transitive.
pub proof fn lemma_name_less_transitive(a: Seq<char>, b: Seq<char>, c: Seq<char>)
    requires
        name_less(a, b),
        name_less(b, c),
    ensures
        name_less(a, c),
    decreases a.len(),
{
    if a.len() > 0 && b.len() > 0 && c.len() > 0 && a[0] == b[0] && b[0] == c[0] {
        lemma_name_less_transitive(a.drop_first(), b.drop_first(), c.drop_first());
    }
}

/// In entries with ascending names, an entry is what its name looks up.
proof fn lemma_lookup_ascending(entries: Seq<(String, ClaimValue)>, i: int)
    requires
        names_ascending(entries),
        0 <= i < entries.len(),
    ensures
        lookup(entries, entries[i].0@) == Some(entries[i].1),
{
    assert forall|j: int| 0 <= j < i implies #[trigger] entries[j].0@ != entries[i].0@ by {
        assert(name_less(entries[j].0@, entries[i].0@));
        lemma_name_less_irreflexive(entries[i].0@);
    }
    lemma_lookup_set(entries, i, entries[i].1, entries[i].0@);
}

/// A name that looks something up is the name of an entry.
proof fn lemma_lookup_found(entries: Seq<(String, ClaimValue)>, key: Seq<char>)
    requires
        lookup(entries, key) is Some,
    ensures
        exists|i: int| 0 <= i < entries.len() && #[trigger] entries[i].0@ == key,
    decreases entries.len(),
{
    if entries[0].0@ != key {
        lemma_lookup_found(entries.drop_first(), key);
        let i = choose|i: int| 0 <= i < entries.drop_first().len() && #[trigger] entries.drop_first()[i].0@ == key;
        assert(entries[i + 1] == entries.drop_first()[i]);
    } else {
        assert(entries[0].0@ == key);
    }
}

/// Dropping the last of entries with ascending names forgets its name only.
proof fn lemma_lookup_drop_last(entries: Seq<(String, ClaimValue)>, key: Seq<char>)
    requires
        names_ascending(entries),
        entries.len() > 0,
    ensures
        lookup(entries.drop_last(), key) == if key == entries.last().0@ {
            None
        } else {
            lookup(entries, key)
        },
{
    let rest = entries.drop_last();
    assert(entries =~= rest.push(entries.last()));
    lemma_lookup_push(rest, entries.last());
    if key == entries.last().0@ {
        assert forall|j: int| 0 <= j < rest.len() implies #[trigger] rest[j].0@ != key by {
            assert(name_less(entries[j].0@, entries[entries.len() - 1].0@));
            lemma_name_less_irreflexive(key);
        }
        lemma_lookup_absent(rest, key);
    }
}

/// Entries with ascending names that look every name up alike are written
/// alike: the members of a JSON object depend on its contents only, not on
/// the order in which they were inserted.
pub proof fn lemma_same_contents_same_members(e1: Seq<(String, ClaimValue)>, e2: Seq<(String, ClaimValue)>)
    requires
        names_ascending(e1),
        names_ascending(e2),
        forall|k: Seq<char>| #[trigger] lookup(e1, k) == lookup(e2, k),
    ensures
        e1.len() == e2.len(),
        json_members(e1) == json_members(e2),
    decreases e1.len(),
{
    if e1.len() == 0 && e2.len() > 0 {
        lemma_lookup_ascending(e2, 0);
        assert(lookup(e1, e2[0].0@) == lookup(e2, e2[0].0@));
    } else if e1.len() > 0 && e2.len() == 0 {
        lemma_lookup_ascending(e1, 0);
        assert(lookup(e1, e1[0].0@) == lookup(e2, e1[0].0@));
    } else if e1.len() > 0 {
        let n1 = e1.len() - 1;
        let n2 = e2.len() - 1;
        let a = e1[n1].0@;
        let b = e2[n2].0@;
        lemma_lookup_ascending(e1, n1);
        lemma_lookup_ascending(e2, n2);
        assert(lookup(e1, a) == lookup(e2, a));
        assert(lookup(e1, b) == lookup(e2, b));
        lemma_lookup_found(e2, a);
        lemma_lookup_found(e1, b);
        let j = choose|j: int| 0 <= j < e2.len() && #[trigger] e2[j].0@ == a;
        let i = choose|i: int| 0 <= i < e1.len() && #[trigger] e1[i].0@ == b;
        lemma_name_less_total(a, b);
        if a != b {
            if j < n2 {
                assert(name_less(e2[j].0@, e2[n2].0@));
            }
            if i < n1 {
                assert(name_less(e1[i].0@, e1[n1].0@));
            }
        }
        assert(a == b);
        let r1 = e1.drop_last();
        let r2 = e2.drop_last();
        assert forall|k: Seq<char>| #[trigger] lookup(r1, k) == lookup(r2, k) by {
            lemma_lookup_drop_last(e1, k);
            lemma_lookup_drop_last(e2, k);
            assert(lookup(e1, k) == lookup(e2, k));
        }
        assert(names_ascending(r1)) by {
            assert forall|x: int, y: int| 0 <= x < y < r1.len() implies name_less(
                #[trigger] r1[x].0@,
                #[trigger] r1[y].0@,
            ) by {
                assert(r1[x] == e1[x] && r1[y] == e1[y]);
            }
        }
        assert(names_ascending(r2)) by {
            assert forall|x: int, y: int| 0 <= x < y < r2.len() implies name_less(
                #[trigger] r2[x].0@,
                #[trigger] r2[y].0@,
            ) by {
                assert(r2[x] == e2[x] && r2[y] == e2[y]);
            }
        }
        lemma_same_contents_same_members(r1, r2);
        assert(e1[n1].1 == e2[n2].1);
        assert(e1.last() == e1[n1] && e2.last() == e2[n2]);
    }
}

impl ClaimMap {
    /// The entries of the map, in the order they are written.
    pub open spec fn entries(self) -> Seq<(String, ClaimValue)> {
        self.entries@
    }

    /// The map names each key once, its entries in the order of their
    /// names.
    pub open spec fn wf(self) -> bool {
        names_ascending(self.entries())
    }

    /// The value named `key`.
    pub open spec fn get_spec(self, key: Seq<char>) -> Option<ClaimValue> {
        lookup(self.entries(), key)
    }

    /// An empty map.
    pub fn new() -> (res: ClaimMap)
        ensures
            res.entries() == Seq::<(String, ClaimValue)>::empty(),
            res.wf(),
    {
        ClaimMap { entries: Vec::new() }
    }

    /// The number of entries.
    pub fn len(&self) -> (res: usize)
        ensures
            res == self.entries().len(),
    {
        self.entries.len()
    }

    /// Whether the map has no entries.
    pub fn is_empty(&self) -> (res: bool)
        ensures
            res == (self.entries().len() == 0),
    {
        self.entries.len() == 0
    }

    /// The entry at `index`.
    pub fn entry(&self, index: usize) -> (res: &(String, ClaimValue))
        requires
            index < self.entries().len(),
        ensures
            *res == self.entries()[index as int],
    {
        &self.entries[index]
    }

    /// The value named `key`, if any.
    pub fn get(&self, key: &str) -> (res: Option<&ClaimValue>)
        ensures
            match res {
                Some(v) => self.get_spec(key@) == Some(*v),
                None => self.get_spec(key@) is None,
            },
    {
        let mut i: usize = 0;
        assert(self.entries@.skip(0) =~= self.entries@);
        while i < self.entries.len()
            invariant
                i <= self.entries@.len(),
                lookup(self.entries@, key@) == lookup(self.entries@.skip(i as int), key@),
            decreases self.entries@.len() - i,
        {
            let ghost rest = self.entries@.skip(i as int);
            assert(rest.drop_first() =~= self.entries@.skip(i + 1));
            if crate::text::str_equal(self.entries[i].0.as_str(), key) {
                return Some(&self.entries[i].1);
            }
            i = i + 1;
        }
        None
    }

    /// Sets the value named `key`: an existing entry takes the new value, a
    /// new name is added at its place in the order of names (so a map built
    /// by `new` and `insert` keeps its entries ordered by name, as
    /// `serde_json` keeps the members of an object).
    pub fn insert(&mut self, key: String, value: ClaimValue)
        ensures
            final(self).get_spec(key@) == Some(value),
            forall|k: Seq<char>| k != key@ ==> #[trigger] final(self).get_spec(k) == old(self).get_spec(k),
            old(self).wf() ==> final(self).wf(),
    {
        let mut i: usize = 0;
        while i < self.entries.len()
            invariant
                i <= self.entries@.len(),
                self.entries@ == old(self).entries@,
                forall|j: int| 0 <= j < i ==> #[trigger] self.entries@[j].0@ != key@,
                old(self).wf() ==> forall|j: int| 0 <= j < i ==> name_less(#[trigger] self.entries@[j].0@, key@),
            ensures
                i <= self.entries@.len(),
                self.entries@ == old(self).entries@,
                forall|j: int| 0 <= j < i ==> #[trigger] self.entries@[j].0@ != key@,
                old(self).wf() ==> forall|j: int| 0 <= j < i ==> name_less(#[trigger] self.entries@[j].0@, key@),
                i < self.entries@.len() ==> name_less(key@, self.entries@[i as int].0@),
            decreases self.entries@.len() - i,
        {
            if crate::text::str_equal(self.entries[i].0.as_str(), key.as_str()) {
                let ghost before = self.entries@;
                let name = self.entries[i].0.clone();
                self.entries.set(i, (name, value));
                proof {
                    lemma_lookup_set(before, i as int, value, key@);
                    assert forall|x: int, y: int| 0 <= x < y < self.entries@.len() implies (#[trigger] self.entries@[x]).0@
                        == before[x].0@ && (#[trigger] self.entries@[y]).0@ == before[y].0@ by {}
                }
                return;
            }
            if name_before(key.as_str(), self.entries[i].0.as_str()) {
                break;
            }
            proof {
                lemma_name_less_total(self.entries@[i as int].0@, key@);
            }
            i = i + 1;
        }
        let ghost before = self.entries@;
        proof {
            lemma_lookup_insert(before, i as int, (key, value));
        }
        self.entries.insert(i, (key, value));
        proof {
            assert(self.entries@ =~= before.insert(i as int, (key, value)));
            if old(self).wf() {
                assert forall|x: int, y: int| 0 <= x < y < self.entries@.len() implies name_less(
                    #[trigger] self.entries@[x].0@,
                    #[trigger] self.entries@[y].0@,
                ) by {
                    let e = self.entries@;
                    if y < i {
                        assert(e[x] == before[x] && e[y] == before[y]);
                    } else if y == i {
                        assert(e[x] == before[x]);
                    } else if x == i {
                        assert(e[y] == before[y - 1]);
                        if y - 1 > i {
                            assert(name_less(before[i as int].0@, before[y - 1].0@));
                            lemma_name_less_transitive(key@, before[i as int].0@, before[y - 1].0@);
                        }
                    } else if x < i {
                        assert(e[x] == before[x] && e[y] == before[y - 1]);
                    } else {
                        assert(e[x] == before[x - 1] && e[y] == before[y - 1]);
                    }
                }
            }
        }
    }
}

/// Whether the name `a` comes before `b` (see `name_less`).
pub fn name_before(a: &str, b: &str) -> (res: bool)
    ensures
        res == name_less(a@, b@),
{
    let ac = crate::text::chars_of(a);
    let bc = crate::text::chars_of(b);
    let mut i: usize = 0;
    assert(ac@.skip(0) =~= ac@ && bc@.skip(0) =~= bc@);
    while i < ac.len() && i < bc.len() && ac[i] == bc[i]
        invariant
            i <= ac@.len(),
            i <= bc@.len(),
            ac@ == a@,
            bc@ == b@,
            name_less(ac@.skip(i as int), bc@.skip(i as int)) == name_less(a@, b@),
        decreases ac@.len() - i,
    {
        assert(ac@.skip(i as int).drop_first() =~= ac@.skip(i + 1));
        assert(bc@.skip(i as int).drop_first() =~= bc@.skip(i + 1));
        i = i + 1;
    }
    let ghost ra = ac@.skip(i as int);
    let ghost rb = bc@.skip(i as int);
    assert(ra.len() == ac@.len() - i && rb.len() == bc@.len() - i);
    if i == ac.len() {
        assert(ra.len() == 0);
        assert(name_less(ra, rb) == (rb.len() > 0));
        i < bc.len()
    } else if i == bc.len() {
        assert(!name_less(ra, rb));
        false
    } else {
        assert(ra[0] == ac@[i as int] && rb[0] == bc@[i as int]);
        assert(ra[0] != rb[0]);
        let less = ac[i] < bc[i];
        assert(less == ((ra[0] as int) < (rb[0] as int)));
        less
    }
}

/// Putting an entry at a place no earlier entry shares its name makes its
/// name find it, and leaves the other names' lookups as they were.
proof fn lemma_lookup_insert(entries: Seq<(String, ClaimValue)>, i: int, e: (String, ClaimValue))
    requires
        0 <= i <= entries.len(),
        forall|j: int| 0 <= j < i ==> #[trigger] entries[j].0@ != e.0@,
    ensures
        lookup(entries.insert(i, e), e.0@) == Some(e.1),
        forall|k: Seq<char>| k != e.0@ ==> #[trigger] lookup(entries.insert(i, e), k) == lookup(entries, k),
    decreases i,
{
    let ins = entries.insert(i, e);
    if i == 0 {
        assert(ins.drop_first() =~= entries);
        assert(ins[0] == e);
        assert forall|k: Seq<char>| k != e.0@ implies #[trigger] lookup(ins, k) == lookup(entries, k) by {
            assert(ins[0].0@ != k);
        }
    } else {
        assert(ins.drop_first() =~= entries.drop_first().insert(i - 1, e));
        assert forall|j: int| 0 <= j < i - 1 implies #[trigger] entries.drop_first()[j].0@ != e.0@ by {
            assert(entries.drop_first()[j] == entries[j + 1]);
        }
        lemma_lookup_insert(entries.drop_first(), i - 1, e);
        assert(ins[0] == entries[0]);
        assert(entries[0].0@ != e.0@);
        assert forall|k: Seq<char>| k != e.0@ implies #[trigger] lookup(ins, k) == lookup(entries, k) by {
            if entries[0].0@ != k {
                assert(lookup(ins.drop_first(), k) == lookup(entries.drop_first(), k));
            }
        }
    }
}

/// A lookup finds nothing when no entry has the name.
proof fn lemma_lookup_absent(entries: Seq<(String, ClaimValue)>, key: Seq<char>)
    requires
        forall|j: int| 0 <= j < entries.len() ==> #[trigger] entries[j].0@ != key,
    ensures
        lookup(entries, key) is None,
    decreases entries.len(),
{
    if entries.len() > 0 {
        assert(entries[0].0@ != key);
        assert forall|j: int| 0 <= j < entries.drop_first().len() implies #[trigger] entries.drop_first()[j].0@ != key by {
            assert(entries.drop_first()[j] == entries[j + 1]);
        }
        lemma_lookup_absent(entries.drop_first(), key);
    }
}

/// Appending an entry leaves the lookups of the other names unchanged and
/// makes a new name find the appended value.
proof fn lemma_lookup_push(entries: Seq<(String, ClaimValue)>, e: (String, ClaimValue))
    ensures
        forall|k: Seq<char>| k != e.0@ ==> #[trigger] lookup(entries.push(e), k) == lookup(entries, k),
        lookup(entries, e.0@) is None ==> lookup(entries.push(e), e.0@) == Some(e.1),
    decreases entries.len(),
{
    if entries.len() == 0 {
        assert(entries.push(e).drop_first() =~= Seq::<(String, ClaimValue)>::empty());
        assert(entries.push(e)[0] == e);
        assert forall|k: Seq<char>| k != e.0@ implies #[trigger] lookup(entries.push(e), k) == lookup(entries, k) by {
            assert(entries.push(e)[0] == e);
            assert(lookup(entries.push(e).drop_first(), k) is None);
            assert(lookup(entries, k) is None);
        }
    } else {
        assert(entries.push(e).drop_first() =~= entries.drop_first().push(e));
        lemma_lookup_push(entries.drop_first(), e);
        assert forall|k: Seq<char>| k != e.0@ implies #[trigger] lookup(entries.push(e), k) == lookup(entries, k) by {
            assert(entries.push(e)[0] == entries[0]);
            assert(lookup(entries.drop_first().push(e), k) == lookup(entries.drop_first(), k));
        }
        assert(entries.push(e)[0] == entries[0]);
    }
}

/// Replacing the value of the first entry with a name changes the lookup of
/// that name only.
proof fn lemma_lookup_set(entries: Seq<(String, ClaimValue)>, i: int, v: ClaimValue, key: Seq<char>)
    requires
        0 <= i < entries.len(),
        entries[i].0@ == key,
        forall|j: int| 0 <= j < i ==> #[trigger] entries[j].0@ != key,
    ensures
        lookup(entries, key) == Some(entries[i].1),
        lookup(entries.update(i, (entries[i].0, v)), key) == Some(v),
        forall|k: Seq<char>| k != key ==> #[trigger] lookup(entries.update(i, (entries[i].0, v)), k) == lookup(entries, k),
        entry_names(entries.update(i, (entries[i].0, v))) == entry_names(entries),
    decreases entries.len(),
{
    let updated = entries.update(i, (entries[i].0, v));
    assert(entry_names(updated) =~= entry_names(entries));
    if i > 0 {
        assert(entries[0].0@ != key);
        assert(updated.drop_first() =~= entries.drop_first().update(i - 1, (entries[i].0, v)));
        assert forall|j: int| 0 <= j < i - 1 implies #[trigger] entries.drop_first()[j].0@ != key by {
            assert(entries.drop_first()[j] == entries[j + 1]);
        }
        lemma_lookup_set(entries.drop_first(), i - 1, v, key);
        assert(entries.drop_first()[i - 1] == entries[i]);
        assert forall|k: Seq<char>| k != key implies #[trigger] lookup(updated, k) == lookup(entries, k) by {
            assert(updated[0] == entries[0]);
            assert(lookup(entries.drop_first().update(i - 1, (entries[i].0, v)), k) == lookup(entries.drop_first(), k));
        }
        assert(updated[0] == entries[0]);
    } else {
        assert(updated.drop_first() =~= entries.drop_first());
        assert forall|k: Seq<char>| k != key implies #[trigger] lookup(updated, k) == lookup(entries, k) by {
            assert(updated[0].0 == entries[0].0);
        }
    }
}

/// The character of the decimal digit `d`.
pub open spec fn digit_char(d: int) -> char {
    (48 + d) as char
}

/// The lower-case hexadecimal digit `d`.
pub open spec fn hex_char(d: int) -> char {
    if d < 10 {
        (48 + d) as char
    } else {
        (87 + d) as char
    }
}

/// The decimal digits of `n`, without leading zeros.
pub open spec fn decimal(n: nat) -> Seq<char>
    decreases n,
{
    if n < 10 {
        seq![digit_char(n as int)]
    } else {
        decimal(n / 10).push(digit_char((n % 10) as int))
    }
}

/// Whether `c` is a decimal digit.
pub open spec fn is_digit(c: char) -> bool {
    48 <= (c as int) <= 57
}

/// The decimal digits of a number are digits, at least one, and at least
/// two from ten on.
proof fn lemma_decimal_digits(n: nat)
    ensures
        decimal(n).len() >= 1,
        n >= 10 ==> decimal(n).len() >= 2,
        forall|i: int| 0 <= i < decimal(n).len() ==> is_digit(#[trigger] decimal(n)[i]),
    decreases n,
{
    if n >= 10 {
        lemma_decimal_digits(n / 10);
        let d = decimal(n / 10);
        assert forall|i: int| 0 <= i < decimal(n).len() implies is_digit(#[trigger] decimal(n)[i]) by {
            if i < d.len() {
                assert(decimal(n)[i] == d[i]);
            }
        }
    }
}

/// Two numbers with the same decimal digits are equal.
proof fn lemma_decimal_injective(a: nat, b: nat)
    requires
        decimal(a) == decimal(b),
    ensures
        a == b,
    decreases a,
{
    lemma_decimal_digits(a);
    lemma_decimal_digits(b);
    if a >= 10 && b >= 10 {
        assert(decimal(a).drop_last() =~= decimal(a / 10));
        assert(decimal(b).drop_last() =~= decimal(b / 10));
        lemma_decimal_injective(a / 10, b / 10);
        assert(decimal(a).last() == digit_char((a % 10) as int));
        assert(decimal(b).last() == digit_char((b % 10) as int));
        assert((digit_char((a % 10) as int) as int) == 48 + a % 10);
        assert((digit_char((b % 10) as int) as int) == 48 + b % 10);
        assert(a % 10 == b % 10);
        assert(a == 10 * (a / 10) + a % 10);
        assert(b == 10 * (b / 10) + b % 10);
        assert(a / 10 == b / 10);
        assert(a == b);
    } else if a < 10 && b < 10 {
        assert(decimal(a)[0] == decimal(b)[0]);
        assert(decimal(a) == seq![digit_char(a as int)]);
        assert(decimal(b) == seq![digit_char(b as int)]);
        assert(seq![digit_char(a as int)][0] == digit_char(a as int));
        assert(seq![digit_char(b as int)][0] == digit_char(b as int));
        assert(digit_char(a as int) == digit_char(b as int));
        assert((digit_char(a as int) as int) == 48 + a);
        assert((digit_char(b as int) as int) == 48 + b);
        assert(a == b);
    } else if a < 10 {
        assert(decimal(a).len() == 1);
        assert(decimal(b).len() >= 2);
    } else {
        assert(decimal(b).len() == 1);
        assert(decimal(a).len() >= 2);
    }
}

/// The decimal digits of a number, followed by something other than a
/// digit, tell the number and what follows.
proof fn lemma_decimal_prefix(a: nat, b: nat, r1: Seq<char>, r2: Seq<char>)
    requires
        decimal(a) + r1 == decimal(b) + r2,
        r1.len() > 0 && !is_digit(r1[0]),
        r2.len() > 0 && !is_digit(r2[0]),
    ensures
        a == b,
        r1 == r2,
{
    lemma_decimal_digits(a);
    lemma_decimal_digits(b);
    let la = decimal(a).len();
    let lb = decimal(b).len();
    let t = decimal(a) + r1;
    if la < lb {
        assert(t[la as int] == r1[0]);
        assert(t[la as int] == decimal(b)[la as int]);
    } else if lb < la {
        assert(t[lb as int] == decimal(a)[lb as int]);
        assert((decimal(b) + r2)[lb as int] == r2[0]);
    }
    assert(decimal(a) =~= t.subrange(0, la as int));
    assert(decimal(b) =~= (decimal(b) + r2).subrange(0, lb as int));
    lemma_decimal_injective(a, b);
    assert(r1 =~= t.skip(la as int));
    assert(r2 =~= (decimal(b) + r2).skip(lb as int));
}

/// The JSON text of an integer, followed by something other than a digit,
/// tells the integer and what follows.
pub proof fn lemma_json_int_prefix(a: int, b: int, r1: Seq<char>, r2: Seq<char>)
    requires
        json_int(a) + r1 == json_int(b) + r2,
        r1.len() > 0 && !is_digit(r1[0]),
        r2.len() > 0 && !is_digit(r2[0]),
    ensures
        a == b,
        r1 == r2,
{
    let t = json_int(a) + r1;
    if a < 0 && b < 0 {
        assert(t.drop_first() =~= decimal((-a) as nat) + r1);
        assert((json_int(b) + r2).drop_first() =~= decimal((-b) as nat) + r2);
        lemma_decimal_prefix((-a) as nat, (-b) as nat, r1, r2);
    } else if a >= 0 && b >= 0 {
        lemma_decimal_prefix(a as nat, b as nat, r1, r2);
    } else if a < 0 {
        lemma_decimal_digits(b as nat);
        assert(t[0] == '-');
        assert((json_int(b) + r2)[0] == decimal(b as nat)[0]);
    } else {
        lemma_decimal_digits(a as nat);
        assert(t[0] == decimal(a as nat)[0]);
        assert((json_int(b) + r2)[0] == '-');
    }
}

/// The JSON text of an integer.
pub open spec fn json_int(n: int) -> Seq<char> {
    if n < 0 {
        seq!['-'] + decimal((-n) as nat)
    } else {
        decimal(n as nat)
    }
}

/// How one character is written inside a JSON string: quotes and
/// backslashes are escaped, control characters take their short escape or
/// a `\u00XX` escape, everything else is written as is.
pub open spec fn escape_char(c: char) -> Seq<char> {
    if c == '"' {
        seq!['\\', '"']
    } else if c == '\\' {
        seq!['\\', '\\']
    } else if c == '\n' {
        seq!['\\', 'n']
    } else if c == '\r' {
        seq!['\\', 'r']
    } else if c == '\t' {
        seq!['\\', 't']
    } else if (c as u32) == 8 {
        seq!['\\', 'b']
    } else if (c as u32) == 12 {
        seq!['\\', 'f']
    } else if (c as u32) < 32 {
        seq!['\\', 'u', '0', '0', hex_char((c as int) / 16), hex_char((c as int) % 16)]
    } else {
        seq![c]
    }
}

/// The value of a hexadecimal digit (either case), if `c` is one.
pub open spec fn hex_value(c: char) -> Option<int> {
    if 48 <= (c as int) <= 57 {
        Some((c as int) - 48)
    } else if 97 <= (c as int) <= 102 {
        Some((c as int) - 87)
    } else if 65 <= (c as int) <= 70 {
        Some((c as int) - 55)
    } else {
        None
    }
}

/// The character a JSON short escape `\e` stands for, if `e` names one.
pub open spec fn short_escape(e: char) -> Option<char> {
    if e == '"' {
        Some('"')
    } else if e == '\\' {
        Some('\\')
    } else if e == '/' {
        Some('/')
    } else if e == 'n' {
        Some('\n')
    } else if e == 'r' {
        Some('\r')
    } else if e == 't' {
        Some('\t')
    } else if e == 'b' {
        Some(8int as char)
    } else if e == 'f' {
        Some(12int as char)
    } else {
        None
    }
}

/// The code point of a `\uXXXX` escape at the start of `t`, if there is
/// one.
pub open spec fn unicode_escape(t: Seq<char>) -> Option<int> {
    if t.len() >= 6 && t[0] == '\\' && t[1] == 'u' && hex_value(t[2]) is Some && hex_value(t[3]) is Some
        && hex_value(t[4]) is Some && hex_value(t[5]) is Some {
        Some(
            4096 * hex_value(t[2])->0 + 256 * hex_value(t[3])->0 + 16 * hex_value(t[4])->0 + hex_value(t[5])->0,
        )
    } else {
        None
    }
}

/// Reads the inside of a JSON string, as any JSON reader does, up to its
/// closing quote: the characters it stands for, and the text after the
/// quote; `None` when the text is no JSON string (escapes of surrogate
/// halves are not read).
pub open spec fn read_string_body(t: Seq<char>) -> Option<(Seq<char>, Seq<char>)>
    decreases t.len(),
{
    if t.len() == 0 {
        None
    } else if t[0] == '"' {
        Some((Seq::empty(), t.drop_first()))
    } else if t[0] == '\\' {
        if t.len() >= 2 && short_escape(t[1]) is Some {
            match read_string_body(t.skip(2)) {
                Some((x, r)) => Some((seq![short_escape(t[1])->0] + x, r)),
                None => None,
            }
        } else if unicode_escape(t) is Some && !(0xD800 <= unicode_escape(t)->0 <= 0xDFFF) {
            match read_string_body(t.skip(6)) {
                Some((x, r)) => Some((seq![(unicode_escape(t)->0) as char] + x, r)),
                None => None,
            }
        } else {
            None
        }
    } else if (t[0] as int) < 32 {
        None
    } else {
        match read_string_body(t.drop_first()) {
            Some((x, r)) => Some((seq![t[0]] + x, r)),
            None => None,
        }
    }
}

/// Reads a JSON string at the start of `t`: the string it stands for and
/// the text after it.
pub open spec fn read_json_string(t: Seq<char>) -> Option<(Seq<char>, Seq<char>)> {
    if t.len() > 0 && t[0] == '"' {
        read_string_body(t.drop_first())
    } else {
        None
    }
}

/// The escapes of a string, read from its first character.
proof fn lemma_escape_chars_front(s: Seq<char>)
    requires
        s.len() > 0,
    ensures
        escape_chars(s) == escape_char(s[0]) + escape_chars(s.drop_first()),
    decreases s.len(),
{
    if s.len() == 1 {
        assert(s.drop_last() =~= Seq::<char>::empty());
        assert(s.drop_first() =~= Seq::<char>::empty());
        assert(escape_chars(s.drop_last()) =~= Seq::<char>::empty());
        assert(escape_chars(s.drop_first()) =~= Seq::<char>::empty());
        assert(s.last() == s[0]);
        assert(escape_chars(s) =~= escape_char(s[0]) + escape_chars(s.drop_first()));
    } else {
        lemma_escape_chars_front(s.drop_last());
        assert(s.drop_last().drop_first() =~= s.drop_first().drop_last());
        assert(s.drop_first().last() == s.last());
        assert(escape_chars(s) =~= escape_char(s[0]) + escape_chars(s.drop_first()));
    }
}

/// A hexadecimal digit written for a value reads back as that value.
proof fn lemma_hex_round_trip(d: int)
    requires
        0 <= d < 16,
    ensures
        hex_value(hex_char(d)) == Some(d),
{
}

/// The escape of one character reads back as that character.
proof fn lemma_read_escaped_char(c: char, tail: Seq<char>)
    ensures
        read_string_body(escape_char(c) + tail) == match read_string_body(tail) {
            Some((x, r)) => Some((seq![c] + x, r)),
            None => None::<(Seq<char>, Seq<char>)>,
        },
{
    let t = escape_char(c) + tail;
    if c == '"' || c == '\\' || c == '\n' || c == '\r' || c == '\t' || (c as u32) == 8 || (c as u32) == 12 {
        assert(t[0] == '\\');
        assert(t.skip(2) =~= tail);
        assert(short_escape(t[1]) == Some(c));
    } else if (c as u32) < 32 {
        let hi = (c as int) / 16;
        let lo = (c as int) % 16;
        lemma_hex_round_trip(hi);
        lemma_hex_round_trip(lo);
        assert(t[0] == '\\' && t[1] == 'u' && t[2] == '0' && t[3] == '0' && t[4] == hex_char(hi) && t[5]
            == hex_char(lo));
        assert(short_escape(t[1]) is None);
        assert(unicode_escape(t) == Some(c as int));
        assert(t.skip(6) =~= tail);
        assert(((c as int) as char) == c);
    } else {
        assert(t[0] == c);
        assert(t.drop_first() =~= tail);
    }
}

/// The escapes of a string followed by a quote read back as the string.
proof fn lemma_read_escaped_chars(s: Seq<char>, rest: Seq<char>)
    ensures
        read_string_body(escape_chars(s) + seq!['"'] + rest) == Some((s, rest)),
    decreases s.len(),
{
    if s.len() == 0 {
        assert(escape_chars(s) + seq!['"'] + rest =~= seq!['"'] + rest);
        assert((seq!['"'] + rest).drop_first() =~= rest);
    } else {
        lemma_escape_chars_front(s);
        lemma_read_escaped_chars(s.drop_first(), rest);
        let tail = escape_chars(s.drop_first()) + seq!['"'] + rest;
        lemma_read_escaped_char(s[0], tail);
        assert(escape_chars(s) + seq!['"'] + rest =~= escape_char(s[0]) + tail);
        assert(seq![s[0]] + s.drop_first() =~= s);
    }
}

/// The JSON text of a string reads back as that string, whatever text
/// follows it: every character is written so that a JSON reader gets it
/// back (so two strings are written alike only when they are equal).
pub proof fn lemma_json_string_reads_back(s: Seq<char>, rest: Seq<char>)
    ensures
        read_json_string(json_string(s) + rest) == Some((s, rest)),
{
    let t = json_string(s) + rest;
    assert(t[0] == '"');
    assert(t.drop_first() =~= escape_chars(s) + seq!['"'] + rest);
    lemma_read_escaped_chars(s, rest);
}

/// The escaped characters of a string.
pub open spec fn escape_chars(s: Seq<char>) -> Seq<char>
    decreases s.len(),
{
    if s.len() == 0 {
        Seq::empty()
    } else {
        escape_chars(s.drop_last()) + escape_char(s.last())
    }
}

/// The JSON text of a string.
pub open spec fn json_string(s: Seq<char>) -> Seq<char> {
    seq!['"'] + escape_chars(s) + seq!['"']
}

/// The JSON text of a value.
pub open spec fn json_value(v: ClaimValue) -> Seq<char>
    decreases v,
{
    match v {
        ClaimValue::Null => seq!['n', 'u', 'l', 'l'],
        ClaimValue::Bool(b) => if b {
            seq!['t', 'r', 'u', 'e']
        } else {
            seq!['f', 'a', 'l', 's', 'e']
        },
        ClaimValue::PosInt(n) => decimal(n as nat),
        ClaimValue::NegInt(n) => json_int(n as int),
        ClaimValue::Float(text) => text@,
        ClaimValue::Str(s) => json_string(s@),
        ClaimValue::Array(items) => seq!['['] + json_items(items@) + seq![']'],
        ClaimValue::Object(map) => seq!['{'] + json_members(map.entries@) + seq!['}'],
    }
}

/// The JSON text of the elements of an array, separated by commas.
pub open spec fn json_items(items: Seq<ClaimValue>) -> Seq<char>
    decreases items,
{
    if items.len() == 0 {
        Seq::empty()
    } else if items.len() == 1 {
        json_value(items[0])
    } else {
        json_items(items.drop_last()) + seq![','] + json_value(items.last())
    }
}

/// The JSON text of the members of an object, separated by commas.
pub open spec fn json_members(entries: Seq<(String, ClaimValue)>) -> Seq<char>
    decreases entries,
{
    if entries.len() == 0 {
        Seq::empty()
    } else if entries.len() == 1 {
        json_string(entries[0].0@) + seq![':'] + json_value(entries[0].1)
    } else {
        json_members(entries.drop_last()) + seq![','] + json_string(entries.last().0@) + seq![':']
            + json_value(entries.last().1)
    }
}

/// The character of the decimal digit `d`.
fn digit(d: u64) -> (c: char)
    requires
        d < 10,
    ensures
        c == digit_char(d as int),
{
    ((48 + d) as u8) as char
}

/// The character of the hexadecimal digit `d`.
fn hex_digit(d: u32) -> (c: char)
    requires
        d < 16,
    ensures
        c == hex_char(d as int),
{
    if d < 10 {
        ((48 + d) as u8) as char
    } else {
        ((87 + d) as u8) as char
    }
}

/// Appends the decimal digits of `n`.
pub fn write_decimal(n: u64, out: &mut Vec<char>)
    ensures
        final(out)@ == old(out)@ + decimal(n as nat),
    decreases n,
{
    if n >= 10 {
        write_decimal(n / 10, out);
    }
    out.push(digit(n % 10));
    assert(decimal(n as nat) == if n < 10 {
        seq![digit_char(n as int)]
    } else {
        decimal((n / 10) as nat).push(digit_char((n % 10) as int))
    });
}

/// Appends the JSON text of an integer.
pub fn write_int(n: i64, out: &mut Vec<char>)
    ensures
        final(out)@ == old(out)@ + json_int(n as int),
{
    if n < 0 {
        out.push('-');
        let m: u64 = (0 - (n as i128)) as u64;
        write_decimal(m, out);
        assert(old(out)@.push('-') + decimal(m as nat) =~= old(out)@ + (seq!['-'] + decimal((-n) as nat)));
    } else {
        write_decimal(n as u64, out);
    }
}

/// Appends one character as it is written inside a JSON string.
fn write_escaped_char(c: char, out: &mut Vec<char>)
    ensures
        final(out)@ == old(out)@ + escape_char(c),
{
    let code: u32 = c as u32;
    if c == '"' {
        out.push('\\');
        out.push('"');
    } else if c == '\\' {
        out.push('\\');
        out.push('\\');
    } else if c == '\n' {
        out.push('\\');
        out.push('n');
    } else if c == '\r' {
        out.push('\\');
        out.push('r');
    } else if c == '\t' {
        out.push('\\');
        out.push('t');
    } else if code == 8 {
        out.push('\\');
        out.push('b');
    } else if code == 12 {
        out.push('\\');
        out.push('f');
    } else if code < 32 {
        out.push('\\');
        out.push('u');
        out.push('0');
        out.push('0');
        out.push(hex_digit(code / 16));
        out.push(hex_digit(code % 16));
    } else {
        out.push(c);
    }
    assert(final(out)@ =~= old(out)@ + escape_char(c));
}

/// Appends the JSON text of a string.
pub fn write_string(s: &str, out: &mut Vec<char>)
    ensures
        final(out)@ == old(out)@ + json_string(s@),
{
    let chars = crate::text::chars_of(s);
    let ghost start = out@.push('"');
    out.push('"');
    let mut i: usize = 0;
    while i < chars.len()
        invariant
            chars@ == s@,
            i <= chars@.len(),
            out@ == start + escape_chars(chars@.take(i as int)),
        decreases chars@.len() - i,
    {
        write_escaped_char(chars[i], out);
        assert(chars@.take(i + 1).drop_last() =~= chars@.take(i as int));
        i = i + 1;
    }
    assert(chars@.take(chars@.len() as int) =~= chars@);
    out.push('"');
    assert(out@ =~= old(out)@ + json_string(s@));
}

/// Appends the JSON text of a value.
pub fn write_value(v: &ClaimValue, out: &mut Vec<char>)
    ensures
        final(out)@ == old(out)@ + json_value(*v),
    decreases v,
{
    match v {
        ClaimValue::Null => {
            out.push('n');
            out.push('u');
            out.push('l');
            out.push('l');
        },
        ClaimValue::Bool(b) => {
            if *b {
                out.push('t');
                out.push('r');
                out.push('u');
                out.push('e');
            } else {
                out.push('f');
                out.push('a');
                out.push('l');
                out.push('s');
                out.push('e');
            }
        },
        ClaimValue::PosInt(n) => {
            write_decimal(*n, out);
        },
        ClaimValue::NegInt(n) => {
            write_int(*n, out);
        },
        ClaimValue::Float(text) => {
            let chars = crate::text::chars_of(text.as_str());
            let mut i: usize = 0;
            while i < chars.len()
                invariant
                    chars@ == text@,
                    i <= chars@.len(),
                    out@ == old(out)@ + chars@.take(i as int),
                decreases chars@.len() - i,
            {
                out.push(chars[i]);
                assert(chars@.take(i + 1) =~= chars@.take(i as int).push(chars@[i as int]));
                i = i + 1;
            }
            assert(chars@.take(chars@.len() as int) =~= chars@);
        },
        ClaimValue::Str(s) => {
            write_string(s.as_str(), out);
        },
        ClaimValue::Array(items) => {
            let ghost start = out@.push('[');
            out.push('[');
            let mut i: usize = 0;
            while i < items.len()
                invariant
                    i <= items@.len(),
                    *v == ClaimValue::Array(*items),
                    out@ == start + json_items(items@.take(i as int)),
                decreases items@.len() - i,
            {
                let ghost before = out@;
                if i > 0 {
                    out.push(',');
                }
                assert(decreases_to!(*v => (*v)->Array_0));
                assert(decreases_to!(*items => items@));
                assert(decreases_to!(items@ => items@[i as int]));
                assert(decreases_to!(*v => items@[i as int]));
                write_value(&items[i], out);
                let ghost taken = items@.take(i + 1);
                assert(taken.drop_last() =~= items@.take(i as int));
                if i == 0 {
                    assert(json_items(taken) == json_value(items@[0]));
                    assert(out@ =~= start + json_items(taken));
                } else {
                    assert(json_items(taken) == json_items(taken.drop_last()) + seq![','] + json_value(taken.last()));
                    assert(out@ =~= start + json_items(taken));
                }
                i = i + 1;
            }
            assert(items@.take(items@.len() as int) =~= items@);
            out.push(']');
            assert(out@ =~= old(out)@ + json_value(*v));
        },
        ClaimValue::Object(map) => {
            let ghost start = out@.push('{');
            out.push('{');
            let mut i: usize = 0;
            while i < map.entries.len()
                invariant
                    i <= map.entries@.len(),
                    *v == ClaimValue::Object(*map),
                    out@ == start + json_members(map.entries@.take(i as int)),
                decreases map.entries@.len() - i,
            {
                if i > 0 {
                    out.push(',');
                }
                write_string(map.entries[i].0.as_str(), out);
                out.push(':');
                assert(decreases_to!(*v => (*v)->Object_0));
                assert(decreases_to!(*map => map.entries));
                assert(decreases_to!(map.entries => map.entries@));
                assert(decreases_to!(map.entries@ => map.entries@[i as int]));
                assert(decreases_to!(map.entries@[i as int] => map.entries@[i as int].1));
                assert(decreases_to!(*v => map.entries@[i as int].1));
                write_value(&map.entries[i].1, out);
                let ghost taken = map.entries@.take(i + 1);
                assert(taken.drop_last() =~= map.entries@.take(i as int));
                if i == 0 {
                    assert(out@ =~= start + json_members(taken));
                } else {
                    assert(out@ =~= start + json_members(taken));
                }
                i = i + 1;
            }
            assert(map.entries@.take(map.entries@.len() as int) =~= map.entries@);
            out.push('}');
            assert(out@ =~= old(out)@ + json_value(*v));
        },
    }
}

} // verus!
