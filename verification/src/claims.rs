//! The claims of an ASAP token, and the JSON text they are written as.

use vstd::prelude::*;
use crate::json::{ClaimMap, ClaimValue, json_int, json_members, json_string, json_value, lemma_same_contents_same_members};
use crate::json::{is_digit, lemma_json_int_prefix, lemma_json_string_reads_back, read_json_string};
use crate::json::{write_int, write_string, write_value};
use crate::text::push_all;
use crate::util::{clock_bound, generate_jti, is_alphanumeric, now_timestamp};

verus! {

/// Default token lifespan (one hour).
pub const DEFAULT_TOKEN_LIFESPAN: i64 = 3600;

/// The largest lifespan a claims builder takes: with it, the expiry of a
/// token issued at any time the clock can report still fits in an `i64`.
pub const MAX_LIFESPAN_SETTING: i64 = 9223363240761753599;

/// Extra claims of a token: JSON values under top-level names.
pub type ExtraClaims = ClaimMap;

/// Extra claims for a token that carries none beyond those ASAP requires.
pub struct NoClaims;

/// The `aud` claim of a token: a single audience or a list of audiences.
#[derive(Debug)]
pub enum Aud {
    /// Written as `"aud": "your-audience"`.
    One(String),
    /// Written as `"aud": ["list", "of", "your", "audiences"]`.
    Many(Vec<String>),
}

/// The JSON text of a list of strings, separated by commas.
pub open spec fn json_string_list(items: Seq<Seq<char>>) -> Seq<char>
    decreases items.len(),
{
    if items.len() == 0 {
        Seq::empty()
    } else if items.len() == 1 {
        json_string(items[0])
    } else {
        json_string_list(items.drop_last()) + seq![','] + json_string(items.last())
    }
}

/// A one-item list is written as its string, and two nonempty lists one
/// after the other are written as the first list, a comma and the second:
/// every item is written once, in order, with commas between items.
pub proof fn lemma_string_list_concat(a: Seq<Seq<char>>, b: Seq<Seq<char>>)
    ensures
        a.len() == 1 ==> json_string_list(a) == json_string(a[0]),
        a.len() > 0 && b.len() > 0 ==> json_string_list(a + b) == json_string_list(a) + seq![','] + json_string_list(
            b,
        ),
    decreases b.len(),
{
    if a.len() > 0 && b.len() > 0 {
        if b.len() == 1 {
            assert((a + b).drop_last() =~= a);
            assert((a + b).last() == b[0]);
        } else {
            let b1 = b.drop_last();
            lemma_string_list_concat(a, b1);
            assert((a + b).drop_last() =~= a + b1);
            assert((a + b).last() == b.last());
            assert(json_string_list(a + b) =~= json_string_list(a) + seq![','] + json_string_list(b1) + seq![',']
                + json_string(b.last()));
        }
    }
}

/// Reads JSON strings separated by commas up to a closing `]`, at most `n`
/// of them: the strings and the text after the bracket.
pub open spec fn read_string_items(t: Seq<char>, n: nat) -> Option<(Seq<Seq<char>>, Seq<char>)>
    decreases n,
{
    if n == 0 {
        None
    } else {
        match read_json_string(t) {
            None => None,
            Some((x, r)) => if r.len() > 0 && r[0] == ']' {
                Some((seq![x], r.drop_first()))
            } else if r.len() > 0 && r[0] == ',' {
                match read_string_items(r.drop_first(), (n - 1) as nat) {
                    Some((l, r2)) => Some((seq![x] + l, r2)),
                    None => None,
                }
            } else {
                None
            },
        }
    }
}

/// Reads an `aud` value at the start of `t`, as a JSON reader does: the
/// audiences, whether it was a single string, and the text after it.
pub open spec fn read_aud(t: Seq<char>) -> Option<(Seq<Seq<char>>, bool, Seq<char>)> {
    if t.len() > 0 && t[0] == '"' {
        match read_json_string(t) {
            Some((x, r)) => Some((seq![x], true, r)),
            None => None,
        }
    } else if t.len() > 1 && t[0] == '[' && t[1] == ']' {
        Some((Seq::empty(), false, t.skip(2)))
    } else if t.len() > 0 && t[0] == '[' {
        match read_string_items(t.drop_first(), t.len()) {
            Some((l, r)) => Some((l, false, r)),
            None => None,
        }
    } else {
        None
    }
}

/// The JSON text of a nonempty list of strings, closed by `]`, reads back
/// as the list, given room for as many items.
pub proof fn lemma_string_list_reads_back(items: Seq<Seq<char>>, rest: Seq<char>, n: nat)
    requires
        items.len() > 0,
        n >= items.len(),
    ensures
        read_string_items(json_string_list(items) + seq![']'] + rest, n) == Some((items, rest)),
    decreases items.len(),
{
    let x = items[0];
    let t = json_string_list(items) + seq![']'] + rest;
    if items.len() == 1 {
        lemma_string_list_concat(items, items);
        lemma_json_string_reads_back(x, seq![']'] + rest);
        assert(t =~= json_string(x) + (seq![']'] + rest));
        assert((seq![']'] + rest).drop_first() =~= rest);
        assert(seq![x] =~= items);
    } else {
        let tail = items.drop_first();
        lemma_string_list_concat(seq![x], tail);
        lemma_string_list_concat(seq![x], seq![x]);
        assert(seq![x] + tail =~= items);
        let after = seq![','] + json_string_list(tail) + seq![']'] + rest;
        assert(t =~= json_string(x) + after);
        lemma_json_string_reads_back(x, after);
        assert(after.drop_first() =~= json_string_list(tail) + seq![']'] + rest);
        lemma_string_list_reads_back(tail, rest, (n - 1) as nat);
    }
}

/// The JSON text of an `aud` claim reads back as its audiences, and as a
/// single string exactly when it holds one audience alone, whatever text
/// follows it: every audience is written once, in order.
pub proof fn lemma_aud_reads_back(aud: Aud, rest: Seq<char>)
    ensures
        read_aud(aud.json() + rest) == Some((aud.audiences(), aud is One, rest)),
{
    match aud {
        Aud::One(s) => {
            lemma_json_string_reads_back(s@, rest);
            assert((aud.json() + rest)[0] == '"');
        },
        Aud::Many(v) => {
            let items = string_views(v@);
            let t = aud.json() + rest;
            if items.len() == 0 {
                assert(t =~= seq!['[', ']'] + rest);
                assert(t.skip(2) =~= rest);
            } else {
                lemma_string_list_length(items);
                assert(t =~= seq!['['] + json_string_list(items) + seq![']'] + rest);
                lemma_string_list_reads_back(items, rest, t.len());
                assert(t[0] == '[');
                assert(t.drop_first() =~= json_string_list(items) + seq![']'] + rest);
                if items.len() == 1 {
                    lemma_string_list_concat(items, items);
                }
                assert(t.len() > 1 && t[1] == '"') by {
                    if items.len() == 1 {
                        assert(t[1] == json_string(items[0])[0]);
                    } else {
                        lemma_string_list_concat(seq![items[0]], items.drop_first());
                        lemma_string_list_concat(seq![items[0]], seq![items[0]]);
                        assert(seq![items[0]] + items.drop_first() =~= items);
                        assert(t[1] == json_string(items[0])[0]);
                    }
                }
            }
        },
    }
}

/// The text of a nonempty list of strings is at least as long as the list.
proof fn lemma_string_list_length(items: Seq<Seq<char>>)
    ensures
        json_string_list(items).len() >= items.len(),
    decreases items.len(),
{
    if items.len() > 1 {
        lemma_string_list_length(items.drop_last());
    }
}

/// The views of a list of strings.
pub open spec fn string_views(v: Seq<String>) -> Seq<Seq<char>> {
    v.map_values(|s: String| s@)
}

impl Aud {
    /// The audiences named by this claim, in order.
    pub open spec fn audiences(self) -> Seq<Seq<char>> {
        match self {
            Aud::One(s) => seq![s@],
            Aud::Many(v) => string_views(v@),
        }
    }

    /// The JSON text of this claim's value: a string, or an array of strings.
    pub open spec fn json(self) -> Seq<char> {
        match self {
            Aud::One(s) => json_string(s@),
            Aud::Many(v) => seq!['['] + json_string_list(string_views(v@)) + seq![']'],
        }
    }

    /// A single audience.
    pub fn from_str(aud: &str) -> (res: Aud)
        ensures
            res matches Aud::One(s) && s@ == aud@,
    {
        Aud::One(aud.to_owned())
    }

    /// A list of audiences, in the given order.
    pub fn from_vec(list: Vec<&str>) -> (res: Aud)
        ensures
            res matches Aud::Many(v) && v@.len() == list@.len() && forall|i: int|
                0 <= i < list@.len() ==> #[trigger] v@[i]@ == list@[i]@,
    {
        let mut out: Vec<String> = Vec::new();
        let mut i: usize = 0;
        while i < list.len()
            invariant
                i <= list@.len(),
                out@.len() == i,
                forall|j: int| 0 <= j < i ==> #[trigger] out@[j]@ == list@[j]@,
            decreases list@.len() - i,
        {
            out.push(list[i].to_owned());
            i = i + 1;
        }
        Aud::Many(out)
    }

    /// A copy of this claim.
    pub fn duplicate(&self) -> (res: Aud)
        ensures
            res.audiences() == self.audiences(),
            res.json() == self.json(),
            (res is One) == (self is One),
    {
        match self {
            Aud::One(s) => Aud::One(s.clone()),
            Aud::Many(v) => {
                let mut out: Vec<String> = Vec::new();
                let mut i: usize = 0;
                while i < v.len()
                    invariant
                        i <= v@.len(),
                        out@.len() == i,
                        forall|j: int| 0 <= j < i ==> #[trigger] out@[j]@ == v@[j]@,
                    decreases v@.len() - i,
                {
                    out.push(v[i].clone());
                    i = i + 1;
                }
                assert(string_views(out@) =~= string_views(v@));
                Aud::Many(out)
            },
        }
    }

    /// The audiences named by this claim, as a list.
    pub fn to_list(&self) -> (res: Vec<String>)
        ensures
            string_views(res@) == self.audiences(),
    {
        match self {
            Aud::One(s) => {
                let mut out: Vec<String> = Vec::new();
                out.push(s.clone());
                assert(string_views(out@) =~= seq![s@]);
                out
            },
            Aud::Many(v) => {
                let mut out: Vec<String> = Vec::new();
                let mut i: usize = 0;
                while i < v.len()
                    invariant
                        i <= v@.len(),
                        out@.len() == i,
                        forall|j: int| 0 <= j < i ==> #[trigger] out@[j]@ == v@[j]@,
                    decreases v@.len() - i,
                {
                    out.push(v[i].clone());
                    i = i + 1;
                }
                assert(string_views(out@) =~= string_views(v@));
                out
            },
        }
    }
}

/// Appends the JSON text of a list of strings, separated by commas.
fn write_string_list(items: &Vec<String>, out: &mut Vec<char>)
    ensures
        final(out)@ == old(out)@ + json_string_list(string_views(items@)),
{
    let ghost views = string_views(items@);
    let mut i: usize = 0;
    while i < items.len()
        invariant
            i <= items@.len(),
            views == string_views(items@),
            out@ == old(out)@ + json_string_list(views.take(i as int)),
        decreases items@.len() - i,
    {
        if i > 0 {
            out.push(',');
        }
        write_string(items[i].as_str(), out);
        let ghost taken = views.take(i + 1);
        assert(taken.drop_last() =~= views.take(i as int));
        assert(taken.last() == items@[i as int]@);
        assert(out@ =~= old(out)@ + json_string_list(taken));
        i = i + 1;
    }
    assert(views.take(items@.len() as int) =~= views);
}

/// Appends the JSON text of an `aud` claim's value.
fn write_aud(aud: &Aud, out: &mut Vec<char>)
    ensures
        final(out)@ == old(out)@ + aud.json(),
{
    match aud {
        Aud::One(s) => write_string(s.as_str(), out),
        Aud::Many(v) => {
            out.push('[');
            write_string_list(v, out);
            out.push(']');
            assert(out@ =~= old(out)@ + aud.json());
        },
    }
}

/// The claims ASAP requires, which extra claims cannot override: `aud`,
/// `iss`, `jti`, `iat` and `exp`.
pub open spec fn required_claim(name: Seq<char>) -> bool {
    ||| name == seq!['a', 'u', 'd']
    ||| name == seq!['i', 's', 's']
    ||| name == seq!['j', 't', 'i']
    ||| name == seq!['i', 'a', 't']
    ||| name == seq!['e', 'x', 'p']
}

/// Whether `name` is one of the claims ASAP requires.
pub fn is_required_claim(name: &str) -> (res: bool)
    ensures
        res == required_claim(name@),
{
    let c = crate::text::chars_of(name);
    if c.len() != 3 {
        return false;
    }
    let (a, b, d) = (c[0], c[1], c[2]);
    let res = (a == 'a' && b == 'u' && d == 'd') || (a == 'i' && b == 's' && d == 's') || (a == 'j'
        && b == 't' && d == 'i') || (a == 'i' && b == 'a' && d == 't') || (a == 'e' && b == 'x' && d
        == 'p');
    assert(c@ =~= seq![a, b, d]);
    res
}

/// The JSON members written for extra claims, each after a comma; extra
/// claims named like a required claim are left out.
pub open spec fn extra_members(entries: Seq<(String, ClaimValue)>) -> Seq<char>
    decreases entries.len(),
{
    if entries.len() == 0 {
        Seq::empty()
    } else {
        let e = entries.last();
        extra_members(entries.drop_last()) + if required_claim(e.0@) {
            Seq::<char>::empty()
        } else {
            seq![','] + json_string(e.0@) + seq![':'] + json_value(e.1)
        }
    }
}

/// The entries whose names are not those of required claims, in order.
pub open spec fn without_required(entries: Seq<(String, ClaimValue)>) -> Seq<(String, ClaimValue)>
    decreases entries.len(),
{
    if entries.len() == 0 {
        entries
    } else if required_claim(entries.last().0@) {
        without_required(entries.drop_last())
    } else {
        without_required(entries.drop_last()).push(entries.last())
    }
}

/// Extra claims named like a required claim have no effect: the members
/// written for extra claims are those written for the extra claims without
/// them, and none of those is named like a required claim.
pub proof fn lemma_required_claims_not_overridden(entries: Seq<(String, ClaimValue)>)
    ensures
        extra_members(entries) == extra_members(without_required(entries)),
        forall|i: int|
            0 <= i < without_required(entries).len() ==> !required_claim(
                (#[trigger] without_required(entries)[i]).0@,
            ),
    decreases entries.len(),
{
    if entries.len() > 0 {
        let rest = entries.drop_last();
        let e = entries.last();
        lemma_required_claims_not_overridden(rest);
        if !required_claim(e.0@) {
            let w = without_required(rest).push(e);
            assert(w.drop_last() =~= without_required(rest));
            assert(w.last() == e);
            assert forall|i: int| 0 <= i < w.len() implies !required_claim((#[trigger] w[i]).0@) by {
                if i < w.len() - 1 {
                    assert(w[i] == without_required(rest)[i]);
                }
            }
        }
    }
}

/// The extra claims read from a token: `None` when it holds none.
pub fn extra_claims_from(claims: ExtraClaims) -> (res: Option<ExtraClaims>)
    ensures
        claims.entries@.len() == 0 ==> res is None,
        claims.entries@.len() > 0 ==> res == Some(claims),
{
    if claims.is_empty() {
        None
    } else {
        Some(claims)
    }
}

/// A claims set that contains the claims ASAP requires.
#[derive(Debug)]
pub struct Claims {
    /// A value that identifies the resource server.
    pub aud: Aud,
    /// The service identifier of the client.
    pub iss: String,
    /// A generated nonce value that is unique within the temporal
    /// window of the token life time.
    pub jti: String,
    /// The current time according to the client's internal clock.
    pub iat: i64,
    /// A time in the future (`exp` MUST be after `iat`), at most one
    /// hour after it.
    pub exp: i64,
    /// Extra claims, written at the top level of the token. `None` adds no
    /// claims.
    pub extra_claims: Option<ExtraClaims>,
}

impl Claims {
    /// The JSON text of the claims as they are signed into a token: the
    /// required claims, then the extra claims whose names are not required.
    pub open spec fn json(self) -> Seq<char> {
        seq!['{', '"', 'a', 'u', 'd', '"', ':'] + self.aud.json() + seq![',', '"', 'i', 's', 's', '"', ':']
            + json_string(self.iss@) + seq![',', '"', 'j', 't', 'i', '"', ':'] + json_string(self.jti@)
            + seq![',', '"', 'i', 'a', 't', '"', ':'] + json_int(self.iat as int) + seq![
            ',',
            '"',
            'e',
            'x',
            'p',
            '"',
            ':',
        ] + json_int(self.exp as int) + match self.extra_claims {
            Some(m) => extra_members(m.entries@),
            None => Seq::<char>::empty(),
        } + seq!['}']
    }

    /// The key under which a token for these claims is cached: a JSON object
    /// of `aud`, `exp`, `extra_claims` (or `null`), `iat` and `iss`.
    pub open spec fn cache_key_text(self) -> Seq<char> {
        seq!['{', '"', 'a', 'u', 'd', '"', ':'] + self.aud.json() + seq![',', '"', 'e', 'x', 'p', '"', ':']
            + json_int(self.exp as int) + seq![
            ',',
            '"',
            'e',
            'x',
            't',
            'r',
            'a',
            '_',
            'c',
            'l',
            'a',
            'i',
            'm',
            's',
            '"',
            ':',
        ] + match self.extra_claims {
            Some(m) => seq!['{'] + json_members(m.entries@) + seq!['}'],
            None => seq!['n', 'u', 'l', 'l'],
        } + seq![',', '"', 'i', 'a', 't', '"', ':'] + json_int(self.iat as int) + seq![
            ',',
            '"',
            'i',
            's',
            's',
            '"',
            ':',
        ] + json_string(self.iss@) + seq!['}']
    }

    /// The JSON text of the claims as they are signed into a token.
    pub fn to_json(&self) -> (res: String)
        ensures
            res@ == self.json(),
    {
        let mut out: Vec<char> = Vec::new();
        push_all(&mut out, &['{', '"', 'a', 'u', 'd', '"', ':']);
        write_aud(&self.aud, &mut out);
        push_all(&mut out, &[',', '"', 'i', 's', 's', '"', ':']);
        write_string(self.iss.as_str(), &mut out);
        push_all(&mut out, &[',', '"', 'j', 't', 'i', '"', ':']);
        write_string(self.jti.as_str(), &mut out);
        push_all(&mut out, &[',', '"', 'i', 'a', 't', '"', ':']);
        write_int(self.iat, &mut out);
        push_all(&mut out, &[',', '"', 'e', 'x', 'p', '"', ':']);
        write_int(self.exp, &mut out);
        let ghost fixed = out@;
        match &self.extra_claims {
            Some(m) => {
                let mut i: usize = 0;
                while i < m.entries.len()
                    invariant
                        i <= m.entries@.len(),
                        out@ == fixed + extra_members(m.entries@.take(i as int)),
                    decreases m.entries@.len() - i,
                {
                    let ghost taken = m.entries@.take(i + 1);
                    assert(taken.drop_last() =~= m.entries@.take(i as int));
                    assert(taken.last() == m.entries@[i as int]);
                    if !is_required_claim(m.entries[i].0.as_str()) {
                        out.push(',');
                        write_string(m.entries[i].0.as_str(), &mut out);
                        out.push(':');
                        write_value(&m.entries[i].1, &mut out);
                    }
                    assert(out@ =~= fixed + extra_members(taken));
                    i = i + 1;
                }
                assert(m.entries@.take(m.entries@.len() as int) =~= m.entries@);
            },
            None => {
                assert(out@ =~= fixed + Seq::<char>::empty());
            },
        }
        out.push('}');
        assert(out@ =~= self.json());
        crate::text::string_from_chars(out.as_slice())
    }

    /// The key under which a generator caches the token for these claims.
    pub fn cache_key(&self) -> (res: String)
        ensures
            res@ == self.cache_key_text(),
    {
        let mut out: Vec<char> = Vec::new();
        push_all(&mut out, &['{', '"', 'a', 'u', 'd', '"', ':']);
        write_aud(&self.aud, &mut out);
        push_all(&mut out, &[',', '"', 'e', 'x', 'p', '"', ':']);
        write_int(self.exp, &mut out);
        push_all(
            &mut out,
            &[',', '"', 'e', 'x', 't', 'r', 'a', '_', 'c', 'l', 'a', 'i', 'm', 's', '"', ':'],
        );
        match &self.extra_claims {
            Some(m) => {
                write_map(m, &mut out);
            },
            None => {
                push_all(&mut out, &['n', 'u', 'l', 'l']);
            },
        }
        push_all(&mut out, &[',', '"', 'i', 'a', 't', '"', ':']);
        write_int(self.iat, &mut out);
        push_all(&mut out, &[',', '"', 'i', 's', 's', '"', ':']);
        write_string(self.iss.as_str(), &mut out);
        out.push('}');
        assert(out@ =~= self.cache_key_text());
        crate::text::string_from_chars(out.as_slice())
    }
}

/// Appends the JSON text of an object with the entries of `m`.
fn write_map(m: &ClaimMap, out: &mut Vec<char>)
    ensures
        final(out)@ == old(out)@ + seq!['{'] + json_members(m.entries@) + seq!['}'],
{
    let ghost start = out@.push('{');
    out.push('{');
    let mut i: usize = 0;
    while i < m.entries.len()
        invariant
            i <= m.entries@.len(),
            out@ == start + json_members(m.entries@.take(i as int)),
        decreases m.entries@.len() - i,
    {
        if i > 0 {
            out.push(',');
        }
        write_string(m.entries[i].0.as_str(), out);
        out.push(':');
        write_value(&m.entries[i].1, out);
        let ghost taken = m.entries@.take(i + 1);
        assert(taken.drop_last() =~= m.entries@.take(i as int));
        assert(out@ =~= start + json_members(taken));
        i = i + 1;
    }
    assert(m.entries@.take(m.entries@.len() as int) =~= m.entries@);
    out.push('}');
    assert(out@ =~= old(out)@ + seq!['{'] + json_members(m.entries@) + seq!['}']);
}

/// Builds the claims of the tokens a generator signs.
pub struct ClaimsBuilder {
    iss: String,
    lifespan: i64,
}

impl ClaimsBuilder {
    /// The issuer written into built claims.
    pub closed spec fn issuer(&self) -> Seq<char> {
        self.iss@
    }

    /// The lifespan of built claims, in seconds.
    pub closed spec fn lifespan_of(&self) -> i64 {
        self.lifespan
    }

    /// The builder keeps a lifespan that cannot overflow an expiry time.
    #[verifier::type_invariant]
    spec fn lifespan_fits(self) -> bool {
        self.lifespan <= MAX_LIFESPAN_SETTING
    }

    /// A builder for claims issued by `iss`, living `DEFAULT_TOKEN_LIFESPAN`
    /// seconds.
    pub fn new(iss: String) -> (res: ClaimsBuilder)
        ensures
            res.issuer() == iss@,
            res.lifespan_of() == DEFAULT_TOKEN_LIFESPAN,
    {
        ClaimsBuilder { iss, lifespan: DEFAULT_TOKEN_LIFESPAN }
    }

    /// Sets the lifespan of the claims built from now on.
    pub fn lifespan(&mut self, lifespan: i64) -> (res: &mut ClaimsBuilder)
        requires
            lifespan <= MAX_LIFESPAN_SETTING,
        ensures
            res.issuer() == old(self).issuer(),
            res.lifespan_of() == lifespan,
            *final(self) == *final(res),
        no_unwind
    {
        self.lifespan = lifespan;
        self
    }

    /// The claims issued at `iat` with the nonce `jti`.
    pub fn build_at(&self, aud: Aud, extra_claims: Option<ExtraClaims>, jti: String, iat: i64) -> (res: Claims)
        requires
            0 <= iat < clock_bound(),
        ensures
            res.aud == aud,
            res.extra_claims == extra_claims,
            res.iss@ == self.issuer(),
            res.jti == jti,
            res.iat == iat,
            res.exp == iat + self.lifespan_of(),
    {
        proof {
            use_type_invariant(self);
        }
        let iss = self.iss.clone();
        let exp = iat + self.lifespan;
        Claims { aud, iss, iat, exp, jti, extra_claims }
    }

    /// Claims issued now, with a fresh random nonce. May be called many times
    /// to build different claims with the same configuration.
    pub fn build(&self, aud: Aud, extra_claims: Option<ExtraClaims>) -> (res: Claims)
        ensures
            res.aud == aud,
            res.extra_claims == extra_claims,
            res.iss@ == self.issuer(),
            res.jti@.len() == 20,
            forall|i: int| 0 <= i < 20 ==> is_alphanumeric(#[trigger] res.jti@[i]),
            0 <= res.iat < clock_bound(),
            res.exp == res.iat + self.lifespan_of(),
    {
        let jti = generate_jti();
        let iat = now_timestamp();
        self.build_at(aud, extra_claims, jti, iat)
    }
}


/// Claims that agree on the audience, the issuer, the issue and expiry
/// times and the extra claims (by their contents, whatever order these were
/// inserted in) have one cache key; the nonce does not count.
pub proof fn lemma_cache_key_depends_on_contents(c1: Claims, c2: Claims)
    requires
        c1.aud.audiences() == c2.aud.audiences(),
        (c1.aud is One) == (c2.aud is One),
        c1.iss@ == c2.iss@,
        c1.iat == c2.iat,
        c1.exp == c2.exp,
        match (c1.extra_claims, c2.extra_claims) {
            (None, None) => true,
            (Some(m1), Some(m2)) => m1.wf() && m2.wf() && forall|k: Seq<char>| #[trigger] m1.get_spec(k) == m2.get_spec(
                k,
            ),
            _ => false,
        },
    ensures
        c1.cache_key_text() == c2.cache_key_text(),
{
    match (c1.aud, c2.aud) {
        (Aud::One(a), Aud::One(b)) => {
            assert(seq![a@][0] == seq![b@][0]);
        },
        _ => {},
    }
    assert(c1.aud.json() == c2.aud.json());
    match (c1.extra_claims, c2.extra_claims) {
        (Some(m1), Some(m2)) => {
            assert forall|k: Seq<char>| #[trigger] crate::json::lookup(m1.entries@, k) == crate::json::lookup(
                m2.entries@,
                k,
            ) by {
                assert(m1.get_spec(k) == m2.get_spec(k));
            }
            lemma_same_contents_same_members(m1.entries@, m2.entries@);
        },
        _ => {},
    }
}


/// Claims whose audiences differ get different cache keys: a token cached
/// for some audiences is never handed out for others.
pub proof fn lemma_cache_key_distinguishes_audiences(c1: Claims, c2: Claims)
    requires
        c1.aud.audiences() != c2.aud.audiences(),
    ensures
        c1.cache_key_text() != c2.cache_key_text(),
{
    let head = seq!['{', '"', 'a', 'u', 'd', '"', ':'];
    let r1 = c1.cache_key_text().skip(7);
    let r2 = c2.cache_key_text().skip(7);
    let tail1 = r1.skip(c1.aud.json().len() as int);
    let tail2 = r2.skip(c2.aud.json().len() as int);
    assert(r1 =~= c1.aud.json() + tail1);
    assert(r2 =~= c2.aud.json() + tail2);
    lemma_aud_reads_back(c1.aud, tail1);
    lemma_aud_reads_back(c2.aud, tail2);
    if c1.cache_key_text() == c2.cache_key_text() {
        assert(r1 == r2);
    }
}


/// What a cache key holds after the expiry: the extra claims, the issue
/// time and the issuer.
pub open spec fn key_after_expiry(c: Claims) -> Seq<char> {
    seq![',', '"', 'e', 'x', 't', 'r', 'a', '_', 'c', 'l', 'a', 'i', 'm', 's', '"', ':'] + match c.extra_claims {
        Some(m) => seq!['{'] + json_members(m.entries@) + seq!['}'],
        None => seq!['n', 'u', 'l', 'l'],
    } + seq![',', '"', 'i', 'a', 't', '"', ':'] + json_int(c.iat as int) + seq![',', '"', 'i', 's', 's', '"', ':']
        + json_string(c.iss@) + seq!['}']
}

/// A cache key is the audience, the expiry, and the rest after a comma.
proof fn lemma_cache_key_shape(c: Claims)
    ensures
        c.cache_key_text() == seq!['{', '"', 'a', 'u', 'd', '"', ':'] + (c.aud.json() + (seq![
            ',',
            '"',
            'e',
            'x',
            'p',
            '"',
            ':',
        ] + (json_int(c.exp as int) + key_after_expiry(c)))),
        key_after_expiry(c).len() > 0 && key_after_expiry(c)[0] == ',',
{
    assert(c.cache_key_text() =~= seq!['{', '"', 'a', 'u', 'd', '"', ':'] + (c.aud.json() + (seq![
        ',',
        '"',
        'e',
        'x',
        'p',
        '"',
        ':',
    ] + (json_int(c.exp as int) + key_after_expiry(c)))));
}

/// Claims with the same cache key have the same audiences, written the same
/// way (one string or a list), and the same expiry: a token cached for some
/// claims is never handed out for claims with other audiences or another
/// expiry.
pub proof fn lemma_same_cache_key_same_audience_and_expiry(c1: Claims, c2: Claims)
    requires
        c1.cache_key_text() == c2.cache_key_text(),
    ensures
        c1.aud.audiences() == c2.aud.audiences(),
        (c1.aud is One) == (c2.aud is One),
        c1.exp == c2.exp,
{
    lemma_cache_key_shape(c1);
    lemma_cache_key_shape(c2);
    let head = seq!['{', '"', 'a', 'u', 'd', '"', ':'];
    let e = seq![',', '"', 'e', 'x', 'p', '"', ':'];
    let t1 = e + (json_int(c1.exp as int) + key_after_expiry(c1));
    let t2 = e + (json_int(c2.exp as int) + key_after_expiry(c2));
    let r1 = c1.aud.json() + t1;
    let r2 = c2.aud.json() + t2;
    assert(r1 =~= (head + r1).skip(7));
    assert(r2 =~= (head + r2).skip(7));
    lemma_aud_reads_back(c1.aud, t1);
    lemma_aud_reads_back(c2.aud, t2);
    assert(t1.skip(7) =~= json_int(c1.exp as int) + key_after_expiry(c1));
    assert(t2.skip(7) =~= json_int(c2.exp as int) + key_after_expiry(c2));
    assert(!is_digit(','));
    lemma_json_int_prefix(c1.exp as int, c2.exp as int, key_after_expiry(c1), key_after_expiry(c2));
}

} // verus!
