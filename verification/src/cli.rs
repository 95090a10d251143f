//! The logic of the command line tool: its options, its configuration and
//! how options override it, how an audience is typed in, and what is printed
//! for a token.

use vstd::prelude::*;
use crate::claims::{Aud, Claims, ExtraClaims, string_views};
use crate::errors::AsapError;
use crate::generator::{Generator, built_claims, result_text, signing_outcome};
use crate::jwt::jwt_signed;
use crate::text::{chars_of, push_all, string_from_chars};

verus! {

/// The options of the command line tool.
#[derive(Debug)]
pub struct Opt {
    /// Path of the configuration file to use when generating tokens.
    pub config_path: Option<String>,
    /// Extra claims to insert into the token, as JSON.
    pub extra_claims_json: Option<String>,
    /// A custom target audience (`aud`) for the token, as JSON.
    pub audience: Option<String>,
    /// A custom issuer (`iss`) for the token.
    pub issuer: Option<String>,
    /// A custom key id (`kid`) for the token.
    pub key_id: Option<String>,
    /// A custom private key (path of a PEM file) for the token.
    pub private_key: Option<String>,
    /// The subcommand to run.
    pub subcommand: SubCommand,
}

/// The subcommands of the command line tool.
#[derive(Debug)]
pub enum SubCommand {
    /// Create a config file that may be used when generating tokens.
    Init,
    /// Generate and print an ASAP token.
    Token {
        /// Print the token as an Authorization header value.
        auth_header: bool,
        /// Print the token as a full Authorization header.
        full_header: bool,
    },
    /// Use `curl` with an auto-injected authorization header.
    Curl { args: Vec<String> },
}

/// Why the configuration could not be loaded.
#[derive(Debug)]
pub enum ConfigError {
    /// The file given (first) could not be parsed; the second is why.
    CustomConfig(String, String),
    /// No configuration file was found; the text says why.
    NotFound(String),
}

impl ConfigError {
    /// The text of the error.
    pub open spec fn text(&self) -> Seq<char> {
        match self {
            ConfigError::CustomConfig(path, why) => "failed to parse config from "@ + path@ + ": "@ + why@,
            ConfigError::NotFound(why) => "failed to find configuration files: "@ + why@,
        }
    }

    /// The text of the error.
    pub fn message(&self) -> (res: String)
        ensures
            res@ == self.text(),
    {
        let mut out: Vec<char> = Vec::new();
        match self {
            ConfigError::CustomConfig(path, why) => {
                let head = chars_of("failed to parse config from ");
                push_all(&mut out, head.as_slice());
                let p = chars_of(path.as_str());
                push_all(&mut out, p.as_slice());
                push_all(&mut out, &[':', ' ']);
                let w = chars_of(why.as_str());
                push_all(&mut out, w.as_slice());
                proof {
                    reveal_strlit("failed to parse config from ");
                    reveal_strlit(": ");
                }
            },
            ConfigError::NotFound(why) => {
                let head = chars_of("failed to find configuration files: ");
                push_all(&mut out, head.as_slice());
                let w = chars_of(why.as_str());
                push_all(&mut out, w.as_slice());
                proof {
                    reveal_strlit("failed to find configuration files: ");
                }
            },
        }
        assert(out@ =~= self.text());
        string_from_chars(out.as_slice())
    }

    /// The error for a configuration that could not be loaded: from the file
    /// the options name, when they name one, or else from the default
    /// places; `error` says why.
    pub fn loading(config_path: Option<String>, error: String) -> (res: ConfigError)
        ensures
            match config_path {
                Some(p) => res == ConfigError::CustomConfig(p, error),
                None => res == ConfigError::NotFound(error),
            },
    {
        match config_path {
            Some(p) => ConfigError::CustomConfig(p, error),
            None => ConfigError::NotFound(error),
        }
    }
}

/// What the command line tool signs tokens with.
#[derive(Debug)]
pub struct Config {
    pub audience: Aud,
    pub issuer: String,
    pub key_id: String,
    /// The DER-encoded RSA private key.
    pub private_key: Vec<u8>,
    pub extra_claims: Option<ExtraClaims>,
}

impl Config {
    /// Applies the values given on the command line: each one given
    /// replaces the configured one.
    pub fn apply_overrides(
        &mut self,
        audience: Option<Aud>,
        issuer: Option<String>,
        key_id: Option<String>,
        private_key: Option<Vec<u8>>,
        extra_claims: Option<ExtraClaims>,
    )
        ensures
            final(self).audience == match audience {
                Some(a) => a,
                None => old(self).audience,
            },
            final(self).issuer == match issuer {
                Some(i) => i,
                None => old(self).issuer,
            },
            final(self).key_id == match key_id {
                Some(k) => k,
                None => old(self).key_id,
            },
            final(self).private_key == match private_key {
                Some(p) => p,
                None => old(self).private_key,
            },
            final(self).extra_claims == match extra_claims {
                Some(e) => Some(e),
                None => old(self).extra_claims,
            },
    {
        match audience {
            Some(a) => self.audience = a,
            None => {},
        }
        match issuer {
            Some(i) => self.issuer = i,
            None => {},
        }
        match key_id {
            Some(k) => self.key_id = k,
            None => {},
        }
        match private_key {
            Some(p) => self.private_key = p,
            None => {},
        }
        match extra_claims {
            Some(e) => self.extra_claims = Some(e),
            None => {},
        }
    }
}

/// A token signed with the configuration: issued by its issuer, under its
/// key id, for its audience, with its extra claims.
pub fn create_token(config: Config) -> (res: Result<String, AsapError>)
    ensures
        exists|c: Claims|
            built_claims(
                c,
                config.issuer@,
                crate::claims::DEFAULT_TOKEN_LIFESPAN,
                config.audience,
                config.extra_claims,
            ) && #[trigger] signing_outcome(
                result_text(res),
                jwt_signed(config.key_id@, c.json(), config.private_key@),
            ),
{
    let Config { audience, issuer, key_id, private_key, extra_claims } = config;
    let mut generator = Generator::new(issuer, key_id, private_key);
    generator.token(audience, extra_claims)
}

/// The pieces of `s` between the occurrences of `sep`, as `str::split` gives
/// them (empty pieces included).
pub open spec fn split_on(s: Seq<char>, sep: char) -> Seq<Seq<char>>
    decreases s.len(),
{
    if s.len() == 0 {
        seq![Seq::<char>::empty()]
    } else {
        let pieces = split_on(s.drop_last(), sep);
        if s.last() == sep {
            pieces.push(Seq::<char>::empty())
        } else {
            pieces.update(pieces.len() - 1, pieces.last().push(s.last()))
        }
    }
}

/// The pieces joined, with `sep` between each two.
pub open spec fn join_with(pieces: Seq<Seq<char>>, sep: char) -> Seq<char>
    decreases pieces.len(),
{
    if pieces.len() == 0 {
        Seq::empty()
    } else if pieces.len() == 1 {
        pieces[0]
    } else {
        join_with(pieces.drop_last(), sep).push(sep) + pieces.last()
    }
}

/// Splitting never gives an empty list.
proof fn lemma_split_nonempty(s: Seq<char>, sep: char)
    ensures
        split_on(s, sep).len() >= 1,
    decreases s.len(),
{
    if s.len() > 0 {
        lemma_split_nonempty(s.drop_last(), sep);
    }
}

/// Joining the pieces of a split with the separator gives back the text,
/// and no piece holds the separator.
pub proof fn lemma_split_join(s: Seq<char>, sep: char)
    ensures
        join_with(split_on(s, sep), sep) == s,
        forall|i: int| 0 <= i < split_on(s, sep).len() ==> !(#[trigger] split_on(s, sep)[i]).contains(sep),
    decreases s.len(),
{
    if s.len() == 0 {
        assert(!Seq::<char>::empty().contains(sep));
    } else {
        let t = s.drop_last();
        let c = s.last();
        lemma_split_join(t, sep);
        lemma_split_nonempty(t, sep);
        let p = split_on(t, sep);
        let q = split_on(s, sep);
        if c == sep {
            assert(q.drop_last() =~= p);
            assert(join_with(q, sep) =~= join_with(p, sep).push(sep));
            assert(!Seq::<char>::empty().contains(sep));
            assert forall|i: int| 0 <= i < q.len() implies !(#[trigger] q[i]).contains(sep) by {
                if i < p.len() {
                    assert(q[i] == p[i]);
                }
            }
        } else {
            let n = p.len();
            if n == 1 {
                assert(join_with(q, sep) =~= p[0].push(c));
            } else {
                assert(q.drop_last() =~= p.drop_last());
                assert(join_with(q, sep) =~= join_with(p.drop_last(), sep).push(sep) + p.last().push(c));
                assert(join_with(q, sep) =~= (join_with(p.drop_last(), sep).push(sep) + p.last()).push(c));
            }
            assert(s =~= t.push(c));
            assert forall|i: int| 0 <= i < q.len() implies !(#[trigger] q[i]).contains(sep) by {
                if i < n - 1 {
                    assert(q[i] == p[i]);
                } else {
                    let last = p[n - 1];
                    assert(q[i] == last.push(c));
                    assert(!last.contains(sep));
                    if last.push(c).contains(sep) {
                        let j = choose|j: int| 0 <= j < last.push(c).len() && last.push(c)[j] == sep;
                        if j < last.len() {
                            assert(last[j] == sep);
                        }
                    }
                }
            }
        }
    }
}

/// The audience typed in for a new configuration: a list when the input
/// holds a comma (`"aud1,aud2"` gives `aud1` and `aud2`), a single
/// audience otherwise (`"aud"`).
pub fn parse_audience(input: String) -> (res: Aud)
    ensures
        input@.contains(',') ==> (res matches Aud::Many(v) && string_views(v@) == split_on(input@, ',')),
        !input@.contains(',') ==> (res matches Aud::One(s) && s@ == input@),
{
    let chars = chars_of(input.as_str());
    let mut pieces: Vec<String> = Vec::new();
    let mut current: Vec<char> = Vec::new();
    let mut seen_comma = false;
    let mut i: usize = 0;
    while i < chars.len()
        invariant
            i <= chars@.len(),
            chars@ == input@,
            split_on(chars@.take(i as int), ',') == string_views(pieces@).push(current@),
            seen_comma == chars@.take(i as int).contains(','),
        decreases chars@.len() - i,
    {
        let c = chars[i];
        let ghost before = string_views(pieces@);
        let ghost cur = current@;
        assert(chars@.take(i + 1).drop_last() =~= chars@.take(i as int));
        assert(chars@.take(i + 1).last() == c);
        if c == ',' {
            pieces.push(string_from_chars(current.as_slice()));
            current = Vec::new();
            seen_comma = true;
            assert(string_views(pieces@) =~= before.push(cur));
            assert(split_on(chars@.take(i + 1), ',') =~= before.push(cur).push(Seq::<char>::empty()));
            assert(chars@.take(i + 1)[i as int] == ',');
        } else {
            current.push(c);
            assert(split_on(chars@.take(i + 1), ',') =~= before.push(cur.push(c)));
            assert(chars@.take(i + 1).contains(',') == chars@.take(i as int).contains(',')) by {
                if chars@.take(i + 1).contains(',') {
                    let j = choose|j: int| 0 <= j < i + 1 && #[trigger] chars@.take(i + 1)[j] == ',';
                    assert(j < i);
                    assert(chars@.take(i as int)[j] == ',');
                }
                if chars@.take(i as int).contains(',') {
                    let j = choose|j: int| 0 <= j < i && #[trigger] chars@.take(i as int)[j] == ',';
                    assert(chars@.take(i + 1)[j] == ',');
                }
            }
        }
        i = i + 1;
    }
    assert(chars@.take(chars@.len() as int) =~= chars@);
    if seen_comma {
        let ghost before = string_views(pieces@);
        pieces.push(string_from_chars(current.as_slice()));
        assert(string_views(pieces@) =~= before.push(current@));
        Aud::Many(pieces)
    } else {
        Aud::from_str(input.as_str())
    }
}

/// A line typed in, without its last character (the line end).
pub fn strip_line_end(input: String) -> (res: String)
    ensures
        res@ == if input@.len() == 0 {
            input@
        } else {
            input@.drop_last()
        },
{
    let chars = chars_of(input.as_str());
    if chars.len() == 0 {
        return input;
    }
    let mut chars = chars;
    let _ = chars.pop();
    assert(chars@ =~= input@.drop_last());
    string_from_chars(chars.as_slice())
}

/// What the `token` subcommand prints: `"Authorization: Bearer "` and the
/// token for a full header, the header's value (`"Bearer "` and the token)
/// when only the value is asked for, and the token alone otherwise.
pub fn token_output(token: &str, full_header: bool, auth_header: bool) -> (res: String)
    ensures
        full_header ==> res@ == "Authorization: Bearer "@ + token@,
        !full_header && auth_header ==> res@ == "Bearer "@ + token@,
        !full_header && !auth_header ==> res@ == token@,
{
    if full_header {
        crate::text::concat("Authorization: Bearer ", token)
    } else if auth_header {
        crate::text::concat("Bearer ", token)
    } else {
        token.to_owned()
    }
}

/// An answer typed in, or `None` when it was left blank.
pub fn optional_input(input: String) -> (res: Option<String>)
    ensures
        input@.len() == 0 ==> res is None,
        input@.len() > 0 ==> res == Some(input),
{
    let chars = chars_of(input.as_str());
    if chars.len() == 0 {
        None
    } else {
        Some(input)
    }
}

/// The path a new configuration is written to: the one typed in, or the
/// default when it was left blank.
pub fn output_path(input: String, default_path: String) -> (res: String)
    ensures
        input@.len() == 0 ==> res == default_path,
        input@.len() > 0 ==> res == input,
{
    match optional_input(input) {
        Some(p) => p,
        None => default_path,
    }
}

} // verus!
