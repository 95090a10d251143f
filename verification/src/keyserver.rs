//! Keyservers: where a validator fetches the public keys of token issuers.
//! This module holds the keyserver errors, the settings of an HTTP
//! keyserver, and the decisions of a key lookup: which URL a key is fetched
//! from, what a failed request means, and which server is asked next.

use vstd::prelude::*;
use crate::jwt::PublicKey;
use crate::text::{chars_of, debug_quoted, debug_text, push_all, string_from_chars};
use crate::validator::{duration_as_nanos, duration_nanos};

verus! {

/// The kind of a keyserver error.
#[derive(Debug, Clone, Copy, PartialEq, Eq, Structural)]
#[non_exhaustive]
pub enum ErrorKind {
    InvalidConfig,
    InvalidResponse,
    KeyNotFound,
    Other,
}

impl ErrorKind {
    /// How the kind is written in an error's text.
    pub open spec fn text(self) -> Seq<char> {
        match self {
            ErrorKind::InvalidConfig => "invalid configuration"@,
            ErrorKind::InvalidResponse => "invalid response"@,
            ErrorKind::KeyNotFound => "key not found"@,
            ErrorKind::Other => "other error"@,
        }
    }

    /// How the kind is written in an error's text.
    pub fn describe(self) -> (res: String)
        ensures
            res@ == self.text(),
    {
        match self {
            ErrorKind::InvalidConfig => "invalid configuration".to_owned(),
            ErrorKind::InvalidResponse => "invalid response".to_owned(),
            ErrorKind::KeyNotFound => "key not found".to_owned(),
            ErrorKind::Other => "other error".to_owned(),
        }
    }

    /// An error of this kind caused by another error, given by its text.
    pub fn source(self, error: String) -> (res: Error)
        ensures
            res.kind == self,
            res.data == ErrorData::Source(error),
    {
        Error { kind: self, data: ErrorData::Source(error) }
    }

    /// An error of this kind with a message.
    pub fn message(self, message: String) -> (res: Error)
        ensures
            res.kind == self,
            res.data == ErrorData::Message(message),
    {
        Error { kind: self, data: ErrorData::Message(message) }
    }
}

/// What a keyserver error carries besides its kind.
#[derive(Debug)]
pub enum ErrorData {
    /// The text of the error that caused it.
    Source(String),
    /// A message.
    Message(String),
    /// Nothing.
    Empty,
}

/// A keyserver error.
#[derive(Debug)]
pub struct Error {
    pub kind: ErrorKind,
    pub data: ErrorData,
}

impl From<ErrorKind> for Error {
    /// An error of the given kind that carries nothing more.
    fn from(kind: ErrorKind) -> (res: Error) {
        Error { kind, data: ErrorData::Empty }
    }
}

impl vstd::std_specs::convert::FromSpecImpl<ErrorKind> for Error {
    open spec fn obeys_from_spec() -> bool {
        true
    }

    open spec fn from_spec(kind: ErrorKind) -> Error {
        Error { kind, data: ErrorData::Empty }
    }
}

impl Error {
    /// The text of the error: `"keyserver error: "`, the kind, and then `": "`
    /// and what it carries, unless it carries nothing.
    pub open spec fn text(&self) -> Seq<char> {
        "keyserver error: "@ + self.kind.text() + match self.data {
            ErrorData::Source(s) => ": "@ + s@,
            ErrorData::Message(m) => ": "@ + m@,
            ErrorData::Empty => Seq::<char>::empty(),
        }
    }

    /// The kind of the error.
    pub fn kind(&self) -> (res: ErrorKind)
        ensures
            res == self.kind,
    {
        self.kind
    }

    /// The text of the error (see `text`).
    pub fn describe(&self) -> (res: String)
        ensures
            res@ == self.text(),
    {
        let mut out: Vec<char> = Vec::new();
        let head = chars_of("keyserver error: ");
        push_all(&mut out, head.as_slice());
        let kind = chars_of(self.kind.describe().as_str());
        push_all(&mut out, kind.as_slice());
        match &self.data {
            ErrorData::Source(s) => {
                push_all(&mut out, &[':', ' ']);
                let rest = chars_of(s.as_str());
                push_all(&mut out, rest.as_slice());
            },
            ErrorData::Message(m) => {
                push_all(&mut out, &[':', ' ']);
                let rest = chars_of(m.as_str());
                push_all(&mut out, rest.as_slice());
            },
            ErrorData::Empty => {},
        }
        proof {
            reveal_strlit("keyserver error: ");
            reveal_strlit(": ");
            assert(out@ =~= self.text());
        }
        string_from_chars(out.as_slice())
    }
}

/// What `reqwest::Url` makes of resolving `reference` against the URL
/// `base`: the text of the resolved URL, or the text of the parse error.
pub uninterp spec fn url_joined(base: Seq<char>, reference: Seq<char>) -> Result<Seq<char>, Seq<char>>;

/// Resolves `reference` against the URL `base`.
///
/// Trusted: calls `reqwest::Url::join` on the URL `reqwest::Url::parse`
/// makes of `base`, and gives the resulting URL's text, or the text of the
/// parse error of either step. Both are functions of their arguments alone.
#[verifier::external_body]
fn join_url(base: &str, reference: &str) -> (res: Result<String, String>)
    ensures
        match res {
            Ok(u) => url_joined(base@, reference@) == Ok::<Seq<char>, Seq<char>>(u@),
            Err(e) => url_joined(base@, reference@) == Err::<Seq<char>, Seq<char>>(e@),
        },
{
    match reqwest::Url::parse(base) {
        Ok(u) => match u.join(reference) {
            Ok(joined) => Ok(joined.to_string()),
            Err(e) => Err(e.to_string()),
        },
        Err(e) => Err(e.to_string()),
    }
}

/// Whether `e` is of the kind `kind` and carries the message `m`.
pub open spec fn carries_message(e: Error, kind: ErrorKind, m: Seq<char>) -> bool {
    &&& e.kind == kind
    &&& e.data matches ErrorData::Message(s) && s@ == m
}

/// Whether `e` is of the kind `kind` and was caused by an error whose text
/// is `t`.
pub open spec fn caused_by(e: Error, kind: ErrorKind, t: Seq<char>) -> bool {
    &&& e.kind == kind
    &&& e.data matches ErrorData::Source(s) && s@ == t
}

/// The message given when a keyserver URL does not end with `/`.
pub open spec fn missing_slash_message(url: Seq<char>) -> Seq<char> {
    "URL does not end with `/`: "@ + debug_text(url)
}

/// An HTTP keyserver: the URLs of the servers that hold the public keys,
/// asked in order, and the timeout of a request.
#[derive(Debug, Clone)]
pub struct HttpKeyserver {
    urls: Vec<String>,
    timeout: Option<std::time::Duration>,
}

impl HttpKeyserver {
    /// The URLs of the servers, in the order they are asked.
    pub closed spec fn urls(&self) -> Seq<Seq<char>> {
        self.urls@.map_values(|u: String| u@)
    }

    /// The timeout of a request; `None` for the client's default.
    pub closed spec fn timeout(&self) -> Option<std::time::Duration> {
        self.timeout
    }

    /// A keyserver asking the given servers in order, with the client's
    /// default timeout.
    pub fn new(urls: Vec<String>) -> (res: HttpKeyserver)
        ensures
            res.urls() == urls@.map_values(|u: String| u@),
            res.timeout() is None,
    {
        HttpKeyserver { urls, timeout: None }
    }

    /// Adds a server, asked after the others.
    pub fn append_url(&mut self, url: String)
        ensures
            final(self).urls() == old(self).urls().push(url@),
            final(self).timeout() == old(self).timeout(),
    {
        self.urls.push(url);
        proof {
            assert(self.urls() =~= old(self).urls().push(url@));
        }
    }

    /// Sets the timeout of a request; a zero timeout restores the client's
    /// default.
    pub fn set_timeout(&mut self, timeout: std::time::Duration)
        ensures
            final(self).urls() == old(self).urls(),
            final(self).timeout() == if duration_nanos(timeout) == 0 {
                None
            } else {
                Some(timeout)
            },
    {
        if duration_as_nanos(&timeout) == 0 {
            self.timeout = None;
        } else {
            self.timeout = Some(timeout);
        }
    }

    /// The timeout of a request; `None` for the client's default.
    pub fn request_timeout(&self) -> (res: Option<std::time::Duration>)
        ensures
            res == self.timeout(),
    {
        self.timeout
    }

    /// The number of servers.
    pub fn url_count(&self) -> (res: usize)
        ensures
            res == self.urls().len(),
    {
        self.urls.len()
    }

    /// What to do next in a lookup of a key, after `tried` servers were
    /// asked and the last one answered `last`: a key that came back ends the
    /// lookup; otherwise the next server is asked, and when none is left
    /// the lookup fails with `KeyNotFound`.
    pub fn next_lookup(&self, tried: usize, last: Option<Result<PublicKey, Error>>) -> (res: KeyLookup)
        requires
            tried <= self.urls().len(),
        ensures
            match last {
                Some(Ok(k)) => res matches KeyLookup::Done(Ok(r)) && r@ == k@,
                _ => if tried < self.urls().len() {
                    res matches KeyLookup::Fetch(u) && u@ == self.urls()[tried as int]
                } else {
                    res matches KeyLookup::Done(Err(e)) && e.kind == ErrorKind::KeyNotFound && e.data is Empty
                },
            },
    {
        match last {
            Some(Ok(k)) => KeyLookup::Done(Ok(k)),
            _ => {
                if tried < self.urls.len() {
                    KeyLookup::Fetch(self.urls[tried].clone())
                } else {
                    KeyLookup::Done(Err(Error::from(ErrorKind::KeyNotFound)))
                }
            },
        }
    }
}

/// The next step of a key lookup.
#[derive(Debug)]
pub enum KeyLookup {
    /// Ask the server at this URL for the key.
    Fetch(String),
    /// The lookup is over.
    Done(Result<PublicKey, Error>),
}

/// The URL of the key `kid` on the server at `server_url`: the server's URL
/// must end with `/` (`InvalidConfig` with a message otherwise), and `kid`
/// is resolved against it (`InvalidConfig` caused by the URL error when
/// that fails).
pub fn key_url(server_url: &str, kid: &str) -> (res: Result<String, Error>)
    ensures
        server_url@.len() == 0 || server_url@.last() != '/' ==> (res matches Err(e) && carries_message(
            e,
            ErrorKind::InvalidConfig,
            missing_slash_message(server_url@),
        )),
        server_url@.len() > 0 && server_url@.last() == '/' ==> match url_joined(server_url@, kid@) {
            Ok(u) => res matches Ok(r) && r@ == u,
            Err(t) => res matches Err(e) && caused_by(e, ErrorKind::InvalidConfig, t),
        },
{
    let chars = chars_of(server_url);
    if chars.len() == 0 || chars[chars.len() - 1] != '/' {
        let mut text: Vec<char> = Vec::new();
        let head = chars_of("URL does not end with `/`: ");
        push_all(&mut text, head.as_slice());
        let quoted = chars_of(debug_quoted(server_url).as_str());
        push_all(&mut text, quoted.as_slice());
        let message = string_from_chars(text.as_slice());
        proof {
            reveal_strlit("URL does not end with `/`: ");
            assert(message@ =~= missing_slash_message(server_url@));
        }
        return Err(ErrorKind::InvalidConfig.message(message));
    }
    match join_url(server_url, kid) {
        Ok(u) => Ok(u),
        Err(t) => Err(ErrorKind::InvalidConfig.source(t)),
    }
}

/// The error for a request that failed: `KeyNotFound` when the server
/// answered 404, and otherwise `InvalidResponse` caused by the request's
/// error, given by its text.
pub fn request_failure(status: Option<u16>, error: String) -> (res: Error)
    ensures
        status == Some(404u16) ==> res.kind == ErrorKind::KeyNotFound && res.data is Empty,
        status != Some(404u16) ==> res.kind == ErrorKind::InvalidResponse && res.data == ErrorData::Source(error),
{
    match status {
        Some(code) => {
            if code == 404 {
                return Error::from(ErrorKind::KeyNotFound);
            }
        },
        None => {},
    }
    ErrorKind::InvalidResponse.source(error)
}

} // verus!
