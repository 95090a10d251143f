//! The decisions of the keyserver that serves public keys from a directory
//! in tests: which request gets what answer.

use vstd::prelude::*;
use crate::text::{chars_of, str_equal, string_from_chars};

verus! {

/// What a request asks for.
#[derive(Debug)]
pub enum KeyRoute {
    /// The number of keys served so far.
    Count,
    /// The key file at this path, under the keys directory.
    KeyFile(String),
    /// Nothing this server serves.
    NotFound,
}

/// A request path without its leading slashes: the path relative to the
/// root.
pub open spec fn relative_path(path: Seq<char>) -> Seq<char>
    decreases path.len(),
{
    if path.len() > 0 && path[0] == '/' {
        relative_path(path.drop_first())
    } else {
        path
    }
}

/// The route of a request: `GET /count` asks for the count, any other `GET`
/// for the key file at its path relative to the root (without its leading
/// slashes), and any other method for nothing.
pub fn route(is_get: bool, path: &str) -> (res: KeyRoute)
    ensures
        !is_get ==> res is NotFound,
        is_get && path@ == "/count"@ ==> res is Count,
        is_get && path@ != "/count"@ ==> (res matches KeyRoute::KeyFile(f) && f@ == relative_path(path@)),
{
    if !is_get {
        return KeyRoute::NotFound;
    }
    if str_equal(path, "/count") {
        return KeyRoute::Count;
    }
    let chars = chars_of(path);
    let mut start: usize = 0;
    assert(chars@.skip(0) =~= chars@);
    while start < chars.len() && chars[start] == '/'
        invariant
            start <= chars@.len(),
            relative_path(chars@.skip(start as int)) == relative_path(path@),
            chars@ == path@,
        decreases chars@.len() - start,
    {
        assert(chars@.skip(start as int).drop_first() =~= chars@.skip(start + 1));
        start = start + 1;
    }
    assert(relative_path(chars@.skip(start as int)) == chars@.skip(start as int));
    let mut rest: Vec<char> = Vec::new();
    let mut i: usize = start;
    while i < chars.len()
        invariant
            start <= i <= chars@.len(),
            rest@ == chars@.subrange(start as int, i as int),
        decreases chars@.len() - i,
    {
        rest.push(chars[i]);
        assert(chars@.subrange(start as int, i + 1) =~= chars@.subrange(start as int, i as int).push(
            chars@[i as int],
        ));
        i = i + 1;
    }
    assert(rest@ =~= chars@.skip(start as int));
    KeyRoute::KeyFile(string_from_chars(rest.as_slice()))
}

/// How reading a key file went.
#[derive(Debug)]
pub enum FileRead {
    /// The file's contents.
    Found(Vec<u8>),
    /// There is no such file.
    Missing,
    /// The file could not be read for another reason.
    Failed,
}

/// The HTTP status of the answer to a key request, and whether it counts as
/// a key served: 200 and counted for a file read, 404 for a missing file,
/// 500 for a file that could not be read.
pub fn key_answer(read: &FileRead) -> (res: (u16, bool))
    ensures
        read is Found ==> res == (200u16, true),
        read is Missing ==> res == (404u16, false),
        read is Failed ==> res == (500u16, false),
{
    match read {
        FileRead::Found(_) => (200, true),
        FileRead::Missing => (404, false),
        FileRead::Failed => (500, false),
    }
}

} // verus!
