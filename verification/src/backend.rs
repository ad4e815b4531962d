//! What the host is told: which image a URL asks for, the identity tag of an
//! answer, whether the client's copy is still good, and the response.

use vstd::prelude::*;
use vstd::string::*;

use crate::config::Config;
use crate::error::Error;
use crate::negotiation::{no_preference, states_no_preference};
use crate::pattern::{regex_capture, run_capture};
use crate::resolver::{FetchResult, Timestamp};
use crate::text::{str_eq, string_of};

verus! {

/// The hash of what identifies an answer, as the standard library's default
/// hasher computes it.
pub uninterp spec fn identity_hash(inode: u64, size: u64, seconds: i64, is_optimized: bool) -> u64;

/// The hash of a path, as the standard library's default hasher computes it.
pub uninterp spec fn path_hash(path: Seq<char>) -> u64;

/// The instant that a date in the format of RFC 2822 names, in seconds and
/// nanoseconds since the epoch; `None` where the text is no such date.
pub uninterp spec fn rfc2822_instant(text: Seq<char>) -> Option<(i64, u32)>;

/// An instant as an HTTP date; `None` where the calendar of the `chrono`
/// crate does not reach it.
pub uninterp spec fn http_date(seconds: i64) -> Option<Seq<char>>;

/// A percent-encoded text, decoded; `None` where the decoded bytes are not
/// UTF-8.
pub uninterp spec fn url_decoded(raw: Seq<char>) -> Option<Seq<char>>;

/// Hashes what identifies an answer.
///
/// Trusted: `Hash::hash` of the tuple of the four values (the size as a
/// `usize`) into `DefaultHasher::new()`, and `Hasher::finish`, of the standard
/// library. The hasher starts from fixed keys, so the result depends on the
/// four values alone.
#[verifier::external_body]
fn hash_identity(inode: u64, size: u64, seconds: i64, is_optimized: bool) -> (r: u64)
    ensures
        r == identity_hash(inode, size, seconds, is_optimized),
{
    let mut hasher = std::hash::DefaultHasher::new();
    std::hash::Hash::hash(&(inode, size as usize, seconds, is_optimized), &mut hasher);
    std::hash::Hasher::finish(&hasher)
}

/// Hashes a path.
///
/// Trusted: `Hash::hash` of the text into `DefaultHasher::new()`, and
/// `Hasher::finish`, of the standard library. The hasher starts from fixed
/// keys, so the result depends on the text alone.
#[verifier::external_body]
fn hash_path(path: &str) -> (r: u64)
    ensures
        r == path_hash(path@),
{
    let mut hasher = std::hash::DefaultHasher::new();
    std::hash::Hash::hash(path, &mut hasher);
    std::hash::Hasher::finish(&hasher)
}

/// Reads a date in the format of RFC 2822.
///
/// Trusted: `DateTime::parse_from_rfc2822` of the `chrono` crate, and on its
/// result `timestamp` and `timestamp_subsec_nanos`.
#[verifier::external_body]
fn parse_rfc2822(text: &str) -> (r: Option<(i64, u32)>)
    ensures
        r == rfc2822_instant(text@),
{
    match chrono::DateTime::parse_from_rfc2822(text) {
        Ok(instant) => Some((instant.timestamp(), instant.timestamp_subsec_nanos())),
        Err(_) => None,
    }
}

/// Writes an instant as an HTTP date.
///
/// Trusted: `DateTime::from_timestamp` of the `chrono` crate and, on its
/// result, `format` with the pattern of an HTTP date.
#[verifier::external_body]
fn format_http_date(seconds: i64) -> (r: Option<String>)
    ensures
        match r {
            Some(text) => http_date(seconds) == Some(text@),
            None => http_date(seconds) is None,
        },
{
    let instant = chrono::DateTime::from_timestamp(seconds, 0)?;
    Some(instant.format("%a, %d %b %Y %H:%M:%S GMT").to_string())
}

/// Decodes a percent-encoded text; an error comes back as its message.
///
/// Trusted: `urlencoding::decode`. Nothing is claimed of the message.
#[verifier::external_body]
fn decode_url(raw: &str) -> (r: Result<String, String>)
    ensures
        match r {
            Ok(text) => url_decoded(raw@) == Some(text@),
            Err(_) => url_decoded(raw@) is None,
        },
{
    match urlencoding::decode(raw) {
        Ok(text) => Ok(text.into_owned()),
        Err(e) => Err(e.to_string()),
    }
}

/// The decimal digit for `d`.
pub open spec fn digit(d: int) -> char {
    if d == 0 {
        '0'
    } else if d == 1 {
        '1'
    } else if d == 2 {
        '2'
    } else if d == 3 {
        '3'
    } else if d == 4 {
        '4'
    } else if d == 5 {
        '5'
    } else if d == 6 {
        '6'
    } else if d == 7 {
        '7'
    } else if d == 8 {
        '8'
    } else {
        '9'
    }
}

/// `n` in decimal, without leading zeros.
pub open spec fn decimal(n: nat) -> Seq<char>
    decreases n,
{
    if n < 10 {
        seq![digit(n as int)]
    } else {
        decimal(n / 10).push(digit((n % 10) as int))
    }
}

/// The identity tag of an answer: the hash of the source's inode, the length
/// of the file, the second of its last change and whether it is a variant, in
/// decimal.
pub open spec fn identity_tag(result: FetchResult) -> Seq<char> {
    decimal(
        identity_hash(
            result.inode,
            result.size,
            result.last_modified.seconds,
            result.is_optimized,
        ) as nat,
    )
}

/// Whether the instant `t` lies after `m`.
pub open spec fn later_than(t: (i64, u32), m: Timestamp) -> bool {
    t.0 > m.seconds || (t.0 == m.seconds && t.1 > m.nanoseconds)
}

/// Whether the client's copy is still good. A tag that the client sends
/// decides alone: it must be the tag of the answer, weak or strong. Without
/// one, the date that the client sends must lie after the last change.
pub open spec fn not_modified(
    if_none_match: Option<Seq<char>>,
    if_modified_since: Option<Seq<char>>,
    tag: Seq<char>,
    last_modified: Timestamp,
) -> bool {
    match if_none_match {
        Some(value) => value == tag || value == "W/"@ + tag,
        None => match if_modified_since {
            Some(date) => match rfc2822_instant(date) {
                Some(t) => later_than(t, last_modified),
                None => false,
            },
            None => false,
        },
    }
}

/// The status of the response: 405 for a method other than GET and HEAD, 304
/// where the client's copy is still good, 200 otherwise.
pub open spec fn status_of(method: Seq<char>, unchanged: bool) -> int {
    if method != "GET"@ && method != "HEAD"@ {
        405
    } else if unchanged {
        304
    } else {
        200
    }
}

/// What the response says of caching: a variant never changes, the source may
/// be replaced by a variant at any time.
pub open spec fn cache_control_of(is_optimized: bool) -> Seq<char> {
    if is_optimized {
        "public, max-age=31536000, immutable"@
    } else {
        "no-cache"@
    }
}

/// The text of an optional string.
pub open spec fn text_of(value: Option<&str>) -> Option<Seq<char>> {
    match value {
        Some(s) => Some(s@),
        None => None,
    }
}

/// The response to a request that was resolved.
#[derive(Debug)]
pub struct Response {
    pub status: u16,
    /// The headers, name and value.
    pub headers: Vec<(String, String)>,
    /// Whether the bytes of the file follow.
    pub send_body: bool,
}

impl Response {
    /// The response to a request for what the engine does not have: 404,
    /// without headers and without body.
    pub fn not_found() -> (r: Response)
        ensures
            r.status == 404,
            r.headers@.len() == 0,
            !r.send_body,
    {
        Response { status: 404, headers: Vec::new(), send_body: false }
    }

    /// The response to a request that failed: 500, with the message of the
    /// error in the header `error`, and without body.
    pub fn failure(error: &Error) -> (r: Response)
        ensures
            r.status == 500,
            r.headers@.len() == 1,
            r.headers@[0].0@ == "error"@,
            r.headers@[0].1@ == error.message(),
            !r.send_body,
    {
        let mut headers: Vec<(String, String)> = Vec::new();
        headers.push((String::from_str("error"), error.to_string()));
        Response { status: 500, headers, send_body: false }
    }
}

fn digit_char(d: u64) -> (c: char)
    requires
        d < 10,
    ensures
        c == digit(d as int),
{
    if d == 0 {
        '0'
    } else if d == 1 {
        '1'
    } else if d == 2 {
        '2'
    } else if d == 3 {
        '3'
    } else if d == 4 {
        '4'
    } else if d == 5 {
        '5'
    } else if d == 6 {
        '6'
    } else if d == 7 {
        '7'
    } else if d == 8 {
        '8'
    } else {
        '9'
    }
}

fn push_decimal(n: u64, out: &mut Vec<char>)
    ensures
        final(out)@ == old(out)@ + decimal(n as nat),
    decreases n,
{
    if n >= 10 {
        push_decimal(n / 10, out);
        out.push(digit_char(n % 10));
        assert(out@ =~= old(out)@ + decimal(n as nat));
    } else {
        out.push(digit_char(n));
        assert(out@ =~= old(out)@ + decimal(n as nat));
    }
}

/// `n` in decimal.
pub fn to_decimal(n: u64) -> (r: String)
    ensures
        r@ == decimal(n as nat),
{
    let mut digits: Vec<char> = Vec::new();
    push_decimal(n, &mut digits);
    assert(digits@ =~= decimal(n as nat));
    string_of(&digits)
}

/// The `Accept` header as the resolver takes it: `None` where the client
/// states no preference.
pub fn parse_accept_header(header: Option<&str>) -> (r: Option<String>)
    ensures
        match r {
            Some(accept) => header is Some && accept@ == header->0@ && !no_preference(
                text_of(header),
            ),
            None => no_preference(text_of(header)),
        },
{
    if states_no_preference(header) {
        None
    } else {
        match header {
            Some(accept) => Some(String::from_str(accept)),
            None => None,
        }
    }
}

/// What identifies the source of an answer from one request to the next: the
/// inode of the source where the file system gives one, else the hash of its
/// path.
pub fn stable_source_id(inode: Option<u64>, source_path: &str) -> (r: u64)
    ensures
        r == match inode {
            Some(number) => number,
            None => path_hash(source_path@),
        },
{
    match inode {
        Some(number) => number,
        None => hash_path(source_path),
    }
}

/// The identity tag of an answer. It is a function of the four values that
/// it is made of: as long as none of them changes, the tag is the same text.
pub fn generate_etag(result: &FetchResult) -> (r: String)
    ensures
        r@ == identity_tag(*result),
{
    to_decimal(
        hash_identity(
            result.inode,
            result.size,
            result.last_modified.seconds,
            result.is_optimized,
        ),
    )
}

/// Whether the client's copy is still good, and the identity tag of the
/// answer.
pub fn process_cache_headers(
    if_none_match: Option<&str>,
    if_modified_since: Option<&str>,
    result: &FetchResult,
) -> (r: (bool, String))
    ensures
        r.1@ == identity_tag(*result),
        r.0 == not_modified(
            text_of(if_none_match),
            text_of(if_modified_since),
            identity_tag(*result),
            result.last_modified,
        ),
{
    let etag = generate_etag(result);
    match if_none_match {
        Some(value) => {
            let mut weak = String::from_str("W/");
            weak.append(etag.as_str());
            let unchanged = str_eq(value, etag.as_str()) || str_eq(value, weak.as_str());
            (unchanged, etag)
        },
        None => match if_modified_since {
            Some(date) => match parse_rfc2822(date) {
                Some(t) => {
                    let later = t.0 > result.last_modified.seconds || (t.0
                        == result.last_modified.seconds && t.1 > result.last_modified.nanoseconds);
                    (later, etag)
                },
                None => (false, etag),
            },
            None => (false, etag),
        },
    }
}

/// The image that a URL asks for: the name of the size profile and the
/// image-id, as the URL template of the configuration captures them from the
/// decoded URL. `Ok(None)` says that the URL is none of the engine's.
pub fn locate(config: &Config, raw_url: &str) -> (r: Result<Option<(String, String)>, Error>)
    ensures
        match r {
            Ok(Some(found)) => {
                &&& config.url_regex matches Some(pattern)
                &&& url_decoded(raw_url@) matches Some(url)
                &&& regex_capture(pattern@, url, "size"@) == Some(found.0@)
                &&& regex_capture(pattern@, url, "path"@) == Some(found.1@)
            },
            Ok(None) => {
                &&& config.url_regex matches Some(pattern)
                &&& url_decoded(raw_url@) matches Some(url)
                &&& (regex_capture(pattern@, url, "size"@) is None || regex_capture(
                    pattern@,
                    url,
                    "path"@,
                ) is None)
            },
            Err(e) => if url_decoded(raw_url@) is None {
                e is Other
            } else {
                config.url_regex is None && e is Custom && e.message()
                    == "Badly initialized config"@
            },
        },
{
    let url = match decode_url(raw_url) {
        Ok(url) => url,
        Err(message) => {
            return Err(Error::Other(message));
        },
    };
    let pattern = match &config.url_regex {
        Some(pattern) => pattern,
        None => {
            return Error::err("Badly initialized config");
        },
    };
    let size = match run_capture(pattern.as_str(), url.as_str(), "size") {
        Some(size) => size,
        None => {
            return Ok(None);
        },
    };
    match run_capture(pattern.as_str(), url.as_str(), "path") {
        Some(path) => Ok(Some((size, path))),
        None => Ok(None),
    }
}

/// The response to a request that was resolved: its status, its headers, and
/// whether the bytes follow (for a GET that is answered with 200).
pub fn respond(
    method: &str,
    if_none_match: Option<&str>,
    if_modified_since: Option<&str>,
    result: &FetchResult,
) -> (r: Result<Response, Error>)
    ensures
        match r {
            Ok(response) => {
                let unchanged = not_modified(
                    text_of(if_none_match),
                    text_of(if_modified_since),
                    identity_tag(*result),
                    result.last_modified,
                );
                &&& response.status == status_of(method@, unchanged)
                &&& response.send_body == (method@ == "GET"@ && !unchanged)
                &&& response.headers@.len() == 6
                &&& response.headers@[0].0@ == "ETag"@
                &&& response.headers@[0].1@ == identity_tag(*result)
                &&& response.headers@[1].0@ == "Last-Modified"@
                &&& http_date(result.last_modified.seconds) == Some(response.headers@[1].1@)
                &&& response.headers@[2].0@ == "Content-Length"@
                &&& response.headers@[2].1@ == decimal(result.size as nat)
                &&& response.headers@[3].0@ == "Content-Type"@
                &&& response.headers@[3].1@ == result.mime@
                &&& response.headers@[4].0@ == "Vary"@
                &&& response.headers@[4].1@ == "Accept"@
                &&& response.headers@[5].0@ == "Cache-Control"@
                &&& response.headers@[5].1@ == cache_control_of(result.is_optimized)
            },
            Err(e) => http_date(result.last_modified.seconds) is None && e is Custom && e.message()
                == "Last-Modified out of range"@,
        },
{
    let (unchanged, etag) = process_cache_headers(if_none_match, if_modified_since, result);
    let date = match format_http_date(result.last_modified.seconds) {
        Some(date) => date,
        None => {
            return Error::err("Last-Modified out of range");
        },
    };
    let cache_control = if result.is_optimized {
        "public, max-age=31536000, immutable"
    } else {
        "no-cache"
    };
    let mut headers: Vec<(String, String)> = Vec::new();
    headers.push((String::from_str("ETag"), etag));
    headers.push((String::from_str("Last-Modified"), date));
    headers.push((String::from_str("Content-Length"), to_decimal(result.size)));
    headers.push((String::from_str("Content-Type"), result.mime.clone()));
    headers.push((String::from_str("Vary"), String::from_str("Accept")));
    headers.push((String::from_str("Cache-Control"), String::from_str(cache_control)));
    let is_get = str_eq(method, "GET");
    let is_head = str_eq(method, "HEAD");
    let status: u16 = if !is_get && !is_head {
        405
    } else if unchanged {
        304
    } else {
        200
    };
    Ok(Response { status, headers, send_body: is_get && !unchanged })
}

} // verus!
