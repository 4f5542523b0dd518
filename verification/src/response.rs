//! What a server answers: a status line, header lines and a body.

use crate::error::HttpClientError;
use crate::text::{
    chars_of, find, first_occurrence, parse_decimal, parse_unsigned, run_end, run_length, trim,
    trim_bounds,
};
use vstd::prelude::*;
use vstd::string::*;

verus! {

/// A decoded reply.
#[derive(Debug, PartialEq, Eq)]
pub struct Response {
    /// The status code of the first line.
    pub status: u16,
    /// The headers in the order in which they arrived, names in lower case.
    pub headers: Vec<(String, String)>,
    /// The body; `None` where the reply declared a length of zero.
    pub body: Option<Vec<u8>>,
}

/// A [`Response`] as plain mathematical values.
pub struct ResponseView {
    pub status: u16,
    pub headers: Seq<(Seq<char>, Seq<char>)>,
    pub body: Option<Seq<u8>>,
}

impl View for Response {
    type V = ResponseView;

    open spec fn view(&self) -> ResponseView {
        ResponseView {
            status: self.status,
            headers: self.headers.deep_view(),
            body: match self.body {
                Some(b) => Some(b@),
                None => None,
            },
        }
    }
}

/// How the end of a body is found.
#[derive(Debug, Clone, Copy, PartialEq, Eq, Structural)]
pub enum BodyLength {
    /// A length of zero was declared: there is no body to read.
    Absent,
    /// A length was declared: the body is exactly that many bytes.
    FixedLength(usize),
    /// No length was declared: the body is all that arrives until the peer
    /// closes the connection.
    ReadToClose,
}

/// `s` without its leading run of white space (`ws == true`) or of other
/// characters (`ws == false`).
pub open spec fn drop_run(s: Seq<char>, ws: bool) -> Seq<char> {
    s.skip(run_length(s, ws) as int)
}

/// The second of the tokens that white space separates in `line`; empty where
/// the line has fewer than two.
pub open spec fn second_token(line: Seq<char>) -> Seq<char> {
    let from_second = drop_run(drop_run(drop_run(line, true), false), true);
    from_second.take(run_length(from_second, false) as int)
}

/// The status code of a status line: its second token, read as a 16-bit
/// decimal number.
pub open spec fn status_code(line: Seq<char>) -> Option<u16> {
    match parse_unsigned(second_token(line), 0xffff) {
        Some(code) => Some(code as u16),
        None => None,
    }
}

/// What `str::to_lowercase` makes of a text.
pub uninterp spec fn lowercase(s: Seq<char>) -> Seq<char>;

/// The header that a line holds: the lower-cased text before its first `:`
/// and the trimmed text after it. A line without `:` holds none.
pub open spec fn header_of(line: Seq<char>) -> Option<(Seq<char>, Seq<char>)> {
    match first_occurrence(line, ":"@) {
        Some(i) => Some((lowercase(line.take(i)), trim(line.skip(i + 1)))),
        None => None,
    }
}

/// The length that a header declares for the body, where the header is a
/// `content-length`: `Some(None)` stands for a value that is no number.
pub open spec fn length_declared_by(name: Seq<char>, value: Seq<char>) -> Option<Option<nat>> {
    if name == "content-length"@ {
        Some(parse_unsigned(value, usize::MAX as nat))
    } else {
        None
    }
}

/// The length that a list of headers declares for the body: that of its last
/// `content-length`.
pub open spec fn declared_length(headers: Seq<(Seq<char>, Seq<char>)>) -> Option<nat>
    decreases headers.len(),
{
    if headers.len() == 0 {
        None
    } else {
        match length_declared_by(headers.last().0, headers.last().1) {
            Some(length) => length,
            None => declared_length(headers.drop_last()),
        }
    }
}

/// Of several `content-length` headers the last one counts.
pub proof fn lemma_last_content_length_counts(
    headers: Seq<(Seq<char>, Seq<char>)>,
    value: Seq<char>,
)
    ensures
        declared_length(headers.push(("content-length"@, value))) == parse_unsigned(
            value,
            usize::MAX as nat,
        ),
{
}

/// A header of another name leaves the declared length as it was.
pub proof fn lemma_other_header_keeps_length(
    headers: Seq<(Seq<char>, Seq<char>)>,
    name: Seq<char>,
    value: Seq<char>,
)
    requires
        name != "content-length"@,
    ensures
        declared_length(headers.push((name, value))) == declared_length(headers),
{
    assert(headers.push((name, value)).drop_last() =~= headers);
}

/// A declared length fits in a `usize`.
pub proof fn lemma_declared_length_fits(headers: Seq<(Seq<char>, Seq<char>)>)
    ensures
        declared_length(headers) matches Some(n) ==> n <= usize::MAX,
    decreases headers.len(),
{
    if headers.len() > 0 {
        lemma_declared_length_fits(headers.drop_last());
    }
}

/// How the body is read after headers that declare `length`.
pub open spec fn body_length_for(length: Option<nat>) -> BodyLength {
    match length {
        Some(n) => if n == 0 {
            BodyLength::Absent
        } else {
            BodyLength::FixedLength(n as usize)
        },
        None => BodyLength::ReadToClose,
    }
}

impl ResponseView {
    /// The body is what the headers announce: absent exactly where they
    /// declare a length of zero, and of the declared length where they
    /// declare another.
    pub open spec fn is_consistent(self) -> bool {
        match declared_length(self.headers) {
            Some(n) => if n == 0 {
                self.body is None
            } else {
                self.body matches Some(b) && b.len() == n
            },
            None => self.body is Some,
        }
    }
}

/// Reads the status code off the first line of a reply.
pub fn parse_status_line(line: &str) -> (r: Result<u16, HttpClientError>)
    ensures
        match r {
            Ok(code) => status_code(line@) == Some(code),
            Err(e) => e == HttpClientError::InvalidHttpStatusLine && status_code(line@) is None,
        },
{
    let chars = chars_of(line);
    let n = chars.len();
    let first = run_end(&chars, 0, n, true);
    let first_end = run_end(&chars, first, n, false);
    let second = run_end(&chars, first_end, n, true);
    let second_end = run_end(&chars, second, n, false);
    proof {
        let s0 = line@;
        assert(chars@.subrange(0, n as int) =~= s0);
        let s1 = drop_run(s0, true);
        assert(s1 =~= chars@.subrange(first as int, n as int));
        let s2 = drop_run(s1, false);
        assert(s2 =~= chars@.subrange(first_end as int, n as int));
        let s3 = drop_run(s2, true);
        assert(s3 =~= chars@.subrange(second as int, n as int));
        assert(second_token(s0) =~= chars@.subrange(second as int, second_end as int));
    }
    match parse_decimal(&chars, second, second_end, 0xffff) {
        Some(code) => Ok(code as u16),
        None => Err(HttpClientError::InvalidHttpStatusLine),
    }
}

/// `str::to_lowercase` of the standard library: the contract gives its result
/// the name [`lowercase`] and claims nothing else of it.
#[verifier::external_body]
fn to_lowercase(s: &str) -> (r: String)
    ensures
        r@ == lowercase(s@),
{
    s.to_lowercase()
}

/// Splits a header line into its name and value; `None` for a line without
/// `:`, which ends the headers.
pub fn parse_header_line(line: &str) -> (r: Option<(String, String)>)
    ensures
        match r {
            Some(header) => header_of(line@) == Some((header.0@, header.1@)),
            None => header_of(line@) is None,
        },
{
    proof {
        reveal_strlit(":");
    }
    let chars = chars_of(line);
    let n = chars.len();
    let colon = chars_of(":");
    assert(chars@.subrange(0, n as int) =~= line@);
    match find(&chars, 0, n, &colon) {
        None => None,
        Some(i) => {
            let (from, to) = trim_bounds(&chars, i + 1, n);
            assert(line@.skip(i + 1) =~= chars@.subrange(i + 1, n as int));
            assert(line@.take(i as int) =~= line@.subrange(0, i as int));
            let name = to_lowercase(line.substring_char(0, i));
            let value = line.substring_char(from, to).to_owned();
            Some((name, value))
        },
    }
}

/// The length that one header declares for the body: `Ok(None)` where the
/// header is no `content-length`, an error where it is one and its value is
/// no number.
pub fn content_length_of(name: &str, value: &str) -> (r: Result<Option<usize>, HttpClientError>)
    ensures
        match r {
            Ok(Some(n)) => length_declared_by(name@, value@) == Some(Some(n as nat)),
            Ok(None) => length_declared_by(name@, value@) is None,
            Err(e) => e == HttpClientError::InvalidContentLength && length_declared_by(
                name@,
                value@,
            ) == Some(None::<nat>),
        },
{
    if name.to_owned() != "content-length".to_owned() {
        return Ok(None);
    }
    let chars = chars_of(value);
    let n = chars.len();
    assert(chars@.subrange(0, n as int) =~= value@);
    match parse_decimal(&chars, 0, n, usize::MAX as u64) {
        Some(length) => Ok(Some(length as usize)),
        None => Err(HttpClientError::InvalidContentLength),
    }
}

/// Decides how the body is read once the headers have ended.
pub fn body_length(content_length: Option<usize>) -> (r: BodyLength)
    ensures
        r == body_length_for(
            match content_length {
                Some(n) => Some(n as nat),
                None => None,
            },
        ),
{
    match content_length {
        Some(0) => BodyLength::Absent,
        Some(n) => BodyLength::FixedLength(n),
        None => BodyLength::ReadToClose,
    }
}

} // verus!
