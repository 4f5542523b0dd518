//! Absolute URLs of the shape `scheme://host[:port][/path]`.

use crate::text::{
    chars_of, find, first_occurrence, is_digit, lemma_first_char, lemma_first_occurrence,
    lemma_first_occurrence_is_first, lemma_no_char, occurs_at, parse_decimal, parse_unsigned,
    unsigned_digits,
};
use vstd::prelude::*;
use vstd::string::*;

verus! {

/// The parts of an absolute URL.
///
/// Nothing is decoded or validated beyond the split itself: the host may be
/// empty, and a query string stays part of the path.
#[derive(Debug, PartialEq, Eq)]
pub struct URL {
    /// What stands before `://`.
    pub protocol: String,
    /// The number after the host's `:`, where there is one.
    pub port: Option<u16>,
    /// What stands between `://` and the port or path.
    pub host: String,
    /// Everything from the first `/` after the host on, where there is one.
    pub path: Option<String>,
}

/// A [`URL`] as plain mathematical values.
pub struct UrlView {
    pub protocol: Seq<char>,
    pub port: Option<u16>,
    pub host: Seq<char>,
    pub path: Option<Seq<char>>,
}

impl View for URL {
    type V = UrlView;

    open spec fn view(&self) -> UrlView {
        UrlView {
            protocol: self.protocol@,
            port: self.port,
            host: self.host@,
            path: match self.path {
                Some(p) => Some(p@),
                None => None,
            },
        }
    }
}

/// The port that is used where a URL names none.
pub const DEFAULT_PORT: u16 = 80;

/// What `host[:port]` splits into: the host and the port, or `None` where
/// the text after the first `:` is not a 16-bit decimal number.
pub open spec fn parse_authority(authority: Seq<char>) -> Option<(Seq<char>, Option<u16>)> {
    match first_occurrence(authority, ":"@) {
        None => Some((authority, None)),
        Some(k) => match parse_unsigned(authority.skip(k + 1), 0xffff) {
            Some(p) => Some((authority.take(k), Some(p as u16))),
            None => None,
        },
    }
}

/// What a URL splits into. The scheme ends at the first `://`; the path starts
/// at the first `/` after that; what lies between is `host[:port]`.
pub open spec fn parse_url(s: Seq<char>) -> Option<UrlView> {
    match first_occurrence(s, "://"@) {
        None => None,
        Some(i) => {
            let rest = s.skip(i + 3);
            let slash = first_occurrence(rest, "/"@);
            let authority = match slash {
                Some(j) => rest.take(j),
                None => rest,
            };
            let path = match slash {
                Some(j) => Some(rest.skip(j)),
                None => None,
            };
            match parse_authority(authority) {
                Some((host, port)) => Some(UrlView { protocol: s.take(i), port, host, path }),
                None => None,
            }
        },
    }
}

/// `scheme` holds no `://`.
pub open spec fn is_scheme(scheme: Seq<char>) -> bool {
    forall|j: int| !occurs_at(scheme, "://"@, j)
}

/// `host` holds neither `/` nor `:`.
pub open spec fn is_host(host: Seq<char>) -> bool {
    !host.contains('/') && !host.contains(':')
}

/// In a scheme followed by `://` the first `://` is the one that follows.
pub proof fn lemma_scheme_end(scheme: Seq<char>, rest: Seq<char>)
    requires
        is_scheme(scheme),
    ensures
        first_occurrence(scheme + "://"@ + rest, "://"@) == Some(scheme.len() as int),
{
    reveal_strlit("://");
    let sep = "://"@;
    let s = scheme + sep + rest;
    let n = scheme.len() as int;
    assert(s.subrange(n, n + 3) =~= sep);
    assert forall|j: int| 0 <= j < n implies !occurs_at(s, sep, j) by {
        if occurs_at(s, sep, j) {
            let w = s.subrange(j, j + 3);
            if j + 3 <= n {
                assert(scheme.subrange(j, j + 3) =~= w);
                assert(occurs_at(scheme, sep, j));
            } else if j == n - 2 {
                assert(w[2] == s[n]);
            } else {
                assert(w[1] == s[n]);
            }
        }
    }
    lemma_first_occurrence(s, sep, n);
}

/// A URL made of a scheme, `://` and a host has neither port nor path.
pub proof fn lemma_parse_scheme_and_host(scheme: Seq<char>, host: Seq<char>)
    requires
        is_scheme(scheme),
        is_host(host),
    ensures
        parse_url(scheme + "://"@ + host) == Some(
            UrlView { protocol: scheme, port: None, host, path: None },
        ),
{
    reveal_strlit("://");
    reveal_strlit("/");
    reveal_strlit(":");
    let s = scheme + "://"@ + host;
    let n = scheme.len() as int;
    lemma_scheme_end(scheme, host);
    assert(s.skip(n + 3) =~= host);
    assert(s.take(n) =~= scheme);
    assert("/"@ =~= seq!['/']);
    assert(":"@ =~= seq![':']);
    lemma_no_char(host, '/');
    lemma_no_char(host, ':');
}

/// A URL made of a scheme, `://`, a host, `:`, a 16-bit decimal number and a
/// path that begins with `/` splits into exactly these parts.
pub proof fn lemma_parse_scheme_host_port_path(
    scheme: Seq<char>,
    host: Seq<char>,
    port_text: Seq<char>,
    port: u16,
    path: Seq<char>,
)
    requires
        is_scheme(scheme),
        is_host(host),
        parse_unsigned(port_text, 0xffff) == Some(port as nat),
        path.len() > 0,
        path[0] == '/',
    ensures
        parse_url(scheme + "://"@ + host + ":"@ + port_text + path) == Some(
            UrlView { protocol: scheme, port: Some(port), host, path: Some(path) },
        ),
{
    reveal_strlit("://");
    reveal_strlit("/");
    reveal_strlit(":");
    assert("/"@ =~= seq!['/']);
    assert(":"@ =~= seq![':']);
    let rest = host + ":"@ + port_text + path;
    let s = scheme + "://"@ + host + ":"@ + port_text + path;
    let n = scheme.len() as int;
    assert(s =~= scheme + "://"@ + rest);
    lemma_scheme_end(scheme, rest);
    assert(s.skip(n + 3) =~= rest);
    assert(s.take(n) =~= scheme);
    let authority = host + ":"@ + port_text;
    let j = authority.len() as int;
    assert forall|i: int| 0 <= i < j implies rest[i] != '/' by {
        if i < host.len() {
            assert(host.contains(rest[i]));
        } else if i > host.len() {
            let k = i - host.len() - 1;
            assert(rest[i] == port_text[k]);
            let digits = unsigned_digits(port_text);
            if k > 0 || digits == port_text {
                assert(is_digit(digits[k - (port_text.len() - digits.len())]));
            }
        }
    }
    lemma_first_char(rest, '/', j);
    assert(rest.take(j) =~= authority);
    assert(rest.skip(j) =~= path);
    assert forall|i: int| 0 <= i < host.len() implies authority[i] != ':' by {
        assert(host.contains(authority[i]));
    }
    lemma_first_char(authority, ':', host.len() as int);
    assert(authority.skip(host.len() as int + 1) =~= port_text);
    assert(authority.take(host.len() as int) =~= host);
}

/// The path of a URL, where it has one, begins with `/`.
pub proof fn lemma_path_begins_with_slash(s: Seq<char>)
    ensures
        parse_url(s) matches Some(u) ==> (u.path matches Some(p) ==> p.len() > 0 && p[0] == '/'),
{
    reveal_strlit("/");
    if let Some(i) = first_occurrence(s, "://"@) {
        let rest = s.skip(i + 3);
        if let Some(j) = first_occurrence(rest, "/"@) {
            lemma_first_occurrence_is_first(rest, "/"@);
            assert(rest.subrange(j, j + 1)[0] == '/');
        }
    }
}

/// Splits the `host[:port]` that stands in `chars[from..to]`: the index at
/// which the host ends, and the port.
fn split_authority(chars: &Vec<char>, from: usize, to: usize) -> (r: Option<(usize, Option<u16>)>)
    requires
        from <= to <= chars.len(),
    ensures
        match r {
            Some((host_end, port)) => {
                &&& from <= host_end <= to
                &&& parse_authority(chars@.subrange(from as int, to as int)) == Some(
                    (chars@.subrange(from as int, host_end as int), port),
                )
            },
            None => parse_authority(chars@.subrange(from as int, to as int)) is None,
        },
{
    proof {
        reveal_strlit(":");
    }
    let ghost authority = chars@.subrange(from as int, to as int);
    let colon = chars_of(":");
    match find(chars, from, to, &colon) {
        None => {
            assert(authority =~= chars@.subrange(from as int, to as int));
            Some((to, None))
        },
        Some(k) => {
            assert(authority.skip(k - from + 1) =~= chars@.subrange(k + 1, to as int));
            assert(authority.take(k - from) =~= chars@.subrange(from as int, k as int));
            match parse_decimal(chars, k + 1, to, 0xffff) {
                Some(p) => Some((k, Some(p as u16))),
                None => None,
            }
        },
    }
}

impl URL {
    /// Splits `url` into its parts, or returns `None` where it has no `://`
    /// or its port is not a 16-bit decimal number.
    pub fn parse(url: &str) -> (r: Option<URL>)
        ensures
            match r {
                Some(u) => parse_url(url@) == Some(u@),
                None => parse_url(url@) is None,
            },
            r matches Some(u) ==> (u.path matches Some(p) ==> p@.len() > 0 && p@[0] == '/'),
    {
        proof {
            reveal_strlit("://");
            lemma_path_begins_with_slash(url@);
        }
        let chars = chars_of(url);
        let n = chars.len();
        let separator = chars_of("://");
        let slash = chars_of("/");
        assert(chars@.subrange(0, n as int) =~= url@);
        let scheme_end = match find(&chars, 0, n, &separator) {
            Some(i) => i,
            None => { return None; },
        };
        let start = scheme_end + separator.len();
        let ghost rest = url@.skip(start as int);
        assert(rest =~= chars@.subrange(start as int, n as int));
        let found = find(&chars, start, n, &slash);
        let authority_end = match found {
            Some(j) => j,
            None => n,
        };
        proof {
            let authority = chars@.subrange(start as int, authority_end as int);
            if let Some(j) = first_occurrence(rest, "/"@) {
                assert(rest.take(j) =~= authority);
                assert(rest.skip(j) =~= url@.subrange(authority_end as int, n as int));
            }
            assert(url@.take(scheme_end as int) =~= url@.subrange(0, scheme_end as int));
        }
        let (host_end, port) = match split_authority(&chars, start, authority_end) {
            Some(split) => split,
            None => { return None; },
        };
        let path = match found {
            Some(j) => Some(url.substring_char(j, n).to_owned()),
            None => None,
        };
        Some(
            URL {
                protocol: url.substring_char(0, scheme_end).to_owned(),
                port,
                host: url.substring_char(start, host_end).to_owned(),
                path,
            },
        )
    }
}

} // verus!
