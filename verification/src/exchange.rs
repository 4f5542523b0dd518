//! One request and its reply, as a state machine without I/O.
//!
//! An [`Exchange`] never reads or writes. It hands out an [`Action`] that
//! names the next transport operation; the caller performs it and reports the
//! outcome as an [`Event`]. [`start_of`] and [`step`] say what the machine
//! does, over plain mathematical values.

use crate::error::HttpClientError;
use crate::request::{encode_request, request_text};
use crate::response::{
    body_length, body_length_for, content_length_of, declared_length, header_of,
    lemma_declared_length_fits, length_declared_by, parse_header_line, parse_status_line,
    second_token, status_code, BodyLength, Response, ResponseView,
};
use crate::text::{lemma_no_occurrence, occurs_at, parse_unsigned};
use crate::url::{parse_url, DEFAULT_PORT, URL};
use vstd::prelude::*;

verus! {

/// How far an exchange has come.
#[derive(Debug, Clone, Copy, PartialEq, Eq, Structural)]
pub enum Phase {
    /// Waiting for the addresses of the host.
    Resolving,
    /// Waiting for the connection to one of the addresses.
    Connecting,
    /// Waiting for the request to be written and flushed.
    Sending,
    /// Waiting for the first line of the reply.
    StatusLine,
    /// Waiting for the next header line.
    Headers,
    /// Waiting for the body.
    Body,
    /// Over: a response or an error has been handed out.
    Closed,
}

/// What the transport did.
#[derive(Debug, PartialEq, Eq)]
pub enum Event {
    /// The host name was looked up and has this many addresses.
    Resolved { addresses: usize },
    /// The connection stands.
    Connected,
    /// The request was written and flushed.
    Sent,
    /// One line was read, its line feed included; empty at the end of the
    /// stream.
    Line(String),
    /// The bytes that were asked for were read.
    Body(Vec<u8>),
    /// The host name could not be looked up.
    ResolutionFailed,
    /// No address accepted the connection.
    ConnectionFailed,
    /// Reading or writing failed.
    IoFailed,
}

/// An [`Event`] as plain mathematical values.
pub enum EventView {
    Resolved { addresses: usize },
    Connected,
    Sent,
    Line(Seq<char>),
    Body(Seq<u8>),
    ResolutionFailed,
    ConnectionFailed,
    IoFailed,
}

impl View for Event {
    type V = EventView;

    open spec fn view(&self) -> EventView {
        match self {
            Event::Resolved { addresses } => EventView::Resolved { addresses: *addresses },
            Event::Connected => EventView::Connected,
            Event::Sent => EventView::Sent,
            Event::Line(line) => EventView::Line(line@),
            Event::Body(bytes) => EventView::Body(bytes@),
            Event::ResolutionFailed => EventView::ResolutionFailed,
            Event::ConnectionFailed => EventView::ConnectionFailed,
            Event::IoFailed => EventView::IoFailed,
        }
    }
}

/// What the transport is to do next, or how the exchange ended.
#[derive(Debug, PartialEq, Eq)]
pub enum Action {
    /// Look up the addresses of `host`, for `port`.
    Resolve { host: String, port: u16 },
    /// Connect to the first of these addresses that accepts.
    Connect,
    /// Write `request` and flush.
    Send { request: String },
    /// Read up to and including the next line feed.
    ReadLine,
    /// Read exactly `len` bytes.
    ReadExact { len: usize },
    /// Read until the peer closes the connection.
    ReadToEnd,
    /// The exchange is over: here is the response.
    Return { response: Response },
    /// The exchange is over: it failed.
    Fail { error: HttpClientError },
}

/// An [`Action`] as plain mathematical values.
pub enum ActionView {
    Resolve { host: Seq<char>, port: u16 },
    Connect,
    Send { request: Seq<char> },
    ReadLine,
    ReadExact { len: usize },
    ReadToEnd,
    Return { response: ResponseView },
    Fail { error: HttpClientError },
}

impl View for Action {
    type V = ActionView;

    open spec fn view(&self) -> ActionView {
        match self {
            Action::Resolve { host, port } => ActionView::Resolve { host: host@, port: *port },
            Action::Connect => ActionView::Connect,
            Action::Send { request } => ActionView::Send { request: request@ },
            Action::ReadLine => ActionView::ReadLine,
            Action::ReadExact { len } => ActionView::ReadExact { len: *len },
            Action::ReadToEnd => ActionView::ReadToEnd,
            Action::Return { response } => ActionView::Return { response: response@ },
            Action::Fail { error } => ActionView::Fail { error: *error },
        }
    }
}

/// The state of one exchange.
#[derive(Debug)]
pub struct Exchange {
    phase: Phase,
    request: String,
    status: u16,
    headers: Vec<(String, String)>,
    content_length: Option<usize>,
}

/// An [`Exchange`] as plain mathematical values.
pub struct ExchangeView {
    /// How far the exchange has come.
    pub phase: Phase,
    /// The request that is sent once the connection stands.
    pub request: Seq<char>,
    /// The status code, once the status line was read.
    pub status: u16,
    /// The headers read so far.
    pub headers: Seq<(Seq<char>, Seq<char>)>,
}

impl ExchangeView {
    /// No body is awaited after headers that declare a length of zero.
    pub open spec fn wf(self) -> bool {
        self.phase == Phase::Body ==> declared_length(self.headers) != Some(0nat)
    }
}

/// The state of an exchange that is over.
pub open spec fn closed() -> ExchangeView {
    ExchangeView { phase: Phase::Closed, request: Seq::empty(), status: 0, headers: Seq::empty() }
}

/// The end of an exchange by `error`.
pub open spec fn fail(error: HttpClientError) -> (ExchangeView, ActionView) {
    (closed(), ActionView::Fail { error })
}

/// The end of an exchange by a response: the status and the headers that `s`
/// has gathered, with `body`.
pub open spec fn finish(s: ExchangeView, body: Option<Seq<u8>>) -> (ExchangeView, ActionView) {
    (
        closed(),
        ActionView::Return {
            response: ResponseView { status: s.status, headers: s.headers, body },
        },
    )
}

/// How an exchange for `url` starts: with the lookup of its host, for its
/// port or for port 80; or, where the URL does not parse, with `InvalidUrl`
/// and nothing else.
pub open spec fn start_of(url: Seq<char>) -> (ExchangeView, ActionView) {
    match parse_url(url) {
        Some(u) => (
            ExchangeView {
                phase: Phase::Resolving,
                request: request_text(u),
                status: 0,
                headers: Seq::empty(),
            },
            ActionView::Resolve {
                host: u.host,
                port: match u.port {
                    Some(p) => p,
                    None => DEFAULT_PORT,
                },
            },
        ),
        None => fail(HttpClientError::InvalidUrl),
    }
}

/// What follows the lookup of the host: the connection, unless the host has
/// no address.
pub open spec fn after_resolution(s: ExchangeView, addresses: usize) -> (ExchangeView, ActionView) {
    if addresses == 0 {
        fail(HttpClientError::ResolutionFailure)
    } else {
        (ExchangeView { phase: Phase::Connecting, ..s }, ActionView::Connect)
    }
}

/// What follows the status line: the headers, unless the line holds no
/// status code.
pub open spec fn after_status_line(s: ExchangeView, line: Seq<char>) -> (ExchangeView, ActionView) {
    match status_code(line) {
        Some(code) => (
            ExchangeView { phase: Phase::Headers, status: code, ..s },
            ActionView::ReadLine,
        ),
        None => fail(HttpClientError::InvalidHttpStatusLine),
    }
}

/// What follows the end of the headers: the response at once where a length
/// of zero was declared, else the read that fetches the body.
pub open spec fn after_headers(s: ExchangeView) -> (ExchangeView, ActionView) {
    match body_length_for(declared_length(s.headers)) {
        BodyLength::Absent => finish(s, None),
        BodyLength::FixedLength(len) => (
            ExchangeView { phase: Phase::Body, ..s },
            ActionView::ReadExact { len },
        ),
        BodyLength::ReadToClose => (ExchangeView { phase: Phase::Body, ..s }, ActionView::ReadToEnd),
    }
}

/// What follows a line that is read where a header is awaited: a line with a
/// `:` is a header and is kept, unless it is a `content-length` whose value
/// is no number; any other line ends the headers.
pub open spec fn after_header_line(s: ExchangeView, line: Seq<char>) -> (ExchangeView, ActionView) {
    match header_of(line) {
        Some((name, value)) => if length_declared_by(name, value) == Some(None::<nat>) {
            fail(HttpClientError::InvalidContentLength)
        } else {
            (ExchangeView { headers: s.headers.push((name, value)), ..s }, ActionView::ReadLine)
        },
        None => after_headers(s),
    }
}

/// What follows the body: the response, unless a length was declared and the
/// bytes are not that many.
pub open spec fn after_body(s: ExchangeView, bytes: Seq<u8>) -> (ExchangeView, ActionView) {
    match declared_length(s.headers) {
        Some(n) => if bytes.len() == n {
            finish(s, Some(bytes))
        } else {
            fail(HttpClientError::IoFailure)
        },
        None => finish(s, Some(bytes)),
    }
}

/// The next state of an exchange and the next action, after `e` happened in
/// state `s`. A failure of the transport ends the exchange with its error. An
/// event that the state did not ask for ends it with `IoFailure`.
pub open spec fn step(s: ExchangeView, e: EventView) -> (ExchangeView, ActionView) {
    match e {
        EventView::ResolutionFailed => fail(HttpClientError::ResolutionFailure),
        EventView::ConnectionFailed => fail(HttpClientError::ConnectionFailure),
        EventView::IoFailed => fail(HttpClientError::IoFailure),
        EventView::Resolved { addresses } => if s.phase == Phase::Resolving {
            after_resolution(s, addresses)
        } else {
            fail(HttpClientError::IoFailure)
        },
        EventView::Connected => if s.phase == Phase::Connecting {
            (ExchangeView { phase: Phase::Sending, ..s }, ActionView::Send { request: s.request })
        } else {
            fail(HttpClientError::IoFailure)
        },
        EventView::Sent => if s.phase == Phase::Sending {
            (ExchangeView { phase: Phase::StatusLine, ..s }, ActionView::ReadLine)
        } else {
            fail(HttpClientError::IoFailure)
        },
        EventView::Line(line) => if s.phase == Phase::StatusLine {
            after_status_line(s, line)
        } else if s.phase == Phase::Headers {
            after_header_line(s, line)
        } else {
            fail(HttpClientError::IoFailure)
        },
        EventView::Body(bytes) => if s.phase == Phase::Body {
            after_body(s, bytes)
        } else {
            fail(HttpClientError::IoFailure)
        },
    }
}

/// The length that `content_length` stands for.
spec fn length_of(content_length: Option<usize>) -> Option<nat> {
    match content_length {
        Some(n) => Some(n as nat),
        None => None,
    }
}

impl View for Exchange {
    type V = ExchangeView;

    closed spec fn view(&self) -> ExchangeView {
        ExchangeView {
            phase: self.phase,
            request: self.request@,
            status: self.status,
            headers: self.headers.deep_view(),
        }
    }
}

impl Exchange {
    #[verifier::type_invariant]
    spec fn inv(self) -> bool {
        &&& length_of(self.content_length) == declared_length(self.headers.deep_view())
        &&& self.phase == Phase::Body ==> self.content_length != Some(0usize)
    }

    /// An exchange that is over.
    fn closed() -> (r: Exchange)
        ensures
            r@ == closed(),
    {
        let r = Exchange {
            phase: Phase::Closed,
            request: String::new(),
            status: 0,
            headers: Vec::new(),
            content_length: None,
        };
        assert(r.headers.deep_view() =~= Seq::empty());
        r
    }

    /// An exchange that ended by `error`.
    fn failed(error: HttpClientError) -> (r: (Exchange, Action))
        ensures
            (r.0@, r.1@) == fail(error),
    {
        (Exchange::closed(), Action::Fail { error })
    }

    /// Starts the exchange for `url`.
    pub fn begin(url: &str) -> (r: (Exchange, Action))
        ensures
            (r.0@, r.1@) == start_of(url@),
            r.0@.wf(),
    {
        proof {
            lemma_start_is_well_formed(url@);
        }
        match URL::parse(url) {
            Some(parsed) => {
                let request = encode_request(&parsed);
                let port = match parsed.port {
                    Some(p) => p,
                    None => DEFAULT_PORT,
                };
                let exchange = Exchange {
                    phase: Phase::Resolving,
                    request,
                    status: 0,
                    headers: Vec::new(),
                    content_length: None,
                };
                assert(exchange.headers.deep_view() =~= Seq::empty());
                (exchange, Action::Resolve { host: parsed.host, port })
            },
            None => Exchange::failed(HttpClientError::InvalidUrl),
        }
    }

    /// How far the exchange has come.
    pub fn phase(&self) -> (r: Phase)
        ensures
            r == self@.phase,
    {
        self.phase
    }

    /// Takes in the status line.
    fn on_status_line(self, line: &str) -> (r: (Exchange, Action))
        requires
            self@.phase == Phase::StatusLine,
        ensures
            (r.0@, r.1@) == after_status_line(self@, line@),
    {
        proof {
            use_type_invariant(&self);
        }
        match parse_status_line(line) {
            Ok(code) => {
                let Exchange { phase: _, request, status: _, headers, content_length } = self;
                (
                    Exchange { phase: Phase::Headers, request, status: code, headers, content_length },
                    Action::ReadLine,
                )
            },
            Err(error) => Exchange::failed(error),
        }
    }

    /// Takes in the end of the headers.
    fn on_headers_end(self) -> (r: (Exchange, Action))
        requires
            self@.phase == Phase::Headers,
        ensures
            (r.0@, r.1@) == after_headers(self@),
    {
        proof {
            use_type_invariant(&self);
        }
        let Exchange { phase: _, request, status, headers, content_length } = self;
        match body_length(content_length) {
            BodyLength::Absent => (
                Exchange::closed(),
                Action::Return { response: Response { status, headers, body: None } },
            ),
            BodyLength::FixedLength(len) => (
                Exchange { phase: Phase::Body, request, status, headers, content_length },
                Action::ReadExact { len },
            ),
            BodyLength::ReadToClose => (
                Exchange { phase: Phase::Body, request, status, headers, content_length },
                Action::ReadToEnd,
            ),
        }
    }

    /// Takes in a line that is read where a header is awaited.
    fn on_header_line(self, line: &str) -> (r: (Exchange, Action))
        requires
            self@.phase == Phase::Headers,
        ensures
            (r.0@, r.1@) == after_header_line(self@, line@),
    {
        proof {
            use_type_invariant(&self);
        }
        match parse_header_line(line) {
            None => self.on_headers_end(),
            Some((name, value)) => {
                let declared = match content_length_of(name.as_str(), value.as_str()) {
                    Ok(declared) => declared,
                    Err(error) => { return Exchange::failed(error); },
                };
                let Exchange { phase, request, status, mut headers, content_length } = self;
                let ghost before = headers.deep_view();
                let ghost header = (name@, value@);
                headers.push((name, value));
                proof {
                    assert(headers.deep_view() =~= before.push(header));
                    assert(headers.deep_view().drop_last() =~= before);
                }
                let content_length = match declared {
                    Some(n) => Some(n),
                    None => content_length,
                };
                (Exchange { phase, request, status, headers, content_length }, Action::ReadLine)
            },
        }
    }

    /// Takes in the body.
    fn on_body(self, bytes: Vec<u8>) -> (r: (Exchange, Action))
        requires
            self@.phase == Phase::Body,
        ensures
            (r.0@, r.1@) == after_body(self@, bytes@),
    {
        proof {
            use_type_invariant(&self);
        }
        let Exchange { phase: _, request: _, status, headers, content_length } = self;
        match content_length {
            Some(n) => {
                if bytes.len() != n {
                    return Exchange::failed(HttpClientError::IoFailure);
                }
            },
            None => {},
        }
        (Exchange::closed(), Action::Return { response: Response { status, headers, body: Some(bytes) } })
    }

    /// Takes in what the transport did and says what it is to do next.
    pub fn advance(self, event: Event) -> (r: (Exchange, Action))
        ensures
            (r.0@, r.1@) == step(self@, event@),
            r.0@.wf(),
            r.1 matches Action::Return { response } ==> response@.is_consistent(),
    {
        proof {
            use_type_invariant(&self);
            lemma_step_keeps_well_formed(self@, event@);
        }
        match event {
            Event::ResolutionFailed => Exchange::failed(HttpClientError::ResolutionFailure),
            Event::ConnectionFailed => Exchange::failed(HttpClientError::ConnectionFailure),
            Event::IoFailed => Exchange::failed(HttpClientError::IoFailure),
            Event::Resolved { addresses } => match self.phase {
                Phase::Resolving => {
                    if addresses == 0 {
                        return Exchange::failed(HttpClientError::ResolutionFailure);
                    }
                    let Exchange { phase: _, request, status, headers, content_length } = self;
                    (
                        Exchange {
                            phase: Phase::Connecting,
                            request,
                            status,
                            headers,
                            content_length,
                        },
                        Action::Connect,
                    )
                },
                _ => Exchange::failed(HttpClientError::IoFailure),
            },
            Event::Connected => match self.phase {
                Phase::Connecting => {
                    proof {
                        use_type_invariant(&self);
                    }
                    let Exchange { phase: _, request, status, headers, content_length } = self;
                    let sent = request.clone();
                    (
                        Exchange { phase: Phase::Sending, request, status, headers, content_length },
                        Action::Send { request: sent },
                    )
                },
                _ => Exchange::failed(HttpClientError::IoFailure),
            },
            Event::Sent => match self.phase {
                Phase::Sending => {
                    proof {
                        use_type_invariant(&self);
                    }
                    let Exchange { phase: _, request, status, headers, content_length } = self;
                    (
                        Exchange {
                            phase: Phase::StatusLine,
                            request,
                            status,
                            headers,
                            content_length,
                        },
                        Action::ReadLine,
                    )
                },
                _ => Exchange::failed(HttpClientError::IoFailure),
            },
            Event::Line(line) => match self.phase {
                Phase::StatusLine => self.on_status_line(line.as_str()),
                Phase::Headers => self.on_header_line(line.as_str()),
                _ => Exchange::failed(HttpClientError::IoFailure),
            },
            Event::Body(bytes) => match self.phase {
                Phase::Body => self.on_body(bytes),
                _ => Exchange::failed(HttpClientError::IoFailure),
            },
        }
    }
}

/// An exchange starts in a well-formed state.
pub proof fn lemma_start_is_well_formed(url: Seq<char>)
    ensures
        start_of(url).0.wf(),
{
}

/// A step from a well-formed state leads to a well-formed state, and a
/// response that it hands out is consistent: its body is absent exactly where
/// its headers declare a length of zero, and has the declared length where
/// they declare another.
pub proof fn lemma_step_keeps_well_formed(s: ExchangeView, e: EventView)
    requires
        s.wf(),
    ensures
        step(s, e).0.wf(),
        step(s, e).1 matches ActionView::Return { response } ==> response.is_consistent(),
{
    lemma_declared_length_fits(s.headers);
}

/// A URL without `://` starts no exchange: the first and only action is the
/// failure `InvalidUrl`, so that neither a lookup nor a connection is ever
/// asked for.
pub proof fn lemma_url_without_separator_fails(url: Seq<char>)
    requires
        forall|i: int| !occurs_at(url, "://"@, i),
    ensures
        parse_url(url) is None,
        start_of(url) == fail(HttpClientError::InvalidUrl),
{
    lemma_no_occurrence(url, "://"@);
}

/// A status line whose second token is no 16-bit decimal number ends the
/// exchange with `InvalidHttpStatusLine`, and with no response.
pub proof fn lemma_bad_status_line_fails(s: ExchangeView, line: Seq<char>)
    requires
        s.phase == Phase::StatusLine,
        parse_unsigned(second_token(line), 0xffff) is None,
    ensures
        step(s, EventView::Line(line)) == fail(HttpClientError::InvalidHttpStatusLine),
{
}

/// A header line is kept behind the headers read so far, and the next line is
/// asked for. Where it is a `content-length`, the declared length is from then
/// on the one that it declares, whatever was declared before; after a header
/// of another name the declared length is what it was.
pub proof fn lemma_header_line_is_kept(s: ExchangeView, line: Seq<char>)
    requires
        s.phase == Phase::Headers,
        header_of(line) matches Some((name, value)) && length_declared_by(name, value) != Some(
            None::<nat>,
        ),
    ensures
        ({
            let (t, action) = step(s, EventView::Line(line));
            let (name, value) = header_of(line)->0;
            &&& action == ActionView::ReadLine
            &&& t == ExchangeView { headers: s.headers.push((name, value)), ..s }
            &&& declared_length(t.headers) == match length_declared_by(name, value) {
                Some(length) => length,
                None => declared_length(s.headers),
            }
        }),
{
    let (name, value) = header_of(line)->0;
    assert(s.headers.push((name, value)).drop_last() =~= s.headers);
}

/// A `content-length` header whose value is no number ends the exchange with
/// `InvalidContentLength`, and with no response.
pub proof fn lemma_bad_content_length_fails(s: ExchangeView, line: Seq<char>)
    requires
        s.phase == Phase::Headers,
        header_of(line) matches Some((name, value)) && name == "content-length"@ && parse_unsigned(
            value,
            usize::MAX as nat,
        ) is None,
    ensures
        step(s, EventView::Line(line)) == fail(HttpClientError::InvalidContentLength),
{
}

/// After headers that declare a length of zero, the line that ends them ends
/// the exchange: the response has no body, and nothing more is read,
/// whatever the stream still holds.
pub proof fn lemma_zero_length_has_no_body(s: ExchangeView, line: Seq<char>)
    requires
        s.phase == Phase::Headers,
        declared_length(s.headers) == Some(0nat),
        header_of(line) is None,
    ensures
        step(s, EventView::Line(line)) == finish(s, None),
{
}

/// After headers that declare a length `n` above zero, exactly `n` bytes are
/// asked for. The response holds them as its body where `n` bytes came; fewer
/// or more end the exchange with `IoFailure`.
pub proof fn lemma_declared_length_is_read_exactly(
    s: ExchangeView,
    line: Seq<char>,
    n: nat,
    bytes: Seq<u8>,
)
    requires
        s.phase == Phase::Headers,
        declared_length(s.headers) == Some(n),
        n > 0,
        header_of(line) is None,
    ensures
        n <= usize::MAX,
        step(s, EventView::Line(line)).1 == (ActionView::ReadExact { len: n as usize }),
        step(step(s, EventView::Line(line)).0, EventView::Body(bytes)) == if bytes.len() == n {
            finish(s, Some(bytes))
        } else {
            fail(HttpClientError::IoFailure)
        },
{
    lemma_declared_length_fits(s.headers);
}

/// After headers that declare no length, everything up to the close of the
/// connection is asked for, and the response holds all of it as its body.
pub proof fn lemma_undeclared_length_reads_to_close(
    s: ExchangeView,
    line: Seq<char>,
    bytes: Seq<u8>,
)
    requires
        s.phase == Phase::Headers,
        declared_length(s.headers) is None,
        header_of(line) is None,
    ensures
        step(s, EventView::Line(line)).1 == ActionView::ReadToEnd,
        step(step(s, EventView::Line(line)).0, EventView::Body(bytes)) == finish(s, Some(bytes)),
{
}

} // verus!
