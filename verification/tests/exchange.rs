use httpclient::error::HttpClientError;
use httpclient::exchange::{Action, Event, Exchange, Phase};
use httpclient::response::Response;

fn line(text: &str) -> Event {
    Event::Line(String::from(text))
}

fn fail(error: HttpClientError) -> Action {
    Action::Fail { error }
}

/// An exchange that has sent its request and awaits the status line.
fn sent(url: &str) -> Exchange {
    let (exchange, _) = Exchange::begin(url);
    let (exchange, _) = exchange.advance(Event::Resolved { addresses: 1 });
    let (exchange, _) = exchange.advance(Event::Connected);
    let (exchange, action) = exchange.advance(Event::Sent);
    assert_eq!(action, Action::ReadLine);
    exchange
}

/// Feeds `lines` to an exchange that awaits the status line; every line but
/// the last must ask for another.
fn after_lines(lines: &[&str]) -> (Exchange, Action) {
    let mut exchange = sent("http://example.com/");
    let mut action = Action::ReadLine;
    for text in lines {
        assert_eq!(action, Action::ReadLine);
        (exchange, action) = exchange.advance(line(text));
    }
    (exchange, action)
}

fn headers(pairs: &[(&str, &str)]) -> Vec<(String, String)> {
    pairs.iter().map(|(n, v)| (String::from(*n), String::from(*v))).collect()
}

#[test]
fn exchange_resolves_connects_sends_and_reads() {
    let (exchange, action) = Exchange::begin("http://example.com:8080/hello_world");
    assert_eq!(action, Action::Resolve { host: String::from("example.com"), port: 8080 });
    assert_eq!(exchange.phase(), Phase::Resolving);
    let (exchange, action) = exchange.advance(Event::Resolved { addresses: 2 });
    assert_eq!(action, Action::Connect);
    assert_eq!(exchange.phase(), Phase::Connecting);
    let (exchange, action) = exchange.advance(Event::Connected);
    assert_eq!(
        action,
        Action::Send { request: String::from("GET /hello_world HTTP/1.1\r\nHost: example.com\r\n\r\n") }
    );
    assert_eq!(exchange.phase(), Phase::Sending);
    let (exchange, action) = exchange.advance(Event::Sent);
    assert_eq!(action, Action::ReadLine);
    assert_eq!(exchange.phase(), Phase::StatusLine);
    let (exchange, action) = exchange.advance(line("HTTP/1.1 200 OK\r\n"));
    assert_eq!(action, Action::ReadLine);
    assert_eq!(exchange.phase(), Phase::Headers);
    let (exchange, action) = exchange.advance(line("Content-Type: text/plain\r\n"));
    assert_eq!(action, Action::ReadLine);
    assert_eq!(exchange.phase(), Phase::Headers);
    let (exchange, action) = exchange.advance(line("Content-Length: 5\r\n"));
    assert_eq!(action, Action::ReadLine);
    let (exchange, action) = exchange.advance(line("\r\n"));
    assert_eq!(action, Action::ReadExact { len: 5 });
    assert_eq!(exchange.phase(), Phase::Body);
    let (exchange, action) = exchange.advance(Event::Body(b"hello".to_vec()));
    assert_eq!(
        action,
        Action::Return {
            response: Response {
                status: 200,
                headers: headers(&[("content-type", "text/plain"), ("content-length", "5")]),
                body: Some(b"hello".to_vec()),
            }
        }
    );
    assert_eq!(exchange.phase(), Phase::Closed);
}

#[test]
fn exchange_uses_port_80_and_the_root_path_by_default() {
    let (exchange, action) = Exchange::begin("http://www.example.com");
    assert_eq!(action, Action::Resolve { host: String::from("www.example.com"), port: 80 });
    let (exchange, _) = exchange.advance(Event::Resolved { addresses: 1 });
    let (_, action) = exchange.advance(Event::Connected);
    assert_eq!(
        action,
        Action::Send { request: String::from("GET / HTTP/1.1\r\nHost: www.example.com\r\n\r\n") }
    );
}

#[test]
fn url_without_separator_fails_before_any_connection() {
    for url in ["", "example.com", "http:/example.com", "http//example.com/://"] {
        let (exchange, action) = Exchange::begin(url);
        if url.contains("://") {
            assert!(matches!(action, Action::Resolve { .. }));
        } else {
            assert_eq!(action, fail(HttpClientError::InvalidUrl));
            assert_eq!(exchange.phase(), Phase::Closed);
        }
    }
}

#[test]
fn url_with_a_bad_port_fails_before_any_connection() {
    let (exchange, action) = Exchange::begin("http://example.com:http/");
    assert_eq!(action, fail(HttpClientError::InvalidUrl));
    assert_eq!(exchange.phase(), Phase::Closed);
}

#[test]
fn status_line_without_a_code_fails_with_no_response() {
    let (exchange, action) = after_lines(&["HTTP/1.1 OK\r\n"]);
    assert_eq!(action, fail(HttpClientError::InvalidHttpStatusLine));
    assert_eq!(exchange.phase(), Phase::Closed);
    let (_, action) = after_lines(&[""]);
    assert_eq!(action, fail(HttpClientError::InvalidHttpStatusLine));
}

#[test]
fn zero_content_length_yields_no_body_and_no_read() {
    let (exchange, action) =
        after_lines(&["HTTP/1.1 200 OK\r\n", "Content-Length: 0\r\n", "\r\n"]);
    assert_eq!(
        action,
        Action::Return {
            response: Response {
                status: 200,
                headers: headers(&[("content-length", "0")]),
                body: None,
            }
        }
    );
    assert_eq!(exchange.phase(), Phase::Closed);
    let (_, action) = exchange.advance(Event::Body(b"trailing bytes".to_vec()));
    assert_eq!(action, fail(HttpClientError::IoFailure));
}

#[test]
fn content_length_five_yields_exactly_five_bytes() {
    let (exchange, action) =
        after_lines(&["HTTP/1.1 200 OK\r\n", "content-length: 5\r\n", "\r\n"]);
    assert_eq!(action, Action::ReadExact { len: 5 });
    let (_, action) = exchange.advance(Event::Body(vec![0, 159, 146, 150, 255]));
    assert_eq!(
        action,
        Action::Return {
            response: Response {
                status: 200,
                headers: headers(&[("content-length", "5")]),
                body: Some(vec![0, 159, 146, 150, 255]),
            }
        }
    );
}

#[test]
fn short_body_is_an_io_failure() {
    let lines = ["HTTP/1.1 200 OK\r\n", "Content-Length: 5\r\n", "\r\n"];
    let (exchange, _) = after_lines(&lines);
    let (exchange, action) = exchange.advance(Event::Body(b"hell".to_vec()));
    assert_eq!(action, fail(HttpClientError::IoFailure));
    assert_eq!(exchange.phase(), Phase::Closed);
    let (exchange, _) = after_lines(&lines);
    let (_, action) = exchange.advance(Event::Body(Vec::new()));
    assert_eq!(action, fail(HttpClientError::IoFailure));
    let (exchange, _) = after_lines(&lines);
    let (_, action) = exchange.advance(Event::Body(b"hello!".to_vec()));
    assert_eq!(action, fail(HttpClientError::IoFailure));
    let (exchange, _) = after_lines(&lines);
    let (_, action) = exchange.advance(Event::IoFailed);
    assert_eq!(action, fail(HttpClientError::IoFailure));
}

#[test]
fn missing_content_length_reads_to_close() {
    let (exchange, action) =
        after_lines(&["HTTP/1.1 200 OK\r\n", "Transfer-Encoding: chunked\r\n", "\r\n"]);
    assert_eq!(action, Action::ReadToEnd);
    assert_eq!(exchange.phase(), Phase::Body);
    let body = b"5\r\nhello\r\n0\r\n\r\n".to_vec();
    let (_, action) = exchange.advance(Event::Body(body.clone()));
    assert_eq!(
        action,
        Action::Return {
            response: Response {
                status: 200,
                headers: headers(&[("transfer-encoding", "chunked")]),
                body: Some(body),
            }
        }
    );
}

#[test]
fn missing_content_length_with_nothing_left_yields_an_empty_body() {
    let (exchange, action) = after_lines(&["HTTP/1.1 204 No Content\r\n", "\r\n"]);
    assert_eq!(action, Action::ReadToEnd);
    let (_, action) = exchange.advance(Event::Body(Vec::new()));
    assert_eq!(
        action,
        Action::Return { response: Response { status: 204, headers: Vec::new(), body: Some(Vec::new()) } }
    );
}

#[test]
fn last_content_length_counts() {
    let (_, action) = after_lines(&[
        "HTTP/1.1 200 OK\r\n",
        "Content-Length: 7\r\n",
        "X-Other: 9\r\n",
        "CONTENT-LENGTH: 3\r\n",
        "\r\n",
    ]);
    assert_eq!(action, Action::ReadExact { len: 3 });
    let (exchange, action) = after_lines(&[
        "HTTP/1.1 200 OK\r\n",
        "Content-Length: 7\r\n",
        "Content-Length: 0\r\n",
        "\r\n",
    ]);
    assert_eq!(
        action,
        Action::Return {
            response: Response {
                status: 200,
                headers: headers(&[("content-length", "7"), ("content-length", "0")]),
                body: None,
            }
        }
    );
    assert_eq!(exchange.phase(), Phase::Closed);
}

#[test]
fn malformed_content_length_is_fatal() {
    let (exchange, action) = after_lines(&["HTTP/1.1 200 OK\r\n", "Content-Length: five\r\n"]);
    assert_eq!(action, fail(HttpClientError::InvalidContentLength));
    assert_eq!(exchange.phase(), Phase::Closed);
    let (_, action) =
        after_lines(&["HTTP/1.1 200 OK\r\n", "Content-Length: 5\r\n", "Content-Length:\r\n"]);
    assert_eq!(action, fail(HttpClientError::InvalidContentLength));
}

#[test]
fn line_without_a_colon_ends_the_headers() {
    let (_, action) =
        after_lines(&["HTTP/1.1 200 OK\r\n", "Content-Length: 2\r\n", "not a header\r\n"]);
    assert_eq!(action, Action::ReadExact { len: 2 });
    let (_, action) = after_lines(&["HTTP/1.1 200 OK\r\n", "Content-Length: 2\r\n", ""]);
    assert_eq!(action, Action::ReadExact { len: 2 });
    let (_, action) = after_lines(&["HTTP/1.1 200 OK\r\n", "\n"]);
    assert_eq!(action, Action::ReadToEnd);
}

#[test]
fn host_without_an_address_is_a_resolution_failure() {
    let (exchange, _) = Exchange::begin("http://example.com/");
    let (exchange, action) = exchange.advance(Event::Resolved { addresses: 0 });
    assert_eq!(action, fail(HttpClientError::ResolutionFailure));
    assert_eq!(exchange.phase(), Phase::Closed);
}

#[test]
fn transport_failures_end_the_exchange_with_their_error() {
    let (exchange, _) = Exchange::begin("http://example.com/");
    let (exchange, action) = exchange.advance(Event::ResolutionFailed);
    assert_eq!(action, fail(HttpClientError::ResolutionFailure));
    assert_eq!(exchange.phase(), Phase::Closed);
    let (exchange, _) = Exchange::begin("http://example.com/");
    let (exchange, _) = exchange.advance(Event::Resolved { addresses: 3 });
    let (_, action) = exchange.advance(Event::ConnectionFailed);
    assert_eq!(action, fail(HttpClientError::ConnectionFailure));
    let (exchange, _) = Exchange::begin("http://example.com/");
    let (exchange, _) = exchange.advance(Event::Resolved { addresses: 1 });
    let (exchange, _) = exchange.advance(Event::Connected);
    let (_, action) = exchange.advance(Event::IoFailed);
    assert_eq!(action, fail(HttpClientError::IoFailure));
    let (_, action) = sent("http://example.com/").advance(Event::IoFailed);
    assert_eq!(action, fail(HttpClientError::IoFailure));
    let (exchange, _) = after_lines(&["HTTP/1.1 200 OK\r\n"]);
    let (_, action) = exchange.advance(Event::IoFailed);
    assert_eq!(action, fail(HttpClientError::IoFailure));
}

#[test]
fn event_that_was_not_asked_for_is_an_io_failure() {
    let (exchange, _) = Exchange::begin("http://example.com/");
    let (exchange, action) = exchange.advance(Event::Sent);
    assert_eq!(action, fail(HttpClientError::IoFailure));
    assert_eq!(exchange.phase(), Phase::Closed);
    let (exchange, _) = Exchange::begin("http://example.com/");
    let (_, action) = exchange.advance(line("HTTP/1.1 200 OK\r\n"));
    assert_eq!(action, fail(HttpClientError::IoFailure));
    let (exchange, _) = Exchange::begin("http://example.com/");
    let (_, action) = exchange.advance(Event::Connected);
    assert_eq!(action, fail(HttpClientError::IoFailure));
    let (_, action) = sent("http://example.com/").advance(Event::Resolved { addresses: 1 });
    assert_eq!(action, fail(HttpClientError::IoFailure));
    let (_, action) = sent("http://example.com/").advance(Event::Connected);
    assert_eq!(action, fail(HttpClientError::IoFailure));
    let (_, action) = sent("http://example.com/").advance(Event::Body(Vec::new()));
    assert_eq!(action, fail(HttpClientError::IoFailure));
    let (exchange, _) = after_lines(&["HTTP/1.1 200 OK\r\n", "\r\n"]);
    let (_, action) = exchange.advance(line("more\r\n"));
    assert_eq!(action, fail(HttpClientError::IoFailure));
    let (exchange, _) = Exchange::begin("no separator");
    let (_, action) = exchange.advance(Event::Connected);
    assert_eq!(action, fail(HttpClientError::IoFailure));
}
