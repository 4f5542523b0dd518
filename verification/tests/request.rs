use httpclient::request::encode_request;
use httpclient::url::URL;

#[test]
fn request_names_the_path_and_the_host() {
    let url = URL::parse("http://example.com:8080/hello_world?x=1").unwrap();
    assert_eq!(encode_request(&url), "GET /hello_world?x=1 HTTP/1.1\r\nHost: example.com\r\n\r\n");
}

#[test]
fn request_asks_for_the_root_where_the_url_has_no_path() {
    let url = URL::parse("http://www.example.com").unwrap();
    assert_eq!(encode_request(&url), "GET / HTTP/1.1\r\nHost: www.example.com\r\n\r\n");
}

#[test]
fn request_is_built_from_the_fields_alone() {
    let url = URL {
        protocol: String::from("gopher"),
        port: Some(70),
        host: String::from("h"),
        path: Some(String::from("/1/\u{e9}")),
    };
    assert_eq!(encode_request(&url), "GET /1/\u{e9} HTTP/1.1\r\nHost: h\r\n\r\n");
}
