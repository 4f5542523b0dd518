use httpclient::error::HttpClientError;

#[test]
fn each_error_has_its_message() {
    assert_eq!(HttpClientError::InvalidUrl.message(), "invalid url");
    assert_eq!(HttpClientError::InvalidHttpStatusLine.message(), "invalid http status line");
    assert_eq!(HttpClientError::InvalidContentLength.message(), "invalid content length");
    assert_eq!(HttpClientError::ResolutionFailure.message(), "could not resolve host");
    assert_eq!(HttpClientError::ConnectionFailure.message(), "could not connect to server");
    assert_eq!(HttpClientError::IoFailure.message(), "i/o failure");
}

#[test]
fn errors_compare_by_kind() {
    assert_eq!(HttpClientError::InvalidUrl, HttpClientError::InvalidUrl);
    assert_ne!(HttpClientError::InvalidUrl, HttpClientError::IoFailure);
    assert_ne!(HttpClientError::ResolutionFailure, HttpClientError::ConnectionFailure);
}
