//! The one request this client sends: a `GET` with a `Host` header.

use crate::url::{UrlView, URL};
use vstd::prelude::*;
use vstd::string::*;

verus! {

/// The path that is asked for: that of the URL, or `/` where it has none.
pub open spec fn request_path(url: UrlView) -> Seq<char> {
    match url.path {
        Some(p) => p,
        None => "/"@,
    }
}

/// The text of the request for `url`: the request line, the `Host` header
/// and the blank line that ends the headers, each closed by CR LF.
pub open spec fn request_text(url: UrlView) -> Seq<char> {
    "GET "@ + request_path(url) + " HTTP/1.1\r\n"@ + "Host: "@ + url.host + "\r\n"@ + "\r\n"@
}

/// Writes out the request for `url`.
pub fn encode_request(url: &URL) -> (r: String)
    ensures
        r@ == request_text(url@),
{
    let mut request = "GET ".to_owned();
    match &url.path {
        Some(p) => request.append(p.as_str()),
        None => request.append("/"),
    }
    request.append(" HTTP/1.1\r\n");
    request.append("Host: ");
    request.append(url.host.as_str());
    request.append("\r\n");
    request.append("\r\n");
    request
}

} // verus!
