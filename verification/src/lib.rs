//! A minimal HTTP/1.1 client core without I/O.
//!
//! The crate turns a URL into a request, and the lines and bytes of a reply
//! into a [`Response`]. It never touches a socket: an [`Exchange`] says which
//! transport operation comes next, and the caller performs it.

pub mod error;
pub mod exchange;
pub mod request;
pub mod response;
pub mod text;
pub mod url;

pub use crate::error::HttpClientError;
pub use crate::exchange::{Action, Event, Exchange, Phase};
pub use crate::response::{BodyLength, Response};
pub use crate::url::URL;
