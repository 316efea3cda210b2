//! The plain-value picture of a completed HTTP response.

use vstd::prelude::*;

verus! {

/// The protocol version a response was sent with.
#[derive(Clone, Copy, Debug, PartialEq, Eq, Structural)]
pub enum Version {
    Http09,
    Http10,
    Http11,
    H2,
    H3,
}

impl Version {
    /// The text a version is shown as.
    pub open spec fn text(self) -> Seq<char> {
        match self {
            Version::Http09 => "HTTP/0.9"@,
            Version::Http10 => "HTTP/1.0"@,
            Version::Http11 => "HTTP/1.1"@,
            Version::H2 => "HTTP/2.0"@,
            Version::H3 => "HTTP/3.0"@,
        }
    }

    pub fn as_str(self) -> (s: &'static str)
        ensures
            s@ == self.text(),
    {
        match self {
            Version::Http09 => "HTTP/0.9",
            Version::Http10 => "HTTP/1.0",
            Version::Http11 => "HTTP/1.1",
            Version::H2 => "HTTP/2.0",
            Version::H3 => "HTTP/3.0",
        }
    }
}

/// One header line: its name and the raw bytes of its value.
#[derive(Clone, Debug)]
pub struct Header {
    pub name: String,
    pub value: Vec<u8>,
}

/// A completed response: version, numeric status, headers in arrival order,
/// and the body as text.
#[derive(Clone, Debug)]
pub struct Response {
    pub version: Version,
    pub status: u16,
    pub headers: Vec<Header>,
    pub body: String,
}

} // verus!
