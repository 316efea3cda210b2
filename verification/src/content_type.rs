//! Finding and parsing the media type a response declares.

use crate::response::Header;
use crate::text::{eq_ignore_case, fold, push_char};
use vstd::prelude::*;

verus! {

/// A parsed media type: `primary/subtype`, an optional `+suffix`, and whether
/// any `; name=value` parameters follow.
#[derive(Clone, Debug)]
pub struct MediaType {
    pub primary: String,
    pub subtype: String,
    pub suffix: Option<String>,
    pub has_parameters: bool,
}

/// The parts of a media type as mathematical values.
pub type MediaParts = (Seq<char>, Seq<char>, Option<Seq<char>>, bool);

impl MediaType {
    pub open spec fn parts(&self) -> MediaParts {
        (
            self.primary@,
            self.subtype@,
            match self.suffix {
                Some(s) => Some(s@),
                None => None,
            },
            self.has_parameters,
        )
    }

    /// Whether this is exactly `application/json`: no suffix, no parameters.
    pub fn is_json(&self) -> (yes: bool)
        ensures
            yes == is_json_parts(self.parts()),
    {
        eq_str(self.primary.as_str(), "application") && eq_str(self.subtype.as_str(), "json")
            && self.suffix.is_none() && !self.has_parameters
    }
}

/// Whether the parts are those of exactly `application/json`.
pub open spec fn is_json_parts(p: MediaParts) -> bool {
    &&& p.0 == "application"@
    &&& p.1 == "json"@
    &&& p.2 is None
    &&& !p.3
}

/// Whether two texts are the same, character for character.
pub fn eq_str(a: &str, b: &str) -> (same: bool)
    ensures
        same == (a@ == b@),
{
    let n: usize = a.unicode_len();
    if n != b.unicode_len() {
        return false;
    }
    let mut i: usize = 0;
    while i < n
        invariant
            n == a@.len(),
            n == b@.len(),
            i <= n,
            forall|j: int| 0 <= j < i ==> a@[j] == b@[j],
        decreases n - i,
    {
        if a.get_char(i) != b.get_char(i) {
            return false;
        }
        i += 1;
    }
    assert(a@ =~= b@);
    true
}

/// What the `mime` parser makes of a text: the parts of the media type, or
/// nothing where it rejects the text.
pub uninterp spec fn mime_parse(text: Seq<char>) -> Option<MediaParts>;

/// Parses a media type.
///
/// Trusted: calls `mime::Mime::from_str` (through `str::parse`) and copies the
/// type, subtype, suffix and the presence of parameters out of the result. The
/// contract only gives the outcome its name, `mime_parse`.
#[verifier::external_body]
fn parse_mime(text: &str) -> (r: Option<MediaType>)
    ensures
        match r {
            Some(m) => mime_parse(text@) == Some(m.parts()),
            None => mime_parse(text@) is None,
        },
{
    match text.parse::<mime::Mime>() {
        Ok(m) => Some(
            MediaType {
                primary: m.type_().as_str().to_string(),
                subtype: m.subtype().as_str().to_string(),
                suffix: m.suffix().map(|s| s.as_str().to_string()),
                has_parameters: m.params().next().is_some(),
            },
        ),
        Err(_) => None,
    }
}

/// Whether a byte may stand in a header value that reads as text: visible
/// ASCII, a space, or a tab.
pub open spec fn is_text_byte(b: u8) -> bool {
    (32 <= b && b < 127) || b == 9
}

/// The text of a header value, where every byte of it is a text byte.
pub open spec fn header_text(value: Seq<u8>) -> Option<Seq<char>> {
    if forall|i: int| 0 <= i < value.len() ==> is_text_byte(#[trigger] value[i]) {
        Some(Seq::new(value.len(), |i: int| value[i] as char))
    } else {
        None
    }
}

/// Decodes a header value as text; `None` where some byte is not a text byte.
pub fn decode_text(value: &Vec<u8>) -> (r: Option<String>)
    ensures
        match r {
            Some(t) => header_text(value@) == Some(t@),
            None => header_text(value@) is None,
        },
{
    let mut out = String::new();
    let mut i: usize = 0;
    while i < value.len()
        invariant
            i <= value@.len(),
            forall|j: int| 0 <= j < i ==> is_text_byte(#[trigger] value@[j]),
            out@ == Seq::new(i as nat, |j: int| value@[j] as char),
        decreases value@.len() - i,
    {
        let b: u8 = value[i];
        if !((32 <= b && b < 127) || b == 9) {
            assert(!is_text_byte(value@[i as int]));
            return None;
        }
        push_char(&mut out, b as char);
        assert(out@ =~= Seq::new((i + 1) as nat, |j: int| value@[j] as char));
        i += 1;
    }
    Some(out)
}

/// The position of the first header at or after `from` whose name is `name`
/// up to ASCII letter case.
pub open spec fn first_named(headers: Seq<Header>, name: Seq<char>, from: int) -> Option<int>
    decreases headers.len() - from,
{
    if from < 0 || from >= headers.len() {
        None
    } else if fold(headers[from].name@) == fold(name) {
        Some(from)
    } else {
        first_named(headers, name, from + 1)
    }
}

/// Finds the first header with the given name, ignoring ASCII letter case.
pub fn find_header(headers: &Vec<Header>, name: &str) -> (r: Option<usize>)
    ensures
        match r {
            Some(i) => i < headers@.len() && first_named(headers@, name@, 0) == Some(i as int),
            None => first_named(headers@, name@, 0) is None,
        },
{
    let mut i: usize = 0;
    while i < headers.len()
        invariant
            i <= headers@.len(),
            first_named(headers@, name@, 0) == first_named(headers@, name@, i as int),
        decreases headers@.len() - i,
    {
        if eq_ignore_case(headers[i].name.as_str(), name) {
            return Some(i);
        }
        i += 1;
    }
    None
}

/// The media type that a list of headers declares: the first `Content-Type`
/// header, read as text and parsed. Nothing where the header is absent, its
/// value is not text, or the parser rejects it.
pub open spec fn declared_type(headers: Seq<Header>) -> Option<MediaParts> {
    match first_named(headers, "content-type"@, 0) {
        None => None,
        Some(i) => match header_text(headers[i].value@) {
            None => None,
            Some(t) => mime_parse(t),
        },
    }
}

/// Resolves the media type a response declares. Never fails: a missing,
/// undecodable or malformed header gives `None`.
pub fn get_content_type(headers: &Vec<Header>) -> (r: Option<MediaType>)
    ensures
        match r {
            Some(m) => declared_type(headers@) == Some(m.parts()),
            None => declared_type(headers@) is None,
        },
{
    match find_header(headers, "content-type") {
        None => None,
        Some(i) => match decode_text(&headers[i].value) {
            None => None,
            Some(t) => parse_mime(t.as_str()),
        },
    }
}

} // verus!
