//! Checking the command line's values: a URL, and `key=value` pairs for a
//! request body.

use vstd::prelude::*;

verus! {

/// A key and a value for the body of a request.
#[derive(Debug, Clone, PartialEq)]
pub struct KvPair {
    pub k: String,
    pub v: String,
}

/// Why a text is no `key=value` pair.
#[derive(Clone, Copy, Debug, PartialEq, Eq, Structural)]
pub enum PairError {
    NoKey,
    NoValue,
}

impl PairError {
    pub fn message(self) -> (m: &'static str)
        ensures
            m@ == match self {
                PairError::NoKey => "No key found"@,
                PairError::NoValue => "No value found"@,
            },
    {
        match self {
            PairError::NoKey => "No key found",
            PairError::NoValue => "No value found",
        }
    }
}

impl KvPair {
    /// Whether this pair is `s` cut at its first `=`.
    pub open spec fn is_split_of(&self, s: Seq<char>) -> bool {
        s == self.k@ + seq!['='] + self.v@ && !self.k@.contains('=')
    }

    /// Cuts a text at its first `=` into key and value; either may be empty.
    /// A text without `=` has no value and is refused.
    pub fn from_str(s: &str) -> (r: Result<KvPair, PairError>)
        ensures
            match r {
                Ok(pair) => pair.is_split_of(s@),
                Err(e) => e == PairError::NoValue && !s@.contains('='),
            },
    {
        let n: usize = s.unicode_len();
        let mut i: usize = 0;
        while i < n
            invariant
                n == s@.len(),
                i <= n,
                forall|j: int| 0 <= j < i ==> s@[j] != '=',
            decreases n - i,
        {
            if s.get_char(i) == '=' {
                let k = String::from_str(s.substring_char(0, i));
                let v = String::from_str(s.substring_char(i + 1, n));
                proof {
                    assert(s@ =~= k@ + seq!['='] + v@);
                }
                return Ok(KvPair { k, v });
            }
            i += 1;
        }
        Err(PairError::NoValue)
    }
}

/// Reads a `key=value` argument.
pub fn parse_kv_pair(s: &str) -> (r: Result<KvPair, PairError>)
    ensures
        match r {
            Ok(pair) => pair.is_split_of(s@),
            Err(e) => e == PairError::NoValue && !s@.contains('='),
        },
{
    KvPair::from_str(s)
}

/// A cut at an `=` with no `=` before it is the cut at the first `=`: a text
/// splits into key and value in one way only.
pub proof fn lemma_split_unique(s: Seq<char>, a: KvPair, b: KvPair)
    requires
        a.is_split_of(s),
        b.is_split_of(s),
    ensures
        a.k@ == b.k@,
        a.v@ == b.v@,
{
    let (ka, kb) = (a.k@, b.k@);
    let sa = ka + seq!['='] + a.v@;
    let sb = kb + seq!['='] + b.v@;
    assert(sa[ka.len() as int] == '=');
    assert(sb[kb.len() as int] == '=');
    if ka.len() < kb.len() {
        assert(kb[ka.len() as int] == sb[ka.len() as int]);
        assert(kb.contains('='));
    }
    if kb.len() < ka.len() {
        assert(ka[kb.len() as int] == sa[kb.len() as int]);
        assert(ka.contains('='));
    }
    assert(ka =~= s.subrange(0, ka.len() as int));
    assert(kb =~= s.subrange(0, kb.len() as int));
    assert(a.v@ =~= s.subrange(ka.len() as int + 1, s.len() as int));
    assert(b.v@ =~= s.subrange(kb.len() as int + 1, s.len() as int));
}

/// Why a text is no URL.
#[derive(Debug, Clone)]
pub struct UrlError {
    pub message: String,
}

/// What the URL parser objects to in a text: its message, or nothing where
/// the text is an absolute URL.
pub uninterp spec fn url_error(s: Seq<char>) -> Option<Seq<char>>;

/// Checks that a text parses as a URL.
///
/// Trusted: calls `Url::from_str` of the `url` crate, as `reqwest` hands it
/// on, drops the parsed value and keeps the error's message. The contract
/// only gives the outcome its name, `url_error`.
#[verifier::external_body]
fn check_url(s: &str) -> (r: Result<(), String>)
    ensures
        match r {
            Ok(_) => url_error(s@) is None,
            Err(m) => url_error(s@) == Some(m@),
        },
{
    match s.parse::<reqwest::Url>() {
        Ok(_) => Ok(()),
        Err(e) => Err(e.to_string()),
    }
}

/// What `parse_url` returns for a text, given the parser's objection to it.
pub fn url_result(s: &str, objection: Option<String>) -> (r: Result<String, UrlError>)
    ensures
        match r {
            Ok(u) => objection is None && u@ == s@,
            Err(e) => objection == Some(e.message),
        },
{
    match objection {
        None => Ok(String::from_str(s)),
        Some(message) => Err(UrlError { message }),
    }
}

/// Accepts a text that parses as a URL and hands it back unchanged.
pub fn parse_url(s: &str) -> (r: Result<String, UrlError>)
    ensures
        match r {
            Ok(u) => url_error(s@) is None && u@ == s@,
            Err(e) => url_error(s@) == Some(e.message@),
        },
{
    match check_url(s) {
        Ok(_) => url_result(s, None),
        Err(m) => url_result(s, Some(m)),
    }
}

} // verus!
