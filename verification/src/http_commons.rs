//! Protocol versions shared by requests and responses.
use crate::text::str_equal;
use vstd::prelude::*;

verus! {

/// The protocol versions that a request may name.
#[derive(Debug, Copy, Clone, PartialEq, Eq, Structural)]
pub enum HttpVersion {
    Http11,
    Http2,
}

/// The text that was found where a protocol version was expected.
#[derive(Debug)]
pub struct HttpVersionParseError {
    pub found: String,
}

impl HttpVersion {
    /// The version as it is written on the wire.
    pub open spec fn text(self) -> Seq<char> {
        match self {
            HttpVersion::Http11 => "HTTP/1.1"@,
            HttpVersion::Http2 => "HTTP/2"@,
        }
    }

    /// The version that `s` names, if it names one. The match is exact and case-sensitive.
    pub open spec fn named_by(s: Seq<char>) -> Option<HttpVersion> {
        if s == "HTTP/1.1"@ {
            Some(HttpVersion::Http11)
        } else if s == "HTTP/2"@ {
            Some(HttpVersion::Http2)
        } else {
            None
        }
    }

    /// Reads a protocol version; any text but the two known ones is handed back as the error.
    pub fn parse(s: &str) -> (r: Result<HttpVersion, HttpVersionParseError>)
        ensures
            match r {
                Ok(v) => Self::named_by(s@) == Some(v),
                Err(e) => Self::named_by(s@) is None && e.found@ == s@,
            },
    {
        if str_equal(s, "HTTP/1.1") {
            Ok(HttpVersion::Http11)
        } else if str_equal(s, "HTTP/2") {
            Ok(HttpVersion::Http2)
        } else {
            Err(HttpVersionParseError { found: s.to_owned() })
        }
    }

    /// The version as it is written on the wire.
    pub fn as_str(&self) -> (s: &'static str)
        ensures
            s@ == self.text(),
    {
        match self {
            HttpVersion::Http11 => "HTTP/1.1",
            HttpVersion::Http2 => "HTTP/2",
        }
    }

    /// The version as it is written on the wire, as an owned string.
    pub fn to_string(&self) -> (s: String)
        ensures
            s@ == self.text(),
    {
        self.as_str().to_owned()
    }
}

impl std::str::FromStr for HttpVersion {
    type Err = HttpVersionParseError;

    fn from_str(s: &str) -> (r: Result<Self, Self::Err>)
        ensures
            match r {
                Ok(v) => HttpVersion::named_by(s@) == Some(v),
                Err(e) => HttpVersion::named_by(s@) is None && e.found@ == s@,
            },
    {
        HttpVersion::parse(s)
    }
}

/// Every version is named by its own wire text, and by no other text.
pub proof fn lemma_version_text_round_trip(v: HttpVersion)
    ensures
        HttpVersion::named_by(v.text()) == Some(v),
{
    reveal_strlit("HTTP/1.1");
    reveal_strlit("HTTP/2");
    if v == HttpVersion::Http2 {
        assert("HTTP/2"@.len() != "HTTP/1.1"@.len());
    }
}

} // verus!
