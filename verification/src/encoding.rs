//! Body encodings and their negotiation from an `Accept-Encoding` value.
use crate::text::{
    chars_of, find_char, is_item, lemma_some_item_is_membership, range_equals, some_item_is,
    str_equal, trim_bounds, trimmed_between,
};
use flate2::write::GzEncoder;
use flate2::Compression;
use std::io::Write;
use vstd::prelude::*;
use vstd::string::StringExecFns;

verus! {

/// The encodings that a body can be sent in.
#[derive(Debug, PartialEq, Eq, Structural, Copy, Clone)]
pub enum ContentEncoding {
    GZip,
}

/// `std::io::Error`, carried through as an opaque value: nothing is claimed of what it
/// holds.
#[verifier::external_type_specification]
#[verifier::external_body]
pub struct ExIoError(std::io::Error);

/// What the encoder makes of `data` at its default compression level, with the header it
/// writes when none is configured: the gzip stream, or nothing where the encoder reports
/// a failure.
pub uninterp spec fn gzip_stream(data: Seq<u8>) -> Option<Seq<u8>>;

/// Runs `flate2::write::GzEncoder` over `body` into a fresh vector: `new` with the default
/// `Compression`, `write_all`, then `finish`. The header that `new` builds holds no time
/// stamp and a fixed operating-system byte, and the sink is a vector in memory, so what
/// the call returns, a stream or a failure, depends on `body` alone. The contract gives
/// that outcome its name; it does not claim which of the two it is.
#[verifier::external_body]
fn gzip_encode_body(body: &[u8]) -> (r: Result<Vec<u8>, std::io::Error>)
    ensures
        match r {
            Ok(v) => gzip_stream(body@) == Some(v@),
            Err(_) => gzip_stream(body@) is None,
        },
{
    let mut encoder = GzEncoder::new(Vec::new(), Compression::default());
    encoder.write_all(body)?;
    encoder.finish()
}

impl ContentEncoding {
    /// The token that names this encoding in headers.
    pub open spec fn text(self) -> Seq<char> {
        "gzip"@
    }

    /// The encoding that the token `s` names, if any. The match is exact.
    pub open spec fn named_by(s: Seq<char>) -> Option<ContentEncoding> {
        if s == "gzip"@ {
            Some(ContentEncoding::GZip)
        } else {
            None
        }
    }

    /// The encoding chosen for an `Accept-Encoding` value: the value is a comma-separated
    /// list, each item is trimmed, and gzip is chosen if any item names it, wherever it
    /// stands in the list.
    pub open spec fn chosen_for(hdr_val: Seq<char>) -> Option<ContentEncoding> {
        if some_item_is(hdr_val, 0, ',', "gzip"@) {
            Some(ContentEncoding::GZip)
        } else {
            None
        }
    }

    /// The bytes that stand for `body` on the wire under this encoding, or nothing where
    /// the encoder cannot encode it.
    pub open spec fn encoded(self, body: Seq<u8>) -> Option<Seq<u8>> {
        match self {
            ContentEncoding::GZip => gzip_stream(body),
        }
    }

    /// Reads one encoding token.
    pub fn parse(s: &str) -> (r: Result<ContentEncoding, String>)
        ensures
            match r {
                Ok(e) => Self::named_by(s@) == Some(e),
                Err(msg) => Self::named_by(s@) is None && msg@
                    == "Only gzip supported. Proposed encoding schemes received: "@ + s@,
            },
    {
        if str_equal(s, "gzip") {
            Ok(ContentEncoding::GZip)
        } else {
            let mut msg = "Only gzip supported. Proposed encoding schemes received: ".to_owned();
            msg.append(s);
            Err(msg)
        }
    }

    /// The token that names this encoding in headers.
    pub fn as_str(&self) -> (s: &'static str)
        ensures
            s@ == self.text(),
    {
        "gzip"
    }

    /// The token that names this encoding in headers, as an owned string.
    pub fn to_string(&self) -> (s: String)
        ensures
            s@ == self.text(),
    {
        self.as_str().to_owned()
    }

    /// Encodes `body`, which is left as it is. The call succeeds exactly where the encoder
    /// makes a stream of these bytes, and then returns that stream.
    pub fn encode_body(self, body: &[u8]) -> (r: Result<Vec<u8>, std::io::Error>)
        ensures
            match r {
                Ok(v) => self.encoded(body@) == Some(v@),
                Err(_) => self.encoded(body@) is None,
            },
    {
        match self {
            ContentEncoding::GZip => gzip_encode_body(body),
        }
    }

    /// Picks the encoding for an `Accept-Encoding` header value.
    pub fn from_header(hdr_val: &str) -> (r: Option<ContentEncoding>)
        ensures
            r == Self::chosen_for(hdr_val@),
    {
        let v = chars_of(hdr_val);
        let word = chars_of("gzip");
        let n = v.len();
        let mut start: usize = 0;
        loop
            invariant
                n == v.len(),
                v@ == hdr_val@,
                word@ == "gzip"@,
                start <= n,
                some_item_is(v@, 0, ',', word@) == some_item_is(v@, start as int, ',', word@),
            decreases n - start,
        {
            let end = find_char(&v, start, ',');
            let (a, b) = trim_bounds(&v, start, end);
            if range_equals(&v, a, b, &word) {
                return Some(ContentEncoding::GZip);
            }
            if end >= n {
                return None;
            }
            start = end + 1;
        }
    }
}

/// Gzip is chosen exactly where it is an item of the list, wherever in the list it stands.
pub proof fn lemma_gzip_chosen_by_membership(hdr_val: Seq<char>)
    ensures
        ContentEncoding::chosen_for(hdr_val) == Some(ContentEncoding::GZip) <==> exists|
            lo: int,
            hi: int,
        | #[trigger]
            is_item(hdr_val, ',', lo, hi) && trimmed_between(hdr_val, lo, hi) == "gzip"@,
        ContentEncoding::chosen_for(hdr_val) is None <==> !(exists|lo: int, hi: int| #[trigger]
            is_item(hdr_val, ',', lo, hi) && trimmed_between(hdr_val, lo, hi) == "gzip"@),
{
    lemma_some_item_is_membership(hdr_val, ',', "gzip"@);
}

impl std::str::FromStr for ContentEncoding {
    type Err = String;

    fn from_str(encoding_scheme_str: &str) -> (r: Result<Self, Self::Err>)
        ensures
            match r {
                Ok(e) => ContentEncoding::named_by(encoding_scheme_str@) == Some(e),
                Err(msg) => ContentEncoding::named_by(encoding_scheme_str@) is None && msg@
                    == "Only gzip supported. Proposed encoding schemes received: "@
                    + encoding_scheme_str@,
            },
    {
        ContentEncoding::parse(encoding_scheme_str)
    }
}

} // verus!
