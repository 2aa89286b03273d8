//! Requests: the structured form, the errors of reading one, and the steps that turn the
//! lines and bytes of a connection into a request.
use crate::decimal::{parse_length, parsed_length, LengthError};
use crate::headers::{value_of, with_field, Field, Headers};
use crate::http_commons::{HttpVersion, HttpVersionParseError};
use crate::http_response::{Buildable, Builder};
use crate::text::{
    chars_of, find_char, find_from, lemma_find_from_bounds, str_equal, trim_bounds,
    trimmed_between, word_bounds, words,
};
use vstd::prelude::*;
use vstd::string::StringExecFns;
use vstd::utf8::{decode_utf8, valid_utf8};

verus! {

/// The methods that the server answers.
#[derive(Debug, PartialEq, Eq, Structural, Clone, Copy)]
pub enum HttpMethod {
    Get,
    Post,
}

/// The text that was found where a method was expected.
#[derive(Debug)]
pub struct HttpMethodParseError {
    pub found: String,
}

impl HttpMethod {
    /// The method that `s` names, if it names one. The match is exact and case-sensitive.
    pub open spec fn named_by(s: Seq<char>) -> Option<HttpMethod> {
        if s == "GET"@ {
            Some(HttpMethod::Get)
        } else if s == "POST"@ {
            Some(HttpMethod::Post)
        } else {
            None
        }
    }

    /// Reads a method; any text but the two known ones is handed back as the error.
    pub fn parse(s: &str) -> (r: Result<HttpMethod, HttpMethodParseError>)
        ensures
            match r {
                Ok(m) => Self::named_by(s@) == Some(m),
                Err(e) => Self::named_by(s@) is None && e.found@ == s@,
            },
    {
        if str_equal(s, "GET") {
            Ok(HttpMethod::Get)
        } else if str_equal(s, "POST") {
            Ok(HttpMethod::Post)
        } else {
            Err(HttpMethodParseError { found: s.to_owned() })
        }
    }
}

impl std::str::FromStr for HttpMethod {
    type Err = HttpMethodParseError;

    fn from_str(s: &str) -> (r: Result<Self, Self::Err>)
        ensures
            match r {
                Ok(m) => HttpMethod::named_by(s@) == Some(m),
                Err(e) => HttpMethod::named_by(s@) is None && e.found@ == s@,
            },
    {
        HttpMethod::parse(s)
    }
}

/// A request as it was read from a connection.
#[derive(Debug)]
pub struct HttpRequest {
    pub http_method: HttpMethod,
    pub request_target: String,
    pub protocol_version: HttpVersion,
    pub headers: Headers,
    pub body: Option<String>,
}

/// A request as a mathematical value.
pub struct RequestView {
    pub http_method: HttpMethod,
    pub request_target: Seq<char>,
    pub protocol_version: HttpVersion,
    pub headers: Seq<Field>,
    pub body: Option<Seq<char>>,
}

impl View for HttpRequest {
    type V = RequestView;

    open spec fn view(&self) -> RequestView {
        RequestView {
            http_method: self.http_method,
            request_target: self.request_target@,
            protocol_version: self.protocol_version,
            headers: self.headers@,
            body: match self.body {
                Some(b) => Some(b@),
                None => None,
            },
        }
    }
}

/// Why no request could be read from a connection.
#[derive(Debug)]
pub enum RequestError {
    /// Reading from the connection failed; the text is the failure's description.
    Io(String),
    /// The request line does not hold exactly three words; the text is the line.
    RequestLine(String),
    /// The first word of the request line is no known method; the text is that word.
    Method(String),
    /// The third word of the request line is no known version; the text is that word.
    ProtocolVersion(String),
    /// A header line holds no colon; the text is the line.
    Header(String),
    /// The body is not UTF-8; the text describes where it stops being so.
    BodyUtf8(String),
    /// The value of `Content-Length` is no length.
    BodyContentLength(LengthError),
}

/// A request error as a mathematical value.
pub enum RequestErrorView {
    Io(Seq<char>),
    RequestLine(Seq<char>),
    Method(Seq<char>),
    ProtocolVersion(Seq<char>),
    Header(Seq<char>),
    BodyUtf8(Seq<char>),
    BodyContentLength(LengthError),
}

impl View for RequestError {
    type V = RequestErrorView;

    open spec fn view(&self) -> RequestErrorView {
        match self {
            RequestError::Io(s) => RequestErrorView::Io(s@),
            RequestError::RequestLine(s) => RequestErrorView::RequestLine(s@),
            RequestError::Method(s) => RequestErrorView::Method(s@),
            RequestError::ProtocolVersion(s) => RequestErrorView::ProtocolVersion(s@),
            RequestError::Header(s) => RequestErrorView::Header(s@),
            RequestError::BodyUtf8(s) => RequestErrorView::BodyUtf8(s@),
            RequestError::BodyContentLength(e) => RequestErrorView::BodyContentLength(*e),
        }
    }
}

/// The description that decoding gives of the first fault in bytes that are not UTF-8.
pub uninterp spec fn utf8_fault_text(bytes: Seq<u8>) -> Seq<char>;

/// Calls `String::from_utf8` and, on failure, renders the error it returns as text.
/// The contract claims that the call succeeds exactly on well-formed UTF-8, that the
/// string then holds the decoded characters, and that the text of a failure depends on
/// the bytes alone.
#[verifier::external_body]
fn string_from_utf8(bytes: Vec<u8>) -> (r: Result<String, String>)
    ensures
        match r {
            Ok(s) => valid_utf8(bytes@) && s@ == decode_utf8(bytes@),
            Err(msg) => !valid_utf8(bytes@) && msg@ == utf8_fault_text(bytes@),
        },
{
    match String::from_utf8(bytes) {
        Ok(s) => Ok(s),
        Err(e) => Err(format!("{e}")),
    }
}

impl RequestError {
    /// The sentence that describes the error.
    pub open spec fn message(self) -> Seq<char> {
        match self {
            RequestError::RequestLine(s) => "malformed request line: "@ + s@,
            RequestError::Method(m) => "unsupported HTTP method: "@ + m@,
            RequestError::ProtocolVersion(v) => "unsupported HTTP protocol version: "@ + v@,
            RequestError::Header(h) => "invalid header: "@ + h@,
            RequestError::BodyUtf8(b) => "body is not valid UTF-8: "@ + b@,
            RequestError::BodyContentLength(l) => "error parsing the body length: "@ + l.text(),
            RequestError::Io(e) => "I/O while reading request: "@ + e@,
        }
    }

    /// The sentence that describes the error.
    pub fn to_string(&self) -> (s: String)
        ensures
            s@ == self.message(),
    {
        match self {
            RequestError::RequestLine(s) => {
                "malformed request line: ".to_owned().concat(s.as_str())
            },
            RequestError::Method(m) => "unsupported HTTP method: ".to_owned().concat(m.as_str()),
            RequestError::ProtocolVersion(v) => {
                "unsupported HTTP protocol version: ".to_owned().concat(v.as_str())
            },
            RequestError::Header(h) => "invalid header: ".to_owned().concat(h.as_str()),
            RequestError::BodyUtf8(b) => "body is not valid UTF-8: ".to_owned().concat(b.as_str()),
            RequestError::BodyContentLength(l) => {
                "error parsing the body length: ".to_owned().concat(l.as_str())
            },
            RequestError::Io(e) => "I/O while reading request: ".to_owned().concat(e.as_str()),
        }
    }

    /// The request error for a method that is not known.
    pub fn from_method_error(e: HttpMethodParseError) -> (r: RequestError)
        ensures
            r == RequestError::Method(e.found),
    {
        RequestError::Method(e.found)
    }

    /// The request error for a version that is not known.
    pub fn from_version_error(e: HttpVersionParseError) -> (r: RequestError)
        ensures
            r == RequestError::ProtocolVersion(e.found),
    {
        RequestError::ProtocolVersion(e.found)
    }
}

/// Whether a connection stays open after a request with these headers: it does unless
/// `Connection` is set to exactly `close`.
pub open spec fn stays_open(h: Seq<Field>) -> bool {
    value_of(h, "Connection"@) != Some("close"@)
}

/// What the end of the header block looks like as a line.
pub open spec fn is_blank_line(line: Seq<char>) -> bool {
    line == "\r\n"@
}

/// The name in a header line: what stands before the first colon.
pub open spec fn header_name(line: Seq<char>) -> Seq<char> {
    line.subrange(0, find_from(line, 0, ':'))
}

/// The value in a header line: what stands after the first colon, trimmed.
pub open spec fn header_value(line: Seq<char>) -> Seq<char> {
    trimmed_between(line, find_from(line, 0, ':') + 1, line.len() as int)
}

/// What a request line says: it must hold exactly three words, a known method, a target
/// and a known version. A wrong number of words is reported first, then the method, then
/// the version.
pub open spec fn request_line_parsed(line: Seq<char>) -> Result<
    (HttpMethod, Seq<char>, HttpVersion),
    RequestErrorView,
> {
    let w = words(line);
    if w.len() != 3 {
        Err(RequestErrorView::RequestLine(line))
    } else {
        match HttpMethod::named_by(w[0]) {
            None => Err(RequestErrorView::Method(w[0])),
            Some(m) => match HttpVersion::named_by(w[2]) {
                None => Err(RequestErrorView::ProtocolVersion(w[2])),
                Some(v) => Ok((m, w[1], v)),
            },
        }
    }
}

/// What a line of the header block says: the blank line ends the block; any other line
/// must hold a colon, and then gives a name and a value.
pub open spec fn header_line_parsed(line: Seq<char>) -> Result<
    Option<Field>,
    RequestErrorView,
> {
    if is_blank_line(line) {
        Ok(None)
    } else if !line.contains(':') {
        Err(RequestErrorView::Header(line))
    } else {
        Ok(Some((header_name(line), header_value(line))))
    }
}

/// How many bytes of body follow a header block: as many as `Content-Length` says, and
/// no body at all without that header. The header's name is matched exactly.
pub open spec fn body_length_of(h: Seq<Field>) -> Result<Option<nat>, RequestErrorView> {
    match value_of(h, "Content-Length"@) {
        None => Ok(None),
        Some(v) => match parsed_length(v) {
            Ok(n) => Ok(Some(n)),
            Err(e) => Err(RequestErrorView::BodyContentLength(e)),
        },
    }
}

/// The text of a body: the bytes decoded as UTF-8, which they must be.
pub open spec fn body_parsed(bytes: Seq<u8>) -> Result<Seq<char>, RequestErrorView> {
    if valid_utf8(bytes) {
        Ok(decode_utf8(bytes))
    } else {
        Err(RequestErrorView::BodyUtf8(utf8_fault_text(bytes)))
    }
}

/// Reads a request line.
pub fn parse_request_line(line: &str) -> (r: Result<
    (HttpMethod, String, HttpVersion),
    RequestError,
>)
    ensures
        match r {
            Ok((m, target, v)) => request_line_parsed(line@) == Ok::<
                (HttpMethod, Seq<char>, HttpVersion),
                RequestErrorView,
            >((m, target@, v)),
            Err(e) => request_line_parsed(line@) == Err::<
                (HttpMethod, Seq<char>, HttpVersion),
                RequestErrorView,
            >(e@),
        },
{
    let v = chars_of(line);
    let bounds = word_bounds(&v);
    if bounds.len() != 3 {
        return Err(RequestError::RequestLine(line.to_owned()));
    }
    let method_word = line.substring_char(bounds[0].0, bounds[0].1);
    let target_word = line.substring_char(bounds[1].0, bounds[1].1);
    let version_word = line.substring_char(bounds[2].0, bounds[2].1);
    let method = match HttpMethod::parse(method_word) {
        Ok(m) => m,
        Err(e) => {
            return Err(RequestError::from_method_error(e));
        },
    };
    let version = match HttpVersion::parse(version_word) {
        Ok(v) => v,
        Err(e) => {
            return Err(RequestError::from_version_error(e));
        },
    };
    Ok((method, target_word.to_owned(), version))
}

/// Reads one line of the header block.
pub fn parse_header_line(line: &str) -> (r: Result<Option<(String, String)>, RequestError>)
    ensures
        match r {
            Ok(None) => header_line_parsed(line@) == Ok::<Option<Field>, RequestErrorView>(None),
            Ok(Some((name, value))) => header_line_parsed(line@) == Ok::<
                Option<Field>,
                RequestErrorView,
            >(Some((name@, value@))),
            Err(e) => header_line_parsed(line@) == Err::<Option<Field>, RequestErrorView>(e@),
        },
{
    if str_equal(line, "\r\n") {
        return Ok(None);
    }
    let v = chars_of(line);
    let k = find_char(&v, 0, ':');
    proof {
        lemma_find_from_bounds(v@, 0, ':');
    }
    if k >= v.len() {
        return Err(RequestError::Header(line.to_owned()));
    }
    let (a, b) = trim_bounds(&v, k + 1, v.len());
    let name = line.substring_char(0, k);
    let value = line.substring_char(a, b);
    Ok(Some((name.to_owned(), value.to_owned())))
}

/// How many bytes of body follow the header block.
pub fn body_length(headers: &Headers) -> (r: Result<Option<usize>, RequestError>)
    ensures
        match r {
            Ok(None) => body_length_of(headers@) == Ok::<Option<nat>, RequestErrorView>(None),
            Ok(Some(n)) => body_length_of(headers@) == Ok::<Option<nat>, RequestErrorView>(
                Some(n as nat),
            ),
            Err(e) => body_length_of(headers@) == Err::<Option<nat>, RequestErrorView>(e@),
        },
{
    match headers.get("Content-Length") {
        None => Ok(None),
        Some(text) => match parse_length(text.as_str()) {
            Ok(n) => Ok(Some(n)),
            Err(e) => Err(RequestError::BodyContentLength(e)),
        },
    }
}

/// Turns the bytes of a body into text.
pub fn body_from_bytes(bytes: Vec<u8>) -> (r: Result<String, RequestError>)
    ensures
        match r {
            Ok(s) => body_parsed(bytes@) == Ok::<Seq<char>, RequestErrorView>(s@),
            Err(e) => body_parsed(bytes@) == Err::<Seq<char>, RequestErrorView>(e@),
        },
{
    match string_from_utf8(bytes) {
        Ok(s) => Ok(s),
        Err(msg) => Err(RequestError::BodyUtf8(msg)),
    }
}

/// Builds a request field by field, starting from the default request.
pub struct HttpRequestBuilder {
    http_request: HttpRequest,
}

/// The request that a fresh builder holds: a `GET` of the empty target over HTTP/1.1,
/// without headers or body.
pub open spec fn default_request() -> RequestView {
    RequestView {
        http_method: HttpMethod::Get,
        request_target: Seq::empty(),
        protocol_version: HttpVersion::Http11,
        headers: Seq::empty(),
        body: None,
    }
}

impl View for HttpRequestBuilder {
    type V = RequestView;

    closed spec fn view(&self) -> RequestView {
        self.http_request@
    }
}

impl Builder<HttpRequest> for HttpRequestBuilder {
    fn new() -> (b: Self)
        ensures
            b@ == default_request(),
    {
        Self {
            http_request: HttpRequest {
                http_method: HttpMethod::Get,
                request_target: String::new(),
                protocol_version: HttpVersion::Http11,
                headers: Headers::new(),
                body: None,
            },
        }
    }

    fn build(self) -> (r: HttpRequest)
        ensures
            r@ == self@,
    {
        self.http_request
    }
}

impl HttpRequestBuilder {
    /// Sets the method.
    pub fn with_method(&mut self, method: HttpMethod)
        ensures
            final(self)@ == (RequestView { http_method: method, ..old(self)@ }),
    {
        self.http_request.http_method = method;
    }

    /// Sets the target to a copy of `request_target`.
    pub fn with_target(&mut self, request_target: &str)
        ensures
            final(self)@ == (RequestView { request_target: request_target@, ..old(self)@ }),
    {
        self.http_request.request_target = request_target.to_owned();
    }

    /// Sets the protocol version.
    pub fn with_protocol_version(&mut self, protocol_version: HttpVersion)
        ensures
            final(self)@ == (RequestView { protocol_version, ..old(self)@ }),
    {
        self.http_request.protocol_version = protocol_version;
    }

    /// Replaces the headers by a copy of `headers`.
    pub fn with_headers(&mut self, headers: &Headers)
        ensures
            final(self)@ == (RequestView { headers: headers@, ..old(self)@ }),
    {
        self.http_request.headers = headers.duplicate();
    }

    /// Sets the body to a copy of `body`.
    pub fn with_body(&mut self, body: &str)
        ensures
            final(self)@ == (RequestView { body: Some(body@), ..old(self)@ }),
    {
        self.http_request.body = Some(body.to_owned());
    }
}

impl Buildable<HttpRequest, HttpRequestBuilder> for HttpRequest {
    fn builder() -> (b: HttpRequestBuilder)
        ensures
            b@ == default_request(),
    {
        HttpRequestBuilder::new()
    }
}

impl HttpRequest {
    /// Whether the connection stays open after this request.
    pub fn keep_alive(&self) -> (r: bool)
        ensures
            r == stays_open(self.headers@),
    {
        match self.headers.get("Connection") {
            Some(s) => !str_equal(s.as_str(), "close"),
            None => true,
        }
    }
}

/// Where the reading of a request stands: what is expected next from the connection.
#[derive(Debug, Clone, Copy, PartialEq, Eq, Structural)]
pub enum Stage {
    /// The request line.
    RequestLine,
    /// A line of the header block.
    Headers,
    /// This many bytes of body.
    Body(usize),
    /// Nothing: the request is complete.
    Done,
}

/// Reads a request piece by piece. The reader says what it expects next; whoever owns
/// the connection reads that, a line or a number of bytes, and hands it over.
pub struct RequestReader {
    stage: Stage,
    request: HttpRequest,
}

/// A reader as a mathematical value: its stage and the request read so far.
pub struct ReaderView {
    pub stage: Stage,
    pub request: RequestView,
}

/// The reader after a line. The request line gives method, target and version. Each
/// header line sets its name to its value, a later line for the same name replacing the
/// earlier value. The blank line ends the header block: a body is then expected if and
/// only if `Content-Length` is set, with as many bytes as it says. A line that comes
/// when none is expected changes nothing.
pub open spec fn after_line(state: ReaderView, line: Seq<char>) -> Result<
    ReaderView,
    RequestErrorView,
> {
    match state.stage {
        Stage::RequestLine => match request_line_parsed(line) {
            Err(e) => Err(e),
            Ok((m, target, v)) => Ok(
                ReaderView {
                    stage: Stage::Headers,
                    request: RequestView {
                        http_method: m,
                        request_target: target,
                        protocol_version: v,
                        ..state.request
                    },
                },
            ),
        },
        Stage::Headers => match header_line_parsed(line) {
            Err(e) => Err(e),
            Ok(Some((name, value))) => Ok(
                ReaderView {
                    stage: Stage::Headers,
                    request: RequestView {
                        headers: with_field(state.request.headers, name, value),
                        ..state.request
                    },
                },
            ),
            Ok(None) => match body_length_of(state.request.headers) {
                Err(e) => Err(e),
                Ok(Some(n)) => Ok(ReaderView { stage: Stage::Body(n as usize), ..state }),
                Ok(None) => Ok(ReaderView { stage: Stage::Done, ..state }),
            },
        },
        _ => Ok(state),
    }
}

/// The reader after the bytes of the body: they become the request's body, as text.
/// Bytes that come when no body is expected change nothing.
pub open spec fn after_body(state: ReaderView, bytes: Seq<u8>) -> Result<
    ReaderView,
    RequestErrorView,
> {
    match state.stage {
        Stage::Body(_) => match body_parsed(bytes) {
            Err(e) => Err(e),
            Ok(text) => Ok(
                ReaderView {
                    stage: Stage::Done,
                    request: RequestView { body: Some(text), ..state.request },
                },
            ),
        },
        _ => Ok(state),
    }
}

impl View for RequestReader {
    type V = ReaderView;

    closed spec fn view(&self) -> ReaderView {
        ReaderView { stage: self.stage, request: self.request@ }
    }
}

impl RequestReader {
    /// A reader that expects a request line.
    pub fn new() -> (r: RequestReader)
        ensures
            r@ == (ReaderView { stage: Stage::RequestLine, request: default_request() }),
    {
        RequestReader { stage: Stage::RequestLine, request: HttpRequest::builder().build() }
    }

    /// What the reader expects next.
    pub fn stage(&self) -> (s: Stage)
        ensures
            s == self@.stage,
    {
        self.stage
    }

    /// Takes the next line of the connection, line ending included.
    pub fn line(self, line: &str) -> (r: Result<RequestReader, RequestError>)
        ensures
            match r {
                Ok(next) => after_line(self@, line@) == Ok::<ReaderView, RequestErrorView>(next@),
                Err(e) => after_line(self@, line@) == Err::<ReaderView, RequestErrorView>(e@),
            },
    {
        let mut reader = self;
        match reader.stage {
            Stage::RequestLine => match parse_request_line(line) {
                Err(e) => Err(e),
                Ok((method, target, version)) => {
                    reader.request.http_method = method;
                    reader.request.request_target = target;
                    reader.request.protocol_version = version;
                    reader.stage = Stage::Headers;
                    Ok(reader)
                },
            },
            Stage::Headers => match parse_header_line(line) {
                Err(e) => Err(e),
                Ok(Some((name, value))) => {
                    reader.request.headers.insert(name, value);
                    Ok(reader)
                },
                Ok(None) => match body_length(&reader.request.headers) {
                    Err(e) => Err(e),
                    Ok(Some(n)) => {
                        reader.stage = Stage::Body(n);
                        Ok(reader)
                    },
                    Ok(None) => {
                        reader.stage = Stage::Done;
                        Ok(reader)
                    },
                },
            },
            _ => Ok(reader),
        }
    }

    /// Takes the bytes of the body.
    pub fn body(self, bytes: Vec<u8>) -> (r: Result<RequestReader, RequestError>)
        ensures
            match r {
                Ok(next) => after_body(self@, bytes@) == Ok::<ReaderView, RequestErrorView>(next@),
                Err(e) => after_body(self@, bytes@) == Err::<ReaderView, RequestErrorView>(e@),
            },
    {
        let mut reader = self;
        match reader.stage {
            Stage::Body(_) => match body_from_bytes(bytes) {
                Err(e) => Err(e),
                Ok(text) => {
                    reader.request.body = Some(text);
                    reader.stage = Stage::Done;
                    Ok(reader)
                },
            },
            _ => Ok(reader),
        }
    }

    /// The request as far as it has been read.
    pub fn finish(self) -> (r: HttpRequest)
        ensures
            r@ == self@.request,
    {
        self.request
    }
}

} // verus!
