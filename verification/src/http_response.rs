//! Responses: the structured form, its builder, and the bytes it is sent as.
use crate::decimal::{decimal, decimal_string, lemma_decimal_digits};
use crate::encoding::ContentEncoding;
use crate::endpoints::{
    effect_for, extension_of, file_prefix, handled, is_clean, lemma_routes, routed, stripped,
    EndpointError, EndpointErrorView, Endpoints,
};
use crate::files::{EffectView, Outcome, OutcomeView};
use crate::headers::value_ignoring_case;
use crate::http_commons::HttpVersion;
use crate::http_request::{HttpMethod, HttpRequest, RequestError, RequestView};
use crate::text::{
    ends_with, is_digit, is_one_line, joined, lemma_joined_push, lemma_line_stands_at_a_line_end,
    lemma_one_line_concat, line_end, line_start, occurs_at, str_equal,
};
use bytes::Bytes;
use vstd::prelude::*;
use vstd::slice::slice_to_vec;
use vstd::string::{StrSliceExecFns, StringExecFns};
use vstd::utf8::encode_utf8;

verus! {

/// The statuses that the server answers with.
#[derive(Debug, Clone, Copy, PartialEq, Eq, Structural)]
pub enum StatusCode {
    Okay,
    NotFound,
    Created,
    NotImplemented,
    InternalServerError,
    BadRequest,
}

/// The media types that the server names.
#[derive(Debug, Clone, Copy, PartialEq, Eq, Structural)]
pub enum ContentType {
    Html,
    Css,
    JavaScript,
    Json,
    Png,
    Jpeg,
    Gif,
    Svg,
    PlainText,
    Pdf,
    OctetStream,
}

/// A response. The body is stored as it is; it is encoded only when the response is
/// written out.
#[derive(Debug)]
pub struct HttpResponse {
    pub protocol_version: HttpVersion,
    pub status_code: StatusCode,
    pub content_type: ContentType,
    pub content_length: usize,
    pub content_encoding: Option<ContentEncoding>,
    pub conn_close: bool,
    pub body: Option<Vec<u8>>,
}

/// A response as a mathematical value: the body is a sequence of bytes.
pub struct ResponseView {
    pub protocol_version: HttpVersion,
    pub status_code: StatusCode,
    pub content_type: ContentType,
    pub content_length: nat,
    pub content_encoding: Option<ContentEncoding>,
    pub conn_close: bool,
    pub body: Option<Seq<u8>>,
}

/// Why no response could be built.
#[derive(Debug)]
pub enum ResponseError {
    Endpoint(EndpointError),
}

/// Builds a response field by field, starting from the default response.
pub struct HttpResponseBuilder {
    http_response: HttpResponse,
}

/// A builder of `T`: it starts from default values and hands over what it has built.
pub trait Builder<T>: Sized {
    fn new() -> Self;

    fn build(self) -> T;
}

/// A type that names its own builder.
pub trait Buildable<Target, B: Builder<Target>> {
    fn builder() -> B;
}

/// `bytes::Bytes`, an immutable buffer of bytes. What it holds is spoken of through
/// `bytes_contents`.
#[verifier::external_type_specification]
#[verifier::external_body]
pub struct ExBytes(Bytes);

/// The bytes that a `bytes::Bytes` buffer holds, in order.
pub uninterp spec fn bytes_contents(b: Bytes) -> Seq<u8>;

/// Calls `Bytes::from` on a vector. The contract claims that the buffer holds exactly
/// the vector's bytes, in order.
#[verifier::external_body]
fn bytes_from_vec(v: Vec<u8>) -> (b: Bytes)
    ensures
        bytes_contents(b) == v@,
{
    Bytes::from(v)
}

/// Borrows a `Bytes` buffer as a slice, through its `Deref`. The contract claims that the
/// slice holds exactly the buffer's bytes, in order.
#[verifier::external_body]
fn bytes_as_slice(b: &Bytes) -> (s: &[u8])
    ensures
        s@ == bytes_contents(*b),
{
    &b[..]
}

impl StatusCode {
    /// The three-digit code.
    pub open spec fn code(self) -> nat {
        match self {
            StatusCode::Okay => 200,
            StatusCode::NotFound => 404,
            StatusCode::Created => 201,
            StatusCode::NotImplemented => 501,
            StatusCode::InternalServerError => 500,
            StatusCode::BadRequest => 400,
        }
    }

    /// The code and reason phrase as they stand in the status line.
    pub open spec fn text(self) -> Seq<char> {
        match self {
            StatusCode::Okay => "200 OK"@,
            StatusCode::NotFound => "404 Not Found"@,
            StatusCode::Created => "201 Created"@,
            StatusCode::NotImplemented => "501 Not Implemented"@,
            StatusCode::InternalServerError => "500 Internal Server Error"@,
            StatusCode::BadRequest => "400 Bad Request"@,
        }
    }

    /// Whether the code tells the client that its request was at fault.
    pub open spec fn is_client_error(self) -> bool {
        400 <= self.code() < 500
    }

    /// The three-digit code.
    pub fn as_u16(&self) -> (c: u16)
        ensures
            c == self.code(),
    {
        match self {
            StatusCode::Okay => 200,
            StatusCode::NotFound => 404,
            StatusCode::Created => 201,
            StatusCode::NotImplemented => 501,
            StatusCode::InternalServerError => 500,
            StatusCode::BadRequest => 400,
        }
    }

    /// The code and reason phrase as they stand in the status line.
    pub fn as_str(&self) -> (s: &'static str)
        ensures
            s@ == self.text(),
    {
        match self {
            StatusCode::Okay => "200 OK",
            StatusCode::NotFound => "404 Not Found",
            StatusCode::Created => "201 Created",
            StatusCode::NotImplemented => "501 Not Implemented",
            StatusCode::InternalServerError => "500 Internal Server Error",
            StatusCode::BadRequest => "400 Bad Request",
        }
    }

    /// The code and reason phrase, as an owned string.
    pub fn to_string(&self) -> (s: String)
        ensures
            s@ == self.text(),
    {
        self.as_str().to_owned()
    }
}

impl ContentType {
    /// The media type.
    pub open spec fn text(self) -> Seq<char> {
        match self {
            ContentType::Html => "text/html"@,
            ContentType::Css => "text/css"@,
            ContentType::JavaScript => "application/javascript"@,
            ContentType::Json => "application/json"@,
            ContentType::Png => "image/png"@,
            ContentType::Jpeg => "image/jpeg"@,
            ContentType::Gif => "image/gif"@,
            ContentType::Svg => "image/svg+xml"@,
            ContentType::PlainText => "text/plain"@,
            ContentType::Pdf => "application/pdf"@,
            ContentType::OctetStream => "application/octet-stream"@,
        }
    }

    /// The type of a file whose name ends in the extension `ext`. The extension is matched
    /// exactly; one that is not listed stands for arbitrary bytes.
    pub open spec fn for_extension(ext: Seq<char>) -> ContentType {
        if ext == "html"@ || ext == "htm"@ {
            ContentType::Html
        } else if ext == "css"@ {
            ContentType::Css
        } else if ext == "js"@ {
            ContentType::JavaScript
        } else if ext == "json"@ {
            ContentType::Json
        } else if ext == "png"@ {
            ContentType::Png
        } else if ext == "jpg"@ || ext == "jpeg"@ {
            ContentType::Jpeg
        } else if ext == "gif"@ {
            ContentType::Gif
        } else if ext == "svg"@ {
            ContentType::Svg
        } else if ext == "txt"@ {
            ContentType::PlainText
        } else if ext == "pdf"@ {
            ContentType::Pdf
        } else {
            ContentType::OctetStream
        }
    }

    /// The type of a file by its extension.
    pub fn from_extension(ext: &str) -> (t: ContentType)
        ensures
            t == Self::for_extension(ext@),
    {
        if str_equal(ext, "html") || str_equal(ext, "htm") {
            ContentType::Html
        } else if str_equal(ext, "css") {
            ContentType::Css
        } else if str_equal(ext, "js") {
            ContentType::JavaScript
        } else if str_equal(ext, "json") {
            ContentType::Json
        } else if str_equal(ext, "png") {
            ContentType::Png
        } else if str_equal(ext, "jpg") || str_equal(ext, "jpeg") {
            ContentType::Jpeg
        } else if str_equal(ext, "gif") {
            ContentType::Gif
        } else if str_equal(ext, "svg") {
            ContentType::Svg
        } else if str_equal(ext, "txt") {
            ContentType::PlainText
        } else if str_equal(ext, "pdf") {
            ContentType::Pdf
        } else {
            ContentType::OctetStream
        }
    }

    /// The media type.
    pub fn as_str(&self) -> (s: &'static str)
        ensures
            s@ == self.text(),
    {
        match self {
            ContentType::Html => "text/html",
            ContentType::Css => "text/css",
            ContentType::JavaScript => "application/javascript",
            ContentType::Json => "application/json",
            ContentType::Png => "image/png",
            ContentType::Jpeg => "image/jpeg",
            ContentType::Gif => "image/gif",
            ContentType::Svg => "image/svg+xml",
            ContentType::PlainText => "text/plain",
            ContentType::Pdf => "application/pdf",
            ContentType::OctetStream => "application/octet-stream",
        }
    }

    /// The media type, as an owned string.
    pub fn to_string(&self) -> (s: String)
        ensures
            s@ == self.text(),
    {
        self.as_str().to_owned()
    }
}

impl std::str::FromStr for ContentType {
    type Err = ();

    fn from_str(ext: &str) -> (r: Result<Self, Self::Err>)
        ensures
            r == Ok::<ContentType, ()>(ContentType::for_extension(ext@)),
    {
        Ok(ContentType::from_extension(ext))
    }
}

impl EndpointError {
    /// The status with which the error is answered.
    pub fn status_code(&self) -> (s: StatusCode)
        ensures
            s == status_of_error(self@),
    {
        match self {
            EndpointError::BadRequest(_) => StatusCode::BadRequest,
            EndpointError::PostBodyNotFound => StatusCode::BadRequest,
            _ => StatusCode::NotImplemented,
        }
    }
}

impl ResponseError {
    /// The sentence that describes the error.
    pub open spec fn message(self) -> Seq<char> {
        match self {
            ResponseError::Endpoint(e) => "error processing the endpoint: "@ + e.message(),
        }
    }

    /// The sentence that describes the error.
    pub fn to_string(&self) -> (s: String)
        ensures
            s@ == self.message(),
    {
        match self {
            ResponseError::Endpoint(e) => {
                let inner = e.to_string();
                "error processing the endpoint: ".to_owned().concat(inner.as_str())
            },
        }
    }

    /// Wraps the error of an endpoint.
    pub fn from_endpoint_error(e: EndpointError) -> (r: ResponseError)
        ensures
            r == ResponseError::Endpoint(e),
    {
        ResponseError::Endpoint(e)
    }
}

/// The view of an optional byte vector.
pub open spec fn body_view(body: Option<Vec<u8>>) -> Option<Seq<u8>> {
    match body {
        Some(b) => Some(b@),
        None => None,
    }
}

/// The response that a fresh builder holds: `200 OK`, plain text, HTTP/1.1, no body, no
/// encoding, the connection left open.
pub open spec fn default_response() -> ResponseView {
    ResponseView {
        protocol_version: HttpVersion::Http11,
        status_code: StatusCode::Okay,
        content_type: ContentType::PlainText,
        content_length: 0,
        content_encoding: None,
        conn_close: false,
        body: None,
    }
}

impl View for HttpResponse {
    type V = ResponseView;

    open spec fn view(&self) -> ResponseView {
        ResponseView {
            protocol_version: self.protocol_version,
            status_code: self.status_code,
            content_type: self.content_type,
            content_length: self.content_length as nat,
            content_encoding: self.content_encoding,
            conn_close: self.conn_close,
            body: body_view(self.body),
        }
    }
}

impl View for HttpResponseBuilder {
    type V = ResponseView;

    closed spec fn view(&self) -> ResponseView {
        self.http_response@
    }
}

impl Builder<HttpResponse> for HttpResponseBuilder {
    fn new() -> (b: Self)
        ensures
            b@ == default_response(),
    {
        Self {
            http_response: HttpResponse {
                protocol_version: HttpVersion::Http11,
                status_code: StatusCode::Okay,
                content_type: ContentType::PlainText,
                content_length: 0,
                content_encoding: None,
                conn_close: false,
                body: None,
            },
        }
    }

    fn build(self) -> (r: HttpResponse)
        ensures
            r@ == self@,
    {
        self.http_response
    }
}

impl HttpResponseBuilder {
    /// Sets the protocol version.
    pub fn with_protocol_version(&mut self, protocol_version: HttpVersion)
        ensures
            final(self)@ == (ResponseView { protocol_version, ..old(self)@ }),
    {
        self.http_response.protocol_version = protocol_version;
    }

    /// Sets the status.
    pub fn with_status_code(&mut self, status_code: StatusCode)
        ensures
            final(self)@ == (ResponseView { status_code, ..old(self)@ }),
    {
        self.http_response.status_code = status_code;
    }

    /// Sets the content type.
    pub fn with_content_type(&mut self, content_type: ContentType)
        ensures
            final(self)@ == (ResponseView { content_type, ..old(self)@ }),
    {
        self.http_response.content_type = content_type;
    }

    /// Sets the length field.
    pub fn with_content_length(&mut self, content_length: usize)
        ensures
            final(self)@ == (ResponseView { content_length: content_length as nat, ..old(self)@ }),
    {
        self.http_response.content_length = content_length;
    }

    /// Sets or clears the encoding in which the body is to be sent.
    pub fn with_content_encoding(&mut self, content_encoding: Option<ContentEncoding>)
        ensures
            final(self)@ == (ResponseView { content_encoding, ..old(self)@ }),
    {
        self.http_response.content_encoding = content_encoding;
    }

    /// Sets whether the response announces that the connection is closed.
    pub fn with_conn_close(&mut self, conn_close: bool)
        ensures
            final(self)@ == (ResponseView { conn_close, ..old(self)@ }),
    {
        self.http_response.conn_close = conn_close;
    }

    /// Stores a copy of `body`. The length field is set apart, by `with_content_length`.
    pub fn with_body(&mut self, body: &[u8])
        ensures
            final(self)@ == (ResponseView { body: Some(body@), ..old(self)@ }),
    {
        self.http_response.body = Some(slice_to_vec(body));
    }
}

impl Buildable<HttpResponse, HttpResponseBuilder> for HttpResponse {
    fn builder() -> (b: HttpResponseBuilder)
        ensures
            b@ == default_response(),
    {
        HttpResponseBuilder::new()
    }
}

/// The bytes that follow the header block: the body as it is, or encoded where both a body
/// and an encoding are set, and no bytes without a body. There is no payload where the
/// encoder cannot encode the body.
pub open spec fn payload(r: ResponseView) -> Option<Seq<u8>> {
    match r.body {
        None => Some(Seq::empty()),
        Some(b) => match r.content_encoding {
            Some(e) => e.encoded(b),
            None => Some(b),
        },
    }
}

/// The header block of a response whose payload has `n` bytes: the status line, the
/// content type, `Connection: close` where the flag is set, the encoding's line where a
/// body is sent encoded, the length, and the blank line.
pub open spec fn head_text(r: ResponseView, n: nat) -> Seq<char> {
    r.protocol_version.text() + " "@ + r.status_code.text() + "\r\n"@ + "Content-Type: "@
        + r.content_type.text() + "\r\n"@ + (if r.conn_close {
        "Connection: close\r\n"@
    } else {
        Seq::<char>::empty()
    }) + (match (r.body, r.content_encoding) {
        (Some(_), Some(e)) => "Content-Encoding: "@ + e.text() + "\r\n"@,
        _ => Seq::<char>::empty(),
    }) + "Content-Length: "@ + decimal(n) + "\r\n\r\n"@
}

/// A response as it is sent: the header block in UTF-8, then the payload. A response
/// that has no payload cannot be sent.
pub open spec fn wire(r: ResponseView) -> Option<Seq<u8>> {
    match payload(r) {
        Some(p) => Some(encode_utf8(head_text(r, p.len())) + p),
        None => None,
    }
}

/// What is sent where no endpoint answers: the default response with another status, in
/// the protocol version of the request.
pub open spec fn bare_response(
    status_code: StatusCode,
    protocol_version: HttpVersion,
) -> ResponseView {
    ResponseView { status_code, protocol_version, ..default_response() }
}

/// The response to a request that could not be read: `400 Bad Request`, with the error's
/// description as its body.
pub open spec fn bad_request_response(error: RequestError) -> ResponseView {
    ResponseView {
        status_code: StatusCode::BadRequest,
        body: Some(encode_utf8(error.message())),
        content_length: encode_utf8(error.message()).len(),
        ..default_response()
    }
}

/// The status with which an endpoint's error is answered. A refused target and a `POST`
/// without a body are faults of the client and are answered as a bad request; every
/// other error is answered as not implemented.
pub open spec fn status_of_error(e: EndpointErrorView) -> StatusCode {
    match e {
        EndpointErrorView::BadRequest(_) => StatusCode::BadRequest,
        EndpointErrorView::PostBodyNotFound => StatusCode::BadRequest,
        _ => StatusCode::NotImplemented,
    }
}

/// The response to `req`, given what happened outside for it. A target that leads to no
/// endpoint is an internal error. Where the endpoint gives up, the answer is a bare
/// response with the status of its error. Every answer is in the request's version.
pub open spec fn response_for(req: RequestView, out: OutcomeView) -> ResponseView {
    match routed(req.request_target) {
        None => bare_response(StatusCode::InternalServerError, req.protocol_version),
        Some(endpoint) => match handled(endpoint, req, out) {
            Ok(r) => r,
            Err(e) => bare_response(status_of_error(e), req.protocol_version),
        },
    }
}

impl HttpResponse {
    /// Builds the response to a request from what happened outside for it.
    pub fn new_from_request(http_request: &HttpRequest, outcome: Outcome) -> (r: HttpResponse)
        ensures
            r@ == response_for(http_request@, outcome@),
    {
        match Endpoints::parse(http_request.request_target.as_str()) {
            Ok(endpoint_requested) => {
                match endpoint_requested.handle_request(http_request, outcome) {
                    Ok(response) => response,
                    Err(e) => {
                        let mut builder = HttpResponse::builder();
                        builder.with_protocol_version(http_request.protocol_version);
                        builder.with_status_code(e.status_code());
                        builder.build()
                    },
                }
            },
            Err(_) => {
                let mut builder = HttpResponse::builder();
                builder.with_protocol_version(http_request.protocol_version);
                builder.with_status_code(StatusCode::InternalServerError);
                builder.build()
            },
        }
    }

    /// The response to a request that could not be read: `400 Bad Request`, with the
    /// error's description as its body.
    pub fn new_from_bad_request(error: &RequestError) -> (r: HttpResponse)
        ensures
            r@ == bad_request_response(*error),
    {
        let mut builder = HttpResponse::builder();
        builder.with_status_code(StatusCode::BadRequest);
        let body = error.to_string();
        let bytes = body.as_str().as_bytes();
        builder.with_body(bytes);
        builder.with_content_length(bytes.len());
        builder.build()
    }

    /// The response as it is sent when `payload` stands for its body: the header block
    /// with the payload's length, then the payload.
    pub fn frame(&self, payload: &[u8]) -> (out: Vec<u8>)
        ensures
            out@ == encode_utf8(head_text(self@, payload@.len())) + payload@,
    {
        let mut head = self.protocol_version.to_string();
        head.append(" ");
        head.append(self.status_code.as_str());
        head.append("\r\n");
        head.append("Content-Type: ");
        head.append(self.content_type.as_str());
        head.append("\r\n");
        if self.conn_close {
            head.append("Connection: close\r\n");
        }
        if self.body.is_some() {
            match &self.content_encoding {
                Some(encoding) => {
                    head.append("Content-Encoding: ");
                    head.append(encoding.as_str());
                    head.append("\r\n");
                },
                None => {},
            }
        }
        let digits = decimal_string(payload.len());
        head.append("Content-Length: ");
        head.append(digits.as_str());
        head.append("\r\n\r\n");
        assert(head@ =~= head_text(self@, payload@.len()));
        let mut out = head.as_str().as_bytes_vec();
        out.extend_from_slice(payload);
        out
    }

    /// Appends the response to `writer` as it is sent. The stored body is not changed:
    /// it is encoded on the way out. The write fails exactly where the encoder cannot
    /// encode the body, and then nothing is appended. With no body or no encoding set the
    /// encoder is not called, and the write succeeds.
    pub fn write_to(&self, writer: &mut Vec<u8>) -> (r: Result<(), std::io::Error>)
        ensures
            match r {
                Ok(_) => wire(self@) matches Some(w) && final(writer)@ == old(writer)@ + w,
                Err(_) => wire(self@) is None && final(writer)@ == old(writer)@,
            },
            self.body is None || self.content_encoding is None ==> r is Ok,
    {
        let payload_bytes: Bytes = match &self.body {
            Some(body) => match &self.content_encoding {
                Some(encoding) => match encoding.encode_body(body.as_slice()) {
                    Ok(encoded) => bytes_from_vec(encoded),
                    Err(e) => {
                        return Err(e);
                    },
                },
                None => bytes_from_vec(slice_to_vec(body.as_slice())),
            },
            None => bytes_from_vec(Vec::new()),
        };
        assert(payload(self@) matches Some(p) && bytes_contents(payload_bytes) =~= p);
        let framed = self.frame(bytes_as_slice(&payload_bytes));
        writer.extend_from_slice(framed.as_slice());
        Ok(())
    }
}

/// A request whose target begins with `/echo/` is answered `200 OK`, in plain text, with
/// exactly the rest of the target as its body, whatever else the request holds and
/// whatever happened outside.
pub proof fn lemma_echo_returns_rest_of_target(req: RequestView, out: OutcomeView)
    requires
        "/echo/"@.is_prefix_of(req.request_target),
    ensures
        response_for(req, out).status_code == StatusCode::Okay,
        response_for(req, out).content_type == ContentType::PlainText,
        response_for(req, out).body == Some(encode_utf8(req.request_target.skip(6))),
        response_for(req, out).content_length == encode_utf8(req.request_target.skip(6)).len(),
{
    lemma_routes(req.request_target);
    reveal_strlit("/echo/");
}

/// A request for `/user-agent` is answered `200 OK` with exactly the value of its
/// `User-Agent` header as the body; without that header the answer is not `200 OK` and
/// has no body.
pub proof fn lemma_user_agent_is_reflected(req: RequestView, out: OutcomeView)
    requires
        req.request_target == "/user-agent"@,
    ensures
        match value_ignoring_case(req.headers, "user-agent"@) {
            Some(agent) => {
                &&& response_for(req, out).status_code == StatusCode::Okay
                &&& response_for(req, out).body == Some(encode_utf8(agent))
            },
            None => {
                &&& response_for(req, out).status_code == StatusCode::NotImplemented
                &&& response_for(req, out).body is None
            },
        },
{
    lemma_routes(req.request_target);
}

/// A request for `/sleep` asks for a wait of ten seconds and is then answered `200 OK`
/// with the fixed message.
pub proof fn lemma_sleep_waits_then_answers(req: RequestView, out: OutcomeView)
    requires
        req.request_target == "/sleep"@,
    ensures
        effect_for(req) == EffectView::Sleep(10),
        response_for(req, out).status_code == StatusCode::Okay,
        response_for(req, out).body == Some(encode_utf8("Good sleep!"@)),
{
    lemma_routes(req.request_target);
}

/// Writing and reading back: for a clean, non-empty name below `/files/`, a `POST` asks
/// for that file to be written with the request's body and is answered `201 Created`
/// once it is; a `GET` of the same target asks for that same file to be read, and where
/// the bytes read are those that were written, it is answered `200 OK` with exactly
/// them, typed by the name's extension.
pub proof fn lemma_post_then_get(post: RequestView, get: RequestView, content: Seq<char>)
    requires
        post.http_method == HttpMethod::Post,
        get.http_method == HttpMethod::Get,
        post.request_target == get.request_target,
        "/files/"@.is_prefix_of(get.request_target),
        is_clean(stripped(get.request_target, "/files/"@)),
        stripped(get.request_target, "/files/"@).len() > 0,
        post.body == Some(content),
    ensures
        ({
            let name = stripped(get.request_target, "/files/"@);
            let read = OutcomeView::Content(encode_utf8(content));
            &&& effect_for(post) == EffectView::WriteFile(name, content)
            &&& response_for(post, OutcomeView::Written).status_code == StatusCode::Created
            &&& effect_for(get) == EffectView::ReadFile(name)
            &&& response_for(get, read).status_code == StatusCode::Okay
            &&& response_for(get, read).body == Some(encode_utf8(content))
            &&& response_for(get, read).content_type == ContentType::for_extension(
                extension_of(name),
            )
        }),
{
    lemma_routes(get.request_target);
}

/// No file is touched for a target that is not clean, one with `..` in it among them:
/// whatever the method, nothing is asked of the file system, and the answer is a
/// client error without a body.
pub proof fn lemma_unclean_target_is_refused(req: RequestView, out: OutcomeView)
    requires
        routed(req.request_target) matches Some(endpoint) && file_prefix(endpoint) matches Some(
            prefix,
        ) && !is_clean(stripped(req.request_target, prefix)),
    ensures
        effect_for(req) == EffectView::Nothing,
        response_for(req, out).status_code.is_client_error(),
        response_for(req, out).body is None,
{
}

/// A `POST` to a file target without a body writes nothing and is answered as a bad
/// request, without a body, whatever happened outside.
pub proof fn lemma_post_without_body_is_refused(req: RequestView, out: OutcomeView)
    requires
        req.http_method == HttpMethod::Post,
        routed(req.request_target) matches Some(endpoint) && file_prefix(endpoint) is Some,
        req.body is None,
    ensures
        effect_for(req) == EffectView::Nothing,
        response_for(req, out).status_code == StatusCode::BadRequest,
        response_for(req, out).body is None,
{
}

/// Every answer to a request is in the protocol version of that request.
pub proof fn lemma_answer_echoes_the_version(req: RequestView, out: OutcomeView)
    ensures
        response_for(req, out).protocol_version == req.protocol_version,
{
}

/// A response without a body, or without an encoding, can always be sent, and its
/// payload is the body as it is.
pub proof fn lemma_unencoded_response_has_a_wire_form(r: ResponseView)
    requires
        r.body is None || r.content_encoding is None,
    ensures
        wire(r) is Some,
        payload(r) == Some(
            match r.body {
                Some(b) => b,
                None => Seq::<u8>::empty(),
            },
        ),
{
}

/// A file that resolves to a place outside the data directory is never served: the
/// answer to the `GET` is `404 Not Found` without a body.
pub proof fn lemma_escape_is_refused(req: RequestView)
    requires
        req.http_method == HttpMethod::Get,
        routed(req.request_target) matches Some(endpoint) && file_prefix(endpoint) is Some,
    ensures
        response_for(req, OutcomeView::Escapes).status_code == StatusCode::NotFound,
        response_for(req, OutcomeView::Escapes).body is None,
{
}

/// The status line and the content-type line, which open every header block.
pub open spec fn head_lead(r: ResponseView) -> Seq<char> {
    r.protocol_version.text() + " "@ + r.status_code.text() + "\r\n"@ + "Content-Type: "@
        + r.content_type.text() + "\r\n"@
}

/// The lines of the header block of a response whose payload has `n` bytes, without
/// their line ends and without the blank line that closes the block.
pub open spec fn head_lines(r: ResponseView, n: nat) -> Seq<Seq<char>> {
    let opening = seq![
        r.protocol_version.text() + " "@ + r.status_code.text(),
        "Content-Type: "@ + r.content_type.text(),
    ];
    let closing = if r.conn_close {
        opening.push("Connection: close"@)
    } else {
        opening
    };
    let encoding = match (r.body, r.content_encoding) {
        (Some(_), Some(e)) => closing.push("Content-Encoding: "@ + e.text()),
        _ => closing,
    };
    encoding.push("Content-Length: "@ + decimal(n))
}

proof fn lemma_texts_are_one_line(r: ResponseView, n: nat)
    ensures
        is_one_line(r.protocol_version.text()),
        is_one_line(r.status_code.text()),
        is_one_line(r.content_type.text()),
        is_one_line(decimal(n)),
        is_one_line(" "@),
        is_one_line("Content-Type: "@),
        is_one_line("Content-Encoding: "@),
        is_one_line("Content-Length: "@),
        is_one_line("Connection: close"@),
        is_one_line("gzip"@),
        r.status_code.text().len() > 0 && r.status_code.text().last() != 'e',
        r.content_type.text().len() > 0 && r.content_type.text().last() != 'e',
        decimal(n).len() > 0 && decimal(n).last() != 'e',
        "gzip"@.len() > 0 && "gzip"@.last() != 'e',
        "Connection: close"@.len() == 17 && "Connection: close"@[16] == 'e',
{
    reveal_strlit("HTTP/1.1");
    reveal_strlit("HTTP/2");
    reveal_strlit("200 OK");
    reveal_strlit("404 Not Found");
    reveal_strlit("201 Created");
    reveal_strlit("501 Not Implemented");
    reveal_strlit("500 Internal Server Error");
    reveal_strlit("400 Bad Request");
    reveal_strlit("text/html");
    reveal_strlit("text/css");
    reveal_strlit("application/javascript");
    reveal_strlit("application/json");
    reveal_strlit("image/png");
    reveal_strlit("image/jpeg");
    reveal_strlit("image/gif");
    reveal_strlit("image/svg+xml");
    reveal_strlit("text/plain");
    reveal_strlit("application/pdf");
    reveal_strlit("application/octet-stream");
    reveal_strlit(" ");
    reveal_strlit("Content-Type: ");
    reveal_strlit("Content-Encoding: ");
    reveal_strlit("Content-Length: ");
    reveal_strlit("Connection: close");
    reveal_strlit("gzip");
    lemma_decimal_digits(n);
    assert(is_digit(decimal(n).last()));
}

/// The header block is its lines, each with its line end, and the blank line.
pub proof fn lemma_head_is_its_lines(r: ResponseView, n: nat)
    ensures
        head_text(r, n) == joined(head_lines(r, n).push(Seq::empty())),
        joined(head_lines(r, n).take(2)) == head_lead(r),
        forall|k: int|
            0 <= k < head_lines(r, n).len() ==> is_one_line(#[trigger] head_lines(r, n)[k]),
{
    reveal_strlit("\r\n");
    reveal_strlit("\r\n\r\n");
    reveal_strlit("Connection: close\r\n");
    reveal_strlit("Connection: close");
    assert("\r\n"@ =~= line_end());
    assert("\r\n\r\n"@ =~= line_end() + line_end());
    assert("Connection: close\r\n"@ =~= "Connection: close"@ + line_end());
    let first = r.protocol_version.text() + " "@ + r.status_code.text();
    let second = "Content-Type: "@ + r.content_type.text();
    let none = Seq::<Seq<char>>::empty();
    let opening = seq![first, second];
    assert(opening =~= none.push(first).push(second));
    lemma_joined_push(none, first);
    lemma_joined_push(none.push(first), second);
    assert(joined(none) =~= Seq::<char>::empty());
    assert(joined(opening) =~= head_lead(r));
    assert(head_lines(r, n).take(2) =~= opening);
    let closing = if r.conn_close {
        opening.push("Connection: close"@)
    } else {
        opening
    };
    if r.conn_close {
        lemma_joined_push(opening, "Connection: close"@);
    }
    let encoding = match (r.body, r.content_encoding) {
        (Some(_), Some(e)) => closing.push("Content-Encoding: "@ + e.text()),
        _ => closing,
    };
    match (r.body, r.content_encoding) {
        (Some(_), Some(e)) => {
            lemma_joined_push(closing, "Content-Encoding: "@ + e.text());
        },
        _ => {},
    }
    let length = "Content-Length: "@ + decimal(n);
    lemma_joined_push(encoding, length);
    lemma_joined_push(encoding.push(length), Seq::empty());
    assert(head_text(r, n) =~= joined(head_lines(r, n).push(Seq::empty())));
    lemma_texts_are_one_line(r, n);
    lemma_one_line_concat(r.protocol_version.text(), " "@);
    lemma_one_line_concat(r.protocol_version.text() + " "@, r.status_code.text());
    lemma_one_line_concat("Content-Type: "@, r.content_type.text());
    lemma_one_line_concat("Content-Encoding: "@, "gzip"@);
    lemma_one_line_concat("Content-Length: "@, decimal(n));
}

/// The header block holds the line `Connection: close` exactly where the close flag is
/// set. It then holds it once, right behind the status line and the content-type line;
/// without the flag the line stands nowhere in the block.
pub proof fn lemma_connection_close_header(r: ResponseView, n: nat)
    ensures
        head_lead(r).is_prefix_of(head_text(r, n)),
        r.conn_close ==> occurs_at(
            head_text(r, n),
            "Connection: close\r\n"@,
            head_lead(r).len() as int,
        ),
        forall|i: int| #[trigger]
            occurs_at(head_text(r, n), "Connection: close\r\n"@, i) ==> r.conn_close && i
                == head_lead(r).len(),
{
    reveal_strlit("Connection: close\r\n");
    reveal_strlit("Connection: close");
    let line = "Connection: close"@;
    let part = "Connection: close\r\n"@;
    assert(part =~= line + line_end());
    let lines = head_lines(r, n).push(Seq::empty());
    let text = head_text(r, n);
    lemma_head_is_its_lines(r, n);
    lemma_texts_are_one_line(r, n);
    assert(head_text(r, n) =~= head_lead(r) + text.subrange(
        head_lead(r).len() as int,
        text.len() as int,
    ));
    if r.conn_close {
        assert(text.subrange(head_lead(r).len() as int, head_lead(r).len() as int + part.len())
            =~= part);
    }
    assert forall|i: int| #[trigger] occurs_at(text, part, i) implies r.conn_close && i
        == head_lead(r).len() by {
        assert forall|k: int| 0 <= k < lines.len() implies is_one_line(#[trigger] lines[k]) by {
            if k < head_lines(r, n).len() {
                assert(lines[k] == head_lines(r, n)[k]);
            }
        }
        lemma_line_stands_at_a_line_end(lines, line, i);
        let k = choose|k: int|
            0 <= k < lines.len() && ends_with(#[trigger] lines[k], line) && i == line_start(
                lines,
                k,
            ) + lines[k].len() - line.len();
        let found = lines[k];
        assert(found.len() >= 17);
        assert(found.subrange(found.len() - 17, found.len() as int)[16] == line[16]);
        assert(found.last() == 'e');
        assert(r.conn_close && k == 2);
        assert(lines.take(2) =~= head_lines(r, n).take(2));
    }
}

} // verus!
