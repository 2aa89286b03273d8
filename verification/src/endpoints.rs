//! The endpoints and the rules that lead from a request to a response.
use crate::encoding::ContentEncoding;
use crate::files::{
    listing_text, render_directory_listing, Effect, EffectView, Outcome, OutcomeView,
};
use crate::headers::{name_matches, value_ignoring_case, Field};
use crate::http_request::{stays_open, HttpMethod, HttpRequest, RequestView};
use crate::http_response::{
    default_response, Buildable, Builder, ContentType, HttpResponse, ResponseView, StatusCode,
};
use crate::text::{
    chars_of, contains_char, find_char, find_from, has_prefix, same_text_ignoring_case, str_equal,
};
use vstd::prelude::*;
use vstd::string::{StrSliceExecFns, StringExecFns};
use vstd::utf8::encode_utf8;

verus! {

/// The behaviours that a request target can lead to.
#[derive(Debug, Clone, Copy, PartialEq, Eq, Structural)]
pub enum Endpoints {
    /// Sends the rest of the target back.
    Echo,
    /// Sends the request's `User-Agent` back.
    UserAgent,
    /// Waits, then answers.
    Sleep,
    /// Reads or writes a file named below `/files/`.
    File,
    /// Reads or writes a file named by the whole path.
    UrlPath,
}

/// Why an endpoint gave up on a request.
#[derive(Debug)]
pub enum EndpointError {
    EndpointNotRecognized(String),
    WrongEndpointToAccessFiles(String),
    UserAgentNotFound,
    PostBodyNotFound,
    ContentType(String),
    Io(String),
    BadRequest(String),
}

impl EndpointError {
    /// The sentence that describes the error.
    pub open spec fn message(self) -> Seq<char> {
        match self {
            EndpointError::EndpointNotRecognized(e) => "request-target not recognized: "@ + e@,
            EndpointError::WrongEndpointToAccessFiles(s) => "wrong endpoint to access a file/url: "@
                + s@,
            EndpointError::UserAgentNotFound => "user-agent header not found"@,
            EndpointError::PostBodyNotFound => "body not found"@,
            EndpointError::ContentType(t) => "problem parsing the content-type : "@ + t@,
            EndpointError::Io(e) => "I/O on the requested file : "@ + e@,
            EndpointError::BadRequest(e) => "bad request : "@ + e@,
        }
    }

    /// The sentence that describes the error.
    pub fn to_string(&self) -> (s: String)
        ensures
            s@ == self.message(),
    {
        match self {
            EndpointError::EndpointNotRecognized(e) => {
                "request-target not recognized: ".to_owned().concat(e.as_str())
            },
            EndpointError::WrongEndpointToAccessFiles(s) => {
                "wrong endpoint to access a file/url: ".to_owned().concat(s.as_str())
            },
            EndpointError::UserAgentNotFound => "user-agent header not found".to_owned(),
            EndpointError::PostBodyNotFound => "body not found".to_owned(),
            EndpointError::ContentType(t) => {
                "problem parsing the content-type : ".to_owned().concat(t.as_str())
            },
            EndpointError::Io(e) => "I/O on the requested file : ".to_owned().concat(e.as_str()),
            EndpointError::BadRequest(e) => "bad request : ".to_owned().concat(e.as_str()),
        }
    }
}

/// An endpoint error as a mathematical value.
pub enum EndpointErrorView {
    EndpointNotRecognized(Seq<char>),
    WrongEndpointToAccessFiles(Seq<char>),
    UserAgentNotFound,
    PostBodyNotFound,
    ContentType(Seq<char>),
    Io(Seq<char>),
    BadRequest(Seq<char>),
}

impl View for EndpointError {
    type V = EndpointErrorView;

    open spec fn view(&self) -> EndpointErrorView {
        match self {
            EndpointError::EndpointNotRecognized(s) => EndpointErrorView::EndpointNotRecognized(s@),
            EndpointError::WrongEndpointToAccessFiles(s) => {
                EndpointErrorView::WrongEndpointToAccessFiles(s@)
            },
            EndpointError::UserAgentNotFound => EndpointErrorView::UserAgentNotFound,
            EndpointError::PostBodyNotFound => EndpointErrorView::PostBodyNotFound,
            EndpointError::ContentType(s) => EndpointErrorView::ContentType(s@),
            EndpointError::Io(s) => EndpointErrorView::Io(s@),
            EndpointError::BadRequest(s) => EndpointErrorView::BadRequest(s@),
        }
    }
}

/// The longest target, in bytes, that is looked up as a file.
pub const MAX_TARGET_BYTES: usize = 1024;

/// The endpoint that a request target leads to. The rules are tried in this order: a
/// target that begins with `/echo/`; exactly `/user-agent`; exactly `/sleep`; one that
/// begins with `/files/`; any other that begins with `/`. No other target leads anywhere.
pub open spec fn routed(target: Seq<char>) -> Option<Endpoints> {
    if "/echo/"@.is_prefix_of(target) {
        Some(Endpoints::Echo)
    } else if target == "/user-agent"@ {
        Some(Endpoints::UserAgent)
    } else if target == "/sleep"@ {
        Some(Endpoints::Sleep)
    } else if "/files/"@.is_prefix_of(target) {
        Some(Endpoints::File)
    } else if "/"@.is_prefix_of(target) {
        Some(Endpoints::UrlPath)
    } else {
        None
    }
}

/// What is left of `target` once `prefix` is taken off its front; nothing if `target`
/// does not begin with `prefix`.
pub open spec fn stripped(target: Seq<char>, prefix: Seq<char>) -> Seq<char> {
    if prefix.is_prefix_of(target) {
        target.skip(prefix.len() as int)
    } else {
        Seq::empty()
    }
}

/// Whether two dots stand side by side somewhere in `s`.
pub open spec fn has_parent_marker(s: Seq<char>) -> bool {
    exists|i: int| 0 <= i && i + 1 < s.len() && #[trigger] s[i] == '.' && s[i + 1] == '.'
}

/// Whether the part of `s` from `lo` up to `hi` can name a file or directory: it is not
/// empty and is not the single dot.
pub open spec fn part_ok(s: Seq<char>, lo: int, hi: int) -> bool {
    lo < hi && !(hi == lo + 1 && s[lo] == '.')
}

/// Whether every part that `/` divides `s` into, from position `i` on, can name a file
/// or directory.
pub open spec fn parts_ok(s: Seq<char>, i: int) -> bool
    decreases s.len() - i,
{
    let k = find_from(s, i, '/');
    if 0 <= i <= k && k <= s.len() {
        part_ok(s, i, k) && (k < s.len() ==> parts_ok(s, k + 1))
    } else {
        true
    }
}

/// Whether `raw` may be looked up below the data directory. It may not be longer than
/// `MAX_TARGET_BYTES` in UTF-8, hold the NUL character (the only one whose UTF-8 form
/// holds a zero byte) or a backslash, hold two dots side by side, or begin with a dot;
/// and unless it is empty, each of the parts that `/` divides it into must be a name.
pub open spec fn is_clean(raw: Seq<char>) -> bool {
    &&& encode_utf8(raw).len() <= MAX_TARGET_BYTES
    &&& !raw.contains('\0')
    &&& !raw.contains('\\')
    &&& !has_parent_marker(raw)
    &&& !(raw.len() > 0 && raw[0] == '.')
    &&& (raw.len() == 0 || parts_ok(raw, 0))
}

/// The prefix that an endpoint takes off a target to get a file name, for the two
/// endpoints that serve files.
pub open spec fn file_prefix(endpoint: Endpoints) -> Option<Seq<char>> {
    match endpoint {
        Endpoints::UrlPath => Some("/"@),
        Endpoints::File => Some("/files/"@),
        _ => None,
    }
}

/// The name of the default document.
pub open spec fn default_target() -> Seq<char> {
    "index.html"@
}

/// The file name that `target` stands for at `endpoint`: the sanitised rest of the
/// target, or the default document where nothing is left.
pub open spec fn filename_of(endpoint: Endpoints, target: Seq<char>) -> Result<
    Seq<char>,
    EndpointErrorView,
> {
    match file_prefix(endpoint) {
        None => Err(EndpointErrorView::WrongEndpointToAccessFiles(target)),
        Some(prefix) => {
            let raw = stripped(target, prefix);
            if !is_clean(raw) {
                Err(EndpointErrorView::BadRequest(raw))
            } else if raw.len() == 0 {
                Ok(default_target())
            } else {
                Ok(raw)
            }
        },
    }
}

/// The last position before `hi` that holds `c`, or -1 if there is none.
pub open spec fn rfind_before(s: Seq<char>, hi: int, c: char) -> int
    decreases hi,
{
    if 0 < hi <= s.len() && s[hi - 1] != c {
        rfind_before(s, hi - 1, c)
    } else {
        hi - 1
    }
}

/// The extension of the file that the path `name` ends in: what follows the last dot of
/// its last part, provided that dot is not the part's first character; else nothing.
pub open spec fn extension_of(name: Seq<char>) -> Seq<char> {
    let start = rfind_before(name, name.len() as int, '/') + 1;
    let dot = rfind_before(name, name.len() as int, '.');
    if start < dot {
        name.skip(dot + 1)
    } else {
        Seq::empty()
    }
}

fn rfind_char(v: &Vec<char>, c: char) -> (r: Option<usize>)
    ensures
        match r {
            Some(i) => i == rfind_before(v@, v@.len() as int, c) && i < v.len(),
            None => rfind_before(v@, v@.len() as int, c) == -1,
        },
{
    let mut hi: usize = v.len();
    while hi > 0 && v[hi - 1] != c
        invariant
            hi <= v.len(),
            rfind_before(v@, v@.len() as int, c) == rfind_before(v@, hi as int, c),
        decreases hi,
    {
        hi -= 1;
    }
    if hi == 0 {
        None
    } else {
        Some(hi - 1)
    }
}

fn holds_parent_marker(v: &Vec<char>) -> (r: bool)
    ensures
        r == has_parent_marker(v@),
{
    if v.len() < 2 {
        return false;
    }
    let mut i: usize = 0;
    while i < v.len() - 1
        invariant
            v.len() >= 2,
            i <= v.len() - 1,
            forall|j: int| 0 <= j < i && j + 1 < v@.len() ==> !(#[trigger] v@[j] == '.' && v@[j + 1] == '.'),
        decreases v.len() - i,
    {
        if v[i] == '.' && v[i + 1] == '.' {
            return true;
        }
        i += 1;
    }
    false
}

fn all_parts_ok(v: &Vec<char>) -> (r: bool)
    ensures
        r == parts_ok(v@, 0),
{
    let mut start: usize = 0;
    loop
        invariant
            start <= v.len(),
            parts_ok(v@, 0) == parts_ok(v@, start as int),
        decreases v.len() - start,
    {
        let end = find_char(v, start, '/');
        if end == start || (end == start + 1 && v[start] == '.') {
            return false;
        }
        if end >= v.len() {
            return true;
        }
        start = end + 1;
    }
}

/// What is left of `target` once `prefix` is taken off its front.
pub fn strip_prefix<'a>(target: &'a str, prefix: &str) -> (raw: &'a str)
    ensures
        raw@ == stripped(target@, prefix@),
{
    let tv = chars_of(target);
    let pv = chars_of(prefix);
    let raw: &'a str = if has_prefix(&tv, &pv) {
        target.substring_char(pv.len(), tv.len())
    } else {
        target.substring_char(0, 0)
    };
    assert(raw@ =~= stripped(target@, prefix@));
    raw
}

/// How long the sleep endpoint waits, in seconds.
pub const SLEEP_SECONDS: u64 = 10;

/// The encoding that the request's headers ask for: the one chosen for the value of
/// `accept-encoding`, a name that is matched without regard to the case of its letters.
pub open spec fn negotiated(h: Seq<Field>) -> Option<ContentEncoding> {
    match value_ignoring_case(h, "accept-encoding"@) {
        Some(v) => ContentEncoding::chosen_for(v),
        None => None,
    }
}

/// What every response to `req` starts from: the request's version, the negotiated
/// encoding, and the close flag set where the request does not keep the connection open.
pub open spec fn base_response(req: RequestView) -> ResponseView {
    ResponseView {
        protocol_version: req.protocol_version,
        content_encoding: negotiated(req.headers),
        conn_close: !stays_open(req.headers),
        ..default_response()
    }
}

/// `r` with `body` as its body and the body's length as its length.
pub open spec fn with_content(r: ResponseView, body: Seq<u8>) -> ResponseView {
    ResponseView { content_length: body.len(), body: Some(body), ..r }
}

/// The description of a read that reported no content.
pub open spec fn no_content_text() -> Seq<char> {
    "no file content"@
}

/// The bytes to serve for a `GET` of `target` at `endpoint`, given what the file system
/// reported. An empty file name asks for the default document, and where that is absent
/// the listing of the directory takes its place. A file that resolves to a place outside
/// the data directory is refused.
pub open spec fn file_content(endpoint: Endpoints, target: Seq<char>, out: OutcomeView) -> Result<
    Seq<u8>,
    EndpointErrorView,
> {
    match file_prefix(endpoint) {
        None => Err(EndpointErrorView::WrongEndpointToAccessFiles(target)),
        Some(prefix) => {
            let raw = stripped(target, prefix);
            if !is_clean(raw) {
                Err(EndpointErrorView::BadRequest(raw))
            } else {
                match out {
                    OutcomeView::Content(b) => Ok(b),
                    OutcomeView::Failed(msg) => Err(EndpointErrorView::Io(msg)),
                    OutcomeView::Entries(dir, es) => if raw.len() == 0 {
                        Ok(encode_utf8(listing_text(dir, es)))
                    } else {
                        Err(EndpointErrorView::Io(no_content_text()))
                    },
                    OutcomeView::Escapes => if raw.len() == 0 {
                        Err(EndpointErrorView::Io(no_content_text()))
                    } else {
                        Err(EndpointErrorView::BadRequest(raw))
                    },
                    _ => Err(EndpointErrorView::Io(no_content_text())),
                }
            }
        },
    }
}

/// The response of `endpoint` to `req`, given what happened outside, or the error that
/// the endpoint gives up with.
pub open spec fn handled(endpoint: Endpoints, req: RequestView, out: OutcomeView) -> Result<
    ResponseView,
    EndpointErrorView,
> {
    let base = base_response(req);
    match endpoint {
        Endpoints::Echo => Ok(
            with_content(base, encode_utf8(stripped(req.request_target, "/echo/"@))),
        ),
        Endpoints::UserAgent => match value_ignoring_case(req.headers, "user-agent"@) {
            Some(agent) => Ok(with_content(base, encode_utf8(agent))),
            None => Err(EndpointErrorView::UserAgentNotFound),
        },
        Endpoints::Sleep => Ok(with_content(base, encode_utf8("Good sleep!"@))),
        Endpoints::UrlPath | Endpoints::File => match req.http_method {
            HttpMethod::Get => match file_content(endpoint, req.request_target, out) {
                Ok(bytes) => match filename_of(endpoint, req.request_target) {
                    Ok(name) => Ok(
                        ResponseView {
                            content_type: ContentType::for_extension(extension_of(name)),
                            ..with_content(base, bytes)
                        },
                    ),
                    Err(e) => Err(e),
                },
                Err(_) => Ok(ResponseView { status_code: StatusCode::NotFound, ..base }),
            },
            HttpMethod::Post => match filename_of(endpoint, req.request_target) {
                Err(e) => Err(e),
                Ok(_) => match req.body {
                    None => Err(EndpointErrorView::PostBodyNotFound),
                    Some(_) => match out {
                        OutcomeView::Written => Ok(
                            ResponseView {
                                status_code: StatusCode::Created,
                                content_type: ContentType::OctetStream,
                                ..base
                            },
                        ),
                        _ => Ok(ResponseView { status_code: StatusCode::NotFound, ..base }),
                    },
                },
            },
        },
    }
}

/// What has to happen outside before `endpoint` can answer `req`.
pub open spec fn effect_of(endpoint: Endpoints, req: RequestView) -> EffectView {
    match endpoint {
        Endpoints::Sleep => EffectView::Sleep(SLEEP_SECONDS as nat),
        Endpoints::UrlPath | Endpoints::File => match req.http_method {
            HttpMethod::Get => match file_prefix(endpoint) {
                Some(prefix) => {
                    let raw = stripped(req.request_target, prefix);
                    if !is_clean(raw) {
                        EffectView::Nothing
                    } else if raw.len() == 0 {
                        EffectView::ReadIndex(default_target())
                    } else {
                        EffectView::ReadFile(raw)
                    }
                },
                None => EffectView::Nothing,
            },
            HttpMethod::Post => match (filename_of(endpoint, req.request_target), req.body) {
                (Ok(name), Some(content)) => EffectView::WriteFile(name, content),
                _ => EffectView::Nothing,
            },
        },
        _ => EffectView::Nothing,
    }
}

/// What has to happen outside before `req` can be answered.
pub open spec fn effect_for(req: RequestView) -> EffectView {
    match routed(req.request_target) {
        Some(endpoint) => effect_of(endpoint, req),
        None => EffectView::Nothing,
    }
}

impl Endpoints {
    /// Finds the endpoint of a request target.
    pub fn parse(request_target: &str) -> (r: Result<Endpoints, EndpointError>)
        ensures
            match r {
                Ok(e) => routed(request_target@) == Some(e),
                Err(e) => routed(request_target@) is None && e@
                    == EndpointErrorView::EndpointNotRecognized(request_target@),
            },
    {
        let v = chars_of(request_target);
        if has_prefix(&v, &chars_of("/echo/")) {
            Ok(Endpoints::Echo)
        } else if str_equal(request_target, "/user-agent") {
            Ok(Endpoints::UserAgent)
        } else if str_equal(request_target, "/sleep") {
            Ok(Endpoints::Sleep)
        } else if has_prefix(&v, &chars_of("/files/")) {
            Ok(Endpoints::File)
        } else if has_prefix(&v, &chars_of("/")) {
            Ok(Endpoints::UrlPath)
        } else {
            Err(EndpointError::EndpointNotRecognized(request_target.to_owned()))
        }
    }

    /// Takes `prefix` off the request's target and checks what is left.
    pub fn clean_target<'a>(http_request: &'a HttpRequest, prefix: &str) -> (r: Result<
        &'a str,
        EndpointError,
    >)
        ensures
            match r {
                Ok(t) => is_clean(stripped(http_request@.request_target, prefix@)) && t@
                    == stripped(http_request@.request_target, prefix@),
                Err(e) => !is_clean(stripped(http_request@.request_target, prefix@)) && e@
                    == EndpointErrorView::BadRequest(
                    stripped(http_request@.request_target, prefix@),
                ),
            },
    {
        let raw: &'a str = strip_prefix(http_request.request_target.as_str(), prefix);
        let rv = chars_of(raw);
        let n_bytes = raw.as_bytes().len();
        let clean = n_bytes <= MAX_TARGET_BYTES && !contains_char(&rv, '\0') && !contains_char(
            &rv,
            '\\',
        ) && !holds_parent_marker(&rv) && !(rv.len() > 0 && rv[0] == '.') && (rv.len() == 0
            || all_parts_ok(&rv));
        if clean {
            Ok(raw)
        } else {
            Err(EndpointError::BadRequest(raw.to_owned()))
        }
    }

    /// The file name that the request's target stands for at this endpoint.
    pub fn get_target_filename<'a>(&self, http_request: &'a HttpRequest) -> (r: Result<
        &'a str,
        EndpointError,
    >)
        ensures
            match r {
                Ok(name) => filename_of(*self, http_request@.request_target) == Ok::<
                    Seq<char>,
                    EndpointErrorView,
                >(name@),
                Err(e) => filename_of(*self, http_request@.request_target) == Err::<
                    Seq<char>,
                    EndpointErrorView,
                >(e@),
            },
    {
        let prefix = match self {
            Endpoints::UrlPath => "/",
            Endpoints::File => "/files/",
            _ => {
                return Err(
                    EndpointError::WrongEndpointToAccessFiles(
                        http_request.request_target.as_str().to_owned(),
                    ),
                );
            },
        };
        let request_target = match Self::clean_target(http_request, prefix) {
            Ok(t) => t,
            Err(e) => {
                return Err(e);
            },
        };
        if request_target.unicode_len() == 0 {
            return Ok("index.html");
        }
        Ok(request_target)
    }

    /// The content type of the file that the request's target stands for, by the
    /// extension of its name.
    pub fn get_file_content_type(&self, http_request: &HttpRequest) -> (r: Result<
        ContentType,
        EndpointError,
    >)
        ensures
            match r {
                Ok(t) => filename_of(*self, http_request@.request_target) matches Ok(name) && t
                    == ContentType::for_extension(extension_of(name)),
                Err(e) => filename_of(*self, http_request@.request_target) == Err::<
                    Seq<char>,
                    EndpointErrorView,
                >(e@),
            },
    {
        let filename = match self.get_target_filename(http_request) {
            Ok(name) => name,
            Err(e) => {
                return Err(e);
            },
        };
        Ok(content_type_of(filename))
    }
}

impl Endpoints {
    /// What has to happen outside before this endpoint can answer the request.
    pub fn required_effect(&self, http_request: &HttpRequest) -> (r: Effect)
        ensures
            r@ == effect_of(*self, http_request@),
    {
        match self {
            Endpoints::Sleep => Effect::Sleep(SLEEP_SECONDS),
            Endpoints::UrlPath | Endpoints::File => match http_request.http_method {
                HttpMethod::Get => {
                    let prefix = match self {
                        Endpoints::UrlPath => "/",
                        _ => "/files/",
                    };
                    match Self::clean_target(http_request, prefix) {
                        Ok(raw) => {
                            if raw.unicode_len() == 0 {
                                Effect::ReadIndex("index.html".to_owned())
                            } else {
                                Effect::ReadFile(raw.to_owned())
                            }
                        },
                        Err(_) => Effect::Nothing,
                    }
                },
                HttpMethod::Post => match self.get_target_filename(http_request) {
                    Ok(name) => match &http_request.body {
                        Some(content) => Effect::WriteFile(name.to_owned(), content.clone()),
                        None => Effect::Nothing,
                    },
                    Err(_) => Effect::Nothing,
                },
            },
            _ => Effect::Nothing,
        }
    }

    /// The bytes to serve for a `GET`, from what the file system reported.
    pub fn get_file_content(&self, http_request: &HttpRequest, outcome: Outcome) -> (r: Result<
        Vec<u8>,
        EndpointError,
    >)
        ensures
            match r {
                Ok(bytes) => file_content(*self, http_request@.request_target, outcome@) == Ok::<
                    Seq<u8>,
                    EndpointErrorView,
                >(bytes@),
                Err(e) => file_content(*self, http_request@.request_target, outcome@) == Err::<
                    Seq<u8>,
                    EndpointErrorView,
                >(e@),
            },
    {
        let prefix = match self {
            Endpoints::UrlPath => "/",
            Endpoints::File => "/files/",
            _ => {
                return Err(
                    EndpointError::WrongEndpointToAccessFiles(
                        http_request.request_target.as_str().to_owned(),
                    ),
                );
            },
        };
        let request_target = match Self::clean_target(http_request, prefix) {
            Ok(t) => t,
            Err(e) => {
                return Err(e);
            },
        };
        let is_index = request_target.unicode_len() == 0;
        match outcome {
            Outcome::Content(bytes) => Ok(bytes),
            Outcome::Failed(msg) => Err(EndpointError::Io(msg)),
            Outcome::Entries(dir, entries) => {
                if is_index {
                    Ok(render_directory_listing(dir.as_str(), &entries))
                } else {
                    Err(EndpointError::Io("no file content".to_owned()))
                }
            },
            Outcome::Escapes => {
                if is_index {
                    Err(EndpointError::Io("no file content".to_owned()))
                } else {
                    Err(EndpointError::BadRequest(request_target.to_owned()))
                }
            },
            _ => Err(EndpointError::Io("no file content".to_owned())),
        }
    }

    /// Answers a request at this endpoint, given what happened outside for it.
    pub fn handle_request(&self, http_request: &HttpRequest, outcome: Outcome) -> (r: Result<
        HttpResponse,
        EndpointError,
    >)
        ensures
            match r {
                Ok(response) => handled(*self, http_request@, outcome@) == Ok::<
                    ResponseView,
                    EndpointErrorView,
                >(response@),
                Err(e) => handled(*self, http_request@, outcome@) == Err::<
                    ResponseView,
                    EndpointErrorView,
                >(e@),
            },
    {
        let mut builder = HttpResponse::builder();
        builder.with_protocol_version(http_request.protocol_version);
        let content_encoding = match http_request.headers.get_ignoring_case("accept-encoding") {
            Some(hdr_val) => ContentEncoding::from_header(hdr_val.as_str()),
            None => None,
        };
        builder.with_content_encoding(content_encoding);
        builder.with_conn_close(!http_request.keep_alive());
        assert(builder@ == base_response(http_request@));
        match self {
            Endpoints::Echo => {
                let to_echo_back = strip_prefix(
                    http_request.request_target.as_str(),
                    "/echo/",
                ).as_bytes();
                builder.with_content_length(to_echo_back.len());
                builder.with_body(to_echo_back);
            },
            Endpoints::UserAgent => {
                let user_agent_body = match http_request.headers.get_ignoring_case("user-agent") {
                    Some(agent) => agent,
                    None => {
                        return Err(EndpointError::UserAgentNotFound);
                    },
                };
                let bytes = user_agent_body.as_str().as_bytes();
                builder.with_content_length(bytes.len());
                builder.with_body(bytes);
            },
            Endpoints::Sleep => {
                let sleep_msg = "Good sleep!".as_bytes();
                builder.with_content_length(sleep_msg.len());
                builder.with_body(sleep_msg);
            },
            Endpoints::UrlPath | Endpoints::File => match http_request.http_method {
                HttpMethod::Get => match self.get_file_content(http_request, outcome) {
                    Ok(file_content) => {
                        let content_type = match self.get_file_content_type(http_request) {
                            Ok(t) => t,
                            Err(e) => {
                                return Err(e);
                            },
                        };
                        builder.with_content_type(content_type);
                        builder.with_content_length(file_content.len());
                        builder.with_body(file_content.as_slice());
                    },
                    Err(_) => {
                        builder.with_status_code(StatusCode::NotFound);
                    },
                },
                HttpMethod::Post => {
                    match self.get_target_filename(http_request) {
                        Ok(_) => {},
                        Err(e) => {
                            return Err(e);
                        },
                    }
                    if http_request.body.is_none() {
                        return Err(EndpointError::PostBodyNotFound);
                    }
                    match outcome {
                        Outcome::Written => {
                            builder.with_status_code(StatusCode::Created);
                            builder.with_content_type(ContentType::OctetStream);
                        },
                        _ => {
                            builder.with_status_code(StatusCode::NotFound);
                        },
                    }
                },
            },
        }
        Ok(builder.build())
    }
}

/// What has to happen outside before the request can be answered.
pub fn required_effect(http_request: &HttpRequest) -> (r: Effect)
    ensures
        r@ == effect_for(http_request@),
{
    match Endpoints::parse(http_request.request_target.as_str()) {
        Ok(endpoint) => endpoint.required_effect(http_request),
        Err(_) => Effect::Nothing,
    }
}

/// The content type of a file by the extension of its name.
pub fn content_type_of(filename: &str) -> (t: ContentType)
    ensures
        t == ContentType::for_extension(extension_of(filename@)),
{
    let v = chars_of(filename);
    let start: usize = match rfind_char(&v, '/') {
        Some(i) => i + 1,
        None => 0,
    };
    match rfind_char(&v, '.') {
        Some(dot) => {
            if start < dot {
                let ext = filename.substring_char(dot + 1, v.len());
                assert(ext@ =~= extension_of(filename@));
                ContentType::from_extension(ext)
            } else {
                let ext = filename.substring_char(0, 0);
                assert(ext@ =~= extension_of(filename@));
                ContentType::from_extension(ext)
            }
        },
        None => {
            let ext = filename.substring_char(0, 0);
            assert(ext@ =~= extension_of(filename@));
            ContentType::from_extension(ext)
        },
    }
}

impl std::str::FromStr for Endpoints {
    type Err = EndpointError;

    fn from_str(request_target: &str) -> (r: Result<Self, Self::Err>)
        ensures
            match r {
                Ok(e) => routed(request_target@) == Some(e),
                Err(e) => routed(request_target@) is None && e@
                    == EndpointErrorView::EndpointNotRecognized(request_target@),
            },
    {
        Endpoints::parse(request_target)
    }
}

/// Where each kind of target leads: the two exact targets to their endpoints, and a
/// target below `/files/` to the file endpoint.
pub proof fn lemma_routes(target: Seq<char>)
    ensures
        "/echo/"@.is_prefix_of(target) ==> routed(target) == Some(Endpoints::Echo),
        target == "/user-agent"@ ==> routed(target) == Some(Endpoints::UserAgent),
        target == "/sleep"@ ==> routed(target) == Some(Endpoints::Sleep),
        "/files/"@.is_prefix_of(target) ==> routed(target) == Some(Endpoints::File),
        routed(target) is Some <==> "/"@.is_prefix_of(target),
{
    reveal_strlit("/echo/");
    reveal_strlit("/user-agent");
    reveal_strlit("/sleep");
    reveal_strlit("/files/");
    reveal_strlit("/");
    if "/echo/"@.is_prefix_of(target) {
        assert(target.subrange(0, 6)[0] == '/');
        assert("/"@ =~= target.subrange(0, 1));
    }
    if target == "/user-agent"@ {
        assert(target.subrange(0, 6)[1] == 'u');
        assert("/"@ =~= target.subrange(0, 1));
    }
    if target == "/sleep"@ {
        assert(target.subrange(0, 6)[1] == 's');
        assert("/"@ =~= target.subrange(0, 1));
    }
    if "/files/"@.is_prefix_of(target) {
        assert(target.subrange(0, 7)[0] == '/');
        assert(target.subrange(0, 7)[1] == 'f');
        assert("/"@ =~= target.subrange(0, 1));
        if "/echo/"@.is_prefix_of(target) {
            assert(target.subrange(0, 6)[1] == 'e');
        }
    }
}

/// The two headers that the router looks up are found under their usual spelling too.
pub proof fn lemma_usual_header_names_match()
    ensures
        name_matches("User-Agent"@, "user-agent"@, true),
        name_matches("Accept-Encoding"@, "accept-encoding"@, true),
{
    reveal_strlit("User-Agent");
    reveal_strlit("user-agent");
    reveal_strlit("Accept-Encoding");
    reveal_strlit("accept-encoding");
    assert(same_text_ignoring_case("User-Agent"@, "user-agent"@));
    assert(same_text_ignoring_case("Accept-Encoding"@, "accept-encoding"@));
}

/// A target that holds two dots side by side is never clean.
pub proof fn lemma_parent_marker_is_unclean(raw: Seq<char>)
    requires
        has_parent_marker(raw),
    ensures
        !is_clean(raw),
{
}

} // verus!
