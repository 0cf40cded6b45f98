//! Request paths, request plans, and the rules that turn failed responses
//! and script errors into `ApiError` values.
use vstd::prelude::*;
use vstd::string::StringExecFns;

use crate::text::{decimal, push_decimal};

verus! {

// ---------------------------------------------------------------------------
// Base URL: written once, at start-up
// ---------------------------------------------------------------------------

/// The base URL of the API. The first value written stays; later writes are ignored.
pub struct BaseUrl {
    url: Option<String>,
}

impl View for BaseUrl {
    type V = Option<Seq<char>>;

    closed spec fn view(&self) -> Option<Seq<char>> {
        match self.url {
            Some(u) => Some(u@),
            None => None,
        }
    }
}

impl BaseUrl {
    /// A base URL that has not been set yet.
    pub fn new() -> (r: Self)
        ensures
            r@ == None::<Seq<char>>,
    {
        BaseUrl { url: None }
    }
}

/// The base URL after a write of `url`: unchanged when one was set before.
pub open spec fn base_url_after_set(current: Option<Seq<char>>, url: Seq<char>) -> Option<Seq<char>> {
    match current {
        Some(u) => Some(u),
        None => Some(url),
    }
}

/// Sets the base URL unless it was set before.
pub fn set_base_url(cell: &mut BaseUrl, url: &str)
    ensures
        final(cell)@ == base_url_after_set(old(cell)@, url@),
{
    if cell.url.is_none() {
        cell.url = Some(url.to_owned());
    }
}

/// The base URL, or the empty string when none was set.
pub fn base_url(cell: &BaseUrl) -> (r: &str)
    ensures
        r@ == (match cell@ {
            Some(u) => u,
            None => Seq::<char>::empty(),
        }),
{
    match &cell.url {
        Some(u) => u.as_str(),
        None => {
            proof {
                reveal_strlit("");
            }
            ""
        },
    }
}

/// Once a base URL is set, further writes leave it unchanged; the first write
/// to an unset URL stores the written value.
pub proof fn law_base_url_written_once(current: Option<Seq<char>>, first: Seq<char>, second: Seq<
    char,
>)
    ensures
        base_url_after_set(base_url_after_set(current, first), second) == base_url_after_set(
            current,
            first,
        ),
        base_url_after_set(None, first) == Some(first),
{
}

// ---------------------------------------------------------------------------
// HttpMethod
// ---------------------------------------------------------------------------

/// The HTTP methods the client issues.
#[derive(Debug, Clone, Copy)]
pub enum HttpMethod {
    GET,
    POST,
    PUT,
    DELETE,
}

/// The method's name as it goes on the wire.
pub open spec fn method_name(m: HttpMethod) -> Seq<char> {
    match m {
        HttpMethod::GET => "GET"@,
        HttpMethod::POST => "POST"@,
        HttpMethod::PUT => "PUT"@,
        HttpMethod::DELETE => "DELETE"@,
    }
}

impl HttpMethod {
    /// The method's name, e.g. `"GET"`.
    pub fn name(&self) -> (r: String)
        ensures
            r@ == method_name(*self),
    {
        match self {
            HttpMethod::GET => "GET".to_owned(),
            HttpMethod::POST => "POST".to_owned(),
            HttpMethod::PUT => "PUT".to_owned(),
            HttpMethod::DELETE => "DELETE".to_owned(),
        }
    }
}

// ---------------------------------------------------------------------------
// ApiError
// ---------------------------------------------------------------------------

/// An error reported by the API or by the client, with its HTTP status
/// (0 when no response was received).
#[derive(Clone, Debug)]
pub struct ApiError {
    pub message: String,
    pub status: u16,
}

/// How an error is shown to users: `[status] message`.
pub open spec fn api_error_text(status: u16, message: Seq<char>) -> Seq<char> {
    "["@ + decimal(status as nat) + "] "@ + message
}

impl ApiError {
    pub fn new(message: String, status: u16) -> (r: Self)
        ensures
            r.message == message,
            r.status == status,
    {
        ApiError { message, status }
    }

    /// Whether the request was rejected as unauthenticated (status 401).
    pub fn is_unauthorized(&self) -> (r: bool)
        ensures
            r == (self.status == 401),
    {
        self.status == 401
    }

    /// The text shown for the error: `[status] message`.
    pub fn to_string(&self) -> (r: String)
        ensures
            r@ == api_error_text(self.status, self.message@),
    {
        let mut s = "[".to_owned();
        push_decimal(&mut s, self.status as u64);
        s.append("] ");
        s.append(self.message.as_str());
        s
    }
}

// ---------------------------------------------------------------------------
// ResourcePath: fluent path builder
// ---------------------------------------------------------------------------

/// A request path, kept as its segments.
pub struct ResourcePath {
    segments: Vec<String>,
}

impl Clone for ResourcePath {
    /// A copy with the same segments.
    fn clone(&self) -> (r: Self)
        ensures
            r@ == self@,
    {
        proof {
            use_type_invariant(self);
        }
        let mut segments: Vec<String> = Vec::new();
        let mut i: usize = 0;
        while i < self.segments.len()
            invariant
                i <= self.segments@.len(),
                segments@.len() == i,
                forall|k: int| 0 <= k < i ==> #[trigger] segments@[k]@ == self.segments@[k]@,
            decreases self.segments.len() - i,
        {
            segments.push(self.segments[i].clone());
            i = i + 1;
        }
        let r = ResourcePath { segments };
        assert(r@ =~= self@);
        r
    }
}

/// The segments joined by `/`.
pub open spec fn join_segments(segs: Seq<Seq<char>>) -> Seq<char>
    decreases segs.len(),
{
    if segs.len() == 0 {
        Seq::<char>::empty()
    } else if segs.len() == 1 {
        segs[0]
    } else {
        join_segments(segs.drop_last()) + "/"@ + segs.last()
    }
}

impl View for ResourcePath {
    type V = Seq<Seq<char>>;

    closed spec fn view(&self) -> Seq<Seq<char>> {
        self.segments@.map_values(|s: String| s@)
    }
}

impl ResourcePath {
    /// Every path holds at least one segment, its base.
    #[verifier::type_invariant]
    spec fn has_base(&self) -> bool {
        self.segments@.len() >= 1
    }

    /// A path of one segment.
    pub fn new(base: &str) -> (r: Self)
        ensures
            r@ == seq![base@],
    {
        let mut segments: Vec<String> = Vec::new();
        segments.push(base.to_owned());
        let r = ResourcePath { segments };
        assert(r@ =~= seq![base@]);
        r
    }

    /// Appends an id segment: `users` becomes `users/123`.
    pub fn id(self, id: &str) -> (r: Self)
        ensures
            r@ == self@.push(id@),
            join_segments(r@) == join_segments(self@) + "/"@ + id@,
    {
        proof {
            use_type_invariant(&self);
            law_build_appends_segment(self@, id@);
        }
        let mut segments = self.segments;
        segments.push(id.to_owned());
        let r = ResourcePath { segments };
        assert(r@ =~= self@.push(id@));
        r
    }

    /// Appends a sub-resource name: `users/123` becomes `users/123/permissions`.
    pub fn child(self, resource: &str) -> (r: Self)
        ensures
            r@ == self@.push(resource@),
            join_segments(r@) == join_segments(self@) + "/"@ + resource@,
    {
        proof {
            use_type_invariant(&self);
            law_build_appends_segment(self@, resource@);
        }
        let mut segments = self.segments;
        segments.push(resource.to_owned());
        let r = ResourcePath { segments };
        assert(r@ =~= self@.push(resource@));
        r
    }

    /// The path as a string: the segments joined by `/`.
    pub fn build(&self) -> (r: String)
        ensures
            r@ == join_segments(self@),
    {
        let mut r = String::new();
        let n = self.segments.len();
        let mut i: usize = 0;
        while i < n
            invariant
                n == self.segments@.len(),
                i <= n,
                r@ == join_segments(self@.take(i as int)),
            decreases n - i,
        {
            let ghost before = self@.take(i as int);
            if i > 0 {
                r.append("/");
            }
            r.append(self.segments[i].as_str());
            proof {
                let after = self@.take(i + 1);
                assert(after.drop_last() =~= before);
                assert(after.last() == self.segments@[i as int]@);
                if i == 0 {
                    assert(before.len() == 0);
                    assert(join_segments(before) =~= Seq::<char>::empty());
                    assert(r@ =~= after[0]);
                }
            }
            i = i + 1;
        }
        assert(self@.take(n as int) =~= self@);
        r
    }

    /// Same as `build`: how the path is displayed.
    pub fn to_string(&self) -> (r: String)
        ensures
            r@ == join_segments(self@),
    {
        self.build()
    }
}

/// Appending a segment to a path of at least one segment appends `/` and the
/// segment to its built string.
pub proof fn law_build_appends_segment(p: Seq<Seq<char>>, seg: Seq<char>)
    requires
        p.len() >= 1,
    ensures
        join_segments(p.push(seg)) == join_segments(p) + "/"@ + seg,
{
    assert(p.push(seg).drop_last() =~= p);
}

/// A path made of a single segment builds to that segment.
pub proof fn law_build_single_segment(base: Seq<char>)
    ensures
        join_segments(seq![base]) == base,
{
}

// ---------------------------------------------------------------------------
// ApiEndpoint: implemented by applications for their endpoint types
// ---------------------------------------------------------------------------

/// An API endpoint that knows its base path. Applications implement it for
/// their endpoint types.
pub trait ApiEndpoint {
    /// The endpoint's base path, as the implementation defines it.
    spec fn base_view(&self) -> Seq<char>;

    fn base(&self) -> (r: &str)
        ensures
            r@ == self.base_view(),
    ;

    /// The endpoint's path: one segment, the base.
    fn path(&self) -> (r: ResourcePath)
        ensures
            r@ == seq![self.base_view()],
    {
        ResourcePath::new(self.base())
    }
}

// ---------------------------------------------------------------------------
// Requests
// ---------------------------------------------------------------------------

/// A request to send: method, optional bearer token, path and payload.
pub struct ApiRequest<'a, T> {
    pub method: &'a HttpMethod,
    pub auth_token: Option<&'a str>,
    pub path: &'a str,
    pub payload: &'a T,
}

impl<'a, T> ApiRequest<'a, T> {
    pub fn new(
        method: &'a HttpMethod,
        auth_token: Option<&'a str>,
        path: &'a str,
        payload: &'a T,
    ) -> (r: Self)
        ensures
            r.method == method,
            r.auth_token == auth_token,
            r.path == path,
            r.payload == payload,
    {
        ApiRequest { method, auth_token, path, payload }
    }
}

/// Everything about an outgoing request but its body: method, URL and headers.
pub struct RequestPlan {
    pub method: HttpMethod,
    pub url: String,
    pub headers: Vec<(String, String)>,
}

/// The full URL of a path: `{base}/{path}`.
pub open spec fn url_of(base: Seq<char>, path: Seq<char>) -> Seq<char> {
    base + "/"@ + path
}

/// The headers of a request: JSON content, and a bearer token when there is one.
pub open spec fn headers_of(token: Option<Seq<char>>) -> Seq<(Seq<char>, Seq<char>)> {
    match token {
        Some(t) => seq![
            ("Content-Type"@, "application/json"@),
            ("Authorization"@, "Bearer "@ + t),
        ],
        None => seq![("Content-Type"@, "application/json"@)],
    }
}

impl RequestPlan {
    pub open spec fn headers_view(&self) -> Seq<(Seq<char>, Seq<char>)> {
        self.headers@.map_values(|h: (String, String)| (h.0@, h.1@))
    }
}

/// Builds the full URL of a path.
pub fn request_url(base: &str, path: &str) -> (r: String)
    ensures
        r@ == url_of(base@, path@),
{
    let mut r = base.to_owned();
    r.append("/");
    r.append(path);
    r
}

/// Plans a request with the given method, token and path.
pub fn plan_request(base: &str, method: HttpMethod, token: Option<&str>, path: &str) -> (r:
    RequestPlan)
    ensures
        r.method == method,
        r.url@ == url_of(base@, path@),
        r.headers_view() == headers_of(
            match token {
                Some(t) => Some(t@),
                None => None,
            },
        ),
{
    let mut headers: Vec<(String, String)> = Vec::new();
    headers.push(("Content-Type".to_owned(), "application/json".to_owned()));
    match token {
        Some(t) => {
            let mut bearer = "Bearer ".to_owned();
            bearer.append(t);
            headers.push(("Authorization".to_owned(), bearer));
        },
        None => {},
    }
    let r = RequestPlan { method, url: request_url(base, path), headers };
    assert(r.headers_view() =~= headers_of(
        match token {
            Some(t) => Some(t@),
            None => None,
        },
    ));
    r
}

/// Plans a GET of `path` with a bearer token.
pub fn plan_get(base: &str, token: &str, path: &str) -> (r: RequestPlan)
    ensures
        r.method == HttpMethod::GET,
        r.url@ == url_of(base@, path@),
        r.headers_view() == headers_of(Some(token@)),
{
    plan_request(base, HttpMethod::GET, Some(token), path)
}

/// Plans a DELETE of `path` with a bearer token.
pub fn plan_delete(base: &str, token: &str, path: &str) -> (r: RequestPlan)
    ensures
        r.method == HttpMethod::DELETE,
        r.url@ == url_of(base@, path@),
        r.headers_view() == headers_of(Some(token@)),
{
    plan_request(base, HttpMethod::DELETE, Some(token), path)
}

/// Plans the request described by an `ApiRequest` (its body is serialised separately).
pub fn plan_api_request<T>(base: &str, req: &ApiRequest<T>) -> (r: RequestPlan)
    ensures
        r.method == *req.method,
        r.url@ == url_of(base@, req.path@),
        r.headers_view() == headers_of(
            match req.auth_token {
                Some(t) => Some(t@),
                None => None,
            },
        ),
{
    plan_request(base, *req.method, req.auth_token, req.path)
}

// ---------------------------------------------------------------------------
// Error texts
// ---------------------------------------------------------------------------

/// The reason phrase the client uses for a status code.
pub open spec fn http_error_text(code: u16) -> Seq<char> {
    if code == 400 {
        "Bad Request"@
    } else if code == 401 {
        "Unauthorized"@
    } else if code == 403 {
        "Forbidden"@
    } else if code == 404 {
        "Not Found"@
    } else if code == 405 {
        "Method Not Allowed"@
    } else if code == 408 {
        "Request Timeout"@
    } else if code == 409 {
        "Conflict"@
    } else if code == 422 {
        "Unprocessable Entity"@
    } else if code == 429 {
        "Too Many Requests"@
    } else if code == 500 {
        "Internal Server Error"@
    } else if code == 502 {
        "Bad Gateway"@
    } else if code == 503 {
        "Service Unavailable"@
    } else if code == 504 {
        "Gateway Timeout"@
    } else {
        "HTTP Error "@ + decimal(code as nat)
    }
}

/// The reason phrase for a status code; `HTTP Error {code}` for codes without one.
pub fn get_http_error(code: u16) -> (r: String)
    ensures
        r@ == http_error_text(code),
{
    if code == 400 {
        "Bad Request".to_owned()
    } else if code == 401 {
        "Unauthorized".to_owned()
    } else if code == 403 {
        "Forbidden".to_owned()
    } else if code == 404 {
        "Not Found".to_owned()
    } else if code == 405 {
        "Method Not Allowed".to_owned()
    } else if code == 408 {
        "Request Timeout".to_owned()
    } else if code == 409 {
        "Conflict".to_owned()
    } else if code == 422 {
        "Unprocessable Entity".to_owned()
    } else if code == 429 {
        "Too Many Requests".to_owned()
    } else if code == 500 {
        "Internal Server Error".to_owned()
    } else if code == 502 {
        "Bad Gateway".to_owned()
    } else if code == 503 {
        "Service Unavailable".to_owned()
    } else if code == 504 {
        "Gateway Timeout".to_owned()
    } else {
        let mut s = "HTTP Error ".to_owned();
        push_decimal(&mut s, code as u64);
        s
    }
}

// ---------------------------------------------------------------------------
// Failed responses
// ---------------------------------------------------------------------------

/// The message of a failed response, from its body text (`None` when the body
/// could not be read as text) and from that text read as an `ApiError`
/// (`None` when it is not one): the error's message, else the text itself;
/// nothing when the body is missing or empty.
pub open spec fn extracted_message(text: Option<Seq<char>>, parsed: Option<Seq<char>>) -> Option<
    Seq<char>,
> {
    match text {
        None => None,
        Some(t) => if t.len() == 0 {
            None
        } else {
            match parsed {
                Some(m) => Some(m),
                None => Some(t),
            }
        },
    }
}

/// Picks the message of a failed response; see `extracted_message`.
pub fn try_extract_error_message(text: Option<String>, parsed: Option<ApiError>) -> (r: Option<
    String,
>)
    ensures
        (match r {
            Some(m) => Some(m@),
            None => None,
        }) == extracted_message(
            match text {
                Some(t) => Some(t@),
                None => None,
            },
            match parsed {
                Some(e) => Some(e.message@),
                None => None,
            },
        ),
{
    match text {
        None => None,
        Some(t) => {
            if t.as_str().is_empty() {
                None
            } else {
                match parsed {
                    Some(e) => Some(e.message),
                    None => Some(t),
                }
            }
        },
    }
}

/// The error for a response with a failure status: the extracted message, or
/// the status's reason phrase when there is none.
pub fn handle_response_error(status: u16, text: Option<String>, parsed: Option<ApiError>) -> (r:
    ApiError)
    ensures
        r.status == status,
        r.message@ == (match extracted_message(
            match text {
                Some(t) => Some(t@),
                None => None,
            },
            match parsed {
                Some(e) => Some(e.message@),
                None => None,
            },
        ) {
            Some(m) => m,
            None => http_error_text(status),
        }),
{
    let msg = match try_extract_error_message(text, parsed) {
        Some(m) => m,
        None => get_http_error(status),
    };
    ApiError::new(msg, status)
}

/// The outcome of reading a successful response body: an error when the body
/// is not text (status 0); otherwise the decoded value, or the decoder's
/// complaint as `Deserialization error: {detail}` (status 0).
pub fn read_response_body<R>(body_is_text: bool, decoded: Result<R, String>) -> (r: Result<
    R,
    ApiError,
>)
    ensures
        !body_is_text ==> (r matches Err(e) && e.status == 0 && e.message@
            == "Response body is not a string"@),
        body_is_text ==> match decoded {
            Ok(v) => r == Ok::<R, ApiError>(v),
            Err(d) => (r matches Err(e) && e.status == 0 && e.message@ == "Deserialization error: "@
                + d@),
        },
{
    if !body_is_text {
        return Err(ApiError::new("Response body is not a string".to_owned(), 0));
    }
    match decoded {
        Ok(v) => Ok(v),
        Err(d) => {
            let mut m = "Deserialization error: ".to_owned();
            m.append(d.as_str());
            Err(ApiError::new(m, 0))
        },
    }
}

/// The error for a payload that could not be serialised: `Serialization error: {detail}`, status 0.
pub fn serialization_error(detail: &str) -> (r: ApiError)
    ensures
        r.status == 0,
        r.message@ == "Serialization error: "@ + detail@,
{
    let mut m = "Serialization error: ".to_owned();
    m.append(detail);
    ApiError::new(m, 0)
}

// ---------------------------------------------------------------------------
// Script errors
// ---------------------------------------------------------------------------

/// What the client reads from a script error value: the value as a string when
/// it is one, its `name` and `message` properties when they are strings, and
/// its debug rendering.
pub struct JsErrorInfo {
    pub as_string: Option<String>,
    pub name: Option<String>,
    pub message: Option<String>,
    pub debug: String,
}

/// Turns a script error into an `ApiError`. A string value is read as a JSON
/// `ApiError` (`parsed`, when it is one) or else taken as the message; other
/// values give their `message`, else their `name`, else their debug rendering.
/// All but a parsed error get status 500.
pub fn parse_api_error(e: JsErrorInfo, parsed: Option<ApiError>) -> (r: ApiError)
    ensures
        e.as_string is Some && parsed is Some ==> r == parsed->0,
        e.as_string is Some && parsed is None ==> r.status == 500 && r.message@
            == e.as_string->0@,
        e.as_string is None ==> r.status == 500 && r.message@ == (match e.message {
            Some(m) => m@,
            None => match e.name {
                Some(n) => n@,
                None => e.debug@,
            },
        }),
{
    match e.as_string {
        Some(s) => match parsed {
            Some(a) => a,
            None => ApiError::new(s, 500),
        },
        None => {
            let msg = match e.message {
                Some(m) => m,
                None => match e.name {
                    Some(n) => n,
                    None => e.debug,
                },
            };
            ApiError::new(msg, 500)
        },
    }
}

} // verus!
