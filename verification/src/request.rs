//! The request model: an immutable `Request` value, its builder, and the
//! exact wire form that `bytes` renders.

use vstd::prelude::*;
use vstd::string::StrSliceExecFns;
use vstd::string::StringExecFns;
use vstd::utf8::encode_utf8;
use crate::headers::HeaderMap;
use crate::headers::seq_as_map;

verus! {

/// The closed set of request methods; each is rendered as its literal
/// uppercase token.
#[derive(Debug, PartialEq, Eq, Structural, Clone, Copy)]
pub enum RequestType {
    POST,
    PUT,
    DELETE,
    GET,
}

/// The method's wire token.
pub open spec fn method_token(m: RequestType) -> Seq<char> {
    match m {
        RequestType::PUT => "PUT"@,
        RequestType::GET => "GET"@,
        RequestType::POST => "POST"@,
        RequestType::DELETE => "DELETE"@,
    }
}

impl RequestType {
    /// The method's wire token.
    pub fn token(&self) -> (r: &'static str)
        ensures
            r@ == method_token(*self),
    {
        match self {
            RequestType::PUT => "PUT",
            RequestType::GET => "GET",
            RequestType::POST => "POST",
            RequestType::DELETE => "DELETE",
        }
    }
}

impl Default for RequestType {
    /// The default method is GET.
    fn default() -> (r: Self)
        ensures
            r == RequestType::GET,
    {
        RequestType::GET
    }
}

/// The view of an optional piece of text.
pub open spec fn opt_text_view(t: Option<String>) -> Option<Seq<char>> {
    match t {
        Some(s) => Some(s@),
        None => None,
    }
}

/// One rendered header line.
pub open spec fn header_line(p: (Seq<char>, Seq<char>)) -> Seq<char> {
    p.0 + ": "@ + p.1 + "\r\n"@
}

/// The rendered header block: one line per pair, in sequence order.
pub open spec fn header_lines(hs: Seq<(Seq<char>, Seq<char>)>) -> Seq<char>
    decreases hs.len(),
{
    if hs.len() == 0 {
        Seq::empty()
    } else {
        header_lines(hs.drop_last()) + header_line(hs.last())
    }
}

/// The full wire form: request line, Host line, header block, then the body
/// verbatim (a missing body contributes nothing at all).
pub open spec fn wire_chars(
    m: RequestType,
    path: Seq<char>,
    host: Seq<char>,
    hs: Seq<(Seq<char>, Seq<char>)>,
    body: Option<Seq<char>>,
) -> Seq<char> {
    method_token(m) + " "@ + path + " HTTP/1.1\r\nHost: "@ + host + "\r\n"@ + header_lines(hs) + (
    match body {
        Some(b) => b,
        None => Seq::empty(),
    })
}

/// An immutable request: method, host and path, a header mapping, and an
/// optional body. Only `RequestBuilder::build` and `new` construct one.
#[derive(Debug)]
pub struct Request {
    body: Option<String>,
    headers: HeaderMap,
    path: String,
    host: String,
    request_type: RequestType,
}

impl Request {
    /// The body's view, when one is present.
    pub closed spec fn spec_body(self) -> Option<Seq<char>> {
        opt_text_view(self.body)
    }

    /// The header pairs, in the order they are rendered.
    pub closed spec fn spec_headers(self) -> Seq<(Seq<char>, Seq<char>)> {
        self.headers@
    }

    /// The headers as the mapping they denote.
    pub open spec fn spec_headers_map(self) -> Map<Seq<char>, Seq<char>> {
        seq_as_map(self.spec_headers())
    }

    /// The path's view.
    pub closed spec fn spec_path(self) -> Seq<char> {
        self.path@
    }

    /// The host's view.
    pub closed spec fn spec_host(self) -> Seq<char> {
        self.host@
    }

    /// The method.
    pub closed spec fn spec_method(self) -> RequestType {
        self.request_type
    }

    /// The wire form of this request.
    pub open spec fn wire(self) -> Seq<char> {
        wire_chars(
            self.spec_method(),
            self.spec_path(),
            self.spec_host(),
            self.spec_headers(),
            self.spec_body(),
        )
    }

    /// A fresh, empty builder.
    pub fn builder() -> (r: RequestBuilder)
        ensures
            r.staged_body() is None,
            r.staged_headers() is None,
            r.staged_path() is None,
            r.staged_host() is None,
            r.staged_method() is None,
    {
        RequestBuilder::new()
    }

    /// Assembles a request directly from its parts.
    pub fn new(
        body: Option<String>,
        headers: HeaderMap,
        path: String,
        host: String,
        request_type: RequestType,
    ) -> (r: Self)
        ensures
            r.spec_body() == opt_text_view(body),
            r.spec_headers() == headers@,
            r.spec_path() == path@,
            r.spec_host() == host@,
            r.spec_method() == request_type,
    {
        Self { body, headers, path, host, request_type }
    }

    /// The rendered header block.
    fn headers_as_string(&self) -> (r: String)
        ensures
            r@ == header_lines(self.spec_headers()),
    {
        let mut s = String::new();
        let n = self.headers.len();
        let mut i: usize = 0;
        while i < n
            invariant
                i <= n,
                n == self.headers@.len(),
                s@ == header_lines(self.headers@.take(i as int)),
            decreases n - i,
        {
            let (k, v) = self.headers.entry_at(i);
            s.append(k.as_str());
            s.append(": ");
            s.append(v.as_str());
            s.append("\r\n");
            proof {
                let taken = self.headers@.take(i + 1);
                assert(taken.drop_last() =~= self.headers@.take(i as int));
                assert(taken.last() == self.headers@[i as int]);
                assert(s@ =~= header_lines(self.headers@.take(i as int)) + header_line(
                    self.headers@[i as int],
                ));
            }
            i += 1;
        }
        proof {
            assert(self.headers@.take(n as int) =~= self.headers@);
        }
        s
    }

    /// The wire bytes of this request: its wire form, UTF-8 encoded.
    pub fn bytes(&self) -> (r: Vec<u8>)
        ensures
            r@ == encode_utf8(self.wire()),
    {
        let mut s = String::new();
        s.append(self.request_type.token());
        s.append(" ");
        s.append(self.path.as_str());
        s.append(" HTTP/1.1\r\nHost: ");
        s.append(self.host.as_str());
        s.append("\r\n");
        let header_block = self.headers_as_string();
        s.append(header_block.as_str());
        match &self.body {
            Some(b) => s.append(b.as_str()),
            None => (),
        }
        proof {
            assert(s@ =~= self.wire());
        }
        s.as_str().as_bytes_vec()
    }

    /// The wire bytes followed by the single newline byte that the transport
    /// appends after a request.
    pub fn framed_bytes(&self) -> (r: Vec<u8>)
        ensures
            r@ == encode_utf8(self.wire()).push(10u8),
    {
        let mut r = self.bytes();
        r.push(10u8);
        r
    }
}

impl PartialEq for Request {
    /// Two requests are equal when every field is: same method, host, path
    /// and body, and headers denoting the same mapping.
    fn eq(&self, other: &Request) -> (r: bool) {
        let body_eq = match (&self.body, &other.body) {
            (Some(a), Some(b)) => *a == *b,
            (None, None) => true,
            _ => false,
        };
        body_eq && self.headers == other.headers && self.path == other.path && self.host
            == other.host && self.request_type == other.request_type
    }
}

impl vstd::std_specs::cmp::PartialEqSpecImpl for Request {
    open spec fn obeys_eq_spec() -> bool {
        true
    }

    open spec fn eq_spec(&self, other: &Request) -> bool {
        &&& self.spec_body() == other.spec_body()
        &&& self.spec_headers_map() == other.spec_headers_map()
        &&& self.spec_path() == other.spec_path()
        &&& self.spec_host() == other.spec_host()
        &&& self.spec_method() == other.spec_method()
    }
}

/// UTF-8 encoding distributes over concatenation.
proof fn lemma_encode_utf8_concat(a: Seq<char>, b: Seq<char>)
    ensures
        encode_utf8(a + b) == encode_utf8(a) + encode_utf8(b),
    decreases a.len(),
{
    if a.len() == 0 {
        assert(a + b =~= b);
        assert(encode_utf8(a) + encode_utf8(b) =~= encode_utf8(b));
    } else {
        lemma_encode_utf8_concat(a.drop_first(), b);
        assert((a + b).drop_first() =~= a.drop_first() + b);
        assert((a + b)[0] == a[0]);
        assert(encode_utf8(a + b) =~= encode_utf8(a) + encode_utf8(b));
    }
}

/// A present body follows the header block directly: the wire form with body
/// `b` is the bodiless wire form with `b` appended and nothing in between,
/// in characters and in the encoded bytes alike.
pub proof fn lemma_body_directly_appended(
    m: RequestType,
    path: Seq<char>,
    host: Seq<char>,
    hs: Seq<(Seq<char>, Seq<char>)>,
    b: Seq<char>,
)
    ensures
        wire_chars(m, path, host, hs, Some(b)) == wire_chars(m, path, host, hs, None) + b,
        encode_utf8(wire_chars(m, path, host, hs, Some(b))) == encode_utf8(
            wire_chars(m, path, host, hs, None),
        ) + encode_utf8(b),
{
    assert(wire_chars(m, path, host, hs, Some(b)) =~= wire_chars(m, path, host, hs, None) + b);
    lemma_encode_utf8_concat(wire_chars(m, path, host, hs, None), b);
}

/// A mutable staging value: every field is optional until `build` validates
/// the mandatory ones and yields a `Request`.
#[derive(Debug)]
pub struct RequestBuilder {
    body: Option<String>,
    headers: Option<HeaderMap>,
    path: Option<String>,
    host: Option<String>,
    request_type: Option<RequestType>,
}

/// The error `build` returns: the first mandatory field never staged, in the
/// order headers, path, host, method.
pub open spec fn missing_field_error(b: RequestBuilder) -> Seq<char> {
    if b.staged_headers() is None {
        "Make sure you input your headers."@
    } else if b.staged_path() is None {
        "Each request needs a path."@
    } else if b.staged_host() is None {
        "Each request needs a host."@
    } else {
        "Request types are mandatory: GET, PUT, POST, DELETE"@
    }
}

/// How many of the four mandatory fields were never staged.
pub open spec fn missing_count(b: RequestBuilder) -> int {
    (if b.staged_headers() is None {
        1int
    } else {
        0int
    }) + (if b.staged_path() is None {
        1int
    } else {
        0int
    }) + (if b.staged_host() is None {
        1int
    } else {
        0int
    }) + (if b.staged_method() is None {
        1int
    } else {
        0int
    })
}

/// The `build` error identifies the missing field: two builders that each
/// miss exactly one mandatory field, and not the same one, get different
/// errors.
pub proof fn lemma_build_error_identifies_field(b1: RequestBuilder, b2: RequestBuilder)
    requires
        missing_count(b1) == 1,
        missing_count(b2) == 1,
        !(b1.staged_headers() is None && b2.staged_headers() is None),
        !(b1.staged_path() is None && b2.staged_path() is None),
        !(b1.staged_host() is None && b2.staged_host() is None),
        !(b1.staged_method() is None && b2.staged_method() is None),
    ensures
        missing_field_error(b1) != missing_field_error(b2),
{
    reveal_strlit("Make sure you input your headers.");
    reveal_strlit("Each request needs a path.");
    reveal_strlit("Each request needs a host.");
    reveal_strlit("Request types are mandatory: GET, PUT, POST, DELETE");
    assert("Make sure you input your headers."@.len() == 33);
    assert("Each request needs a path."@.len() == 26);
    assert("Each request needs a host."@.len() == 26);
    assert("Request types are mandatory: GET, PUT, POST, DELETE"@.len() == 51);
    assert("Each request needs a path."@[21] == 'p');
    assert("Each request needs a host."@[21] == 'h');
}

impl RequestBuilder {
    /// The staged body's view, when one was set.
    pub closed spec fn staged_body(self) -> Option<Seq<char>> {
        opt_text_view(self.body)
    }

    /// The staged header pairs, when headers were set.
    pub closed spec fn staged_headers(self) -> Option<Seq<(Seq<char>, Seq<char>)>> {
        match self.headers {
            Some(h) => Some(h@),
            None => None,
        }
    }

    /// The staged path's view, when one was set.
    pub closed spec fn staged_path(self) -> Option<Seq<char>> {
        opt_text_view(self.path)
    }

    /// The staged host's view, when one was set.
    pub closed spec fn staged_host(self) -> Option<Seq<char>> {
        opt_text_view(self.host)
    }

    /// The staged method, when one was set.
    pub closed spec fn staged_method(self) -> Option<RequestType> {
        self.request_type
    }

    /// Whether every mandatory field (all but the body) was staged.
    pub open spec fn complete(self) -> bool {
        &&& self.staged_headers() is Some
        &&& self.staged_path() is Some
        &&& self.staged_host() is Some
        &&& self.staged_method() is Some
    }

    /// A builder with nothing staged.
    pub fn new() -> (r: RequestBuilder)
        ensures
            r.staged_body() is None,
            r.staged_headers() is None,
            r.staged_path() is None,
            r.staged_host() is None,
            r.staged_method() is None,
    {
        RequestBuilder { body: None, headers: None, path: None, host: None, request_type: None }
    }

    /// Stages the body, replacing any earlier one.
    pub fn with_body(self, body: String) -> (r: RequestBuilder)
        ensures
            r.staged_body() == Some(body@),
            r.staged_headers() == self.staged_headers(),
            r.staged_path() == self.staged_path(),
            r.staged_host() == self.staged_host(),
            r.staged_method() == self.staged_method(),
    {
        let mut r = self;
        r.body = Some(body);
        r
    }

    /// Stages the host, replacing any earlier one.
    pub fn with_host(self, host: String) -> (r: RequestBuilder)
        ensures
            r.staged_host() == Some(host@),
            r.staged_body() == self.staged_body(),
            r.staged_headers() == self.staged_headers(),
            r.staged_path() == self.staged_path(),
            r.staged_method() == self.staged_method(),
    {
        let mut r = self;
        r.host = Some(host);
        r
    }

    /// Stages the headers, replacing any earlier mapping whole.
    pub fn with_headers(self, headers: HeaderMap) -> (r: RequestBuilder)
        ensures
            r.staged_headers() == Some(headers@),
            r.staged_body() == self.staged_body(),
            r.staged_path() == self.staged_path(),
            r.staged_host() == self.staged_host(),
            r.staged_method() == self.staged_method(),
    {
        let mut r = self;
        r.headers = Some(headers);
        r
    }

    /// Merges the given pairs into the staged headers, creating the mapping
    /// empty first if none was staged; for a key present in both, the given
    /// value wins, and staged keys absent from the given mapping are kept.
    pub fn append_headers(self, headers: HeaderMap) -> (r: RequestBuilder)
        ensures
            r.staged_headers() is Some,
            seq_as_map(r.staged_headers()->Some_0) == (match self.staged_headers() {
                Some(h) => seq_as_map(h),
                None => Map::<Seq<char>, Seq<char>>::empty(),
            }).union_prefer_right(seq_as_map(headers@)),
            r.staged_body() == self.staged_body(),
            r.staged_path() == self.staged_path(),
            r.staged_host() == self.staged_host(),
            r.staged_method() == self.staged_method(),
    {
        let mut r = self;
        let mut current = match r.headers {
            Some(h) => h,
            None => HeaderMap::new(),
        };
        r.headers = None;
        current.merge(&headers);
        r.headers = Some(current);
        r
    }

    /// Stages the path, replacing any earlier one.
    pub fn with_path(self, path: String) -> (r: RequestBuilder)
        ensures
            r.staged_path() == Some(path@),
            r.staged_body() == self.staged_body(),
            r.staged_headers() == self.staged_headers(),
            r.staged_host() == self.staged_host(),
            r.staged_method() == self.staged_method(),
    {
        let mut r = self;
        r.path = Some(path);
        r
    }

    /// Stages the method, replacing any earlier one.
    pub fn with_request_type(self, request_type: RequestType) -> (r: RequestBuilder)
        ensures
            r.staged_method() == Some(request_type),
            r.staged_body() == self.staged_body(),
            r.staged_headers() == self.staged_headers(),
            r.staged_path() == self.staged_path(),
            r.staged_host() == self.staged_host(),
    {
        let mut r = self;
        r.request_type = Some(request_type);
        r
    }

    /// Validates the mandatory fields and yields the request. It succeeds
    /// exactly when method, host, path and headers were all staged — an empty
    /// header mapping counts as staged — and the request's fields are then
    /// the staged values. Otherwise it returns the error naming the first
    /// mandatory field never staged.
    pub fn build(self) -> (r: Result<Request, String>)
        ensures
            r is Ok <==> self.complete(),
            r is Ok ==> {
                &&& (r->Ok_0).spec_body() == self.staged_body()
                &&& (r->Ok_0).spec_headers() == self.staged_headers()->Some_0
                &&& (r->Ok_0).spec_path() == self.staged_path()->Some_0
                &&& (r->Ok_0).spec_host() == self.staged_host()->Some_0
                &&& (r->Ok_0).spec_method() == self.staged_method()->Some_0
            },
            r is Err ==> (r->Err_0)@ == missing_field_error(self),
    {
        let RequestBuilder { body, headers, path, host, request_type } = self;
        let headers = match headers {
            Some(h) => h,
            None => {
                return Err("Make sure you input your headers.".to_owned());
            },
        };
        let path = match path {
            Some(p) => p,
            None => {
                return Err("Each request needs a path.".to_owned());
            },
        };
        let host = match host {
            Some(h) => h,
            None => {
                return Err("Each request needs a host.".to_owned());
            },
        };
        let request_type = match request_type {
            Some(t) => t,
            None => {
                return Err("Request types are mandatory: GET, PUT, POST, DELETE".to_owned());
            },
        };
        Ok(Request::new(body, headers, path, host, request_type))
    }
}

} // verus!
