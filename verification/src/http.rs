//! One HTTP exchange as plain values: the method, the request and the response.
//!
//! A request holds header values as they go on the wire, a token among them. Its rendering for
//! logs is written by hand: it shows the value of no sensitive header, and of a body only the
//! length.
use crate::text::{decimal, folded, nat_text, same_ignoring_case};
use vstd::prelude::*;

verus! {

/// What a rendering shows in the place of a sensitive header's value.
pub const REDACTED: &'static str = "[REDACTED]";

/// The names, in small letters, of the headers whose values carry authentication.
pub const SENSITIVE_HEADERS: [&'static str; 7] = [
    "authorization",
    "proxy-authorization",
    "cookie",
    "set-cookie",
    "x-api-key",
    "api-key",
    "x-auth-token",
];

/// Whether `name` is that of a sensitive header, in capitals or small letters.
pub open spec fn sensitive(name: Seq<char>) -> bool {
    exists|i: int|
        0 <= i < SENSITIVE_HEADERS.len() && folded(name) == folded(#[trigger] SENSITIVE_HEADERS[i]@)
}

/// Whether a header of this name carries authentication.
#[must_use]
pub fn is_sensitive_header(name: &str) -> (r: bool)
    ensures
        r == sensitive(name@),
{
    let mut i: usize = 0;
    while i < 7
        invariant
            i <= 7,
            forall|j: int| 0 <= j < i ==> folded(name@) != folded(#[trigger] SENSITIVE_HEADERS[j]@),
        decreases 7 - i,
    {
        if same_ignoring_case(name, SENSITIVE_HEADERS[i]) {
            return true;
        }
        i = i + 1;
    }
    false
}

/// The HTTP method that a verb maps to.
#[derive(Debug, Clone, Copy, PartialEq, Eq, Hash, Structural)]
#[non_exhaustive]
pub enum HttpMethod {
    /// A read.
    Get,
    /// A create. Never retried: one that timed out may have landed.
    Post,
    /// A create-or-update.
    Put,
    /// A removal.
    Delete,
}

impl HttpMethod {
    /// The method's token on the wire.
    pub open spec fn token(self) -> Seq<char> {
        match self {
            HttpMethod::Get => "GET"@,
            HttpMethod::Post => "POST"@,
            HttpMethod::Put => "PUT"@,
            HttpMethod::Delete => "DELETE"@,
        }
    }

    /// The method's name in a rendering for logs.
    pub open spec fn name(self) -> Seq<char> {
        match self {
            HttpMethod::Get => "Get"@,
            HttpMethod::Post => "Post"@,
            HttpMethod::Put => "Put"@,
            HttpMethod::Delete => "Delete"@,
        }
    }

    /// The method's token on the wire.
    #[must_use]
    pub fn as_str(self) -> (r: &'static str)
        ensures
            r@ == self.token(),
    {
        match self {
            HttpMethod::Get => "GET",
            HttpMethod::Post => "POST",
            HttpMethod::Put => "PUT",
            HttpMethod::Delete => "DELETE",
        }
    }

    /// Whether a request with this method may be sent again after a passing failure.
    #[must_use]
    pub fn is_retry_safe(self) -> (r: bool)
        ensures
            r == (self != HttpMethod::Post),
    {
        match self {
            HttpMethod::Post => false,
            _ => true,
        }
    }

    fn debug_name(self) -> (r: &'static str)
        ensures
            r@ == self.name(),
    {
        match self {
            HttpMethod::Get => "Get",
            HttpMethod::Post => "Post",
            HttpMethod::Put => "Put",
            HttpMethod::Delete => "Delete",
        }
    }
}

/// The headers as texts, in order.
pub open spec fn header_views(headers: Seq<(String, String)>) -> Seq<(Seq<char>, Seq<char>)> {
    headers.map_values(|h: (String, String)| (h.0@, h.1@))
}

/// The value of the first header with this name, in capitals or small letters.
pub open spec fn find_header(headers: Seq<(Seq<char>, Seq<char>)>, name: Seq<char>) -> Option<
    Seq<char>,
>
    decreases headers.len(),
{
    if headers.len() == 0 {
        None
    } else if folded(headers[0].0) == folded(name) {
        Some(headers[0].1)
    } else {
        find_header(headers.drop_first(), name)
    }
}

fn header_value_of<'a>(headers: &'a Vec<(String, String)>, name: &str) -> (r: Option<&'a str>)
    ensures
        crate::text::opt_str(r) == find_header(header_views(headers@), name@),
{
    let mut i: usize = 0;
    assert(header_views(headers@).skip(0) =~= header_views(headers@));
    while i < headers.len()
        invariant
            i <= headers.len(),
            find_header(header_views(headers@), name@) == find_header(
                header_views(headers@).skip(i as int),
                name@,
            ),
        decreases headers.len() - i,
    {
        let ghost rest = header_views(headers@).skip(i as int);
        assert(rest[0] == (headers@[i as int].0@, headers@[i as int].1@));
        if same_ignoring_case(headers[i].0.as_str(), name) {
            return Some(headers[i].1.as_str());
        }
        assert(rest.drop_first() =~= header_views(headers@).skip(i + 1));
        i = i + 1;
    }
    None
}

/// One request, ready to be sent.
#[derive(Clone, PartialEq, Eq)]
pub struct HttpRequest {
    /// The method.
    pub method: HttpMethod,
    /// The whole URL.
    pub url: String,
    /// Names and values, in the order in which they were added.
    pub headers: Vec<(String, String)>,
    /// The body, if there is one.
    pub body: Option<Vec<u8>>,
}

impl HttpRequest {
    /// A request without headers or body.
    #[must_use]
    pub fn new(method: HttpMethod, url: String) -> (r: HttpRequest)
        ensures
            r.method == method,
            r.url == url,
            r.headers@ == Seq::<(String, String)>::empty(),
            r.body is None,
    {
        HttpRequest { method, url, headers: Vec::new(), body: None }
    }

    /// The request with one more header.
    #[must_use]
    pub fn header(self, name: String, value: String) -> (r: HttpRequest)
        ensures
            r.headers@ == self.headers@.push((name, value)),
            r.method == self.method,
            r.url == self.url,
            r.body == self.body,
    {
        let mut headers: Vec<(String, String)> = self.headers;
        headers.push((name, value));
        HttpRequest { method: self.method, url: self.url, headers, body: self.body }
    }

    /// The request with this body.
    #[must_use]
    pub fn with_body(self, body: Vec<u8>) -> (r: HttpRequest)
        ensures
            r.body == Some(body),
            r.method == self.method,
            r.url == self.url,
            r.headers == self.headers,
    {
        HttpRequest { method: self.method, url: self.url, headers: self.headers, body: Some(body) }
    }

    /// The value of the first header with this name, in capitals or small letters.
    #[must_use]
    pub fn header_value(&self, name: &str) -> (r: Option<&str>)
        ensures
            crate::text::opt_str(r) == find_header(header_views(self.headers@), name@),
    {
        header_value_of(&self.headers, name)
    }

    /// The rendering for logs: method, URL, headers with the sensitive values replaced, and the
    /// length of the body.
    pub fn debug_text(&self) -> (r: String)
        ensures
            r@ == request_debug(
                self.method,
                self.url@,
                header_views(self.headers@),
                match self.body {
                    Some(b) => b@.len(),
                    None => 0,
                },
            ),
    {
        let n: usize = match &self.body {
            Some(b) => b.len(),
            None => 0,
        };
        let mut r: String = "HttpRequest { method: ".to_owned();
        r.append(self.method.debug_name());
        r.append(", url: ");
        r.append(debug_str(self.url.as_str()).as_str());
        r.append(", headers: ");
        r.append(headers_text(&self.headers).as_str());
        r.append(", body_len: ");
        r.append(decimal(n as u64).as_str());
        r.append(" }");
        r
    }
}

/// One response.
#[derive(Clone, PartialEq, Eq)]
pub struct HttpResponse {
    /// The status code.
    pub status: u16,
    /// Names and values, in the order in which they came.
    pub headers: Vec<(String, String)>,
    /// The body.
    pub body: Vec<u8>,
}

impl HttpResponse {
    /// A response without headers.
    #[must_use]
    pub fn new(status: u16, body: Vec<u8>) -> (r: HttpResponse)
        ensures
            r.status == status,
            r.headers@ == Seq::<(String, String)>::empty(),
            r.body == body,
    {
        HttpResponse { status, headers: Vec::new(), body }
    }

    /// The response with one more header.
    #[must_use]
    pub fn header(self, name: String, value: String) -> (r: HttpResponse)
        ensures
            r.headers@ == self.headers@.push((name, value)),
            r.status == self.status,
            r.body == self.body,
    {
        let mut headers: Vec<(String, String)> = self.headers;
        headers.push((name, value));
        HttpResponse { status: self.status, headers, body: self.body }
    }

    /// The value of the first header with this name, in capitals or small letters.
    #[must_use]
    pub fn header_value(&self, name: &str) -> (r: Option<&str>)
        ensures
            crate::text::opt_str(r) == find_header(header_views(self.headers@), name@),
    {
        header_value_of(&self.headers, name)
    }

    /// Whether the status is one of success.
    #[must_use]
    pub fn is_success(&self) -> (r: bool)
        ensures
            r == (200 <= self.status < 300),
    {
        self.status >= 200 && self.status < 300
    }

    /// The rendering for logs: status, headers with the sensitive values replaced, and the length
    /// of the body.
    pub fn debug_text(&self) -> (r: String)
        ensures
            r@ == response_debug(self.status, header_views(self.headers@), self.body@.len()),
    {
        let mut r: String = "HttpResponse { status: ".to_owned();
        r.append(decimal(self.status as u64).as_str());
        r.append(", headers: ");
        r.append(headers_text(&self.headers).as_str());
        r.append(", body_len: ");
        r.append(decimal(self.body.len() as u64).as_str());
        r.append(" }");
        r
    }
}

/// What std's `Debug` writes for a string: the string in double quotes, with its escapes.
pub uninterp spec fn debug_quoted(s: Seq<char>) -> Seq<char>;

/// Calls std's `Debug` for `str`, through `format!`. The result is a function of the string's
/// characters alone.
#[verifier::external_body]
fn debug_str(s: &str) -> (r: String)
    ensures
        r@ == debug_quoted(s@),
{
    format!("{:?}", s)
}

/// What a rendering shows of a header's value.
pub open spec fn shown(name: Seq<char>, value: Seq<char>) -> Seq<char> {
    if sensitive(name) {
        REDACTED@
    } else {
        value
    }
}

/// One header in a rendering.
pub open spec fn pair_debug(h: (Seq<char>, Seq<char>)) -> Seq<char> {
    "("@ + debug_quoted(h.0) + ", "@ + debug_quoted(shown(h.0, h.1)) + ")"@
}

/// Headers in a rendering, with a comma between each two.
pub open spec fn pairs_debug(headers: Seq<(Seq<char>, Seq<char>)>) -> Seq<char>
    decreases headers.len(),
{
    if headers.len() == 0 {
        Seq::empty()
    } else if headers.len() == 1 {
        pair_debug(headers[0])
    } else {
        pairs_debug(headers.drop_last()) + ", "@ + pair_debug(headers.last())
    }
}

/// The rendering of a request from what it shows.
pub open spec fn request_debug(
    method: HttpMethod,
    url: Seq<char>,
    headers: Seq<(Seq<char>, Seq<char>)>,
    body_len: nat,
) -> Seq<char> {
    "HttpRequest { method: "@ + method.name() + ", url: "@ + debug_quoted(url) + ", headers: "@
        + ("["@ + pairs_debug(headers) + "]"@) + ", body_len: "@ + nat_text(body_len) + " }"@
}

/// The rendering of a response from what it shows.
pub open spec fn response_debug(
    status: u16,
    headers: Seq<(Seq<char>, Seq<char>)>,
    body_len: nat,
) -> Seq<char> {
    "HttpResponse { status: "@ + nat_text(status as nat) + ", headers: "@ + ("["@ + pairs_debug(
        headers,
    ) + "]"@) + ", body_len: "@ + nat_text(body_len) + " }"@
}

fn headers_text(headers: &Vec<(String, String)>) -> (r: String)
    ensures
        r@ == "["@ + pairs_debug(header_views(headers@)) + "]"@,
{
    let mut r: String = "[".to_owned();
    let mut i: usize = 0;
    assert(header_views(headers@).take(0) =~= Seq::empty());
    assert(r@ =~= "["@ + pairs_debug(header_views(headers@).take(0)));
    while i < headers.len()
        invariant
            i <= headers.len(),
            r@ == "["@ + pairs_debug(header_views(headers@).take(i as int)),
        decreases headers.len() - i,
    {
        let name: &str = headers[i].0.as_str();
        let value: &str = if is_sensitive_header(name) {
            REDACTED
        } else {
            headers[i].1.as_str()
        };
        let mut pair: String = "(".to_owned();
        pair.append(debug_str(name).as_str());
        pair.append(", ");
        pair.append(debug_str(value).as_str());
        pair.append(")");
        if i > 0 {
            r.append(", ");
        }
        r.append(pair.as_str());
        proof {
            let now = header_views(headers@).take(i + 1);
            assert(now.drop_last() =~= header_views(headers@).take(i as int));
            assert(pair@ == pair_debug(now.last()));
            assert(r@ =~= "["@ + pairs_debug(now));
        }
        i = i + 1;
    }
    r.append("]");
    assert(header_views(headers@).take(i as int) =~= header_views(headers@));
    r
}

/// Two lists of headers that differ at most in the values of sensitive headers.
pub open spec fn alike_but_secrets(
    a: Seq<(Seq<char>, Seq<char>)>,
    b: Seq<(Seq<char>, Seq<char>)>,
) -> bool {
    &&& a.len() == b.len()
    &&& forall|i: int|
        #![trigger a[i]]
        #![trigger b[i]]
        0 <= i < a.len() ==> a[i].0 == b[i].0 && (a[i].1 == b[i].1 || sensitive(a[i].0))
}

/// No rendering of headers depends on the value of a sensitive one.
proof fn lemma_pairs_hide_secrets(
    a: Seq<(Seq<char>, Seq<char>)>,
    b: Seq<(Seq<char>, Seq<char>)>,
)
    requires
        alike_but_secrets(a, b),
    ensures
        pairs_debug(a) == pairs_debug(b),
    decreases a.len(),
{
    if a.len() > 0 {
        assert(pair_debug(a.last()) == pair_debug(b.last()));
        lemma_pairs_hide_secrets(a.drop_last(), b.drop_last());
    }
}

/// The rendering of a request tells nothing of its sensitive header values, nor of its body but
/// the length: two requests that differ only there are rendered alike.
pub proof fn law_request_rendering_hides_secrets(a: HttpRequest, b: HttpRequest)
    requires
        a.method == b.method,
        a.url@ == b.url@,
        alike_but_secrets(header_views(a.headers@), header_views(b.headers@)),
        (match a.body {
            Some(x) => x@.len(),
            None => 0,
        }) == (match b.body {
            Some(x) => x@.len(),
            None => 0,
        }),
    ensures
        request_debug(
            a.method,
            a.url@,
            header_views(a.headers@),
            match a.body {
                Some(x) => x@.len(),
                None => 0,
            },
        ) == request_debug(
            b.method,
            b.url@,
            header_views(b.headers@),
            match b.body {
                Some(x) => x@.len(),
                None => 0,
            },
        ),
{
    lemma_pairs_hide_secrets(header_views(a.headers@), header_views(b.headers@));
}

/// The rendering of a response tells nothing of its sensitive header values, nor of its body but
/// the length.
pub proof fn law_response_rendering_hides_secrets(a: HttpResponse, b: HttpResponse)
    requires
        a.status == b.status,
        alike_but_secrets(header_views(a.headers@), header_views(b.headers@)),
        a.body@.len() == b.body@.len(),
    ensures
        response_debug(a.status, header_views(a.headers@), a.body@.len()) == response_debug(
            b.status,
            header_views(b.headers@),
            b.body@.len(),
        ),
{
    lemma_pairs_hide_secrets(header_views(a.headers@), header_views(b.headers@));
}

/// A header that was added is found under its name, in capitals or small letters, unless an
/// earlier one has that name.
pub proof fn law_header_added_is_found(
    headers: Seq<(Seq<char>, Seq<char>)>,
    name: Seq<char>,
    value: Seq<char>,
    asked: Seq<char>,
)
    ensures
        find_header(headers.push((name, value)), asked) == match find_header(headers, asked) {
            Some(v) => Some(v),
            None => if folded(name) == folded(asked) {
                Some(value)
            } else {
                None
            },
        },
    decreases headers.len(),
{
    let longer = headers.push((name, value));
    if headers.len() == 0 {
        assert(longer.drop_first() =~= Seq::empty());
        reveal_with_fuel(find_header, 2);
    } else {
        assert(longer.drop_first() =~= headers.drop_first().push((name, value)));
        law_header_added_is_found(headers.drop_first(), name, value, asked);
    }
}

/// A method's name in a rendering is its token with all letters but the first made small, so no
/// two methods share a name or a token.
pub proof fn law_methods_are_named_by_their_token(m: HttpMethod, n: HttpMethod, i: int)
    ensures
        m.name().len() == m.token().len(),
        m.token().len() > 0,
        m.name()[0] == m.token()[0],
        0 < i < m.token().len() ==> m.name()[i] as int == m.token()[i] as int + 32,
        m.token() == n.token() ==> m == n,
        m.name() == n.name() ==> m == n,
{
    reveal_strlit("GET");
    reveal_strlit("POST");
    reveal_strlit("PUT");
    reveal_strlit("DELETE");
    reveal_strlit("Get");
    reveal_strlit("Post");
    reveal_strlit("Put");
    reveal_strlit("Delete");
    assert("GET"@[0] == 'G' && "POST"@[0] == 'P' && "PUT"@[0] == 'P' && "DELETE"@[0] == 'D');
    assert("Get"@[0] == 'G' && "Post"@[0] == 'P' && "Put"@[0] == 'P' && "Delete"@[0] == 'D');
    assert("POST"@[1] == 'O' && "PUT"@[1] == 'U' && "Post"@[1] == 'o' && "Put"@[1] == 'u');
}

} // verus!
