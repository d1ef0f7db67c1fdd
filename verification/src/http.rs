//! A response as plain data: status, ordered headers and body bytes.
//!
//! The idempotency ledger stores and replays values of this type, so that
//! the replay path never depends on a web framework's live response object.

use vstd::prelude::*;

verus! {

/// One header line as the client will see it.
#[derive(Clone, Debug, PartialEq, Eq)]
pub struct HeaderPair {
    pub name: Vec<u8>,
    pub value: Vec<u8>,
}

/// The mathematical content of a `HeaderPair`.
pub struct HeaderView {
    pub name: Seq<u8>,
    pub value: Seq<u8>,
}

impl View for HeaderPair {
    type V = HeaderView;

    open spec fn view(&self) -> HeaderView {
        HeaderView { name: self.name@, value: self.value@ }
    }
}

/// A complete response. Header order is significant and names may repeat.
#[derive(Clone, Debug, PartialEq, Eq)]
pub struct HttpResponse {
    pub status: u16,
    pub headers: Vec<HeaderPair>,
    pub body: Vec<u8>,
}

/// The mathematical content of an `HttpResponse`.
pub struct HttpResponseView {
    pub status: u16,
    pub headers: Seq<HeaderView>,
    pub body: Seq<u8>,
}

/// The views of a sequence of headers, in order.
pub open spec fn header_views(headers: Seq<HeaderPair>) -> Seq<HeaderView> {
    Seq::new(headers.len(), |i: int| headers[i]@)
}

impl View for HttpResponse {
    type V = HttpResponseView;

    open spec fn view(&self) -> HttpResponseView {
        HttpResponseView {
            status: self.status,
            headers: header_views(self.headers@),
            body: self.body@,
        }
    }
}

/// The status codes that HTTP admits: three decimal digits, the first not zero.
pub open spec fn is_status_code(status: int) -> bool {
    100 <= status <= 999
}

/// The request was served.
pub const STATUS_OK: u16 = 200;

/// The client is to look at another place.
pub const STATUS_SEE_OTHER: u16 = 303;

/// The request was at fault.
pub const STATUS_BAD_REQUEST: u16 = 400;

/// The client has to authenticate first.
pub const STATUS_UNAUTHORIZED: u16 = 401;

/// The server failed.
pub const STATUS_INTERNAL_SERVER_ERROR: u16 = 500;

/// The server cannot serve the request now; it may later.
pub const STATUS_SERVICE_UNAVAILABLE: u16 = 503;

/// Copies a byte string.
pub fn copy_bytes(bytes: &Vec<u8>) -> (copy: Vec<u8>)
    ensures
        copy@ == bytes@,
{
    let mut copy: Vec<u8> = Vec::new();
    let mut i: usize = 0;
    while i < bytes.len()
        invariant
            i <= bytes.len(),
            copy@ == bytes@.subrange(0, i as int),
        decreases bytes.len() - i,
    {
        copy.push(bytes[i]);
        i = i + 1;
    }
    assert(bytes@.subrange(0, bytes.len() as int) == bytes@);
    copy
}

/// The bytes of a string, in UTF-8.
pub fn bytes_of(text: &str) -> (bytes: Vec<u8>)
    ensures
        bytes@ == vstd::utf8::encode_utf8(text@),
{
    let slice = text.as_bytes();
    let mut bytes: Vec<u8> = Vec::new();
    let mut i: usize = 0;
    while i < slice.len()
        invariant
            i <= slice.len(),
            bytes@ == slice@.subrange(0, i as int),
        decreases slice.len() - i,
    {
        bytes.push(slice[i]);
        i = i + 1;
    }
    assert(slice@.subrange(0, slice.len() as int) == slice@);
    bytes
}

/// The bytes of a text, in UTF-8.
pub open spec fn utf8(text: Seq<char>) -> Seq<u8> {
    vstd::utf8::encode_utf8(text)
}

/// The response that sends the client to another place.
pub open spec fn redirect_to(location: Seq<char>) -> HttpResponseView {
    HttpResponseView {
        status: STATUS_SEE_OTHER,
        headers: seq![HeaderView { name: utf8("location"@), value: utf8(location) }],
        body: Seq::<u8>::empty(),
    }
}

/// The response that carries a plain text.
pub open spec fn plain_text(status: u16, text: Seq<char>) -> HttpResponseView {
    HttpResponseView {
        status,
        headers: seq![
            HeaderView {
                name: utf8("content-type"@),
                value: utf8("text/plain; charset=utf-8"@),
            },
        ],
        body: utf8(text),
    }
}

/// The response that carries a page of HTML.
pub open spec fn html_page(page: Seq<char>) -> HttpResponseView {
    HttpResponseView {
        status: STATUS_OK,
        headers: seq![
            HeaderView {
                name: utf8("content-type"@),
                value: utf8("text/html; charset=utf-8"@),
            },
        ],
        body: utf8(page),
    }
}

/// The response that sends the client to another place and sets a cookie.
pub open spec fn redirect_with_cookie(location: Seq<char>, cookie: Seq<char>) -> HttpResponseView {
    HttpResponseView {
        status: STATUS_SEE_OTHER,
        headers: seq![
            HeaderView { name: utf8("location"@), value: utf8(location) },
            HeaderView { name: utf8("set-cookie"@), value: utf8(cookie) },
        ],
        body: Seq::<u8>::empty(),
    }
}

impl HttpResponse {
    /// A response with the given status, no headers and an empty body.
    pub fn empty(status: u16) -> (response: HttpResponse)
        ensures
            response@ == (HttpResponseView {
                status,
                headers: Seq::<HeaderView>::empty(),
                body: Seq::<u8>::empty(),
            }),
    {
        let response = HttpResponse { status, headers: Vec::new(), body: Vec::new() };
        assert(header_views(response.headers@) =~= Seq::<HeaderView>::empty());
        response
    }

    /// The response that sends the client to `location`.
    pub fn redirect(location: &str) -> (response: HttpResponse)
        ensures
            response@ == redirect_to(location@),
    {
        let mut response = HttpResponse::empty(STATUS_SEE_OTHER);
        response.push_header(bytes_of("location"), bytes_of(location));
        assert(response@.headers =~= redirect_to(location@).headers);
        response
    }

    /// The response that carries `text` as plain text.
    pub fn text(status: u16, text: &str) -> (response: HttpResponse)
        ensures
            response@ == plain_text(status, text@),
    {
        let mut response = HttpResponse {
            status,
            headers: Vec::new(),
            body: bytes_of(text),
        };
        assert(header_views(response.headers@) =~= Seq::<HeaderView>::empty());
        response.push_header(bytes_of("content-type"), bytes_of("text/plain; charset=utf-8"));
        assert(response@.headers =~= plain_text(status, text@).headers);
        response
    }

    /// The response that carries `page` as HTML.
    pub fn html(page: &str) -> (response: HttpResponse)
        ensures
            response@ == html_page(page@),
    {
        let mut response = HttpResponse {
            status: STATUS_OK,
            headers: Vec::new(),
            body: bytes_of(page),
        };
        assert(header_views(response.headers@) =~= Seq::<HeaderView>::empty());
        response.push_header(bytes_of("content-type"), bytes_of("text/html; charset=utf-8"));
        assert(response@.headers =~= html_page(page@).headers);
        response
    }

    /// The response that sends the client to `location` and sets `cookie`.
    pub fn redirect_setting(location: &str, cookie: &str) -> (response: HttpResponse)
        ensures
            response@ == redirect_with_cookie(location@, cookie@),
    {
        let mut response = HttpResponse::redirect(location);
        response.push_header(bytes_of("set-cookie"), bytes_of(cookie));
        assert(response@.headers =~= redirect_with_cookie(location@, cookie@).headers);
        response
    }

    /// Appends one header after those already present.
    pub fn push_header(&mut self, name: Vec<u8>, value: Vec<u8>)
        ensures
            final(self)@ == (HttpResponseView {
                headers: old(self)@.headers.push(HeaderView { name: name@, value: value@ }),
                ..old(self)@
            }),
    {
        let ghost before = self.headers@;
        self.headers.push(HeaderPair { name, value });
        assert(header_views(self.headers@) =~= header_views(before).push(
            HeaderView { name: name@, value: value@ },
        ));
    }
}

} // verus!
