//! Structural models of HTTP requests and responses.
//!
//! A request is held as plain values: method, path and query as strings, the
//! headers as an ordered sequence of key/byte-value pairs with duplicates
//! preserved, and the body as bytes, fully buffered. These views are what the
//! matchers inspect; the network listener converts between wire form and this
//! model outside the verified core.

use crate::input::MatchInput;
use crate::matchers::KV;
use vstd::prelude::*;
use vstd::string::StringExecFns;

verus! {

/// The mathematical value of an [`HttpRequest`].
pub struct HttpRequestRepr {
    /// The request method, e.g. `GET`.
    pub method: Seq<char>,
    /// The request path, e.g. `/foo`.
    pub path: Seq<char>,
    /// The raw query string, without the leading `?`; empty if absent.
    pub query: Seq<char>,
    /// The headers, in order, duplicates preserved.
    pub headers: Seq<(Seq<char>, Seq<u8>)>,
    /// The body bytes.
    pub body: Seq<u8>,
}

/// An HTTP request, fully buffered.
pub struct HttpRequest {
    /// The request method, e.g. `GET`.
    pub method: String,
    /// The request path, e.g. `/foo`.
    pub path: String,
    /// The raw query string, without the leading `?`; empty if absent.
    pub query: String,
    /// The headers, in order, duplicates preserved.
    pub headers: Vec<KV<String, Vec<u8>>>,
    /// The body bytes.
    pub body: Vec<u8>,
}

impl HttpRequest {
    /// Assemble a request from its parts.
    pub fn new(
        method: String,
        path: String,
        query: String,
        headers: Vec<KV<String, Vec<u8>>>,
        body: Vec<u8>,
    ) -> (r: HttpRequest)
        ensures
            r.method == method,
            r.path == path,
            r.query == query,
            r.headers == headers,
            r.body == body,
    {
        HttpRequest { method, path, query, headers, body }
    }
}

impl MatchInput for HttpRequest {
    type Repr = HttpRequestRepr;

    open spec fn repr(&self) -> HttpRequestRepr {
        HttpRequestRepr {
            method: self.method@,
            path: self.path@,
            query: self.query@,
            headers: self.headers.repr(),
            body: self.body.repr(),
        }
    }

    fn eq_input(&self, other: &Self) -> (r: bool) {
        self.method.eq_input(&other.method) && self.path.eq_input(&other.path)
            && self.query.eq_input(&other.query) && self.headers.eq_input(&other.headers)
            && self.body.eq_input(&other.body)
    }

    fn dup(&self) -> (r: Self) {
        HttpRequest {
            method: self.method.dup(),
            path: self.path.dup(),
            query: self.query.dup(),
            headers: self.headers.dup(),
            body: self.body.dup(),
        }
    }

    open spec fn spec_describe(&self) -> Seq<char> {
        self.method@ + " "@ + self.path@
    }

    fn describe(&self) -> (r: String) {
        let mut s = String::new();
        s.append(self.method.as_str());
        s.append(" ");
        s.append(self.path.as_str());
        proof {
            reveal_strlit(" ");
            assert(s@ =~= self.method@ + " "@ + self.path@);
        }
        s
    }
}

/// The mathematical value of an [`HttpResponse`].
pub struct HttpResponseRepr {
    /// The status code.
    pub status: u16,
    /// The headers, in order, duplicates preserved.
    pub headers: Seq<(Seq<char>, Seq<u8>)>,
    /// The body bytes.
    pub body: Seq<u8>,
}

/// An HTTP response, fully buffered.
pub struct HttpResponse {
    /// The status code.
    pub status: u16,
    /// The headers, in order, duplicates preserved.
    pub headers: Vec<KV<String, Vec<u8>>>,
    /// The body bytes.
    pub body: Vec<u8>,
}

impl HttpResponse {
    /// Assemble a response from its parts.
    pub fn new(status: u16, headers: Vec<KV<String, Vec<u8>>>, body: Vec<u8>) -> (r: HttpResponse)
        ensures
            r.status == status,
            r.headers == headers,
            r.body == body,
    {
        HttpResponse { status, headers, body }
    }
}

impl MatchInput for HttpResponse {
    type Repr = HttpResponseRepr;

    open spec fn repr(&self) -> HttpResponseRepr {
        HttpResponseRepr {
            status: self.status,
            headers: self.headers.repr(),
            body: self.body.repr(),
        }
    }

    fn eq_input(&self, other: &Self) -> (r: bool) {
        self.status == other.status && self.headers.eq_input(&other.headers)
            && self.body.eq_input(&other.body)
    }

    fn dup(&self) -> (r: Self) {
        HttpResponse {
            status: self.status,
            headers: self.headers.dup(),
            body: self.body.dup(),
        }
    }

    open spec fn spec_describe(&self) -> Seq<char> {
        "response("@ + crate::times::dec_str(self.status as nat) + ")"@
    }

    fn describe(&self) -> (r: String) {
        let mut s = String::new();
        s.append("response(");
        crate::times::push_usize(&mut s, self.status as usize);
        s.append(")");
        proof {
            reveal_strlit("response(");
            reveal_strlit(")");
            assert(s@ =~= "response("@ + crate::times::dec_str(self.status as nat) + ")"@);
        }
        s
    }
}

} // verus!
