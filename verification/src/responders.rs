//! Responder implementations.
//!
//! Responders determine how the server answers a matched request. A
//! responder is a strategy over buffered responses: a fixed response, a
//! cycle rotating through a list of responses, or a delayed wrapper around
//! another responder. The delay is carried as a number of milliseconds for
//! the caller that writes the response to honour; producing the response
//! itself never blocks.

use crate::http_types::{HttpRequest, HttpResponse};
use crate::input::MatchInput;
use crate::matchers::KV;
use vstd::prelude::*;

verus! {

/// A cycling strategy: each response in turn, rotating.
pub struct Cycle {
    /// The position of the response the next call returns.
    pub idx: usize,
    /// The responses to rotate through.
    pub responses: Vec<HttpResponse>,
}

/// A delaying strategy: the inner responder's response, after a delay.
pub struct Delay {
    /// The delay in milliseconds.
    pub delay_ms: u64,
    /// The responder that produces the response.
    pub inner: Box<Responder>,
}

/// A strategy producing an HTTP response for each matched request.
pub enum Responder {
    /// The same response every time.
    Fixed(HttpResponse),
    /// Each response of a list in turn, rotating.
    Cycling(Cycle),
    /// A response after a delay.
    Delayed(Delay),
}

impl Responder {
    /// Well-formedness: every cycle in the strategy has at least one
    /// response.
    pub open spec fn wf(&self) -> bool
        decreases self,
    {
        match self {
            Responder::Fixed(_) => true,
            Responder::Cycling(c) => c.responses.len() > 0 && c.idx < c.responses.len(),
            Responder::Delayed(d) => d.inner.wf(),
        }
    }

    /// The response the next call produces.
    pub open spec fn spec_response(&self) -> crate::http_types::HttpResponseRepr
        decreases self,
    {
        match self {
            Responder::Fixed(resp) => resp.repr(),
            Responder::Cycling(c) => c.responses[c.idx as int].repr(),
            Responder::Delayed(d) => d.inner.spec_response(),
        }
    }

    /// The total delay, in milliseconds, before the next response should be
    /// written, clamped at the largest machine count.
    pub open spec fn spec_delay(&self) -> u64
        decreases self,
    {
        match self {
            Responder::Fixed(_) => 0,
            Responder::Cycling(_) => 0,
            Responder::Delayed(d) => if d.delay_ms + d.inner.spec_delay() <= u64::MAX {
                (d.delay_ms + d.inner.spec_delay()) as u64
            } else {
                u64::MAX
            },
        }
    }

    /// The strategy's state after one call: a cycle advances its position by
    /// one, modulo the list length; everything else is unchanged.
    pub open spec fn spec_advance(&self) -> Responder
        decreases self,
    {
        match self {
            Responder::Fixed(resp) => Responder::Fixed(*resp),
            Responder::Cycling(c) => Responder::Cycling(
                Cycle {
                    idx: ((c.idx + 1) % (c.responses.len() as int)) as usize,
                    responses: c.responses,
                },
            ),
            Responder::Delayed(d) => Responder::Delayed(
                Delay { delay_ms: d.delay_ms, inner: Box::new(d.inner.spec_advance()) },
            ),
        }
    }

    /// How deeply delayed wrappers nest; a measure for recursion.
    pub open spec fn depth(&self) -> nat
        decreases self,
    {
        match self {
            Responder::Delayed(d) => d.inner.depth() + 1,
            _ => 0,
        }
    }

    /// Produce the response for a matched request, handing back the advanced
    /// strategy and the delay to honour before writing the response.
    pub fn respond(self, req: &HttpRequest) -> (r: (Responder, HttpResponse, u64))
        requires
            self.wf(),
        ensures
            r.0 == self.spec_advance(),
            r.0.wf(),
            r.1.repr() == self.spec_response(),
            r.2 == self.spec_delay(),
        decreases self.depth(),
    {
        match self {
            Responder::Fixed(resp) => {
                let copy = resp.dup();
                (Responder::Fixed(resp), copy, 0)
            },
            Responder::Cycling(c) => {
                let resp = c.responses[c.idx].dup();
                let next: usize = if c.idx + 1 < c.responses.len() {
                    c.idx + 1
                } else {
                    0
                };
                proof {
                    let len = c.responses@.len() as int;
                    if c.idx + 1 < len {
                        assert((c.idx + 1) % len == c.idx + 1) by (nonlinear_arith)
                            requires
                                0 <= c.idx + 1 < len,
                        ;
                    } else {
                        assert(c.idx + 1 == len);
                        assert(len % len == 0) by (nonlinear_arith)
                            requires
                                len > 0,
                        ;
                    }
                    assert(next == ((c.idx + 1) % len) as usize);
                }
                (Responder::Cycling(Cycle { idx: next, responses: c.responses }), resp, 0)
            },
            Responder::Delayed(d) => {
                let (inner, resp, delay) = (*d.inner).respond(req);
                let total: u64 = if delay <= u64::MAX - d.delay_ms {
                    d.delay_ms + delay
                } else {
                    u64::MAX
                };
                (
                    Responder::Delayed(Delay { delay_ms: d.delay_ms, inner: Box::new(inner) }),
                    resp,
                    total,
                )
            },
        }
    }
}

/// A response under construction; convenient for building the response an
/// expectation answers with.
pub struct ResponseBuilder {
    /// The response built so far.
    pub response: HttpResponse,
}

/// The headers of a response after inserting a header: every pair with that
/// name is removed and the new pair stands at the end.
pub open spec fn headers_after_insert(
    headers: Seq<(Seq<char>, Seq<u8>)>,
    name: Seq<char>,
    value: Seq<u8>,
) -> Seq<(Seq<char>, Seq<u8>)> {
    headers.filter(|kv: (Seq<char>, Seq<u8>)| kv.0 != name).push((name, value))
}

impl ResponseBuilder {
    /// Insert the provided header, replacing any header that already exists
    /// with the same name.
    pub fn insert_header(self, name: &str, value: &str) -> (r: ResponseBuilder)
        ensures
            r.response.status == self.response.status,
            r.response.body == self.response.body,
            r.response.headers.repr() == headers_after_insert(
                self.response.headers.repr(),
                name@,
                vstd::utf8::encode_utf8(value@),
            ),
    {
        let mut headers: Vec<KV<String, Vec<u8>>> = Vec::new();
        let old_headers = self.response.headers;
        let ghost keep = |kv: (Seq<char>, Seq<u8>)| kv.0 != name@;
        let ghost target = old_headers.repr().filter(keep).push(
            (name@, vstd::utf8::encode_utf8(value@)),
        );
        let mut i: usize = 0;
        proof {
            reveal(Seq::filter);
            assert(old_headers.repr().take(0) =~= Seq::<(Seq<char>, Seq<u8>)>::empty());
            assert(old_headers.repr().take(0).filter(keep) =~= Seq::<(
                Seq<char>,
                Seq<u8>,
            )>::empty());
        }
        while i < old_headers.len()
            invariant
                0 <= i <= old_headers@.len(),
                keep == (|kv: (Seq<char>, Seq<u8>)| kv.0 != name@),
                headers.repr() =~= old_headers.repr().take(i as int).filter(keep),
            decreases old_headers@.len() - i,
        {
            let ghost prefix = old_headers.repr().take(i as int);
            let ghost elem = old_headers.repr()[i as int];
            let kv = &old_headers[i];
            let same = crate::input::bytes_eq(kv.k.as_str().as_bytes(), name.as_bytes());
            proof {
                vstd::utf8::encode_utf8_decode_utf8(kv.k@);
                vstd::utf8::encode_utf8_decode_utf8(name@);
                assert(elem.0 == kv.k@);
                assert(same == !keep(elem));
            }
            if !same {
                headers.push(kv.dup());
            }
            proof {
                prefix.lemma_filter_push(elem, keep);
                assert(old_headers.repr().take(i + 1) =~= prefix.push(elem));
            }
            i += 1;
        }
        proof {
            assert(old_headers.repr().take(old_headers@.len() as int) =~= old_headers.repr());
        }
        let nv = crate::input::bytes_to_vec(value.as_bytes());
        proof {
            crate::input::lemma_bytes_repr_is_view(&nv);
            assert(nv.repr() =~= vstd::utf8::encode_utf8(value@));
        }
        let ghost before = headers.repr();
        let pair = KV { k: name.to_owned(), v: nv };
        let ghost pair_repr = pair.repr();
        headers.push(pair);
        proof {
            assert(pair_repr == (name@, vstd::utf8::encode_utf8(value@)));
            assert(headers.repr() =~= before.push(pair_repr));
            assert(headers.repr() =~= target);
        }
        ResponseBuilder {
            response: HttpResponse {
                status: self.response.status,
                headers,
                body: self.response.body,
            },
        }
    }

    /// Append the provided header, keeping any header that already exists
    /// with the same name.
    pub fn append_header(self, name: &str, value: &str) -> (r: ResponseBuilder)
        ensures
            r.response.status == self.response.status,
            r.response.body == self.response.body,
            r.response.headers.repr() == self.response.headers.repr().push(
                (name@, vstd::utf8::encode_utf8(value@)),
            ),
    {
        let mut headers = self.response.headers;
        let nv = crate::input::bytes_to_vec(value.as_bytes());
        headers.push(KV { k: name.to_owned(), v: nv });
        proof {
            crate::input::lemma_bytes_repr_is_view(&headers[headers@.len() - 1].v);
            assert(headers.repr() =~= self.response.headers.repr().push(
                (name@, vstd::utf8::encode_utf8(value@)),
            ));
        }
        ResponseBuilder {
            response: HttpResponse {
                status: self.response.status,
                headers,
                body: self.response.body,
            },
        }
    }

    /// Set the body of the response.
    pub fn body(self, body: Vec<u8>) -> (r: ResponseBuilder)
        ensures
            r.response.status == self.response.status,
            r.response.headers == self.response.headers,
            r.response.body == body,
    {
        ResponseBuilder {
            response: HttpResponse {
                status: self.response.status,
                headers: self.response.headers,
                body,
            },
        }
    }

    /// Set the body of the response from text.
    pub fn body_str(self, body: &str) -> (r: ResponseBuilder)
        ensures
            r.response.status == self.response.status,
            r.response.headers == self.response.headers,
            r.response.body@ == vstd::utf8::encode_utf8(body@),
    {
        let bytes = crate::input::bytes_to_vec(body.as_bytes());
        ResponseBuilder {
            response: HttpResponse {
                status: self.response.status,
                headers: self.response.headers,
                body: bytes,
            },
        }
    }
}

/// Respond with the provided status code and an empty body. A status code
/// is three digits.
pub fn status_code(code: u16) -> (r: ResponseBuilder)
    requires
        100 <= code <= 999,
    ensures
        r.response.status == code,
        r.response.headers@.len() == 0,
        r.response.body@.len() == 0,
{
    ResponseBuilder {
        response: HttpResponse { status: code, headers: Vec::new(), body: Vec::new() },
    }
}

/// The responder returned by [json_encoded()](fn.json_encoded.html): a
/// fixed response carrying a JSON body.
pub struct JsonEncoded {
    /// The response to answer with.
    pub response: HttpResponse,
}

/// Respond with a body that is the JSON document provided, with status 200
/// and content type `application/json`.
pub fn json_encoded(data: crate::json::Json) -> (r: JsonEncoded)
    ensures
        r.response.status == 200,
        r.response.body@ == data.canon@,
        r.response.headers.repr() =~= seq![
            ("Content-Type"@, vstd::utf8::encode_utf8("application/json"@)),
        ],
{
    let b = status_code(200).append_header("Content-Type", "application/json");
    proof {
        assert(b.response.headers.repr() =~= Seq::<(Seq<char>, Seq<u8>)>::empty().push(
            ("Content-Type"@, vstd::utf8::encode_utf8("application/json"@)),
        ));
    }
    JsonEncoded { response: b.body(data.canon).response }
}

impl IntoResponder for JsonEncoded {
    open spec fn spec_responder(&self) -> Responder {
        Responder::Fixed(self.response)
    }

    fn into_responder(self) -> (r: Responder) {
        Responder::Fixed(self.response)
    }
}

/// The responder returned by [url_encoded()](fn.url_encoded.html): a fixed
/// response carrying a urlencoded body.
pub struct UrlEncoded {
    /// The response to answer with.
    pub response: HttpResponse,
}

/// Respond with a body that is the urlencoded form of the provided pairs,
/// with status 200 and the form content type.
pub fn url_encoded(data: &Vec<KV<String, String>>) -> (r: UrlEncoded)
    ensures
        r.response.status == 200,
        r.response.body@ == crate::urlenc::url_encode_spec(data.repr()),
        r.response.headers.repr() =~= seq![
            ("Content-Type"@, vstd::utf8::encode_utf8("application/x-www-form-urlencoded"@)),
        ],
{
    let body = crate::urlenc::url_encode(data);
    let b = status_code(200).append_header("Content-Type", "application/x-www-form-urlencoded");
    proof {
        assert(b.response.headers.repr() =~= Seq::<(Seq<char>, Seq<u8>)>::empty().push(
            ("Content-Type"@, vstd::utf8::encode_utf8("application/x-www-form-urlencoded"@)),
        ));
    }
    UrlEncoded { response: b.body(body).response }
}

impl IntoResponder for UrlEncoded {
    open spec fn spec_responder(&self) -> Responder {
        Responder::Fixed(self.response)
    }

    fn into_responder(self) -> (r: Responder) {
        Responder::Fixed(self.response)
    }
}

/// Cycle through the provided list of responses; each call answers with the
/// next one, rotating.
pub fn cycle(responders: Vec<ResponseBuilder>) -> (r: Responder)
    requires
        responders@.len() > 0,
    ensures
        r.wf(),
        r matches Responder::Cycling(c) && c.idx == 0 && c.responses@.len() == responders@.len()
            && forall|i: int|
            0 <= i < responders@.len() ==> (#[trigger] c.responses@[i]) == responders@[i].response,
{
    let mut responses: Vec<HttpResponse> = Vec::new();
    let mut rest = responders;
    let ghost orig = rest@;
    let mut i: usize = 0;
    while rest.len() > 0
        invariant
            orig.len() == responses@.len() + rest@.len(),
            forall|j: int| 0 <= j < rest@.len() ==> rest@[j] == orig[responses@.len() + j],
            forall|j: int|
                0 <= j < responses@.len() ==> (#[trigger] responses@[j]) == orig[j].response,
        decreases rest@.len(),
    {
        let b = rest.remove(0);
        responses.push(b.response);
    }
    Responder::Cycling(Cycle { idx: 0, responses })
}

/// Respond with the given responder after a delay in milliseconds. This is
/// useful for testing request timeouts.
pub fn delay_and_then(delay_ms: u64, and_then: Responder) -> (r: Responder)
    ensures
        r == Responder::Delayed(Delay { delay_ms, inner: Box::new(and_then) }),
        and_then.wf() ==> r.wf(),
{
    Responder::Delayed(Delay { delay_ms, inner: Box::new(and_then) })
}

/// Anything that stands for a responder: a responder itself, a response
/// under construction, or a finished response.
pub trait IntoResponder: Sized {
    /// The responder this value stands for.
    spec fn spec_responder(&self) -> Responder;

    /// Convert into a responder.
    fn into_responder(self) -> (r: Responder)
        ensures
            r == self.spec_responder(),
    ;
}

impl IntoResponder for Responder {
    open spec fn spec_responder(&self) -> Responder {
        *self
    }

    fn into_responder(self) -> (r: Responder) {
        self
    }
}

impl IntoResponder for ResponseBuilder {
    open spec fn spec_responder(&self) -> Responder {
        Responder::Fixed(self.response)
    }

    fn into_responder(self) -> (r: Responder) {
        Responder::Fixed(self.response)
    }
}

impl IntoResponder for HttpResponse {
    open spec fn spec_responder(&self) -> Responder {
        Responder::Fixed(*self)
    }

    fn into_responder(self) -> (r: Responder) {
        Responder::Fixed(self)
    }
}

} // verus!
