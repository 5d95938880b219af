//! Mappers that extract information from HTTP responses.

use crate::http_types::HttpResponse;
use crate::input::MatchInput;
use crate::mappers::{Mapper, KV};
use vstd::prelude::*;

verus! {

/// Extract the status code from the HTTP response and pass it to the next
/// mapper.
pub fn status_code<M>(inner: M) -> (r: StatusCode<M>)
    ensures
        r.0 == inner,
{
    StatusCode(inner)
}

/// The `StatusCode` mapper returned by [status_code()](fn.status_code.html).
pub struct StatusCode<M>(pub M);

impl<M: Mapper<u16>> Mapper<HttpResponse> for StatusCode<M> {
    type Out = M::Out;

    open spec fn wf(&self) -> bool {
        self.0.wf()
    }

    open spec fn spec_map(&self, input: <HttpResponse as MatchInput>::Repr) -> M::Out {
        self.0.spec_map(input.status)
    }

    fn map(&self, input: &HttpResponse) -> (r: M::Out) {
        self.0.map(&input.status)
    }
}

/// Extract the headers from the HTTP response and pass the sequence of
/// key/byte-value pairs to the next mapper.
pub fn headers<M>(inner: M) -> (r: Headers<M>)
    ensures
        r.0 == inner,
{
    Headers(inner)
}

/// The `Headers` mapper returned by [headers()](fn.headers.html).
pub struct Headers<M>(pub M);

impl<M: Mapper<Vec<KV<String, Vec<u8>>>>> Mapper<HttpResponse> for Headers<M> {
    type Out = M::Out;

    open spec fn wf(&self) -> bool {
        self.0.wf()
    }

    open spec fn spec_map(&self, input: <HttpResponse as MatchInput>::Repr) -> M::Out {
        self.0.spec_map(input.headers)
    }

    fn map(&self, input: &HttpResponse) -> (r: M::Out) {
        self.0.map(&input.headers)
    }
}

/// Extract the body from the HTTP response and pass it to the next mapper.
pub fn body<M>(inner: M) -> (r: Body<M>)
    ensures
        r.0 == inner,
{
    Body(inner)
}

/// The `Body` mapper returned by [body()](fn.body.html).
pub struct Body<M>(pub M);

impl<M: Mapper<Vec<u8>>> Mapper<HttpResponse> for Body<M> {
    type Out = M::Out;

    open spec fn wf(&self) -> bool {
        self.0.wf()
    }

    open spec fn spec_map(&self, input: <HttpResponse as MatchInput>::Repr) -> M::Out {
        self.0.spec_map(input.body)
    }

    fn map(&self, input: &HttpResponse) -> (r: M::Out) {
        self.0.map(&input.body)
    }
}

} // verus!
