//! Mappers that extract information from HTTP requests.

use crate::http_types::HttpRequest;
use crate::input::MatchInput;
use crate::mappers::{Mapper, KV};
use vstd::prelude::*;

verus! {

/// Extract the method from the HTTP request and pass it to the next mapper.
pub fn method<M>(inner: M) -> (r: Method<M>)
    ensures
        r.0 == inner,
{
    Method(inner)
}

/// The `Method` mapper returned by [method()](fn.method.html).
pub struct Method<M>(pub M);

impl<M: Mapper<String>> Mapper<HttpRequest> for Method<M> {
    type Out = M::Out;

    open spec fn wf(&self) -> bool {
        self.0.wf()
    }

    open spec fn spec_map(&self, input: <HttpRequest as MatchInput>::Repr) -> M::Out {
        self.0.spec_map(input.method)
    }

    fn map(&self, input: &HttpRequest) -> (r: M::Out) {
        self.0.map(&input.method)
    }
}

/// Extract the path from the HTTP request and pass it to the next mapper.
pub fn path<M>(inner: M) -> (r: Path<M>)
    ensures
        r.0 == inner,
{
    Path(inner)
}

/// The `Path` mapper returned by [path()](fn.path.html).
pub struct Path<M>(pub M);

impl<M: Mapper<String>> Mapper<HttpRequest> for Path<M> {
    type Out = M::Out;

    open spec fn wf(&self) -> bool {
        self.0.wf()
    }

    open spec fn spec_map(&self, input: <HttpRequest as MatchInput>::Repr) -> M::Out {
        self.0.spec_map(input.path)
    }

    fn map(&self, input: &HttpRequest) -> (r: M::Out) {
        self.0.map(&input.path)
    }
}

/// Extract the query from the HTTP request and pass it to the next mapper.
/// A request without a query string hands the empty string on.
pub fn query<M>(inner: M) -> (r: Query<M>)
    ensures
        r.0 == inner,
{
    Query(inner)
}

/// The `Query` mapper returned by [query()](fn.query.html).
pub struct Query<M>(pub M);

impl<M: Mapper<String>> Mapper<HttpRequest> for Query<M> {
    type Out = M::Out;

    open spec fn wf(&self) -> bool {
        self.0.wf()
    }

    open spec fn spec_map(&self, input: <HttpRequest as MatchInput>::Repr) -> M::Out {
        self.0.spec_map(input.query)
    }

    fn map(&self, input: &HttpRequest) -> (r: M::Out) {
        self.0.map(&input.query)
    }
}

/// Extract the headers from the HTTP request and pass the sequence of
/// key/byte-value pairs to the next mapper.
pub fn headers<M>(inner: M) -> (r: Headers<M>)
    ensures
        r.0 == inner,
{
    Headers(inner)
}

/// The `Headers` mapper returned by [headers()](fn.headers.html).
pub struct Headers<M>(pub M);

impl<M: Mapper<Vec<KV<String, Vec<u8>>>>> Mapper<HttpRequest> for Headers<M> {
    type Out = M::Out;

    open spec fn wf(&self) -> bool {
        self.0.wf()
    }

    open spec fn spec_map(&self, input: <HttpRequest as MatchInput>::Repr) -> M::Out {
        self.0.spec_map(input.headers)
    }

    fn map(&self, input: &HttpRequest) -> (r: M::Out) {
        self.0.map(&input.headers)
    }
}

/// Extract the body from the HTTP request and pass it to the next mapper.
pub fn body<M>(inner: M) -> (r: Body<M>)
    ensures
        r.0 == inner,
{
    Body(inner)
}

/// The `Body` mapper returned by [body()](fn.body.html).
pub struct Body<M>(pub M);

impl<M: Mapper<Vec<u8>>> Mapper<HttpRequest> for Body<M> {
    type Out = M::Out;

    open spec fn wf(&self) -> bool {
        self.0.wf()
    }

    open spec fn spec_map(&self, input: <HttpRequest as MatchInput>::Repr) -> M::Out {
        self.0.spec_map(input.body)
    }

    fn map(&self, input: &HttpRequest) -> (r: M::Out) {
        self.0.map(&input.body)
    }
}

} // verus!
