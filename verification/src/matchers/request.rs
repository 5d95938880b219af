//! Matchers that extract information from HTTP requests.

use crate::http_types::HttpRequest;
use crate::input::MatchInput;
use crate::matchers::{ExecutionContext, Matcher};
use vstd::prelude::*;
use vstd::string::StringExecFns;

verus! {

/// Extract the method from the HTTP request and pass it to the next matcher.
pub fn method<M>(inner: M) -> (r: Method<M>)
    ensures
        r.0 == inner,
{
    Method(inner)
}

/// The `Method` matcher returned by [method()](fn.method.html).
pub struct Method<M>(pub M);

impl<M: Matcher<String>> Matcher<HttpRequest> for Method<M> {
    open spec fn wf(&self) -> bool {
        self.0.wf()
    }

    open spec fn spec_matches(&self, input: <HttpRequest as MatchInput>::Repr) -> bool {
        self.0.spec_matches(input.method)
    }

    open spec fn spec_describe(&self) -> Seq<char> {
        "Method("@ + self.0.spec_describe() + ")"@
    }

    fn describe(&self) -> (r: String) {
        let mut s = String::new();
        s.append("Method(");
        let inner = self.0.describe();
        s.append(inner.as_str());
        s.append(")");
        proof {
            reveal_strlit("Method(");
            reveal_strlit(")");
            assert(s@ =~= "Method("@ + self.0.spec_describe() + ")"@);
        }
        s
    }

    fn matches(&self, input: &HttpRequest, ctx: &mut ExecutionContext) -> (r: bool) {
        ctx.chain(&self.0, &input.method)
    }
}

/// Extract the path from the HTTP request and pass it to the next matcher.
pub fn path<M>(inner: M) -> (r: Path<M>)
    ensures
        r.0 == inner,
{
    Path(inner)
}

/// The `Path` matcher returned by [path()](fn.path.html).
pub struct Path<M>(pub M);

impl<M: Matcher<String>> Matcher<HttpRequest> for Path<M> {
    open spec fn wf(&self) -> bool {
        self.0.wf()
    }

    open spec fn spec_matches(&self, input: <HttpRequest as MatchInput>::Repr) -> bool {
        self.0.spec_matches(input.path)
    }

    open spec fn spec_describe(&self) -> Seq<char> {
        "Path("@ + self.0.spec_describe() + ")"@
    }

    fn describe(&self) -> (r: String) {
        let mut s = String::new();
        s.append("Path(");
        let inner = self.0.describe();
        s.append(inner.as_str());
        s.append(")");
        proof {
            reveal_strlit("Path(");
            reveal_strlit(")");
            assert(s@ =~= "Path("@ + self.0.spec_describe() + ")"@);
        }
        s
    }

    fn matches(&self, input: &HttpRequest, ctx: &mut ExecutionContext) -> (r: bool) {
        ctx.chain(&self.0, &input.path)
    }
}

/// Extract the query from the HTTP request and pass it to the next matcher.
/// A request without a query string hands the empty string on.
pub fn query<M>(inner: M) -> (r: Query<M>)
    ensures
        r.0 == inner,
{
    Query(inner)
}

/// The `Query` matcher returned by [query()](fn.query.html).
pub struct Query<M>(pub M);

impl<M: Matcher<String>> Matcher<HttpRequest> for Query<M> {
    open spec fn wf(&self) -> bool {
        self.0.wf()
    }

    open spec fn spec_matches(&self, input: <HttpRequest as MatchInput>::Repr) -> bool {
        self.0.spec_matches(input.query)
    }

    open spec fn spec_describe(&self) -> Seq<char> {
        "Query("@ + self.0.spec_describe() + ")"@
    }

    fn describe(&self) -> (r: String) {
        let mut s = String::new();
        s.append("Query(");
        let inner = self.0.describe();
        s.append(inner.as_str());
        s.append(")");
        proof {
            reveal_strlit("Query(");
            reveal_strlit(")");
            assert(s@ =~= "Query("@ + self.0.spec_describe() + ")"@);
        }
        s
    }

    fn matches(&self, input: &HttpRequest, ctx: &mut ExecutionContext) -> (r: bool) {
        ctx.chain(&self.0, &input.query)
    }
}

/// Extract the headers from the HTTP request and pass the sequence of
/// key/byte-value pairs to the next matcher.
pub fn headers<M>(inner: M) -> (r: Headers<M>)
    ensures
        r.0 == inner,
{
    Headers(inner)
}

/// The `Headers` matcher returned by [headers()](fn.headers.html).
pub struct Headers<M>(pub M);

impl<M: Matcher<Vec<crate::matchers::KV<String, Vec<u8>>>>> Matcher<HttpRequest> for Headers<M> {
    open spec fn wf(&self) -> bool {
        self.0.wf()
    }

    open spec fn spec_matches(&self, input: <HttpRequest as MatchInput>::Repr) -> bool {
        self.0.spec_matches(input.headers)
    }

    open spec fn spec_describe(&self) -> Seq<char> {
        "Headers("@ + self.0.spec_describe() + ")"@
    }

    fn describe(&self) -> (r: String) {
        let mut s = String::new();
        s.append("Headers(");
        let inner = self.0.describe();
        s.append(inner.as_str());
        s.append(")");
        proof {
            reveal_strlit("Headers(");
            reveal_strlit(")");
            assert(s@ =~= "Headers("@ + self.0.spec_describe() + ")"@);
        }
        s
    }

    fn matches(&self, input: &HttpRequest, ctx: &mut ExecutionContext) -> (r: bool) {
        ctx.chain(&self.0, &input.headers)
    }
}

/// Extract the body from the HTTP request and pass it to the next matcher.
pub fn body<M>(inner: M) -> (r: Body<M>)
    ensures
        r.0 == inner,
{
    Body(inner)
}

/// The `Body` matcher returned by [body()](fn.body.html).
pub struct Body<M>(pub M);

impl<M: Matcher<Vec<u8>>> Matcher<HttpRequest> for Body<M> {
    open spec fn wf(&self) -> bool {
        self.0.wf()
    }

    open spec fn spec_matches(&self, input: <HttpRequest as MatchInput>::Repr) -> bool {
        self.0.spec_matches(input.body)
    }

    open spec fn spec_describe(&self) -> Seq<char> {
        "Body("@ + self.0.spec_describe() + ")"@
    }

    fn describe(&self) -> (r: String) {
        let mut s = String::new();
        s.append("Body(");
        let inner = self.0.describe();
        s.append(inner.as_str());
        s.append(")");
        proof {
            reveal_strlit("Body(");
            reveal_strlit(")");
            assert(s@ =~= "Body("@ + self.0.spec_describe() + ")"@);
        }
        s
    }

    fn matches(&self, input: &HttpRequest, ctx: &mut ExecutionContext) -> (r: bool) {
        ctx.chain(&self.0, &input.body)
    }
}

/// A convenience matcher for both method and path: true iff the method and
/// the path both match.
///
/// `method_path(a, b)` decides as `all_of` of `method(a)` and `path(b)`
/// would, evaluating the method first and short-circuiting when it fails.
pub fn method_path<M, P>(method: M, path: P) -> (r: MethodPath<M, P>)
    ensures
        r.method == method,
        r.path == path,
{
    MethodPath { method, path }
}

/// The `MethodPath` matcher returned by
/// [method_path()](fn.method_path.html).
pub struct MethodPath<M, P> {
    /// The matcher applied to the request method.
    pub method: M,
    /// The matcher applied to the request path.
    pub path: P,
}

impl<M: Matcher<String>, P: Matcher<String>> Matcher<HttpRequest> for MethodPath<M, P> {
    open spec fn wf(&self) -> bool {
        self.method.wf() && self.path.wf()
    }

    open spec fn spec_matches(&self, input: <HttpRequest as MatchInput>::Repr) -> bool {
        self.method.spec_matches(input.method) && self.path.spec_matches(input.path)
    }

    open spec fn spec_describe(&self) -> Seq<char> {
        "MethodPath("@ + self.method.spec_describe() + ", "@ + self.path.spec_describe() + ")"@
    }

    fn describe(&self) -> (r: String) {
        let mut s = String::new();
        s.append("MethodPath(");
        let m = self.method.describe();
        s.append(m.as_str());
        s.append(", ");
        let p = self.path.describe();
        s.append(p.as_str());
        s.append(")");
        proof {
            reveal_strlit("MethodPath(");
            reveal_strlit(", ");
            reveal_strlit(")");
            assert(s@ =~= "MethodPath("@ + self.method.spec_describe() + ", "@
                + self.path.spec_describe() + ")"@);
        }
        s
    }

    fn matches(&self, input: &HttpRequest, ctx: &mut ExecutionContext) -> (r: bool) {
        ctx.chain(&self.method, &input.method) && ctx.chain(&self.path, &input.path)
    }
}

} // verus!
