//! The expectation registry, the per-request dispatch algorithm, and
//! verification.
//!
//! A [`ServerState`] owns an ordered list of expectations and the log of
//! requests that matched none. Dispatch iterates the expectations in reverse
//! registration order, attributes the request to the first that matches,
//! updates its hit count and decides the response; verification walks all
//! expectations once and reports every cardinality violation together with
//! the unmatched requests.

use crate::http_types::{HttpRequest, HttpRequestRepr, HttpResponse};
use crate::input::MatchInput;
use crate::matchers::Matcher;
use crate::responders::{IntoResponder, Responder};
use crate::times::{
    dec_str,
    describe_times,
    push_usize,
    spec_times_exceeded,
    times_contains,
    times_description,
    times_exceeded,
    Times,
    TimesBound,
};
use vstd::prelude::*;
use vstd::string::StringExecFns;

verus! {

/// An expectation to be asserted by the server: a matcher over requests, a
/// cardinality bound, a responder, and the count of requests attributed to
/// it so far.
pub struct Expectation<M> {
    /// Which requests this expectation matches.
    pub matcher: M,
    /// How many matching requests are legal.
    pub times: Times,
    /// How the server answers a matching request.
    pub responder: Responder,
    /// How many requests have been attributed to this expectation.
    pub hit_count: usize,
}

impl<M: Matcher<HttpRequest>> Expectation<M> {
    /// Well-formedness of the expectation: its matcher and responder are
    /// well-formed.
    pub open spec fn wf(&self) -> bool {
        self.matcher.wf() && self.responder.wf()
    }

    /// What requests will this expectation match. The builder starts with a
    /// default cardinality of exactly one.
    pub fn matching(matcher: M) -> (r: ExpectationBuilder<M>)
        ensures
            r.matcher == matcher,
            r.times == (Times {
                lower: TimesBound::Included(1usize),
                upper: TimesBound::Included(1usize),
            }),
    {
        ExpectationBuilder {
            matcher,
            times: Times { lower: TimesBound::Included(1), upper: TimesBound::Included(1) },
        }
    }

    /// Whether the final hit count lies within the cardinality bound; used
    /// at verification time, not during dispatch.
    pub fn is_satisfied(&self) -> (r: bool)
        ensures
            r == times_contains(self.times, self.hit_count as nat),
    {
        crate::times::hit_count_is_valid(self.times, self.hit_count)
    }

    /// Record one more hit and report whether the upper cardinality bound
    /// has now been exceeded.
    pub fn record_hit(&mut self) -> (r: bool)
        ensures
            final(self).matcher == old(self).matcher,
            final(self).times == old(self).times,
            final(self).responder == old(self).responder,
            final(self).hit_count == next_hits(old(self).hit_count),
            r == spec_times_exceeded(old(self).times.upper, next_hits(old(self).hit_count) as nat),
    {
        self.hit_count = if self.hit_count < usize::MAX {
            self.hit_count + 1
        } else {
            self.hit_count
        };
        times_exceeded(self.times.upper, self.hit_count)
    }
}

/// Define expectations using a builder pattern.
pub struct ExpectationBuilder<M> {
    /// Which requests the built expectation will match.
    pub matcher: M,
    /// How many matching requests are legal.
    pub times: Times,
}

impl<M: Matcher<HttpRequest>> ExpectationBuilder<M> {
    /// Expect this many requests.
    pub fn times<R: crate::times::IntoTimes>(self, times: R) -> (r: ExpectationBuilder<M>)
        ensures
            r.matcher == self.matcher,
            r.times == times.spec_times(),
    {
        ExpectationBuilder { matcher: self.matcher, times: times.into_times() }
    }

    /// What this expectation responds with; finishes the builder.
    pub fn respond_with<R: IntoResponder>(self, responder: R) -> (r: Expectation<M>)
        ensures
            r.matcher == self.matcher,
            r.times == self.times,
            r.responder == responder.spec_responder(),
            r.hit_count == 0,
    {
        Expectation {
            matcher: self.matcher,
            times: self.times,
            responder: responder.into_responder(),
            hit_count: 0,
        }
    }
}

/// The index of the expectation a request is attributed to: the one added
/// last among those whose matcher accepts the request, or nothing when none
/// does.
pub open spec fn matched_index<M: Matcher<HttpRequest>>(
    expected: Seq<Expectation<M>>,
    req: HttpRequestRepr,
) -> Option<int>
    decreases expected.len(),
{
    if expected.len() == 0 {
        None
    } else if expected.last().matcher.spec_matches(req) {
        Some(expected.len() - 1)
    } else {
        matched_index(expected.drop_last(), req)
    }
}

/// What the matched index means: it points at a matching expectation and
/// nothing after it matches; where it is absent, nothing matches at all.
pub proof fn lemma_matched_index<M: Matcher<HttpRequest>>(
    expected: Seq<Expectation<M>>,
    req: HttpRequestRepr,
)
    ensures
        match matched_index(expected, req) {
            Some(i) => 0 <= i < expected.len() && expected[i].matcher.spec_matches(req)
                && forall|j: int|
                i < j < expected.len() ==> !(#[trigger] expected[j].matcher.spec_matches(req)),
            None => forall|j: int|
                0 <= j < expected.len() ==> !(#[trigger] expected[j].matcher.spec_matches(req)),
        },
    decreases expected.len(),
{
    if expected.len() > 0 {
        if !expected.last().matcher.spec_matches(req) {
            lemma_matched_index(expected.drop_last(), req);
            assert forall|j: int| 0 <= j < expected.len() - 1 implies expected.drop_last()[j]
                == expected[j] by {}
        }
    }
}

/// The matched index is complete: where some expectation matches and none
/// after a given one does, that one is matched.
pub proof fn lemma_matched_index_found<M: Matcher<HttpRequest>>(
    expected: Seq<Expectation<M>>,
    req: HttpRequestRepr,
    i: int,
)
    requires
        0 <= i < expected.len(),
        expected[i].matcher.spec_matches(req),
        forall|j: int| i < j < expected.len() ==> !(#[trigger] expected[j].matcher.spec_matches(req)),
    ensures
        matched_index(expected, req) == Some(i),
    decreases expected.len(),
{
    if i == expected.len() - 1 {
    } else {
        assert(!expected.last().matcher.spec_matches(req));
        assert(expected.drop_last()[i] == expected[i]);
        assert forall|j: int| i < j < expected.drop_last().len() implies !(
        #[trigger] expected.drop_last()[j].matcher.spec_matches(req)) by {
            assert(expected.drop_last()[j] == expected[j]);
        }
        lemma_matched_index_found(expected.drop_last(), req, i);
    }
}

/// Reverse-order precedence: of two expectations, a request that the one
/// registered later matches is attributed to it, whether or not the earlier
/// one would also have matched.
pub proof fn lemma_reverse_order_precedence<M: Matcher<HttpRequest>>(
    expected: Seq<Expectation<M>>,
    req: HttpRequestRepr,
)
    requires
        expected.len() == 2,
        expected[1].matcher.spec_matches(req),
    ensures
        matched_index(expected, req) == Some(1int),
{
}

/// A hit count after one more hit; the count does not wrap at the machine
/// limit.
pub open spec fn next_hits(h: usize) -> usize {
    if h < usize::MAX {
        (h + 1) as usize
    } else {
        h
    }
}

/// The body of the error response for a request that exceeded an
/// expectation's upper cardinality bound.
pub open spec fn times_error_message(desc: Seq<char>, times: Times, hits: nat) -> Seq<char> {
    "Unexpected number of requests for matcher '"@ + desc + "'; received "@ + dec_str(hits)
        + "; expected "@ + times_description(times)
}

/// Append the cardinality-error message for one expectation.
fn push_times_error_message(msg: &mut String, desc: &str, times: Times, hit_count: usize)
    ensures
        final(msg)@ == old(msg)@ + times_error_message(desc@, times, hit_count as nat),
{
    msg.append("Unexpected number of requests for matcher '");
    msg.append(desc);
    msg.append("'; received ");
    push_usize(msg, hit_count);
    msg.append("; expected ");
    let bound = describe_times(times);
    msg.append(bound.as_str());
    proof {
        assert(msg@ =~= old(msg)@ + times_error_message(desc@, times, hit_count as nat));
    }
}

/// Build the error response for a request that exceeded an expectation's
/// upper cardinality bound.
pub fn times_error(desc: &str, times: Times, hit_count: usize) -> (r: HttpResponse)
    ensures
        r.status == 500,
        r.body@ == vstd::utf8::encode_utf8(times_error_message(desc@, times, hit_count as nat)),
        r.headers@.len() == 0,
{
    let mut msg = String::new();
    push_times_error_message(&mut msg, desc, times, hit_count);
    proof {
        assert(msg@ =~= times_error_message(desc@, times, hit_count as nat));
    }
    let body = crate::input::bytes_to_vec(msg.as_str().as_bytes());
    HttpResponse { status: 500, headers: Vec::new(), body }
}

/// Build the error response for a request that matched no expectation.
pub fn no_matcher_error() -> (r: HttpResponse)
    ensures
        r.status == 500,
        r.body@ == vstd::utf8::encode_utf8("No matcher found"@),
        r.headers@.len() == 0,
{
    let msg: &str = "No matcher found";
    let body = crate::input::bytes_to_vec(msg.as_bytes());
    HttpResponse { status: 500, headers: Vec::new(), body }
}

/// The registry: the ordered list of expectations and the log of requests
/// that matched none.
pub struct ServerState<M> {
    /// The expectations, in registration order.
    pub expected: Vec<Expectation<M>>,
    /// The requests that matched no expectation.
    pub unexpected_requests: Vec<HttpRequest>,
}

/// What dispatching one request does to the registry and what it answers:
/// the request is attributed to the expectation added last among those that
/// match; its hit count rises by one; within the bound its responder answers
/// and advances, beyond it a cardinality error answers; a request that
/// matches nothing is logged and answered with a no-matcher error.
pub open spec fn dispatch_post<M: Matcher<HttpRequest>>(
    pre: ServerState<M>,
    post: ServerState<M>,
    req: HttpRequest,
    resp: HttpResponse,
    delay: u64,
) -> bool {
    match matched_index(pre.expected@, req.repr()) {
        Some(i) => {
            let e = pre.expected@[i];
            let hits = next_hits(e.hit_count);
            &&& post.unexpected_requests@ == pre.unexpected_requests@
            &&& post.expected@.len() == pre.expected@.len()
            &&& forall|j: int|
                0 <= j < pre.expected@.len() && j != i ==> post.expected@[j] == pre.expected@[j]
            &&& post.expected@[i].times == e.times
            &&& post.expected@[i].matcher == e.matcher
            &&& post.expected@[i].hit_count == hits
            &&& if !spec_times_exceeded(e.times.upper, hits as nat) {
                &&& post.expected@[i].responder == e.responder.spec_advance()
                &&& resp.repr() == e.responder.spec_response()
                &&& delay == e.responder.spec_delay()
            } else {
                &&& post.expected@[i].responder == e.responder
                &&& resp.status == 500
                &&& resp.body@ == vstd::utf8::encode_utf8(
                    times_error_message(e.matcher.spec_describe(), e.times, hits as nat),
                )
                &&& delay == 0
            }
        },
        None => {
            &&& post.expected@ == pre.expected@
            &&& post.unexpected_requests@ == pre.unexpected_requests@.push(req)
            &&& resp.status == 500
            &&& resp.body@ == vstd::utf8::encode_utf8("No matcher found"@)
            &&& delay == 0
        },
    }
}

/// No hit is lost or doubled: one dispatch raises exactly the matched
/// expectation's hit count, by one, and leaves every other hit count as it
/// was. Under mutual exclusion this carries over to any number of
/// interleaved dispatches.
pub proof fn lemma_hits_exact<M: Matcher<HttpRequest>>(
    pre: ServerState<M>,
    post: ServerState<M>,
    req: HttpRequest,
    resp: HttpResponse,
    delay: u64,
    i: int,
)
    requires
        dispatch_post(pre, post, req, resp, delay),
        matched_index(pre.expected@, req.repr()) == Some(i),
        pre.expected@[i].hit_count < usize::MAX,
    ensures
        post.expected@[i].hit_count == pre.expected@[i].hit_count + 1,
        forall|j: int|
            0 <= j < pre.expected@.len() && j != i ==> post.expected@[j].hit_count
                == pre.expected@[j].hit_count,
{
    lemma_matched_index(pre.expected@, req.repr());
}

impl<M: Matcher<HttpRequest>> ServerState<M> {
    /// Well-formedness of the registry: every expectation is well-formed.
    pub open spec fn wf(&self) -> bool {
        forall|i: int| 0 <= i < self.expected@.len() ==> (#[trigger] self.expected@[i]).wf()
    }

    /// An empty registry.
    pub fn new() -> (r: ServerState<M>)
        ensures
            r.expected@.len() == 0,
            r.unexpected_requests@.len() == 0,
            r.wf(),
    {
        ServerState { expected: Vec::new(), unexpected_requests: Vec::new() }
    }

    /// Append an expectation to the registry.
    pub fn push_expectation(&mut self, expectation: Expectation<M>)
        requires
            old(self).wf(),
            expectation.wf(),
        ensures
            final(self).expected@ == old(self).expected@.push(expectation),
            final(self).unexpected_requests@ == old(self).unexpected_requests@,
            final(self).wf(),
    {
        self.expected.push(expectation);
    }

    /// Find the expectation a request is attributed to: the one added last
    /// among those whose matcher accepts the request.
    pub fn find_expectation(&self, req: &HttpRequest) -> (r: Option<usize>)
        requires
            self.wf(),
        ensures
            match r {
                Some(i) => Some(i as int) == matched_index(self.expected@, req.repr()),
                None => matched_index(self.expected@, req.repr()) is None,
            },
    {
        let mut i: usize = self.expected.len();
        while i > 0
            invariant
                self.wf(),
                0 <= i <= self.expected@.len(),
                forall|j: int|
                    i <= j < self.expected@.len() ==> !(
                    #[trigger] self.expected@[j].matcher.spec_matches(req.repr())),
            decreases i,
        {
            i = i - 1;
            if crate::matchers::ExecutionContext::evaluate(&self.expected[i].matcher, req) {
                proof {
                    lemma_matched_index_found(self.expected@, req.repr(), i as int);
                }
                return Some(i);
            }
        }
        proof {
            lemma_matched_index(self.expected@, req.repr());
            if matched_index(self.expected@, req.repr()) is Some {
                let w = matched_index(self.expected@, req.repr()).unwrap();
                assert(!self.expected@[w].matcher.spec_matches(req.repr()));
            }
        }
        None
    }

    /// Dispatch one request: find the matching expectation, update its state
    /// and decide the response and the delay to honour before writing it.
    pub fn on_req(&mut self, req: HttpRequest) -> (r: (HttpResponse, u64))
        requires
            old(self).wf(),
        ensures
            final(self).wf(),
            dispatch_post(*old(self), *final(self), req, r.0, r.1),
    {
        let found = self.find_expectation(&req);
        proof {
            lemma_matched_index(self.expected@, req.repr());
        }
        match found {
            Some(i) => {
                let ghost pre_expected = self.expected@;
                let mut e = self.expected.remove(i);
                proof {
                    assert(e == pre_expected[i as int]);
                    assert(pre_expected[i as int].wf());
                }
                let exceeded = e.record_hit();
                if !exceeded {
                    let responder = e.responder;
                    let (advanced, resp, delay) = responder.respond(&req);
                    e.responder = advanced;
                    self.expected.insert(i, e);
                    proof {
                        assert(forall|j: int|
                            0 <= j < pre_expected.len() && j != i ==> self.expected@[j]
                                == pre_expected[j]);
                    }
                    (resp, delay)
                } else {
                    let desc = e.matcher.describe();
                    let resp = times_error(desc.as_str(), e.times, e.hit_count);
                    self.expected.insert(i, e);
                    proof {
                        assert(forall|j: int|
                            0 <= j < pre_expected.len() && j != i ==> self.expected@[j]
                                == pre_expected[j]);
                    }
                    (resp, 0)
                }
            },
            None => {
                self.unexpected_requests.push(req);
                (no_matcher_error(), 0)
            },
        }
    }

    /// Verify all registered expectations and reset the registry to its
    /// empty state. The result is an error iff some expectation's hit count
    /// lies outside its bound or some request matched no expectation; the
    /// error holds the full report.
    pub fn verify_and_clear(&mut self) -> (r: Result<(), String>)
        requires
            old(self).wf(),
        ensures
            final(self).expected@.len() == 0,
            final(self).unexpected_requests@.len() == 0,
            final(self).wf(),
            r is Ok <==> all_satisfied(old(self).expected@) && old(
                self,
            ).unexpected_requests@.len() == 0,
            r matches Err(m) ==> m@ == verify_message(*old(self)),
    {
        let ghost full = self.expected@;
        let ghost ureqs = self.unexpected_requests@;
        let mut ok = true;
        let mut msg = String::new();
        let mut i: usize = 0;
        proof {
            assert(full.skip(0) =~= full);
            assert(full.take(0) =~= Seq::<Expectation<M>>::empty());
        }
        while i < self.expected.len()
            invariant
                self.expected@ == full,
                self.unexpected_requests@ == ureqs,
                self.wf(),
                0 <= i <= full.len(),
                ok == all_satisfied(full.take(i as int)),
                failure_lines(full) =~= msg@ + failure_lines(full.skip(i as int)),
            decreases full.len() - i,
        {
            let ghost rest = full.skip(i as int);
            proof {
                assert(rest[0] == full[i as int]);
                assert(rest.drop_first() =~= full.skip(i + 1));
                assert(full.take(i + 1) =~= full.take(i as int).push(full[i as int]));
            }
            let sat = self.expected[i].is_satisfied();
            if !sat {
                ok = false;
                let desc = self.expected[i].matcher.describe();
                let times = self.expected[i].times;
                let hits = self.expected[i].hit_count;
                push_times_error_message(&mut msg, desc.as_str(), times, hits);
                msg.append("\n");
            }
            proof {
                if ok {
                    assert(times_contains(full[i as int].times, full[i as int].hit_count as nat));
                    assert forall|j: int| 0 <= j < i + 1 implies times_contains(
                        (#[trigger] full.take(i + 1)[j]).times,
                        full.take(i + 1)[j].hit_count as nat,
                    ) by {
                        assert(full.take(i + 1)[j] == full[j]);
                        if j < i {
                            assert(full.take(i as int)[j] == full[j]);
                        }
                    }
                } else {
                    if i + 1 <= full.len() && all_satisfied(full.take(i + 1)) && !sat {
                        assert(times_contains(
                            (full.take(i + 1)[i as int]).times,
                            full.take(i + 1)[i as int].hit_count as nat,
                        ));
                    }
                    if !all_satisfied(full.take(i as int)) {
                        let w = choose|w: int|
                            0 <= w < i && !times_contains(
                                (#[trigger] full.take(i as int)[w]).times,
                                full.take(i as int)[w].hit_count as nat,
                            );
                        assert(full.take(i + 1)[w] == full.take(i as int)[w]);
                    }
                }
            }
            i += 1;
        }
        proof {
            assert(full.take(full.len() as int) =~= full);
            assert(full.skip(full.len() as int) =~= Seq::<Expectation<M>>::empty());
            assert(failure_lines(full) =~= msg@);
        }
        if self.unexpected_requests.len() > 0 {
            ok = false;
            msg.append("Received ");
            push_usize(&mut msg, self.unexpected_requests.len());
            msg.append(" unexpected requests:\n");
            let mut k: usize = 0;
            let ghost base = msg@;
            proof {
                assert(ureqs.skip(0) =~= ureqs);
            }
            while k < self.unexpected_requests.len()
                invariant
                    self.unexpected_requests@ == ureqs,
                    0 <= k <= ureqs.len(),
                    base + unexpected_lines(ureqs) =~= msg@ + unexpected_lines(
                        ureqs.skip(k as int),
                    ),
                decreases ureqs.len() - k,
            {
                let ghost rest = ureqs.skip(k as int);
                proof {
                    assert(rest[0] == ureqs[k as int]);
                    assert(rest.drop_first() =~= ureqs.skip(k + 1));
                }
                msg.append("  ");
                msg.append(self.unexpected_requests[k].method.as_str());
                msg.append(" ");
                msg.append(self.unexpected_requests[k].path.as_str());
                msg.append("\n");
                k += 1;
            }
            proof {
                assert(ureqs.skip(ureqs.len() as int) =~= Seq::<HttpRequest>::empty());
                assert(unexpected_lines(Seq::<HttpRequest>::empty()) == Seq::<char>::empty());
            }
        }
        self.expected = Vec::new();
        self.unexpected_requests = Vec::new();
        if ok {
            Ok(())
        } else {
            proof {
                assert(msg@ =~= verify_message(*old(self)));
            }
            Err(msg)
        }
    }
}

/// Whether every expectation's final hit count satisfies its bound.
pub open spec fn all_satisfied<M: Matcher<HttpRequest>>(expected: Seq<Expectation<M>>) -> bool {
    forall|i: int|
        0 <= i < expected.len() ==> times_contains(
            (#[trigger] expected[i]).times,
            expected[i].hit_count as nat,
        )
}

/// The report line for one unsatisfied expectation.
pub open spec fn expectation_failure_line<M: Matcher<HttpRequest>>(e: Expectation<M>) -> Seq<
    char,
> {
    times_error_message(e.matcher.spec_describe(), e.times, e.hit_count as nat) + "\n"@
}

/// The report lines for all unsatisfied expectations, in registration
/// order.
pub open spec fn failure_lines<M: Matcher<HttpRequest>>(expected: Seq<Expectation<M>>) -> Seq<
    char,
>
    decreases expected.len(),
{
    if expected.len() == 0 {
        Seq::empty()
    } else {
        (if !times_contains(expected[0].times, expected[0].hit_count as nat) {
            expectation_failure_line(expected[0])
        } else {
            Seq::<char>::empty()
        }) + failure_lines(expected.drop_first())
    }
}

/// The report line for one unmatched request: its method and path.
pub open spec fn unexpected_line(req: HttpRequestRepr) -> Seq<char> {
    "  "@ + req.method + " "@ + req.path + "\n"@
}

/// The report lines for all unmatched requests, in arrival order.
pub open spec fn unexpected_lines(reqs: Seq<HttpRequest>) -> Seq<char>
    decreases reqs.len(),
{
    if reqs.len() == 0 {
        Seq::empty()
    } else {
        unexpected_line(reqs[0].repr()) + unexpected_lines(reqs.drop_first())
    }
}

/// The verification report: one line for each unsatisfied expectation, then
/// the unmatched requests, if any.
pub open spec fn verify_message<M: Matcher<HttpRequest>>(s: ServerState<M>) -> Seq<char> {
    failure_lines(s.expected@) + if s.unexpected_requests@.len() > 0 {
        "Received "@ + dec_str(s.unexpected_requests@.len() as nat) + " unexpected requests:\n"@
            + unexpected_lines(s.unexpected_requests@)
    } else {
        Seq::<char>::empty()
    }
}

} // verus!
