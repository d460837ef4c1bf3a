//! What the latency middleware decides around one request: the active-connection
//! gauge goes up when the request arrives and down when its response is ready, and
//! the response is recorded once under the request's method, route and status.
//! Awaiting the handler and timing it are left to the caller.

use vstd::prelude::*;

use crate::labels::{
    canonical_numeral, decimal_value, latency_label_values, latency_label_values_spec,
    route_label, route_of, string_views,
};

verus! {

/// A step of the gauge that counts in-flight HTTP requests.
#[derive(Clone, Copy, Debug, PartialEq, Eq)]
pub enum GaugeStep {
    Increment,
    Decrement,
}

/// How a step moves the gauge.
pub open spec fn step_delta(step: GaugeStep) -> int {
    match step {
        GaugeStep::Increment => 1,
        GaugeStep::Decrement => -1,
    }
}

/// The level of the gauge after a run of steps, starting from zero.
pub open spec fn active_level(steps: Seq<GaugeStep>) -> int
    decreases steps.len(),
{
    if steps.len() == 0 {
        0
    } else {
        active_level(steps.drop_last()) + step_delta(steps.last())
    }
}

/// The step taken when a request arrives.
pub open spec fn arrival_step() -> GaugeStep {
    GaugeStep::Increment
}

/// The step taken when a request's response is ready.
pub open spec fn completion_step() -> GaugeStep {
    GaugeStep::Decrement
}

/// The step taken when a request ends without a response: the request was dropped
/// (the client went away, a timeout fired) or its handler panicked.
pub open spec fn abandonment_step() -> GaugeStep {
    GaugeStep::Decrement
}

/// A request that is being handled: what its latency will be recorded under.
pub struct InFlightRequest {
    pub method: String,
    pub route: String,
}

/// What to do when a request arrives.
pub struct RequestArrival {
    /// The step to apply to the active-connection gauge.
    pub active: GaugeStep,
    /// The request to hand back once its response is ready.
    pub request: InFlightRequest,
}

/// What to do when a request's response is ready.
pub struct RequestCompletion {
    /// The label values to observe the elapsed time under.
    pub labels: Vec<String>,
    /// The step to apply to the active-connection gauge.
    pub active: GaugeStep,
}

/// A request arrives with its method, its matched route pattern if the router
/// found one, and its URI path: count it as in flight, and remember its method and
/// route label.
pub fn request_arrived(method: &str, matched_path: Option<&str>, uri_path: &str) -> (arrival:
    RequestArrival)
    ensures
        arrival.active == arrival_step(),
        arrival.request.method@ == method@,
        arrival.request.route@ == route_of(
            match matched_path {
                Some(p) => Some(p@),
                None => None,
            },
            uri_path@,
        ),
        matched_path matches Some(pattern) ==> arrival.request.route@ == pattern@,
        matched_path is None ==> arrival.request.route@ == uri_path@,
{
    RequestArrival {
        active: GaugeStep::Increment,
        request: InFlightRequest { method: method.to_owned(), route: route_label(matched_path, uri_path) },
    }
}

/// The response of an in-flight request is ready with `status`: record it under
/// `[method, route, status]` and count the request as no longer in flight.
pub fn response_ready(request: InFlightRequest, status: u16) -> (completion: RequestCompletion)
    ensures
        completion.active == completion_step(),
        string_views(completion.labels@) == latency_label_values_spec(
            request.method@,
            request.route@,
            status,
        ),
        completion.labels@.len() == 3,
        completion.labels@[0]@ == request.method@,
        completion.labels@[1]@ == request.route@,
        canonical_numeral(completion.labels@[2]@),
        decimal_value(completion.labels@[2]@) == status,
{
    let labels = latency_label_values(request.method.as_str(), request.route.as_str(), status);
    RequestCompletion { labels, active: GaugeStep::Decrement }
}

/// A request that arrived with a method, a matched pattern (or none) and a URI path
/// and whose response is ready with a status is recorded under its method first,
/// then its matched pattern itself (or its URI path), then the canonical decimal
/// numeral of its status, for every status.
pub proof fn lemma_recorded_labels_of_request(
    method: Seq<char>,
    matched_path: Option<Seq<char>>,
    uri_path: Seq<char>,
    status: u16,
)
    ensures
        ({
            let labels = latency_label_values_spec(method, route_of(matched_path, uri_path), status);
            &&& labels.len() == 3
            &&& labels[0] == method
            &&& matched_path matches Some(pattern) ==> labels[1] == pattern
            &&& matched_path is None ==> labels[1] == uri_path
            &&& canonical_numeral(labels[2])
            &&& decimal_value(labels[2]) == status
        }),
{
    crate::labels::lemma_label_values_positions(method, route_of(matched_path, uri_path), status);
    crate::labels::lemma_route_label_is_pattern_or_path(matched_path, uri_path);
}

/// An in-flight request ends without a response: it no longer counts as in flight,
/// and no latency is recorded for it.
pub fn request_abandoned(request: InFlightRequest) -> (step: GaugeStep)
    ensures
        step == abandonment_step(),
{
    GaugeStep::Decrement
}

proof fn lemma_active_level_append(a: Seq<GaugeStep>, b: Seq<GaugeStep>)
    ensures
        active_level(a + b) == active_level(a) + active_level(b),
    decreases b.len(),
{
    if b.len() == 0 {
        assert(a + b =~= a);
    } else {
        lemma_active_level_append(a, b.drop_last());
        assert((a + b).drop_last() =~= a + b.drop_last());
        assert((a + b).last() == b.last());
    }
}

/// Once a request's response is ready, the in-flight gauge is back where it would
/// be without that request, whatever other requests arrived or finished meanwhile.
pub proof fn lemma_completed_request_leaves_no_trace(
    before: Seq<GaugeStep>,
    meanwhile: Seq<GaugeStep>,
)
    ensures
        active_level(before.push(arrival_step()) + meanwhile + seq![completion_step()])
            == active_level(before) + active_level(meanwhile),
{
    let s = before.push(arrival_step());
    lemma_active_level_append(s, meanwhile);
    lemma_active_level_append(s + meanwhile, seq![completion_step()]);
    assert(s.drop_last() =~= before);
    assert(seq![completion_step()].drop_last() =~= Seq::<GaugeStep>::empty());
    assert(active_level(Seq::<GaugeStep>::empty()) == 0);
    assert(active_level(seq![completion_step()]) == -1);
    assert(active_level(s) == active_level(before) + 1);
}

/// While a request is being handled, it counts once in the in-flight gauge.
pub proof fn lemma_in_flight_request_counts_once(before: Seq<GaugeStep>, meanwhile: Seq<GaugeStep>)
    ensures
        active_level(before.push(arrival_step()) + meanwhile) == active_level(before) + 1
            + active_level(meanwhile),
{
    let s = before.push(arrival_step());
    lemma_active_level_append(s, meanwhile);
    assert(s.drop_last() =~= before);
}

/// An abandoned request leaves the in-flight gauge where it would be without it,
/// whatever other requests arrived or finished meanwhile.
pub proof fn lemma_abandoned_request_leaves_no_trace(
    before: Seq<GaugeStep>,
    meanwhile: Seq<GaugeStep>,
)
    ensures
        active_level(before.push(arrival_step()) + meanwhile + seq![abandonment_step()])
            == active_level(before) + active_level(meanwhile),
{
    lemma_completed_request_leaves_no_trace(before, meanwhile);
}

/// What happens to one request, named by an identifier unique among the requests
/// of a run.
pub enum RequestEvent {
    /// The request arrived.
    Arrived(u64),
    /// Its response was ready.
    Completed(u64),
    /// It ended without a response (dropped, or its handler panicked).
    Abandoned(u64),
}

/// The gauge step the middleware takes for an event.
pub open spec fn event_step(event: RequestEvent) -> GaugeStep {
    match event {
        RequestEvent::Arrived(_) => arrival_step(),
        RequestEvent::Completed(_) => completion_step(),
        RequestEvent::Abandoned(_) => abandonment_step(),
    }
}

/// The gauge steps of a run of events, in order.
pub open spec fn trace_steps(trace: Seq<RequestEvent>) -> Seq<GaugeStep> {
    trace.map_values(|e: RequestEvent| event_step(e))
}

/// Whether request `id` has arrived during the run.
pub open spec fn has_arrived(trace: Seq<RequestEvent>, id: u64) -> bool
    decreases trace.len(),
{
    if trace.len() == 0 {
        false
    } else {
        has_arrived(trace.drop_last(), id) || trace.last() == RequestEvent::Arrived(id)
    }
}

/// Whether request `id` has ended (completed or abandoned) during the run.
pub open spec fn has_ended(trace: Seq<RequestEvent>, id: u64) -> bool
    decreases trace.len(),
{
    if trace.len() == 0 {
        false
    } else {
        has_ended(trace.drop_last(), id) || trace.last() == RequestEvent::Completed(id)
            || trace.last() == RequestEvent::Abandoned(id)
    }
}

/// A run that requests can produce: each request arrives once, and ends at most
/// once, after it arrived.
pub open spec fn well_formed_trace(trace: Seq<RequestEvent>) -> bool
    decreases trace.len(),
{
    if trace.len() == 0 {
        true
    } else {
        &&& well_formed_trace(trace.drop_last())
        &&& match trace.last() {
            RequestEvent::Arrived(id) => !has_arrived(trace.drop_last(), id),
            RequestEvent::Completed(id) => has_arrived(trace.drop_last(), id) && !has_ended(
                trace.drop_last(),
                id,
            ),
            RequestEvent::Abandoned(id) => has_arrived(trace.drop_last(), id) && !has_ended(
                trace.drop_last(),
                id,
            ),
        }
    }
}

/// The requests still in flight after a run: arrived and not yet ended.
pub open spec fn in_flight(trace: Seq<RequestEvent>) -> Set<u64> {
    Set::new(|id: u64| has_arrived(trace, id) && !has_ended(trace, id))
}

proof fn lemma_ended_only_after_arrival(trace: Seq<RequestEvent>, id: u64)
    requires
        well_formed_trace(trace),
        has_ended(trace, id),
    ensures
        has_arrived(trace, id),
    decreases trace.len(),
{
    if trace.len() > 0 {
        let p = trace.drop_last();
        if has_ended(p, id) {
            lemma_ended_only_after_arrival(p, id);
        }
    }
}

/// Over any run of overlapping requests, some completed and some abandoned, the
/// in-flight gauge has moved by exactly the number of requests still in flight;
/// once every request of the run has ended, it is back where it started.
pub proof fn lemma_gauge_counts_requests_in_flight(trace: Seq<RequestEvent>)
    requires
        well_formed_trace(trace),
    ensures
        in_flight(trace).finite(),
        active_level(trace_steps(trace)) == in_flight(trace).len(),
    decreases trace.len(),
{
    if trace.len() == 0 {
        assert(in_flight(trace) =~= Set::<u64>::empty());
        assert(trace_steps(trace) =~= Seq::<GaugeStep>::empty());
    } else {
        let p = trace.drop_last();
        let e = trace.last();
        lemma_gauge_counts_requests_in_flight(p);
        assert(trace_steps(trace).drop_last() =~= trace_steps(p));
        assert(trace_steps(trace).last() == event_step(e));
        match e {
            RequestEvent::Arrived(id) => {
                assert(!in_flight(p).contains(id));
                assert(in_flight(trace) =~= in_flight(p).insert(id)) by {
                    assert forall|x: u64| in_flight(trace).contains(x) implies in_flight(
                        p,
                    ).insert(id).contains(x) by {}
                    assert forall|x: u64| in_flight(p).insert(id).contains(x) implies in_flight(
                        trace,
                    ).contains(x) by {
                        if x == id && has_ended(p, x) {
                            lemma_ended_only_after_arrival(p, x);
                        }
                    }
                }
            },
            RequestEvent::Completed(id) => {
                assert(in_flight(p).contains(id));
                assert(in_flight(trace) =~= in_flight(p).remove(id));
            },
            RequestEvent::Abandoned(id) => {
                assert(in_flight(p).contains(id));
                assert(in_flight(trace) =~= in_flight(p).remove(id));
            },
        }
    }
}

} // verus!
