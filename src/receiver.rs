//! The request handler: shared dimensions are spread onto every datum, the batch
//! goes onto the bus, and a refused send becomes `resource_exhausted`. Also the
//! check of the `authorization` header against the configured keys.
use vstd::prelude::*;
use crate::bus::{ErrorCode, MetricsSendQueue};
use crate::model::{Datum, Dimension, MetricsRequest, dimension_lookup, find_entry, lemma_lookup_some, lookup, has_name, names_unique};
use crate::schema::{contains_text, texts};

verus! {

/// An entry's dimensions extended with the shared ones: a name that both carry takes
/// the shared value.
pub open spec fn extended_lookup(
    own: Seq<(String, Dimension)>,
    shared: Seq<(String, Dimension)>,
    name: Seq<char>,
) -> Option<Option<crate::model::LabelView>> {
    if has_name(shared, name) {
        dimension_lookup(shared, name)
    } else {
        dimension_lookup(own, name)
    }
}

proof fn lemma_dimension_lookup_push(e: Seq<(String, Dimension)>, x: (String, Dimension), n: Seq<char>)
    ensures
        dimension_lookup(e.push(x), n) == if x.0@ == n {
            Some(x.1@)
        } else {
            dimension_lookup(e, n)
        },
{
    assert(e.push(x).drop_last() =~= e);
}

/// Extends a datum's dimensions with the shared ones; on a name that both carry, the
/// shared value wins (as extending a map does). Unique names stay unique.
pub fn extend_dimensions(
    own: &Vec<(String, Dimension)>,
    shared: &Vec<(String, Dimension)>,
) -> (r: Vec<(String, Dimension)>)
    ensures
        forall|n: Seq<char>| #[trigger] dimension_lookup(r@, n) == extended_lookup(own@, shared@, n),
        names_unique(own@) && names_unique(shared@) ==> names_unique(r@),
{
    let mut r: Vec<(String, Dimension)> = Vec::new();
    let mut i: usize = 0;
    while i < own.len()
        invariant
            i <= own@.len(),
            forall|n: Seq<char>| #[trigger] dimension_lookup(r@, n) == if lookup(shared@, n) is Some {
                None
            } else {
                dimension_lookup(own@.subrange(0, i as int), n)
            },
            forall|k: int| 0 <= k < r@.len() ==> lookup(shared@, (#[trigger] r@[k]).0@) is None,
            forall|k: int|
                0 <= k < r@.len() ==> exists|j: int| 0 <= j < i && (#[trigger] r@[k]).0@ == own@[j].0@,
            names_unique(own@) ==> names_unique(r@),
        decreases own.len() - i,
    {
        let ghost sub = own@.subrange(0, i as int);
        assert(own@.subrange(0, i + 1) =~= sub.push(own@[i as int]));
        let ghost r0 = r@;
        if find_entry(shared, &own[i].0).is_none() {
            let entry = (own[i].0.clone(), own[i].1.duplicate());
            r.push(entry);
            assert forall|n: Seq<char>| #[trigger] dimension_lookup(r@, n) == if lookup(shared@, n) is Some {
                None
            } else {
                dimension_lookup(own@.subrange(0, i + 1), n)
            } by {
                lemma_dimension_lookup_push(r0, entry, n);
                lemma_dimension_lookup_push(sub, own@[i as int], n);
            }
            assert forall|k: int| 0 <= k < r@.len() implies exists|j: int|
                0 <= j < i + 1 && (#[trigger] r@[k]).0@ == own@[j].0@ by {
                if k < r0.len() {
                    assert(r@[k] == r0[k]);
                } else {
                    assert(r@[k].0@ == own@[i as int].0@);
                }
            }
            assert forall|k: int| 0 <= k < r@.len() implies lookup(shared@, (#[trigger] r@[k]).0@) is None by {
                if k < r0.len() {
                    assert(r@[k] == r0[k]);
                }
            }
            proof {
                if names_unique(own@) {
                    assert forall|a: int, b: int|
                        0 <= a < r@.len() && 0 <= b < r@.len() && a != b implies (#[trigger] r@[a]).0@
                            != (#[trigger] r@[b]).0@ by {
                        if a < r0.len() && b < r0.len() {
                            assert(r@[a] == r0[a] && r@[b] == r0[b]);
                        } else if a < r0.len() {
                            assert(r@[a] == r0[a]);
                            let j = choose|j: int| 0 <= j < i && (#[trigger] r0[a]).0@ == own@[j].0@;
                            assert(own@[j].0@ != own@[i as int].0@);
                        } else {
                            assert(r@[b] == r0[b]);
                            let j = choose|j: int| 0 <= j < i && (#[trigger] r0[b]).0@ == own@[j].0@;
                            assert(own@[j].0@ != own@[i as int].0@);
                        }
                    }
                }
            }
        } else {
            assert forall|n: Seq<char>| #[trigger] dimension_lookup(r@, n) == if lookup(shared@, n) is Some {
                None
            } else {
                dimension_lookup(own@.subrange(0, i + 1), n)
            } by {
                lemma_dimension_lookup_push(sub, own@[i as int], n);
            }
            assert forall|k: int| 0 <= k < r@.len() implies exists|j: int|
                0 <= j < i + 1 && (#[trigger] r@[k]).0@ == own@[j].0@ by {
                let j = choose|j: int| 0 <= j < i && (#[trigger] r@[k]).0@ == own@[j].0@;
            }
        }
        i = i + 1;
    }
    assert(own@.subrange(0, own.len() as int) =~= own@);
    let ghost mid = r@;
    let mut j: usize = 0;
    while j < shared.len()
        invariant
            j <= shared@.len(),
            r@.len() == mid.len() + j,
            forall|k: int| 0 <= k < mid.len() ==> r@[k] == mid[k],
            forall|k: int| 0 <= k < mid.len() ==> lookup(shared@, (#[trigger] mid[k]).0@) is None,
            forall|k: int|
                mid.len() <= k < r@.len() ==> (#[trigger] r@[k]).0@ == shared@[k - mid.len()].0@,
            names_unique(own@) ==> names_unique(mid),
            (names_unique(own@) && names_unique(shared@)) ==> names_unique(r@),
            forall|n: Seq<char>| #[trigger] dimension_lookup(mid, n) == if lookup(shared@, n) is Some {
                None
            } else {
                dimension_lookup(own@, n)
            },
            forall|n: Seq<char>| #[trigger] dimension_lookup(r@, n) == if lookup(
                shared@.subrange(0, j as int),
                n,
            ) is Some {
                dimension_lookup(shared@.subrange(0, j as int), n)
            } else {
                dimension_lookup(mid, n)
            },
        decreases shared.len() - j,
    {
        let ghost sub = shared@.subrange(0, j as int);
        assert(shared@.subrange(0, j + 1) =~= sub.push(shared@[j as int]));
        let ghost r0 = r@;
        let entry = (shared[j].0.clone(), shared[j].1.duplicate());
        r.push(entry);
        assert forall|n: Seq<char>| #[trigger] dimension_lookup(r@, n) == if lookup(
            shared@.subrange(0, j + 1),
            n,
        ) is Some {
            dimension_lookup(shared@.subrange(0, j + 1), n)
        } else {
            dimension_lookup(mid, n)
        } by {
            lemma_dimension_lookup_push(r0, entry, n);
            lemma_dimension_lookup_push(sub, shared@[j as int], n);
            assert(sub.push(shared@[j as int]).drop_last() =~= sub);
        }
        assert forall|k: int| mid.len() <= k < r@.len() implies (#[trigger] r@[k]).0@ == shared@[k
            - mid.len()].0@ by {
            if k < r0.len() {
                assert(r@[k] == r0[k]);
            }
        }
        proof {
            let y = shared@[j as int].0@;
            assert(has_name(shared@, y));
            lemma_lookup_some(shared@, y);
            if names_unique(own@) && names_unique(shared@) {
                assert forall|a: int, b: int|
                    0 <= a < r@.len() && 0 <= b < r@.len() && a != b implies (#[trigger] r@[a]).0@
                        != (#[trigger] r@[b]).0@ by {
                    if a < r0.len() && b < r0.len() {
                        assert(r@[a] == r0[a] && r@[b] == r0[b]);
                    } else {
                        let (x, last) = if a < r0.len() {
                            (a, b)
                        } else {
                            (b, a)
                        };
                        assert(r@[last].0@ == y);
                        if x < mid.len() {
                            assert(r@[x] == mid[x]);
                        } else {
                            assert(r@[x] == r0[x]);
                            assert(r@[x].0@ == shared@[x - mid.len()].0@);
                            assert(shared@[x - mid.len()].0@ != shared@[j as int].0@);
                        }
                    }
                }
            }
        }
        j = j + 1;
    }
    assert(shared@.subrange(0, shared.len() as int) =~= shared@);
    assert forall|n: Seq<char>| #[trigger] dimension_lookup(r@, n) == extended_lookup(
        own@,
        shared@,
        n,
    ) by {
        lemma_lookup_some(shared@, n);
    }
    r
}

/// The datums of a request, each with the shared dimensions spread onto it.
pub fn merge_shared_dimensions(request: MetricsRequest) -> (r: Vec<Datum>)
    ensures
        r@.len() == request.metrics@.len(),
        forall|i: int|
            0 <= i < r@.len() ==> {
                let d = #[trigger] r@[i];
                let o = request.metrics@[i];
                &&& d.metric == o.metric
                &&& d.unix_nanos == o.unix_nanos
                &&& d.measurements == o.measurements
                &&& forall|n: Seq<char>| #[trigger] dimension_lookup(d.dimensions@, n)
                    == extended_lookup(o.dimensions@, request.shared_dimensions@, n)
                &&& names_unique(o.dimensions@) && names_unique(request.shared_dimensions@)
                    ==> names_unique(d.dimensions@)
            },
{
    let shared = request.shared_dimensions;
    let ghost input = request.metrics@;
    let mut r: Vec<Datum> = Vec::new();
    for datum in it: request.metrics
        invariant
            it.seq() == input,
            r@.len() == it.index(),
            forall|i: int|
                0 <= i < r@.len() ==> {
                    let d = #[trigger] r@[i];
                    let o = input[i];
                    &&& d.metric == o.metric
                    &&& d.unix_nanos == o.unix_nanos
                    &&& d.measurements == o.measurements
                    &&& forall|n: Seq<char>| #[trigger] dimension_lookup(d.dimensions@, n)
                        == extended_lookup(o.dimensions@, shared@, n)
                    &&& names_unique(o.dimensions@) && names_unique(shared@) ==> names_unique(
                        d.dimensions@,
                    )
                },
    {
        let dimensions = extend_dimensions(&datum.dimensions, &shared);
        let merged = Datum {
            metric: datum.metric,
            unix_nanos: datum.unix_nanos,
            dimensions,
            measurements: datum.measurements,
        };
        r.push(merged);
    }
    r
}

/// The kinds of RPC failure.
#[derive(Debug, Clone, Copy, PartialEq, Eq, Structural)]
pub enum StatusCode {
    ResourceExhausted,
    Internal,
    Unauthenticated,
    InvalidArgument,
}

/// An RPC failure.
#[derive(Debug, Clone)]
pub struct Status {
    pub code: StatusCode,
    pub message: String,
}

/// The (empty) reply to a successful send.
#[derive(Debug, Clone, Copy, PartialEq, Eq)]
pub struct MetricsReply {}

/// The reply for the bus's answer: a refused send is `resource_exhausted`.
pub fn reply_for(queue_result: Result<String, ErrorCode>) -> (r: Result<MetricsReply, Status>)
    ensures
        r is Ok <==> queue_result is Ok,
        r is Err ==> r->Err_0.code == StatusCode::ResourceExhausted && r->Err_0.message@
            == "No space left in the send buffer"@,
{
    match queue_result {
        Ok(_) => Ok(MetricsReply {  }),
        Err(ErrorCode::QueueFull) => Err(
            Status {
                code: StatusCode::ResourceExhausted,
                message: String::from_str("No space left in the send buffer"),
            },
        ),
    }
}

/// The metrics service.
#[derive(Debug)]
pub struct GoodMetricsServer {
    pub metrics_sink: MetricsSendQueue,
}

impl GoodMetricsServer {
    /// Handles one request: spreads the shared dimensions onto each datum and puts the
    /// datums on the bus. With no subscriber the send is refused.
    pub fn send_metrics(&self, request: MetricsRequest) -> (r: Result<MetricsReply, Status>)
        ensures
            r is Err ==> r->Err_0.code == StatusCode::ResourceExhausted,
            self.metrics_sink.subscribers@.len() == 0 ==> r is Err,
    {
        let datums = merge_shared_dimensions(request);
        reply_for(self.metrics_sink.send_batch(datums))
    }
}

/// The `authorization` header of a request.
#[derive(Debug, Clone)]
pub enum AuthHeader {
    Missing,
    /// present, but not visible ASCII
    Malformed,
    Value(String),
}

/// Checks a request's header against the configured keys. With no keys every
/// request passes; otherwise the header must equal one key exactly.
pub fn authorize(keys: &Vec<String>, header: &AuthHeader) -> (r: Result<(), Status>)
    ensures
        keys@.len() == 0 ==> r is Ok,
        keys@.len() > 0 ==> match header {
            AuthHeader::Missing => r is Err && r->Err_0.code == StatusCode::Unauthenticated,
            AuthHeader::Malformed => r is Err && r->Err_0.code == StatusCode::InvalidArgument,
            AuthHeader::Value(v) => if texts(keys@).contains(v@) {
                r is Ok
            } else {
                r is Err && r->Err_0.code == StatusCode::Unauthenticated
            },
        },
{
    if keys.len() == 0 {
        return Ok(());
    }
    match header {
        AuthHeader::Missing => Err(
            Status {
                code: StatusCode::Unauthenticated,
                message: String::from_str("authorization token is required"),
            },
        ),
        AuthHeader::Malformed => Err(
            Status {
                code: StatusCode::InvalidArgument,
                message: String::from_str("authorization token is not well-formed"),
            },
        ),
        AuthHeader::Value(v) => {
            if contains_text(keys, v) {
                Ok(())
            } else {
                Err(
                    Status {
                        code: StatusCode::Unauthenticated,
                        message: String::from_str("authorization token is not allowed"),
                    },
                )
            }
        },
    }
}

} // verus!
