//! The OpenTelemetry shape of a batch: each measurement becomes one metric named
//! `<metric>_<measurement>`, with the datum's valued dimensions as attributes.
//! Integers become integer gauges, floats double gauges, statistic sets summaries
//! with the quantiles 0 and 1, histograms delta histograms; t-digests have no
//! OpenTelemetry form and are left out.
use vstd::prelude::*;
use crate::model::{Datum, Dimension, DimensionValue, Histogram, Measurement, MeasurementValue, StatisticSet, has_name};

verus! {

/// The value of an attribute; `Empty` for a dimension reported without a value
/// (an OpenTelemetry key-value whose value is absent).
#[derive(Debug, Clone)]
pub enum AttributeValue {
    String(String),
    Int(i64),
    Bool(bool),
    Empty,
}

/// One attribute of a data point.
#[derive(Debug, Clone)]
pub struct KeyValue {
    pub key: String,
    pub value: AttributeValue,
}

/// An attribute value with its text as a sequence.
pub enum AttributeView {
    String(Seq<char>),
    Int(i64),
    Bool(bool),
    Empty,
}

impl View for KeyValue {
    type V = (Seq<char>, AttributeView);

    open spec fn view(&self) -> (Seq<char>, AttributeView) {
        (
            self.key@,
            match &self.value {
                AttributeValue::String(s) => AttributeView::String(s@),
                AttributeValue::Int(i) => AttributeView::Int(*i),
                AttributeValue::Bool(b) => AttributeView::Bool(*b),
                AttributeValue::Empty => AttributeView::Empty,
            },
        )
    }
}

/// The views of a list of attributes.
pub open spec fn attributes_view(a: Seq<KeyValue>) -> Seq<(Seq<char>, AttributeView)> {
    a.map_values(|k: KeyValue| k@)
}

/// The attribute of a dimension; an unvalued one has an empty value.
pub open spec fn attribute_of(name: Seq<char>, d: Dimension) -> (Seq<char>, AttributeView) {
    match d.value {
        Some(DimensionValue::String(s)) => (name, AttributeView::String(s@)),
        Some(DimensionValue::Number(n)) => (name, AttributeView::Int(n)),
        Some(DimensionValue::Boolean(b)) => (name, AttributeView::Bool(b)),
        None => (name, AttributeView::Empty),
    }
}

/// The attributes of a datum: one per dimension name, from its last pair, in the
/// order of those last pairs (a later pair of the same name overrides, as in a row).
pub open spec fn attribute_seq(e: Seq<(String, Dimension)>) -> Seq<(Seq<char>, AttributeView)>
    decreases e.len(),
{
    if e.len() == 0 {
        Seq::empty()
    } else {
        let rest = attribute_seq(e.drop_first());
        if has_name(e.drop_first(), e[0].0@) {
            rest
        } else {
            seq![attribute_of(e[0].0@, e[0].1)] + rest
        }
    }
}

fn named_after(dimensions: &Vec<(String, Dimension)>, i: usize) -> (r: bool)
    requires
        i < dimensions@.len(),
    ensures
        r == has_name(dimensions@.skip(i + 1), dimensions@[i as int].0@),
{
    let ghost rest = dimensions@.skip(i + 1);
    let len = dimensions.len();
    let mut j: usize = i + 1;
    while j < dimensions.len()
        invariant
            i < j <= dimensions@.len(),
            rest == dimensions@.skip(i + 1),
            forall|k: int| i + 1 <= k < j ==> dimensions@[k].0@ != dimensions@[i as int].0@,
        decreases dimensions.len() - j,
    {
        if dimensions[j].0 == dimensions[i].0 {
            assert(rest[j - i - 1].0@ == dimensions@[i as int].0@);
            return true;
        }
        j = j + 1;
    }
    assert forall|k: int| 0 <= k < rest.len() implies (#[trigger] rest[k]).0@ != dimensions@[i as int].0@ by {
        assert(rest[k] == dimensions@[i + 1 + k]);
    }
    false
}

/// The attributes of a datum: each dimension name once, from its last pair.
pub fn attributes_of(dimensions: &Vec<(String, Dimension)>) -> (r: Vec<KeyValue>)
    ensures
        attributes_view(r@) == attribute_seq(dimensions@),
{
    let mut r: Vec<KeyValue> = Vec::new();
    let mut i: usize = 0;
    assert(dimensions@.skip(0) =~= dimensions@);
    assert(attributes_view(r@) =~= Seq::empty());
    while i < dimensions.len()
        invariant
            i <= dimensions@.len(),
            attribute_seq(dimensions@) == attributes_view(r@) + attribute_seq(dimensions@.skip(i as int)),
        decreases dimensions.len() - i,
    {
        let ghost e = dimensions@.skip(i as int);
        assert(e.drop_first() =~= dimensions@.skip(i + 1));
        assert(e[0] == dimensions@[i as int]);
        let ghost before = r@;
        if !named_after(dimensions, i) {
            let value = match &dimensions[i].1.value {
                Some(DimensionValue::String(s)) => AttributeValue::String(s.clone()),
                Some(DimensionValue::Number(n)) => AttributeValue::Int(*n),
                Some(DimensionValue::Boolean(b)) => AttributeValue::Bool(*b),
                None => AttributeValue::Empty,
            };
            let kv = KeyValue { key: dimensions[i].0.clone(), value };
            r.push(kv);
            assert(attributes_view(r@) =~= attributes_view(before).push(kv@));
            assert(attributes_view(before).push(kv@) + attribute_seq(dimensions@.skip(i + 1))
                =~= attributes_view(before) + (seq![kv@] + attribute_seq(dimensions@.skip(i + 1))));
        }
        i = i + 1;
    }
    assert(attribute_seq(dimensions@.skip(i as int)) =~= Seq::empty());
    assert(attributes_view(r@) + Seq::empty() =~= attributes_view(r@));
    r
}

/// A copy of a list of attributes.
pub fn copy_attributes(a: &Vec<KeyValue>) -> (r: Vec<KeyValue>)
    ensures
        attributes_view(r@) == attributes_view(a@),
{
    let mut r: Vec<KeyValue> = Vec::new();
    let mut i: usize = 0;
    while i < a.len()
        invariant
            i <= a@.len(),
            attributes_view(r@) == attributes_view(a@.subrange(0, i as int)),
        decreases a.len() - i,
    {
        let value = match &a[i].value {
            AttributeValue::String(s) => AttributeValue::String(s.clone()),
            AttributeValue::Int(n) => AttributeValue::Int(*n),
            AttributeValue::Bool(b) => AttributeValue::Bool(*b),
            AttributeValue::Empty => AttributeValue::Empty,
        };
        let kv = KeyValue { key: a[i].key.clone(), value };
        let ghost before = r@;
        r.push(kv);
        assert(attributes_view(r@) =~= attributes_view(before).push(kv@));
        assert(attributes_view(a@.subrange(0, i + 1)) =~= attributes_view(
            a@.subrange(0, i as int),
        ).push(a@[i as int]@));
        i = i + 1;
    }
    assert(a@.subrange(0, a.len() as int) =~= a@);
    r
}

/// The value of a gauge data point.
#[derive(Debug, Clone, Copy, PartialEq, Eq)]
pub enum NumberValue {
    AsInt(i64),
    /// bits of an `f64`
    AsDouble(u64),
    /// bits of an `f32`, sent as a double
    AsSingle(u32),
}

/// A gauge data point.
#[derive(Debug, Clone)]
pub struct NumberDataPoint {
    pub attributes: Vec<KeyValue>,
    pub time_unix_nano: u64,
    pub value: NumberValue,
}

/// A value at a quantile; both are bits of an `f64`.
#[derive(Debug, Clone, Copy, PartialEq, Eq)]
pub struct ValueAtQuantile {
    pub quantile: u64,
    pub value: u64,
}

/// The bits of the `f64` 0.0.
pub const QUANTILE_MIN_BITS: u64 = 0;

/// The bits of the `f64` 1.0.
pub const QUANTILE_MAX_BITS: u64 = 0x3FF0_0000_0000_0000;

/// A summary data point.
#[derive(Debug, Clone)]
pub struct SummaryDataPoint {
    pub attributes: Vec<KeyValue>,
    pub time_unix_nano: u64,
    pub count: u64,
    /// bits of an `f64`
    pub sum: u64,
    pub quantile_values: Vec<ValueAtQuantile>,
}

/// A delta histogram data point. `sum` is the exact sum of bound times count, which
/// overestimates the sum of the samples.
#[derive(Debug, Clone)]
pub struct HistogramDataPoint {
    pub attributes: Vec<KeyValue>,
    pub time_unix_nano: u64,
    pub count: u64,
    pub sum: i128,
    pub bucket_counts: Vec<u64>,
    pub explicit_bounds: Vec<i64>,
}

/// An integer gauge point.
pub fn int_data_point(i: i64, nano_time: u64, dimensions: &Vec<KeyValue>) -> (r: NumberDataPoint)
    ensures
        attributes_view(r.attributes@) == attributes_view(dimensions@),
        r.time_unix_nano == nano_time,
        r.value == NumberValue::AsInt(i),
{
    NumberDataPoint {
        attributes: copy_attributes(dimensions),
        time_unix_nano: nano_time,
        value: NumberValue::AsInt(i),
    }
}

/// A double gauge point.
pub fn float_data_point(bits: u64, nano_time: u64, dimensions: &Vec<KeyValue>) -> (r: NumberDataPoint)
    ensures
        attributes_view(r.attributes@) == attributes_view(dimensions@),
        r.time_unix_nano == nano_time,
        r.value == NumberValue::AsDouble(bits),
{
    NumberDataPoint {
        attributes: copy_attributes(dimensions),
        time_unix_nano: nano_time,
        value: NumberValue::AsDouble(bits),
    }
}

/// A summary point: count and sum of the set, its minimum at quantile 0 and its
/// maximum at quantile 1.
pub fn summary_data_point(ss: StatisticSet, nano_time: u64, dimensions: &Vec<KeyValue>) -> (r:
    SummaryDataPoint)
    ensures
        attributes_view(r.attributes@) == attributes_view(dimensions@),
        r.time_unix_nano == nano_time,
        r.count == ss.samplecount,
        r.sum == ss.samplesum,
        r.quantile_values@ == seq![
            ValueAtQuantile { quantile: QUANTILE_MIN_BITS, value: ss.minimum },
            ValueAtQuantile { quantile: QUANTILE_MAX_BITS, value: ss.maximum },
        ],
{
    let mut quantile_values: Vec<ValueAtQuantile> = Vec::new();
    quantile_values.push(ValueAtQuantile { quantile: QUANTILE_MIN_BITS, value: ss.minimum });
    quantile_values.push(ValueAtQuantile { quantile: QUANTILE_MAX_BITS, value: ss.maximum });
    assert(quantile_values@ =~= seq![
        ValueAtQuantile { quantile: QUANTILE_MIN_BITS, value: ss.minimum },
        ValueAtQuantile { quantile: QUANTILE_MAX_BITS, value: ss.maximum },
    ]);
    SummaryDataPoint {
        attributes: copy_attributes(dimensions),
        time_unix_nano: nano_time,
        count: ss.samplecount,
        sum: ss.samplesum,
        quantile_values,
    }
}

/// The buckets of a histogram as a map: a repeated bound takes its last count.
pub open spec fn bucket_map(b: Seq<(i64, u64)>) -> Map<i64, u64>
    decreases b.len(),
{
    if b.len() == 0 {
        Map::empty()
    } else {
        bucket_map(b.drop_last()).insert(b.last().0, b.last().1)
    }
}

/// Bounds in strictly increasing order.
pub open spec fn bounds_sorted(b: Seq<(i64, u64)>) -> bool {
    forall|i: int, j: int| 0 <= i < j < b.len() ==> (#[trigger] b[i]).0 < (#[trigger] b[j]).0
}

/// Whether some pair has the bound `k`.
pub open spec fn has_bound(b: Seq<(i64, u64)>, k: i64) -> bool {
    exists|i: int| 0 <= i < b.len() && (#[trigger] b[i]).0 == k
}

/// The map that a bound-sorted list of pairs stands for.
pub open spec fn pairs_map(b: Seq<(i64, u64)>) -> Map<i64, u64> {
    Map::new(
        |k: i64| has_bound(b, k),
        |k: i64| b[choose|i: int| 0 <= i < b.len() && (#[trigger] b[i]).0 == k].1,
    )
}

proof fn lemma_pairs_map_at(b: Seq<(i64, u64)>, i: int)
    requires
        bounds_sorted(b),
        0 <= i < b.len(),
    ensures
        pairs_map(b).contains_key(b[i].0),
        pairs_map(b)[b[i].0] == b[i].1,
{
    assert(has_bound(b, b[i].0));
    let c = choose|c: int| 0 <= c < b.len() && (#[trigger] b[c]).0 == b[i].0;
    if c < i {
        assert(b[c].0 < b[i].0);
    } else if i < c {
        assert(b[i].0 < b[c].0);
    }
}

fn insert_bucket(r: &mut Vec<(i64, u64)>, k: i64, v: u64)
    requires
        bounds_sorted(old(r)@),
    ensures
        bounds_sorted(final(r)@),
        pairs_map(final(r)@) == pairs_map(old(r)@).insert(k, v),
{
    let ghost r0 = r@;
    let mut p: usize = 0;
    while p < r.len() && r[p].0 < k
        invariant
            r@ == r0,
            p <= r.len(),
            forall|i: int| 0 <= i < p ==> (#[trigger] r@[i]).0 < k,
        decreases r.len() - p,
    {
        p = p + 1;
    }
    if p < r.len() && r[p].0 == k {
        r.set(p, (k, v));
        proof {
            assert forall|i: int, j: int| 0 <= i < j < r@.len() implies (#[trigger] r@[i]).0 < (
            #[trigger] r@[j]).0 by {
                assert(r@[i].0 == r0[i].0 && r@[j].0 == r0[j].0);
            }
            let m = pairs_map(r@);
            let e = pairs_map(r0).insert(k, v);
            assert forall|x: i64| m.contains_key(x) <==> e.contains_key(x) by {
                if has_bound(r@, x) {
                    let i = choose|i: int| 0 <= i < r@.len() && (#[trigger] r@[i]).0 == x;
                    assert(r0[i].0 == x);
                }
                if has_bound(r0, x) {
                    let i = choose|i: int| 0 <= i < r0.len() && (#[trigger] r0[i]).0 == x;
                    assert(r@[i].0 == x);
                }
                if x == k {
                    assert(r@[p as int].0 == x);
                }
            }
            assert forall|x: i64| m.contains_key(x) implies m[x] == e[x] by {
                let i = choose|i: int| 0 <= i < r@.len() && (#[trigger] r@[i]).0 == x;
                lemma_pairs_map_at(r@, i);
                if i != p {
                    lemma_pairs_map_at(r0, i);
                    assert(r0[i] == r@[i]);
                }
            }
            assert(m =~= e);
        }
    } else {
        assert(forall|i: int| 0 <= i < p ==> (#[trigger] r0[i]).0 < k);
        r.insert(p, (k, v));
        proof {
            assert forall|i: int, j: int| 0 <= i < j < r@.len() implies (#[trigger] r@[i]).0 < (
            #[trigger] r@[j]).0 by {
                if j < p {
                    assert(r@[i] == r0[i] && r@[j] == r0[j]);
                } else if j == p {
                    assert(r@[i] == r0[i]);
                } else if i == p {
                    assert(r@[j] == r0[j - 1]);
                    assert(r0[p as int].0 <= r0[j - 1].0);
                } else if i < p {
                    assert(r@[i] == r0[i] && r@[j] == r0[j - 1]);
                } else {
                    assert(r@[i] == r0[i - 1] && r@[j] == r0[j - 1]);
                }
            }
            let m = pairs_map(r@);
            let e = pairs_map(r0).insert(k, v);
            assert forall|x: i64| m.contains_key(x) <==> e.contains_key(x) by {
                if has_bound(r@, x) {
                    let i = choose|i: int| 0 <= i < r@.len() && (#[trigger] r@[i]).0 == x;
                    if i < p {
                        assert(r0[i] == r@[i]);
                    } else if i > p {
                        assert(r0[i - 1] == r@[i]);
                    }
                }
                if has_bound(r0, x) {
                    let i = choose|i: int| 0 <= i < r0.len() && (#[trigger] r0[i]).0 == x;
                    if i < p {
                        assert(r@[i] == r0[i]);
                    } else {
                        assert(r@[i + 1] == r0[i]);
                    }
                }
                if x == k {
                    assert(r@[p as int].0 == x);
                }
            }
            assert forall|x: i64| m.contains_key(x) implies m[x] == e[x] by {
                let i = choose|i: int| 0 <= i < r@.len() && (#[trigger] r@[i]).0 == x;
                lemma_pairs_map_at(r@, i);
                if i < p {
                    lemma_pairs_map_at(r0, i);
                    assert(r0[i] == r@[i]);
                } else if i > p {
                    lemma_pairs_map_at(r0, i - 1);
                    assert(r0[i - 1] == r@[i]);
                }
            }
            assert(m =~= e);
        }
    }
}

/// The buckets of a histogram in increasing bound order, each bound once.
pub fn sorted_buckets(buckets: &Vec<(i64, u64)>) -> (r: Vec<(i64, u64)>)
    ensures
        bounds_sorted(r@),
        pairs_map(r@) == bucket_map(buckets@),
{
    let mut r: Vec<(i64, u64)> = Vec::new();
    let mut i: usize = 0;
    assert(pairs_map(r@) =~= Map::<i64, u64>::empty());
    while i < buckets.len()
        invariant
            i <= buckets@.len(),
            bounds_sorted(r@),
            pairs_map(r@) == bucket_map(buckets@.subrange(0, i as int)),
        decreases buckets.len() - i,
    {
        assert(buckets@.subrange(0, i + 1).drop_last() =~= buckets@.subrange(0, i as int));
        insert_bucket(&mut r, buckets[i].0, buckets[i].1);
        i = i + 1;
    }
    assert(buckets@.subrange(0, buckets.len() as int) =~= buckets@);
    r
}

/// The sum of the counts.
pub open spec fn count_sum(b: Seq<(i64, u64)>) -> int
    decreases b.len(),
{
    if b.len() == 0 {
        0
    } else {
        count_sum(b.drop_last()) + b.last().1
    }
}

/// The sum of bound times count, taken in order, each running sum clamped to the
/// range of an `i128`.
pub open spec fn clamped_weighted_sum(b: Seq<(i64, u64)>) -> int
    decreases b.len(),
{
    if b.len() == 0 {
        0
    } else {
        clamp_i128(clamped_weighted_sum(b.drop_last()) + b.last().0 * b.last().1)
    }
}

/// A value clamped to the range of an `i128`.
pub open spec fn clamp_i128(x: int) -> int {
    if x > i128::MAX {
        i128::MAX as int
    } else if x < i128::MIN {
        i128::MIN as int
    } else {
        x
    }
}

/// The total count, or `u64::MAX` when it does not fit.
pub open spec fn clamped_count(b: Seq<(i64, u64)>) -> int {
    if count_sum(b) <= u64::MAX {
        count_sum(b)
    } else {
        u64::MAX as int
    }
}

proof fn lemma_count_sum_nonneg(b: Seq<(i64, u64)>)
    ensures
        count_sum(b) >= 0,
    decreases b.len(),
{
    if b.len() > 0 {
        lemma_count_sum_nonneg(b.drop_last());
    }
}

/// The histogram point of a sorted, bound-unique bucket list. The count saturates
/// at `u64::MAX` and the sum at the range of an `i128`.
pub fn histogram_point_of_sorted(
    sorted: &Vec<(i64, u64)>,
    nano_time: u64,
    dimensions: &Vec<KeyValue>,
) -> (p: HistogramDataPoint)
    ensures
        attributes_view(p.attributes@) == attributes_view(dimensions@),
        p.time_unix_nano == nano_time,
        p.count == clamped_count(sorted@),
        p.sum == clamped_weighted_sum(sorted@),
        p.bucket_counts@ == sorted@.map_values(|b: (i64, u64)| b.1),
        p.explicit_bounds@ == sorted@.map_values(|b: (i64, u64)| b.0),
{
    let mut count: u64 = 0;
    let mut sum: i128 = 0;
    let mut counts: Vec<u64> = Vec::new();
    let mut bounds: Vec<i64> = Vec::new();
    let mut i: usize = 0;
    assert(sorted@.subrange(0, 0) =~= Seq::<(i64, u64)>::empty());
    while i < sorted.len()
        invariant
            i <= sorted@.len(),
            count == clamped_count(sorted@.subrange(0, i as int)),
            sum == clamped_weighted_sum(sorted@.subrange(0, i as int)),
            counts@ == sorted@.subrange(0, i as int).map_values(|b: (i64, u64)| b.1),
            bounds@ == sorted@.subrange(0, i as int).map_values(|b: (i64, u64)| b.0),
        decreases sorted.len() - i,
    {
        let (bound, c) = sorted[i];
        let ghost prev = sorted@.subrange(0, i as int);
        let ghost next = sorted@.subrange(0, i + 1);
        assert(next.drop_last() =~= prev);
        assert(next.last() == (bound, c));
        proof {
            lemma_count_sum_nonneg(prev);
        }
        assert(-0x8000_0000_0000_0000 <= bound as int <= 0x7fff_ffff_ffff_ffff);
        assert((bound as int) * (c as int) <= 0x7fff_ffff_ffff_ffff * 0xffff_ffff_ffff_ffff) by (nonlinear_arith)
            requires
                bound as int <= 0x7fff_ffff_ffff_ffff,
                0 <= c as int <= 0xffff_ffff_ffff_ffff,
        ;
        assert((bound as int) * (c as int) >= -0x8000_0000_0000_0000 * 0xffff_ffff_ffff_ffff) by (nonlinear_arith)
            requires
                bound as int >= -0x8000_0000_0000_0000,
                0 <= c as int <= 0xffff_ffff_ffff_ffff,
        ;
        let product: i128 = (bound as i128) * (c as i128);
        count = count.saturating_add(c);
        sum = if product > 0 && sum > i128::MAX - product {
            i128::MAX
        } else if product < 0 && sum < i128::MIN - product {
            i128::MIN
        } else {
            sum + product
        };
        counts.push(c);
        bounds.push(bound);
        assert(counts@ =~= next.map_values(|b: (i64, u64)| b.1));
        assert(bounds@ =~= next.map_values(|b: (i64, u64)| b.0));
        i = i + 1;
    }
    assert(sorted@.subrange(0, sorted.len() as int) =~= sorted@);
    HistogramDataPoint {
        attributes: copy_attributes(dimensions),
        time_unix_nano: nano_time,
        count,
        sum,
        bucket_counts: counts,
        explicit_bounds: bounds,
    }
}

/// Bounds and counts paired up.
pub open spec fn zip_buckets(bounds: Seq<i64>, counts: Seq<u64>) -> Seq<(i64, u64)> {
    Seq::new(bounds.len(), |i: int| (bounds[i], counts[i]))
}

/// The histogram point of a histogram: buckets in increasing bound order (a repeated
/// bound takes its last count), the total count and the sum of bound times count,
/// both saturating.
pub fn histogram_data_point(h: &Histogram, nano_time: u64, dimensions: &Vec<KeyValue>) -> (p:
    HistogramDataPoint)
    ensures
        attributes_view(p.attributes@) == attributes_view(dimensions@),
        p.time_unix_nano == nano_time,
        histogram_point_ok(p, *h),
{
    let sorted = sorted_buckets(&h.buckets);
    let p = histogram_point_of_sorted(&sorted, nano_time, dimensions);
    proof {
        let m = bucket_map(h.buckets@);
        assert forall|k: i64| m.contains_key(k) <==> p.explicit_bounds@.contains(k) by {
            if m.contains_key(k) {
                let i = choose|i: int| 0 <= i < sorted@.len() && (#[trigger] sorted@[i]).0 == k;
                assert(p.explicit_bounds@[i] == k);
            }
            if p.explicit_bounds@.contains(k) {
                let i = choose|i: int| 0 <= i < p.explicit_bounds@.len() && p.explicit_bounds@[i] == k;
                assert(sorted@[i].0 == k);
                assert(has_bound(sorted@, k));
            }
        }
        assert forall|i: int| 0 <= i < p.bucket_counts@.len() implies p.bucket_counts@[i] == m[p.explicit_bounds@[i]] by {
            lemma_pairs_map_at(sorted@, i);
        }
        assert forall|i: int, j: int| 0 <= i < j < p.explicit_bounds@.len() implies p.explicit_bounds@[i]
            < p.explicit_bounds@[j] by {
            assert(sorted@[i].0 < sorted@[j].0);
        }
        assert(zip_buckets(p.explicit_bounds@, p.bucket_counts@) =~= sorted@);
    }
    p
}

/// The data of a metric: one data point of its shape.
#[derive(Debug, Clone)]
pub enum MetricData {
    Gauge(NumberDataPoint),
    Summary(SummaryDataPoint),
    /// with delta temporality
    Histogram(HistogramDataPoint),
}

/// One OpenTelemetry metric.
#[derive(Debug, Clone)]
pub struct Metric {
    pub name: String,
    pub description: String,
    pub unit: String,
    pub data: MetricData,
}

/// The name of the metric of a measurement: `<metric>_<measurement>`.
pub open spec fn metric_name(metric: Seq<char>, measurement: Seq<char>) -> Seq<char> {
    metric + "_"@ + measurement
}

/// What `histogram_data_point` promises of a point made from a histogram.
pub open spec fn histogram_point_ok(p: HistogramDataPoint, h: Histogram) -> bool {
    &&& p.explicit_bounds@.len() == p.bucket_counts@.len()
    &&& forall|i: int, j: int|
        0 <= i < j < p.explicit_bounds@.len() ==> p.explicit_bounds@[i] < p.explicit_bounds@[j]
    &&& forall|k: i64| bucket_map(h.buckets@).contains_key(k) <==> p.explicit_bounds@.contains(k)
    &&& forall|i: int|
        0 <= i < p.bucket_counts@.len() ==> p.bucket_counts@[i] == bucket_map(
            h.buckets@,
        )[p.explicit_bounds@[i]]
    &&& p.count == clamped_count(zip_buckets(p.explicit_bounds@, p.bucket_counts@))
    &&& p.sum == clamped_weighted_sum(zip_buckets(p.explicit_bounds@, p.bucket_counts@))
}

/// Whether a measurement has an OpenTelemetry form: it is valued and not a t-digest.
pub open spec fn convertible(m: Measurement) -> bool {
    match m.value {
        None => false,
        Some(MeasurementValue::TDigest(_)) => false,
        Some(_) => true,
    }
}

/// `out` is the metric of the measurement `(name, m)` of the datum `d`.
pub open spec fn metric_of(out: Metric, d: Datum, name: Seq<char>, m: Measurement) -> bool {
    let attrs = attribute_seq(d.dimensions@);
    &&& out.name@ == metric_name(d.metric@, name)
    &&& out.description@ == "goodmetrics compatibility conversion"@
    &&& out.unit@ == "1"@
    &&& match (m.value, out.data) {
        (Some(MeasurementValue::I64(i)), MetricData::Gauge(p)) => attributes_view(p.attributes@)
            == attrs && p.time_unix_nano == d.unix_nanos && p.value == NumberValue::AsInt(i),
        (Some(MeasurementValue::I32(i)), MetricData::Gauge(p)) => attributes_view(p.attributes@)
            == attrs && p.time_unix_nano == d.unix_nanos && p.value == NumberValue::AsInt(
            i as i64,
        ),
        (Some(MeasurementValue::F64(b)), MetricData::Gauge(p)) => attributes_view(p.attributes@)
            == attrs && p.time_unix_nano == d.unix_nanos && p.value == NumberValue::AsDouble(b),
        (Some(MeasurementValue::F32(b)), MetricData::Gauge(p)) => attributes_view(p.attributes@)
            == attrs && p.time_unix_nano == d.unix_nanos && p.value == NumberValue::AsSingle(b),
        (Some(MeasurementValue::StatisticSet(ss)), MetricData::Summary(p)) => attributes_view(
            p.attributes@,
        ) == attrs && p.time_unix_nano == d.unix_nanos && p.count == ss.samplecount && p.sum
            == ss.samplesum && p.quantile_values@ == seq![
            ValueAtQuantile { quantile: QUANTILE_MIN_BITS, value: ss.minimum },
            ValueAtQuantile { quantile: QUANTILE_MAX_BITS, value: ss.maximum },
        ],
        (Some(MeasurementValue::Histogram(h)), MetricData::Histogram(p)) => attributes_view(
            p.attributes@,
        ) == attrs && p.time_unix_nano == d.unix_nanos && histogram_point_ok(p, h),
        _ => false,
    }
}

/// Relates the metrics of a datum to its measurements: `src` picks, in order, the
/// measurements that produced them.
pub open spec fn metrics_of_datum(out: Seq<Metric>, d: Datum, src: Seq<int>) -> bool {
    let e = d.measurements@;
    &&& out.len() == src.len()
    &&& forall|k: int| 0 <= k < src.len() ==> 0 <= #[trigger] src[k] < e.len()
    &&& forall|k: int, l: int| 0 <= k < l < src.len() ==> #[trigger] src[k] < #[trigger] src[l]
    &&& forall|k: int| 0 <= k < src.len() ==> metric_of(#[trigger] out[k], d, e[src[k]].0@, e[src[k]].1)
    &&& forall|i: int| 0 <= i < e.len() ==> (convertible(#[trigger] e[i].1) <==> src.contains(i))
}

/// `out` are the metrics of the datum `d`, one per convertible measurement, in order.
pub open spec fn datum_converted(out: Seq<Metric>, d: Datum) -> bool {
    exists|src: Seq<int>| metrics_of_datum(out, d, src)
}

/// The metrics of one datum, one per convertible measurement, in measurement order.
pub fn datum_metrics(datum: &Datum) -> (r: Vec<Metric>)
    ensures
        datum_converted(r@, *datum),
{
    let attributes = attributes_of(&datum.dimensions);
    let e = &datum.measurements;
    let mut r: Vec<Metric> = Vec::new();
    let ghost mut src: Seq<int> = Seq::empty();
    let mut i: usize = 0;
    while i < e.len()
        invariant
            i <= e@.len(),
            e == &datum.measurements,
            attributes_view(attributes@) == attribute_seq(datum.dimensions@),
            r@.len() == src.len(),
            forall|k: int| 0 <= k < src.len() ==> 0 <= #[trigger] src[k] < i,
            forall|k: int, l: int| 0 <= k < l < src.len() ==> #[trigger] src[k] < #[trigger] src[l],
            forall|k: int| 0 <= k < src.len() ==> metric_of(#[trigger] r@[k], *datum, e@[src[k]].0@, e@[src[k]].1),
            forall|x: int| 0 <= x < i ==> (convertible(#[trigger] e@[x].1) <==> src.contains(x)),
        decreases e.len() - i,
    {
        let t = datum.unix_nanos;
        let data: Option<MetricData> = match &e[i].1.value {
            None => None,
            Some(MeasurementValue::I64(v)) => Some(MetricData::Gauge(int_data_point(*v, t, &attributes))),
            Some(MeasurementValue::I32(v)) => Some(MetricData::Gauge(int_data_point(*v as i64, t, &attributes))),
            Some(MeasurementValue::F64(b)) => Some(MetricData::Gauge(float_data_point(*b, t, &attributes))),
            Some(MeasurementValue::F32(b)) => Some(MetricData::Gauge(NumberDataPoint {
                attributes: copy_attributes(&attributes),
                time_unix_nano: t,
                value: NumberValue::AsSingle(*b),
            })),
            Some(MeasurementValue::StatisticSet(ss)) => Some(MetricData::Summary(summary_data_point(*ss, t, &attributes))),
            Some(MeasurementValue::Histogram(h)) => Some(MetricData::Histogram(histogram_data_point(h, t, &attributes))),
            Some(MeasurementValue::TDigest(_)) => None,
        };
        let ghost old_src = src;
        match data {
            Some(data) => {
                let mut name = datum.metric.clone();
                name.append("_");
                name.append(e[i].0.as_str());
                let metric = Metric {
                    name,
                    description: String::from_str("goodmetrics compatibility conversion"),
                    unit: String::from_str("1"),
                    data,
                };
                assert(metric_of(metric, *datum, e@[i as int].0@, e@[i as int].1));
                let ghost r_before = r@;
                r.push(metric);
                proof {
                    src = src.push(i as int);
                    assert forall|x: int| 0 <= x < i + 1 implies (convertible(#[trigger] e@[x].1) <==> src.contains(x)) by {
                        if x < i {
                            if old_src.contains(x) {
                                let k = choose|k: int| 0 <= k < old_src.len() && old_src[k] == x;
                                assert(src[k] == x);
                            }
                            if src.contains(x) {
                                let k = choose|k: int| 0 <= k < src.len() && src[k] == x;
                                assert(k < old_src.len());
                                assert(old_src[k] == x);
                            }
                        } else {
                            assert(src[old_src.len() as int] == x);
                        }
                    }
                    assert forall|k: int| 0 <= k < src.len() implies metric_of(#[trigger] r@[k], *datum, e@[src[k]].0@, e@[src[k]].1) by {
                        if k < old_src.len() {
                            assert(r@[k] == r_before[k]);
                            assert(src[k] == old_src[k]);
                        }
                    }
                }
            },
            None => {
                proof {
                    assert forall|x: int| 0 <= x < i + 1 implies (convertible(#[trigger] e@[x].1) <==> src.contains(x)) by {
                        if x == i {
                            assert(!convertible(e@[x].1));
                        }
                    }
                }
            },
        }
        i = i + 1;
    }
    assert(metrics_of_datum(r@, *datum, src));
    r
}

/// Sequences joined in order.
pub open spec fn concat_all(parts: Seq<Seq<Metric>>) -> Seq<Metric>
    decreases parts.len(),
{
    if parts.len() == 0 {
        Seq::empty()
    } else {
        concat_all(parts.drop_last()) + parts.last()
    }
}

/// The metrics of a batch: those of each datum, datum after datum.
pub fn batch_metrics(batch: &Vec<Datum>) -> (r: Vec<Metric>)
    ensures
        exists|parts: Seq<Seq<Metric>>|
            {
                &&& parts.len() == batch@.len()
                &&& r@ == concat_all(parts)
                &&& forall|i: int| 0 <= i < parts.len() ==> datum_converted(#[trigger] parts[i], batch@[i])
            },
{
    let mut r: Vec<Metric> = Vec::new();
    let ghost mut parts: Seq<Seq<Metric>> = Seq::empty();
    let mut i: usize = 0;
    while i < batch.len()
        invariant
            i <= batch@.len(),
            parts.len() == i,
            r@ == concat_all(parts),
            forall|k: int| 0 <= k < parts.len() ==> datum_converted(#[trigger] parts[k], batch@[k]),
        decreases batch.len() - i,
    {
        let mut part = datum_metrics(&batch[i]);
        let ghost old_parts = parts;
        let ghost pv = part@;
        r.append(&mut part);
        proof {
            parts = parts.push(pv);
            assert(parts.drop_last() =~= old_parts);
            assert forall|k: int| 0 <= k < parts.len() implies datum_converted(#[trigger] parts[k], batch@[k]) by {
                if k < old_parts.len() {
                    assert(parts[k] == old_parts[k]);
                }
            }
        }
        i = i + 1;
    }
    assert(parts.len() == batch@.len() && r@ == concat_all(parts));
    r
}

/// The name of the instrumentation library that tags every export.
pub open spec fn library_name() -> Seq<char> {
    "goodmetrics"@
}

/// The version of the instrumentation library that tags every export.
pub open spec fn library_version() -> Seq<char> {
    "42"@
}

/// One export of a batch: a single resource with a single instrumentation library,
/// holding the batch's metrics.
#[derive(Debug, Clone)]
pub struct ExportRequest {
    pub library_name: String,
    pub library_version: String,
    pub metrics: Vec<Metric>,
}

/// The export request of a batch, tagged `goodmetrics` / `42`.
pub fn export_request(batch: &Vec<Datum>) -> (r: ExportRequest)
    ensures
        r.library_name@ == library_name(),
        r.library_version@ == library_version(),
        exists|parts: Seq<Seq<Metric>>|
            {
                &&& parts.len() == batch@.len()
                &&& r.metrics@ == concat_all(parts)
                &&& forall|i: int| 0 <= i < parts.len() ==> datum_converted(#[trigger] parts[i], batch@[i])
            },
{
    ExportRequest {
        library_name: String::from_str("goodmetrics"),
        library_version: String::from_str("42"),
        metrics: batch_metrics(batch),
    }
}

/// The time of a metric's data point.
pub open spec fn point_time(data: MetricData) -> u64 {
    match data {
        MetricData::Gauge(p) => p.time_unix_nano,
        MetricData::Summary(p) => p.time_unix_nano,
        MetricData::Histogram(p) => p.time_unix_nano,
    }
}

/// The attributes of a metric's data point.
pub open spec fn point_attributes(data: MetricData) -> Seq<(Seq<char>, AttributeView)> {
    match data {
        MetricData::Gauge(p) => attributes_view(p.attributes@),
        MetricData::Summary(p) => attributes_view(p.attributes@),
        MetricData::Histogram(p) => attributes_view(p.attributes@),
    }
}

/// The keys of a list of attributes.
pub open spec fn attribute_keys(a: Seq<(Seq<char>, AttributeView)>) -> Set<Seq<char>> {
    Set::new(|k: Seq<char>| exists|j: int| 0 <= j < a.len() && (#[trigger] a[j]).0 == k)
}

/// The names of all dimensions.
pub open spec fn dimension_names(e: Seq<(String, Dimension)>) -> Set<Seq<char>> {
    Set::new(|n: Seq<char>| exists|i: int| 0 <= i < e.len() && (#[trigger] e[i]).0@ == n)
}

proof fn lemma_attribute_keys(e: Seq<(String, Dimension)>)
    ensures
        attribute_keys(attribute_seq(e)) == dimension_names(e),
    decreases e.len(),
{
    if e.len() == 0 {
        assert(attribute_keys(attribute_seq(e)) =~= dimension_names(e));
    } else {
        let t = e.drop_first();
        lemma_attribute_keys(t);
        let a = attribute_seq(e);
        let at = attribute_seq(t);
        assert forall|k: Seq<char>| dimension_names(e).contains(k) <==> (k == e[0].0@
            || dimension_names(t).contains(k)) by {
            if dimension_names(e).contains(k) {
                let i = choose|i: int| 0 <= i < e.len() && (#[trigger] e[i]).0@ == k;
                if i > 0 {
                    assert(t[i - 1] == e[i]);
                }
            }
            if dimension_names(t).contains(k) {
                let i = choose|i: int| 0 <= i < t.len() && (#[trigger] t[i]).0@ == k;
                assert(e[i + 1] == t[i]);
            }
            if k == e[0].0@ {
                assert(e[0].0@ == k);
            }
        }
        if has_name(t, e[0].0@) {
            assert(a == at);
            assert(dimension_names(t).contains(e[0].0@));
        } else {
            let x = attribute_of(e[0].0@, e[0].1);
            assert(a == seq![x] + at);
            assert forall|k: Seq<char>| attribute_keys(a).contains(k) <==> (k == e[0].0@
                || attribute_keys(at).contains(k)) by {
                if attribute_keys(a).contains(k) {
                    let j = choose|j: int| 0 <= j < a.len() && (#[trigger] a[j]).0 == k;
                    if j > 0 {
                        assert(a[j] == at[j - 1]);
                    }
                }
                if attribute_keys(at).contains(k) {
                    let j = choose|j: int| 0 <= j < at.len() && (#[trigger] at[j]).0 == k;
                    assert(a[j + 1] == at[j]);
                }
                if k == e[0].0@ {
                    assert(a[0].0 == k);
                }
            }
        }
        assert(attribute_keys(a) =~= dimension_names(e));
    }
}

/// The OpenTelemetry form keeps the datum's time exactly, and its attribute keys are
/// exactly the datum's dimension names, valued or not.
pub proof fn lemma_otlp_keeps_time_and_keys(out: Metric, d: Datum, name: Seq<char>, m: Measurement)
    requires
        metric_of(out, d, name, m),
    ensures
        point_time(out.data) == d.unix_nanos,
        attribute_keys(point_attributes(out.data)) == dimension_names(d.dimensions@),
{
    lemma_attribute_keys(d.dimensions@);
}

} // verus!
