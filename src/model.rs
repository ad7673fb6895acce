//! The data that crosses every boundary: datums, dimensions and measurements.
//!
//! Floating-point values are carried as their IEEE-754 bit patterns
//! (`f64::to_bits` / `f32::to_bits`); this library never computes with them.
use vstd::prelude::*;

verus! {

/// The value of a dimension: a string, a signed integer or a boolean.
#[derive(Debug, Clone)]
pub enum DimensionValue {
    String(String),
    Number(i64),
    Boolean(bool),
}

/// A labelled attribute of a datum; `None` means reported but unvalued.
#[derive(Debug, Clone)]
pub struct Dimension {
    pub value: Option<DimensionValue>,
}

/// A pre-aggregated min / max / sum / count summary.
#[derive(Debug, Clone, Copy, PartialEq, Eq)]
pub struct StatisticSet {
    /// bits of an `f64`
    pub minimum: u64,
    /// bits of an `f64`
    pub maximum: u64,
    /// bits of an `f64`
    pub samplesum: u64,
    pub samplecount: u64,
}

/// A histogram keyed by bucket upper bound. A bucket counts the samples above the
/// next lower bound and up to its own bound, the bound included (as Prometheus `le`
/// buckets and OpenTelemetry explicit bounds do). A repeated bound takes its last
/// count.
#[derive(Debug, Clone)]
pub struct Histogram {
    /// `(inclusive upper bound, count)` pairs.
    pub buckets: Vec<(i64, u64)>,
}

/// One centroid of a t-digest.
#[derive(Debug, Clone, Copy, PartialEq, Eq)]
pub struct Centroid {
    /// bits of an `f64`
    pub mean: u64,
    pub weight: u64,
}

/// A t-digest summary.
#[derive(Debug, Clone)]
pub struct TDigest {
    pub count: u64,
    /// bits of an `f64`
    pub sum: u64,
    /// bits of an `f64`
    pub min: u64,
    /// bits of an `f64`
    pub max: u64,
    pub centroids: Vec<Centroid>,
}

/// The value of a measurement.
#[derive(Debug, Clone)]
pub enum MeasurementValue {
    I64(i64),
    I32(i32),
    /// bits of an `f64`
    F64(u64),
    /// bits of an `f32`
    F32(u32),
    StatisticSet(StatisticSet),
    Histogram(Histogram),
    TDigest(TDigest),
}

/// A named numeric or distribution value of a datum; `None` when unvalued.
#[derive(Debug, Clone)]
pub struct Measurement {
    pub value: Option<MeasurementValue>,
}

/// One time-stamped observation of a metric.
#[derive(Debug, Clone)]
pub struct Datum {
    pub metric: String,
    pub unix_nanos: u64,
    /// Name / value pairs; when a name repeats, the last pair is the one that counts.
    pub dimensions: Vec<(String, Dimension)>,
    /// Name / value pairs; when a name repeats, the last pair is the one that counts.
    pub measurements: Vec<(String, Measurement)>,
}

/// What a client sends: dimensions shared by every datum, and the datums.
#[derive(Debug, Clone)]
pub struct MetricsRequest {
    pub shared_dimensions: Vec<(String, Dimension)>,
    pub metrics: Vec<Datum>,
}

/// A dimension value with its text as a sequence of characters.
pub enum LabelView {
    Text(Seq<char>),
    Number(i64),
    Boolean(bool),
}

impl View for DimensionValue {
    type V = LabelView;

    open spec fn view(&self) -> LabelView {
        match self {
            DimensionValue::String(s) => LabelView::Text(s@),
            DimensionValue::Number(n) => LabelView::Number(*n),
            DimensionValue::Boolean(b) => LabelView::Boolean(*b),
        }
    }
}

impl View for Dimension {
    type V = Option<LabelView>;

    open spec fn view(&self) -> Option<LabelView> {
        match self.value {
            Some(v) => Some(v@),
            None => None,
        }
    }
}

/// The value under `name` in a list of pairs: the last pair with that name wins.
pub open spec fn lookup<V>(entries: Seq<(String, V)>, name: Seq<char>) -> Option<V>
    decreases entries.len(),
{
    if entries.len() == 0 {
        None
    } else if entries.last().0@ == name {
        Some(entries.last().1)
    } else {
        lookup(entries.drop_last(), name)
    }
}

/// Each name appears in one pair at most.
pub open spec fn names_unique<V>(entries: Seq<(String, V)>) -> bool {
    forall|i: int, j: int|
        0 <= i < entries.len() && 0 <= j < entries.len() && i != j ==> (#[trigger] entries[i]).0@
            != (#[trigger] entries[j]).0@
}

/// Whether some pair in the list carries `name`.
pub open spec fn has_name<V>(entries: Seq<(String, V)>, name: Seq<char>) -> bool {
    exists|i: int| 0 <= i < entries.len() && #[trigger] entries[i].0@ == name
}

/// A lookup finds a pair exactly when some pair carries the name.
pub proof fn lemma_lookup_some<V>(entries: Seq<(String, V)>, name: Seq<char>)
    ensures
        lookup(entries, name) is Some <==> has_name(entries, name),
    decreases entries.len(),
{
    if entries.len() > 0 {
        lemma_lookup_some(entries.drop_last(), name);
        if has_name(entries, name) && entries.last().0@ != name {
            let i = choose|i: int| 0 <= i < entries.len() && #[trigger] entries[i].0@ == name;
            assert(entries.drop_last()[i].0@ == name);
        }
        if has_name(entries.drop_last(), name) {
            let i = choose|i: int|
                0 <= i < entries.drop_last().len() && #[trigger] entries.drop_last()[i].0@ == name;
            assert(entries[i].0@ == name);
        }
    }
}

/// Looking up the view of a dimension list.
pub open spec fn dimension_lookup(entries: Seq<(String, Dimension)>, name: Seq<char>) -> Option<
    Option<LabelView>,
> {
    match lookup(entries, name) {
        Some(d) => Some(d@),
        None => None,
    }
}

impl DimensionValue {
    /// A copy with the same view.
    pub fn duplicate(&self) -> (r: DimensionValue)
        ensures
            r@ == self@,
    {
        match self {
            DimensionValue::String(s) => DimensionValue::String(s.clone()),
            DimensionValue::Number(n) => DimensionValue::Number(*n),
            DimensionValue::Boolean(b) => DimensionValue::Boolean(*b),
        }
    }
}

impl Dimension {
    /// A copy with the same view.
    pub fn duplicate(&self) -> (r: Dimension)
        ensures
            r@ == self@,
    {
        match &self.value {
            Some(v) => Dimension { value: Some(v.duplicate()) },
            None => Dimension { value: None },
        }
    }
}

/// Finds the value under `name`; the last pair with that name wins.
pub fn find_entry<'a, V>(entries: &'a Vec<(String, V)>, name: &String) -> (r: Option<&'a V>)
    ensures
        match r {
            Some(v) => lookup(entries@, name@) == Some(*v),
            None => lookup(entries@, name@) is None,
        },
{
    let mut i: usize = entries.len();
    assert(entries@.subrange(0, i as int) =~= entries@);
    while i > 0
        invariant
            i <= entries.len(),
            lookup(entries@, name@) == lookup(entries@.subrange(0, i as int), name@),
        decreases i,
    {
        let ghost sub = entries@.subrange(0, i as int);
        assert(sub.last() == entries@[i - 1]);
        if entries[i - 1].0 == *name {
            return Some(&entries[i - 1].1);
        }
        assert(sub.drop_last() =~= entries@.subrange(0, i - 1));
        i = i - 1;
    }
    None
}

} // verus!
