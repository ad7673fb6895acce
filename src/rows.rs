//! The cells of one CSV row of a COPY: `time`, then one cell per dimension column,
//! then one per measurement column, in the order of the column lists.
use vstd::prelude::*;
use crate::model::{Centroid, Datum, Dimension, DimensionValue, Histogram, Measurement, MeasurementValue, StatisticSet, TDigest, find_entry, lookup};
use crate::order::text_lt;
use crate::schema::SqlType;
use crate::text::{i32_text, i64_text, int_text, rfc3339_of, rfc3339_text, u64_text};

verus! {

/// One cell of a row. Floating-point values stay as bit patterns: the caller
/// writes them out.
#[derive(Debug, Clone)]
pub enum Cell {
    /// SQL NULL: an empty CSV field.
    Null,
    Text(String),
    /// bits of an `f64`
    Float64(u64),
    /// bits of an `f32`
    Float32(u32),
    /// a `statistic_set` literal, to be written with `statistic_set_literal`
    Statistics(StatisticSet),
    /// a `tdigest` literal, to be written with `tdigest_literal`
    Digest(TDigest),
}

/// A t-digest with its centroids as a sequence.
pub struct DigestView {
    pub count: u64,
    pub sum: u64,
    pub min: u64,
    pub max: u64,
    pub centroids: Seq<Centroid>,
}

/// What a cell holds.
pub enum CellView {
    Null,
    Text(Seq<char>),
    Float64(u64),
    Float32(u32),
    Statistics(StatisticSet),
    Digest(DigestView),
}

impl View for TDigest {
    type V = DigestView;

    open spec fn view(&self) -> DigestView {
        DigestView {
            count: self.count,
            sum: self.sum,
            min: self.min,
            max: self.max,
            centroids: self.centroids@,
        }
    }
}

impl View for Cell {
    type V = CellView;

    open spec fn view(&self) -> CellView {
        match self {
            Cell::Null => CellView::Null,
            Cell::Text(s) => CellView::Text(s@),
            Cell::Float64(b) => CellView::Float64(*b),
            Cell::Float32(b) => CellView::Float32(*b),
            Cell::Statistics(s) => CellView::Statistics(*s),
            Cell::Digest(t) => CellView::Digest(t@),
        }
    }
}

impl TDigest {
    /// A copy with the same view.
    pub fn duplicate(&self) -> (r: TDigest)
        ensures
            r@ == self@,
    {
        let mut centroids: Vec<Centroid> = Vec::new();
        let mut i: usize = 0;
        while i < self.centroids.len()
            invariant
                i <= self.centroids@.len(),
                centroids@ == self.centroids@.subrange(0, i as int),
            decreases self.centroids.len() - i,
        {
            centroids.push(self.centroids[i]);
            assert(centroids@ =~= self.centroids@.subrange(0, i + 1));
            i = i + 1;
        }
        assert(self.centroids@.subrange(0, self.centroids.len() as int) =~= self.centroids@);
        TDigest { count: self.count, sum: self.sum, min: self.min, max: self.max, centroids }
    }
}

/// The JSON object text of a histogram, as serde_json writes a map from the
/// decimal text of each bucket bound to its count.
pub uninterp spec fn histogram_json_of(buckets: Seq<(i64, u64)>) -> Seq<char>;

/// The buckets keyed by the decimal text of their bound; a repeated bound takes its
/// last count.
pub open spec fn bucket_key_map(b: Seq<(i64, u64)>) -> Map<Seq<char>, u64>
    decreases b.len(),
{
    if b.len() == 0 {
        Map::empty()
    } else {
        bucket_key_map(b.drop_last()).insert(int_text(b.last().0 as int), b.last().1)
    }
}

/// `"key":count` members joined by commas.
pub open spec fn json_members(s: Seq<(Seq<char>, u64)>) -> Seq<char>
    decreases s.len(),
{
    if s.len() == 0 {
        Seq::empty()
    } else {
        let last = "\""@ + s.last().0 + "\":"@ + int_text(s.last().1 as int);
        if s.len() == 1 {
            last
        } else {
            json_members(s.drop_last()) + ","@ + last
        }
    }
}

/// `s` lists the map `m` with its keys in increasing string order.
pub open spec fn lists_map_in_order(s: Seq<(Seq<char>, u64)>, m: Map<Seq<char>, u64>) -> bool {
    &&& forall|i: int, j: int| 0 <= i < j < s.len() ==> text_lt(#[trigger] s[i].0, #[trigger] s[j].0)
    &&& forall|k: Seq<char>| m.contains_key(k) <==> exists|i: int| 0 <= i < s.len() && (#[trigger] s[i]).0 == k
    &&& forall|i: int| 0 <= i < s.len() ==> m[(#[trigger] s[i]).0] == s[i].1
}

/// The JSON object of a histogram: `{"bound":count,...}`, bounds as decimal text in
/// string order, each once with its last count.
pub open spec fn histogram_json_text(b: Seq<(i64, u64)>, r: Seq<char>) -> bool {
    exists|s: Seq<(Seq<char>, u64)>|
        lists_map_in_order(s, bucket_key_map(b)) && r == "{"@ + json_members(s) + "}"@
}

/// Relies on `serde_json::Value::to_string` of an object built from the buckets. The
/// object's map is a `BTreeMap` (the `preserve_order` feature is off), so a repeated
/// key keeps its last value and keys come out in string (byte, hence code point)
/// order; keys are decimal texts, which need no escaping, and counts are written in
/// decimal, with no spaces. The text depends on the buckets alone.
#[verifier::external_body]
pub(crate) fn histogram_json(buckets: &Vec<(i64, u64)>) -> (r: String)
    ensures
        r@ == histogram_json_of(buckets@),
        histogram_json_text(buckets@, r@),
{
    serde_json::Value::Object(
        buckets.iter().map(|(k, v)| (k.to_string(), serde_json::Value::from(*v))).collect(),
    ).to_string()
}

/// The JSON text that a histogram column holds: an object from each bucket bound's
/// decimal text to its count.
pub fn to_jsonmap(histogram: &Histogram) -> (r: String)
    ensures
        r@ == histogram_json_of(histogram.buckets@),
        histogram_json_text(histogram.buckets@, r@),
{
    histogram_json(&histogram.buckets)
}

/// The cell of a dimension column for the value found under its name, if any.
pub open spec fn dimension_cell(d: Option<Dimension>) -> CellView {
    match d {
        None => CellView::Null,
        Some(dim) => match dim.value {
            None => CellView::Null,
            Some(DimensionValue::String(s)) => CellView::Text(s@),
            Some(DimensionValue::Number(n)) => CellView::Text(int_text(n as int)),
            Some(DimensionValue::Boolean(b)) => CellView::Text(
                if b {
                    "true"@
                } else {
                    "false"@
                },
            ),
        },
    }
}

/// The cell of a measurement column for the value found under its name, if any.
pub open spec fn measurement_cell(m: Option<Measurement>) -> CellView {
    match m {
        None => CellView::Null,
        Some(meas) => match meas.value {
            None => CellView::Null,
            Some(MeasurementValue::I64(i)) => CellView::Text(int_text(i as int)),
            Some(MeasurementValue::I32(i)) => CellView::Text(int_text(i as int)),
            Some(MeasurementValue::F64(b)) => CellView::Float64(b),
            Some(MeasurementValue::F32(b)) => CellView::Float32(b),
            Some(MeasurementValue::StatisticSet(s)) => CellView::Statistics(s),
            Some(MeasurementValue::Histogram(h)) => CellView::Text(histogram_json_of(h.buckets@)),
            Some(MeasurementValue::TDigest(t)) => CellView::Digest(t@),
        },
    }
}

/// The row of a datum under the given columns.
pub open spec fn row_view(
    d: Datum,
    dims: Seq<(String, Option<SqlType>)>,
    meas: Seq<(String, Option<SqlType>)>,
) -> Seq<CellView> {
    seq![CellView::Text(rfc3339_of(d.unix_nanos))] + Seq::new(
        dims.len(),
        |i: int| dimension_cell(lookup(d.dimensions@, dims[i].0@)),
    ) + Seq::new(meas.len(), |j: int| measurement_cell(lookup(d.measurements@, meas[j].0@)))
}

/// The views of a list of cells.
pub open spec fn cells_view(cells: Seq<Cell>) -> Seq<CellView> {
    cells.map_values(|c: Cell| c@)
}

fn dimension_value_cell(d: Option<&Dimension>) -> (r: Cell)
    ensures
        r@ == dimension_cell(
            match d {
                Some(x) => Some(*x),
                None => None,
            },
        ),
{
    match d {
        None => Cell::Null,
        Some(dim) => match &dim.value {
            None => Cell::Null,
            Some(DimensionValue::String(s)) => Cell::Text(s.clone()),
            Some(DimensionValue::Number(n)) => Cell::Text(i64_text(*n)),
            Some(DimensionValue::Boolean(b)) => {
                if *b {
                    Cell::Text(String::from_str("true"))
                } else {
                    Cell::Text(String::from_str("false"))
                }
            },
        },
    }
}

fn measurement_value_cell(m: Option<&Measurement>) -> (r: Cell)
    ensures
        r@ == measurement_cell(
            match m {
                Some(x) => Some(*x),
                None => None,
            },
        ),
{
    match m {
        None => Cell::Null,
        Some(meas) => match &meas.value {
            None => Cell::Null,
            Some(MeasurementValue::I64(i)) => Cell::Text(i64_text(*i)),
            Some(MeasurementValue::I32(i)) => Cell::Text(i32_text(*i)),
            Some(MeasurementValue::F64(b)) => Cell::Float64(*b),
            Some(MeasurementValue::F32(b)) => Cell::Float32(*b),
            Some(MeasurementValue::StatisticSet(s)) => Cell::Statistics(*s),
            Some(MeasurementValue::Histogram(h)) => Cell::Text(to_jsonmap(h)),
            Some(MeasurementValue::TDigest(t)) => Cell::Digest(t.duplicate()),
        },
    }
}

/// The cells of a datum's row: its time, then the value under each dimension column,
/// then under each measurement column; a missing or unvalued entry gives NULL.
pub fn row_cells(
    datum: &Datum,
    dimension_types: &Vec<(String, Option<SqlType>)>,
    measurement_types: &Vec<(String, Option<SqlType>)>,
) -> (r: Vec<Cell>)
    ensures
        cells_view(r@) == row_view(*datum, dimension_types@, measurement_types@),
{
    let ghost want = row_view(*datum, dimension_types@, measurement_types@);
    let mut r: Vec<Cell> = Vec::new();
    r.push(Cell::Text(rfc3339_text(datum.unix_nanos)));
    let nd = dimension_types.len();
    let mut i: usize = 0;
    while i < nd
        invariant
            nd == dimension_types@.len(),
            i <= nd,
            want == row_view(*datum, dimension_types@, measurement_types@),
            cells_view(r@) == want.subrange(0, 1 + i),
        decreases nd - i,
    {
        let c = dimension_value_cell(find_entry(&datum.dimensions, &dimension_types[i].0));
        assert(c@ == dimension_cell(lookup(datum.dimensions@, dimension_types@[i as int].0@)));
        assert(want[1 + i] == c@);
        let ghost before = r@;
        r.push(c);
        assert(cells_view(r@) =~= cells_view(before).push(c@));
        assert(cells_view(r@) =~= want.subrange(0, 1 + i + 1));
        i = i + 1;
    }
    let mut j: usize = 0;
    while j < measurement_types.len()
        invariant
            nd == dimension_types@.len(),
            j <= measurement_types@.len(),
            want == row_view(*datum, dimension_types@, measurement_types@),
            cells_view(r@) == want.subrange(0, 1 + nd + j),
        decreases measurement_types.len() - j,
    {
        let c = measurement_value_cell(find_entry(&datum.measurements, &measurement_types[j].0));
        assert(c@ == measurement_cell(lookup(datum.measurements@, measurement_types@[j as int].0@)));
        assert(want[1 + nd + j] == c@);
        let ghost before = r@;
        r.push(c);
        assert(cells_view(r@) =~= cells_view(before).push(c@));
        assert(cells_view(r@) =~= want.subrange(0, 1 + nd + j + 1));
        j = j + 1;
    }
    assert(want.subrange(0, want.len() as int) =~= want);
    r
}

/// `(min,max,sum,count)`, the literal of a `statistic_set`.
pub open spec fn statistic_set_text(min: Seq<char>, max: Seq<char>, sum: Seq<char>, count: u64) -> Seq<
    char,
> {
    "("@ + min + ","@ + max + ","@ + sum + ","@ + int_text(count as int) + ")"@
}

/// Writes a `statistic_set` literal from the texts of its three floats and its count.
pub fn statistic_set_literal(min: &str, max: &str, sum: &str, count: u64) -> (r: String)
    ensures
        r@ == statistic_set_text(min@, max@, sum@, count),
{
    let mut r = String::from_str("(");
    r.append(min);
    r.append(",");
    r.append(max);
    r.append(",");
    r.append(sum);
    r.append(",");
    let c = u64_text(count);
    r.append(c.as_str());
    r.append(")");
    r
}

/// The bucket bound that every `tdigest` literal declares.
pub const TDIGEST_MAX_BUCKETS: u64 = 100;

/// `(mean:m,weight:w)` joined by commas.
pub open spec fn centroids_text(c: Seq<(Seq<char>, u64)>) -> Seq<char>
    decreases c.len(),
{
    if c.len() == 0 {
        Seq::empty()
    } else {
        let last = "(mean:"@ + c.last().0 + ",weight:"@ + int_text(c.last().1 as int) + ")"@;
        if c.len() == 1 {
            last
        } else {
            centroids_text(c.drop_last()) + ","@ + last
        }
    }
}

/// The literal of a `tdigest`.
pub open spec fn tdigest_text(
    count: u64,
    sum: Seq<char>,
    min: Seq<char>,
    max: Seq<char>,
    centroids: Seq<(Seq<char>, u64)>,
) -> Seq<char> {
    "(version:1,max_buckets:"@ + int_text(TDIGEST_MAX_BUCKETS as int) + ",count:"@ + int_text(
        count as int,
    ) + ",sum:"@ + sum + ",min:"@ + min + ",max:"@ + max + ",centroids:["@ + centroids_text(
        centroids,
    ) + "])"@
}

/// The views of centroid texts and weights.
pub open spec fn centroid_texts(c: Seq<(String, u64)>) -> Seq<(Seq<char>, u64)> {
    c.map_values(|x: (String, u64)| (x.0@, x.1))
}

/// Writes a `tdigest` literal from its count, the texts of its floats, and each
/// centroid's mean text and weight.
pub fn tdigest_literal(
    count: u64,
    sum: &str,
    min: &str,
    max: &str,
    centroids: &Vec<(String, u64)>,
) -> (r: String)
    ensures
        r@ == tdigest_text(count, sum@, min@, max@, centroid_texts(centroids@)),
{
    let mut joined = String::new();
    let mut i: usize = 0;
    while i < centroids.len()
        invariant
            i <= centroids@.len(),
            joined@ == centroids_text(centroid_texts(centroids@.subrange(0, i as int))),
        decreases centroids.len() - i,
    {
        let ghost prev = centroid_texts(centroids@.subrange(0, i as int));
        let ghost next = centroid_texts(centroids@.subrange(0, i + 1));
        assert(next.drop_last() =~= prev);
        if i > 0 {
            joined.append(",");
        } else {
            assert(joined@ =~= Seq::<char>::empty());
        }
        joined.append("(mean:");
        joined.append(centroids[i].0.as_str());
        joined.append(",weight:");
        let w = u64_text(centroids[i].1);
        joined.append(w.as_str());
        joined.append(")");
        assert(joined@ =~= centroids_text(next));
        i = i + 1;
    }
    assert(centroids@.subrange(0, centroids.len() as int) =~= centroids@);
    let mut r = String::from_str("(version:1,max_buckets:");
    let b = u64_text(TDIGEST_MAX_BUCKETS);
    r.append(b.as_str());
    r.append(",count:");
    let c = u64_text(count);
    r.append(c.as_str());
    r.append(",sum:");
    r.append(sum);
    r.append(",min:");
    r.append(min);
    r.append(",max:");
    r.append(max);
    r.append(",centroids:[");
    r.append(joined.as_str());
    r.append("])");
    r
}

} // verus!
