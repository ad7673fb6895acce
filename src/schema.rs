//! SQL types of dimensions and measurements, the per-batch column schema and the
//! COPY statement that streams a batch into its table.
use vstd::prelude::*;
use crate::model::{Datum, Dimension, DimensionValue, Measurement, MeasurementValue, has_name, lookup, find_entry};
use crate::order::{text_lt, text_less, lemma_text_lt_irreflexive, lemma_text_lt_transitive, lemma_text_lt_total};
use crate::text::{clean, clean_id};

verus! {

/// The SQL type of a column.
#[derive(Debug, Clone, Copy, PartialEq, Eq, Structural)]
pub enum SqlType {
    Int8,
    Int4,
    Float8,
    Float4,
    StatisticSet,
    Jsonb,
    TDigest,
    Text,
    Bool,
}

/// The column type of a measurement, or `None` when it is unvalued.
pub open spec fn measurement_type(m: Measurement) -> Option<SqlType> {
    match m.value {
        Some(MeasurementValue::I64(_)) => Some(SqlType::Int8),
        Some(MeasurementValue::I32(_)) => Some(SqlType::Int4),
        Some(MeasurementValue::F64(_)) => Some(SqlType::Float8),
        Some(MeasurementValue::F32(_)) => Some(SqlType::Float4),
        Some(MeasurementValue::StatisticSet(_)) => Some(SqlType::StatisticSet),
        Some(MeasurementValue::Histogram(_)) => Some(SqlType::Jsonb),
        Some(MeasurementValue::TDigest(_)) => Some(SqlType::TDigest),
        None => None,
    }
}

/// The column type of a dimension, or `None` when it is unvalued.
pub open spec fn dimension_type(d: Dimension) -> Option<SqlType> {
    match d.value {
        Some(DimensionValue::String(_)) => Some(SqlType::Text),
        Some(DimensionValue::Number(_)) => Some(SqlType::Int8),
        Some(DimensionValue::Boolean(_)) => Some(SqlType::Bool),
        None => None,
    }
}

/// The type name used when a column is added: `histogram` for the JSON-backed type.
pub open spec fn column_type_name(t: SqlType) -> Seq<char> {
    match t {
        SqlType::Int8 => "int8"@,
        SqlType::Int4 => "int4"@,
        SqlType::Float8 => "float8"@,
        SqlType::Float4 => "float4"@,
        SqlType::StatisticSet => "statistic_set"@,
        SqlType::Jsonb => "histogram"@,
        SqlType::TDigest => "tdigest"@,
        SqlType::Text => "text"@,
        SqlType::Bool => "boolean"@,
    }
}

/// The name of a column type, as `ALTER TABLE ... ADD COLUMN` takes it.
pub fn sql_column_type_name(t: SqlType) -> (r: &'static str)
    ensures
        r@ == column_type_name(t),
{
    match t {
        SqlType::Int8 => "int8",
        SqlType::Int4 => "int4",
        SqlType::Float8 => "float8",
        SqlType::Float4 => "float4",
        SqlType::StatisticSet => "statistic_set",
        SqlType::Jsonb => "histogram",
        SqlType::TDigest => "tdigest",
        SqlType::Text => "text",
        SqlType::Bool => "boolean",
    }
}

/// Names in strictly increasing order (so each name once).
pub open spec fn names_sorted<V>(r: Seq<(String, V)>) -> bool {
    forall|i: int, j: int| 0 <= i < j < r.len() ==> text_lt(#[trigger] r[i].0@, #[trigger] r[j].0@)
}

/// The mapping that a name-sorted column list stands for.
pub open spec fn column_map(r: Seq<(String, Option<SqlType>)>) -> Map<Seq<char>, Option<SqlType>> {
    Map::new(
        |n: Seq<char>| has_name(r, n),
        |n: Seq<char>| r[choose|k: int| 0 <= k < r.len() && #[trigger] r[k].0@ == n].1,
    )
}

proof fn lemma_column_map_at(r: Seq<(String, Option<SqlType>)>, k: int)
    requires
        names_sorted(r),
        0 <= k < r.len(),
    ensures
        column_map(r).contains_key(r[k].0@),
        column_map(r)[r[k].0@] == r[k].1,
{
    let n = r[k].0@;
    assert(has_name(r, n));
    let c = choose|c: int| 0 <= c < r.len() && #[trigger] r[c].0@ == n;
    lemma_text_lt_irreflexive(n);
    if c < k {
        assert(text_lt(r[c].0@, r[k].0@));
    } else if k < c {
        assert(text_lt(r[k].0@, r[c].0@));
    }
    assert(c == k);
}

/// Sets the type of `name` in a name-sorted column list, adding the name in order
/// when it is new.
pub fn insert_column(r: &mut Vec<(String, Option<SqlType>)>, name: &String, t: Option<SqlType>)
    requires
        names_sorted(old(r)@),
    ensures
        names_sorted(final(r)@),
        column_map(final(r)@) == column_map(old(r)@).insert(name@, t),
{
    let ghost r0 = r@;
    let mut p: usize = 0;
    let mut searching = true;
    while searching && p < r.len()
        invariant
            r@ == r0,
            p <= r.len(),
            forall|i: int| 0 <= i < p ==> text_lt(#[trigger] r@[i].0@, name@),
            !searching ==> p < r.len() && !text_lt(r@[p as int].0@, name@),
        decreases r.len() - p + (if searching { 1int } else { 0int }),
    {
        if text_less(r[p].0.as_str(), name.as_str()) {
            p = p + 1;
        } else {
            searching = false;
        }
    }
    assert(p < r.len() ==> !text_lt(r0[p as int].0@, name@));
    if p < r.len() && r[p].0 == *name {
        let entry = (r[p].0.clone(), t);
        r.set(p, entry);
        proof {
            assert forall|i: int, j: int| 0 <= i < j < r@.len() implies text_lt(
                #[trigger] r@[i].0@,
                #[trigger] r@[j].0@,
            ) by {
                assert(r@[i].0@ == r0[i].0@ && r@[j].0@ == r0[j].0@);
            }
            let m = column_map(r@);
            let e = column_map(r0).insert(name@, t);
            assert forall|n: Seq<char>| m.contains_key(n) <==> e.contains_key(n) by {
                if has_name(r@, n) {
                    let k = choose|k: int| 0 <= k < r@.len() && #[trigger] r@[k].0@ == n;
                    assert(r0[k].0@ == n);
                }
                if has_name(r0, n) {
                    let k = choose|k: int| 0 <= k < r0.len() && #[trigger] r0[k].0@ == n;
                    assert(r@[k].0@ == n);
                }
                if n == name@ {
                    assert(r@[p as int].0@ == n);
                }
            }
            assert forall|n: Seq<char>| m.contains_key(n) implies m[n] == e[n] by {
                let k = choose|k: int| 0 <= k < r@.len() && #[trigger] r@[k].0@ == n;
                lemma_column_map_at(r@, k);
                if k != p {
                    lemma_column_map_at(r0, k);
                    assert(r0[k] == r@[k]);
                }
            }
            assert(m =~= e);
        }
    } else {
        proof {
            if p < r.len() {
                lemma_text_lt_total(r@[p as int].0@, name@);
                assert(text_lt(name@, r0[p as int].0@));
            }
        }
        assert(forall|i: int| 0 <= i < p ==> text_lt(#[trigger] r0[i].0@, name@));
        let entry = (name.clone(), t);
        r.insert(p, entry);
        proof {
            assert(r@ == r0.insert(p as int, entry));
            assert forall|i: int, j: int| 0 <= i < j < r@.len() implies text_lt(
                #[trigger] r@[i].0@,
                #[trigger] r@[j].0@,
            ) by {
                if j < p {
                    assert(r@[i] == r0[i] && r@[j] == r0[j]);
                    assert(text_lt(r0[i].0@, r0[j].0@));
                } else if j == p {
                    assert(r@[i] == r0[i]);
                    assert(text_lt(r0[i].0@, name@));
                } else if i == p {
                    assert(r@[j] == r0[j - 1]);
                    if j - 1 > p {
                        assert(text_lt(r0[p as int].0@, r0[j - 1].0@));
                        lemma_text_lt_transitive(name@, r0[p as int].0@, r0[j - 1].0@);
                    }
                } else if i < p {
                    assert(r@[i] == r0[i] && r@[j] == r0[j - 1]);
                    assert(text_lt(r0[i].0@, r0[j - 1].0@));
                } else {
                    assert(r@[i] == r0[i - 1] && r@[j] == r0[j - 1]);
                    assert(text_lt(r0[i - 1].0@, r0[j - 1].0@));
                }
            }
            let m = column_map(r@);
            let e = column_map(r0).insert(name@, t);
            assert forall|n: Seq<char>| m.contains_key(n) <==> e.contains_key(n) by {
                if has_name(r@, n) {
                    let k = choose|k: int| 0 <= k < r@.len() && #[trigger] r@[k].0@ == n;
                    if k < p {
                        assert(r0[k] == r@[k]);
                    } else if k > p {
                        assert(r0[k - 1] == r@[k]);
                    }
                }
                if has_name(r0, n) {
                    let k = choose|k: int| 0 <= k < r0.len() && #[trigger] r0[k].0@ == n;
                    if k < p {
                        assert(r@[k] == r0[k]);
                    } else {
                        assert(r@[k + 1] == r0[k]);
                    }
                }
                if n == name@ {
                    assert(r@[p as int].0@ == n);
                }
            }
            assert forall|n: Seq<char>| m.contains_key(n) implies m[n] == e[n] by {
                let k = choose|k: int| 0 <= k < r@.len() && #[trigger] r@[k].0@ == n;
                lemma_column_map_at(r@, k);
                if k < p {
                    lemma_column_map_at(r0, k);
                    assert(r0[k] == r@[k]);
                    lemma_text_lt_irreflexive(name@);
                } else if k > p {
                    lemma_column_map_at(r0, k - 1);
                    assert(r0[k - 1] == r@[k]);
                    lemma_text_lt_irreflexive(name@);
                }
            }
            assert(m =~= e);
        }
    }
}

/// The column of one occurrence: a valued occurrence sets the name's type; an
/// unvalued one makes the name a column without changing a type already known.
pub open spec fn add_occurrence(
    m: Map<Seq<char>, Option<SqlType>>,
    name: Seq<char>,
    t: Option<SqlType>,
) -> Map<Seq<char>, Option<SqlType>> {
    if t is Some || !m.contains_key(name) {
        m.insert(name, t)
    } else {
        m
    }
}

/// `m` with the dimension pairs of `e` added in order.
pub open spec fn dimension_entry_types(
    m: Map<Seq<char>, Option<SqlType>>,
    e: Seq<(String, Dimension)>,
) -> Map<Seq<char>, Option<SqlType>>
    decreases e.len(),
{
    if e.len() == 0 {
        m
    } else {
        add_occurrence(
            dimension_entry_types(m, e.drop_last()),
            e.last().0@,
            dimension_type(e.last().1),
        )
    }
}

/// `m` with the measurement pairs of `e` added in order.
pub open spec fn measurement_entry_types(
    m: Map<Seq<char>, Option<SqlType>>,
    e: Seq<(String, Measurement)>,
) -> Map<Seq<char>, Option<SqlType>>
    decreases e.len(),
{
    if e.len() == 0 {
        m
    } else {
        add_occurrence(
            measurement_entry_types(m, e.drop_last()),
            e.last().0@,
            measurement_type(e.last().1),
        )
    }
}

/// The dimension columns of a batch: every name that occurs, valued or not, with
/// the type of its last valued occurrence, or `None` when it is never valued.
pub open spec fn batch_dimension_types(ds: Seq<Datum>) -> Map<Seq<char>, Option<SqlType>>
    decreases ds.len(),
{
    if ds.len() == 0 {
        Map::empty()
    } else {
        dimension_entry_types(batch_dimension_types(ds.drop_last()), ds.last().dimensions@)
    }
}

/// The measurement columns of a batch: every name that occurs, valued or not, with
/// the type of its last valued occurrence, or `None` when it is never valued.
pub open spec fn batch_measurement_types(ds: Seq<Datum>) -> Map<Seq<char>, Option<SqlType>>
    decreases ds.len(),
{
    if ds.len() == 0 {
        Map::empty()
    } else {
        measurement_entry_types(batch_measurement_types(ds.drop_last()), ds.last().measurements@)
    }
}

/// Whether a name-sorted column list holds `name`.
pub fn has_column(r: &Vec<(String, Option<SqlType>)>, name: &String) -> (b: bool)
    ensures
        b == column_map(r@).contains_key(name@),
{
    let mut i: usize = 0;
    while i < r.len()
        invariant
            i <= r@.len(),
            forall|k: int| 0 <= k < i ==> r@[k].0@ != name@,
        decreases r.len() - i,
    {
        if r[i].0 == *name {
            assert(has_name(r@, name@));
            return true;
        }
        i = i + 1;
    }
    false
}

/// Adds one occurrence of a name to a name-sorted column list.
fn add_column_occurrence(r: &mut Vec<(String, Option<SqlType>)>, name: &String, t: Option<SqlType>)
    requires
        names_sorted(old(r)@),
    ensures
        names_sorted(final(r)@),
        column_map(final(r)@) == add_occurrence(column_map(old(r)@), name@, t),
{
    if t.is_some() || !has_column(r, name) {
        insert_column(r, name, t);
    }
}

/// The column type of a measurement, `None` when it is unvalued.
pub fn measurement_column_type(measurement: &Measurement) -> (r: Option<SqlType>)
    ensures
        r == measurement_type(*measurement),
{
    match &measurement.value {
        Some(MeasurementValue::I64(_)) => Some(SqlType::Int8),
        Some(MeasurementValue::I32(_)) => Some(SqlType::Int4),
        Some(MeasurementValue::F64(_)) => Some(SqlType::Float8),
        Some(MeasurementValue::F32(_)) => Some(SqlType::Float4),
        Some(MeasurementValue::StatisticSet(_)) => Some(SqlType::StatisticSet),
        Some(MeasurementValue::Histogram(_)) => Some(SqlType::Jsonb),
        Some(MeasurementValue::TDigest(_)) => Some(SqlType::TDigest),
        None => None,
    }
}

/// The column type of a dimension, `None` when it is unvalued.
pub fn dimension_column_type(dimension: &Dimension) -> (r: Option<SqlType>)
    ensures
        r == dimension_type(*dimension),
{
    match &dimension.value {
        Some(DimensionValue::String(_)) => Some(SqlType::Text),
        Some(DimensionValue::Number(_)) => Some(SqlType::Int8),
        Some(DimensionValue::Boolean(_)) => Some(SqlType::Bool),
        None => None,
    }
}

/// Maps measurements and dimensions to SQL column types. It records the type
/// identifiers (OIDs) that the database gave the custom types at start-up.
#[derive(Debug, Clone, Copy)]
pub struct TypeConverter {
    pub statistic_set_oid: u32,
    pub histogram_oid: u32,
    pub tdigest_oid: u32,
}

impl TypeConverter {
    /// The converter for the identifiers that bootstrap resolved.
    pub fn new(statistic_set_oid: u32, histogram_oid: u32, tdigest_oid: u32) -> (r: TypeConverter)
        ensures
            r.statistic_set_oid == statistic_set_oid,
            r.histogram_oid == histogram_oid,
            r.tdigest_oid == tdigest_oid,
    {
        TypeConverter { statistic_set_oid, histogram_oid, tdigest_oid }
    }

    /// The column type of a measurement, `None` when it is unvalued.
    pub fn measurement_sql_type(&self, measurement: &Measurement) -> (r: Option<SqlType>)
        ensures
            r == measurement_type(*measurement),
    {
        measurement_column_type(measurement)
    }

    /// The column type of a dimension, `None` when it is unvalued.
    pub fn dimension_sql_type(&self, dimension: &Dimension) -> (r: Option<SqlType>)
        ensures
            r == dimension_type(*dimension),
    {
        dimension_column_type(dimension)
    }

    /// The dimension columns of a batch, sorted by name: every name that occurs.
    pub fn get_dimension_type_map(&self, datums: &Vec<Datum>) -> (r: Vec<(String, Option<SqlType>)>)
        ensures
            names_sorted(r@),
            column_map(r@) == batch_dimension_types(datums@),
    {
        let mut r: Vec<(String, Option<SqlType>)> = Vec::new();
        let mut i: usize = 0;
        assert(column_map(r@) =~= Map::<Seq<char>, Option<SqlType>>::empty());
        while i < datums.len()
            invariant
                i <= datums.len(),
                names_sorted(r@),
                column_map(r@) == batch_dimension_types(datums@.subrange(0, i as int)),
            decreases datums.len() - i,
        {
            let entries = &datums[i].dimensions;
            let ghost before = batch_dimension_types(datums@.subrange(0, i as int));
            let mut j: usize = 0;
            while j < entries.len()
                invariant
                    j <= entries.len(),
                    names_sorted(r@),
                    column_map(r@) == dimension_entry_types(before, entries@.subrange(0, j as int)),
                decreases entries.len() - j,
            {
                assert(entries@.subrange(0, j + 1).drop_last() =~= entries@.subrange(0, j as int));
                add_column_occurrence(&mut r, &entries[j].0, self.dimension_sql_type(&entries[j].1));
                j = j + 1;
            }
            assert(entries@.subrange(0, entries.len() as int) =~= entries@);
            assert(datums@.subrange(0, i + 1).drop_last() =~= datums@.subrange(0, i as int));
            i = i + 1;
        }
        assert(datums@.subrange(0, datums.len() as int) =~= datums@);
        r
    }

    /// The measurement columns of a batch, sorted by name: every name that occurs.
    pub fn get_measurement_type_map(&self, datums: &Vec<Datum>) -> (r: Vec<(String, Option<SqlType>)>)
        ensures
            names_sorted(r@),
            column_map(r@) == batch_measurement_types(datums@),
    {
        let mut r: Vec<(String, Option<SqlType>)> = Vec::new();
        let mut i: usize = 0;
        assert(column_map(r@) =~= Map::<Seq<char>, Option<SqlType>>::empty());
        while i < datums.len()
            invariant
                i <= datums.len(),
                names_sorted(r@),
                column_map(r@) == batch_measurement_types(datums@.subrange(0, i as int)),
            decreases datums.len() - i,
        {
            let entries = &datums[i].measurements;
            let ghost before = batch_measurement_types(datums@.subrange(0, i as int));
            let mut j: usize = 0;
            while j < entries.len()
                invariant
                    j <= entries.len(),
                    names_sorted(r@),
                    column_map(r@) == measurement_entry_types(before, entries@.subrange(0, j as int)),
                decreases entries.len() - j,
            {
                assert(entries@.subrange(0, j + 1).drop_last() =~= entries@.subrange(0, j as int));
                add_column_occurrence(&mut r, &entries[j].0, self.measurement_sql_type(&entries[j].1));
                j = j + 1;
            }
            assert(entries@.subrange(0, entries.len() as int) =~= entries@);
            assert(datums@.subrange(0, i + 1).drop_last() =~= datums@.subrange(0, i as int));
            i = i + 1;
        }
        assert(datums@.subrange(0, datums.len() as int) =~= datums@);
        r
    }
}

/// Column names joined by commas.
pub open spec fn comma_join(s: Seq<Seq<char>>) -> Seq<char>
    decreases s.len(),
{
    if s.len() == 0 {
        Seq::empty()
    } else if s.len() == 1 {
        s[0]
    } else {
        comma_join(s.drop_last()) + ","@ + s.last()
    }
}

/// The views of a list of strings.
pub open spec fn texts(v: Seq<String>) -> Seq<Seq<char>> {
    v.map_values(|s: String| s@)
}

/// The columns of a COPY, in the row order: `time`, then the dimension columns,
/// then the measurement columns, each name normalised.
pub fn get_all_column_names(
    dimension_types: &Vec<(String, Option<SqlType>)>,
    measurement_types: &Vec<(String, Option<SqlType>)>,
) -> (r: Vec<String>)
    ensures
        r@.len() == 1 + dimension_types@.len() + measurement_types@.len(),
        r@[0]@ == "time"@,
        forall|i: int|
            0 <= i < dimension_types@.len() ==> #[trigger] r@[1 + i]@ == clean(
                dimension_types@[i].0@,
            ),
        forall|j: int|
            0 <= j < measurement_types@.len() ==> #[trigger] r@[1 + dimension_types@.len() + j]@
                == clean(measurement_types@[j].0@),
{
    let mut r: Vec<String> = Vec::new();
    r.push(String::from_str("time"));
    let mut i: usize = 0;
    while i < dimension_types.len()
        invariant
            i <= dimension_types@.len(),
            r@.len() == 1 + i,
            r@[0]@ == "time"@,
            forall|k: int| 0 <= k < i ==> #[trigger] r@[1 + k]@ == clean(dimension_types@[k].0@),
        decreases dimension_types.len() - i,
    {
        r.push(clean_id(dimension_types[i].0.as_str()));
        i = i + 1;
    }
    let mut j: usize = 0;
    while j < measurement_types.len()
        invariant
            j <= measurement_types@.len(),
            r@.len() == 1 + dimension_types@.len() + j,
            r@[0]@ == "time"@,
            forall|k: int|
                0 <= k < dimension_types@.len() ==> #[trigger] r@[1 + k]@ == clean(
                    dimension_types@[k].0@,
                ),
            forall|k: int|
                0 <= k < j ==> #[trigger] r@[1 + dimension_types@.len() + k]@ == clean(
                    measurement_types@[k].0@,
                ),
        decreases measurement_types.len() - j,
    {
        r.push(clean_id(measurement_types[j].0.as_str()));
        j = j + 1;
    }
    r
}

/// The statement that opens a CSV COPY of the given columns into a metric's table.
pub open spec fn copy_statement_text(metric: Seq<char>, columns: Seq<Seq<char>>) -> Seq<char> {
    "copy "@ + clean(metric) + " ("@ + comma_join(columns)
        + ") from stdin with (format csv, header false)"@
}

/// Builds `copy <table> (<columns>) from stdin with (format csv, header false)`.
pub fn copy_statement(metric: &str, columns: &Vec<String>) -> (r: String)
    ensures
        r@ == copy_statement_text(metric@, texts(columns@)),
{
    let mut joined = String::new();
    let mut i: usize = 0;
    while i < columns.len()
        invariant
            i <= columns@.len(),
            joined@ == comma_join(texts(columns@.subrange(0, i as int))),
        decreases columns.len() - i,
    {
        let ghost prev = texts(columns@.subrange(0, i as int));
        let ghost next = texts(columns@.subrange(0, i + 1));
        assert(next.drop_last() =~= prev);
        assert(next.last() == columns@[i as int]@);
        if i > 0 {
            joined.append(",");
        } else {
            assert(joined@ =~= Seq::<char>::empty());
        }
        joined.append(columns[i].as_str());
        assert(joined@ =~= comma_join(next));
        i = i + 1;
    }
    assert(columns@.subrange(0, columns.len() as int) =~= columns@);
    let mut r = String::from_str("copy ");
    let table = clean_id(metric);
    r.append(table.as_str());
    r.append(" (");
    r.append(joined.as_str());
    r.append(") from stdin with (format csv, header false)");
    r
}

/// The type of `column` in one datum: its valued dimension first, then its valued
/// measurement.
pub open spec fn datum_column_type(d: Datum, column: Seq<char>) -> Option<SqlType> {
    let dt = match lookup(d.dimensions@, column) {
        Some(dim) => dimension_type(dim),
        None => None,
    };
    if dt is Some {
        dt
    } else {
        match lookup(d.measurements@, column) {
            Some(m) => measurement_type(m),
            None => None,
        }
    }
}

/// The type of `column` in the first datum of the batch that carries it valued.
pub open spec fn first_column_type(ds: Seq<Datum>, column: Seq<char>) -> Option<SqlType>
    decreases ds.len(),
{
    if ds.len() == 0 {
        None
    } else if datum_column_type(ds[0], column) is Some {
        datum_column_type(ds[0], column)
    } else {
        first_column_type(ds.drop_first(), column)
    }
}

/// Infers the type of a column that the table lacks, from the first datum of the
/// batch that carries a value under that name.
pub fn infer_column_type(datums: &Vec<Datum>, column: &String) -> (r: Option<SqlType>)
    ensures
        r == first_column_type(datums@, column@),
{
    let mut i: usize = 0;
    assert(datums@.skip(0) =~= datums@);
    while i < datums.len()
        invariant
            i <= datums@.len(),
            first_column_type(datums@, column@) == first_column_type(
                datums@.skip(i as int),
                column@,
            ),
        decreases datums.len() - i,
    {
        let d = &datums[i];
        let ghost rest = datums@.skip(i as int);
        assert(rest[0] == *d);
        assert(rest.drop_first() =~= datums@.skip(i + 1));
        let dt = match find_entry(&d.dimensions, column) {
            Some(dim) => dimension_column_type(dim),
            None => None,
        };
        if dt.is_some() {
            return dt;
        }
        let mt = match find_entry(&d.measurements, column) {
            Some(m) => measurement_column_type(m),
            None => None,
        };
        if mt.is_some() {
            return mt;
        }
        i = i + 1;
    }
    None
}

/// Whether a list of strings holds the given text.
pub fn contains_text(v: &Vec<String>, s: &String) -> (r: bool)
    ensures
        r == texts(v@).contains(s@),
{
    let mut i: usize = 0;
    while i < v.len()
        invariant
            i <= v@.len(),
            forall|k: int| 0 <= k < i ==> v@[k]@ != s@,
        decreases v.len() - i,
    {
        if v[i] == *s {
            assert(texts(v@)[i as int] == s@);
            return true;
        }
        i = i + 1;
    }
    proof {
        if texts(v@).contains(s@) {
            let k = choose|k: int| 0 <= k < texts(v@).len() && texts(v@)[k] == s@;
            assert(v@[k]@ == s@);
        }
    }
    false
}

/// The type name that a column for this measurement is added with, `None` when the
/// measurement is unvalued.
pub fn sql_data_type_string(measurement: &Measurement) -> (r: Option<&'static str>)
    ensures
        match measurement_type(*measurement) {
            Some(t) => r matches Some(n) && n@ == column_type_name(t),
            None => r is None,
        },
{
    match measurement_column_type(measurement) {
        Some(t) => Some(sql_column_type_name(t)),
        None => None,
    }
}

/// The type name that a column for this dimension is added with, `None` when the
/// dimension is unvalued.
pub fn sql_dimension_type_string(dimension: &Dimension) -> (r: Option<&'static str>)
    ensures
        match dimension_type(*dimension) {
            Some(t) => r matches Some(n) && n@ == column_type_name(t),
            None => r is None,
        },
{
    match dimension_column_type(dimension) {
        Some(t) => Some(sql_column_type_name(t)),
        None => None,
    }
}

} // verus!
