//! The batch writer's plan for one metric: the column schema of the batch, the
//! COPY statement, and one row of cells per datum in input order.
use vstd::prelude::*;
use crate::model::{Datum, Dimension, Measurement, has_name, lookup};
use crate::rows::{Cell, CellView, cells_view, dimension_cell, measurement_cell, row_cells, row_view};
use crate::schema::{SqlType, TypeConverter, batch_dimension_types, batch_measurement_types, column_map, copy_statement, copy_statement_text, dimension_entry_types, get_all_column_names, measurement_entry_types, names_sorted, texts};
use crate::text::{clean, clean_id};

verus! {

/// The columns of a COPY: `time`, the normalised dimension names, then the
/// normalised measurement names.
pub open spec fn column_list(
    dims: Seq<(String, Option<SqlType>)>,
    meas: Seq<(String, Option<SqlType>)>,
) -> Seq<Seq<char>> {
    seq!["time"@] + Seq::new(dims.len(), |i: int| clean(dims[i].0@)) + Seq::new(
        meas.len(),
        |j: int| clean(meas[j].0@),
    )
}

/// Everything the COPY of one metric's batch needs.
#[derive(Debug)]
pub struct CopyPlan {
    /// the metric's table
    pub table: String,
    /// every column of the COPY, `time` first
    pub columns: Vec<String>,
    pub statement: String,
    pub dimension_types: Vec<(String, Option<SqlType>)>,
    pub measurement_types: Vec<(String, Option<SqlType>)>,
    pub rows: Vec<Vec<Cell>>,
}

/// Plans the COPY of one metric's datums: the sorted dimension and measurement
/// columns of the batch, the statement, and each datum's row in input order.
pub fn plan_copy(converter: &TypeConverter, metric: &str, datums: &Vec<Datum>) -> (r: CopyPlan)
    ensures
        names_sorted(r.dimension_types@),
        names_sorted(r.measurement_types@),
        column_map(r.dimension_types@) == batch_dimension_types(datums@),
        column_map(r.measurement_types@) == batch_measurement_types(datums@),
        r.table@ == clean(metric@),
        texts(r.columns@) == column_list(r.dimension_types@, r.measurement_types@),
        r.statement@ == copy_statement_text(
            metric@,
            column_list(r.dimension_types@, r.measurement_types@),
        ),
        r.rows@.len() == datums@.len(),
        forall|i: int|
            0 <= i < datums@.len() ==> cells_view(#[trigger] r.rows@[i]@) == row_view(
                datums@[i],
                r.dimension_types@,
                r.measurement_types@,
            ),
{
    let dimension_types = converter.get_dimension_type_map(datums);
    let measurement_types = converter.get_measurement_type_map(datums);
    let columns = get_all_column_names(&dimension_types, &measurement_types);
    let ghost nd = dimension_types@.len();
    assert forall|k: int| 0 <= k < columns@.len() implies texts(columns@)[k] == column_list(
        dimension_types@,
        measurement_types@,
    )[k] by {
        if 1 <= k < 1 + nd {
            let i = k - 1;
            assert(columns@[1 + i]@ == clean(dimension_types@[i].0@));
        } else if k >= 1 + nd {
            let j = k - 1 - nd;
            assert(columns@[1 + nd + j]@ == clean(measurement_types@[j].0@));
        }
    }
    assert(texts(columns@) =~= column_list(dimension_types@, measurement_types@));
    let statement = copy_statement(metric, &columns);
    let mut rows: Vec<Vec<Cell>> = Vec::new();
    let mut i: usize = 0;
    while i < datums.len()
        invariant
            i <= datums@.len(),
            rows@.len() == i,
            forall|k: int|
                0 <= k < i ==> cells_view(#[trigger] rows@[k]@) == row_view(
                    datums@[k],
                    dimension_types@,
                    measurement_types@,
                ),
        decreases datums.len() - i,
    {
        rows.push(row_cells(&datums[i], &dimension_types, &measurement_types));
        i = i + 1;
    }
    let table = clean_id(metric);
    CopyPlan { table, columns, statement, dimension_types, measurement_types, rows }
}

/// Each row lines up with the COPY's columns: as many cells as columns, `time` first,
/// and under every dimension or measurement column the datum's value for the name
/// the column was made from (NULL when the datum has none).
pub proof fn lemma_rows_align_with_columns(
    d: Datum,
    dims: Seq<(String, Option<SqlType>)>,
    meas: Seq<(String, Option<SqlType>)>,
)
    ensures
        row_view(d, dims, meas).len() == column_list(dims, meas).len(),
        column_list(dims, meas)[0] == "time"@,
        forall|i: int|
            0 <= i < dims.len() ==> column_list(dims, meas)[1 + i] == clean(dims[i].0@)
                && #[trigger] row_view(d, dims, meas)[1 + i] == dimension_cell(
                lookup(d.dimensions@, dims[i].0@),
            ),
        forall|j: int|
            0 <= j < meas.len() ==> column_list(dims, meas)[1 + dims.len() + j] == clean(
                meas[j].0@,
            ) && #[trigger] row_view(d, dims, meas)[1 + dims.len() + j] == measurement_cell(
                lookup(d.measurements@, meas[j].0@),
            ),
{
}

proof fn lemma_dimension_entries_keep(m: Map<Seq<char>, Option<SqlType>>, e: Seq<(String, Dimension)>, n: Seq<char>)
    ensures
        m.contains_key(n) || has_name(e, n) ==> dimension_entry_types(m, e).contains_key(n),
    decreases e.len(),
{
    if e.len() > 0 {
        lemma_dimension_entries_keep(m, e.drop_last(), n);
        if has_name(e, n) && e.last().0@ != n {
            let k = choose|k: int| 0 <= k < e.len() && #[trigger] e[k].0@ == n;
            assert(e.drop_last()[k].0@ == n);
        }
    }
}

proof fn lemma_measurement_entries_keep(m: Map<Seq<char>, Option<SqlType>>, e: Seq<(String, Measurement)>, n: Seq<char>)
    ensures
        m.contains_key(n) || has_name(e, n) ==> measurement_entry_types(m, e).contains_key(n),
    decreases e.len(),
{
    if e.len() > 0 {
        lemma_measurement_entries_keep(m, e.drop_last(), n);
        if has_name(e, n) && e.last().0@ != n {
            let k = choose|k: int| 0 <= k < e.len() && #[trigger] e[k].0@ == n;
            assert(e.drop_last()[k].0@ == n);
        }
    }
}

proof fn lemma_batch_dimension_present(ds: Seq<Datum>, i: int, n: Seq<char>)
    requires
        0 <= i < ds.len(),
        has_name(ds[i].dimensions@, n),
    ensures
        batch_dimension_types(ds).contains_key(n),
    decreases ds.len(),
{
    let pre = ds.drop_last();
    if i < ds.len() - 1 {
        assert(pre[i] == ds[i]);
        lemma_batch_dimension_present(pre, i, n);
    }
    lemma_dimension_entries_keep(batch_dimension_types(pre), ds.last().dimensions@, n);
}

proof fn lemma_batch_measurement_present(ds: Seq<Datum>, i: int, n: Seq<char>)
    requires
        0 <= i < ds.len(),
        has_name(ds[i].measurements@, n),
    ensures
        batch_measurement_types(ds).contains_key(n),
    decreases ds.len(),
{
    let pre = ds.drop_last();
    if i < ds.len() - 1 {
        assert(pre[i] == ds[i]);
        lemma_batch_measurement_present(pre, i, n);
    }
    lemma_measurement_entries_keep(batch_measurement_types(pre), ds.last().measurements@, n);
}

/// A dimension that occurs in some datum of the batch, valued or not, is a column of
/// the batch; in a datum that lacks it or leaves it unvalued, its cell is NULL.
pub proof fn lemma_dimension_column_present(ds: Seq<Datum>, i: int, n: Seq<char>, d: Datum)
    requires
        0 <= i < ds.len(),
        has_name(ds[i].dimensions@, n),
    ensures
        batch_dimension_types(ds).contains_key(n),
        lookup(d.dimensions@, n) is None || lookup(d.dimensions@, n)->Some_0.value is None
            ==> dimension_cell(lookup(d.dimensions@, n)) == CellView::Null,
{
    lemma_batch_dimension_present(ds, i, n);
}

/// A measurement that occurs in some datum of the batch, valued or not, is a column of
/// the batch; in a datum that lacks it or leaves it unvalued, its cell is NULL.
pub proof fn lemma_measurement_column_present(ds: Seq<Datum>, i: int, n: Seq<char>, d: Datum)
    requires
        0 <= i < ds.len(),
        has_name(ds[i].measurements@, n),
    ensures
        batch_measurement_types(ds).contains_key(n),
        lookup(d.measurements@, n) is None || lookup(d.measurements@, n)->Some_0.value is None
            ==> measurement_cell(lookup(d.measurements@, n)) == CellView::Null,
{
    lemma_batch_measurement_present(ds, i, n);
}

/// The bytes of one CSV record, as the csv crate writes it: fields separated by
/// commas, quoted where they need it, and a line terminator.
pub uninterp spec fn csv_record_of(fields: Seq<Seq<char>>) -> Seq<u8>;

/// Relies on `csv::Writer::write_record` and `csv::Writer::into_inner`, with no
/// header row: the bytes depend on the fields alone. Writing into a `Vec` cannot
/// fail, so neither `unwrap` panics.
#[verifier::external_body]
fn csv_record(fields: &Vec<String>) -> (r: Vec<u8>)
    ensures
        r@ == csv_record_of(texts(fields@)),
{
    let mut writer = csv::WriterBuilder::new().has_headers(false).from_writer(Vec::new());
    writer.write_record(fields).unwrap();
    writer.into_inner().unwrap()
}

/// The views of a list of records.
pub open spec fn records_view(rows: Seq<Vec<String>>) -> Seq<Seq<Seq<char>>> {
    rows.map_values(|row: Vec<String>| texts(row@))
}

/// The CSV text of records, one after another.
pub open spec fn csv_text(rows: Seq<Seq<Seq<char>>>) -> Seq<u8>
    decreases rows.len(),
{
    if rows.len() == 0 {
        Seq::empty()
    } else {
        csv_text(rows.drop_last()) + csv_record_of(rows.last())
    }
}

/// Encodes rows of field texts as the CSV body of a COPY, in order.
pub fn encode_rows(rows: &Vec<Vec<String>>) -> (r: Vec<u8>)
    ensures
        r@ == csv_text(records_view(rows@)),
{
    let mut r: Vec<u8> = Vec::new();
    let mut i: usize = 0;
    while i < rows.len()
        invariant
            i <= rows@.len(),
            r@ == csv_text(records_view(rows@.subrange(0, i as int))),
        decreases rows.len() - i,
    {
        let ghost next = records_view(rows@.subrange(0, i + 1));
        assert(next.drop_last() =~= records_view(rows@.subrange(0, i as int)));
        assert(next.last() == texts(rows@[i as int]@));
        let mut record = csv_record(&rows[i]);
        r.append(&mut record);
        i = i + 1;
    }
    assert(rows@.subrange(0, rows.len() as int) =~= rows@);
    r
}

/// Concatenated batches, in order.
pub open spec fn flatten_batches(batches: Seq<Vec<Datum>>) -> Seq<Datum>
    decreases batches.len(),
{
    if batches.len() == 0 {
        Seq::empty()
    } else {
        flatten_batches(batches.drop_last()) + batches.last()@
    }
}

/// Joins the batches gathered during one coalescing window, keeping their order.
pub fn coalesce(batches: Vec<Vec<Datum>>) -> (r: Vec<Datum>)
    ensures
        r@ == flatten_batches(batches@),
{
    let ghost all = batches@;
    let mut r: Vec<Datum> = Vec::new();
    for batch in it: batches
        invariant
            it.seq() == all,
            r@ == flatten_batches(all.subrange(0, it.index() as int)),
    {
        let ghost i = it.index();
        assert(all.subrange(0, i + 1).drop_last() =~= all.subrange(0, i as int));
        let mut b = batch;
        r.append(&mut b);
    }
    assert(all.subrange(0, all.len() as int) =~= all);
    r
}

} // verus!
