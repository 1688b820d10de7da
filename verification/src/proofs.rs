//! The codec's laws: what holds of encoding and decoding together, proved
//! from the models the two directions are specified against.

use vstd::prelude::*;

use crate::cell::{
    cell_matches, cell_to_vdata, default_cell_v, expected_name, lemma_cell_round_trip,
    variant_accepted, CellV,
};
use crate::error::ErrorV;
use crate::schema::{column_of, precedes, schema_wf, ColumnDescV, FieldDefV};
use crate::table::{
    col_index_of, columns_model, decode_field, decode_row_v, decode_table_v, encode_row_v,
    get_cell_v, get_row_v, lemma_col_index_at, lemma_row_first_err_skip,
    lemma_rows_first_err_skip, lemma_wf_sources_distinct, row_cell, row_first_err, row_value,
    rows_first_err, rows_model, table_model,
};
use crate::value::{kind_of, map_get, VData};

verus! {

/// Whether `names` lists the column names of `cols`, in order.
pub open spec fn names_of(names: Seq<Seq<char>>, cols: Seq<ColumnDescV>) -> bool {
    &&& names.len() == cols.len()
    &&& forall|j: int| 0 <= j < cols.len() ==> names[j] == (#[trigger] cols[j]).name
}

/// Whether no two columns share a name. Decode resolves names with the later
/// duplicate winning, so a duplicated name makes an earlier column read the
/// later column's cells.
pub open spec fn distinct_names(cols: Seq<ColumnDescV>) -> bool {
    forall|j1: int, j2: int|
        0 <= j1 < j2 < cols.len() ==> (#[trigger] cols[j1]).name != (#[trigger] cols[j2]).name
}

/// Whether every record has one cell per field and each schema column's cell
/// matches the column's type.
pub open spec fn records_wf(
    fields: Seq<FieldDefV>,
    cols: Seq<ColumnDescV>,
    recs: Seq<Seq<CellV>>,
) -> bool {
    &&& forall|k: int| 0 <= k < recs.len() ==> (#[trigger] recs[k]).len() == fields.len()
    &&& forall|k: int, j: int|
        0 <= k < recs.len() && 0 <= j < cols.len() ==> cell_matches(
            #[trigger] recs[k][(#[trigger] cols[j]).source],
            cols[j].ty,
        )
}

/// Whether every skipped field holds its type's default in every record.
/// Skipped fields never reach the table, so decoding can only restore their
/// defaults.
pub open spec fn skipped_are_default(
    fields: Seq<FieldDefV>,
    recs: Seq<Seq<CellV>>,
) -> bool {
    forall|k: int, i: int|
        0 <= k < recs.len() && 0 <= i < fields.len() && (#[trigger] fields[i]).attrs.skip
            ==> #[trigger] recs[k][i] == default_cell_v(fields[i].ty)
}

/// What an encoded table's two entries hold: its `columns` entry extracts to
/// exactly the schema's column names, whatever the records were, and its
/// `rows` entry is the encoded row array.
pub proof fn lemma_table_model_entries(
    names: Seq<Seq<char>>,
    cols: Seq<ColumnDescV>,
    recs: Seq<Seq<CellV>>,
)
    ensures
        columns_model(table_model(names, cols, recs)) == Ok::<Seq<Seq<char>>, ErrorV>(names),
        rows_model(table_model(names, cols, recs)) == Ok::<Seq<VData>, ErrorV>(
            Seq::new(recs.len(), |k: int| VData::Array(encode_row_v(cols, recs[k]))),
        ),
{
    reveal_strlit("columns");
    reveal_strlit("rows");
    reveal_with_fuel(map_get, 3);
    assert("columns"@.len() == 7);
    assert("rows"@.len() == 4);
    let colvals = Seq::new(names.len(), |j: int| VData::String(names[j]));
    let rowvals = Seq::new(recs.len(), |k: int| VData::Array(encode_row_v(cols, recs[k])));
    let m = seq![("columns"@, VData::Array(colvals)), ("rows"@, VData::Array(rowvals))];
    assert(m[0].0 == "columns"@);
    assert(map_get(m, "columns"@) == Some(VData::Array(colvals)));
    assert(m[0].0 != "rows"@);
    assert(m.drop_first() =~= seq![("rows"@, VData::Array(rowvals))]);
    assert(map_get(m, "rows"@) == Some(VData::Array(rowvals)));
    assert(crate::table::all_strings(colvals));
    assert(Seq::new(colvals.len(), |j: int| colvals[j]->String_0) =~= names);
}

/// Column ordering is deterministic: whatever two record sequences are
/// encoded, both tables carry the same `columns` entry — the schema's column
/// names in schema order.
pub proof fn lemma_encode_columns_deterministic(
    names: Seq<Seq<char>>,
    cols: Seq<ColumnDescV>,
    recs1: Seq<Seq<CellV>>,
    recs2: Seq<Seq<CellV>>,
)
    ensures
        columns_model(table_model(names, cols, recs1)) == columns_model(
            table_model(names, cols, recs2),
        ),
        columns_model(table_model(names, cols, recs1)) == Ok::<Seq<Seq<char>>, ErrorV>(names),
{
    lemma_table_model_entries(names, cols, recs1);
    lemma_table_model_entries(names, cols, recs2);
}

/// One encoded row decodes back to its record exactly.
proof fn lemma_row_round_trip(
    fields: Seq<FieldDefV>,
    cols: Seq<ColumnDescV>,
    names: Seq<Seq<char>>,
    rec: Seq<CellV>,
)
    requires
        schema_wf(fields, cols),
        names_of(names, cols),
        distinct_names(cols),
        rec.len() == fields.len(),
        forall|j: int|
            0 <= j < cols.len() ==> cell_matches(
                rec[(#[trigger] cols[j]).source],
                cols[j].ty,
            ),
        forall|i: int|
            0 <= i < fields.len() && (#[trigger] fields[i]).attrs.skip ==> rec[i]
                == default_cell_v(fields[i].ty),
    ensures
        decode_row_v(fields, cols, names, VData::Array(encode_row_v(cols, rec))) == Ok::<
            Seq<CellV>,
            ErrorV,
        >(rec),
{
    let rowv = VData::Array(encode_row_v(cols, rec));
    lemma_wf_sources_distinct(fields, cols);
    assert forall|j: int| 0 <= j < cols.len() implies #[trigger] decode_field(names, rowv, cols[j])
        == Ok::<CellV, ErrorV>(rec[cols[j].source]) by {
        assert forall|q2: int| j < q2 < names.len() implies names[q2] != cols[j].name by {
            assert(names[q2] == cols[q2].name);
        }
        lemma_col_index_at(names, cols[j].name, j);
        assert(get_cell_v(rowv, j) == Ok::<VData, ErrorV>(
            cell_to_vdata(rec[cols[j].source]),
        ));
        lemma_cell_round_trip(rec[cols[j].source], cols[j].ty);
    }
    lemma_row_first_err_skip(cols, names, rowv, cols.len() as int);
    assert(row_first_err(cols, names, rowv, 0) is None);
    assert forall|i: int| 0 <= i < fields.len() implies row_cell(fields, cols, names, rowv, i)
        == rec[i] by {
        if exists|q: int| 0 <= q < cols.len() && (#[trigger] cols[q]).source == i {
            let q = choose|q: int| 0 <= q < cols.len() && (#[trigger] cols[q]).source == i;
            assert(decode_field(names, rowv, cols[q]) == Ok::<CellV, ErrorV>(rec[i]));
        } else {
            if !fields[i].attrs.skip {
                assert(exists|q: int| 0 <= q < cols.len() && #[trigger] cols[q].source == i);
            }
            assert(fields[i].attrs.skip);
        }
    }
    assert(row_value(fields, cols, names, rowv) =~= rec);
}

/// Round trip: any well-formed record sequence, encoded and then decoded
/// against the same schema, comes back exactly — provided the schema's
/// column names are distinct and skipped fields hold their defaults.
/// Default-on-missing never enters: encode omits no column.
pub proof fn lemma_encode_decode_round_trip(
    fields: Seq<FieldDefV>,
    cols: Seq<ColumnDescV>,
    names: Seq<Seq<char>>,
    recs: Seq<Seq<CellV>>,
)
    requires
        schema_wf(fields, cols),
        names_of(names, cols),
        distinct_names(cols),
        records_wf(fields, cols, recs),
        skipped_are_default(fields, recs),
    ensures
        decode_table_v(fields, cols, table_model(names, cols, recs)) == Ok::<
            Seq<Seq<CellV>>,
            ErrorV,
        >(recs),
{
    let v = table_model(names, cols, recs);
    lemma_table_model_entries(names, cols, recs);
    let rows = Seq::new(recs.len(), |k: int| VData::Array(encode_row_v(cols, recs[k])));
    assert forall|k: int| 0 <= k < rows.len() implies #[trigger] decode_row_v(
        fields,
        cols,
        names,
        rows[k],
    ) == Ok::<Seq<CellV>, ErrorV>(recs[k]) by {
        lemma_row_round_trip(fields, cols, names, recs[k]);
    }
    lemma_rows_first_err_skip(fields, cols, names, rows, rows.len() as int);
    assert(rows_first_err(fields, cols, names, rows, 0) is None);
    assert forall|k: int| 0 <= k < recs.len() implies row_value(fields, cols, names, rows[k])
        == recs[k] by {
        assert(decode_row_v(fields, cols, names, rows[k]) == Ok::<Seq<CellV>, ErrorV>(recs[k]));
        assert(row_first_err(cols, names, rows[k], 0) is None);
    }
    assert(Seq::new(rows.len(), |k: int| row_value(fields, cols, names, rows[k])) =~= recs);
}

/// The empty table: encoding no records still emits the full column header
/// and an empty row array, and decoding that table yields no records.
pub proof fn lemma_empty_table(
    fields: Seq<FieldDefV>,
    cols: Seq<ColumnDescV>,
    names: Seq<Seq<char>>,
)
    ensures
        columns_model(table_model(names, cols, Seq::empty())) == Ok::<Seq<Seq<char>>, ErrorV>(
            names,
        ),
        rows_model(table_model(names, cols, Seq::empty())) == Ok::<Seq<VData>, ErrorV>(
            Seq::empty(),
        ),
        decode_table_v(fields, cols, table_model(names, cols, Seq::empty())) == Ok::<
            Seq<Seq<CellV>>,
            ErrorV,
        >(Seq::empty()),
{
    lemma_table_model_entries(names, cols, Seq::empty());
    let rows = Seq::new(0, |k: int| VData::Array(encode_row_v(cols, Seq::empty()[k])));
    assert(rows =~= Seq::<VData>::empty());
    assert(rows_first_err(fields, cols, names, Seq::empty(), 0) is None);
    assert(Seq::new(0, |k: int| row_value(fields, cols, names, Seq::empty()[k]))
        =~= Seq::<Seq<CellV>>::empty());
}

/// Order attribute precedence: in a resolved schema, a column whose field
/// carries an explicit order stands before every column whose field carries
/// none, wherever the two fields were declared.
pub proof fn lemma_order_precedence(
    fields: Seq<FieldDefV>,
    cols: Seq<ColumnDescV>,
    ji: int,
    jk: int,
)
    requires
        schema_wf(fields, cols),
        0 <= ji < cols.len(),
        0 <= jk < cols.len(),
        fields[cols[ji].source].attrs.order is Some,
        fields[cols[jk].source].attrs.order is None,
    ensures
        ji < jk,
{
    if jk < ji {
        assert(precedes(fields, cols[jk].source, cols[ji].source));
    }
    if jk == ji {
        assert(fields[cols[ji].source].attrs.order is Some);
    }
}

/// Rename: a renamed field's column never appears under the field's original
/// name, as long as no other column took that name for itself.
pub proof fn lemma_rename_hides_field_name(fields: Seq<FieldDefV>, cols: Seq<ColumnDescV>, i: int)
    requires
        schema_wf(fields, cols),
        0 <= i < fields.len(),
        fields[i].attrs.rename is Some,
        fields[i].attrs.rename->0 != fields[i].name,
        forall|k: int|
            0 <= k < fields.len() && k != i ==> crate::schema::column_name_of(#[trigger] fields[k])
                != fields[i].name,
    ensures
        forall|j: int| 0 <= j < cols.len() ==> (#[trigger] cols[j]).name != fields[i].name,
{
    assert forall|j: int| 0 <= j < cols.len() implies (#[trigger] cols[j]).name
        != fields[i].name by {
        assert(cols[j] == column_of(fields, cols[j].source));
    }
}

/// A default-configured column that is absent from the table never raises an
/// error: its cell resolves to the field type's default, whatever the row
/// holds.
pub proof fn lemma_default_no_error(tcols: Seq<Seq<char>>, rowv: VData, d: ColumnDescV)
    requires
        d.default,
        col_index_of(tcols, d.name) is None,
    ensures
        decode_field(tcols, rowv, d) == Ok::<CellV, ErrorV>(default_cell_v(d.ty)),
{
}

/// Default fallback: when a decode succeeds on a table whose columns omit a
/// default-configured column, every decoded record holds that field's default
/// — and no error was raised for it.
pub proof fn lemma_default_fallback(
    fields: Seq<FieldDefV>,
    cols: Seq<ColumnDescV>,
    v: VData,
    tcols: Seq<Seq<char>>,
    recs: Seq<Seq<CellV>>,
    j: int,
)
    requires
        schema_wf(fields, cols),
        columns_model(v) == Ok::<Seq<Seq<char>>, ErrorV>(tcols),
        decode_table_v(fields, cols, v) == Ok::<Seq<Seq<CellV>>, ErrorV>(recs),
        0 <= j < cols.len(),
        cols[j].default,
        col_index_of(tcols, cols[j].name) is None,
    ensures
        forall|k: int|
            0 <= k < recs.len() ==> #[trigger] recs[k][cols[j].source] == default_cell_v(
                cols[j].ty,
            ),
{
    lemma_wf_sources_distinct(fields, cols);
    let rows = rows_model(v)->Ok_0;
    assert forall|k: int| 0 <= k < recs.len() implies #[trigger] recs[k][cols[j].source]
        == default_cell_v(cols[j].ty) by {
        let i = cols[j].source;
        assert(recs[k] == row_value(fields, cols, tcols, rows[k]));
        assert(0 <= j < cols.len() && cols[j].source == i);
        let q = choose|q: int| 0 <= q < cols.len() && (#[trigger] cols[q]).source == i;
        assert(q == j);
        assert(decode_field(tcols, rows[k], cols[j]) == Ok::<CellV, ErrorV>(
            default_cell_v(cols[j].ty),
        ));
    }
}

/// Missing required column: decoding a non-empty table whose columns omit a
/// column that has no default fails on the first row, with that column's
/// name — provided the columns before it decode cleanly there.
pub proof fn lemma_missing_column(
    fields: Seq<FieldDefV>,
    cols: Seq<ColumnDescV>,
    v: VData,
    tcols: Seq<Seq<char>>,
    rows: Seq<VData>,
    j: int,
)
    requires
        columns_model(v) == Ok::<Seq<Seq<char>>, ErrorV>(tcols),
        rows_model(v) == Ok::<Seq<VData>, ErrorV>(rows),
        rows.len() > 0,
        0 <= j < cols.len(),
        !cols[j].default,
        col_index_of(tcols, cols[j].name) is None,
        forall|q: int| 0 <= q < j ==> (#[trigger] decode_field(tcols, rows[0], cols[q])) is Ok,
    ensures
        decode_table_v(fields, cols, v) == Err::<Seq<Seq<CellV>>, ErrorV>(
            ErrorV::MissingColumn(cols[j].name),
        ),
{
    assert(decode_field(tcols, rows[0], cols[j]) == Err::<CellV, ErrorV>(
        ErrorV::MissingColumn(cols[j].name),
    ));
    lemma_row_first_err_skip(cols, tcols, rows[0], j);
    assert(row_first_err(cols, tcols, rows[0], 0) == Some(ErrorV::MissingColumn(cols[j].name)));
    assert(rows_first_err(fields, cols, tcols, rows, 0) == Some(
        ErrorV::MissingColumn(cols[j].name),
    ));
}

/// Type mismatch: decoding a non-empty table whose first row holds, for some
/// column, a cell whose variant disagrees with the column's type fails with
/// an invalid-type error naming both sides — provided the columns before it
/// decode cleanly there.
pub proof fn lemma_type_mismatch(
    fields: Seq<FieldDefV>,
    cols: Seq<ColumnDescV>,
    v: VData,
    tcols: Seq<Seq<char>>,
    rows: Seq<VData>,
    j: int,
    ci: int,
)
    requires
        columns_model(v) == Ok::<Seq<Seq<char>>, ErrorV>(tcols),
        rows_model(v) == Ok::<Seq<VData>, ErrorV>(rows),
        rows.len() > 0,
        0 <= j < cols.len(),
        col_index_of(tcols, cols[j].name) == Some(ci),
        get_cell_v(rows[0], ci) is Ok,
        !variant_accepted(cols[j].ty, get_cell_v(rows[0], ci)->Ok_0),
        forall|q: int| 0 <= q < j ==> (#[trigger] decode_field(tcols, rows[0], cols[q])) is Ok,
    ensures
        decode_table_v(fields, cols, v) == Err::<Seq<Seq<CellV>>, ErrorV>(
            ErrorV::InvalidType {
                expected: expected_name(cols[j].ty),
                got: kind_of(get_cell_v(rows[0], ci)->Ok_0),
            },
        ),
{
    let cv = get_cell_v(rows[0], ci)->Ok_0;
    crate::cell::lemma_read_type_mismatch(cols[j].ty, cv);
    assert(decode_field(tcols, rows[0], cols[j]) == Err::<CellV, ErrorV>(
        ErrorV::InvalidType { expected: expected_name(cols[j].ty), got: kind_of(cv) },
    ));
    lemma_row_first_err_skip(cols, tcols, rows[0], j);
    assert(rows_first_err(fields, cols, tcols, rows, 0) == Some(
        ErrorV::InvalidType { expected: expected_name(cols[j].ty), got: kind_of(cv) },
    ));
}

/// Bounds: selecting a row at or past the decoded length fails with the index
/// asked for and the true decoded length.
pub proof fn lemma_get_row_bounds(
    fields: Seq<FieldDefV>,
    cols: Seq<ColumnDescV>,
    v: VData,
    recs: Seq<Seq<CellV>>,
    index: usize,
)
    requires
        decode_table_v(fields, cols, v) == Ok::<Seq<Seq<CellV>>, ErrorV>(recs),
        index >= recs.len(),
    ensures
        get_row_v(fields, cols, v, index as int) == Err::<Seq<CellV>, ErrorV>(
            ErrorV::RowOutOfBounds { index, len: recs.len() as usize },
        ),
{
}

} // verus!
