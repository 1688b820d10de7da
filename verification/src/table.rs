//! The table codec: encoding record sequences into a columnar table value and
//! decoding them back by column name.

use vstd::prelude::*;
use vstd::string::StringExecFns;

use crate::cell::{
    cell_to_vdata, cell_value, default_cell, default_cell_v, read_cell, read_cell_v, Cell, CellV,
};
use crate::error::{Error, ErrorV};
use crate::schema::{ColumnDesc, ColumnDescV, FieldDefV, Schema};
use crate::value::{map_get, str_eq, VData, Value, ValueMap};

verus! {

/// One decoded record: a cell for each field of the record type, in
/// declaration order.
pub type Record = Vec<Cell>;

/// The models of a record's cells.
pub open spec fn record_views(rec: Seq<Cell>) -> Seq<CellV> {
    Seq::new(rec.len(), |i: int| rec[i]@)
}

/// The models of a record sequence.
pub open spec fn records_views(recs: Seq<Vec<Cell>>) -> Seq<Seq<CellV>> {
    Seq::new(recs.len(), |k: int| record_views(recs[k]@))
}

/// The models of a column-name list.
pub open spec fn strings_views(names: Seq<String>) -> Seq<Seq<char>> {
    Seq::new(names.len(), |i: int| names[i]@)
}

/// Whether every element of an array is a string.
pub open spec fn all_strings(arr: Seq<VData>) -> bool {
    forall|j: int| 0 <= j < arr.len() ==> (#[trigger] arr[j]) is String
}

/// The column names a table value declares: the `columns` entry of the
/// object, which must be an array of strings.
pub open spec fn columns_model(v: VData) -> Result<Seq<Seq<char>>, ErrorV> {
    match v {
        VData::Object(m) => match map_get(m, "columns"@) {
            Some(c) => match c {
                VData::Array(arr) => if all_strings(arr) {
                    Ok(Seq::new(arr.len(), |j: int| arr[j]->String_0))
                } else {
                    Err(ErrorV::InvalidTable("column names must be strings"@))
                },
                _ => Err(ErrorV::InvalidTable("'columns' must be an array"@)),
            },
            None => Err(ErrorV::InvalidTable("missing 'columns' field"@)),
        },
        _ => Err(ErrorV::InvalidTable("table must be an object"@)),
    }
}

/// The rows a table value carries: the `rows` entry of the object, which must
/// be an array.
pub open spec fn rows_model(v: VData) -> Result<Seq<VData>, ErrorV> {
    match v {
        VData::Object(m) => match map_get(m, "rows"@) {
            Some(c) => match c {
                VData::Array(arr) => Ok(arr),
                _ => Err(ErrorV::InvalidTable("'rows' must be an array"@)),
            },
            None => Err(ErrorV::InvalidTable("missing 'rows' field"@)),
        },
        _ => Err(ErrorV::InvalidTable("table must be an object"@)),
    }
}

/// Extracts the column names from a table value.
#[verifier::loop_isolation(false)]
pub fn extract_columns(value: &Value) -> (r: Result<Vec<String>, Error>)
    ensures
        match r {
            Ok(names) => columns_model(value@) == Ok::<Seq<Seq<char>>, ErrorV>(
                strings_views(names@),
            ),
            Err(e) => columns_model(value@) == Err::<Seq<Seq<char>>, ErrorV>(e@),
        },
{
    let m = match value {
        Value::Object(m) => m,
        _ => {
            return Err(Error::invalid_table("table must be an object"));
        },
    };
    let columns = match m.get("columns") {
        Some(c) => c,
        None => {
            return Err(Error::invalid_table("missing 'columns' field"));
        },
    };
    let arr = match columns {
        Value::Array(arr) => arr,
        _ => {
            return Err(Error::invalid_table("'columns' must be an array"));
        },
    };
    let ghost arrv = columns@->Array_0;
    let n = arr.len();
    let mut names: Vec<String> = Vec::new();
    let mut i: usize = 0;
    while i < n
        invariant
            n == arr@.len(),
            arrv == columns@->Array_0,
            arrv.len() == n,
            forall|j: int| 0 <= j < n ==> arrv[j] == arr@[j]@,
            0 <= i <= n,
            names@.len() == i,
            forall|j: int| 0 <= j < i ==> (#[trigger] arrv[j]) is String,
            forall|j: int| 0 <= j < i ==> #[trigger] names@[j]@ == arrv[j]->String_0,
        decreases n - i,
    {
        match &arr[i] {
            Value::String(s) => {
                names.push(s.clone());
            },
            _ => {
                proof {
                    assert(!(arrv[i as int] is String));
                    assert(!all_strings(arrv));
                }
                return Err(Error::invalid_table("column names must be strings"));
            },
        }
        i = i + 1;
    }
    proof {
        assert(all_strings(arrv));
        assert(strings_views(names@) =~= Seq::new(arrv.len(), |j: int| arrv[j]->String_0));
    }
    Ok(names)
}

/// Extracts the row array from a table value.
pub fn extract_rows(value: &Value) -> (r: Result<&Vec<Value>, Error>)
    ensures
        match r {
            Ok(rows) => rows_model(value@) == Ok::<Seq<VData>, ErrorV>(
                Seq::new(rows@.len(), |k: int| rows@[k]@),
            ),
            Err(e) => rows_model(value@) == Err::<Seq<VData>, ErrorV>(e@),
        },
{
    let m = match value {
        Value::Object(m) => m,
        _ => {
            return Err(Error::invalid_table("table must be an object"));
        },
    };
    let rows = match m.get("rows") {
        Some(c) => c,
        None => {
            return Err(Error::invalid_table("missing 'rows' field"));
        },
    };
    match rows {
        Value::Array(arr) => {
            proof {
                assert(rows@->Array_0 =~= Seq::new(arr@.len(), |k: int| arr@[k]@));
            }
            Ok(arr)
        },
        _ => Err(Error::invalid_table("'rows' must be an array")),
    }
}

/// One cell of a row by position: the row must be an array that reaches the
/// index.
pub open spec fn get_cell_v(rowv: VData, index: int) -> Result<VData, ErrorV> {
    match rowv {
        VData::Array(cells) => if 0 <= index < cells.len() {
            Ok(cells[index])
        } else {
            Err(ErrorV::ColumnOutOfBounds { index: index as usize, len: cells.len() as usize })
        },
        _ => Err(ErrorV::InvalidTable("row must be an array"@)),
    }
}

/// Fetches a cell from a row by column position.
pub fn get_cell(row: &Value, index: usize) -> (r: Result<&Value, Error>)
    ensures
        match r {
            Ok(c) => get_cell_v(row@, index as int) == Ok::<VData, ErrorV>(c@),
            Err(e) => get_cell_v(row@, index as int) == Err::<VData, ErrorV>(e@),
        },
{
    match row {
        Value::Array(arr) => {
            let len = arr.len();
            if index < len {
                Ok(&arr[index])
            } else {
                Err(Error::ColumnOutOfBounds { index, len })
            }
        },
        _ => Err(Error::invalid_table("row must be an array")),
    }
}

/// The position a column name resolves to: the last entry of `cols` carrying
/// the name, so that a duplicated name resolves to its later occurrence.
pub open spec fn col_index_of(cols: Seq<Seq<char>>, name: Seq<char>) -> Option<int>
    decreases cols.len(),
{
    if cols.len() == 0 {
        None
    } else if cols.last() == name {
        Some(cols.len() - 1)
    } else {
        col_index_of(cols.drop_last(), name)
    }
}

/// `col_index_of` finds the last matching position.
pub proof fn lemma_col_index_at(cols: Seq<Seq<char>>, name: Seq<char>, i: int)
    requires
        0 <= i < cols.len(),
        cols[i] == name,
        forall|j: int| i < j < cols.len() ==> cols[j] != name,
    ensures
        col_index_of(cols, name) == Some(i),
    decreases cols.len(),
{
    if i < cols.len() - 1 {
        assert(cols.drop_last()[i] == name);
        lemma_col_index_at(cols.drop_last(), name, i);
    }
}

/// `col_index_of` finds nothing when no entry matches.
pub proof fn lemma_col_index_none(cols: Seq<Seq<char>>, name: Seq<char>)
    requires
        forall|j: int| 0 <= j < cols.len() ==> cols[j] != name,
    ensures
        col_index_of(cols, name) is None,
    decreases cols.len(),
{
    if cols.len() > 0 {
        assert(forall|j: int|
            0 <= j < cols.drop_last().len() ==> cols.drop_last()[j] != name);
        lemma_col_index_none(cols.drop_last(), name);
    }
}

/// Resolves a column name against a table's column list, later duplicates
/// winning.
pub fn find_column(columns: &Vec<String>, name: &str) -> (r: Option<usize>)
    ensures
        match r {
            Some(i) => col_index_of(strings_views(columns@), name@) == Some(i as int),
            None => col_index_of(strings_views(columns@), name@) is None,
        },
{
    let ghost cv = strings_views(columns@);
    let n = columns.len();
    let mut i: usize = n;
    while i > 0
        invariant
            n == columns@.len(),
            cv == strings_views(columns@),
            0 <= i <= n,
            forall|j: int| i as int <= j < n ==> cv[j] != name@,
        decreases i,
    {
        i = i - 1;
        if str_eq(columns[i].as_str(), name) {
            proof {
                lemma_col_index_at(cv, name@, i as int);
            }
            return Some(i);
        }
    }
    proof {
        lemma_col_index_none(cv, name@);
    }
    None
}

/// Decoding one schema column against one row: resolve the column's name in
/// the table's columns (later duplicates win); when found, fetch that cell
/// and read it as the field's type; when absent, fall back to the default if
/// configured, else fail with the missing column's name.
pub open spec fn decode_field(tcols: Seq<Seq<char>>, rowv: VData, d: ColumnDescV) -> Result<
    CellV,
    ErrorV,
> {
    match col_index_of(tcols, d.name) {
        Some(ci) => match get_cell_v(rowv, ci) {
            Ok(cv) => read_cell_v(d.ty, cv),
            Err(e) => Err(e),
        },
        None => if d.default {
            Ok(default_cell_v(d.ty))
        } else {
            Err(ErrorV::MissingColumn(d.name))
        },
    }
}

/// The first error among the schema columns from position `j` on, against one
/// row.
pub open spec fn row_first_err(
    cols: Seq<ColumnDescV>,
    tcols: Seq<Seq<char>>,
    rowv: VData,
    j: int,
) -> Option<ErrorV>
    decreases cols.len() - j,
{
    if j < 0 || j >= cols.len() {
        None
    } else {
        match decode_field(tcols, rowv, cols[j]) {
            Err(e) => Some(e),
            Ok(_) => row_first_err(cols, tcols, rowv, j + 1),
        }
    }
}

/// Skipping columns that decode cleanly does not change the first error.
pub proof fn lemma_row_first_err_skip(
    cols: Seq<ColumnDescV>,
    tcols: Seq<Seq<char>>,
    rowv: VData,
    j: int,
)
    requires
        0 <= j <= cols.len(),
        forall|q: int| 0 <= q < j ==> (#[trigger] decode_field(tcols, rowv, cols[q])) is Ok,
    ensures
        row_first_err(cols, tcols, rowv, 0) == row_first_err(cols, tcols, rowv, j),
    decreases j,
{
    if j > 0 {
        lemma_row_first_err_skip(cols, tcols, rowv, j - 1);
        assert(decode_field(tcols, rowv, cols[j - 1]) is Ok);
    }
}

/// The cell a record gets at field position `i`, taking only the schema
/// columns before position `jmax` into account: the resolved value where one
/// of them reads the field, the field type's default otherwise.
pub open spec fn row_cell_upto(
    fields: Seq<FieldDefV>,
    cols: Seq<ColumnDescV>,
    tcols: Seq<Seq<char>>,
    rowv: VData,
    i: int,
    jmax: int,
) -> CellV {
    if exists|q: int| 0 <= q < jmax && (#[trigger] cols[q]).source == i {
        let q = choose|q: int| 0 <= q < jmax && (#[trigger] cols[q]).source == i;
        match decode_field(tcols, rowv, cols[q]) {
            Ok(c) => c,
            Err(_) => default_cell_v(fields[i].ty),
        }
    } else {
        default_cell_v(fields[i].ty)
    }
}

/// The cell a record gets at field position `i`: the resolved value where a
/// schema column reads the field, the field type's default otherwise —
/// skipped fields have no column and so decode to their default.
pub open spec fn row_cell(
    fields: Seq<FieldDefV>,
    cols: Seq<ColumnDescV>,
    tcols: Seq<Seq<char>>,
    rowv: VData,
    i: int,
) -> CellV {
    row_cell_upto(fields, cols, tcols, rowv, i, cols.len() as int)
}

/// The record one row decodes to, when no column errors.
pub open spec fn row_value(
    fields: Seq<FieldDefV>,
    cols: Seq<ColumnDescV>,
    tcols: Seq<Seq<char>>,
    rowv: VData,
) -> Seq<CellV> {
    Seq::new(fields.len(), |i: int| row_cell(fields, cols, tcols, rowv, i))
}

/// Decoding one row: the first column error aborts it, else the record.
pub open spec fn decode_row_v(
    fields: Seq<FieldDefV>,
    cols: Seq<ColumnDescV>,
    tcols: Seq<Seq<char>>,
    rowv: VData,
) -> Result<Seq<CellV>, ErrorV> {
    match row_first_err(cols, tcols, rowv, 0) {
        Some(e) => Err(e),
        None => Ok(row_value(fields, cols, tcols, rowv)),
    }
}

/// The first error among the rows from position `k` on.
pub open spec fn rows_first_err(
    fields: Seq<FieldDefV>,
    cols: Seq<ColumnDescV>,
    tcols: Seq<Seq<char>>,
    rows: Seq<VData>,
    k: int,
) -> Option<ErrorV>
    decreases rows.len() - k,
{
    if k < 0 || k >= rows.len() {
        None
    } else {
        match decode_row_v(fields, cols, tcols, rows[k]) {
            Err(e) => Some(e),
            Ok(_) => rows_first_err(fields, cols, tcols, rows, k + 1),
        }
    }
}

/// Skipping rows that decode cleanly does not change the first error.
pub proof fn lemma_rows_first_err_skip(
    fields: Seq<FieldDefV>,
    cols: Seq<ColumnDescV>,
    tcols: Seq<Seq<char>>,
    rows: Seq<VData>,
    k: int,
)
    requires
        0 <= k <= rows.len(),
        forall|q: int| 0 <= q < k ==> (#[trigger] decode_row_v(fields, cols, tcols, rows[q])) is Ok,
    ensures
        rows_first_err(fields, cols, tcols, rows, 0) == rows_first_err(fields, cols, tcols, rows, k),
    decreases k,
{
    if k > 0 {
        lemma_rows_first_err_skip(fields, cols, tcols, rows, k - 1);
        assert(decode_row_v(fields, cols, tcols, rows[k - 1]) is Ok);
    }
}

/// Decoding a whole table: validate the shape, then decode the rows in order;
/// the first error aborts the call with nothing partial.
pub open spec fn decode_table_v(
    fields: Seq<FieldDefV>,
    cols: Seq<ColumnDescV>,
    v: VData,
) -> Result<Seq<Seq<CellV>>, ErrorV> {
    match columns_model(v) {
        Err(e) => Err(e),
        Ok(tcols) => match rows_model(v) {
            Err(e) => Err(e),
            Ok(rows) => match rows_first_err(fields, cols, tcols, rows, 0) {
                Some(e) => Err(e),
                None => Ok(Seq::new(rows.len(), |k: int| row_value(fields, cols, tcols, rows[k]))),
            },
        },
    }
}

/// Selecting one record of a decoded table by position.
pub open spec fn get_row_v(
    fields: Seq<FieldDefV>,
    cols: Seq<ColumnDescV>,
    v: VData,
    index: int,
) -> Result<Seq<CellV>, ErrorV> {
    match decode_table_v(fields, cols, v) {
        Err(e) => Err(e),
        Ok(recs) => if 0 <= index < recs.len() {
            Ok(recs[index])
        } else {
            Err(ErrorV::RowOutOfBounds { index: index as usize, len: recs.len() as usize })
        },
    }
}

/// The cells one record encodes to, in schema order.
pub open spec fn encode_row_v(cols: Seq<ColumnDescV>, rec: Seq<CellV>) -> Seq<VData> {
    Seq::new(cols.len(), |j: int| cell_to_vdata(rec[cols[j].source]))
}

/// The table a record sequence encodes to: an object whose `columns` entry
/// names the schema's columns in order and whose `rows` entry holds one cell
/// array per record, each cell written from the record's field for that
/// column.
pub open spec fn table_model(
    names: Seq<Seq<char>>,
    cols: Seq<ColumnDescV>,
    recs: Seq<Seq<CellV>>,
) -> VData {
    VData::Object(
        seq![
            ("columns"@, VData::Array(Seq::new(names.len(), |j: int| VData::String(names[j])))),
            (
                "rows"@,
                VData::Array(
                    Seq::new(recs.len(), |k: int| VData::Array(encode_row_v(cols, recs[k]))),
                ),
            ),
        ],
    )
}

/// In a well-formed schema, two different columns read different fields.
pub proof fn lemma_wf_sources_distinct(fields: Seq<FieldDefV>, cols: Seq<ColumnDescV>)
    requires
        crate::schema::schema_wf(fields, cols),
    ensures
        forall|q1: int, q2: int|
            0 <= q1 < q2 < cols.len() ==> (#[trigger] cols[q1]).source != (
            #[trigger] cols[q2]).source,
{
    assert forall|q1: int, q2: int| 0 <= q1 < q2 < cols.len() implies (#[trigger] cols[q1]).source
        != (#[trigger] cols[q2]).source by {
        assert(crate::schema::precedes(fields, cols[q1].source, cols[q2].source));
    }
}

/// Replaces the cell at one position of a record.
fn set_cell(rec: &mut Vec<Cell>, i: usize, c: Cell)
    requires
        i < old(rec)@.len(),
    ensures
        final(rec)@.len() == old(rec)@.len(),
        forall|q: int| 0 <= q < old(rec)@.len() && q != i as int ==> #[trigger] final(rec)@[q]
            == old(rec)@[q],
        final(rec)@[i as int]@ == c@,
{
    let ghost gc = c;
    rec.remove(i);
    rec.insert(i, c);
    proof {
        assert(final(rec)@[i as int] == gc);
        assert(forall|q: int|
            0 <= q < old(rec)@.len() && q != i as int ==> #[trigger] final(rec)@[q] == old(
                rec,
            )@[q]);
    }
}

/// Decodes one row against the schema: each column in schema order resolves
/// by name and reads its cell; fields no column reads keep their defaults.
#[verifier::rlimit(50)]
#[verifier::loop_isolation(false)]
fn decode_row(schema: &Schema, columns: &Vec<String>, row: &Value) -> (r: Result<Record, Error>)
    requires
        schema.wf(),
    ensures
        match r {
            Ok(rec) => decode_row_v(
                schema.fields_v(),
                schema.cols_v(),
                strings_views(columns@),
                row@,
            ) == Ok::<Seq<CellV>, ErrorV>(record_views(rec@)),
            Err(e) => decode_row_v(
                schema.fields_v(),
                schema.cols_v(),
                strings_views(columns@),
                row@,
            ) == Err::<Seq<CellV>, ErrorV>(e@),
        },
{
    let ghost fields = schema.fields_v();
    let ghost cols = schema.cols_v();
    let ghost tcols = strings_views(columns@);
    let ghost rowv = row@;
    proof {
        lemma_wf_sources_distinct(fields, cols);
    }
    let nf = schema.field_count();
    let mut rec: Vec<Cell> = Vec::new();
    let mut i: usize = 0;
    while i < nf
        invariant
            0 <= i <= nf,
            rec@.len() == i,
            forall|q: int| 0 <= q < i ==> #[trigger] rec@[q]@ == default_cell_v(fields[q].ty),
        decreases nf - i,
    {
        let fd = schema.field_at(i);
        rec.push(default_cell(fd.ty));
        i = i + 1;
    }
    let nc = schema.column_count();
    let mut j: usize = 0;
    while j < nc
        invariant
            0 <= j <= nc,
            rec@.len() == nf,
            forall|q: int| 0 <= q < j ==> (#[trigger] decode_field(tcols, rowv, cols[q])) is Ok,
            forall|i2: int|
                0 <= i2 < nf ==> #[trigger] rec@[i2]@ == row_cell_upto(
                    fields,
                    cols,
                    tcols,
                    rowv,
                    i2,
                    j as int,
                ),
        decreases nc - j,
    {
        let cd = schema.column_at(j);
        let src = cd.source;
        match decode_field_exec(columns, row, cd) {
            Ok(c) => {
                let ghost oldrec = rec@;
                let ghost gcv = c@;
                set_cell(&mut rec, src, c);
                proof {
                    assert forall|i2: int| 0 <= i2 < nf implies #[trigger] rec@[i2]@
                        == row_cell_upto(fields, cols, tcols, rowv, i2, j as int + 1) by {
                        if i2 == src as int {
                            assert(cols[j as int].source == i2);
                            let q = choose|q: int|
                                0 <= q < j as int + 1 && (#[trigger] cols[q]).source == i2;
                            assert(q == j as int);
                            assert(rec@[i2]@ == gcv);
                        } else {
                            if exists|q: int|
                                0 <= q < j as int && (#[trigger] cols[q]).source == i2 {
                                let q0 = choose|q: int|
                                    0 <= q < j as int && (#[trigger] cols[q]).source == i2;
                                let q1 = choose|q: int|
                                    0 <= q < j as int + 1 && (#[trigger] cols[q]).source == i2;
                                assert(q1 != j as int);
                                assert(q0 == q1);
                            } else {
                                if exists|q: int|
                                    0 <= q < j as int + 1 && (#[trigger] cols[q]).source == i2 {
                                    let q1 = choose|q: int|
                                        0 <= q < j as int + 1 && (#[trigger] cols[q]).source == i2;
                                    assert(q1 == j as int);
                                    assert(false);
                                }
                            }
                        }
                    }
                }
            },
            Err(e) => {
                proof {
                    lemma_row_first_err_skip(cols, tcols, rowv, j as int);
                    assert(row_first_err(cols, tcols, rowv, j as int) == Some(e@));
                }
                return Err(e);
            },
        }
        j = j + 1;
    }
    proof {
        lemma_row_first_err_skip(cols, tcols, rowv, nc as int);
        assert(row_first_err(cols, tcols, rowv, 0) is None);
        assert(record_views(rec@) =~= row_value(fields, cols, tcols, rowv));
    }
    Ok(rec)
}

/// Resolves and reads one schema column out of one row.
fn decode_field_exec(columns: &Vec<String>, row: &Value, cd: &ColumnDesc) -> (r: Result<
    Cell,
    Error,
>)
    ensures
        match r {
            Ok(c) => decode_field(strings_views(columns@), row@, cd@) == Ok::<CellV, ErrorV>(c@),
            Err(e) => decode_field(strings_views(columns@), row@, cd@) == Err::<CellV, ErrorV>(e@),
        },
{
    match find_column(columns, cd.name.as_str()) {
        Some(ci) => match get_cell(row, ci) {
            Ok(cellv) => read_cell(cd.ty, cellv),
            Err(e) => Err(e),
        },
        None => {
            if cd.default {
                Ok(default_cell(cd.ty))
            } else {
                Err(Error::missing_column(cd.name.as_str()))
            }
        },
    }
}

/// Encodes a record sequence as a columnar table value: `columns` holds the
/// schema's column names in schema order, and `rows` holds one cell array per
/// record, written through the cell protocol. Encoding never fails, and an
/// empty sequence still gets its full column header.
#[verifier::rlimit(50)]
#[verifier::loop_isolation(false)]
pub fn encode_table(schema: &Schema, records: &Vec<Record>) -> (r: Value)
    requires
        schema.wf(),
        forall|k: int|
            0 <= k < records@.len() ==> (#[trigger] records@[k])@.len()
                == schema.fields_v().len(),
    ensures
        r@ == table_model(schema.names_v(), schema.cols_v(), records_views(records@)),
{
    let ghost fields = schema.fields_v();
    let ghost cols = schema.cols_v();
    let nc = schema.column_count();
    let mut cols_vals: Vec<Value> = Vec::new();
    let mut j: usize = 0;
    while j < nc
        invariant
            0 <= j <= nc,
            cols_vals@.len() == j,
            forall|q: int|
                0 <= q < j ==> #[trigger] cols_vals@[q]@ == VData::String(schema.names_v()[q]),
        decreases nc - j,
    {
        let cd = schema.column_at(j);
        cols_vals.push(Value::String(cd.name.clone()));
        j = j + 1;
    }
    let nr = records.len();
    let mut rows_vals: Vec<Value> = Vec::new();
    let mut k: usize = 0;
    while k < nr
        invariant
            0 <= k <= nr,
            nr == records@.len(),
            cols_vals@.len() == nc,
            forall|q: int|
                0 <= q < nc ==> #[trigger] cols_vals@[q]@ == VData::String(schema.names_v()[q]),
            rows_vals@.len() == k,
            forall|q: int|
                0 <= q < k ==> #[trigger] rows_vals@[q]@ == VData::Array(
                    encode_row_v(cols, record_views(records@[q]@)),
                ),
        decreases nr - k,
    {
        let rec = &records[k];
        let mut cells: Vec<Value> = Vec::new();
        let mut j2: usize = 0;
        while j2 < nc
            invariant
                0 <= j2 <= nc,
                cols_vals@.len() == nc,
                forall|q: int|
                    0 <= q < nc ==> #[trigger] cols_vals@[q]@ == VData::String(
                        schema.names_v()[q],
                    ),
                rows_vals@.len() == k,
                forall|q: int|
                    0 <= q < k ==> #[trigger] rows_vals@[q]@ == VData::Array(
                        encode_row_v(cols, record_views(records@[q]@)),
                    ),
                cells@.len() == j2,
                forall|q: int|
                    0 <= q < j2 ==> #[trigger] cells@[q]@ == cell_to_vdata(
                        record_views(rec@)[cols[q].source],
                    ),
            decreases nc - j2,
        {
            let cd = schema.column_at(j2);
            proof {
                assert(cols[j2 as int].source < fields.len());
                assert(records@[k as int]@.len() == fields.len());
                assert(cd@.source == cd.source as int);
            }
            cells.push(cell_value(&rec[cd.source]));
            j2 = j2 + 1;
        }
        let ghost gcells = cells@;
        let rowval = Value::Array(cells);
        proof {
            assert forall|q: int| 0 <= q < nc as int implies #[trigger] rowval@->Array_0[q]
                == encode_row_v(cols, record_views(records@[k as int]@))[q] by {
                assert(rowval@->Array_0[q] == gcells[q]@);
            }
            assert(rowval@->Array_0 =~= encode_row_v(cols, record_views(records@[k as int]@)));
        }
        rows_vals.push(rowval);
        k = k + 1;
    }
    let ghost gcols_vals = cols_vals@;
    let ghost grows_vals = rows_vals@;
    let colsval = Value::Array(cols_vals);
    let rowsval = Value::Array(rows_vals);
    proof {
        reveal_strlit("columns");
        reveal_strlit("rows");
        assert forall|q: int| 0 <= q < nc as int implies #[trigger] colsval@->Array_0[q]
            == VData::String(schema.names_v()[q]) by {
            assert(colsval@->Array_0[q] == gcols_vals[q]@);
        }
        assert(colsval@->Array_0 =~= Seq::new(
            schema.names_v().len(),
            |q: int| VData::String(schema.names_v()[q]),
        ));
        assert forall|q: int| 0 <= q < nr as int implies #[trigger] rowsval@->Array_0[q]
            == VData::Array(encode_row_v(cols, records_views(records@)[q])) by {
            assert(rowsval@->Array_0[q] == grows_vals[q]@);
            assert(records_views(records@)[q] == record_views(records@[q]@));
        }
        assert(rowsval@->Array_0 =~= Seq::new(
            records_views(records@).len(),
            |q: int| VData::Array(encode_row_v(cols, records_views(records@)[q])),
        ));
    }
    let mut m = ValueMap::new();
    let ghost gcolsval = colsval@;
    let ghost growsval = rowsval@;
    m.insert(String::from_str("columns"), colsval);
    m.insert(String::from_str("rows"), rowsval);
    proof {
        reveal_strlit("columns");
        reveal_strlit("rows");
        assert("columns"@.len() == 7);
        assert("rows"@.len() == 4);
        assert("columns"@ != "rows"@);
        assert(m.model() =~= seq![("columns"@, gcolsval), ("rows"@, growsval)]);
    }
    let r = Value::Object(m);
    proof {
        assert(r@ =~~= table_model(schema.names_v(), cols, records_views(records@)));
    }
    r
}

/// Decodes a table value into records: validates the table's shape, then
/// decodes every row in order against the schema, stopping at the first
/// error.
#[verifier::rlimit(50)]
#[verifier::loop_isolation(false)]
pub fn decode_table(schema: &Schema, value: &Value) -> (r: Result<Vec<Record>, Error>)
    requires
        schema.wf(),
    ensures
        match r {
            Ok(recs) => decode_table_v(schema.fields_v(), schema.cols_v(), value@) == Ok::<
                Seq<Seq<CellV>>,
                ErrorV,
            >(records_views(recs@)),
            Err(e) => decode_table_v(schema.fields_v(), schema.cols_v(), value@) == Err::<
                Seq<Seq<CellV>>,
                ErrorV,
            >(e@),
        },
{
    let ghost fields = schema.fields_v();
    let ghost cols = schema.cols_v();
    let columns = match extract_columns(value) {
        Ok(c) => c,
        Err(e) => {
            return Err(e);
        },
    };
    let rows = match extract_rows(value) {
        Ok(rs) => rs,
        Err(e) => {
            return Err(e);
        },
    };
    let ghost tcols = strings_views(columns@);
    let ghost rowsv = Seq::new(rows@.len(), |q: int| rows@[q]@);
    let nr = rows.len();
    let mut out: Vec<Record> = Vec::new();
    let mut k: usize = 0;
    while k < nr
        invariant
            0 <= k <= nr,
            out@.len() == k,
            forall|q: int|
                0 <= q < k ==> #[trigger] decode_row_v(fields, cols, tcols, rowsv[q]) == Ok::<
                    Seq<CellV>,
                    ErrorV,
                >(record_views(out@[q]@)),
        decreases nr - k,
    {
        match decode_row(schema, &columns, &rows[k]) {
            Ok(rec) => {
                out.push(rec);
            },
            Err(e) => {
                proof {
                    assert forall|q: int| 0 <= q < k as int implies (#[trigger] decode_row_v(
                        fields,
                        cols,
                        tcols,
                        rowsv[q],
                    )) is Ok by {}
                    lemma_rows_first_err_skip(fields, cols, tcols, rowsv, k as int);
                    assert(rows_first_err(fields, cols, tcols, rowsv, k as int) == Some(e@));
                }
                return Err(e);
            },
        }
        k = k + 1;
    }
    proof {
        assert forall|q: int| 0 <= q < nr as int implies (#[trigger] decode_row_v(
            fields,
            cols,
            tcols,
            rowsv[q],
        )) is Ok by {}
        lemma_rows_first_err_skip(fields, cols, tcols, rowsv, nr as int);
        assert(rows_first_err(fields, cols, tcols, rowsv, 0) is None);
        assert forall|q: int| 0 <= q < nr as int implies #[trigger] records_views(out@)[q]
            == row_value(fields, cols, tcols, rowsv[q]) by {
            assert(decode_row_v(fields, cols, tcols, rowsv[q]) == Ok::<Seq<CellV>, ErrorV>(
                record_views(out@[q]@),
            ));
        }
        assert(records_views(out@) =~= Seq::new(
            rowsv.len(),
            |q: int| row_value(fields, cols, tcols, rowsv[q]),
        ));
    }
    Ok(out)
}

/// Decodes a table and selects the record at `index`; an index at or past the
/// decoded length fails with the index and the true decoded length. Each call
/// decodes the whole table first.
pub fn get_row(schema: &Schema, value: &Value, index: usize) -> (r: Result<Record, Error>)
    requires
        schema.wf(),
    ensures
        match r {
            Ok(rec) => get_row_v(schema.fields_v(), schema.cols_v(), value@, index as int) == Ok::<
                Seq<CellV>,
                ErrorV,
            >(record_views(rec@)),
            Err(e) => get_row_v(schema.fields_v(), schema.cols_v(), value@, index as int) == Err::<
                Seq<CellV>,
                ErrorV,
            >(e@),
        },
{
    let mut rows = match decode_table(schema, value) {
        Ok(r) => r,
        Err(e) => {
            return Err(e);
        },
    };
    let len = rows.len();
    let ghost grows = rows@;
    if index < len {
        let rec = rows.remove(index);
        proof {
            assert(records_views(grows)[index as int] == record_views(rec@));
        }
        Ok(rec)
    } else {
        Err(Error::RowOutOfBounds { index, len })
    }
}

} // verus!
