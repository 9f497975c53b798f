//! Scans of discovered tables: the SQL a scan runs and how its rows are
//! collected into column buffers.

use vstd::prelude::*;
use vstd::string::StringExecFns;

use crate::connector::errors::{ConnectorError, ConnectorErrorView};
use crate::mysql::arrow_schema::{
    append_outcome, append_value, cell_fits, empty_builder, read_view, ArrayBuilderHandle, ArrowCell,
    ArrowCellView, ArrowField, ArrowType, BuilderView, MysqlColumn,
};
use crate::mysql::ident::{bad_ident_text, valid_component, SafeIdent};
use crate::text::{decimal_text, join, join_strings, push_decimal, string_views};

verus! {

/// Why a scan cannot be planned: an internal inconsistency, or an
/// identifier that is not safe to put into SQL.
#[derive(Debug)]
pub enum ScanError {
    Internal(String),
    External(ConnectorError),
}

/// The names of columns.
pub open spec fn column_names(cols: Seq<MysqlColumn>) -> Seq<Seq<char>> {
    cols.map_values(|c: MysqlColumn| c.name@)
}

/// The first name that is not a valid identifier component.
pub open spec fn first_invalid(names: Seq<Seq<char>>) -> Option<Seq<char>>
    decreases names.len(),
{
    if names.len() == 0 {
        None
    } else if !valid_component(names[0]) {
        Some(names[0])
    } else {
        first_invalid(names.drop_first())
    }
}

proof fn lemma_first_invalid_skip(names: Seq<Seq<char>>, i: int)
    requires
        0 <= i <= names.len(),
        forall|j: int| 0 <= j < i ==> valid_component(#[trigger] names[j]),
    ensures
        first_invalid(names) == first_invalid(names.skip(i)),
    decreases i,
{
    if i > 0 {
        assert(valid_component(names[0]));
        assert forall|j: int| 0 <= j < i - 1 implies valid_component(#[trigger] names.drop_first()[j]) by {
            assert(names.drop_first()[j] == names[j + 1]);
        }
        lemma_first_invalid_skip(names.drop_first(), i - 1);
        assert(names.drop_first().skip(i - 1) =~= names.skip(i));
    } else {
        assert(names.skip(0) =~= names);
    }
}

/// The SQL of a scan: the columns (unquoted, already validated), the
/// schema-qualified table, and the row limit when one is pushed down.
pub open spec fn scan_sql(schema: Seq<char>, table: Seq<char>, cols: Seq<Seq<char>>, limit: Option<usize>) -> Seq<char> {
    "SELECT "@ + join(cols, ", "@) + " FROM "@ + schema + "."@ + table + match limit {
        Some(n) => " LIMIT "@ + decimal_text(n as nat),
        None => Seq::empty(),
    }
}

/// The SQL a scan runs, or why it cannot run: no column projected, or a
/// schema, table or column name that is not a valid identifier (checked
/// in that order).
pub open spec fn scan_outcome(schema: Seq<char>, table: Seq<char>, cols: Seq<MysqlColumn>, limit: Option<usize>) -> Result<Seq<char>, Option<ConnectorErrorView>> {
    if cols.len() == 0 {
        Err(None)
    } else if !valid_component(schema) {
        Err(Some(ConnectorErrorView::InvalidIntent(bad_ident_text(schema))))
    } else if !valid_component(table) {
        Err(Some(ConnectorErrorView::InvalidIntent(bad_ident_text(table))))
    } else {
        match first_invalid(column_names(cols)) {
            Some(c) => Err(Some(ConnectorErrorView::InvalidIntent(bad_ident_text(c)))),
            None => Ok(scan_sql(schema, table, column_names(cols), limit)),
        }
    }
}

/// Builds the SQL of a scan over the projected columns (see `scan_outcome`;
/// an empty projection is an internal error).
pub fn build_select_sql(schema_name: &str, table_name: &str, cols: &Vec<MysqlColumn>, limit: Option<usize>) -> (r: Result<String, ScanError>)
    ensures
        match scan_outcome(schema_name@, table_name@, cols@, limit) {
            Ok(sql) => r matches Ok(s) && s@ == sql,
            Err(None) => r matches Err(ScanError::Internal(m)) && m@ == "MysqlTableProvider::scan with zero projected columns"@,
            Err(Some(e)) => r matches Err(ScanError::External(x)) && x@ == e,
        },
{
    if cols.len() == 0 {
        return Err(ScanError::Internal(String::from_str("MysqlTableProvider::scan with zero projected columns")));
    }
    let schema_ident = match SafeIdent::single(schema_name) {
        Ok(s) => s,
        Err(e) => return Err(ScanError::External(e)),
    };
    let table_ident = match SafeIdent::single(table_name) {
        Ok(t) => t,
        Err(e) => return Err(ScanError::External(e)),
    };
    let ghost names = column_names(cols@);
    let mut idents: Vec<String> = Vec::new();
    let mut i: usize = 0;
    while i < cols.len()
        invariant
            names == column_names(cols@),
            cols@.len() > 0,
            valid_component(schema_name@),
            valid_component(table_name@),
            i <= cols@.len(),
            string_views(idents@) == names.take(i as int),
            forall|j: int| 0 <= j < i ==> valid_component(#[trigger] names[j]),
        decreases cols@.len() - i,
    {
        assert(names[i as int] == cols@[i as int].name@);
        let safe = match SafeIdent::single(cols[i].name.as_str()) {
            Ok(s) => s,
            Err(e) => {
                proof {
                    lemma_first_invalid_skip(names, i as int);
                    assert(names.skip(i as int)[0] == names[i as int]);
                }
                return Err(ScanError::External(e));
            },
        };
        let ghost before = idents@;
        let s = String::from_str(safe.as_str());
        idents.push(s);
        proof {
            assert(string_views(idents@) =~= string_views(before).push(s@));
            assert(names.take(i + 1) =~= names.take(i as int).push(names[i as int]));
        }
        i = i + 1;
    }
    proof {
        assert(names.take(names.len() as int) =~= names);
        lemma_first_invalid_skip(names, names.len() as int);
        assert(names.skip(names.len() as int).len() == 0);
    }
    let mut sql = String::from_str("SELECT ");
    sql.append(join_strings(&idents, ", ").as_str());
    sql.append(" FROM ");
    sql.append(schema_ident.as_str());
    sql.append(".");
    sql.append(table_ident.as_str());
    let ghost base = sql@;
    match limit {
        Some(n) => {
            sql.append(" LIMIT ");
            push_decimal(&mut sql, n as u64);
        },
        None => {},
    }
    proof {
        assert(sql@ =~= scan_sql(schema_name@, table_name@, names, limit));
    }
    Ok(sql)
}

/// The projected columns of a table, in projection order (all of them
/// without a projection).
pub fn project_columns(columns: &Vec<MysqlColumn>, projection: Option<&Vec<usize>>) -> (r: Vec<MysqlColumn>)
    requires
        projection matches Some(p) ==> forall|k: int| 0 <= k < p@.len() ==> (#[trigger] p@[k]) < columns@.len(),
    ensures
        match projection {
            Some(p) => r@.len() == p@.len() && forall|k: int| 0 <= k < p@.len() ==> #[trigger] r@[k] == columns@[p@[k] as int],
            None => r@ == columns@,
        },
{
    let mut out: Vec<MysqlColumn> = Vec::new();
    match projection {
        Some(p) => {
            let mut k: usize = 0;
            while k < p.len()
                invariant
                    forall|q: int| 0 <= q < p@.len() ==> (#[trigger] p@[q]) < columns@.len(),
                    k <= p@.len(),
                    out@.len() == k,
                    forall|q: int| 0 <= q < k ==> #[trigger] out@[q] == columns@[p@[q] as int],
                decreases p@.len() - k,
            {
                out.push(columns[p[k]].clone());
                k = k + 1;
            }
        },
        None => {
            let mut k: usize = 0;
            while k < columns.len()
                invariant
                    k <= columns@.len(),
                    out@ == columns@.take(k as int),
                decreases columns@.len() - k,
            {
                out.push(columns[k].clone());
                assert(out@ =~= columns@.take(k + 1));
                k = k + 1;
            }
            assert(columns@.take(columns@.len() as int) =~= columns@);
        },
    }
    out
}


/// The Arrow type a buffer collects.
pub open spec fn builder_type(b: BuilderView) -> ArrowType {
    match b {
        BuilderView::Boolean(_) => ArrowType::Boolean,
        BuilderView::Int8(_) => ArrowType::Int8,
        BuilderView::Int16(_) => ArrowType::Int16,
        BuilderView::Int32(_) => ArrowType::Int32,
        BuilderView::Int64(_) => ArrowType::Int64,
        BuilderView::UInt32(_) => ArrowType::UInt32,
        BuilderView::Float32(_) => ArrowType::Float32,
        BuilderView::Float64(_) => ArrowType::Float64,
        BuilderView::Decimal128(_, p, s) => ArrowType::Decimal128(p, s),
        BuilderView::Date32(_) => ArrowType::Date32,
        BuilderView::TimestampMicros(_) => ArrowType::TimestampMicros,
        BuilderView::Utf8(_) => ArrowType::Utf8,
        BuilderView::LargeBinary(_) => ArrowType::LargeBinary,
    }
}

/// A row value is of the native type an Arrow type is read as (see
/// `cell_fits`).
pub open spec fn type_fits(t: ArrowType, c: ArrowCellView) -> bool {
    match (t, c) {
        (ArrowType::Boolean, ArrowCellView::Bool(_)) => true,
        (ArrowType::Int8, ArrowCellView::I8(_)) => true,
        (ArrowType::Int16, ArrowCellView::I16(_)) => true,
        (ArrowType::Int32, ArrowCellView::I32(_)) => true,
        (ArrowType::Int64, ArrowCellView::I64(_)) => true,
        (ArrowType::UInt32, ArrowCellView::U32(_)) => true,
        (ArrowType::Float32, ArrowCellView::F32Bits(_)) => true,
        (ArrowType::Float64, ArrowCellView::F64Bits(_)) => true,
        (ArrowType::Decimal128(_, s), ArrowCellView::Decimal(d)) => d.wf() && -38 <= s - d.scale <= 38,
        (ArrowType::Date32, ArrowCellView::Date(_)) => true,
        (ArrowType::TimestampMicros, ArrowCellView::TimestampMicros(_)) => true,
        (ArrowType::Utf8, ArrowCellView::Text(_)) => true,
        (ArrowType::LargeBinary, ArrowCellView::Bytes(_)) => true,
        _ => false,
    }
}

proof fn lemma_builder_kinds(t: ArrowType, b: BuilderView, col: Seq<char>, read: Result<Option<ArrowCellView>, Seq<char>>)
    ensures
        forall|c: ArrowCellView| cell_fits(b, c) == type_fits(builder_type(b), c),
        empty_builder(t) matches Ok(e) ==> builder_type(e) == t,
        append_outcome(col, read, b) matches Ok(nb) ==> builder_type(nb) == builder_type(b),
{
}

/// A read that fits a column of type `t`.
pub open spec fn read_fits(t: ArrowType, r: Result<Option<ArrowCellView>, Seq<char>>) -> bool {
    r matches Ok(Some(c)) ==> type_fits(t, c)
}

/// Fresh buffers for the given types, in order; the first type Arrow
/// refuses is the error.
pub open spec fn empty_builders(types: Seq<ArrowType>) -> Result<Seq<BuilderView>, ConnectorErrorView>
    decreases types.len(),
{
    if types.len() == 0 {
        Ok(Seq::empty())
    } else {
        match empty_builders(types.drop_last()) {
            Err(e) => Err(e),
            Ok(bs) => match empty_builder(types.last()) {
                Err(e) => Err(e),
                Ok(b) => Ok(bs.push(b)),
            },
        }
    }
}

/// The buffers after appending the first `k` reads of a row, column by
/// column; the first failing append is the error.
pub open spec fn append_cells(
    names: Seq<Seq<char>>,
    cells: Seq<Result<Option<ArrowCellView>, Seq<char>>>,
    bs: Seq<BuilderView>,
    k: nat,
) -> Result<Seq<BuilderView>, ConnectorErrorView>
    decreases k,
{
    if k == 0 {
        Ok(bs)
    } else {
        match append_cells(names, cells, bs, (k - 1) as nat) {
            Err(e) => Err(e),
            Ok(b2) => match append_outcome(names[k - 1], cells[k - 1], b2[k - 1]) {
                Err(e) => Err(e),
                Ok(nb) => Ok(b2.update(k - 1, nb)),
            },
        }
    }
}

/// The buffers after appending every row, in order.
pub open spec fn append_rows(
    names: Seq<Seq<char>>,
    rows: Seq<Seq<Result<Option<ArrowCellView>, Seq<char>>>>,
    bs: Seq<BuilderView>,
) -> Result<Seq<BuilderView>, ConnectorErrorView>
    decreases rows.len(),
{
    if rows.len() == 0 {
        Ok(bs)
    } else {
        match append_rows(names, rows.drop_last(), bs) {
            Err(e) => Err(e),
            Ok(b2) => append_cells(names, rows.last(), b2, names.len()),
        }
    }
}

/// The types of fields.
pub open spec fn field_types(fields: Seq<ArrowField>) -> Seq<ArrowType> {
    fields.map_values(|f: ArrowField| f.data_type)
}

/// Reads of a row, by value.
pub open spec fn reads_view(row: Seq<Result<Option<ArrowCell>, String>>) -> Seq<Result<Option<ArrowCellView>, Seq<char>>> {
    row.map_values(|r: Result<Option<ArrowCell>, String>| read_view(r))
}

/// Buffers, by value.
pub open spec fn builders_view(v: Seq<ArrayBuilderHandle>) -> Seq<BuilderView> {
    v.map_values(|b: ArrayBuilderHandle| b@)
}

proof fn lemma_append_cells_err_extends(
    names: Seq<Seq<char>>,
    cells: Seq<Result<Option<ArrowCellView>, Seq<char>>>,
    bs: Seq<BuilderView>,
    k: nat,
    n: nat,
)
    requires
        k <= n,
        append_cells(names, cells, bs, k) is Err,
    ensures
        append_cells(names, cells, bs, n) == append_cells(names, cells, bs, k),
    decreases n - k,
{
    if k < n {
        lemma_append_cells_err_extends(names, cells, bs, k, (n - 1) as nat);
    }
}

proof fn lemma_append_rows_err_extends(
    names: Seq<Seq<char>>,
    rows: Seq<Seq<Result<Option<ArrowCellView>, Seq<char>>>>,
    bs: Seq<BuilderView>,
    k: int,
)
    requires
        0 <= k <= rows.len(),
        append_rows(names, rows.take(k), bs) is Err,
    ensures
        append_rows(names, rows, bs) == append_rows(names, rows.take(k), bs),
    decreases rows.len() - k,
{
    if k == rows.len() {
        assert(rows.take(k) =~= rows);
    } else {
        assert(rows.take(k + 1).drop_last() =~= rows.take(k));
        lemma_append_rows_err_extends(names, rows, bs, k + 1);
    }
}

proof fn lemma_empty_builders_err_extends(types: Seq<ArrowType>, k: int)
    requires
        0 <= k <= types.len(),
        empty_builders(types.take(k)) is Err,
    ensures
        empty_builders(types) == empty_builders(types.take(k)),
    decreases types.len() - k,
{
    if k == types.len() {
        assert(types.take(k) =~= types);
    } else {
        assert(types.take(k + 1).drop_last() =~= types.take(k));
        lemma_empty_builders_err_extends(types, k + 1);
    }
}

/// Fresh buffers for the fields' types.
fn new_builders(fields: &Vec<ArrowField>, capacity: usize) -> (r: Result<Vec<ArrayBuilderHandle>, ConnectorError>)
    ensures
        match empty_builders(field_types(fields@)) {
            Ok(bs) => r matches Ok(v) && builders_view(v@) == bs,
            Err(e) => r matches Err(x) && x@ == e,
        },
{
    let ghost types = field_types(fields@);
    let mut out: Vec<ArrayBuilderHandle> = Vec::new();
    let mut i: usize = 0;
    proof {
        assert(types.take(0) =~= Seq::<ArrowType>::empty());
        assert(builders_view(out@) =~= Seq::<BuilderView>::empty());
    }
    while i < fields.len()
        invariant
            types == field_types(fields@),
            i <= fields@.len(),
            empty_builders(types.take(i as int)) == Ok::<Seq<BuilderView>, ConnectorErrorView>(builders_view(out@)),
        decreases fields@.len() - i,
    {
        proof {
            assert(types.take(i + 1).drop_last() =~= types.take(i as int));
            assert(types.take(i + 1).last() == fields@[i as int].data_type);
        }
        let b = match ArrayBuilderHandle::for_data_type(&fields[i].data_type, capacity) {
            Ok(b) => b,
            Err(e) => {
                proof {
                    lemma_empty_builders_err_extends(types, i + 1);
                }
                return Err(e);
            },
        };
        let ghost before = out@;
        out.push(b);
        proof {
            assert(builders_view(out@) =~= builders_view(before).push(b@));
        }
        i = i + 1;
    }
    proof {
        assert(types.take(fields@.len() as int) =~= types);
    }
    Ok(out)
}

/// Appends one row's reads to the buffers, column by column.
fn append_row(
    columns: &Vec<MysqlColumn>,
    row: Vec<Result<Option<ArrowCell>, String>>,
    builders: Vec<ArrayBuilderHandle>,
    Ghost(types): Ghost<Seq<ArrowType>>,
) -> (r: Result<Vec<ArrayBuilderHandle>, ConnectorError>)
    requires
        row@.len() == columns@.len(),
        builders@.len() == columns@.len(),
        types.len() == columns@.len(),
        forall|q: int| 0 <= q < types.len() ==> builder_type(#[trigger] builders_view(builders@)[q]) == types[q],
        forall|q: int| 0 <= q < row@.len() ==> read_fits(types[q], #[trigger] reads_view(row@)[q]),
    ensures
        r matches Ok(v) ==> v@.len() == columns@.len(),
        match append_cells(column_names(columns@), reads_view(row@), builders_view(builders@), columns@.len()) {
            Ok(bs) => r matches Ok(v) && builders_view(v@) == bs && forall|q: int|
                0 <= q < types.len() ==> builder_type(#[trigger] builders_view(v@)[q]) == types[q],
            Err(e) => r matches Err(x) && x@ == e,
        },
{
    let ghost names = column_names(columns@);
    let ghost cells = reads_view(row@);
    let ghost bs0 = builders_view(builders@);
    let n = columns.len();
    let mut rest = builders;
    let mut cells_rest = row;
    let mut next: Vec<ArrayBuilderHandle> = Vec::new();
    let mut j: usize = 0;
    proof {
        assert(builders_view(next@) + builders_view(rest@) =~= bs0);
    }
    while j < n
        invariant
            n == columns@.len(),
            names == column_names(columns@),
            cells == reads_view(row@),
            bs0 == builders_view(builders@),
            cells.len() == n,
            bs0.len() == n,
            types.len() == n,
            j <= n,
            next@.len() == j,
            rest@.len() == n - j,
            reads_view(cells_rest@) == cells.skip(j as int),
            forall|q: int| 0 <= q < n ==> read_fits(types[q], #[trigger] cells[q]),
            forall|q: int| 0 <= q < n ==> builder_type(#[trigger] (builders_view(next@) + builders_view(rest@))[q]) == types[q],
            append_cells(names, cells, bs0, j as nat) == Ok::<Seq<BuilderView>, ConnectorErrorView>(
                builders_view(next@) + builders_view(rest@),
            ),
        decreases n - j,
    {
        let ghost cur = builders_view(next@) + builders_view(rest@);
        let ghost rest_before = rest@;
        let ghost cells_before = cells_rest@;
        let mut b = rest.remove(0);
        assert(reads_view(cells_rest@).len() == cells_rest@.len());
        let cell = cells_rest.remove(0);
        proof {
            assert(rest@ =~= rest_before.skip(1));
            assert(cells_rest@ =~= cells_before.skip(1));
            assert(reads_view(cells_rest@) =~= reads_view(cells_before).skip(1));
            assert(cells.skip(j as int).skip(1) =~= cells.skip(j + 1));
            assert(reads_view(cells_before)[0] == read_view(cell));
            assert(cells[j as int] == read_view(cell));
            assert(cur[j as int] == b@);
            assert(names[j as int] == columns@[j as int].name@);
            lemma_builder_kinds(types[j as int], b@, names[j as int], cells[j as int]);
            assert(builder_type(b@) == types[j as int]);
        }
        let ghost bv = b@;
        match append_value(columns[j].name.as_str(), cell, &mut b) {
            Ok(()) => {},
            Err(e) => {
                proof {
                    assert(append_cells(names, cells, bs0, (j + 1) as nat) is Err);
                    lemma_append_cells_err_extends(names, cells, bs0, (j + 1) as nat, n as nat);
                }
                return Err(e);
            },
        }
        let ghost next_before = next@;
        next.push(b);
        proof {
            lemma_builder_kinds(types[j as int], bv, names[j as int], cells[j as int]);
            assert(builders_view(next@) =~= builders_view(next_before).push(b@));
            assert(builders_view(next@) + builders_view(rest@) =~= cur.update(j as int, b@));
        }
        j = j + 1;
    }
    proof {
        assert(builders_view(rest@) =~= Seq::<BuilderView>::empty());
        assert(builders_view(next@) + builders_view(rest@) =~= builders_view(next@));
    }
    Ok(next)
}

/// Collects the fetched rows of a scan into one buffer per column: fresh
/// buffers for the fields' types, then each row appended column by column
/// (see `append_outcome`).
pub fn rows_to_columns(
    fields: &Vec<ArrowField>,
    columns: &Vec<MysqlColumn>,
    rows: Vec<Vec<Result<Option<ArrowCell>, String>>>,
) -> (r: Result<Vec<ArrayBuilderHandle>, ConnectorError>)
    requires
        fields@.len() == columns@.len(),
        forall|i: int| 0 <= i < rows@.len() ==> (#[trigger] rows@[i])@.len() == columns@.len(),
        forall|i: int, j: int|
            0 <= i < rows@.len() && 0 <= j < columns@.len() ==> read_fits(
                fields@[j].data_type,
                #[trigger] reads_view(rows@[i]@)[j],
            ),
    ensures
        match empty_builders(field_types(fields@)) {
            Err(e) => r matches Err(x) && x@ == e,
            Ok(bs) => match append_rows(
                column_names(columns@),
                rows@.map_values(|row: Vec<Result<Option<ArrowCell>, String>>| reads_view(row@)),
                bs,
            ) {
                Ok(out) => r matches Ok(v) && builders_view(v@) == out,
                Err(e) => r matches Err(x) && x@ == e,
            },
        },
{
    let ghost types = field_types(fields@);
    let ghost names = column_names(columns@);
    let ghost orig = rows@;
    let ghost all = rows@.map_values(|row: Vec<Result<Option<ArrowCell>, String>>| reads_view(row@));
    let mut builders = match new_builders(fields, rows.len()) {
        Ok(b) => b,
        Err(e) => return Err(e),
    };
    let ghost bs0 = builders_view(builders@);
    proof {
        assert forall|q: int| 0 <= q < types.len() implies builder_type(#[trigger] bs0[q]) == types[q] by {
            lemma_empty_builder_types(types, q);
        }
        if types.len() > 0 {
            lemma_empty_builder_types(types, 0);
        } else {
            assert(bs0.len() == 0);
        }
        assert(builders_view(builders@).len() == builders@.len());
        assert(all.take(0) =~= Seq::<Seq<Result<Option<ArrowCellView>, Seq<char>>>>::empty());
    }
    let mut rest = rows;
    let n = rest.len();
    let mut i: usize = 0;
    while i < n
        invariant
            n == orig.len(),
            orig == rows@,
            all == orig.map_values(|row: Vec<Result<Option<ArrowCell>, String>>| reads_view(row@)),
            names == column_names(columns@),
            types == field_types(fields@),
            fields@.len() == columns@.len(),
            empty_builders(types) == Ok::<Seq<BuilderView>, ConnectorErrorView>(bs0),
            i <= n,
            rest@ == orig.skip(i as int),
            builders@.len() == columns@.len(),
            forall|q: int| 0 <= q < orig.len() ==> (#[trigger] orig[q])@.len() == columns@.len(),
            forall|a: int, b: int|
                0 <= a < orig.len() && 0 <= b < columns@.len() ==> read_fits(
                    fields@[b].data_type,
                    #[trigger] reads_view(orig[a]@)[b],
                ),
            forall|q: int| 0 <= q < types.len() ==> builder_type(#[trigger] builders_view(builders@)[q]) == types[q],
            append_rows(names, all.take(i as int), bs0) == Ok::<Seq<BuilderView>, ConnectorErrorView>(builders_view(builders@)),
        decreases n - i,
    {
        let ghost rest_before = rest@;
        let row = rest.remove(0);
        proof {
            assert(rest@ =~= rest_before.skip(1));
            assert(rest@ =~= orig.skip(i + 1));
            assert(row == orig[i as int]);
            assert(all.take(i + 1).drop_last() =~= all.take(i as int));
            assert(all.take(i + 1).last() == reads_view(row@));
            assert forall|q: int| 0 <= q < row@.len() implies read_fits(types[q], #[trigger] reads_view(row@)[q]) by {
                assert(read_fits(fields@[q].data_type, reads_view(orig[i as int]@)[q]));
            }
        }
        builders = match append_row(columns, row, builders, Ghost(types)) {
            Ok(b) => b,
            Err(e) => {
                proof {
                    lemma_append_rows_err_extends(names, all, bs0, i + 1);
                }
                return Err(e);
            },
        };
        i = i + 1;
    }
    proof {
        assert(all.take(n as int) =~= all);
    }
    Ok(builders)
}

proof fn lemma_empty_builder_types(types: Seq<ArrowType>, q: int)
    requires
        empty_builders(types) is Ok,
        0 <= q < types.len(),
    ensures
        builder_type(empty_builders(types)->Ok_0[q]) == types[q],
        empty_builders(types)->Ok_0.len() == types.len(),
    decreases types.len(),
{
    let bs = empty_builders(types)->Ok_0;
    let prev = empty_builders(types.drop_last());
    assert(prev is Ok);
    let b = empty_builder(types.last())->Ok_0;
    lemma_builder_kinds(types.last(), b, Seq::empty(), Err(Seq::empty()));
    assert(bs == prev->Ok_0.push(b));
    if q < types.len() - 1 {
        lemma_empty_builder_types(types.drop_last(), q);
        assert(bs[q] == prev->Ok_0[q]);
    } else {
        if types.len() > 1 {
            lemma_empty_builder_types(types.drop_last(), 0);
        }
        assert(bs[q] == b);
    }
}

} // verus!
