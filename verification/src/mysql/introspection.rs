//! Discovery of the in-scope tables and their columns.
//!
//! The bounded scopes (`Table`, `Tables`) name their tables; the unbounded
//! ones (`WholeSchema`, `WholeDatabase`) are listed from
//! `INFORMATION_SCHEMA`. Each discovered table carries its columns and the
//! Arrow fields the query engine is handed.

use vstd::prelude::*;
use vstd::string::StringExecFns;

use crate::access::SourceAccessScope;
use crate::connector::errors::{ConnectorError, ConnectorErrorView};
use crate::mysql::arrow_schema::{ArrowField, ArrowType, MysqlColumn};

verus! {

/// One discovered table with its ordered columns and their Arrow fields.
#[derive(Debug)]
pub struct MysqlTable {
    /// MySQL schema (database) name.
    pub schema_name: String,
    /// Table name within that schema.
    pub table_name: String,
    /// Ordered column descriptors.
    pub columns: Vec<MysqlColumn>,
    /// The Arrow field of each column, in the same order.
    pub arrow_fields: Vec<ArrowField>,
}

/// The label of a scope's kind, as traces carry it.
pub open spec fn spec_scope_kind(scope: SourceAccessScope) -> Seq<char> {
    match scope {
        SourceAccessScope::Table { .. } => "table"@,
        SourceAccessScope::Tables { .. } => "tables"@,
        SourceAccessScope::WholeSchema { .. } => "whole_schema"@,
        SourceAccessScope::WholeDatabase { .. } => "whole_database"@,
    }
}

/// The label of a scope's kind.
pub fn scope_kind(scope: &SourceAccessScope) -> (r: &'static str)
    ensures
        r@ == spec_scope_kind(*scope),
{
    match scope {
        SourceAccessScope::Table { .. } => "table",
        SourceAccessScope::Tables { .. } => "tables",
        SourceAccessScope::WholeSchema { .. } => "whole_schema",
        SourceAccessScope::WholeDatabase { .. } => "whole_database",
    }
}

/// The schemas whose base tables are listed from `INFORMATION_SCHEMA`:
/// the one schema, or each listed database; none for a bounded scope,
/// whose tables are explicit.
pub fn schemas_to_list(scope: &SourceAccessScope) -> (r: Vec<String>)
    ensures
        match scope {
            SourceAccessScope::WholeSchema { schema } => r@ == seq![*schema],
            SourceAccessScope::WholeDatabase { databases } => r@ == databases@,
            _ => r@.len() == 0,
        },
        forall|i: int, table: Seq<char>| 0 <= i < r@.len() ==> #[trigger] scope.spec_contains(r@[i]@, table),
{
    match scope {
        SourceAccessScope::WholeSchema { schema } => {
            let mut v: Vec<String> = Vec::new();
            v.push(schema.clone());
            v
        },
        SourceAccessScope::WholeDatabase { databases } => {
            let mut v: Vec<String> = Vec::new();
            let mut i: usize = 0;
            while i < databases.len()
                invariant
                    i <= databases@.len(),
                    v@ == databases@.take(i as int),
                decreases databases@.len() - i,
            {
                v.push(databases[i].clone());
                assert(v@ =~= databases@.take(i + 1));
                i = i + 1;
            }
            assert(databases@.take(databases@.len() as int) =~= databases@);
            assert forall|k: int, table: Seq<char>| 0 <= k < v@.len() implies #[trigger] scope.spec_contains(
                v@[k]@,
                table,
            ) by {
                assert(databases@[k] == v@[k]);
            }
            v
        },
        _ => Vec::new(),
    }
}

/// The message for a table with no visible column.
pub open spec fn no_columns_text(schema: Seq<char>, table: Seq<char>) -> Seq<char> {
    "table "@ + schema + "."@ + table
        + " has no columns visible to eh_service (likely missing GRANTs or table does not exist)"@
}

/// The first column whose type has no Arrow mapping, if any.
pub open spec fn first_unmapped(cols: Seq<MysqlColumn>) -> Option<MysqlColumn>
    decreases cols.len(),
{
    if cols.len() == 0 {
        None
    } else if cols[0].arrow_type_outcome() is Err {
        Some(cols[0])
    } else {
        first_unmapped(cols.drop_first())
    }
}

proof fn lemma_first_unmapped_skip(cols: Seq<MysqlColumn>, i: int)
    requires
        0 <= i <= cols.len(),
        forall|j: int| 0 <= j < i ==> (#[trigger] cols[j]).arrow_type_outcome() is Ok,
    ensures
        first_unmapped(cols) == first_unmapped(cols.skip(i)),
    decreases i,
{
    if i > 0 {
        assert(cols[0].arrow_type_outcome() is Ok);
        assert forall|j: int| 0 <= j < i - 1 implies (#[trigger] cols.drop_first()[j]).arrow_type_outcome() is Ok by {
            assert(cols.drop_first()[j] == cols[j + 1]);
        }
        lemma_first_unmapped_skip(cols.drop_first(), i - 1);
        assert(cols.drop_first().skip(i - 1) =~= cols.skip(i));
    } else {
        assert(cols.skip(0) =~= cols);
    }
}

/// A discovered table from its listed columns: a table without a visible
/// column is refused (a missing grant or a missing table), and so is a
/// column of an unsupported type; otherwise each column gets its Arrow
/// field, in order.
pub fn table_from_columns(schema_name: String, table_name: String, columns: Vec<MysqlColumn>) -> (r: Result<MysqlTable, ConnectorError>)
    ensures
        columns@.len() == 0 ==> (r matches Err(e) && e@ == ConnectorErrorView::Backend(
            no_columns_text(schema_name@, table_name@),
        )),
        columns@.len() > 0 ==> match first_unmapped(columns@) {
            Some(c) => r matches Err(e) && c.arrow_type_outcome() == Err::<ArrowType, ConnectorErrorView>(e@),
            None => r matches Ok(t) && t.schema_name == schema_name && t.table_name == table_name
                && t.columns@ == columns@ && t.arrow_fields@.len() == columns@.len() && forall|i: int|
                0 <= i < columns@.len() ==> {
                    &&& (#[trigger] t.arrow_fields@[i]).name@ == columns@[i].name@
                    &&& Ok::<ArrowType, ConnectorErrorView>(t.arrow_fields@[i].data_type)
                        == columns@[i].arrow_type_outcome()
                    &&& t.arrow_fields@[i].nullable == columns@[i].nullable
                },
        },
{
    if columns.len() == 0 {
        let mut m = String::from_str("table ");
        m.append(schema_name.as_str());
        m.append(".");
        m.append(table_name.as_str());
        m.append(" has no columns visible to eh_service (likely missing GRANTs or table does not exist)");
        return Err(ConnectorError::Backend(m));
    }
    let mut fields: Vec<ArrowField> = Vec::new();
    let mut i: usize = 0;
    while i < columns.len()
        invariant
            i <= columns@.len(),
            fields@.len() == i,
            forall|j: int| 0 <= j < i ==> (#[trigger] columns@[j]).arrow_type_outcome() is Ok,
            forall|j: int|
                0 <= j < i ==> {
                    &&& (#[trigger] fields@[j]).name@ == columns@[j].name@
                    &&& Ok::<ArrowType, ConnectorErrorView>(fields@[j].data_type) == columns@[j].arrow_type_outcome()
                    &&& fields@[j].nullable == columns@[j].nullable
                },
        decreases columns@.len() - i,
    {
        let f = match columns[i].arrow_field() {
            Ok(f) => f,
            Err(e) => {
                proof {
                    lemma_first_unmapped_skip(columns@, i as int);
                    assert(columns@.skip(i as int)[0] == columns@[i as int]);
                }
                return Err(e);
            },
        };
        fields.push(f);
        i = i + 1;
    }
    proof {
        lemma_first_unmapped_skip(columns@, columns@.len() as int);
        assert(columns@.skip(columns@.len() as int).len() == 0);
    }
    Ok(MysqlTable { schema_name, table_name, columns, arrow_fields: fields })
}

/// ASCII case-insensitive equality (`str::eq_ignore_ascii_case`).
pub open spec fn ascii_lower(c: char) -> char {
    if 'A' <= c && c <= 'Z' {
        ((c as int) + 32) as char
    } else {
        c
    }
}

/// Two texts equal up to ASCII case.
pub open spec fn eq_ignore_ascii_case(a: Seq<char>, b: Seq<char>) -> bool {
    a.len() == b.len() && forall|i: int| 0 <= i < a.len() ==> ascii_lower(#[trigger] a[i]) == ascii_lower(b[i])
}

fn lower_char(c: char) -> (r: char)
    ensures
        r == ascii_lower(c),
{
    if 'A' <= c && c <= 'Z' {
        proof {
            assert(('a' as int) <= (c as int) + 32 <= ('z' as int));
        }
        let x: u32 = (c as u32) + 32;
        assert(x == (c as int) + 32);
        char_from_ascii(x)
    } else {
        c
    }
}

fn char_from_ascii(x: u32) -> (r: char)
    requires
        97 <= x <= 122,
    ensures
        r as int == x,
{
    let b: u8 = x as u8;
    b as char
}

/// True when the texts are equal up to ASCII case.
pub fn str_eq_ignore_ascii_case(a: &str, b: &str) -> (r: bool)
    ensures
        r == eq_ignore_ascii_case(a@, b@),
{
    let x = crate::text::chars_of(a);
    let y = crate::text::chars_of(b);
    if x.len() != y.len() {
        return false;
    }
    let mut i: usize = 0;
    while i < x.len()
        invariant
            x@ == a@,
            y@ == b@,
            x@.len() == y@.len(),
            i <= x@.len(),
            forall|j: int| 0 <= j < i ==> ascii_lower(#[trigger] a@[j]) == ascii_lower(b@[j]),
        decreases x@.len() - i,
    {
        if lower_char(x[i]) != lower_char(y[i]) {
            return false;
        }
        i = i + 1;
    }
    true
}

/// What `str::to_lowercase` gives for a text.
pub uninterp spec fn lowercased(s: Seq<char>) -> Seq<char>;

/// The lowercase form of a text (`str::to_lowercase`).
#[verifier::external_body]
fn to_lowercase(s: &str) -> (r: String)
    ensures
        r@ == lowercased(s@),
{
    s.to_lowercase()
}

/// The column a row of `INFORMATION_SCHEMA.COLUMNS` describes, from what
/// reading its cells gave (the reader's error text on a failure). The
/// type names are lowercased; `IS_NULLABLE` is `YES` in any case for a
/// nullable column; a precision outside `u8` or a scale outside `i8` is
/// dropped.
pub fn column_from_row(
    name: Result<String, String>,
    data_type: Result<String, String>,
    column_type: Result<String, String>,
    is_nullable: Result<String, String>,
    numeric_precision: Option<i64>,
    numeric_scale: Option<i64>,
) -> (r: Result<MysqlColumn, ConnectorError>)
    ensures
        match (name, data_type, column_type, is_nullable) {
            (Err(e), _, _, _) => r matches Err(x) && x@ == ConnectorErrorView::Backend("column_name read: "@ + e@),
            (Ok(n), Err(e), _, _) => r matches Err(x) && x@ == ConnectorErrorView::Backend(
                "data_type read for "@ + n@ + ": "@ + e@,
            ),
            (Ok(n), Ok(_), Err(e), _) => r matches Err(x) && x@ == ConnectorErrorView::Backend(
                "column_type read for "@ + n@ + ": "@ + e@,
            ),
            (Ok(n), Ok(_), Ok(_), Err(e)) => r matches Err(x) && x@ == ConnectorErrorView::Backend(
                "is_nullable read for "@ + n@ + ": "@ + e@,
            ),
            (Ok(n), Ok(d), Ok(c), Ok(nl)) => r matches Ok(col) && col.name@ == n@ && col.data_type@
                == lowercased(d@) && col.column_type@ == lowercased(c@) && col.nullable
                == eq_ignore_ascii_case(nl@, "YES"@) && col.decimal_precision == (match numeric_precision {
                Some(p) => if 0 <= p <= 255 {
                    Some(p as u8)
                } else {
                    None
                },
                None => None,
            }) && col.decimal_scale == (match numeric_scale {
                Some(s) => if -128 <= s <= 127 {
                    Some(s as i8)
                } else {
                    None
                },
                None => None,
            }),
        },
{
    let name = match name {
        Ok(n) => n,
        Err(e) => {
            let mut m = String::from_str("column_name read: ");
            m.append(e.as_str());
            return Err(ConnectorError::Backend(m));
        },
    };
    let data_type = match data_type {
        Ok(d) => to_lowercase(d.as_str()),
        Err(e) => {
            let mut m = String::from_str("data_type read for ");
            m.append(name.as_str());
            m.append(": ");
            m.append(e.as_str());
            return Err(ConnectorError::Backend(m));
        },
    };
    let column_type = match column_type {
        Ok(c) => to_lowercase(c.as_str()),
        Err(e) => {
            let mut m = String::from_str("column_type read for ");
            m.append(name.as_str());
            m.append(": ");
            m.append(e.as_str());
            return Err(ConnectorError::Backend(m));
        },
    };
    let nullable = match is_nullable {
        Ok(s) => str_eq_ignore_ascii_case(s.as_str(), "YES"),
        Err(e) => {
            let mut m = String::from_str("is_nullable read for ");
            m.append(name.as_str());
            m.append(": ");
            m.append(e.as_str());
            return Err(ConnectorError::Backend(m));
        },
    };
    let decimal_precision: Option<u8> = match numeric_precision {
        Some(p) => if 0 <= p && p <= 255 {
            Some(p as u8)
        } else {
            None
        },
        None => None,
    };
    let decimal_scale: Option<i8> = match numeric_scale {
        Some(s) => if -128 <= s && s <= 127 {
            Some(s as i8)
        } else {
            None
        },
        None => None,
    };
    Ok(MysqlColumn { name, data_type, column_type, nullable, decimal_precision, decimal_scale })
}

} // verus!
