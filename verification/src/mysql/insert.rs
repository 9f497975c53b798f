//! Parameterised INSERT builder.
//!
//! INSERT only: state changes are pure appends. The history columns
//! (`valid_from`, `valid_to`, `is_current`) are left to the database's
//! defaults; the builder never names them unless the entity declares them.

use vstd::prelude::*;
use vstd::string::StringExecFns;

use crate::connector::errors::{ConnectorError, ConnectorErrorView};
use crate::entity::{first_unknown_key, lemma_first_unknown_key_skip, Entity, EntityBinding, EntityField, FieldType};
use crate::intent::Intent;
use crate::json::{json_view, lemma_json_view_top, JsonValue, JsonView};
use crate::mysql::ident::{bad_ident_text, bad_table_text, valid_component, valid_table, SafeIdent};
use crate::mysql::query::{
    backquoted, bind_views, lemma_select_list_has_no_placeholder, lemma_table_has_no_placeholder, select_list_text,
};
use crate::mysql::types::{bind_outcome, BindValue, BindValueView};
use crate::strmap::StrMap;
use crate::text::{
    count_char, debug_quoted, join, lemma_count_absent_short, lemma_count_concat, lemma_count_join, quote_debug,
    string_views, str_eq,
};
use crate::values::{uuid_now_v7, uuid_version};

verus! {

/// The output of the INSERT builder.
#[derive(Debug)]
pub struct BuiltInsert {
    /// Parameterised SQL text with `?` placeholders.
    pub sql: String,
    /// Bind values, in placeholder order.
    pub binds: Vec<BindValue>,
}

/// A built insert, by value: SQL text and binds.
pub type BuiltInsertView = (Seq<char>, Seq<BindValueView>);

impl View for BuiltInsert {
    type V = BuiltInsertView;

    open spec fn view(&self) -> BuiltInsertView {
        (self.sql@, bind_views(self.binds@))
    }
}

/// An insert result, by value.
pub open spec fn insert_result_view(r: Result<BuiltInsert, ConnectorError>) -> Result<BuiltInsertView, ConnectorErrorView> {
    match r {
        Ok(q) => Ok(q@),
        Err(e) => Err(e@),
    }
}

/// The value a payload carries for a logical field, by value.
pub open spec fn payload_value(m: StrMap<JsonValue>, k: Seq<char>) -> Option<JsonView> {
    match m.spec_get(k) {
        Some(v) => Some(json_view(v)),
        None => None,
    }
}

/// A field whose value is generated here when the payload omits it: the
/// `id` field of type UUID.
pub open spec fn fresh_id_field(f: EntityField) -> bool {
    f.name@ == "id"@ && f.data_type == FieldType::Uuid
}

/// The message for a required field the payload omits.
pub open spec fn missing_field_text(name: Seq<char>) -> Seq<char> {
    "append payload missing required field "@ + debug_quoted(name)
}

/// The message for a payload key that names no field.
pub open spec fn unknown_payload_text(key: Seq<char>, entity: Seq<char>) -> Seq<char> {
    "append payload includes unknown field "@ + debug_quoted(key) + " for entity "@ + entity
}

/// How many generated ids the fields take: one per `id` field of type
/// UUID that the payload omits.
pub open spec fn fresh_ids_needed(m: StrMap<JsonValue>, fields: Seq<EntityField>) -> nat
    decreases fields.len(),
{
    if fields.len() == 0 {
        0
    } else {
        fresh_ids_needed(m, fields.drop_last()) + if fresh_id_field(fields.last()) && payload_value(
            m,
            fields.last().name@,
        ) is None {
            1nat
        } else {
            0nat
        }
    }
}

/// The generated ids an append intent takes (none unless the payload is
/// an object).
pub open spec fn ids_needed(entity: Entity, payload: Option<JsonValue>) -> nat {
    match payload {
        Some(JsonValue::Object(m)) => fresh_ids_needed(m, entity.fields@),
        _ => 0,
    }
}

proof fn lemma_needed_prefix(m: StrMap<JsonValue>, fields: Seq<EntityField>, i: int)
    requires
        0 <= i <= fields.len(),
    ensures
        fresh_ids_needed(m, fields.take(i)) <= fresh_ids_needed(m, fields),
    decreases fields.len() - i,
{
    if i == fields.len() {
        assert(fields.take(i) =~= fields);
    } else {
        assert(fields.take(i + 1).drop_last() =~= fields.take(i));
        lemma_needed_prefix(m, fields, i + 1);
    }
}

/// The columns and binds of the declared fields, in declaration order:
/// each takes the payload's value (converted to its type), else a
/// generated id (the `id` UUID field, from `ids` in turn), else NULL when
/// nullable; otherwise the payload is refused. Each physical column must
/// be a valid identifier. The count is how many ids were taken.
pub open spec fn insert_columns(
    binding: EntityBinding,
    m: StrMap<JsonValue>,
    fields: Seq<EntityField>,
    ids: Seq<u128>,
) -> Result<(Seq<Seq<char>>, Seq<BindValueView>, nat), ConnectorErrorView>
    decreases fields.len(),
{
    if fields.len() == 0 {
        Ok((Seq::empty(), Seq::empty(), 0))
    } else {
        match insert_columns(binding, m, fields.drop_last(), ids) {
            Err(e) => Err(e),
            Ok((cols, binds, used)) => {
                let f = fields.last();
                let p = binding.field_map.spec_physical_for(f.name@);
                let value: Result<(BindValueView, nat), ConnectorErrorView> = match payload_value(m, f.name@) {
                    Some(v) => match bind_outcome(f.name@, f.data_type, v) {
                        Ok(b) => Ok((b, used)),
                        Err(e) => Err(e),
                    },
                    None => if fresh_id_field(f) {
                        Ok((BindValueView::Uuid(ids[used as int]), used + 1))
                    } else if f.nullable {
                        Ok((BindValueView::Null, used))
                    } else {
                        Err(ConnectorErrorView::InvalidIntent(missing_field_text(f.name@)))
                    },
                };
                match value {
                    Err(e) => Err(e),
                    Ok((b, u)) => if !valid_component(p) {
                        Err(ConnectorErrorView::InvalidIntent(bad_ident_text(p)))
                    } else {
                        Ok((cols.push(p), binds.push(b), u))
                    },
                }
            },
        }
    }
}

proof fn lemma_columns_err_extends(
    binding: EntityBinding,
    m: StrMap<JsonValue>,
    fields: Seq<EntityField>,
    ids: Seq<u128>,
    k: int,
)
    requires
        0 <= k <= fields.len(),
        insert_columns(binding, m, fields.take(k), ids) is Err,
    ensures
        insert_columns(binding, m, fields, ids) == insert_columns(binding, m, fields.take(k), ids),
    decreases fields.len() - k,
{
    if k == fields.len() {
        assert(fields.take(k) =~= fields);
    } else {
        assert(fields.take(k + 1).drop_last() =~= fields.take(k));
        lemma_columns_err_extends(binding, m, fields, ids, k + 1);
    }
}

/// `n` placeholders separated by `, `.
pub open spec fn placeholders_text(n: nat) -> Seq<char> {
    join(Seq::new(n, |i: int| "?"@), ", "@)
}

/// The SQL of an append: the table, the back-quoted columns, and one
/// placeholder per column.
pub open spec fn insert_sql(table: Seq<char>, cols: Seq<Seq<char>>) -> Seq<char> {
    "INSERT INTO "@ + table + " ("@ + select_list_text(cols) + ") VALUES ("@ + placeholders_text(cols.len())
        + ")"@
}

/// The compiled append of an intent against a binding and its entity,
/// with `ids` as the generated ids.
pub open spec fn insert_outcome(binding: EntityBinding, entity: Entity, intent: Intent, ids: Seq<u128>) -> Result<BuiltInsertView, ConnectorErrorView> {
    let table = binding.physical_table@;
    if !valid_table(table) {
        Err(ConnectorErrorView::InvalidIntent(bad_table_text(table)))
    } else {
        match intent.payload {
            None => Err(ConnectorErrorView::InvalidIntent("append intent has no payload"@)),
            Some(JsonValue::Object(m)) => match insert_columns(binding, m, entity.fields@, ids) {
                Err(e) => Err(e),
                Ok((cols, binds, used)) => match first_unknown_key(m.keys(), entity.fields@) {
                    Some(k) => Err(ConnectorErrorView::InvalidIntent(unknown_payload_text(k, entity.name@))),
                    None => if cols.len() == 0 {
                        Err(ConnectorErrorView::InvalidIntent("entity has no fields; cannot build INSERT"@))
                    } else {
                        Ok((insert_sql(table, cols), binds))
                    },
                },
            },
            Some(_) => Err(
                ConnectorErrorView::InvalidIntent(
                    "append payload must be a JSON object keyed by logical field name"@,
                ),
            ),
        }
    }
}

fn is_fresh_id_field(f: &EntityField) -> (r: bool)
    ensures
        r == fresh_id_field(*f),
{
    str_eq(f.name.as_str(), "id") && f.data_type == FieldType::Uuid
}

/// The columns and binds of the declared fields (see `insert_columns`).
fn insert_values(binding: &EntityBinding, entity: &Entity, m: &StrMap<JsonValue>, ids: &Vec<u128>) -> (r: Result<(Vec<String>, Vec<BindValue>), ConnectorError>)
    requires
        ids@.len() >= fresh_ids_needed(*m, entity.fields@),
    ensures
        match r {
            Ok((cols, binds)) => insert_columns(*binding, *m, entity.fields@, ids@) matches Ok((c, b, _)) && c
                == string_views(cols@) && b == bind_views(binds@),
            Err(e) => insert_columns(*binding, *m, entity.fields@, ids@) == Err::<
                (Seq<Seq<char>>, Seq<BindValueView>, nat),
                ConnectorErrorView,
            >(e@),
        },
{
    let ghost fields = entity.fields@;
    let mut cols: Vec<String> = Vec::new();
    let mut binds: Vec<BindValue> = Vec::new();
    let mut used: usize = 0;
    let mut i: usize = 0;
    let id_count = ids.len();
    proof {
        assert(fields.take(0) =~= Seq::<EntityField>::empty());
        assert(string_views(cols@) =~= Seq::<Seq<char>>::empty());
        assert(bind_views(binds@) =~= Seq::<BindValueView>::empty());
    }
    while i < entity.fields.len()
        invariant
            fields == entity.fields@,
            i <= fields.len(),
            id_count == ids@.len(),
            ids@.len() >= fresh_ids_needed(*m, fields),
            used == fresh_ids_needed(*m, fields.take(i as int)),
            insert_columns(*binding, *m, fields.take(i as int), ids@) == Ok::<
                (Seq<Seq<char>>, Seq<BindValueView>, nat),
                ConnectorErrorView,
            >((string_views(cols@), bind_views(binds@), used as nat)),
        decreases fields.len() - i,
    {
        let field = &entity.fields[i];
        let logical = field.name.as_str();
        let physical = binding.field_map.physical_for(logical);
        proof {
            assert(fields.take(i + 1).drop_last() =~= fields.take(i as int));
            assert(fields.take(i + 1).last() == fields[i as int]);
            lemma_needed_prefix(*m, fields, i + 1);
        }
        let value = match m.get(logical) {
            Some(v) => match BindValue::from_json(logical, field.data_type, v) {
                Ok(b) => b,
                Err(e) => {
                    proof {
                        lemma_columns_err_extends(*binding, *m, fields, ids@, i + 1);
                    }
                    return Err(e);
                },
            },
            None => if is_fresh_id_field(field) {
                proof {
                    assert(fresh_ids_needed(*m, fields.take(i + 1)) == used + 1);
                }
                let id = ids[used];
                used = used + 1;
                BindValue::Uuid(id)
            } else if field.nullable {
                BindValue::Null
            } else {
                let mut msg = String::from_str("append payload missing required field ");
                msg.append(quote_debug(logical).as_str());
                proof {
                    lemma_columns_err_extends(*binding, *m, fields, ids@, i + 1);
                }
                return Err(ConnectorError::InvalidIntent(msg));
            },
        };
        let safe = match SafeIdent::single(physical) {
            Ok(s) => s,
            Err(e) => {
                proof {
                    lemma_columns_err_extends(*binding, *m, fields, ids@, i + 1);
                }
                return Err(e);
            },
        };
        let ghost cb = cols@;
        let ghost bb = binds@;
        let col = String::from_str(safe.as_str());
        cols.push(col);
        binds.push(value);
        proof {
            assert(string_views(cols@) =~= string_views(cb).push(col@));
            assert(bind_views(binds@) =~= bind_views(bb).push(value@));
        }
        i = i + 1;
    }
    proof {
        assert(fields.take(fields.len() as int) =~= fields);
    }
    Ok((cols, binds))
}

/// `n` placeholders separated by `, `.
fn placeholders(n: usize) -> (r: String)
    ensures
        r@ == placeholders_text(n as nat),
{
    let mut s = String::new();
    let mut i: usize = 0;
    while i < n
        invariant
            i <= n,
            s@ == placeholders_text(i as nat),
        decreases n - i,
    {
        let ghost before = s@;
        if i > 0 {
            s.append(", ");
        }
        s.append("?");
        proof {
            let t = Seq::new((i + 1) as nat, |k: int| "?"@);
            assert(t.drop_last() =~= Seq::new(i as nat, |k: int| "?"@));
            if i == 0 {
                assert(s@ =~= t[0]);
            } else {
                assert(s@ =~= before + ", "@ + t.last());
            }
        }
        i = i + 1;
    }
    s
}

/// The back-quoted column list.
fn column_list(cols: &Vec<String>) -> (r: String)
    ensures
        r@ == select_list_text(string_views(cols@)),
{
    let ghost ps = string_views(cols@);
    let mut s = String::new();
    let mut i: usize = 0;
    while i < cols.len()
        invariant
            ps == string_views(cols@),
            i <= cols@.len(),
            s@ == select_list_text(ps.take(i as int)),
        decreases cols@.len() - i,
    {
        let ghost before = s@;
        if i > 0 {
            s.append(", ");
        }
        s.append("`");
        s.append(cols[i].as_str());
        s.append("`");
        proof {
            let t = ps.take(i + 1).map_values(|p: Seq<char>| backquoted(p));
            assert(t.drop_last() =~= ps.take(i as int).map_values(|p: Seq<char>| backquoted(p)));
            assert(t.last() == backquoted(cols@[i as int]@));
            if i == 0 {
                assert(s@ =~= t[0]);
            } else {
                assert(s@ =~= before + ", "@ + t.last());
            }
        }
        i = i + 1;
    }
    assert(ps.take(ps.len() as int) =~= ps);
    s
}

/// Compiles an append intent into a parameterised INSERT, with `ids` as
/// the values of the `id` UUID fields the payload omits, in field order.
pub fn build_insert_with_ids(binding: &EntityBinding, entity: &Entity, intent: &Intent, ids: &Vec<u128>) -> (r: Result<BuiltInsert, ConnectorError>)
    requires
        ids@.len() >= ids_needed(*entity, intent.payload),
    ensures
        insert_result_view(r) == insert_outcome(*binding, *entity, *intent, ids@),
{
    let table = match SafeIdent::table(binding.physical_table.as_str()) {
        Ok(t) => t,
        Err(e) => return Err(e),
    };
    let m = match &intent.payload {
        Some(JsonValue::Object(m)) => m,
        Some(_) => return Err(
            ConnectorError::InvalidIntent(
                String::from_str("append payload must be a JSON object keyed by logical field name"),
            ),
        ),
        None => return Err(ConnectorError::InvalidIntent(String::from_str("append intent has no payload"))),
    };
    let (cols, binds) = match insert_values(binding, entity, m, ids) {
        Ok(cb) => cb,
        Err(e) => return Err(e),
    };
    let n = m.len();
    let mut i: usize = 0;
    while i < n
        invariant
            n == m.spec_len(),
            i <= n,
            forall|j: int| 0 <= j < i ==> crate::entity::lookup_field(entity.fields@, #[trigger] m.keys()[j]) is Some,
            valid_table(binding.physical_table@),
            intent.payload == Some(JsonValue::Object(*m)),
            insert_columns(*binding, *m, entity.fields@, ids@) is Ok,
        decreases n - i,
    {
        let (key, _) = m.entry_at(i);
        if entity.field(key.as_str()).is_none() {
            let mut msg = String::from_str("append payload includes unknown field ");
            msg.append(quote_debug(key.as_str()).as_str());
            msg.append(" for entity ");
            msg.append(entity.name.as_str());
            proof {
                assert(m.keys()[i as int] == key@);
                lemma_first_unknown_key_skip(m.keys(), entity.fields@, i as int);
                assert(m.keys().skip(i as int)[0] == key@);
            }
            return Err(ConnectorError::InvalidIntent(msg));
        }
        proof {
            assert(m.keys()[i as int] == key@);
        }
        i = i + 1;
    }
    proof {
        lemma_first_unknown_key_skip(m.keys(), entity.fields@, n as int);
        assert(m.keys().skip(n as int).len() == 0);
    }
    if cols.len() == 0 {
        return Err(ConnectorError::InvalidIntent(String::from_str("entity has no fields; cannot build INSERT")));
    }
    let mut sql = String::from_str("INSERT INTO ");
    sql.append(table.as_str());
    sql.append(" (");
    sql.append(column_list(&cols).as_str());
    sql.append(") VALUES (");
    sql.append(placeholders(cols.len()).as_str());
    sql.append(")");
    proof {
        assert(string_views(cols@).len() == cols@.len());
        assert(sql@ =~= insert_sql(binding.physical_table@, string_views(cols@)));
    }
    Ok(BuiltInsert { sql, binds })
}

/// How many ids an append intent needs generated.
fn count_fresh_ids(entity: &Entity, payload: &Option<JsonValue>) -> (n: usize)
    ensures
        n == ids_needed(*entity, *payload),
{
    let m = match payload {
        Some(JsonValue::Object(m)) => m,
        _ => return 0,
    };
    let ghost fields = entity.fields@;
    let mut n: usize = 0;
    let mut i: usize = 0;
    while i < entity.fields.len()
        invariant
            fields == entity.fields@,
            i <= fields.len(),
            n == fresh_ids_needed(*m, fields.take(i as int)),
            n <= i,
        decreases fields.len() - i,
    {
        proof {
            assert(fields.take(i + 1).drop_last() =~= fields.take(i as int));
        }
        let f = &entity.fields[i];
        if is_fresh_id_field(f) && !m.contains_key(f.name.as_str()) {
            n = n + 1;
        }
        i = i + 1;
    }
    assert(fields.take(fields.len() as int) =~= fields);
    n
}

/// Compiles an append intent into a parameterised INSERT over the bound
/// table: one column per declared field, in declaration order. A field the
/// payload omits is a fresh time-ordered UUID when it is the `id` UUID
/// field, NULL when nullable, and refused otherwise; a payload key that
/// names no field is refused.
pub fn build_insert(binding: &EntityBinding, entity: &Entity, intent: &Intent) -> (r: Result<BuiltInsert, ConnectorError>)
    ensures
        exists|ids: Seq<u128>|
            {
                &&& ids.len() == ids_needed(*entity, intent.payload)
                &&& forall|k: int| 0 <= k < ids.len() ==> uuid_version(#[trigger] ids[k]) == 7
                &&& insert_result_view(r) == insert_outcome(*binding, *entity, *intent, ids)
            },
{
    let needed = count_fresh_ids(entity, &intent.payload);
    let mut ids: Vec<u128> = Vec::new();
    let mut k: usize = 0;
    while k < needed
        invariant
            k <= needed,
            ids@.len() == k,
            forall|j: int| 0 <= j < k ==> uuid_version(#[trigger] ids@[j]) == 7,
        decreases needed - k,
    {
        let id = uuid_now_v7();
        ids.push(id);
        k = k + 1;
    }
    let r = build_insert_with_ids(binding, entity, intent, &ids);
    assert(forall|j: int| 0 <= j < ids@.len() ==> uuid_version(#[trigger] ids@[j]) == 7);
    r
}


/// The physical columns of the declared fields, in declaration order.
pub open spec fn field_columns(binding: EntityBinding, fields: Seq<EntityField>) -> Seq<Seq<char>> {
    fields.map_values(|f: EntityField| binding.field_map.spec_physical_for(f.name@))
}

proof fn lemma_columns_are_fields(binding: EntityBinding, m: StrMap<JsonValue>, fields: Seq<EntityField>, ids: Seq<u128>)
    requires
        insert_columns(binding, m, fields, ids) is Ok,
    ensures
        insert_columns(binding, m, fields, ids)->Ok_0.0 == field_columns(binding, fields),
        insert_columns(binding, m, fields, ids)->Ok_0.1.len() == fields.len(),
        forall|i: int|
            0 <= i < fields.len() ==> valid_component(#[trigger] field_columns(binding, fields)[i]),
    decreases fields.len(),
{
    if fields.len() > 0 {
        lemma_columns_are_fields(binding, m, fields.drop_last(), ids);
        assert forall|i: int| 0 <= i < fields.len() implies valid_component(
            #[trigger] field_columns(binding, fields)[i],
        ) by {
            if i < fields.len() - 1 {
                assert(field_columns(binding, fields)[i] == field_columns(binding, fields.drop_last())[i]);
            }
        }
        assert(field_columns(binding, fields) =~= field_columns(binding, fields.drop_last()).push(
            binding.field_map.spec_physical_for(fields.last().name@),
        ));
    } else {
        assert(field_columns(binding, fields) =~= Seq::<Seq<char>>::empty());
    }
}

/// An append always names every declared field's column, whatever the
/// payload holds: its SQL is the table and the declared fields' physical
/// columns with one placeholder each, and there is one bound value per
/// field; values (given or generated) are only ever bound.
pub proof fn lemma_insert_sql_is_fixed(binding: EntityBinding, entity: Entity, intent: Intent, ids: Seq<u128>)
    requires
        insert_outcome(binding, entity, intent, ids) is Ok,
    ensures
        insert_outcome(binding, entity, intent, ids)->Ok_0.0 == insert_sql(
            binding.physical_table@,
            field_columns(binding, entity.fields@),
        ),
        insert_outcome(binding, entity, intent, ids)->Ok_0.1.len() == entity.fields@.len(),
{
    if let Some(JsonValue::Object(m)) = intent.payload {
        lemma_columns_are_fields(binding, m, entity.fields@, ids);
    }
}

/// The placeholders of a compiled append match its bound values one to
/// one: its SQL holds exactly one `?` for each bound value, and no other.
pub proof fn lemma_insert_placeholders_match_binds(binding: EntityBinding, entity: Entity, intent: Intent, ids: Seq<u128>)
    requires
        insert_outcome(binding, entity, intent, ids) is Ok,
    ensures
        count_char(insert_outcome(binding, entity, intent, ids)->Ok_0.0, '?') == insert_outcome(
            binding,
            entity,
            intent,
            ids,
        )->Ok_0.1.len(),
{
    lemma_insert_sql_is_fixed(binding, entity, intent, ids);
    let table = binding.physical_table@;
    let cols = field_columns(binding, entity.fields@);
    if let Some(JsonValue::Object(m)) = intent.payload {
        lemma_columns_are_fields(binding, m, entity.fields@, ids);
    }
    lemma_table_has_no_placeholder(table);
    lemma_select_list_has_no_placeholder(cols);
    let n = cols.len();
    let qs = Seq::new(n, |i: int| "?"@);
    reveal_strlit("?");
    assert forall|i: int| 0 <= i < qs.len() implies count_char(#[trigger] qs[i], '?') == 1 by {
        let q = "?"@;
        assert(q.drop_last() =~= Seq::<char>::empty());
        assert(count_char(Seq::<char>::empty(), '?') == 0);
    }
    reveal_strlit(", ");
    lemma_count_absent_short(", "@, '?');
    lemma_count_join(qs, ", "@, '?', 1);
    reveal_strlit("INSERT INTO ");
    reveal_strlit(" (");
    reveal_strlit(") VALUES (");
    reveal_strlit(")");
    lemma_count_absent_short("INSERT INTO "@, '?');
    lemma_count_absent_short(" ("@, '?');
    lemma_count_absent_short(") VALUES ("@, '?');
    lemma_count_absent_short(")"@, '?');
    let sel = select_list_text(cols);
    let ph = placeholders_text(n);
    lemma_count_concat("INSERT INTO "@, table, '?');
    lemma_count_concat("INSERT INTO "@ + table, " ("@, '?');
    lemma_count_concat("INSERT INTO "@ + table + " ("@, sel, '?');
    lemma_count_concat("INSERT INTO "@ + table + " ("@ + sel, ") VALUES ("@, '?');
    lemma_count_concat("INSERT INTO "@ + table + " ("@ + sel + ") VALUES ("@, ph, '?');
    lemma_count_concat("INSERT INTO "@ + table + " ("@ + sel + ") VALUES ("@ + ph, ")"@, '?');
}

/// An append compiles from its payload alone: its projection, filter and
/// mode never change the result.
pub proof fn lemma_insert_reads_only_payload(binding: EntityBinding, entity: Entity, i1: Intent, i2: Intent, ids: Seq<u128>)
    requires
        i1.payload == i2.payload,
    ensures
        insert_outcome(binding, entity, i1, ids) == insert_outcome(binding, entity, i2, ids),
{
}

/// A declared field refuses an append with payload `m`: the payload omits
/// it though it is required (not nullable, and not an `id` generated
/// here), or gives it a value that does not bind to its type.
pub open spec fn field_refused(m: StrMap<JsonValue>, f: EntityField) -> bool {
    match payload_value(m, f.name@) {
        Some(v) => bind_outcome(f.name@, f.data_type, v) is Err,
        None => !fresh_id_field(f) && !f.nullable,
    }
}

proof fn lemma_columns_refused_exactly_when(binding: EntityBinding, m: StrMap<JsonValue>, fields: Seq<EntityField>, ids: Seq<u128>)
    requires
        forall|i: int| 0 <= i < fields.len() ==> valid_component(#[trigger] field_columns(binding, fields)[i]),
    ensures
        insert_columns(binding, m, fields, ids) is Err <==> exists|i: int|
            0 <= i < fields.len() && field_refused(m, #[trigger] fields[i]),
    decreases fields.len(),
{
    if fields.len() > 0 {
        let front = fields.drop_last();
        assert forall|i: int| 0 <= i < front.len() implies valid_component(#[trigger] field_columns(binding, front)[i]) by {
            assert(field_columns(binding, front)[i] == field_columns(binding, fields)[i]);
        }
        lemma_columns_refused_exactly_when(binding, m, front, ids);
        let n = fields.len() - 1;
        assert(valid_component(field_columns(binding, fields)[n]));
        if exists|i: int| 0 <= i < front.len() && field_refused(m, #[trigger] front[i]) {
            let i = choose|i: int| 0 <= i < front.len() && field_refused(m, #[trigger] front[i]);
            assert(fields[i] == front[i]);
        }
        if exists|i: int| 0 <= i < fields.len() && field_refused(m, #[trigger] fields[i]) {
            let i = choose|i: int| 0 <= i < fields.len() && field_refused(m, #[trigger] fields[i]);
            if i < n {
                assert(front[i] == fields[i]);
            }
        }
    }
}

/// When the table and every declared field's column are valid
/// identifiers, an append is refused exactly when its payload is not a
/// JSON object, or a declared field refuses it, or the payload names a
/// field the entity does not declare, or the entity declares no field.
pub proof fn lemma_insert_refused_exactly_when(binding: EntityBinding, entity: Entity, intent: Intent, ids: Seq<u128>)
    requires
        valid_table(binding.physical_table@),
        forall|i: int|
            0 <= i < entity.fields@.len() ==> valid_component(#[trigger] field_columns(binding, entity.fields@)[i]),
    ensures
        insert_outcome(binding, entity, intent, ids) is Err <==> match intent.payload {
            Some(JsonValue::Object(m)) => {
                ||| exists|i: int| 0 <= i < entity.fields@.len() && field_refused(m, #[trigger] entity.fields@[i])
                ||| first_unknown_key(m.keys(), entity.fields@) is Some
                ||| entity.fields@.len() == 0
            },
            _ => true,
        },
{
    if let Some(JsonValue::Object(m)) = intent.payload {
        lemma_columns_refused_exactly_when(binding, m, entity.fields@, ids);
        if insert_columns(binding, m, entity.fields@, ids) is Ok {
            lemma_columns_are_fields(binding, m, entity.fields@, ids);
            assert(field_columns(binding, entity.fields@).len() == entity.fields@.len());
        }
    }
}

/// The value bound for each declared field in the compiled columns: the
/// payload's value converted to the field's type where the payload gives
/// one; `NULL` where it omits a nullable field that is not a generated
/// `id`; a generated UUID where it omits the `id` field.
pub open spec fn binds_follow_payload(m: StrMap<JsonValue>, fields: Seq<EntityField>, binds: Seq<BindValueView>) -> bool {
    &&& binds.len() == fields.len()
    &&& forall|i: int|
        0 <= i < fields.len() ==> {
            let f = #[trigger] fields[i];
            match payload_value(m, f.name@) {
                Some(v) => bind_outcome(f.name@, f.data_type, v) == Ok::<BindValueView, ConnectorErrorView>(binds[i]),
                None => if fresh_id_field(f) {
                    binds[i] is Uuid
                } else {
                    f.nullable && binds[i] is Null
                },
            }
        }
}

proof fn lemma_columns_follow_payload(binding: EntityBinding, m: StrMap<JsonValue>, fields: Seq<EntityField>, ids: Seq<u128>)
    requires
        insert_columns(binding, m, fields, ids) is Ok,
    ensures
        binds_follow_payload(m, fields, insert_columns(binding, m, fields, ids)->Ok_0.1),
    decreases fields.len(),
{
    if fields.len() > 0 {
        let front = fields.drop_last();
        lemma_columns_follow_payload(binding, m, front, ids);
        let pb = insert_columns(binding, m, front, ids)->Ok_0.1;
        let b = insert_columns(binding, m, fields, ids)->Ok_0.1;
        assert(b.len() == pb.len() + 1);
        assert forall|i: int| 0 <= i < fields.len() implies {
            let f = #[trigger] fields[i];
            match payload_value(m, f.name@) {
                Some(v) => bind_outcome(f.name@, f.data_type, v) == Ok::<BindValueView, ConnectorErrorView>(b[i]),
                None => if fresh_id_field(f) {
                    b[i] is Uuid
                } else {
                    f.nullable && b[i] is Null
                },
            }
        } by {
            if i < front.len() {
                assert(fields[i] == front[i]);
                assert(b[i] == pb[i]);
            }
        }
    }
}

/// A compiled append binds, for every declared field in declaration
/// order, the payload's value for it converted to the field's type; only
/// a field the payload omits is bound to `NULL` (when nullable) or to a
/// generated UUID (the `id` field).
pub proof fn lemma_insert_binds_payload_values(binding: EntityBinding, entity: Entity, intent: Intent, ids: Seq<u128>)
    requires
        insert_outcome(binding, entity, intent, ids) is Ok,
    ensures
        intent.payload is Some && intent.payload->0 is Object,
        binds_follow_payload(
            intent.payload->0->Object_0,
            entity.fields@,
            insert_outcome(binding, entity, intent, ids)->Ok_0.1,
        ),
{
    if let Some(JsonValue::Object(m)) = intent.payload {
        lemma_columns_follow_payload(binding, m, entity.fields@, ids);
    }
}

} // verus!
