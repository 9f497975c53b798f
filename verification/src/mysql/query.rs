//! Parameterised SELECT builder.
//!
//! Takes an `Intent`, the `EntityBinding` it was routed to and the bound
//! `Entity`, and produces the SQL text and the typed values to bind.
//! Identifiers (table, columns) come from the validated configuration;
//! values are `?` placeholders, never interpolated.

use vstd::prelude::*;
use vstd::string::StringExecFns;

use crate::connector::errors::{ConnectorError, ConnectorErrorView};
use crate::entity::{
    first_unknown_key, lemma_first_unknown_key_is_first, lemma_first_unknown_key_skip, lemma_lookup_field, lookup_field, Entity,
    EntityBinding, EntityField, FieldType,
};
use crate::intent::Intent;
use crate::json::{json_members_view, json_view, lemma_json_view_top, lemma_members_view, JsonValue, JsonView};
use crate::mysql::ident::{bad_ident_text, bad_table_text, ident_char, valid_component, valid_table, SafeIdent};
use crate::mysql::types::{bind_outcome, BindValue, BindValueView};
use crate::text::{
    count_char, debug_quoted, join, join_strings, lemma_count_absent, lemma_count_absent_short, lemma_count_concat,
    lemma_count_join, quote_debug, string_views,
};

verus! {

/// One selected column: the logical field, its physical column and the
/// field's declared type.
#[derive(Debug)]
pub struct ProjectedColumn {
    /// Logical entity field name.
    pub logical: String,
    /// Physical column name on the bound table.
    pub physical: String,
    /// Declared type of the logical field.
    pub field_type: FieldType,
}

/// A projected column, by value: logical name, physical name, type.
pub type ProjectedView = (Seq<char>, Seq<char>, FieldType);

impl View for ProjectedColumn {
    type V = ProjectedView;

    open spec fn view(&self) -> ProjectedView {
        (self.logical@, self.physical@, self.field_type)
    }
}

impl Clone for ProjectedColumn {
    fn clone(&self) -> (r: Self)
        ensures
            r@ == self@,
    {
        ProjectedColumn {
            logical: self.logical.clone(),
            physical: self.physical.clone(),
            field_type: self.field_type,
        }
    }
}

/// The views of a list of projected columns.
pub open spec fn projection_views(v: Seq<ProjectedColumn>) -> Seq<ProjectedView> {
    v.map_values(|c: ProjectedColumn| c@)
}

/// The views of a list of bind values.
pub open spec fn bind_views(v: Seq<BindValue>) -> Seq<BindValueView> {
    v.map_values(|b: BindValue| b@)
}

/// The output of the SELECT builder.
#[derive(Debug)]
pub struct BuiltQuery {
    /// Parameterised SQL text with `?` placeholders.
    pub sql: String,
    /// The selected columns, in the order they appear in `sql`.
    pub projection: Vec<ProjectedColumn>,
    /// Bind values, in the order their placeholders appear in `sql`.
    pub binds: Vec<BindValue>,
}

/// A built query, by value: SQL text, projection and binds.
pub type BuiltQueryView = (Seq<char>, Seq<ProjectedView>, Seq<BindValueView>);

impl View for BuiltQuery {
    type V = BuiltQueryView;

    open spec fn view(&self) -> BuiltQueryView {
        (self.sql@, projection_views(self.projection@), bind_views(self.binds@))
    }
}

/// The message for a projection naming a field the entity lacks.
pub open spec fn unknown_projection_text(f: Seq<char>, entity: Seq<char>) -> Seq<char> {
    "projection references unknown field "@ + debug_quoted(f) + " on entity "@ + entity
}

/// The message for a filter naming a field the entity lacks.
pub open spec fn unknown_filter_text(f: Seq<char>, entity: Seq<char>) -> Seq<char> {
    "filter references unknown field "@ + debug_quoted(f) + " on entity "@ + entity
}

/// The field names of an entity, in declaration order.
pub open spec fn field_names(fields: Seq<EntityField>) -> Seq<Seq<char>> {
    fields.map_values(|f: EntityField| f.name@)
}

/// The requested projection, as names.
pub open spec fn requested_names(fields: Option<Vec<String>>) -> Option<Seq<Seq<char>>> {
    match fields {
        Some(v) => Some(string_views(v@)),
        None => None,
    }
}

/// The projected column of a logical name that the entity declares.
pub open spec fn projected(binding: EntityBinding, entity: Entity, name: Seq<char>) -> ProjectedView {
    (name, binding.field_map.spec_physical_for(name), lookup_field(entity.fields@, name)->0.data_type)
}

/// The projection of the given logical names.
pub open spec fn project_names(binding: EntityBinding, entity: Entity, names: Seq<Seq<char>>) -> Seq<ProjectedView> {
    names.map_values(|n: Seq<char>| projected(binding, entity, n))
}

/// The projection: the requested fields in the requested order (each must
/// be declared), or every declared field in declaration order.
pub open spec fn projection_outcome(
    binding: EntityBinding,
    entity: Entity,
    requested: Option<Seq<Seq<char>>>,
) -> Result<Seq<ProjectedView>, ConnectorErrorView> {
    match requested {
        Some(fs) => match first_unknown_key(fs, entity.fields@) {
            Some(f) => Err(ConnectorErrorView::InvalidIntent(unknown_projection_text(f, entity.name@))),
            None => Ok(project_names(binding, entity, fs)),
        },
        None => Ok(project_names(binding, entity, field_names(entity.fields@))),
    }
}

/// A projection result, by value.
pub open spec fn projection_result_view(r: Result<Vec<ProjectedColumn>, ConnectorError>) -> Result<Seq<ProjectedView>, ConnectorErrorView> {
    match r {
        Ok(v) => Ok(projection_views(v@)),
        Err(e) => Err(e@),
    }
}

fn project(binding: &EntityBinding, entity: &Entity, names: &Vec<String>) -> (r: Vec<ProjectedColumn>)
    requires
        forall|j: int| 0 <= j < names@.len() ==> lookup_field(entity.fields@, #[trigger] names@[j]@) is Some,
    ensures
        projection_views(r@) == project_names(*binding, *entity, string_views(names@)),
{
    let mut out: Vec<ProjectedColumn> = Vec::new();
    let mut i: usize = 0;
    while i < names.len()
        invariant
            i <= names@.len(),
            forall|j: int| 0 <= j < names@.len() ==> lookup_field(entity.fields@, #[trigger] names@[j]@) is Some,
            projection_views(out@) == project_names(*binding, *entity, string_views(names@.take(i as int))),
        decreases names@.len() - i,
    {
        let logical = names[i].as_str();
        assert(lookup_field(entity.fields@, names@[i as int]@) is Some);
        let field = entity.field(logical).unwrap();
        let physical = binding.field_map.physical_for(logical);
        let col = ProjectedColumn {
            logical: String::from_str(logical),
            physical: String::from_str(physical),
            field_type: field.data_type,
        };
        let ghost before = out@;
        out.push(col);
        proof {
            assert(out@.drop_last() == before);
            assert(projection_views(out@) =~= projection_views(before).push(col@));
            assert(string_views(names@.take(i + 1)) =~= string_views(names@.take(i as int)).push(names@[i as int]@));
            assert(project_names(*binding, *entity, string_views(names@.take(i + 1))) =~= project_names(
                *binding,
                *entity,
                string_views(names@.take(i as int)),
            ).push(projected(*binding, *entity, names@[i as int]@)));
        }
        i = i + 1;
    }
    assert(names@.take(names@.len() as int) =~= names@);
    out
}

/// Resolves the projection of a read: the requested fields (each must be
/// declared on the entity) or, when none is requested, all of the
/// entity's fields; each with its physical column and declared type.
pub fn resolve_projection(binding: &EntityBinding, entity: &Entity, requested: Option<&Vec<String>>) -> (r: Result<Vec<ProjectedColumn>, ConnectorError>)
    ensures
        projection_result_view(r) == projection_outcome(
            *binding,
            *entity,
            match requested {
                Some(v) => Some(string_views(v@)),
                None => None,
            },
        ),
{
    match requested {
        Some(fields) => {
            let mut i: usize = 0;
            while i < fields.len()
                invariant
                    requested == Some(fields),
                    i <= fields@.len(),
                    forall|j: int| 0 <= j < i ==> lookup_field(entity.fields@, #[trigger] fields@[j]@) is Some,
                decreases fields@.len() - i,
            {
                if entity.field(fields[i].as_str()).is_none() {
                    proof {
                        let ks = string_views(fields@);
                        assert forall|j: int| 0 <= j < i implies lookup_field(entity.fields@, #[trigger] ks[j]) is Some by {
                            assert(ks[j] == fields@[j]@);
                        }
                        lemma_first_unknown_key_skip(ks, entity.fields@, i as int);
                        assert(ks.skip(i as int)[0] == fields@[i as int]@);
                    }
                    let mut m = String::from_str("projection references unknown field ");
                    m.append(quote_debug(fields[i].as_str()).as_str());
                    m.append(" on entity ");
                    m.append(entity.name.as_str());
                    proof {
                        let ks = string_views(fields@);
                        assert(first_unknown_key(ks, entity.fields@) == Some(fields@[i as int]@));
                        assert(m@ == unknown_projection_text(fields@[i as int]@, entity.name@));
                    }
                    return Err(ConnectorError::InvalidIntent(m));
                }
                i = i + 1;
            }
            proof {
                let ks = string_views(fields@);
                assert forall|j: int| 0 <= j < ks.len() implies lookup_field(entity.fields@, #[trigger] ks[j]) is Some by {
                    assert(ks[j] == fields@[j]@);
                }
                lemma_first_unknown_key_skip(ks, entity.fields@, ks.len() as int);
                assert(ks.skip(ks.len() as int).len() == 0);
            }
            Ok(project(binding, entity, fields))
        },
        None => {
            let mut names: Vec<String> = Vec::new();
            let mut i: usize = 0;
            while i < entity.fields.len()
                invariant
                    i <= entity.fields@.len(),
                    string_views(names@) == field_names(entity.fields@.take(i as int)),
                decreases entity.fields@.len() - i,
            {
                let ghost before = names@;
                let n = entity.fields[i].name.clone();
                assert(n@ == entity.fields@[i as int].name@);
                names.push(n);
                proof {
                    assert(names@ == before.push(n));
                    assert(string_views(names@) =~= string_views(before).push(n@));
                    assert(field_names(entity.fields@.take(i + 1)) =~= field_names(entity.fields@.take(i as int)).push(entity.fields@[i as int].name@));
                }
                i = i + 1;
            }
            proof {
                assert(entity.fields@.take(entity.fields@.len() as int) =~= entity.fields@);
                assert forall|j: int| 0 <= j < names@.len() implies lookup_field(entity.fields@, #[trigger] names@[j]@) is Some by {
                    assert(names@[j]@ == string_views(names@)[j]);
                    assert(entity.fields@[j].name@ == names@[j]@);
                    lemma_lookup_field(entity.fields@, names@[j]@);
                }
            }
            Ok(project(binding, entity, &names))
        },
    }
}


/// A column reference in back-quotes.
pub open spec fn backquoted(c: Seq<char>) -> Seq<char> {
    "`"@ + c + "`"@
}

/// An equality condition on a column against a placeholder.
pub open spec fn eq_placeholder(c: Seq<char>) -> Seq<char> {
    "`"@ + c + "` = ?"@
}

/// The first name that is not a valid identifier component.
pub open spec fn first_bad_ident(ps: Seq<Seq<char>>) -> Option<Seq<char>>
    decreases ps.len(),
{
    if ps.len() == 0 {
        None
    } else if !valid_component(ps[0]) {
        Some(ps[0])
    } else {
        first_bad_ident(ps.drop_first())
    }
}

proof fn lemma_first_bad_ident_skip(ps: Seq<Seq<char>>, i: int)
    requires
        0 <= i <= ps.len(),
        forall|j: int| 0 <= j < i ==> valid_component(#[trigger] ps[j]),
    ensures
        first_bad_ident(ps) == first_bad_ident(ps.skip(i)),
    decreases i,
{
    if i > 0 {
        assert(valid_component(ps[0]));
        assert forall|j: int| 0 <= j < i - 1 implies valid_component(#[trigger] ps.drop_first()[j]) by {
            assert(ps.drop_first()[j] == ps[j + 1]);
        }
        lemma_first_bad_ident_skip(ps.drop_first(), i - 1);
        assert(ps.drop_first().skip(i - 1) =~= ps.skip(i));
    } else {
        assert(ps.skip(0) =~= ps);
    }
}

/// The physical columns of a projection, in order.
pub open spec fn physicals(proj: Seq<ProjectedView>) -> Seq<Seq<char>> {
    proj.map_values(|c: ProjectedView| c.1)
}

/// The select list: each column back-quoted, separated by `, `.
pub open spec fn select_list_text(ps: Seq<Seq<char>>) -> Seq<char> {
    join(ps.map_values(|p: Seq<char>| backquoted(p)), ", "@)
}

/// Builds the select list, refusing the first column that is not a valid
/// identifier.
fn select_list(projected: &Vec<ProjectedColumn>) -> (r: Result<String, ConnectorError>)
    ensures
        match first_bad_ident(physicals(projection_views(projected@))) {
            Some(p) => r matches Err(e) && e@ == ConnectorErrorView::InvalidIntent(bad_ident_text(p)),
            None => r matches Ok(s) && s@ == select_list_text(physicals(projection_views(projected@))),
        },
{
    let ghost ps = physicals(projection_views(projected@));
    let mut sql = String::new();
    let mut i: usize = 0;
    while i < projected.len()
        invariant
            ps == physicals(projection_views(projected@)),
            i <= projected@.len(),
            forall|j: int| 0 <= j < i ==> valid_component(#[trigger] ps[j]),
            sql@ == select_list_text(ps.take(i as int)),
        decreases projected@.len() - i,
    {
        assert(ps[i as int] == projected@[i as int].physical@);
        let safe = match SafeIdent::single(projected[i].physical.as_str()) {
            Ok(s) => s,
            Err(e) => {
                proof {
                    lemma_first_bad_ident_skip(ps, i as int);
                    assert(ps.skip(i as int)[0] == ps[i as int]);
                }
                return Err(e);
            },
        };
        let ghost before = sql@;
        if i > 0 {
            sql.append(", ");
        }
        sql.append("`");
        sql.append(safe.as_str());
        sql.append("`");
        proof {
            let t = ps.take(i + 1).map_values(|p: Seq<char>| backquoted(p));
            assert(t.drop_last() =~= ps.take(i as int).map_values(|p: Seq<char>| backquoted(p)));
            assert(t.last() == backquoted(ps[i as int]));
            if i == 0 {
                assert(sql@ =~= t[0]);
            } else {
                assert(sql@ =~= before + ", "@ + t.last());
            }
        }
        i = i + 1;
    }
    proof {
        assert(ps.take(ps.len() as int) =~= ps);
        lemma_first_bad_ident_skip(ps, ps.len() as int);
        assert(ps.skip(ps.len() as int).len() == 0);
    }
    Ok(sql)
}

/// The conditions and binds of an equality filter's members, in member
/// order: each member must name a declared field whose physical column is
/// a valid identifier, and its value must convert to the field's type.
pub open spec fn filter_members_outcome(
    binding: EntityBinding,
    entity: Entity,
    members: Seq<(Seq<char>, JsonView)>,
) -> Result<(Seq<Seq<char>>, Seq<BindValueView>), ConnectorErrorView>
    decreases members.len(),
{
    if members.len() == 0 {
        Ok((Seq::empty(), Seq::empty()))
    } else {
        match filter_members_outcome(binding, entity, members.drop_last()) {
            Err(e) => Err(e),
            Ok((ws, bs)) => {
                let k = members.last().0;
                let v = members.last().1;
                match lookup_field(entity.fields@, k) {
                    None => Err(ConnectorErrorView::InvalidIntent(unknown_filter_text(k, entity.name@))),
                    Some(f) => {
                        let p = binding.field_map.spec_physical_for(k);
                        if !valid_component(p) {
                            Err(ConnectorErrorView::InvalidIntent(bad_ident_text(p)))
                        } else {
                            match bind_outcome(f.name@, f.data_type, v) {
                                Err(e) => Err(e),
                                Ok(b) => Ok((ws.push(eq_placeholder(p)), bs.push(b))),
                            }
                        }
                    },
                }
            },
        }
    }
}

proof fn lemma_filter_err_extends(
    binding: EntityBinding,
    entity: Entity,
    members: Seq<(Seq<char>, JsonView)>,
    k: int,
)
    requires
        0 <= k <= members.len(),
        filter_members_outcome(binding, entity, members.take(k)) is Err,
    ensures
        filter_members_outcome(binding, entity, members) == filter_members_outcome(binding, entity, members.take(k)),
    decreases members.len() - k,
{
    if k == members.len() {
        assert(members.take(k) =~= members);
    } else {
        assert(members.take(k + 1).drop_last() =~= members.take(k));
        lemma_filter_err_extends(binding, entity, members, k + 1);
    }
}

/// The conditions and binds of a filter: none without a filter; a filter
/// must be a JSON object.
pub open spec fn filter_outcome(binding: EntityBinding, entity: Entity, filter: Option<JsonValue>) -> Result<(Seq<Seq<char>>, Seq<BindValueView>), ConnectorErrorView> {
    match filter {
        None => Ok((Seq::empty(), Seq::empty())),
        Some(f) => match json_view(f) {
            JsonView::Object(members) => filter_members_outcome(binding, entity, members),
            _ => Err(ConnectorErrorView::InvalidIntent("filter must be a JSON object keyed by entity field name"@)),
        },
    }
}

/// Compiles the members of an equality filter, in key order.
fn compile_filter(binding: &EntityBinding, entity: &Entity, filter: &crate::strmap::StrMap<JsonValue>) -> (r: Result<(Vec<String>, Vec<BindValue>), ConnectorError>)
    ensures
        match r {
            Ok((ws, bs)) => filter_members_outcome(*binding, *entity, json_members_view(filter.entries()))
                == Ok::<(Seq<Seq<char>>, Seq<BindValueView>), ConnectorErrorView>((string_views(ws@), bind_views(bs@))),
            Err(e) => filter_members_outcome(*binding, *entity, json_members_view(filter.entries()))
                == Err::<(Seq<Seq<char>>, Seq<BindValueView>), ConnectorErrorView>(e@),
        },
{
    let ghost members = json_members_view(filter.entries());
    proof {
        lemma_members_view(filter.entries());
    }
    let n = filter.len();
    let mut wheres: Vec<String> = Vec::new();
    let mut binds: Vec<BindValue> = Vec::new();
    let mut i: usize = 0;
    proof {
        assert(members.take(0) =~= Seq::<(Seq<char>, JsonView)>::empty());
        assert(string_views(wheres@) =~= Seq::<Seq<char>>::empty());
        assert(bind_views(binds@) =~= Seq::<BindValueView>::empty());
    }
    while i < n
        invariant
            n == filter.spec_len(),
            members == json_members_view(filter.entries()),
            members.len() == n,
            forall|j: int| 0 <= j < n ==> #[trigger] members[j] == (filter.entries()[j].0@, json_view(filter.entries()[j].1)),
            i <= n,
            filter_members_outcome(*binding, *entity, members.take(i as int)) == Ok::<(Seq<Seq<char>>, Seq<BindValueView>), ConnectorErrorView>((string_views(wheres@), bind_views(binds@))),
        decreases n - i,
    {
        let (k, v) = filter.entry_at(i);
        let ghost m = members.take(i + 1);
        proof {
            assert(m.drop_last() =~= members.take(i as int));
            assert(m.last() == members[i as int]);
            assert(members[i as int] == (k@, json_view(*v)));
        }
        let field = match entity.field(k.as_str()) {
            Some(f) => f,
            None => {
                let mut msg = String::from_str("filter references unknown field ");
                msg.append(quote_debug(k.as_str()).as_str());
                msg.append(" on entity ");
                msg.append(entity.name.as_str());
                proof {
                    lemma_filter_err_extends(*binding, *entity, members, i + 1);
                }
                return Err(ConnectorError::InvalidIntent(msg));
            },
        };
        let physical = binding.field_map.physical_for(k.as_str());
        let safe = match SafeIdent::single(physical) {
            Ok(s) => s,
            Err(e) => {
                proof {
                    lemma_filter_err_extends(*binding, *entity, members, i + 1);
                }
                return Err(e);
            },
        };
        let b = match BindValue::from_json(field.name.as_str(), field.data_type, v) {
            Ok(b) => b,
            Err(e) => {
                proof {
                    lemma_filter_err_extends(*binding, *entity, members, i + 1);
                }
                return Err(e);
            },
        };
        let mut w = String::from_str("`");
        w.append(safe.as_str());
        w.append("` = ?");
        let ghost wb = wheres@;
        let ghost bb = binds@;
        wheres.push(w);
        binds.push(b);
        proof {
            assert(string_views(wheres@) =~= string_views(wb).push(w@));
            assert(bind_views(binds@) =~= bind_views(bb).push(b@));
        }
        i = i + 1;
    }
    proof {
        assert(members.take(n as int) =~= members);
    }
    Ok((wheres, binds))
}

/// The SQL of a read: the select list, the table, the filter's conditions
/// joined with `AND`, the current-row condition when the entity does not
/// declare `is_current`, and the row cap.
pub open spec fn select_sql(
    ps: Seq<Seq<char>>,
    table: Seq<char>,
    wheres: Seq<Seq<char>>,
    current_only: bool,
    current_col: Seq<char>,
) -> Seq<char> {
    "SELECT "@ + select_list_text(ps) + " FROM "@ + table + (if wheres.len() > 0 {
        " WHERE "@ + join(wheres, " AND "@)
    } else {
        Seq::empty()
    }) + (if current_only {
        (if wheres.len() > 0 {
            " AND "@
        } else {
            " WHERE "@
        }) + "`"@ + current_col + "` = 1"@
    } else {
        Seq::empty()
    }) + " LIMIT 1000"@
}

/// The compiled read of an intent against a binding and its entity.
pub open spec fn select_outcome(binding: EntityBinding, entity: Entity, intent: Intent) -> Result<BuiltQueryView, ConnectorErrorView> {
    let table = binding.physical_table@;
    if !valid_table(table) {
        Err(ConnectorErrorView::InvalidIntent(bad_table_text(table)))
    } else {
        match projection_outcome(binding, entity, requested_names(intent.fields)) {
            Err(e) => Err(e),
            Ok(proj) => if proj.len() == 0 {
                Err(ConnectorErrorView::InvalidIntent("projection resolves to no columns"@))
            } else {
                match first_bad_ident(physicals(proj)) {
                    Some(p) => Err(ConnectorErrorView::InvalidIntent(bad_ident_text(p))),
                    None => match filter_outcome(binding, entity, intent.filter) {
                        Err(e) => Err(e),
                        Ok((ws, bs)) => {
                            let current_only = lookup_field(entity.fields@, "is_current"@) is None;
                            let ic = binding.field_map.spec_physical_for("is_current"@);
                            if current_only && !valid_component(ic) {
                                Err(ConnectorErrorView::InvalidIntent(bad_ident_text(ic)))
                            } else {
                                Ok((select_sql(physicals(proj), table, ws, current_only, ic), proj, bs))
                            }
                        },
                    },
                }
            },
        }
    }
}

/// A built query result, by value.
pub open spec fn built_result_view(r: Result<BuiltQuery, ConnectorError>) -> Result<BuiltQueryView, ConnectorErrorView> {
    match r {
        Ok(q) => Ok(q@),
        Err(e) => Err(e@),
    }
}

/// Compiles a read intent into a parameterised SELECT over the bound
/// table: the projected columns, one `= ?` condition per filter member in
/// key order, only current rows (`is_current = 1`) unless the entity
/// declares `is_current` itself, and at most 1000 rows.
pub fn build_select(binding: &EntityBinding, entity: &Entity, intent: &Intent) -> (r: Result<BuiltQuery, ConnectorError>)
    ensures
        built_result_view(r) == select_outcome(*binding, *entity, *intent),
{
    let table = match SafeIdent::table(binding.physical_table.as_str()) {
        Ok(t) => t,
        Err(e) => return Err(e),
    };
    let requested: Option<&Vec<String>> = match &intent.fields {
        Some(v) => Some(v),
        None => None,
    };
    let projected = match resolve_projection(binding, entity, requested) {
        Ok(p) => p,
        Err(e) => return Err(e),
    };
    if projected.len() == 0 {
        return Err(ConnectorError::InvalidIntent(String::from_str("projection resolves to no columns")));
    }
    let list = match select_list(&projected) {
        Ok(l) => l,
        Err(e) => return Err(e),
    };
    let mut sql = String::from_str("SELECT ");
    sql.append(list.as_str());
    sql.append(" FROM ");
    sql.append(table.as_str());
    let (wheres, binds) = match &intent.filter {
        None => {
            let w: Vec<String> = Vec::new();
            let b: Vec<BindValue> = Vec::new();
            proof {
                assert(string_views(w@) =~= Seq::<Seq<char>>::empty());
                assert(bind_views(b@) =~= Seq::<BindValueView>::empty());
            }
            (w, b)
        },
        Some(JsonValue::Object(filter)) => {
            proof {
                lemma_json_view_top(intent.filter->0);
            }
            match compile_filter(binding, entity, filter) {
                Ok(wb) => wb,
                Err(e) => return Err(e),
            }
        },
        Some(other) => {
            proof {
                lemma_json_view_top(*other);
            }
            return Err(ConnectorError::InvalidIntent(String::from_str("filter must be a JSON object keyed by entity field name")));
        },
    };
    let ghost before_where = sql@;
    if wheres.len() > 0 {
        sql.append(" WHERE ");
        sql.append(join_strings(&wheres, " AND ").as_str());
    }
    let ghost before_current = sql@;
    if entity.field("is_current").is_none() {
        let safe = match SafeIdent::single(binding.field_map.physical_for("is_current")) {
            Ok(s) => s,
            Err(e) => return Err(e),
        };
        if wheres.len() == 0 {
            sql.append(" WHERE ");
        } else {
            sql.append(" AND ");
        }
        sql.append("`");
        sql.append(safe.as_str());
        sql.append("` = 1");
    }
    let ghost before_limit = sql@;
    sql.append(" LIMIT 1000");
    proof {
        let ps = physicals(projection_views(projected@));
        let ws = string_views(wheres@);
        let current_only = lookup_field(entity.fields@, "is_current"@) is None;
        let ic = binding.field_map.spec_physical_for("is_current"@);
        assert(before_where =~= "SELECT "@ + select_list_text(ps) + " FROM "@ + binding.physical_table@);
        assert(sql@ =~= select_sql(ps, binding.physical_table@, ws, current_only, ic));
        assert(valid_table(binding.physical_table@));
        assert(projection_outcome(*binding, *entity, requested_names(intent.fields)) == Ok::<Seq<ProjectedView>, ConnectorErrorView>(projection_views(projected@)));
        assert(first_bad_ident(ps) is None);
        assert(filter_outcome(*binding, *entity, intent.filter) == Ok::<(Seq<Seq<char>>, Seq<BindValueView>), ConnectorErrorView>((ws, bind_views(binds@))));
    }
    Ok(BuiltQuery { sql, projection: projected, binds })
}


/// The member names of a filter: none without a filter, the keys in order
/// for an object; a filter that is not an object has none to compare.
pub open spec fn filter_keys(filter: Option<JsonValue>) -> Option<Seq<Seq<char>>> {
    match filter {
        None => Some(Seq::empty()),
        Some(f) => match json_view(f) {
            JsonView::Object(members) => Some(members.map_values(|m: (Seq<char>, JsonView)| m.0)),
            _ => None,
        },
    }
}

proof fn lemma_filter_conditions_ignore_values(
    binding: EntityBinding,
    entity: Entity,
    m1: Seq<(Seq<char>, JsonView)>,
    m2: Seq<(Seq<char>, JsonView)>,
)
    requires
        m1.map_values(|m: (Seq<char>, JsonView)| m.0) == m2.map_values(|m: (Seq<char>, JsonView)| m.0),
        filter_members_outcome(binding, entity, m1) is Ok,
        filter_members_outcome(binding, entity, m2) is Ok,
    ensures
        filter_members_outcome(binding, entity, m1)->Ok_0.0 == filter_members_outcome(binding, entity, m2)->Ok_0.0,
    decreases m1.len(),
{
    let k1 = m1.map_values(|m: (Seq<char>, JsonView)| m.0);
    let k2 = m2.map_values(|m: (Seq<char>, JsonView)| m.0);
    assert(m1.len() == k1.len() && m2.len() == k2.len());
    if m1.len() > 0 {
        assert(m1.drop_last().map_values(|m: (Seq<char>, JsonView)| m.0) =~= k1.drop_last());
        assert(m2.drop_last().map_values(|m: (Seq<char>, JsonView)| m.0) =~= k2.drop_last());
        assert(k1[m1.len() - 1] == m1.last().0);
        assert(k2[m2.len() - 1] == m2.last().0);
        lemma_filter_conditions_ignore_values(binding, entity, m1.drop_last(), m2.drop_last());
    }
}

/// Filter values are bound, never written into the SQL: two reads that
/// differ only in their filter values compile to the same SQL text and the
/// same projection.
pub proof fn lemma_select_sql_ignores_filter_values(binding: EntityBinding, entity: Entity, i1: Intent, i2: Intent)
    requires
        i1.fields == i2.fields,
        filter_keys(i1.filter) == filter_keys(i2.filter),
        select_outcome(binding, entity, i1) is Ok,
        select_outcome(binding, entity, i2) is Ok,
    ensures
        select_outcome(binding, entity, i1)->Ok_0.0 == select_outcome(binding, entity, i2)->Ok_0.0,
        select_outcome(binding, entity, i1)->Ok_0.1 == select_outcome(binding, entity, i2)->Ok_0.1,
{
    match (i1.filter, i2.filter) {
        (Some(f1), Some(f2)) => {
            if let (JsonView::Object(m1), JsonView::Object(m2)) = (json_view(f1), json_view(f2)) {
                lemma_filter_conditions_ignore_values(binding, entity, m1, m2);
            }
        },
        (Some(f1), None) => {
            if let JsonView::Object(m1) = json_view(f1) {
                assert(m1.map_values(|m: (Seq<char>, JsonView)| m.0).len() == 0);
                assert(m1 =~= Seq::<(Seq<char>, JsonView)>::empty());
            }
        },
        (None, Some(f2)) => {
            if let JsonView::Object(m2) = json_view(f2) {
                assert(m2.map_values(|m: (Seq<char>, JsonView)| m.0).len() == 0);
                assert(m2 =~= Seq::<(Seq<char>, JsonView)>::empty());
            }
        },
        (None, None) => {},
    }
}


proof fn lemma_one_bind_per_condition(binding: EntityBinding, entity: Entity, members: Seq<(Seq<char>, JsonView)>)
    requires
        filter_members_outcome(binding, entity, members) is Ok,
    ensures
        filter_members_outcome(binding, entity, members)->Ok_0.0.len() == members.len(),
        filter_members_outcome(binding, entity, members)->Ok_0.1.len() == members.len(),
    decreases members.len(),
{
    if members.len() > 0 {
        lemma_one_bind_per_condition(binding, entity, members.drop_last());
    }
}

/// A compiled read binds exactly one value per filter member, and its
/// conditions are one `= ?` per member.
pub proof fn lemma_select_one_bind_per_filter_member(binding: EntityBinding, entity: Entity, intent: Intent)
    requires
        select_outcome(binding, entity, intent) is Ok,
    ensures
        filter_keys(intent.filter) is Some,
        select_outcome(binding, entity, intent)->Ok_0.2.len() == filter_keys(intent.filter)->0.len(),
{
    if let Some(f) = intent.filter {
        if let JsonView::Object(m) = json_view(f) {
            lemma_one_bind_per_condition(binding, entity, m);
        }
    }
}

pub(crate) proof fn lemma_component_has_no_placeholder(s: Seq<char>)
    requires
        valid_component(s),
    ensures
        count_char(s, '?') == 0,
{
    assert forall|i: int| 0 <= i < s.len() implies s[i] != '?' by {
        if i > 0 {
            assert(ident_char(s[i]));
        }
    }
    lemma_count_absent(s, '?');
}

pub(crate) proof fn lemma_table_has_no_placeholder(s: Seq<char>)
    requires
        valid_table(s),
    ensures
        count_char(s, '?') == 0,
{
    if valid_component(s) {
        lemma_component_has_no_placeholder(s);
    } else {
        let d = choose|d: int|
            0 <= d < s.len() && s[d] == '.' && valid_component(s.take(d)) && valid_component(#[trigger] s.skip(d + 1));
        let a = s.take(d);
        let b = s.skip(d + 1);
        assert forall|i: int| 0 <= i < s.len() implies s[i] != '?' by {
            if i < d {
                assert(s[i] == a[i]);
                if i > 0 {
                    assert(ident_char(a[i]));
                }
            } else if i > d {
                assert(s[i] == b[i - d - 1]);
                if i - d - 1 > 0 {
                    assert(ident_char(b[i - d - 1]));
                }
            }
        }
        lemma_count_absent(s, '?');
    }
}

proof fn lemma_condition_has_one_placeholder(p: Seq<char>)
    requires
        valid_component(p),
    ensures
        count_char(eq_placeholder(p), '?') == 1,
{
    reveal_strlit("`");
    reveal_strlit("` = ?");
    let head = "`"@;
    let tail = "` = ?"@;
    assert(tail =~= tail.take(4) + tail.skip(4));
    lemma_count_absent_short(tail.take(4), '?');
    assert(tail.skip(4).drop_last() =~= Seq::<char>::empty());
    assert(count_char(Seq::<char>::empty(), '?') == 0);
    assert(count_char(tail.skip(4), '?') == 1);
    lemma_count_concat(tail.take(4), tail.skip(4), '?');
    lemma_count_absent_short(head, '?');
    lemma_component_has_no_placeholder(p);
    lemma_count_concat(head, p, '?');
    lemma_count_concat(head + p, tail, '?');
}

proof fn lemma_conditions_one_placeholder_each(binding: EntityBinding, entity: Entity, members: Seq<(Seq<char>, JsonView)>)
    requires
        filter_members_outcome(binding, entity, members) is Ok,
    ensures
        forall|i: int|
            0 <= i < filter_members_outcome(binding, entity, members)->Ok_0.0.len() ==> count_char(
                #[trigger] filter_members_outcome(binding, entity, members)->Ok_0.0[i],
                '?',
            ) == 1,
    decreases members.len(),
{
    if members.len() > 0 {
        let front = members.drop_last();
        lemma_conditions_one_placeholder_each(binding, entity, front);
        let pws = filter_members_outcome(binding, entity, front)->Ok_0.0;
        let ws = filter_members_outcome(binding, entity, members)->Ok_0.0;
        let p = binding.field_map.spec_physical_for(members.last().0);
        assert(valid_component(p));
        assert(ws == pws.push(eq_placeholder(p)));
        lemma_condition_has_one_placeholder(p);
        assert forall|i: int| 0 <= i < ws.len() implies count_char(#[trigger] ws[i], '?') == 1 by {
            if i < pws.len() {
                assert(ws[i] == pws[i]);
            }
        }
    }
}

/// A select list of valid identifiers holds no placeholder.
pub(crate) proof fn lemma_select_list_has_no_placeholder(ps: Seq<Seq<char>>)
    requires
        forall|i: int| 0 <= i < ps.len() ==> valid_component(#[trigger] ps[i]),
    ensures
        count_char(select_list_text(ps), '?') == 0,
{
    let cols = ps.map_values(|p: Seq<char>| backquoted(p));
    reveal_strlit("`");
    lemma_count_absent_short("`"@, '?');
    assert forall|i: int| 0 <= i < cols.len() implies count_char(#[trigger] cols[i], '?') == 0 by {
        lemma_component_has_no_placeholder(ps[i]);
        lemma_count_concat("`"@, ps[i], '?');
        lemma_count_concat("`"@ + ps[i], "`"@, '?');
    }
    reveal_strlit(", ");
    lemma_count_absent_short(", "@, '?');
    lemma_count_join(cols, ", "@, '?', 0);
}

proof fn lemma_no_bad_ident(ps: Seq<Seq<char>>)
    requires
        first_bad_ident(ps) is None,
    ensures
        forall|i: int| 0 <= i < ps.len() ==> valid_component(#[trigger] ps[i]),
    decreases ps.len(),
{
    if ps.len() > 0 {
        lemma_no_bad_ident(ps.drop_first());
        assert forall|i: int| 0 <= i < ps.len() implies valid_component(#[trigger] ps[i]) by {
            if i > 0 {
                assert(ps[i] == ps.drop_first()[i - 1]);
            }
        }
    }
}

/// The placeholders of a compiled read match its bound values one to one:
/// its SQL holds exactly one `?` for each bound value, and no other (no
/// identifier, table name or keyword can hold one).
pub proof fn lemma_select_placeholders_match_binds(binding: EntityBinding, entity: Entity, intent: Intent)
    requires
        select_outcome(binding, entity, intent) is Ok,
    ensures
        count_char(select_outcome(binding, entity, intent)->Ok_0.0, '?') == select_outcome(
            binding,
            entity,
            intent,
        )->Ok_0.2.len(),
{
    let table = binding.physical_table@;
    let proj = projection_outcome(binding, entity, requested_names(intent.fields))->Ok_0;
    let ps = physicals(proj);
    let (ws, bs) = filter_outcome(binding, entity, intent.filter)->Ok_0;
    let current_only = lookup_field(entity.fields@, "is_current"@) is None;
    let ic = binding.field_map.spec_physical_for("is_current"@);

    // Filter conditions: one placeholder each, and as many as binds.
    match intent.filter {
        None => {},
        Some(f) => {
            if let JsonView::Object(m) = json_view(f) {
                lemma_one_bind_per_condition(binding, entity, m);
                lemma_conditions_one_placeholder_each(binding, entity, m);
            }
        },
    }
    assert(ws.len() == bs.len());
    assert(forall|i: int| 0 <= i < ws.len() ==> count_char(#[trigger] ws[i], '?') == 1);

    // The select list and the table hold none.
    lemma_no_bad_ident(ps);
    lemma_select_list_has_no_placeholder(ps);
    reveal_strlit("`");
    lemma_count_absent_short("`"@, '?');
    lemma_table_has_no_placeholder(table);

    // Keywords.
    reveal_strlit("SELECT ");
    reveal_strlit(" FROM ");
    reveal_strlit(" WHERE ");
    reveal_strlit(" AND ");
    reveal_strlit("` = 1");
    reveal_strlit(" LIMIT 1000");
    lemma_count_absent_short("SELECT "@, '?');
    lemma_count_absent_short(" FROM "@, '?');
    lemma_count_absent_short(" WHERE "@, '?');
    lemma_count_absent_short(" AND "@, '?');
    lemma_count_absent_short("` = 1"@, '?');
    lemma_count_absent_short(" LIMIT 1000"@, '?');

    let w = if ws.len() > 0 {
        " WHERE "@ + join(ws, " AND "@)
    } else {
        Seq::empty()
    };
    if ws.len() > 0 {
        lemma_count_join(ws, " AND "@, '?', 1);
        lemma_count_concat(" WHERE "@, join(ws, " AND "@), '?');
    } else {
        assert(count_char(w, '?') == 0);
    }
    assert(count_char(w, '?') == ws.len());

    let cur = if current_only {
        (if ws.len() > 0 {
            " AND "@
        } else {
            " WHERE "@
        }) + "`"@ + ic + "` = 1"@
    } else {
        Seq::empty()
    };
    if current_only {
        lemma_component_has_no_placeholder(ic);
        let kw = if ws.len() > 0 {
            " AND "@
        } else {
            " WHERE "@
        };
        lemma_count_concat(kw, "`"@, '?');
        lemma_count_concat(kw + "`"@, ic, '?');
        lemma_count_concat(kw + "`"@ + ic, "` = 1"@, '?');
    } else {
        assert(count_char(cur, '?') == 0);
    }
    assert(count_char(cur, '?') == 0);

    let sel = select_list_text(ps);
    lemma_count_concat("SELECT "@, sel, '?');
    lemma_count_concat("SELECT "@ + sel, " FROM "@, '?');
    lemma_count_concat("SELECT "@ + sel + " FROM "@, table, '?');
    lemma_count_concat("SELECT "@ + sel + " FROM "@ + table, w, '?');
    lemma_count_concat("SELECT "@ + sel + " FROM "@ + table + w, cur, '?');
    lemma_count_concat("SELECT "@ + sel + " FROM "@ + table + w + cur, " LIMIT 1000"@, '?');
    assert(select_sql(ps, table, ws, current_only, ic) == "SELECT "@ + sel + " FROM "@ + table + w + cur
        + " LIMIT 1000"@);
}

/// A read compiles from its projection and filter alone: its payload and
/// its mode never change the result.
pub proof fn lemma_select_ignores_payload_and_mode(binding: EntityBinding, entity: Entity, i1: Intent, i2: Intent)
    requires
        i1.fields == i2.fields,
        i1.filter == i2.filter,
    ensures
        select_outcome(binding, entity, i1) == select_outcome(binding, entity, i2),
{
}

proof fn lemma_filter_members_bind_each(binding: EntityBinding, entity: Entity, members: Seq<(Seq<char>, JsonView)>)
    requires
        filter_members_outcome(binding, entity, members) is Ok,
    ensures
        ({
            let (ws, bs) = filter_members_outcome(binding, entity, members)->Ok_0;
            &&& ws.len() == members.len()
            &&& bs.len() == members.len()
            &&& forall|i: int|
                0 <= i < members.len() ==> {
                    &&& lookup_field(entity.fields@, (#[trigger] members[i]).0) is Some
                    &&& ws[i] == eq_placeholder(binding.field_map.spec_physical_for(members[i].0))
                    &&& bind_outcome(
                        lookup_field(entity.fields@, members[i].0)->0.name@,
                        lookup_field(entity.fields@, members[i].0)->0.data_type,
                        members[i].1,
                    ) == Ok::<BindValueView, ConnectorErrorView>(bs[i])
                }
        }),
    decreases members.len(),
{
    if members.len() > 0 {
        let front = members.drop_last();
        lemma_filter_members_bind_each(binding, entity, front);
        let (pws, pbs) = filter_members_outcome(binding, entity, front)->Ok_0;
        let (ws, bs) = filter_members_outcome(binding, entity, members)->Ok_0;
        assert forall|i: int| 0 <= i < members.len() implies {
            &&& lookup_field(entity.fields@, (#[trigger] members[i]).0) is Some
            &&& ws[i] == eq_placeholder(binding.field_map.spec_physical_for(members[i].0))
            &&& bind_outcome(
                lookup_field(entity.fields@, members[i].0)->0.name@,
                lookup_field(entity.fields@, members[i].0)->0.data_type,
                members[i].1,
            ) == Ok::<BindValueView, ConnectorErrorView>(bs[i])
        } by {
            if i < front.len() {
                assert(members[i] == front[i]);
                assert(ws[i] == pws[i] && bs[i] == pbs[i]);
            }
        }
    }
}

/// A compiled read selects, in order, the requested fields (each declared
/// by the entity), or every declared field when none is requested, each
/// under its mapped column and with its declared type; and it binds, for
/// each filter member in key order, the member's value converted to its
/// declared field's type, against an `= ?` on that field's column.
pub proof fn lemma_select_projects_and_binds(binding: EntityBinding, entity: Entity, intent: Intent)
    requires
        select_outcome(binding, entity, intent) is Ok,
    ensures
        ({
            let proj = select_outcome(binding, entity, intent)->Ok_0.1;
            let names = match intent.fields {
                Some(fs) => string_views(fs@),
                None => field_names(entity.fields@),
            };
            &&& proj.len() == names.len()
            &&& forall|i: int|
                0 <= i < names.len() ==> {
                    &&& lookup_field(entity.fields@, #[trigger] names[i]) is Some
                    &&& proj[i] == (
                        names[i],
                        binding.field_map.spec_physical_for(names[i]),
                        lookup_field(entity.fields@, names[i])->0.data_type,
                    )
                }
        }),
        intent.filter is Some ==> json_view(intent.filter->0) is Object && ({
            let members = json_view(intent.filter->0)->Object_0;
            let bs = select_outcome(binding, entity, intent)->Ok_0.2;
            &&& bs.len() == members.len()
            &&& forall|i: int|
                0 <= i < members.len() ==> {
                    &&& lookup_field(entity.fields@, (#[trigger] members[i]).0) is Some
                    &&& bind_outcome(
                        lookup_field(entity.fields@, members[i].0)->0.name@,
                        lookup_field(entity.fields@, members[i].0)->0.data_type,
                        members[i].1,
                    ) == Ok::<BindValueView, ConnectorErrorView>(bs[i])
                }
        }),
        intent.filter is None ==> select_outcome(binding, entity, intent)->Ok_0.2.len() == 0,
{
    let names = match intent.fields {
        Some(fs) => string_views(fs@),
        None => field_names(entity.fields@),
    };
    lemma_first_unknown_key_is_first(names, entity.fields@);
    if intent.fields is None {
        assert forall|i: int| 0 <= i < names.len() implies lookup_field(entity.fields@, #[trigger] names[i]) is Some by {
            lemma_lookup_field(entity.fields@, names[i]);
            assert(entity.fields@[i].name@ == names[i]);
        }
    }
    if let Some(f) = intent.filter {
        if let JsonView::Object(m) = json_view(f) {
            lemma_filter_members_bind_each(binding, entity, m);
        }
    }
}

} // verus!
