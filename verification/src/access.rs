//! Access scopes.
//!
//! `SourceAccessScope` is set on each source: what the connector exposes at
//! all. `BindingAccessScope` is set on a binding in SQL-passthrough mode: the
//! tables its SQL may touch.

use vstd::prelude::*;

use vstd::string::StringExecFns;

use crate::connector::registry::{debug_list, debug_strings};
use crate::text::{debug_quoted, quote_debug, str_eq, string_views};

verus! {

/// True when some name in `names` equals `name`.
pub open spec fn names_contain(names: Seq<String>, name: Seq<char>) -> bool {
    exists|i: int| 0 <= i < names.len() && (#[trigger] names[i])@ == name
}

/// True when some string in `names` equals `name`.
pub fn any_name_eq(names: &Vec<String>, name: &str) -> (r: bool)
    ensures
        r == names_contain(names@, name@),
{
    let mut i: usize = 0;
    while i < names.len()
        invariant
            i <= names@.len(),
            forall|j: int| 0 <= j < i ==> (#[trigger] names@[j])@ != name@,
        decreases names@.len() - i,
    {
        if str_eq(names[i].as_str(), name) {
            return true;
        }
        i = i + 1;
    }
    false
}

/// What a connector exposes.
#[derive(Debug)]
pub enum SourceAccessScope {
    /// Exactly one table.
    Table {
        /// Schema on the backend.
        schema: String,
        /// Table within that schema.
        table: String,
    },
    /// An allow-list of tables within one schema.
    Tables {
        /// Schema on the backend.
        schema: String,
        /// Allow-listed table names.
        tables: Vec<String>,
    },
    /// Every table of one schema.
    WholeSchema {
        /// Schema on the backend.
        schema: String,
    },
    /// Every schema and table of the listed databases.
    WholeDatabase {
        /// Database / catalog names.
        databases: Vec<String>,
    },
}

impl SourceAccessScope {
    /// True when `(schema, table)` is in scope.
    pub open spec fn spec_contains(&self, schema: Seq<char>, table: Seq<char>) -> bool {
        match self {
            SourceAccessScope::Table { schema: s, table: t } => s@ == schema && t@ == table,
            SourceAccessScope::Tables { schema: s, tables: ts } => s@ == schema && names_contain(ts@, table),
            SourceAccessScope::WholeSchema { schema: s } => s@ == schema,
            SourceAccessScope::WholeDatabase { databases } => names_contain(databases@, schema),
        }
    }

    /// True when `(schema, table)` is in scope.
    pub fn contains(&self, schema: &str, table: &str) -> (r: bool)
        ensures
            r == self.spec_contains(schema@, table@),
    {
        match self {
            SourceAccessScope::Table { schema: s, table: t } => str_eq(s.as_str(), schema) && str_eq(
                t.as_str(),
                table,
            ),
            SourceAccessScope::Tables { schema: s, tables: ts } => str_eq(s.as_str(), schema)
                && any_name_eq(ts, table),
            SourceAccessScope::WholeSchema { schema: s } => str_eq(s.as_str(), schema),
            SourceAccessScope::WholeDatabase { databases } => any_name_eq(databases, schema),
        }
    }

    /// The `(schema, table)` pairs of a bounded scope, in declared order;
    /// `None` for the unbounded scopes, whose tables the backend lists.
    pub fn explicit_tables(&self) -> (r: Option<Vec<(String, String)>>)
        ensures
            match self {
                SourceAccessScope::Table { schema, table } => r matches Some(v) && v@.len() == 1
                    && v@[0].0 == *schema && v@[0].1 == *table,
                SourceAccessScope::Tables { schema, tables } => r matches Some(v) && v@.len()
                    == tables@.len() && forall|i: int|
                    0 <= i < v@.len() ==> (#[trigger] v@[i]).0 == *schema && v@[i].1 == tables@[i],
                _ => r is None,
            },
            r matches Some(v) ==> forall|i: int|
                0 <= i < v@.len() ==> self.spec_contains((#[trigger] v@[i]).0@, v@[i].1@),
    {
        match self {
            SourceAccessScope::Table { schema, table } => {
                let mut v: Vec<(String, String)> = Vec::new();
                v.push((schema.clone(), table.clone()));
                Some(v)
            },
            SourceAccessScope::Tables { schema, tables } => {
                let mut v: Vec<(String, String)> = Vec::new();
                let mut i: usize = 0;
                while i < tables.len()
                    invariant
                        i <= tables@.len(),
                        v@.len() == i,
                        forall|j: int|
                            0 <= j < i ==> (#[trigger] v@[j]).0 == *schema && v@[j].1 == tables@[j],
                    decreases tables@.len() - i,
                {
                    v.push((schema.clone(), tables[i].clone()));
                    i = i + 1;
                }
                assert forall|j: int| 0 <= j < v@.len() implies self.spec_contains((#[trigger] v@[j]).0@, v@[j].1@) by {
                    assert(tables@[j]@ == v@[j].1@);
                }
                Some(v)
            },
            _ => None,
        }
    }
}

/// How the agent expresses requests against a binding.
#[derive(Debug, Clone, Copy, PartialEq, Eq, Hash, Structural)]
pub enum BindingAccessMode {
    /// JSON intents compiled to parameterised SQL (the default).
    Intent,
    /// Raw SQL, limited by the binding's `BindingAccessScope`.
    SqlPassthrough,
}

impl Default for BindingAccessMode {
    fn default() -> (r: Self)
        ensures
            r == BindingAccessMode::Intent,
    {
        BindingAccessMode::Intent
    }
}

/// The tables a SQL-passthrough binding may touch.
#[derive(Debug)]
pub enum BindingAccessScope {
    /// One table.
    Table {
        /// Schema on the backend.
        schema: String,
        /// Table name.
        table: String,
    },
    /// An allow-list within one schema.
    Tables {
        /// Schema on the backend.
        schema: String,
        /// Allow-listed table names.
        tables: Vec<String>,
    },
    /// A whole schema.
    WholeSchema {
        /// Schema on the backend.
        schema: String,
    },
}

impl BindingAccessScope {
    /// True when `(schema, table)` is reachable from this binding.
    pub open spec fn spec_contains(&self, schema: Seq<char>, table: Seq<char>) -> bool {
        match self {
            BindingAccessScope::Table { schema: s, table: t } => s@ == schema && t@ == table,
            BindingAccessScope::Tables { schema: s, tables: ts } => s@ == schema && names_contain(ts@, table),
            BindingAccessScope::WholeSchema { schema: s } => s@ == schema,
        }
    }

    /// True when `(schema, table)` is reachable from this binding.
    pub fn contains(&self, schema: &str, table: &str) -> (r: bool)
        ensures
            r == self.spec_contains(schema@, table@),
    {
        match self {
            BindingAccessScope::Table { schema: s, table: t } => str_eq(s.as_str(), schema) && str_eq(
                t.as_str(),
                table,
            ),
            BindingAccessScope::Tables { schema: s, tables: ts } => str_eq(s.as_str(), schema)
                && any_name_eq(ts, table),
            BindingAccessScope::WholeSchema { schema: s } => str_eq(s.as_str(), schema),
        }
    }
}


/// The `Debug` text of a source scope, as error messages quote it.
pub open spec fn spec_scope_debug(scope: SourceAccessScope) -> Seq<char> {
    match scope {
        SourceAccessScope::Table { schema, table } => "Table { schema: "@ + debug_quoted(schema@) + ", table: "@
            + debug_quoted(table@) + " }"@,
        SourceAccessScope::Tables { schema, tables } => "Tables { schema: "@ + debug_quoted(schema@)
            + ", tables: "@ + debug_list(string_views(tables@)) + " }"@,
        SourceAccessScope::WholeSchema { schema } => "WholeSchema { schema: "@ + debug_quoted(schema@) + " }"@,
        SourceAccessScope::WholeDatabase { databases } => "WholeDatabase { databases: "@ + debug_list(
            string_views(databases@),
        ) + " }"@,
    }
}

impl SourceAccessScope {
    /// The `Debug` text of this scope.
    pub fn debug_repr(&self) -> (r: String)
        ensures
            r@ == spec_scope_debug(*self),
    {
        match self {
            SourceAccessScope::Table { schema, table } => {
                let mut m = String::from_str("Table { schema: ");
                m.append(quote_debug(schema.as_str()).as_str());
                m.append(", table: ");
                m.append(quote_debug(table.as_str()).as_str());
                m.append(" }");
                m
            },
            SourceAccessScope::Tables { schema, tables } => {
                let mut m = String::from_str("Tables { schema: ");
                m.append(quote_debug(schema.as_str()).as_str());
                m.append(", tables: ");
                m.append(debug_strings(tables).as_str());
                m.append(" }");
                m
            },
            SourceAccessScope::WholeSchema { schema } => {
                let mut m = String::from_str("WholeSchema { schema: ");
                m.append(quote_debug(schema.as_str()).as_str());
                m.append(" }");
                m
            },
            SourceAccessScope::WholeDatabase { databases } => {
                let mut m = String::from_str("WholeDatabase { databases: ");
                m.append(debug_strings(databases).as_str());
                m.append(" }");
                m
            },
        }
    }
}

} // verus!
