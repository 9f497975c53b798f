//! The catalog a MySQL source exposes to the query engine: its discovered
//! tables, grouped by schema.

use vstd::prelude::*;
use vstd::string::StringExecFns;

use crate::access::{spec_scope_debug, SourceAccessScope};
use crate::connector::errors::{ConnectorError, ConnectorErrorView};
use crate::mysql::introspection::MysqlTable;
use crate::strmap::StrMap;

verus! {

/// The message for a scope under which no table was discovered.
pub open spec fn empty_catalog_text(scope: SourceAccessScope) -> Seq<char> {
    "MySQL source produced an empty catalog for scope "@ + spec_scope_debug(scope)
        + "; check the access scope, the table allow-list, and the eh_service grants on INFORMATION_SCHEMA"@
}

/// The tables of one schema, in discovery order.
pub open spec fn schema_group(tables: Seq<MysqlTable>, schema: Seq<char>) -> Seq<MysqlTable>
    decreases tables.len(),
{
    if tables.len() == 0 {
        Seq::empty()
    } else if tables.last().schema_name@ == schema {
        schema_group(tables.drop_last(), schema).push(tables.last())
    } else {
        schema_group(tables.drop_last(), schema)
    }
}

/// Some table belongs to the schema.
pub open spec fn has_schema(tables: Seq<MysqlTable>, schema: Seq<char>) -> bool {
    exists|i: int| 0 <= i < tables.len() && (#[trigger] tables[i]).schema_name@ == schema
}

/// Groups discovered tables by schema, keeping discovery order within a
/// schema. A catalog with no table at all is refused: the scope, the
/// allow-list or the service grants are wrong.
pub fn group_catalog(scope: &SourceAccessScope, tables: Vec<MysqlTable>) -> (r: Result<StrMap<Vec<MysqlTable>>, ConnectorError>)
    ensures
        tables@.len() == 0 ==> (r matches Err(e) && e@ == ConnectorErrorView::Backend(empty_catalog_text(*scope))),
        tables@.len() > 0 ==> (r matches Ok(m) && forall|s: Seq<char>|
            {
                &&& #[trigger] m.has_key(s) == has_schema(tables@, s)
                &&& m.has_key(s) ==> (m.spec_get(s) matches Some(g) && g@ == schema_group(tables@, s))
            }),
{
    if tables.len() == 0 {
        let mut m = String::from_str("MySQL source produced an empty catalog for scope ");
        m.append(scope.debug_repr().as_str());
        m.append("; check the access scope, the table allow-list, and the eh_service grants on INFORMATION_SCHEMA");
        return Err(ConnectorError::Backend(m));
    }
    let ghost orig = tables@;
    let mut rest = tables;
    let mut groups: StrMap<Vec<MysqlTable>> = StrMap::new();
    let n = rest.len();
    let mut i: usize = 0;
    while i < n
        invariant
            n == orig.len(),
            i <= n,
            rest@ == orig.skip(i as int),
            forall|s: Seq<char>|
                {
                    &&& #[trigger] groups.has_key(s) == has_schema(orig.take(i as int), s)
                    &&& groups.has_key(s) ==> (groups.spec_get(s) matches Some(g) && g@ == schema_group(orig.take(i as int), s))
                },
        decreases n - i,
    {
        let ghost before = rest@;
        let t = rest.remove(0);
        let ghost gs = groups;
        proof {
            assert(rest@ =~= before.skip(1));
            assert(rest@ =~= orig.skip(i + 1));
            assert(t == orig[i as int]);
        }
        let key = t.schema_name.clone();
        let prev = groups.insert(key.clone(), Vec::new());
        let mut g = match prev {
            Some(g) => g,
            None => Vec::new(),
        };
        g.push(t);
        let ghost gv = g@;
        groups.insert(key, g);
        proof {
            let pre = orig.take(i as int);
            let post = orig.take(i + 1);
            assert(post.drop_last() =~= pre);
            assert(post.last() == t);
            assert forall|s: Seq<char>|
                {
                    &&& #[trigger] groups.has_key(s) == has_schema(post, s)
                    &&& groups.has_key(s) ==> (groups.spec_get(s) matches Some(g) && g@ == schema_group(post, s))
                } by {
                assert(schema_group(post, s) == (if t.schema_name@ == s {
                    schema_group(pre, s).push(t)
                } else {
                    schema_group(pre, s)
                }));
                if s == t.schema_name@ {
                    assert(has_schema(post, s)) by {
                        assert(post[i as int] == t);
                    }
                    if gs.has_key(s) {
                        assert(gv =~= schema_group(pre, s).push(t));
                    } else {
                        assert(!has_schema(pre, s));
                        assert(schema_group(pre, s) =~= Seq::<MysqlTable>::empty()) by {
                            lemma_no_group(pre, s);
                        }
                        assert(gv =~= seq![t]);
                    }
                } else {
                    if has_schema(post, s) {
                        let j = choose|j: int| 0 <= j < post.len() && (#[trigger] post[j]).schema_name@ == s;
                        assert(j < i);
                        assert(pre[j] == post[j]);
                    }
                    if has_schema(pre, s) {
                        let j = choose|j: int| 0 <= j < pre.len() && (#[trigger] pre[j]).schema_name@ == s;
                        assert(post[j] == pre[j]);
                    }
                }
            }
        }
        i = i + 1;
    }
    proof {
        assert(orig.take(n as int) =~= orig);
    }
    Ok(groups)
}

proof fn lemma_no_group(ts: Seq<MysqlTable>, s: Seq<char>)
    requires
        !has_schema(ts, s),
    ensures
        schema_group(ts, s).len() == 0,
    decreases ts.len(),
{
    if ts.len() > 0 {
        assert(!has_schema(ts.drop_last(), s)) by {
            if has_schema(ts.drop_last(), s) {
                let j = choose|j: int| 0 <= j < ts.drop_last().len() && (#[trigger] ts.drop_last()[j]).schema_name@ == s;
                assert(ts[j] == ts.drop_last()[j]);
            }
        }
        lemma_no_group(ts.drop_last(), s);
        assert(ts.last() == ts[ts.len() - 1]);
    }
}

} // verus!
