//! The MySQL connector's decisions: its declared capabilities, how an
//! execution error is classified, how the password secret is resolved and
//! how fetched rows become an artifact.

use vstd::prelude::*;
use vstd::string::StringExecFns;

use crate::artifact::{row_insert, Artifact, ArtifactRow};
use crate::config::errors::{config_error_text, ConfigErrorView};
use crate::config::secret::{Secret, SecretRef};
use crate::connector::caps::{ConnectorCaps, PushdownLevel};
use crate::connector::errors::{ConnectorError, ConnectorErrorView};
use crate::json::{JsonView};
use crate::mysql::query::{projection_views, ProjectedColumn, ProjectedView};
use crate::mysql::types::{decode_column, decode_outcome, Fetched, FetchedView};
use crate::text::{contains_text, str_contains};

verus! {

/// What the MySQL connector declares: reads and appends, exact equality
/// pushdown, server-side projection, materialised (not streamed) results.
pub fn capabilities() -> (r: ConnectorCaps)
    ensures
        r.supports_read,
        r.supports_append,
        r.predicate_pushdown == PushdownLevel::Exact,
        r.projection_pushdown,
        !r.streaming,
{
    ConnectorCaps {
        supports_read: true,
        supports_append: true,
        predicate_pushdown: PushdownLevel::Exact,
        projection_pushdown: true,
        streaming: false,
    }
}

/// A backend message that reports a refused grant.
pub open spec fn is_refusal(msg: Seq<char>) -> bool {
    contains_text(msg, "denied"@) || contains_text(msg, "Access denied"@) || contains_text(msg, "command denied"@)
}

/// Classifies an execution error by its message: a permission refusal
/// ("denied") is an engine refusal, anything else a backend error.
pub fn map_exec_error(msg: String) -> (r: ConnectorError)
    ensures
        is_refusal(msg@) ==> r@ == ConnectorErrorView::EngineRefusal(msg@),
        !is_refusal(msg@) ==> r@ == ConnectorErrorView::Backend(msg@),
{
    if str_contains(msg.as_str(), "denied") || str_contains(msg.as_str(), "Access denied") || str_contains(
        msg.as_str(),
        "command denied",
    ) {
        ConnectorError::EngineRefusal(msg)
    } else {
        ConnectorError::Backend(msg)
    }
}

/// Resolves the password secret from the value of its environment
/// variable; a failure is a connect error that says why.
pub fn resolve_password(password: &SecretRef, env_value: Option<String>) -> (r: Result<Secret, ConnectorError>)
    ensures
        match env_value {
            None => r matches Err(e) && e@ == ConnectorErrorView::Connect(
                "secret resolution failed: "@ + config_error_text(ConfigErrorView::MissingEnvVar(password.spec_env_name())),
            ),
            Some(v) => if v@.len() == 0 {
                r matches Err(e) && e@ == ConnectorErrorView::Connect(
                    "secret resolution failed: "@ + config_error_text(ConfigErrorView::EmptyEnvVar(password.spec_env_name())),
                )
            } else {
                r matches Ok(s) && s.spec_value() == v@
            },
        },
{
    match password.resolve(env_value) {
        Ok(s) => Ok(s),
        Err(e) => {
            let mut m = String::from_str("secret resolution failed: ");
            m.append(e.message().as_str());
            Err(ConnectorError::Connect(m))
        },
    }
}


/// Fetched cells, by value.
pub open spec fn cells_view(cells: Seq<Fetched>) -> Seq<FetchedView> {
    cells.map_values(|f: Fetched| f@)
}

/// Fetched rows, by value.
pub open spec fn rows_view(rows: Seq<Vec<Fetched>>) -> Seq<Seq<FetchedView>> {
    rows.map_values(|r: Vec<Fetched>| cells_view(r@))
}

/// The artifact row of a fetched row: each projected column's cell decoded
/// under its logical name, in projection order; the first cell that does
/// not decode is the error.
pub open spec fn decode_row(proj: Seq<ProjectedView>, cells: Seq<FetchedView>) -> Result<Seq<(Seq<char>, JsonView)>, ConnectorErrorView>
    decreases cells.len(),
{
    if cells.len() == 0 {
        Ok(Seq::empty())
    } else {
        match decode_row(proj, cells.drop_last()) {
            Err(e) => Err(e),
            Ok(row) => {
                let c = proj[cells.len() - 1];
                match decode_outcome(c.0, c.2, cells.last()) {
                    Err(e) => Err(e),
                    Ok(v) => Ok(row_insert(row, c.0, v)),
                }
            },
        }
    }
}

/// The artifact rows of the fetched rows, in order; the first row that
/// does not decode is the error.
pub open spec fn decode_rows(proj: Seq<ProjectedView>, rows: Seq<Seq<FetchedView>>) -> Result<Seq<Seq<(Seq<char>, JsonView)>>, ConnectorErrorView>
    decreases rows.len(),
{
    if rows.len() == 0 {
        Ok(Seq::empty())
    } else {
        match decode_rows(proj, rows.drop_last()) {
            Err(e) => Err(e),
            Ok(rs) => match decode_row(proj, rows.last()) {
                Err(e) => Err(e),
                Ok(row) => Ok(rs.push(row)),
            },
        }
    }
}

proof fn lemma_decode_row_err_extends(proj: Seq<ProjectedView>, cells: Seq<FetchedView>, k: int)
    requires
        0 <= k <= cells.len(),
        decode_row(proj, cells.take(k)) is Err,
    ensures
        decode_row(proj, cells) == decode_row(proj, cells.take(k)),
    decreases cells.len() - k,
{
    if k == cells.len() {
        assert(cells.take(k) =~= cells);
    } else {
        assert(cells.take(k + 1).drop_last() =~= cells.take(k));
        lemma_decode_row_err_extends(proj, cells, k + 1);
    }
}

proof fn lemma_decode_rows_err_extends(proj: Seq<ProjectedView>, rows: Seq<Seq<FetchedView>>, k: int)
    requires
        0 <= k <= rows.len(),
        decode_rows(proj, rows.take(k)) is Err,
    ensures
        decode_rows(proj, rows) == decode_rows(proj, rows.take(k)),
    decreases rows.len() - k,
{
    if k == rows.len() {
        assert(rows.take(k) =~= rows);
    } else {
        assert(rows.take(k + 1).drop_last() =~= rows.take(k));
        lemma_decode_rows_err_extends(proj, rows, k + 1);
    }
}

/// Decodes one fetched row into an artifact row.
pub fn decode_fetched_row(projection: &Vec<ProjectedColumn>, cells: Vec<Fetched>) -> (r: Result<ArtifactRow, ConnectorError>)
    requires
        cells@.len() == projection@.len(),
        forall|j: int| 0 <= j < cells@.len() ==> (#[trigger] cells@[j]).wf(),
    ensures
        match decode_row(projection_views(projection@), cells_view(cells@)) {
            Ok(row) => r matches Ok(x) && x@ == row,
            Err(e) => r matches Err(x) && x@ == e,
        },
{
    let ghost proj = projection_views(projection@);
    let ghost all = cells_view(cells@);
    let mut rest = cells;
    let mut out = ArtifactRow::new();
    let n = projection.len();
    let mut j: usize = 0;
    proof {
        assert(all.take(0) =~= Seq::<FetchedView>::empty());
        assert(out@ =~= Seq::<(Seq<char>, JsonView)>::empty());
    }
    while j < n
        invariant
            n == projection@.len(),
            proj == projection_views(projection@),
            all == cells_view(cells@),
            all.len() == n,
            j <= n,
            cells_view(rest@) == all.skip(j as int),
            forall|q: int| 0 <= q < rest@.len() ==> (#[trigger] rest@[q]).wf(),
            decode_row(proj, all.take(j as int)) == Ok::<Seq<(Seq<char>, JsonView)>, ConnectorErrorView>(out@),
        decreases n - j,
    {
        let ghost before_rest = rest@;
        assert(cells_view(rest@).len() == rest@.len());
        let cell = rest.remove(0);
        proof {
            assert(cells_view(before_rest)[0] == cell@);
            assert(all.skip(j as int)[0] == all[j as int]);
            assert(rest@ =~= before_rest.skip(1));
            assert(cells_view(rest@) =~= cells_view(before_rest).skip(1));
            assert(all.skip(j as int).skip(1) =~= all.skip(j + 1));
            assert(cells_view(rest@) =~= all.skip(j + 1));
            assert(all.take(j + 1).drop_last() =~= all.take(j as int));
            assert(all.take(j + 1).last() == all[j as int]);
            assert(proj[j as int] == projection@[j as int]@);
        }
        let col = &projection[j];
        let value = match decode_column(col.logical.as_str(), col.field_type, cell) {
            Ok(v) => v,
            Err(e) => {
                proof {
                    assert(all[j as int] == cell@);
                    assert(decode_outcome(proj[j as int].0, proj[j as int].2, all[j as int]) == Err::<JsonView, ConnectorErrorView>(e@));
                    assert(decode_row(proj, all.take(j + 1)) == Err::<Seq<(Seq<char>, JsonView)>, ConnectorErrorView>(e@));
                    lemma_decode_row_err_extends(proj, all, j + 1);
                }
                return Err(e);
            },
        };
        out.insert(col.logical.as_str(), value);
        j = j + 1;
    }
    proof {
        assert(all.take(n as int) =~= all);
    }
    Ok(out)
}

/// The artifact of a read: the fetched rows decoded under the projection,
/// in order, attributed to the connector kind.
pub fn rows_to_artifact(source_kind: &str, projection: &Vec<ProjectedColumn>, rows: Vec<Vec<Fetched>>) -> (r: Result<Artifact, ConnectorError>)
    requires
        forall|i: int| 0 <= i < rows@.len() ==> (#[trigger] rows@[i])@.len() == projection@.len(),
        forall|i: int, j: int| 0 <= i < rows@.len() && 0 <= j < rows@[i]@.len() ==> (#[trigger] rows@[i]@[j]).wf(),
    ensures
        match decode_rows(projection_views(projection@), rows_view(rows@)) {
            Ok(rs) => r matches Ok(a) && a.rows@.map_values(|x: ArtifactRow| x@) == rs && a.source_kind@
                == source_kind@ && a.source_id is None,
            Err(e) => r matches Err(x) && x@ == e,
        },
{
    let ghost proj = projection_views(projection@);
    let ghost all = rows_view(rows@);
    let ghost orig = rows@;
    let mut rest = rows;
    let mut out: Vec<ArtifactRow> = Vec::new();
    let n = rest.len();
    let mut i: usize = 0;
    proof {
        assert(all.take(0) =~= Seq::<Seq<FetchedView>>::empty());
        assert(out@.map_values(|x: ArtifactRow| x@) =~= Seq::<Seq<(Seq<char>, JsonView)>>::empty());
    }
    while i < n
        invariant
            n == orig.len(),
            orig == rows@,
            all == rows_view(orig),
            proj == projection_views(projection@),
            i <= n,
            rest@ == orig.skip(i as int),
            forall|q: int| 0 <= q < orig.len() ==> (#[trigger] orig[q])@.len() == projection@.len(),
            forall|q: int, j: int| 0 <= q < orig.len() && 0 <= j < orig[q]@.len() ==> (#[trigger] orig[q]@[j]).wf(),
            decode_rows(proj, all.take(i as int)) == Ok::<Seq<Seq<(Seq<char>, JsonView)>>, ConnectorErrorView>(
                out@.map_values(|x: ArtifactRow| x@),
            ),
        decreases n - i,
    {
        let ghost before_rest = rest@;
        let row = rest.remove(0);
        proof {
            assert(before_rest[0] == orig[i as int]);
            assert(rest@ =~= before_rest.skip(1));
            assert(rest@ =~= orig.skip(i + 1));
            assert(all.take(i + 1).drop_last() =~= all.take(i as int));
            assert(all.take(i + 1).last() == cells_view(orig[i as int]@));
            assert forall|j: int| 0 <= j < row@.len() implies (#[trigger] row@[j]).wf() by {
                assert(orig[i as int]@[j].wf());
            }
        }
        let decoded = match decode_fetched_row(projection, row) {
            Ok(x) => x,
            Err(e) => {
                proof {
                    assert(decode_row(proj, cells_view(orig[i as int]@)) == Err::<Seq<(Seq<char>, JsonView)>, ConnectorErrorView>(e@));
                    assert(decode_rows(proj, all.take(i + 1)) is Err);
                    lemma_decode_rows_err_extends(proj, all, i + 1);
                }
                return Err(e);
            },
        };
        let ghost before_out = out@;
        out.push(decoded);
        proof {
            assert(out@.map_values(|x: ArtifactRow| x@) =~= before_out.map_values(|x: ArtifactRow| x@).push(decoded@));
        }
        i = i + 1;
    }
    proof {
        assert(all.take(n as int) =~= all);
    }
    Ok(Artifact { rows: out, source_kind: String::from_str(source_kind), source_id: None })
}

} // verus!
