//! What the gateway returns to the caller.
//!
//! An `Artifact` is a homogeneous batch of rows produced by executing an
//! intent. Each `ArtifactRow` is a JSON object keyed by logical entity
//! field name (the agent's view), never by physical column name. A row
//! keeps its fields in the order they were first set, so a projection
//! stays in the order the intent requested.

use vstd::prelude::*;
use vstd::string::StringExecFns;

use crate::json::{json_view, JsonValue, JsonView};
use crate::text::str_eq;

verus! {

/// The field names of a row's entries.
pub open spec fn row_keys(fields: Seq<(String, JsonValue)>) -> Seq<Seq<char>> {
    fields.map_values(|e: (String, JsonValue)| e.0@)
}

/// No field name occurs twice.
pub open spec fn keys_distinct(keys: Seq<Seq<char>>) -> bool {
    forall|i: int, j: int| 0 <= i < j < keys.len() ==> keys[i] != keys[j]
}

/// One row of an artifact: field values keyed by logical field name, in
/// the order the fields were first set.
#[derive(Debug)]
pub struct ArtifactRow {
    fields: Vec<(String, JsonValue)>,
}

impl View for ArtifactRow {
    type V = Seq<(Seq<char>, JsonView)>;

    closed spec fn view(&self) -> Seq<(Seq<char>, JsonView)> {
        self.fields@.map_values(|e: (String, JsonValue)| (e.0@, json_view(e.1)))
    }
}

/// The position of a field name among a row's fields.
pub open spec fn field_index(row: Seq<(Seq<char>, JsonView)>, k: Seq<char>) -> Option<int> {
    if exists|i: int| 0 <= i < row.len() && row[i].0 == k {
        Some(choose|i: int| 0 <= i < row.len() && row[i].0 == k)
    } else {
        None
    }
}

/// The value of a field in a row, by value.
pub open spec fn row_get(row: Seq<(Seq<char>, JsonView)>, k: Seq<char>) -> Option<JsonView> {
    match field_index(row, k) {
        Some(i) => Some(row[i].1),
        None => None,
    }
}

/// A row after setting `k` to `v`: the value is replaced in place when the
/// field is already set, else the field is added last.
pub open spec fn row_insert(row: Seq<(Seq<char>, JsonView)>, k: Seq<char>, v: JsonView) -> Seq<(Seq<char>, JsonView)> {
    match field_index(row, k) {
        Some(i) => row.update(i, (k, v)),
        None => row.push((k, v)),
    }
}

impl ArtifactRow {
    #[verifier::type_invariant]
    closed spec fn inv(self) -> bool {
        keys_distinct(row_keys(self.fields@))
    }

    /// The field names, in order.
    pub open spec fn names(&self) -> Seq<Seq<char>> {
        self@.map_values(|e: (Seq<char>, JsonView)| e.0)
    }

    /// An empty row.
    pub fn new() -> (r: Self)
        ensures
            r@.len() == 0,
    {
        ArtifactRow { fields: Vec::new() }
    }

    fn index_of(&self, field: &str) -> (r: Option<usize>)
        ensures
            match r {
                Some(i) => i < self@.len() && self@[i as int].0 == field@ && field_index(self@, field@) == Some(i as int),
                None => field_index(self@, field@) is None,
            },
    {
        proof {
            use_type_invariant(self);
        }
        let mut i: usize = 0;
        while i < self.fields.len()
            invariant
                i <= self.fields@.len(),
                keys_distinct(row_keys(self.fields@)),
                forall|j: int| 0 <= j < i ==> self@[j].0 != field@,
            decreases self.fields@.len() - i,
        {
            if str_eq(self.fields[i].0.as_str(), field) {
                proof {
                    assert(self@[i as int].0 == field@);
                    let c = choose|c: int| 0 <= c < self@.len() && self@[c].0 == field@;
                    if c != i {
                        assert(row_keys(self.fields@)[c] == self@[c].0);
                        assert(row_keys(self.fields@)[i as int] == self@[i as int].0);
                    }
                }
                return Some(i);
            }
            i = i + 1;
        }
        None
    }

    /// The value of a field, if set.
    pub fn get(&self, field: &str) -> (r: Option<&JsonValue>)
        ensures
            match r {
                Some(v) => row_get(self@, field@) == Some(json_view(*v)),
                None => row_get(self@, field@) is None,
            },
    {
        match self.index_of(field) {
            Some(i) => Some(&self.fields[i].1),
            None => None,
        }
    }

    /// Sets a field's value, returning the previous value if the field was
    /// already set (its position is kept); a new field goes last.
    pub fn insert(&mut self, field: &str, value: JsonValue) -> (r: Option<JsonValue>)
        ensures
            final(self)@ == row_insert(old(self)@, field@, json_view(value)),
            match r {
                Some(p) => row_get(old(self)@, field@) == Some(json_view(p)),
                None => row_get(old(self)@, field@) is None,
            },
    {
        proof {
            use_type_invariant(&*self);
        }
        let ghost v = json_view(value);
        match self.index_of(field) {
            Some(i) => {
                let mut fields: Vec<(String, JsonValue)> = Vec::new();
                std::mem::swap(&mut fields, &mut self.fields);
                let (key, prev) = fields.remove(i);
                fields.insert(i, (key, value));
                proof {
                    assert(row_keys(fields@) =~= row_keys(old(self).fields@));
                    assert(fields@.map_values(|e: (String, JsonValue)| (e.0@, json_view(e.1))) =~= old(self)@.update(
                        i as int,
                        (field@, v),
                    ));
                }
                self.fields = fields;
                Some(prev)
            },
            None => {
                let mut fields: Vec<(String, JsonValue)> = Vec::new();
                std::mem::swap(&mut fields, &mut self.fields);
                let ghost before = fields@;
                fields.push((String::from_str(field), value));
                proof {
                    assert(row_keys(fields@) =~= row_keys(before).push(field@));
                    assert forall|a: int, b: int| 0 <= a < b < row_keys(fields@).len() implies row_keys(
                        fields@,
                    )[a] != row_keys(fields@)[b] by {
                        if b == before.len() {
                            assert(old(self)@[a].0 == row_keys(before)[a]);
                        }
                    }
                    assert(fields@.map_values(|e: (String, JsonValue)| (e.0@, json_view(e.1))) =~= old(self)@.push((field@, v)));
                }
                self.fields = fields;
                None
            },
        }
    }

    /// Number of fields in the row.
    pub fn len(&self) -> (n: usize)
        ensures
            n == self@.len(),
            keys_distinct(self.names()),
    {
        proof {
            use_type_invariant(self);
            assert(self.names() =~= row_keys(self.fields@));
        }
        self.fields.len()
    }

    /// True if the row has no fields.
    pub fn is_empty(&self) -> (r: bool)
        ensures
            r == (self@.len() == 0),
    {
        self.fields.len() == 0
    }

    /// The fields, in order (for rendering the row).
    pub fn entries(&self) -> (r: &Vec<(String, JsonValue)>)
        ensures
            r@.map_values(|e: (String, JsonValue)| (e.0@, json_view(e.1))) == self@,
    {
        &self.fields
    }
}

impl Default for ArtifactRow {
    fn default() -> (r: Self)
        ensures
            r@.len() == 0,
    {
        ArtifactRow::new()
    }
}

/// The complete result of an intent execution: the rows plus the kind of
/// source that produced them (and its identifier, when known).
#[derive(Debug)]
pub struct Artifact {
    /// Rows in projection order.
    pub rows: Vec<ArtifactRow>,
    /// Kind of source that produced the rows (e.g. `"mysql"`).
    pub source_kind: String,
    /// Identifier of the source, if known.
    pub source_id: Option<u128>,
}

impl Artifact {
    /// Number of rows in the artifact.
    pub fn len(&self) -> (n: usize)
        ensures
            n == self.rows@.len(),
    {
        self.rows.len()
    }

    /// True if the artifact has no rows.
    pub fn is_empty(&self) -> (r: bool)
        ensures
            r == (self.rows@.len() == 0),
    {
        self.rows.len() == 0
    }
}

/// With distinct names, the position of a present name is where it is.
proof fn lemma_field_index_at(row: Seq<(Seq<char>, JsonView)>, i: int)
    requires
        keys_distinct(row.map_values(|e: (Seq<char>, JsonView)| e.0)),
        0 <= i < row.len(),
    ensures
        field_index(row, row[i].0) == Some(i),
{
    let k = row[i].0;
    let ks = row.map_values(|e: (Seq<char>, JsonView)| e.0);
    assert(0 <= i < row.len() && row[i].0 == k);
    let c = field_index(row, k)->0;
    assert(0 <= c < row.len() && row[c].0 == k);
    if c != i {
        assert(ks[c] == row[c].0);
        assert(ks[i] == row[i].0);
        if c < i {
            assert(ks[c] != ks[i]);
        } else {
            assert(ks[i] != ks[c]);
        }
    }
}

/// Reading a field just set gives the value set; other fields are
/// unchanged.
pub proof fn lemma_row_insert_get(row: Seq<(Seq<char>, JsonView)>, k: Seq<char>, v: JsonView, q: Seq<char>)
    requires
        keys_distinct(row.map_values(|e: (Seq<char>, JsonView)| e.0)),
    ensures
        row_get(row_insert(row, k, v), k) == Some(v),
        q != k ==> row_get(row_insert(row, k, v), q) == row_get(row, q),
{
    let n = row_insert(row, k, v);
    let ks = row.map_values(|e: (Seq<char>, JsonView)| e.0);
    let nks = n.map_values(|e: (Seq<char>, JsonView)| e.0);
    match field_index(row, k) {
        Some(i) => {
            assert(nks =~= ks);
            lemma_field_index_at(n, i);
            if q != k {
                if exists|j: int| 0 <= j < row.len() && row[j].0 == q {
                    let a = choose|j: int| 0 <= j < row.len() && row[j].0 == q;
                    lemma_field_index_at(row, a);
                    lemma_field_index_at(n, a);
                } else {
                    assert(!exists|j: int| 0 <= j < n.len() && n[j].0 == q);
                }
            }
        },
        None => {
            assert(nks =~= ks.push(k));
            assert(keys_distinct(nks)) by {
                assert forall|a: int, b: int| 0 <= a < b < nks.len() implies nks[a] != nks[b] by {
                    if b == row.len() {
                        assert(nks[a] == row[a].0);
                    }
                }
            }
            lemma_field_index_at(n, row.len() as int);
            if q != k {
                if exists|j: int| 0 <= j < row.len() && row[j].0 == q {
                    let a = choose|j: int| 0 <= j < row.len() && row[j].0 == q;
                    lemma_field_index_at(row, a);
                    lemma_field_index_at(n, a);
                } else {
                    assert(!exists|j: int| 0 <= j < n.len() && n[j].0 == q) by {
                        if exists|j: int| 0 <= j < n.len() && n[j].0 == q {
                            let b = choose|j: int| 0 <= j < n.len() && n[j].0 == q;
                            assert(b < row.len());
                            assert(row[b].0 == q);
                        }
                    }
                }
            }
        },
    }
}

} // verus!
