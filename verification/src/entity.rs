//! Semantic entities and their physical bindings.
//!
//! An `Entity` is what an agent sees (`Customer`, `Order`, ...) with typed
//! fields. An `EntityBinding` maps the entity onto a physical table of one
//! source, with a per-field column-name map.

use vstd::prelude::*;

use crate::intent::Action;
use crate::strmap::StrMap;
use crate::text::str_eq;

verus! {

/// The data type of an entity field.
#[derive(Debug, Clone, Copy, PartialEq, Eq, Hash, Structural)]
pub enum FieldType {
    /// Bounded text.
    String,
    /// Unbounded text.
    Text,
    /// 32-bit signed integer.
    Int,
    /// 64-bit signed integer.
    BigInt,
    /// Arbitrary-precision decimal.
    Decimal,
    /// 64-bit floating point.
    Float,
    /// Boolean.
    Bool,
    /// UUID (v7 when generated here).
    Uuid,
    /// Timestamp.
    Timestamp,
    /// Opaque JSON payload.
    Json,
    /// Opaque binary payload.
    Binary,
}

/// A single declared field on an entity.
#[derive(Debug)]
pub struct EntityField {
    /// Logical field name as agents see it.
    pub name: String,
    /// Type the gateway enforces end-to-end.
    pub data_type: FieldType,
    /// Whether the field accepts NULL.
    pub nullable: bool,
    /// Whether the field carries PII.
    pub pii: bool,
}

impl Clone for EntityField {
    fn clone(&self) -> (r: Self)
        ensures
            r == *self,
    {
        EntityField {
            name: self.name.clone(),
            data_type: self.data_type,
            nullable: self.nullable,
            pii: self.pii,
        }
    }
}

/// Copies a field list element by element.
pub fn clone_fields(v: &Vec<EntityField>) -> (r: Vec<EntityField>)
    ensures
        r@ == v@,
{
    let mut r: Vec<EntityField> = Vec::new();
    let mut i: usize = 0;
    while i < v.len()
        invariant
            i <= v.len(),
            r@ == v@.take(i as int),
        decreases v.len() - i,
    {
        r.push(v[i].clone());
        assert(r@ =~= v@.take(i + 1));
        i = i + 1;
    }
    assert(v@.take(v.len() as int) =~= v@);
    r
}

/// The first field named `name`, if any.
pub open spec fn lookup_field(fields: Seq<EntityField>, name: Seq<char>) -> Option<EntityField>
    decreases fields.len(),
{
    if fields.len() == 0 {
        None
    } else if fields[0].name@ == name {
        Some(fields[0])
    } else {
        lookup_field(fields.drop_first(), name)
    }
}

/// A field is found exactly when some field carries the name, and what is
/// found carries it.
pub proof fn lemma_lookup_field(fields: Seq<EntityField>, name: Seq<char>)
    ensures
        lookup_field(fields, name) is Some <==> exists|i: int|
            0 <= i < fields.len() && (#[trigger] fields[i]).name@ == name,
        lookup_field(fields, name) matches Some(f) ==> f.name@ == name && fields.contains(f),
    decreases fields.len(),
{
    if fields.len() > 0 {
        lemma_lookup_field(fields.drop_first(), name);
        if fields[0].name@ != name {
            if exists|i: int| 0 <= i < fields.len() && (#[trigger] fields[i]).name@ == name {
                let i = choose|i: int| 0 <= i < fields.len() && (#[trigger] fields[i]).name@ == name;
                assert(fields.drop_first()[i - 1] == fields[i]);
            }
            if lookup_field(fields, name) is Some {
                let f = lookup_field(fields, name)->0;
                let j = choose|j: int| 0 <= j < fields.drop_first().len() && fields.drop_first()[j] == f;
                assert(fields[j + 1] == f);
            }
        } else {
            assert(fields[0] == fields[0]);
        }
    }
}

/// The first of `keys` that names no field in `fields`.
pub open spec fn first_unknown_key(keys: Seq<Seq<char>>, fields: Seq<EntityField>) -> Option<Seq<char>>
    decreases keys.len(),
{
    if keys.len() == 0 {
        None
    } else if lookup_field(fields, keys[0]) is None {
        Some(keys[0])
    } else {
        first_unknown_key(keys.drop_first(), fields)
    }
}

/// `first_unknown_key` finds nothing exactly when every key names a
/// field, and otherwise the first key that names none.
pub proof fn lemma_first_unknown_key_is_first(keys: Seq<Seq<char>>, fields: Seq<EntityField>)
    ensures
        first_unknown_key(keys, fields) is None <==> forall|i: int|
            0 <= i < keys.len() ==> lookup_field(fields, #[trigger] keys[i]) is Some,
        first_unknown_key(keys, fields) is Some ==> exists|j: int|
            {
                &&& 0 <= j < keys.len()
                &&& keys[j] == first_unknown_key(keys, fields)->0
                &&& lookup_field(fields, #[trigger] keys[j]) is None
                &&& forall|i: int| 0 <= i < j ==> lookup_field(fields, #[trigger] keys[i]) is Some
            },
    decreases keys.len(),
{
    if keys.len() > 0 {
        let rest = keys.drop_first();
        lemma_first_unknown_key_is_first(rest, fields);
        if lookup_field(fields, keys[0]) is Some {
            assert forall|i: int| 0 <= i < rest.len() implies #[trigger] rest[i] == keys[i + 1] by {}
            if first_unknown_key(rest, fields) is None {
                assert forall|i: int| 0 <= i < keys.len() implies lookup_field(fields, #[trigger] keys[i]) is Some by {
                    if i > 0 {
                        assert(keys[i] == rest[i - 1]);
                    }
                }
            } else {
                let j = choose|j: int|
                    {
                        &&& 0 <= j < rest.len()
                        &&& rest[j] == first_unknown_key(rest, fields)->0
                        &&& lookup_field(fields, #[trigger] rest[j]) is None
                        &&& forall|i: int| 0 <= i < j ==> lookup_field(fields, #[trigger] rest[i]) is Some
                    };
                assert(keys[j + 1] == rest[j]);
                assert forall|i: int| 0 <= i < j + 1 implies lookup_field(fields, #[trigger] keys[i]) is Some by {
                    if i > 0 {
                        assert(keys[i] == rest[i - 1]);
                    }
                }
                assert(!(forall|i: int| 0 <= i < keys.len() ==> lookup_field(fields, #[trigger] keys[i]) is Some));
            }
        } else {
            assert(lookup_field(fields, keys[0]) is None);
        }
    }
}

pub proof fn lemma_first_unknown_key_skip(keys: Seq<Seq<char>>, fields: Seq<EntityField>, i: int)
    requires
        0 <= i <= keys.len(),
        forall|j: int| 0 <= j < i ==> lookup_field(fields, #[trigger] keys[j]) is Some,
    ensures
        first_unknown_key(keys, fields) == first_unknown_key(keys.skip(i), fields),
    decreases i,
{
    if i > 0 {
        assert(lookup_field(fields, keys[0]) is Some);
        assert forall|j: int| 0 <= j < i - 1 implies lookup_field(fields, #[trigger] keys.drop_first()[j]) is Some by {
            assert(keys.drop_first()[j] == keys[j + 1]);
        }
        lemma_first_unknown_key_skip(keys.drop_first(), fields, i - 1);
        assert(keys.drop_first().skip(i - 1) =~= keys.skip(i));
    } else {
        assert(keys.skip(0) =~= keys);
    }
}

/// A logical, agent-facing entity.
#[derive(Debug)]
pub struct Entity {
    /// Entity name (e.g. `Customer`).
    pub name: String,
    /// Ordered field declarations.
    pub fields: Vec<EntityField>,
}

impl Clone for Entity {
    fn clone(&self) -> (r: Self)
        ensures
            r.name == self.name,
            r.fields@ == self.fields@,
    {
        Entity { name: self.name.clone(), fields: clone_fields(&self.fields) }
    }
}

impl Entity {
    /// The declared field named `name`, if any (the first one).
    pub open spec fn spec_field(&self, name: Seq<char>) -> Option<EntityField> {
        lookup_field(self.fields@, name)
    }

    /// Look up a field by name.
    pub fn field(&self, name: &str) -> (r: Option<&EntityField>)
        ensures
            match r {
                Some(f) => self.spec_field(name@) == Some(*f),
                None => self.spec_field(name@) is None,
            },
    {
        let n = self.fields.len();
        let mut i: usize = 0;
        assert(self.fields@.skip(0) =~= self.fields@);
        while i < n
            invariant
                n == self.fields@.len(),
                i <= n,
                lookup_field(self.fields@, name@) == lookup_field(self.fields@.skip(i as int), name@),
            decreases n - i,
        {
            let ghost rest = self.fields@.skip(i as int);
            assert(rest[0] == self.fields@[i as int]);
            if str_eq(self.fields[i].name.as_str(), name) {
                return Some(&self.fields[i]);
            }
            assert(rest.drop_first() =~= self.fields@.skip(i + 1));
            i = i + 1;
        }
        None
    }

    /// True when the entity declares every name in `names`.
    pub fn has_all_fields(&self, names: &[&str]) -> (r: bool)
        ensures
            r == forall|i: int| 0 <= i < names@.len() ==> (#[trigger] self.spec_field(names@[i]@)) is Some,
    {
        let mut i: usize = 0;
        while i < names.len()
            invariant
                i <= names@.len(),
                forall|j: int| 0 <= j < i ==> (#[trigger] self.spec_field(names@[j]@)) is Some,
            decreases names@.len() - i,
        {
            if self.field(names[i]).is_none() {
                return false;
            }
            i = i + 1;
        }
        true
    }
}

/// Workload profile of a binding.
#[derive(Debug, Clone, Copy, PartialEq, Eq, Hash, Structural)]
pub enum Profile {
    /// Low-latency point reads and writes against a transactional store.
    Oltp,
    /// High-throughput analytical queries.
    Analytical,
    /// Long-tail historical data.
    Archival,
    /// Vector-similarity lookups.
    Similarity,
}

/// The map `from_pairs` builds: for each key, the value of its last pair.
pub open spec fn pairs_lookup(pairs: Seq<(String, String)>, k: Seq<char>) -> Option<String>
    decreases pairs.len(),
{
    if pairs.len() == 0 {
        None
    } else if pairs.last().0@ == k {
        Some(pairs.last().1)
    } else {
        pairs_lookup(pairs.drop_last(), k)
    }
}

/// No two pairs share a logical name.
pub open spec fn distinct_logical(pairs: Seq<(String, String)>) -> bool {
    forall|i: int, j: int| 0 <= i < j < pairs.len() ==> (#[trigger] pairs[i]).0@ != (#[trigger] pairs[j]).0@
}

proof fn lemma_pairs_lookup_distinct(pairs: Seq<(String, String)>, k: Seq<char>)
    requires
        distinct_logical(pairs),
    ensures
        forall|i: int| 0 <= i < pairs.len() && (#[trigger] pairs[i]).0@ == k ==> pairs_lookup(pairs, k) == Some(pairs[i].1),
        pairs_lookup(pairs, k) is Some ==> exists|i: int| 0 <= i < pairs.len() && (#[trigger] pairs[i]).0@ == k,
    decreases pairs.len(),
{
    if pairs.len() > 0 {
        let front = pairs.drop_last();
        assert forall|i: int, j: int| 0 <= i < j < front.len() implies (#[trigger] front[i]).0@ != (#[trigger] front[j]).0@ by {
            assert(front[i] == pairs[i] && front[j] == pairs[j]);
        }
        lemma_pairs_lookup_distinct(front, k);
        let n = pairs.len() - 1;
        if pairs.last().0@ != k {
            assert forall|i: int| 0 <= i < pairs.len() && (#[trigger] pairs[i]).0@ == k implies pairs_lookup(pairs, k) == Some(pairs[i].1) by {
                assert(i != n);
                assert(front[i] == pairs[i]);
            }
            if pairs_lookup(pairs, k) is Some {
                let i = choose|i: int| 0 <= i < front.len() && (#[trigger] front[i]).0@ == k;
                assert(pairs[i] == front[i]);
            }
        } else {
            assert(pairs[n].0@ == k);
        }
    }
}

/// A field map built from pairs with distinct logical names does not
/// depend on their order: any arrangement of the same pairs maps every
/// logical name alike.
pub proof fn lemma_from_pairs_order_free(p1: Seq<(String, String)>, p2: Seq<(String, String)>)
    requires
        distinct_logical(p1),
        distinct_logical(p2),
        forall|x: (String, String)| p1.contains(x) <==> p2.contains(x),
    ensures
        forall|k: Seq<char>| #[trigger] pairs_lookup(p1, k) == pairs_lookup(p2, k),
{
    assert forall|k: Seq<char>| #[trigger] pairs_lookup(p1, k) == pairs_lookup(p2, k) by {
        lemma_pairs_lookup_distinct(p1, k);
        lemma_pairs_lookup_distinct(p2, k);
        if pairs_lookup(p1, k) is Some {
            let i = choose|i: int| 0 <= i < p1.len() && (#[trigger] p1[i]).0@ == k;
            assert(p1.contains(p1[i]));
            let j = choose|j: int| 0 <= j < p2.len() && p2[j] == p1[i];
            assert(p2[j].0@ == k);
        } else if pairs_lookup(p2, k) is Some {
            let j = choose|j: int| 0 <= j < p2.len() && (#[trigger] p2[j]).0@ == k;
            assert(p2.contains(p2[j]));
            let i = choose|i: int| 0 <= i < p1.len() && p1[i] == p2[j];
            assert(p1[i].0@ == k);
        }
    }
}

/// Logical field name → physical column name, ordered by logical name.
#[derive(Debug)]
pub struct FieldMap {
    /// Logical → physical name map.
    pub mapping: StrMap<String>,
}

impl Default for FieldMap {
    fn default() -> (r: Self)
        ensures
            r.mapping.spec_len() == 0,
    {
        FieldMap { mapping: StrMap::new() }
    }
}

impl Clone for FieldMap {
    fn clone(&self) -> (r: Self)
        ensures
            r.mapping.entries() == self.mapping.entries(),
    {
        FieldMap { mapping: self.mapping.clone_strings() }
    }
}

impl FieldMap {
    /// The physical column of a logical field: its mapped name, or the
    /// logical name itself when unmapped.
    pub open spec fn spec_physical_for(&self, logical: Seq<char>) -> Seq<char> {
        match self.mapping.spec_get(logical) {
            Some(p) => p@,
            None => logical,
        }
    }

    /// Construct a map from (logical, physical) pairs; a later pair for the
    /// same logical name replaces an earlier one.
    pub fn from_pairs(pairs: Vec<(String, String)>) -> (r: Self)
        ensures
            forall|k: Seq<char>| #[trigger] r.mapping.spec_get(k) == pairs_lookup(pairs@, k),
    {
        let mut mapping: StrMap<String> = StrMap::new();
        let mut i: usize = 0;
        while i < pairs.len()
            invariant
                i <= pairs@.len(),
                forall|k: Seq<char>| #[trigger] mapping.spec_get(k) == pairs_lookup(pairs@.take(i as int), k),
            decreases pairs@.len() - i,
        {
            let k = pairs[i].0.clone();
            let v = pairs[i].1.clone();
            mapping.insert(k, v);
            proof {
                let t = pairs@.take(i + 1);
                assert(t.drop_last() =~= pairs@.take(i as int));
                assert(t.last() == pairs@[i as int]);
            }
            i = i + 1;
        }
        assert(pairs@.take(pairs@.len() as int) =~= pairs@);
        FieldMap { mapping }
    }

    /// The physical column for a logical field, falling back to the logical
    /// name unchanged when unmapped.
    pub fn physical_for<'a>(&'a self, logical: &'a str) -> (r: &'a str)
        ensures
            r@ == self.spec_physical_for(logical@),
    {
        match self.mapping.get(logical) {
            Some(p) => p.as_str(),
            None => logical,
        }
    }
}

/// Maps an entity onto a physical table of one source.
#[derive(Debug)]
pub struct EntityBinding {
    /// Entity name this binding is for.
    pub entity: String,
    /// Source name this binding routes to.
    pub source: String,
    /// Backing physical table (optionally schema-qualified).
    pub physical_table: String,
    /// Workload profile.
    pub profile: Profile,
    /// Actions this binding allows.
    pub supported_actions: Vec<Action>,
    /// Logical → physical field-name map.
    pub field_map: FieldMap,
}

/// The content of a binding, by value.
pub type EntityBindingView = (Seq<char>, Seq<char>, Seq<char>, Profile, Seq<Action>, Seq<(String, String)>);

impl View for EntityBinding {
    type V = EntityBindingView;

    open spec fn view(&self) -> EntityBindingView {
        (
            self.entity@,
            self.source@,
            self.physical_table@,
            self.profile,
            self.supported_actions@,
            self.field_map.mapping.entries(),
        )
    }
}

impl Clone for EntityBinding {
    fn clone(&self) -> (r: Self)
        ensures
            r@ == self@,
            r.field_map.mapping.entries() == self.field_map.mapping.entries(),
    {
        let mut actions: Vec<Action> = Vec::new();
        let mut i: usize = 0;
        while i < self.supported_actions.len()
            invariant
                i <= self.supported_actions@.len(),
                actions@ == self.supported_actions@.take(i as int),
            decreases self.supported_actions@.len() - i,
        {
            actions.push(self.supported_actions[i]);
            assert(actions@ =~= self.supported_actions@.take(i + 1));
            i = i + 1;
        }
        assert(self.supported_actions@.take(self.supported_actions@.len() as int) =~= self.supported_actions@);
        EntityBinding {
            entity: self.entity.clone(),
            source: self.source.clone(),
            physical_table: self.physical_table.clone(),
            profile: self.profile,
            supported_actions: actions,
            field_map: self.field_map.clone(),
        }
    }
}

impl EntityBinding {
    /// True when the binding declares support for `action`.
    pub fn supports(&self, action: Action) -> (r: bool)
        ensures
            r == self.supported_actions@.contains(action),
    {
        let mut i: usize = 0;
        while i < self.supported_actions.len()
            invariant
                i <= self.supported_actions@.len(),
                forall|j: int| 0 <= j < i ==> self.supported_actions@[j] != action,
            decreases self.supported_actions@.len() - i,
        {
            if self.supported_actions[i] == action {
                return true;
            }
            i = i + 1;
        }
        false
    }
}

} // verus!
