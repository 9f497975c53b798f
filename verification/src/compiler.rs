//! Pre-flight validation of an intent against the entity it routes to:
//! the projection, filter and payload may only name declared fields, a read
//! carries no payload and an append carries an object payload.

use vstd::prelude::*;
use vstd::string::StringExecFns;

use crate::entity::{
    first_unknown_key, lemma_first_unknown_key_is_first, lemma_first_unknown_key_skip, lookup_field, Entity, EntityField,
};
use crate::intent::{Action, Intent};
use crate::json::JsonValue;
use crate::strmap::StrMap;
use crate::text::{debug_quoted, quote_debug, str_eq};

verus! {

/// Typed pre-flight validation errors.
#[derive(Debug, PartialEq, Eq)]
pub enum CompileError {
    /// The intent names another entity than the one it is validated against.
    EntityMismatch {
        /// Entity the intent names.
        intent_entity: String,
        /// Entity validated against.
        entity_name: String,
    },
    /// The projection names an undeclared field.
    UnknownProjectionField {
        /// Field name.
        field: String,
        /// Entity name.
        entity: String,
    },
    /// The filter names an undeclared field.
    UnknownFilterField {
        /// Field name.
        field: String,
        /// Entity name.
        entity: String,
    },
    /// The filter is not a JSON object.
    FilterNotObject,
    /// An append carries no payload.
    AppendMissingPayload,
    /// An append's payload is not a JSON object.
    PayloadNotObject,
    /// The payload names an undeclared field.
    UnknownPayloadField {
        /// Field name.
        field: String,
        /// Entity name.
        entity: String,
    },
    /// A read carries a payload.
    ReadHasPayload,
}

/// A validation error by value.
pub enum CompileErrorView {
    EntityMismatch(Seq<char>, Seq<char>),
    UnknownProjectionField(Seq<char>, Seq<char>),
    UnknownFilterField(Seq<char>, Seq<char>),
    FilterNotObject,
    AppendMissingPayload,
    PayloadNotObject,
    UnknownPayloadField(Seq<char>, Seq<char>),
    ReadHasPayload,
}

impl View for CompileError {
    type V = CompileErrorView;

    open spec fn view(&self) -> CompileErrorView {
        match self {
            CompileError::EntityMismatch { intent_entity, entity_name } => CompileErrorView::EntityMismatch(
                intent_entity@,
                entity_name@,
            ),
            CompileError::UnknownProjectionField { field, entity } => CompileErrorView::UnknownProjectionField(
                field@,
                entity@,
            ),
            CompileError::UnknownFilterField { field, entity } => CompileErrorView::UnknownFilterField(
                field@,
                entity@,
            ),
            CompileError::FilterNotObject => CompileErrorView::FilterNotObject,
            CompileError::AppendMissingPayload => CompileErrorView::AppendMissingPayload,
            CompileError::PayloadNotObject => CompileErrorView::PayloadNotObject,
            CompileError::UnknownPayloadField { field, entity } => CompileErrorView::UnknownPayloadField(
                field@,
                entity@,
            ),
            CompileError::ReadHasPayload => CompileErrorView::ReadHasPayload,
        }
    }
}

/// The text a validation error displays.
pub open spec fn compile_error_text(e: CompileErrorView) -> Seq<char> {
    match e {
        CompileErrorView::EntityMismatch(i, n) => "intent entity "@ + debug_quoted(i)
            + " does not match passed entity "@ + debug_quoted(n),
        CompileErrorView::UnknownProjectionField(f, n) => "projection references unknown field "@
            + debug_quoted(f) + " on entity "@ + debug_quoted(n),
        CompileErrorView::UnknownFilterField(f, n) => "filter references unknown field "@ + debug_quoted(f)
            + " on entity "@ + debug_quoted(n),
        CompileErrorView::FilterNotObject => "filter must be a JSON object keyed by field name"@,
        CompileErrorView::AppendMissingPayload => "append intent has no payload"@,
        CompileErrorView::PayloadNotObject => "append payload must be a JSON object keyed by field name"@,
        CompileErrorView::UnknownPayloadField(f, n) => "payload references unknown field "@ + debug_quoted(f)
            + " on entity "@ + debug_quoted(n),
        CompileErrorView::ReadHasPayload => "read intent must not include a payload"@,
    }
}

fn field_message(prefix: &str, field: &String, entity: &String) -> (r: String)
    ensures
        r@ == prefix@ + debug_quoted(field@) + " on entity "@ + debug_quoted(entity@),
{
    let mut s = String::from_str(prefix);
    s.append(quote_debug(field.as_str()).as_str());
    s.append(" on entity ");
    s.append(quote_debug(entity.as_str()).as_str());
    s
}

impl CompileError {
    /// The human-readable message of this error.
    pub fn message(&self) -> (r: String)
        ensures
            r@ == compile_error_text(self@),
    {
        match self {
            CompileError::EntityMismatch { intent_entity, entity_name } => {
                let mut s = String::from_str("intent entity ");
                s.append(quote_debug(intent_entity.as_str()).as_str());
                s.append(" does not match passed entity ");
                s.append(quote_debug(entity_name.as_str()).as_str());
                s
            },
            CompileError::UnknownProjectionField { field, entity } => field_message(
                "projection references unknown field ",
                field,
                entity,
            ),
            CompileError::UnknownFilterField { field, entity } => field_message(
                "filter references unknown field ",
                field,
                entity,
            ),
            CompileError::FilterNotObject => String::from_str("filter must be a JSON object keyed by field name"),
            CompileError::AppendMissingPayload => String::from_str("append intent has no payload"),
            CompileError::PayloadNotObject => String::from_str(
                "append payload must be a JSON object keyed by field name",
            ),
            CompileError::UnknownPayloadField { field, entity } => field_message(
                "payload references unknown field ",
                field,
                entity,
            ),
            CompileError::ReadHasPayload => String::from_str("read intent must not include a payload"),
        }
    }
}

/// The views of a list of names.
pub open spec fn name_views(names: Seq<String>) -> Seq<Seq<char>> {
    names.map_values(|s: String| s@)
}

/// Why an intent is not shape-valid for `entity`, if it is not: the entity
/// name, then the projection, then the filter, then the payload rules of
/// its action.
pub open spec fn validate_failure(intent: Intent, entity: Entity) -> Option<CompileErrorView> {
    let fields = entity.fields@;
    if intent.entity@ != entity.name@ {
        Some(CompileErrorView::EntityMismatch(intent.entity@, entity.name@))
    } else if intent.fields matches Some(fs) && first_unknown_key(name_views(fs@), fields) is Some {
        Some(CompileErrorView::UnknownProjectionField(first_unknown_key(name_views(intent.fields->0@), fields)->0, entity.name@))
    } else if intent.filter matches Some(f) && !(f is Object) {
        Some(CompileErrorView::FilterNotObject)
    } else if intent.filter matches Some(JsonValue::Object(m)) && first_unknown_key(m.keys(), fields) is Some {
        Some(CompileErrorView::UnknownFilterField(first_unknown_key(intent.filter->0->Object_0.keys(), fields)->0, entity.name@))
    } else {
        match intent.action {
            Action::Read => if intent.payload is Some {
                Some(CompileErrorView::ReadHasPayload)
            } else {
                None
            },
            Action::Append => match intent.payload {
                None => Some(CompileErrorView::AppendMissingPayload),
                Some(JsonValue::Object(m)) => match first_unknown_key(m.keys(), fields) {
                    Some(k) => Some(CompileErrorView::UnknownPayloadField(k, entity.name@)),
                    None => None,
                },
                Some(_) => Some(CompileErrorView::PayloadNotObject),
            },
        }
    }
}

/// The first name of `names` the entity does not declare, if any.
fn find_unknown_name(entity: &Entity, names: &Vec<String>) -> (r: Option<usize>)
    ensures
        match first_unknown_key(name_views(names@), entity.fields@) {
            Some(k) => r matches Some(i) && i < names@.len() && names@[i as int]@ == k,
            None => r is None,
        },
{
    let ghost ks = name_views(names@);
    let mut i: usize = 0;
    while i < names.len()
        invariant
            i <= names@.len(),
            ks == name_views(names@),
            forall|q: int| 0 <= q < i ==> lookup_field(entity.fields@, #[trigger] ks[q]) is Some,
        decreases names@.len() - i,
    {
        if entity.field(names[i].as_str()).is_none() {
            proof {
                lemma_first_unknown_key_skip(ks, entity.fields@, i as int);
                assert(ks.skip(i as int)[0] == ks[i as int]);
            }
            return Some(i);
        }
        i = i + 1;
    }
    proof {
        lemma_first_unknown_key_skip(ks, entity.fields@, i as int);
        assert(ks.skip(i as int).len() == 0);
    }
    None
}

/// The first key of `m` (in key order) the entity does not declare, if any.
pub fn find_unknown_key<V>(entity: &Entity, m: &StrMap<V>) -> (r: Option<usize>)
    ensures
        match first_unknown_key(m.keys(), entity.fields@) {
            Some(k) => r matches Some(i) && i < m.spec_len() && m.keys()[i as int] == k,
            None => r is None,
        },
{
    let n = m.len();
    let mut i: usize = 0;
    while i < n
        invariant
            n == m.spec_len(),
            i <= n,
            forall|q: int| 0 <= q < i ==> lookup_field(entity.fields@, #[trigger] m.keys()[q]) is Some,
        decreases n - i,
    {
        let (k, _) = m.entry_at(i);
        if entity.field(k.as_str()).is_none() {
            proof {
                lemma_first_unknown_key_skip(m.keys(), entity.fields@, i as int);
                assert(m.keys().skip(i as int)[0] == m.keys()[i as int]);
            }
            return Some(i);
        }
        i = i + 1;
    }
    proof {
        lemma_first_unknown_key_skip(m.keys(), entity.fields@, i as int);
        assert(m.keys().skip(i as int).len() == 0);
    }
    None
}

/// Pre-flight validation of an intent against the entity it routes to.
pub fn validate(intent: &Intent, entity: &Entity) -> (r: Result<(), CompileError>)
    ensures
        match validate_failure(*intent, *entity) {
            Some(e) => r matches Err(err) && err@ == e,
            None => r is Ok,
        },
{
    if !str_eq(intent.entity.as_str(), entity.name.as_str()) {
        return Err(CompileError::EntityMismatch {
            intent_entity: intent.entity.clone(),
            entity_name: entity.name.clone(),
        });
    }
    if let Some(fields) = &intent.fields {
        if let Some(i) = find_unknown_name(entity, fields) {
            return Err(CompileError::UnknownProjectionField {
                field: fields[i].clone(),
                entity: entity.name.clone(),
            });
        }
    }
    if let Some(filter) = &intent.filter {
        match filter {
            JsonValue::Object(m) => {
                if let Some(i) = find_unknown_key(entity, m) {
                    let (k, _) = m.entry_at(i);
                    return Err(CompileError::UnknownFilterField { field: k.clone(), entity: entity.name.clone() });
                }
            },
            _ => {
                return Err(CompileError::FilterNotObject);
            },
        }
    }
    match intent.action {
        Action::Read => {
            if intent.payload.is_some() {
                return Err(CompileError::ReadHasPayload);
            }
        },
        Action::Append => match &intent.payload {
            None => {
                return Err(CompileError::AppendMissingPayload);
            },
            Some(JsonValue::Object(m)) => {
                if let Some(i) = find_unknown_key(entity, m) {
                    let (k, _) = m.entry_at(i);
                    return Err(CompileError::UnknownPayloadField { field: k.clone(), entity: entity.name.clone() });
                }
            },
            Some(_) => {
                return Err(CompileError::PayloadNotObject);
            },
        },
    }
    Ok(())
}

/// A projection passes validation only when every name it lists is a
/// declared field of the entity; an intent for the entity that projects an
/// undeclared name is refused with that name, the first undeclared one.
pub proof fn lemma_validate_projection(intent: Intent, entity: Entity)
    ensures
        validate_failure(intent, entity) is None && intent.fields is Some ==> forall|i: int|
            0 <= i < intent.fields->0@.len() ==> lookup_field(entity.fields@, (#[trigger] intent.fields->0@[i])@) is Some,
        intent.entity@ == entity.name@ && intent.fields is Some && (exists|i: int|
            0 <= i < intent.fields->0@.len() && lookup_field(entity.fields@, (#[trigger] intent.fields->0@[i])@) is None)
            ==> exists|j: int|
            {
                &&& 0 <= j < intent.fields->0@.len()
                &&& lookup_field(entity.fields@, (#[trigger] intent.fields->0@[j])@) is None
                &&& forall|i: int|
                    0 <= i < j ==> lookup_field(entity.fields@, (#[trigger] intent.fields->0@[i])@) is Some
                &&& validate_failure(intent, entity) == Some(
                    CompileErrorView::UnknownProjectionField(intent.fields->0@[j]@, entity.name@),
                )
            },
{
    if intent.fields is Some {
        let fs = intent.fields->0@;
        let keys = name_views(fs);
        lemma_first_unknown_key_is_first(keys, entity.fields@);
        assert forall|i: int| 0 <= i < fs.len() implies #[trigger] keys[i] == fs[i]@ by {}
        if first_unknown_key(keys, entity.fields@) is Some {
            let j = choose|j: int|
                {
                    &&& 0 <= j < keys.len()
                    &&& keys[j] == first_unknown_key(keys, entity.fields@)->0
                    &&& lookup_field(entity.fields@, #[trigger] keys[j]) is None
                    &&& forall|i: int| 0 <= i < j ==> lookup_field(entity.fields@, #[trigger] keys[i]) is Some
                };
            assert(keys[j] == fs[j]@);
            assert forall|i: int| 0 <= i < j implies lookup_field(entity.fields@, (#[trigger] fs[i])@) is Some by {
                assert(keys[i] == fs[i]@);
            }
        } else {
            assert forall|i: int| 0 <= i < fs.len() implies lookup_field(entity.fields@, (#[trigger] fs[i])@) is Some by {
                assert(keys[i] == fs[i]@);
            }
        }
    }
}

/// An intent that passes validation names only declared fields: every key
/// of its filter, and every key of an append's payload; a read carries no
/// payload and an append carries an object.
pub proof fn lemma_validate_keys(intent: Intent, entity: Entity)
    requires
        validate_failure(intent, entity) is None,
    ensures
        intent.entity@ == entity.name@,
        intent.filter is Some ==> intent.filter->0 is Object && forall|i: int|
            0 <= i < intent.filter->0->Object_0.keys().len() ==> lookup_field(
                entity.fields@,
                #[trigger] intent.filter->0->Object_0.keys()[i],
            ) is Some,
        intent.action == Action::Read ==> intent.payload is None,
        intent.action == Action::Append ==> intent.payload is Some && intent.payload->0 is Object && forall|i: int|
            0 <= i < intent.payload->0->Object_0.keys().len() ==> lookup_field(
                entity.fields@,
                #[trigger] intent.payload->0->Object_0.keys()[i],
            ) is Some,
{
    if let Some(JsonValue::Object(m)) = intent.filter {
        lemma_first_unknown_key_is_first(m.keys(), entity.fields@);
    }
    if let Some(JsonValue::Object(m)) = intent.payload {
        lemma_first_unknown_key_is_first(m.keys(), entity.fields@);
    }
}

} // verus!
