//! The registry of connector kinds.
//!
//! Every connector, first-party or not, is added the same way: the gateway
//! holds a `ConnectorRegistry` and each connector registers a factory for
//! its kind. No specific connector type appears outside the registry.

use vstd::prelude::*;
use vstd::string::StringExecFns;

use crate::connector::errors::{ConnectorError, ConnectorErrorView};
use crate::strmap::StrMap;
use crate::text::{debug_quoted, join, quote_debug, string_views};

verus! {

/// A factory for one connector kind. The kind is the stable identifier
/// sources name; the registry indexes factories by it.
pub trait ConnectorFactory {
    /// Whether this factory states its kind: a factory that does returns
    /// `spec_kind` from `kind`. None is assumed to.
    open spec fn obeys_kind_spec() -> bool {
        false
    }

    /// The kind this factory builds connectors for, by value, where the
    /// factory states it.
    open spec fn spec_kind(&self) -> Seq<char> {
        Seq::empty()
    }

    /// The kind this factory builds connectors for.
    fn kind(&self) -> (r: &'static str)
        ensures
            Self::obeys_kind_spec() ==> r@ == self.spec_kind(),
    ;
}

/// The message for a kind registered twice.
pub open spec fn already_registered_text(kind: Seq<char>) -> Seq<char> {
    "connector kind "@ + debug_quoted(kind) + " is already registered"@
}

/// The `Debug` text of a list of strings: `["a", "b"]`.
pub open spec fn debug_list(items: Seq<Seq<char>>) -> Seq<char> {
    "["@ + join(items.map_values(|s: Seq<char>| debug_quoted(s)), ", "@) + "]"@
}

/// The message for a kind no factory is registered for.
pub open spec fn unregistered_text(kind: Seq<char>, known: Seq<Seq<char>>) -> Seq<char> {
    "no connector registered for kind "@ + debug_quoted(kind) + ". Known kinds: "@ + debug_list(known)
        + ". If you intended to include this connector, enable the corresponding Cargo feature (e.g. `connector-"@
        + kind + "`)."@
}

/// The registry the gateway holds; connectors register into it at startup.
pub struct ConnectorRegistry<F> {
    by_kind: StrMap<F>,
}

impl<F> ConnectorRegistry<F> {
    /// The registered factories, by kind.
    pub closed spec fn factories(&self) -> StrMap<F> {
        self.by_kind
    }

    /// An empty registry.
    pub fn new() -> (r: Self)
        ensures
            r.factories().spec_len() == 0,
    {
        ConnectorRegistry { by_kind: StrMap::new() }
    }

    /// Registers `factory` under `kind`; a kind registered twice is refused
    /// and the registry is left unchanged.
    pub fn register_kind(&mut self, kind: &str, factory: F) -> (r: Result<(), ConnectorError>)
        ensures
            old(self).factories().has_key(kind@) ==> (r matches Err(e) && e@ == ConnectorErrorView::Connect(
                already_registered_text(kind@),
            ) && final(self).factories() == old(self).factories()),
            !old(self).factories().has_key(kind@) ==> {
                &&& r is Ok
                &&& final(self).factories().spec_get(kind@) == Some(factory)
                &&& forall|q: Seq<char>| q != kind@ ==> final(self).factories().spec_get(q) == old(self).factories().spec_get(q)
                &&& forall|q: Seq<char>| q != kind@ ==> (final(self).factories().has_key(q) == old(self).factories().has_key(q))
                &&& final(self).factories().has_key(kind@)
            },
    {
        if self.by_kind.contains_key(kind) {
            let mut m = String::from_str("connector kind ");
            m.append(quote_debug(kind).as_str());
            m.append(" is already registered");
            return Err(ConnectorError::Connect(m));
        }
        self.by_kind.insert(String::from_str(kind), factory);
        Ok(())
    }

    /// The factory registered for `kind`, if any.
    pub fn factory(&self, kind: &str) -> (r: Option<&F>)
        ensures
            match r {
                Some(f) => self.factories().spec_get(kind@) == Some(*f),
                None => !self.factories().has_key(kind@),
            },
    {
        self.by_kind.get(kind)
    }

    /// All registered kinds, in lexical order.
    pub fn known_kinds(&self) -> (r: Vec<String>)
        ensures
            string_views(r@) == self.factories().keys(),
            crate::strmap::keys_sorted(string_views(r@)),
    {
        self.by_kind.key_strings()
    }

    /// The factory a connector of `kind` is built with, or the error that
    /// lists the registered kinds and the build feature that would add it.
    pub fn resolve_factory(&self, kind: &str) -> (r: Result<&F, ConnectorError>)
        ensures
            match r {
                Ok(f) => self.factories().spec_get(kind@) == Some(*f),
                Err(e) => !self.factories().has_key(kind@) && e@ == ConnectorErrorView::Connect(
                    unregistered_text(kind@, self.factories().keys()),
                ),
            },
    {
        match self.by_kind.get(kind) {
            Some(f) => Ok(f),
            None => {
                let known = self.known_kinds();
                let mut m = String::from_str("no connector registered for kind ");
                m.append(quote_debug(kind).as_str());
                m.append(". Known kinds: ");
                m.append(debug_strings(&known).as_str());
                m.append(
                    ". If you intended to include this connector, enable the corresponding Cargo feature (e.g. `connector-",
                );
                m.append(kind);
                m.append("`).");
                Err(ConnectorError::Connect(m))
            },
        }
    }
}

impl<F: ConnectorFactory> ConnectorRegistry<F> {
    /// Registers a factory under the kind it declares (its `spec_kind`,
    /// where it states one); a kind registered twice is refused and the
    /// registry is left unchanged.
    pub fn register(&mut self, factory: F) -> (r: Result<(), ConnectorError>)
        ensures
            exists|kind: Seq<char>|
                {
                    &&& F::obeys_kind_spec() ==> kind == factory.spec_kind()
                    &&& old(self).factories().has_key(kind) ==> (r matches Err(e) && e@ == ConnectorErrorView::Connect(
                        already_registered_text(kind),
                    ) && final(self).factories() == old(self).factories())
                    &&& !old(self).factories().has_key(kind) ==> {
                        &&& r is Ok
                        &&& final(self).factories().spec_get(kind) == Some(factory)
                        &&& forall|q: Seq<char>|
                            q != kind ==> final(self).factories().spec_get(q) == old(self).factories().spec_get(q)
                        &&& forall|q: Seq<char>|
                            q != kind ==> (final(self).factories().has_key(q) == old(self).factories().has_key(q))
                    }
                },
    {
        let kind = factory.kind();
        self.register_kind(kind, factory)
    }
}

/// The `Debug` text of a list of strings.
pub fn debug_strings(items: &Vec<String>) -> (r: String)
    ensures
        r@ == debug_list(string_views(items@)),
{
    let mut quoted: Vec<String> = Vec::new();
    let mut i: usize = 0;
    while i < items.len()
        invariant
            i <= items@.len(),
            string_views(quoted@) == string_views(items@.take(i as int)).map_values(|s: Seq<char>| debug_quoted(s)),
        decreases items@.len() - i,
    {
        let ghost before = quoted@;
        let q = quote_debug(items[i].as_str());
        quoted.push(q);
        proof {
            assert(string_views(quoted@) =~= string_views(before).push(q@));
            assert(string_views(items@.take(i + 1)) =~= string_views(items@.take(i as int)).push(items@[i as int]@));
            assert(string_views(items@.take(i + 1)).map_values(|s: Seq<char>| debug_quoted(s)) =~= string_views(
                items@.take(i as int),
            ).map_values(|s: Seq<char>| debug_quoted(s)).push(debug_quoted(items@[i as int]@)));
        }
        i = i + 1;
    }
    assert(items@.take(items@.len() as int) =~= items@);
    let mut r = String::from_str("[");
    r.append(crate::text::join_strings(&quoted, ", ").as_str());
    r.append("]");
    r
}

} // verus!
