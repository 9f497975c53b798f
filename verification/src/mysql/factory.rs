//! The MySQL connector kind and its registration.

use vstd::prelude::*;

use crate::connector::errors::ConnectorError;
use crate::connector::registry::{already_registered_text, ConnectorFactory, ConnectorRegistry};

verus! {

/// The kind string that selects this connector in the configuration.
pub const KIND: &'static str = "mysql";

/// The factory for MySQL connectors.
#[derive(Debug, Clone, Copy)]
pub struct MysqlFactory;

impl ConnectorFactory for MysqlFactory {
    open spec fn obeys_kind_spec() -> bool {
        true
    }

    open spec fn spec_kind(&self) -> Seq<char> {
        KIND@
    }

    fn kind(&self) -> (r: &'static str)
        ensures
            r@ == KIND@,
    {
        KIND
    }
}

impl MysqlFactory {
    /// The kind this factory builds connectors for (`"mysql"`).
    pub fn kind_name(&self) -> (r: &'static str)
        ensures
            r@ == KIND@,
    {
        KIND
    }
}

/// Adds the MySQL kind to a registry, with `factory` as the builder of its
/// connectors; registering it twice is refused.
pub fn register<F>(registry: &mut ConnectorRegistry<F>, factory: F) -> (r: Result<(), ConnectorError>)
    ensures
        old(registry).factories().has_key(KIND@) ==> (r is Err && final(registry).factories() == old(
            registry,
        ).factories()),
        !old(registry).factories().has_key(KIND@) ==> (r is Ok && final(registry).factories().spec_get(KIND@)
            == Some(factory)),
        r matches Err(e) ==> e@ == crate::connector::errors::ConnectorErrorView::Connect(already_registered_text(KIND@)),
{
    registry.register_kind(KIND, factory)
}

} // verus!
