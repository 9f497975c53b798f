//! Per-request identity and tracing carried alongside an `Intent`.

use vstd::prelude::*;

use crate::values::{uuid_now_v7, uuid_version};

verus! {

/// Per-intent identity and tracing context. Identifiers are UUIDs, held
/// as their 128-bit values.
#[derive(Debug, PartialEq, Eq)]
pub struct CallerContext {
    /// Tenant the intent runs against.
    pub tenant_id: u128,
    /// Agent identifier, if known.
    pub agent_id: Option<u128>,
    /// Trace correlation id, a time-ordered (version 7) UUID.
    pub trace_id: u128,
    /// Bearer token the edge call was authenticated with, if any.
    pub agent_token: Option<String>,
}

impl Clone for CallerContext {
    fn clone(&self) -> (r: Self)
        ensures
            r.tenant_id == self.tenant_id,
            r.agent_id == self.agent_id,
            r.trace_id == self.trace_id,
            match (r.agent_token, self.agent_token) {
                (Some(a), Some(b)) => a@ == b@,
                (None, None) => true,
                _ => false,
            },
    {
        let agent_token = match &self.agent_token {
            Some(t) => Some(t.clone()),
            None => None,
        };
        CallerContext {
            tenant_id: self.tenant_id,
            agent_id: self.agent_id,
            trace_id: self.trace_id,
            agent_token,
        }
    }
}

impl CallerContext {
    /// A minimal context for a tenant, with a fresh time-ordered trace id.
    pub fn for_tenant(tenant_id: u128) -> (r: Self)
        ensures
            r.tenant_id == tenant_id,
            r.agent_id is None,
            r.agent_token is None,
            uuid_version(r.trace_id) == 7,
    {
        CallerContext { tenant_id, agent_id: None, trace_id: uuid_now_v7(), agent_token: None }
    }
}

} // verus!
