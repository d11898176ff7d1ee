//! Oscilloscope / logic-analyzer nets (Rigol MSO5000 family).
//!
//! Not yet available over the box `:9000` HTTP API: scope capture and
//! streaming still run over the legacy Python-exec path and a dedicated
//! daemon, so every operation reports [`Error::NotSupportedByBox`] until
//! the box exposes scope actions.

use vstd::prelude::*;
use vstd::string::StringExecFns;
use crate::error::{Error, Result};

verus! {

/// The feature name scope operations report.
pub const FEATURE: &'static str = "scope";

/// What the box would need to expose for scope operations to work.
pub const DETAILS: &'static str = "the box needs `POST :9000/net/command` scope/logic roles (or a dedicated capture endpoint) for trigger config, single capture, and measurement queries; see MISSING_ENDPOINTS.md";

/// `r` is the "not yet available" error of the scope stub.
pub open spec fn is_scope_unsupported<T>(r: Result<T>) -> bool {
    r matches Err(Error::NotSupportedByBox { feature, details }) && feature@ == FEATURE@
        && details@ == DETAILS@
}

fn unsupported() -> (r: Result<()>)
    ensures
        is_scope_unsupported(r),
{
    Err(Error::NotSupportedByBox { feature: FEATURE, details: DETAILS })
}

/// Handle for an oscilloscope (analog or logic) net. Every operation
/// currently reports that the box does not support it.
#[derive(Debug)]
pub struct Scope {
    name: String,
}

impl Scope {
    /// A handle for the scope net `name`.
    pub fn new(name: &str) -> (s: Scope)
        ensures
            s.net() == name@,
    {
        Scope { name: String::from_str(name) }
    }

    /// Name of the net this handle drives.
    pub closed spec fn net(&self) -> Seq<char> {
        self.name@
    }

    /// Name of the net this handle drives.
    pub fn name(&self) -> (n: &str)
        ensures
            n@ == self.net(),
    {
        self.name.as_str()
    }

    /// Enable the channel this net maps to.
    pub fn enable(&self) -> (r: Result<()>)
        ensures
            is_scope_unsupported(r),
    {
        unsupported()
    }

    /// Disable the channel this net maps to.
    pub fn disable(&self) -> (r: Result<()>)
        ensures
            is_scope_unsupported(r),
    {
        unsupported()
    }
}

} // verus!
