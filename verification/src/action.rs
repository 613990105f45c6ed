//! What a plugin hook answers for a request.

use vstd::prelude::*;

verus! {

/// The outcome of a plugin hook.
#[derive(Debug, PartialEq, Eq)]
pub enum PluginAction {
    /// Let the request through to the next plugin.
    Continue,
    /// Refuse the request with an HTTP status and a reason.
    Reject { status: u16, reason: String },
}

/// The HTTP status a blocking plugin answers with.
pub const FORBIDDEN: u16 = 403;

/// The spec-level shape of an action: `None` for `Continue`, the status and
/// the reason's characters for `Reject`.
pub open spec fn action_view(a: PluginAction) -> Option<(u16, Seq<char>)> {
    match a {
        PluginAction::Continue => None,
        PluginAction::Reject { status, reason } => Some((status, reason@)),
    }
}

} // verus!
