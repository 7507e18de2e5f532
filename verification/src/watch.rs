//! Reacting to change notifications for the script's source.

use vstd::prelude::*;

verus! {

/// The kind of a change that a watcher reports.
#[derive(Clone, Copy, Debug, PartialEq, Eq, Structural)]
pub enum ChangeKind {
    /// A change of unknown kind.
    Any,
    /// The source was read or opened.
    Access,
    /// The source was created.
    Create,
    /// The source was modified.
    Modify,
    /// The source was removed.
    Remove,
    /// Anything else.
    Other,
}

/// Whether a change of this kind calls for a reload: only a creation or a
/// modification can have brought new script text.
pub open spec fn calls_for_reload(kind: ChangeKind) -> bool {
    kind == ChangeKind::Create || kind == ChangeKind::Modify
}

/// Decides whether the script must be rebuilt after a change of `kind`.
pub fn should_reload(kind: ChangeKind) -> (reload: bool)
    ensures
        reload == calls_for_reload(kind),
{
    match kind {
        ChangeKind::Any => false,
        ChangeKind::Access => false,
        ChangeKind::Create => true,
        ChangeKind::Modify => true,
        ChangeKind::Remove => false,
        ChangeKind::Other => false,
    }
}

} // verus!
