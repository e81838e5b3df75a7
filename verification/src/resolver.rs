//! The conflict resolver: a pure decision procedure that compares a local
//! and a remote revision of the same record and picks the reconciliation
//! action. The newer `updated_at` wins wholesale; equal instants mean the
//! two sides are already in sync.

use vstd::prelude::*;

use crate::annotations::Annotation;
use crate::entry::Entry;

verus! {

/// What to do about one record during reconciliation.
#[derive(Debug, Clone, Copy, PartialEq, Eq, Structural)]
pub enum ResolveAction {
    /// Write the remote version into the local store.
    Pull,
    /// Both sides carry the same revision; nothing to do.
    NoOp,
    /// The local version is newer; send it to the remote side.
    Push,
}

/// The decision, given the local revision instant (if a local copy exists
/// at all) and the remote revision instant.
///
/// Equal instants are "no conflict", never "most recently processed
/// wins": this keeps reconciliation from oscillating when the server
/// returns the same second-resolution timestamp again and again.
pub open spec fn spec_resolve(local_updated: Option<i64>, remote_updated: i64) -> ResolveAction {
    match local_updated {
        None => ResolveAction::Pull,
        Some(l) => if l < remote_updated {
            ResolveAction::Pull
        } else if l == remote_updated {
            ResolveAction::NoOp
        } else {
            ResolveAction::Push
        },
    }
}

/// The revision instant of a local entry, if one exists.
pub open spec fn spec_entry_updated(local: Option<Entry>) -> Option<i64> {
    match local {
        None => None,
        Some(e) => Some(e.updated_at),
    }
}

/// The revision instant of a local annotation, if one exists.
pub open spec fn spec_annotation_updated(local: Option<Annotation>) -> Option<i64> {
    match local {
        None => None,
        Some(a) => Some(a.updated_at),
    }
}

/// Decide what to do about a remote entry, given the local copy.
pub fn resolve_entry(local: Option<&Entry>, remote: &Entry) -> (r: ResolveAction)
    ensures
        r == spec_resolve(
            (match local {
                None => None,
                Some(e) => Some(e.updated_at),
            }),
            remote.updated_at,
        ),
{
    match local {
        None => ResolveAction::Pull,
        Some(e) => {
            if e.updated_at < remote.updated_at {
                ResolveAction::Pull
            } else if e.updated_at == remote.updated_at {
                ResolveAction::NoOp
            } else {
                ResolveAction::Push
            }
        },
    }
}

/// Decide what to do about a remote annotation, given the local copy.
pub fn resolve_annotation(local: Option<&Annotation>, remote: &Annotation) -> (r: ResolveAction)
    ensures
        r == spec_resolve(
            (match local {
                None => None,
                Some(a) => Some(a.updated_at),
            }),
            remote.updated_at,
        ),
{
    match local {
        None => ResolveAction::Pull,
        Some(a) => {
            if a.updated_at < remote.updated_at {
                ResolveAction::Pull
            } else if a.updated_at == remote.updated_at {
                ResolveAction::NoOp
            } else {
                ResolveAction::Push
            }
        },
    }
}

/// Law: resolution is idempotent. A record held at the same revision on
/// both sides always resolves to a no-op, so re-applying an already
/// consistent remote state never writes, pushes, or oscillates.
pub proof fn lemma_resolution_idempotent(t: i64)
    ensures
        spec_resolve(Some(t), t) == ResolveAction::NoOp,
{
}

/// Law: the resolver is exhaustive and mutually exclusive. A missing or
/// older local copy pulls, an equal one rests, a newer one pushes.
pub proof fn lemma_resolution_cases(local: Option<i64>, remote: i64)
    ensures
        spec_resolve(local, remote) == ResolveAction::Pull <==> (local is None || local.unwrap()
            < remote),
        spec_resolve(local, remote) == ResolveAction::NoOp <==> (local is Some && local.unwrap()
            == remote),
        spec_resolve(local, remote) == ResolveAction::Push <==> (local is Some && local.unwrap()
            > remote),
{
}

} // verus!
