//! Error taxonomy of the core: credential refresh failures, sync-cycle
//! failures, local persistence failures, and messaging failures. A storage
//! write failure is non-fatal (the command fails, the actor keeps running);
//! a storage read failure or a fetch failure aborts the current sync cycle.

use vstd::prelude::*;

verus! {

/// Credential refresh failed: the current cycle must abort without
/// touching the event store.
#[derive(Clone, Copy, Debug, PartialEq, Eq, Structural)]
pub struct AuthError;

/// The local persistence layer failed.
#[derive(Clone, Copy, Debug, PartialEq, Eq, Structural)]
pub struct StorageError;

/// A send or delete on the messaging channel failed. Logged by the caller;
/// never rolls back a completed storage mutation.
#[derive(Clone, Copy, Debug, PartialEq, Eq, Structural)]
pub struct DispatchError;

/// Why a sync cycle aborted. No partial digest is ever produced: on any
/// of these the whole cycle is skipped and the next tick retries.
#[derive(Clone, Copy, Debug, PartialEq, Eq, Structural)]
pub enum SyncCause {
    /// Credential refresh failed before the fetch.
    Auth,
    /// The calendar source failed to return the window.
    Fetch,
    /// The pending-filter query against the event store failed.
    Storage,
}

/// A sync cycle aborted; `cause` says at which step.
#[derive(Clone, Copy, Debug, PartialEq, Eq, Structural)]
pub struct SyncError {
    pub cause: SyncCause,
}

} // verus!
