//! The control actor: the single consumer of the ordered message queue.
//! It alone touches the event store, one message at a time, so no lock
//! guards the business logic. The outside loop performs the network work
//! an outcome asks for (fetching the window, sending the digest or an
//! acknowledgment) and hands results back; every decision in between is
//! here and verified. After Stop is observed no further message has any
//! effect.

use vstd::prelude::*;

use crate::digest::{digest_ok, Digest};
use crate::dispatch::{done_ack, done_ack_spec, todo_ack, todo_ack_spec};
use crate::errors::{StorageError, SyncCause, SyncError};
use crate::event::{views, Event};
use crate::store::{pending_pred, EventStore};
use crate::sync::{all_wf, digest_order, lemma_digest_order_wf, lemma_filter_wf, sync_pending};

verus! {

/// The message kinds the actor serializes: timer ticks, forced cycles,
/// the two completion commands, and stop.
pub enum Message {
    Tick,
    Force,
    MarkDone { event_id: String, calendar_id: String },
    MarkUndone { event_id: String, calendar_id: String },
    Stop,
}

/// What the caller must do after one step.
pub enum StepOutcome {
    /// Fetch the window and hand the result to `run_cycle`, then send the
    /// digest it returns.
    StartCycle,
    /// The completion command took effect; send this acknowledgment.
    Ack { text: String },
    /// The storage write failed; log it and keep running. The command's
    /// effect did not happen, and nothing is rolled back.
    Failed,
    /// Stop observed: halt the scheduler and exit the loop.
    Halted,
    /// Received after Stop: dropped unprocessed.
    Dropped,
}

/// The actor's state: the store it exclusively owns, and whether Stop has
/// been observed.
pub struct ControlActor {
    pub store: EventStore,
    pub stopped: bool,
}

impl ControlActor {
    pub open spec fn wf(&self) -> bool {
        self.store.wf()
    }

    /// An actor that has processed nothing, owning `store`.
    pub fn new(store: EventStore) -> (r: ControlActor)
        ensures
            r.store == store,
            !r.stopped,
    {
        ControlActor { store, stopped: false }
    }

    /// Processes one message. Storage is mutated only by the two
    /// completion commands, and at most once per command; a failed write
    /// leaves the store unchanged and the actor running.
    pub fn step(&mut self, msg: Message, now_epoch: i64) -> (r: StepOutcome)
        requires
            old(self).wf(),
        ensures
            final(self).wf(),
            old(self).stopped ==> r is Dropped && *final(self) == *old(self),
            !old(self).stopped ==> {
                &&& (msg is Tick || msg is Force) ==> r is StartCycle && *final(self) == *old(
                    self,
                )
                &&& (msg matches Message::MarkDone { event_id: e, calendar_id: c } ==> {
                    &&& final(self).stopped == old(self).stopped
                    &&& (r is Ack || r is Failed)
                    &&& (r matches StepOutcome::Ack { text } ==> final(self).store@ == old(
                        self,
                    ).store@.insert((e@, c@)) && text@ == done_ack_spec(e@))
                    &&& (r is Failed ==> final(self).store@ == old(self).store@)
                })
                &&& (msg matches Message::MarkUndone { event_id: e, calendar_id: c } ==> {
                    &&& final(self).stopped == old(self).stopped
                    &&& (r is Ack || r is Failed)
                    &&& (r matches StepOutcome::Ack { text } ==> final(self).store@ == old(
                        self,
                    ).store@.remove((e@, c@)) && text@ == todo_ack_spec(e@))
                    &&& (r is Failed ==> final(self).store@ == old(self).store@)
                })
                &&& (msg is Stop ==> r is Halted && final(self).stopped && final(self).store@
                    == old(self).store@)
            },
    {
        if self.stopped {
            return StepOutcome::Dropped;
        }
        match msg {
            Message::Tick => StepOutcome::StartCycle,
            Message::Force => StepOutcome::StartCycle,
            Message::MarkDone { event_id, calendar_id } => {
                match self.store.record_done(event_id.as_str(), calendar_id.as_str(), now_epoch) {
                    Ok(()) => StepOutcome::Ack { text: done_ack(event_id.as_str()) },
                    Err(_) => StepOutcome::Failed,
                }
            },
            Message::MarkUndone { event_id, calendar_id } => {
                match self.store.record_undone(event_id.as_str(), calendar_id.as_str()) {
                    Ok(()) => StepOutcome::Ack { text: todo_ack(event_id.as_str()) },
                    Err(_) => StepOutcome::Failed,
                }
            },
            Message::Stop => {
                self.stopped = true;
                StepOutcome::Halted
            },
        }
    }

    /// The compute half of a sync cycle, fed the calendar fetch's result.
    /// A cycle never creates or deletes a completion record, and on any
    /// failure — credential, fetch, or the pending query — no digest is
    /// produced at all: the cycle is skipped and the next tick retries.
    pub fn run_cycle(&mut self, fetched: Result<Vec<Event>, SyncCause>) -> (r: Result<
        Digest,
        SyncError,
    >)
        requires
            old(self).wf(),
            fetched matches Ok(evs) ==> all_wf(views(evs@)),
        ensures
            *final(self) == *old(self),
            fetched matches Err(cause) ==> r matches Err(e) && e.cause == cause,
            r matches Ok(d) ==> fetched matches Ok(evs) && digest_ok(
                digest_order(views(evs@).filter(pending_pred(old(self).store@))),
                d,
            ),
            r matches Err(e) ==> (fetched is Ok ==> e.cause is Storage),
    {
        let evs = match fetched {
            Ok(evs) => evs,
            Err(cause) => {
                return Err(SyncError { cause });
            },
        };
        let ordered = match sync_pending(&self.store, &evs) {
            Ok(o) => o,
            Err(_) => {
                return Err(SyncError { cause: SyncCause::Storage });
            },
        };
        proof {
            lemma_filter_wf(views(evs@), pending_pred(self.store@));
            lemma_digest_order_wf(views(evs@).filter(pending_pred(self.store@)));
        }
        Ok(crate::digest::build_digest(&ordered))
    }
}

} // verus!
