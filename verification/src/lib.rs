//! Core of a calendar reminder bot: event synchronization, completion
//! tracking, digest rendering, and the scheduling/actor logic that drives
//! them. Network transports (calendar HTTP client, chat delivery) live
//! outside this crate; the logic here is verified against models of what
//! they hand back.

pub mod actor;
pub mod clock;
pub mod credential;
pub mod datetime;
pub mod digest;
pub mod dispatch;
pub mod errors;
pub mod event;
pub mod scheduler;
pub mod store;
pub mod sync;
pub mod text;
pub mod token;

use vstd::prelude::*;

verus! {

} // verus!
