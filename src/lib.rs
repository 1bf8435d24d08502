//! Scheduling of one-shot webhook reminders.
//!
//! A [`schedule::Configuration`] lists reminders (an offset and a message) and
//! targets (a recipient key and the instants it is reminded of). [`schedule::expand`]
//! turns it, against a given "now", into the deliveries still to come, using
//! [`time::resolve`] to read each instant in the reference zone. [`pool`] keeps
//! the book of the tasks that wait out those delays, so that a cancelled
//! generation never delivers, and [`payload`] builds the body that is posted.
use vstd::prelude::*;

pub mod payload;
pub mod pool;
pub mod schedule;
pub mod time;

verus! {

} // verus!
