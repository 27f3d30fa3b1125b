//! A durable delayed-delivery scheduler for reminders.
//!
//! The library holds the logic: the deliveries and their order, an ordered
//! store of pending deliveries, the worker's decisions as a state machine, and
//! the decisions of the submission path. Transport, persistence and timers are
//! driven from outside through plain values.
pub mod delivery;
pub mod store;
pub mod submission;
pub mod time_text;
pub mod worker;

pub use delivery::{Cursor, Delivery, Target};
pub use store::{DeliveryStore, StoreError};
pub use worker::{wait_timeout, Action, Event, Phase, WaitOutcome, Worker, DEFAULT_CEILING_MS};
pub use submission::{
    conclude_submission, plan_from, plan_submission, reminder_text, reply_text, scheduled_text,
    submit, submit_resolved, Reply, SubmitOutcome,
};
pub use time_text::{resolvable, MAX_REFERENCE_MS, MAX_RENDERED_MS};
