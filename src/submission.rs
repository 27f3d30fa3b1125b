use vstd::prelude::*;
use vstd::string::*;

use crate::delivery::{Delivery, Target};
use crate::store::{DeliveryStore, StoreError};
use crate::time_text::{
    render_time, rendered_time, resolvable, MAX_RENDERED_MS, resolvable_input, resolve_time, resolved_at,
};

verus! {

/// What the submitter is told.
#[derive(Clone, Copy, Debug, PartialEq, Eq, Structural)]
pub enum Reply {
    /// The reminder is stored and will be sent at `due_at`.
    Scheduled { due_at: i64 },
    /// The time text named no instant; nothing was stored.
    UnrecognizedTime,
    /// The store refused the reminder; nothing was stored.
    StorageFailed,
}

/// The end of a submission: what to tell the submitter, and whether to fire
/// the wake signal.
#[derive(Clone, Copy, Debug, PartialEq, Eq, Structural)]
pub struct SubmitOutcome {
    pub reply: Reply,
    pub wake: bool,
}

/// What a submission ends with, given the result of the store's insert.
pub open spec fn outcome_of(due_at: i64, stored: Result<i64, StoreError>) -> SubmitOutcome {
    match stored {
        Ok(_) => SubmitOutcome { reply: Reply::Scheduled { due_at }, wake: true },
        Err(_) => SubmitOutcome { reply: Reply::StorageFailed, wake: false },
    }
}

/// The outcome of a submission whose time text could not be resolved.
pub open spec fn unresolved() -> SubmitOutcome {
    SubmitOutcome { reply: Reply::UnrecognizedTime, wake: false }
}

/// What the time text of a submission resolves to: nothing where it cannot be
/// resolved as it is, else the instant it names, if any.
pub open spec fn resolution(text: Seq<char>, now_ms: i64) -> Option<i64> {
    if resolvable_input(text, now_ms) {
        resolved_at(text, now_ms)
    } else {
        None
    }
}

/// The due time that a submission asks for: the resolved instant, or
/// `UnrecognizedTime` where the text named none.
pub fn plan_from(resolved: Option<i64>) -> (r: Result<i64, Reply>)
    ensures
        resolved matches Some(t) ==> r == Ok::<i64, Reply>(t),
        resolved is None ==> r == Err::<i64, Reply>(Reply::UnrecognizedTime),
{
    match resolved {
        Some(t) => Ok(t),
        None => Err(Reply::UnrecognizedTime),
    }
}

/// Resolves `text` against the instant `now_ms` into a due time. Text that
/// cannot be resolved as it is (see `resolvable_input`) is unrecognized.
pub fn plan_submission(text: &str, now_ms: i64) -> (r: Result<i64, Reply>)
    ensures
        resolution(text@, now_ms) matches Some(t) ==> r == Ok::<i64, Reply>(t),
        resolution(text@, now_ms) is None ==> r == Err::<i64, Reply>(Reply::UnrecognizedTime),
{
    plan_from(resolve_checked(text, now_ms))
}

/// The resolution of `text` at `now_ms`, calling the parser only on input it
/// can take.
fn resolve_checked(text: &str, now_ms: i64) -> (r: Option<i64>)
    ensures
        r == resolution(text@, now_ms),
{
    if resolvable(text, now_ms) {
        resolve_time(text, now_ms)
    } else {
        None
    }
}

/// Ends a submission for `due_at` once the insert has returned: success is
/// reported, and the worker woken, only when the insert succeeded.
pub fn conclude_submission(due_at: i64, stored: Result<i64, StoreError>) -> (r: SubmitOutcome)
    ensures
        r == outcome_of(due_at, stored),
{
    match stored {
        Ok(_) => SubmitOutcome { reply: Reply::Scheduled { due_at }, wake: true },
        Err(_) => SubmitOutcome { reply: Reply::StorageFailed, wake: false },
    }
}

/// The submission path on an already resolved time: with no time, nothing is
/// stored; otherwise the delivery is inserted and the outcome follows the insert.
pub fn submit_resolved(store: &mut DeliveryStore, target: Target, resolved: Option<i64>) -> (r:
    SubmitOutcome)
    requires
        old(store).wf(),
    ensures
        final(store).wf(),
        resolved is None ==> r == unresolved() && final(store)@ == old(store)@
            && final(store).next_id_spec() == old(store).next_id_spec(),
        resolved matches Some(t) ==> {
            &&& old(store).next_id_spec() == i64::MAX ==> r == outcome_of(
                t,
                Err(StoreError::IdsExhausted),
            ) && final(store)@ == old(store)@ && final(store).next_id_spec()
                == old(store).next_id_spec()
            &&& old(store).next_id_spec() < i64::MAX ==> r == outcome_of(
                t,
                Ok(old(store).next_id_spec()),
            ) && final(store).next_id_spec() == old(store).next_id_spec() + 1 && exists|p: int|
                0 <= p <= old(store)@.len() && final(store)@ == old(store)@.insert(
                    p,
                    (Delivery { id: old(store).next_id_spec(), target, due_at: t }),
                )
        },
{
    match plan_from(resolved) {
        Err(_) => SubmitOutcome { reply: Reply::UnrecognizedTime, wake: false },
        Ok(due_at) => {
            let stored = store.insert(target, due_at);
            conclude_submission(due_at, stored)
        },
    }
}

/// The submission path: resolves `text` against `now_ms` as
/// `plan_submission` does, then stores the delivery as `submit_resolved` does.
pub fn submit(store: &mut DeliveryStore, target: Target, text: &str, now_ms: i64) -> (r:
    SubmitOutcome)
    requires
        old(store).wf(),
    ensures
        final(store).wf(),
        resolution(text@, now_ms) is None ==> r == unresolved() && final(store)@ == old(store)@
            && final(store).next_id_spec() == old(store).next_id_spec(),
        resolution(text@, now_ms) matches Some(t) ==> {
            &&& old(store).next_id_spec() == i64::MAX ==> r == outcome_of(
                t,
                Err(StoreError::IdsExhausted),
            ) && final(store)@ == old(store)@ && final(store).next_id_spec()
                == old(store).next_id_spec()
            &&& old(store).next_id_spec() < i64::MAX ==> r == outcome_of(
                t,
                Ok(old(store).next_id_spec()),
            ) && final(store).next_id_spec() == old(store).next_id_spec() + 1 && exists|p: int|
                0 <= p <= old(store)@.len() && final(store)@ == old(store)@.insert(
                    p,
                    (Delivery { id: old(store).next_id_spec(), target, due_at: t }),
                )
        },
{
    submit_resolved(store, target, resolve_checked(text, now_ms))
}

/// The text of the confirmation, given the due time as written for people.
pub fn scheduled_text(when: &str) -> (r: String)
    ensures
        r@ == "I'll remind you at "@ + when@,
{
    String::from_str("I'll remind you at ").concat(when)
}

/// What the submitter reads for `reply`; `None` only for a due time that
/// cannot be written as a date, which none within `MAX_RENDERED_MS` of the
/// epoch is.
pub fn reply_text(reply: Reply) -> (r: Option<String>)
    ensures
        reply matches Reply::Scheduled { due_at } ==> (match rendered_time(due_at) {
            Some(w) => (r matches Some(s) && s@ == "I'll remind you at "@ + w),
            None => r is None,
        }),
        reply matches Reply::Scheduled { due_at } ==> (-MAX_RENDERED_MS <= due_at <= MAX_RENDERED_MS
            ==> r is Some),
        reply is UnrecognizedTime ==> (r matches Some(s) && s@ == "Non recognized date format"@),
        reply is StorageFailed ==> (r matches Some(s) && s@ == "Error saving to the database"@),
{
    match reply {
        Reply::Scheduled { due_at } => match render_time(due_at) {
            Some(w) => Some(scheduled_text(w.as_str())),
            None => None,
        },
        Reply::UnrecognizedTime => Some(String::from_str("Non recognized date format")),
        Reply::StorageFailed => Some(String::from_str("Error saving to the database")),
    }
}

/// The text of a reminder when it is delivered.
pub fn reminder_text() -> (r: String)
    ensures
        r@ == "Reminding you"@,
{
    String::from_str("Reminding you")
}

} // verus!
