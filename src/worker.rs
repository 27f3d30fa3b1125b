use vstd::prelude::*;

use crate::delivery::{cursor_of, precedes, Cursor, Delivery};
use crate::store::{follows, holds_id, ordered, unique_ids, StoreError};

verus! {

/// The fallback ceiling on one wait, in milliseconds: how long the worker may
/// sleep when nothing is scheduled.
pub const DEFAULT_CEILING_MS: u64 = 68719476733;

/// How an idle wait ended.
#[derive(Clone, Copy, Debug, PartialEq, Eq, Structural)]
pub enum WaitOutcome {
    /// The wake signal fired: something was submitted.
    Woken,
    /// The wait's timeout elapsed.
    TimedOut,
    /// Shutdown was requested.
    Cancelled,
}

/// Where the worker stands. A pass over the due deliveries keeps `after`, the
/// position of the last record it handled, and `retry`, whether a delivery of
/// the pass stayed behind.
#[derive(Clone, Copy, Debug, PartialEq, Eq, Structural)]
pub enum Phase {
    /// About to read the first delivery after `after`.
    Scanning { after: Option<Cursor>, retry: bool },
    /// Handing `delivery` to the notifier.
    Delivering { delivery: Delivery, retry: bool },
    /// Removing `delivery`, which the notifier accepted.
    Removing { delivery: Delivery, retry: bool },
    /// Idle until woken, cancelled, or `timeout_ms` has elapsed.
    Waiting { timeout_ms: u64 },
    /// Terminal: the worker has left its loop.
    Stopped,
}

/// What the worker's driver observed after performing an action.
#[derive(Clone, Copy, Debug)]
pub enum Event {
    /// The first pending delivery after the requested one (or none) was read
    /// at time `now`, or the read failed.
    Scanned { now: i64, next: Result<Option<Delivery>, StoreError> },
    /// The first record after the requested one sits at `at` but could not be
    /// read as a delivery.
    Unreadable { at: Cursor },
    /// The notifier accepted (`ok`) or refused the delivery.
    Notified { ok: bool },
    /// The delivered record was removed, or the removal failed.
    Removed { ok: bool },
    /// The idle wait ended.
    WaitEnded { outcome: WaitOutcome },
}

/// What the worker asks its driver to do next.
#[derive(Clone, Copy, Debug, PartialEq, Eq, Structural)]
pub enum Action {
    /// Read, with the current time, the first pending delivery in due order
    /// that comes after `after` (the earliest of all when `after` is `None`).
    ReadNext { after: Option<Cursor> },
    /// Send `delivery` through the notifier.
    Notify { delivery: Delivery },
    /// Remove the delivery with id `id` from the store.
    Delete { id: i64 },
    /// Wait for the wake signal, shutdown, or `timeout_ms` milliseconds.
    Sleep { timeout_ms: u64 },
    /// Leave the loop.
    Exit,
}

/// How long to wait after finding `earliest` at `now`: the time until it is
/// due, clamped to `ceiling`; the whole ceiling when nothing is pending; no
/// time at all when it is already due.
pub open spec fn wait_for(earliest: Option<Delivery>, now: i64, ceiling: u64) -> u64 {
    match earliest {
        None => ceiling,
        Some(d) => if d.due_at <= now {
            0
        } else if d.due_at - now < ceiling {
            (d.due_at - now) as u64
        } else {
            ceiling
        },
    }
}

/// How long to wait at the end of a pass that found `next` not due (or
/// nothing): no time when a delivery of the pass stayed behind, so that it is
/// retried at once; else as `wait_for`.
pub open spec fn pass_wait(retry: bool, next: Option<Delivery>, now: i64, ceiling: u64) -> u64 {
    if retry {
        0
    } else {
        wait_for(next, now, ceiling)
    }
}

/// How long to wait after finding `earliest` at `now` (see `wait_for`).
pub fn wait_timeout(earliest: Option<Delivery>, now: i64, ceiling_ms: u64) -> (r: u64)
    ensures
        r == wait_for(earliest, now, ceiling_ms),
        r <= ceiling_ms,
{
    match earliest {
        None => ceiling_ms,
        Some(d) => {
            if d.due_at <= now {
                0
            } else {
                let gap: i128 = d.due_at as i128 - now as i128;
                if gap < ceiling_ms as i128 {
                    gap as u64
                } else {
                    ceiling_ms
                }
            }
        },
    }
}

/// The phase in which a pass starts.
pub open spec fn fresh_pass() -> Phase {
    Phase::Scanning { after: None, retry: false }
}

/// The action that a phase stands for.
pub open spec fn pending(p: Phase) -> Action {
    match p {
        Phase::Scanning { after, retry } => Action::ReadNext { after },
        Phase::Delivering { delivery, retry } => Action::Notify { delivery },
        Phase::Removing { delivery, retry } => Action::Delete { id: delivery.id },
        Phase::Waiting { timeout_ms } => Action::Sleep { timeout_ms },
        Phase::Stopped => Action::Exit,
    }
}

/// The phase that follows `p` on event `e`. An event that does not belong to
/// the phase leaves it as it is; nothing leaves `Stopped`.
pub open spec fn next_phase(p: Phase, ceiling: u64, e: Event) -> Phase {
    match (p, e) {
        (Phase::Scanning { after, retry }, Event::Scanned { now, next }) => match next {
            Ok(Some(d)) => if d.due_at <= now {
                Phase::Delivering { delivery: d, retry }
            } else {
                Phase::Waiting { timeout_ms: pass_wait(retry, Some(d), now, ceiling) }
            },
            Ok(None) => Phase::Waiting { timeout_ms: pass_wait(retry, None, now, ceiling) },
            Err(_) => Phase::Waiting { timeout_ms: ceiling },
        },
        (Phase::Scanning { after, retry }, Event::Unreadable { at }) => Phase::Scanning {
            after: Some(at),
            retry,
        },
        (Phase::Delivering { delivery, retry }, Event::Notified { ok }) => if ok {
            Phase::Removing { delivery, retry }
        } else {
            Phase::Scanning { after: Some(cursor_of(delivery)), retry: true }
        },
        (Phase::Removing { delivery, retry }, Event::Removed { ok }) => Phase::Scanning {
            after: Some(cursor_of(delivery)),
            retry: retry || !ok,
        },
        (Phase::Waiting { timeout_ms }, Event::WaitEnded { outcome }) => match outcome {
            WaitOutcome::Cancelled => Phase::Stopped,
            _ => fresh_pass(),
        },
        _ => p,
    }
}

/// The single background worker, as a state machine: its driver performs each
/// action it returns and hands back what happened.
#[derive(Clone, Copy, Debug)]
pub struct Worker {
    pub phase: Phase,
    /// The longest single wait, in milliseconds.
    pub ceiling_ms: u64,
}

impl Worker {
    /// A worker about to start a pass, with the given ceiling on each wait.
    pub fn new(ceiling_ms: u64) -> (r: Self)
        ensures
            r.phase == fresh_pass(),
            r.ceiling_ms == ceiling_ms,
    {
        Worker { phase: Phase::Scanning { after: None, retry: false }, ceiling_ms }
    }

    /// What the worker asks for in its current phase.
    pub fn pending_action(&self) -> (r: Action)
        ensures
            r == pending(self.phase),
    {
        match self.phase {
            Phase::Scanning { after, retry: _ } => Action::ReadNext { after },
            Phase::Delivering { delivery, retry: _ } => Action::Notify { delivery },
            Phase::Removing { delivery, retry: _ } => Action::Delete { id: delivery.id },
            Phase::Waiting { timeout_ms } => Action::Sleep { timeout_ms },
            Phase::Stopped => Action::Exit,
        }
    }

    /// Takes the outcome of the last action and returns the next one.
    pub fn step(&mut self, event: Event) -> (r: Action)
        ensures
            final(self).ceiling_ms == old(self).ceiling_ms,
            final(self).phase == next_phase(old(self).phase, old(self).ceiling_ms, event),
            r == pending(final(self).phase),
    {
        let next = match (self.phase, event) {
            (Phase::Scanning { after: _, retry }, Event::Scanned { now, next }) => match next {
                Ok(Some(d)) => {
                    if d.due_at <= now {
                        Phase::Delivering { delivery: d, retry }
                    } else if retry {
                        Phase::Waiting { timeout_ms: 0 }
                    } else {
                        Phase::Waiting { timeout_ms: wait_timeout(Some(d), now, self.ceiling_ms) }
                    }
                },
                Ok(None) => {
                    if retry {
                        Phase::Waiting { timeout_ms: 0 }
                    } else {
                        Phase::Waiting { timeout_ms: self.ceiling_ms }
                    }
                },
                Err(_) => Phase::Waiting { timeout_ms: self.ceiling_ms },
            },
            (Phase::Scanning { after: _, retry }, Event::Unreadable { at }) => Phase::Scanning {
                after: Some(at),
                retry,
            },
            (Phase::Delivering { delivery, retry }, Event::Notified { ok }) => {
                if ok {
                    Phase::Removing { delivery, retry }
                } else {
                    Phase::Scanning { after: Some(delivery.cursor()), retry: true }
                }
            },
            (Phase::Removing { delivery, retry }, Event::Removed { ok }) => Phase::Scanning {
                after: Some(delivery.cursor()),
                retry: retry || !ok,
            },
            (Phase::Waiting { timeout_ms: _ }, Event::WaitEnded { outcome }) => match outcome {
                WaitOutcome::Cancelled => Phase::Stopped,
                _ => Phase::Scanning { after: None, retry: false },
            },
            (p, _) => p,
        };
        self.phase = next;
        self.pending_action()
    }

    /// Whether the worker has stopped.
    pub fn is_stopped(&self) -> (r: bool)
        ensures
            r == (self.phase == Phase::Stopped),
    {
        matches!(self.phase, Phase::Stopped)
    }
}

/// The worker starts delivering only what a scan found due: when a step puts it
/// in `Delivering`, either it already was there, or the event was a scan at
/// some `now` that found that delivery with `due_at <= now`.
pub proof fn lemma_no_early_delivery(p: Phase, ceiling: u64, e: Event, d: Delivery, retry: bool)
    requires
        next_phase(p, ceiling, e) == (Phase::Delivering { delivery: d, retry }),
    ensures
        p == (Phase::Delivering { delivery: d, retry }) || (e matches Event::Scanned { now, next }
            && next == Ok::<Option<Delivery>, StoreError>(Some(d)) && d.due_at <= now),
{
}

/// Every wait that is not cancelled ends in a new pass; a scan that finds a due
/// delivery hands it to the notifier at once, and a fresh pass that finds one
/// not yet due waits no longer than until its due time.
pub proof fn lemma_due_is_delivered(
    ceiling: u64,
    timeout: u64,
    outcome: WaitOutcome,
    after: Option<Cursor>,
    retry: bool,
    now: i64,
    d: Delivery,
)
    requires
        outcome != WaitOutcome::Cancelled,
    ensures
        next_phase(Phase::Waiting { timeout_ms: timeout }, ceiling, Event::WaitEnded { outcome })
            == fresh_pass(),
        d.due_at <= now ==> pending(
            next_phase(
                Phase::Scanning { after, retry },
                ceiling,
                Event::Scanned { now, next: Ok(Some(d)) },
            ),
        ) == (Action::Notify { delivery: d }),
        d.due_at > now ==> next_phase(
            fresh_pass(),
            ceiling,
            Event::Scanned { now, next: Ok(Some(d)) },
        ) == (Phase::Waiting { timeout_ms: wait_for(Some(d), now, ceiling) }) && wait_for(
            Some(d),
            now,
            ceiling,
        ) <= d.due_at - now,
{
}

/// A pass does not end while a due delivery lies ahead of its cursor: when the
/// store holds `d`, due at `now` and after the cursor, the first delivery after
/// the cursor (what `earliest_after` returns) is due too, comes no later than
/// `d`, and is handed to the notifier. As the cursor moves forward with every
/// record handled, each pass reaches every delivery that was due when it began,
/// and a refused one is met again by the next pass, which starts from no cursor.
pub proof fn lemma_pass_reaches_due(
    s: Seq<Delivery>,
    after: Option<Cursor>,
    first: Option<Delivery>,
    d: Delivery,
    now: i64,
    ceiling: u64,
    retry: bool,
)
    requires
        ordered(s),
        s.contains(d),
        follows(after, d),
        d.due_at <= now,
        first is None <==> forall|i: int| 0 <= i < s.len() ==> !follows(after, #[trigger] s[i]),
        first matches Some(x) ==> {
            &&& follows(after, x)
            &&& forall|i: int| 0 <= i < s.len() && follows(after, #[trigger] s[i]) ==> !precedes(s[i], x)
        },
    ensures
        first matches Some(x) && x.due_at <= d.due_at && x.due_at <= now && !precedes(d, x) && pending(
            next_phase(Phase::Scanning { after, retry }, ceiling, Event::Scanned { now, next: Ok(first) }),
        ) == (Action::Notify { delivery: x }),
{
    let k = choose|k: int| 0 <= k < s.len() && s[k] == d;
    assert(follows(after, s[k]));
    let x = first->Some_0;
    assert(!precedes(d, x));
}

/// Within a pass the notifier meets deliveries in non-decreasing due time:
/// after handling `d` the pass asks for what follows `d`'s position, and any
/// such delivery `x` comes after `d`. Only a new pass starts again from the
/// earliest, where a delivery refused before is met anew.
pub proof fn lemma_pass_is_in_due_order(ceiling: u64, d: Delivery, retry: bool, ok: bool, x: Delivery)
    requires
        follows(Some(cursor_of(d)), x),
    ensures
        pending(next_phase(Phase::Delivering { delivery: d, retry }, ceiling, Event::Notified { ok: false }))
            == (Action::ReadNext { after: Some(cursor_of(d)) }),
        pending(next_phase(Phase::Removing { delivery: d, retry }, ceiling, Event::Removed { ok }))
            == (Action::ReadNext { after: Some(cursor_of(d)) }),
        precedes(d, x),
        d.due_at <= x.due_at,
{
}

/// A delivery that the notifier accepts is deleted next, the pass then goes on
/// after it, and once deleted from a store with unique ids, no delivery with
/// its id is left to hand out again.
pub proof fn lemma_accepted_is_removed(
    ceiling: u64,
    d: Delivery,
    retry: bool,
    before: Seq<Delivery>,
    k: int,
)
    requires
        unique_ids(before),
        0 <= k < before.len(),
        before[k] == d,
    ensures
        pending(
            next_phase(
                Phase::Delivering { delivery: d, retry },
                ceiling,
                Event::Notified { ok: true },
            ),
        ) == (Action::Delete { id: d.id }),
        next_phase(
            Phase::Removing { delivery: d, retry },
            ceiling,
            Event::Removed { ok: true },
        ) == (Phase::Scanning { after: Some(cursor_of(d)), retry }),
        !holds_id(before.remove(k), d.id),
{
    let after = before.remove(k);
    assert forall|i: int| 0 <= i < after.len() implies after[i].id != d.id by {
        let bi = if i < k { i } else { i + 1 };
        assert(before[bi].id != before[k].id);
    }
}

/// A delivery that the notifier refuses is not deleted: the pass goes on to the
/// deliveries after it, which it does not hold up, then ends with no wait, and
/// the next pass hands the refused delivery over again while it is the earliest.
pub proof fn lemma_refused_is_retried(
    ceiling: u64,
    d: Delivery,
    retry: bool,
    e: Delivery,
    later: Option<Delivery>,
    outcome: WaitOutcome,
    now: i64,
)
    requires
        outcome != WaitOutcome::Cancelled,
        d.due_at <= now,
        e.due_at <= now,
        later matches Some(l) ==> l.due_at > now,
    ensures
        next_phase(Phase::Delivering { delivery: d, retry }, ceiling, Event::Notified { ok: false })
            == (Phase::Scanning { after: Some(cursor_of(d)), retry: true }),
        pending(
            next_phase(
                Phase::Scanning { after: Some(cursor_of(d)), retry: true },
                ceiling,
                Event::Scanned { now, next: Ok(Some(e)) },
            ),
        ) == (Action::Notify { delivery: e }),
        next_phase(
            Phase::Scanning { after: Some(cursor_of(d)), retry: true },
            ceiling,
            Event::Scanned { now, next: Ok(later) },
        ) == (Phase::Waiting { timeout_ms: 0 }),
        next_phase(Phase::Waiting { timeout_ms: 0 }, ceiling, Event::WaitEnded { outcome })
            == fresh_pass(),
        pending(next_phase(fresh_pass(), ceiling, Event::Scanned { now, next: Ok(Some(d)) }))
            == (Action::Notify { delivery: d }),
{
}

/// A wake signal ends any wait and starts a new pass from the earliest
/// delivery; what the worker then waits is derived from what that scan finds,
/// never from the old timeout.
pub proof fn lemma_wake_rescans(ceiling: u64, old_timeout: u64, now: i64, d: Delivery)
    ensures
        next_phase(
            Phase::Waiting { timeout_ms: old_timeout },
            ceiling,
            Event::WaitEnded { outcome: WaitOutcome::Woken },
        ) == fresh_pass(),
        pending(fresh_pass()) == (Action::ReadNext { after: None }),
        d.due_at <= now ==> next_phase(
            fresh_pass(),
            ceiling,
            Event::Scanned { now, next: Ok(Some(d)) },
        ) == (Phase::Delivering { delivery: d, retry: false }),
        d.due_at > now ==> next_phase(
            fresh_pass(),
            ceiling,
            Event::Scanned { now, next: Ok(Some(d)) },
        ) == (Phase::Waiting { timeout_ms: wait_for(Some(d), now, ceiling) }) && wait_for(
            Some(d),
            now,
            ceiling,
        ) <= d.due_at - now,
{
}

/// A record that cannot be read does not stall a pass: the pass goes on after
/// its position, with no wait and nothing delivered.
pub proof fn lemma_unreadable_is_skipped(ceiling: u64, after: Option<Cursor>, retry: bool, at: Cursor)
    ensures
        next_phase(Phase::Scanning { after, retry }, ceiling, Event::Unreadable { at })
            == (Phase::Scanning { after: Some(at), retry }),
        pending(next_phase(Phase::Scanning { after, retry }, ceiling, Event::Unreadable { at }))
            == (Action::ReadNext { after: Some(at) }),
{
}

/// Shutdown ends any wait for good: the worker stops and nothing moves it again.
pub proof fn lemma_cancel_stops(ceiling: u64, timeout: u64, e: Event)
    ensures
        next_phase(
            Phase::Waiting { timeout_ms: timeout },
            ceiling,
            Event::WaitEnded { outcome: WaitOutcome::Cancelled },
        ) == Phase::Stopped,
        next_phase(Phase::Stopped, ceiling, e) == Phase::Stopped,
{
}

} // verus!
