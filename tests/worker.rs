use remind_me::{
    wait_timeout, Action, Cursor, Delivery, DeliveryStore, Event, Phase, StoreError, Target, WaitOutcome,
    Worker, DEFAULT_CEILING_MS,
};

const HOUR_MS: u64 = 3_600_000;

fn target(n: i64) -> Target {
    Target { chat_id: 7, reply_to_id: n }
}

fn delivery(id: i64, due_at: i64) -> Delivery {
    Delivery { id, target: target(id), due_at }
}

fn fresh() -> Phase {
    Phase::Scanning { after: None, retry: false }
}

/// Runs the worker against an in-memory store with a simulated clock: every
/// sleep lasts its whole timeout. Records (id, time, accepted) of each
/// notifier call. Returns when the store is empty and the worker asks to
/// sleep, or after `max_steps` actions.
fn drive(
    worker: &mut Worker,
    store: &mut DeliveryStore,
    clock: &mut i64,
    accept: &mut dyn FnMut(&Delivery) -> bool,
    max_steps: usize,
) -> Vec<(i64, i64, bool)> {
    let mut log = Vec::new();
    let mut action = worker.pending_action();
    for _ in 0..max_steps {
        let event = match action {
            Action::ReadNext { after } => Event::Scanned { now: *clock, next: Ok(store.earliest_after(after)) },
            Action::Notify { delivery } => {
                assert!(delivery.due_at <= *clock, "delivered before its due time");
                let ok = accept(&delivery);
                log.push((delivery.id, *clock, ok));
                Event::Notified { ok }
            }
            Action::Delete { id } => Event::Removed { ok: store.delete(id).is_ok() },
            Action::Sleep { timeout_ms } => {
                if store.is_empty() {
                    return log;
                }
                *clock += timeout_ms as i64;
                Event::WaitEnded { outcome: WaitOutcome::TimedOut }
            }
            Action::Exit => return log,
        };
        action = worker.step(event);
    }
    log
}

#[test]
fn wait_timeout_values() {
    assert_eq!(wait_timeout(None, 0, HOUR_MS), HOUR_MS);
    assert_eq!(wait_timeout(Some(delivery(1, 5_000)), 0, HOUR_MS), 5_000);
    assert_eq!(wait_timeout(Some(delivery(1, 5_000)), 5_000, HOUR_MS), 0);
    assert_eq!(wait_timeout(Some(delivery(1, 10 * HOUR_MS as i64)), 0, HOUR_MS), HOUR_MS);
    assert_eq!(wait_timeout(Some(delivery(1, i64::MAX)), i64::MIN, DEFAULT_CEILING_MS), DEFAULT_CEILING_MS);
    assert_eq!(wait_timeout(Some(delivery(1, i64::MAX)), i64::MIN, u64::MAX), u64::MAX);
}

#[test]
fn new_worker_reads_the_store_first() {
    let w = Worker::new(HOUR_MS);
    assert_eq!(w.phase, fresh());
    assert_eq!(w.pending_action(), Action::ReadNext { after: None });
    assert!(!w.is_stopped());
}

#[test]
fn future_delivery_is_not_handed_over() {
    let mut w = Worker::new(HOUR_MS);
    let a = w.step(Event::Scanned { now: 1_000, next: Ok(Some(delivery(1, 1_001))) });
    assert_eq!(a, Action::Sleep { timeout_ms: 1 });
}

#[test]
fn due_delivery_is_handed_over_at_once() {
    let mut w = Worker::new(HOUR_MS);
    let d = delivery(1, 1_000);
    assert_eq!(w.step(Event::Scanned { now: 1_000, next: Ok(Some(d)) }), Action::Notify { delivery: d });
}

#[test]
fn accepted_delivery_is_deleted_and_the_pass_goes_on() {
    let mut w = Worker::new(HOUR_MS);
    let d = delivery(4, 10);
    w.step(Event::Scanned { now: 20, next: Ok(Some(d)) });
    assert_eq!(w.step(Event::Notified { ok: true }), Action::Delete { id: 4 });
    assert_eq!(w.step(Event::Removed { ok: true }), Action::ReadNext { after: Some(d.cursor()) });
    assert_eq!(w.step(Event::Scanned { now: 20, next: Ok(None) }), Action::Sleep { timeout_ms: HOUR_MS });
}

#[test]
fn refused_delivery_is_kept_and_retried() {
    let mut w = Worker::new(HOUR_MS);
    let d = delivery(4, 10);
    w.step(Event::Scanned { now: 20, next: Ok(Some(d)) });
    assert_eq!(w.step(Event::Notified { ok: false }), Action::ReadNext { after: Some(d.cursor()) });
    assert_eq!(w.step(Event::Scanned { now: 20, next: Ok(None) }), Action::Sleep { timeout_ms: 0 });
    assert_eq!(w.step(Event::WaitEnded { outcome: WaitOutcome::TimedOut }), Action::ReadNext { after: None });
    assert_eq!(w.step(Event::Scanned { now: 21, next: Ok(Some(d)) }), Action::Notify { delivery: d });
}

#[test]
fn failed_removal_is_retried() {
    let mut w = Worker::new(HOUR_MS);
    let d = delivery(4, 10);
    w.step(Event::Scanned { now: 20, next: Ok(Some(d)) });
    w.step(Event::Notified { ok: true });
    assert_eq!(w.step(Event::Removed { ok: false }), Action::ReadNext { after: Some(d.cursor()) });
    assert_eq!(w.step(Event::Scanned { now: 20, next: Ok(Some(delivery(5, 90))) }), Action::Sleep { timeout_ms: 0 });
}

#[test]
fn empty_store_waits_the_ceiling() {
    let mut w = Worker::new(HOUR_MS);
    assert_eq!(w.step(Event::Scanned { now: 0, next: Ok(None) }), Action::Sleep { timeout_ms: HOUR_MS });
}

#[test]
fn store_error_waits_the_ceiling() {
    let mut w = Worker::new(HOUR_MS);
    let a = w.step(Event::Scanned { now: 0, next: Err(StoreError::Unavailable) });
    assert_eq!(a, Action::Sleep { timeout_ms: HOUR_MS });
}

#[test]
fn wake_signal_ends_the_wait_early() {
    let mut w = Worker::new(HOUR_MS);
    w.step(Event::Scanned { now: 0, next: Ok(Some(delivery(1, 50_000))) });
    assert_eq!(w.phase, Phase::Waiting { timeout_ms: 50_000 });
    assert_eq!(w.step(Event::WaitEnded { outcome: WaitOutcome::Woken }), Action::ReadNext { after: None });
    let earlier = delivery(2, 2_000);
    assert_eq!(w.step(Event::Scanned { now: 1_000, next: Ok(Some(earlier)) }), Action::Sleep { timeout_ms: 1_000 });
}

#[test]
fn cancellation_stops_the_worker() {
    let mut w = Worker::new(HOUR_MS);
    w.step(Event::Scanned { now: 0, next: Ok(None) });
    assert_eq!(w.step(Event::WaitEnded { outcome: WaitOutcome::Cancelled }), Action::Exit);
    assert!(w.is_stopped());
    assert_eq!(w.step(Event::Scanned { now: 0, next: Ok(Some(delivery(1, 0))) }), Action::Exit);
    assert_eq!(w.step(Event::WaitEnded { outcome: WaitOutcome::Woken }), Action::Exit);
}

#[test]
fn event_of_another_phase_changes_nothing() {
    let mut w = Worker::new(HOUR_MS);
    assert_eq!(w.step(Event::Notified { ok: true }), Action::ReadNext { after: None });
    assert_eq!(w.phase, fresh());
}

#[test]
fn idle_worker_wakes_for_new_delivery_and_sends_it() {
    let mut store = DeliveryStore::new();
    let mut w = Worker::new(HOUR_MS);
    let now: i64 = 1_000_000;
    assert_eq!(w.step(Event::Scanned { now, next: Ok(store.earliest_after(None)) }), Action::Sleep { timeout_ms: HOUR_MS });
    let a = store.insert(target(1), now + 5_000).unwrap();
    // the submission fires the wake signal
    assert_eq!(w.step(Event::WaitEnded { outcome: WaitOutcome::Woken }), Action::ReadNext { after: None });
    assert_eq!(
        w.step(Event::Scanned { now: now + 10, next: Ok(store.earliest_after(None)) }),
        Action::Sleep { timeout_ms: 4_990 }
    );
    assert_eq!(w.step(Event::WaitEnded { outcome: WaitOutcome::TimedOut }), Action::ReadNext { after: None });
    let due = store.earliest_after(None).unwrap();
    assert_eq!(w.step(Event::Scanned { now: now + 5_000, next: Ok(Some(due)) }), Action::Notify { delivery: due });
    assert_eq!(w.step(Event::Notified { ok: true }), Action::Delete { id: a });
    assert_eq!(store.delete(a), Ok(()));
    assert_eq!(w.step(Event::Removed { ok: true }), Action::ReadNext { after: Some(due.cursor()) });
    assert!(store.is_empty());
}

#[test]
fn two_deliveries_go_out_in_due_order() {
    let mut store = DeliveryStore::new();
    let mut w = Worker::new(HOUR_MS);
    let mut clock: i64 = 0;
    let c = store.insert(target(3), 2_000).unwrap();
    let b = store.insert(target(2), 1_000).unwrap();
    let log = drive(&mut w, &mut store, &mut clock, &mut |_| true, 100);
    assert_eq!(log, vec![(b, 1_000, true), (c, 2_000, true)]);
    assert!(store.is_empty());
}

#[test]
fn failed_delivery_stays_until_it_succeeds() {
    let mut store = DeliveryStore::new();
    let mut w = Worker::new(HOUR_MS);
    let mut clock: i64 = 0;
    let d = store.insert(target(4), 500).unwrap();
    let mut attempts = 0;
    let mut first_attempt_fails = |_: &Delivery| {
        attempts += 1;
        attempts > 1
    };
    // attempt 1 fails: the delivery is still there
    let log = drive(&mut w, &mut store, &mut clock, &mut first_attempt_fails, 4);
    assert_eq!(log, vec![(d, 500, false)]);
    assert_eq!(store.peek_earliest().map(|x| x.id), Some(d));
    // attempt 2 succeeds: the delivery is gone
    let log = drive(&mut w, &mut store, &mut clock, &mut first_attempt_fails, 100);
    assert_eq!(log, vec![(d, 500, true)]);
    assert!(store.is_empty());
}

#[test]
fn refused_delivery_does_not_hold_up_later_ones() {
    let mut store = DeliveryStore::new();
    let mut w = Worker::new(HOUR_MS);
    let mut clock: i64 = 1_000;
    let bad = store.insert(target(1), 100).unwrap();
    let good = store.insert(target(2), 200).unwrap();
    let log = drive(&mut w, &mut store, &mut clock, &mut |d: &Delivery| d.id != bad, 8);
    assert_eq!(log, vec![(bad, 1_000, false), (good, 1_000, true)]);
    assert_eq!(store.len(), 1);
    assert_eq!(store.peek_earliest().map(|x| x.id), Some(bad));
}

#[test]
fn unreadable_record_is_skipped_without_waiting() {
    let mut w = Worker::new(HOUR_MS);
    let bad = Cursor { due_at: 5, id: 9 };
    assert_eq!(w.step(Event::Unreadable { at: bad }), Action::ReadNext { after: Some(bad) });
    let d = delivery(10, 6);
    assert_eq!(w.step(Event::Scanned { now: 20, next: Ok(Some(d)) }), Action::Notify { delivery: d });
    w.step(Event::Notified { ok: true });
    w.step(Event::Removed { ok: true });
    assert_eq!(w.step(Event::Scanned { now: 20, next: Ok(None) }), Action::Sleep { timeout_ms: HOUR_MS });
}
