use rust_discord_bot::scheduler::{
    plan_deliveries, Phase, ReminderScheduler, SchedulerAction, SchedulerEvent, StoredReminder,
};

/// An in-memory reminder table.
#[derive(Clone)]
struct Row {
    id: u64,
    user_id: i64,
    channel_id: i64,
    text: &'static str,
    remind_at: i64,
}

fn due_rows(table: &[Row], due_by: i64) -> Vec<StoredReminder> {
    table
        .iter()
        .filter(|r| r.remind_at <= due_by)
        .map(|r| StoredReminder {
            id: r.id,
            user_id: r.user_id,
            channel_id: r.channel_id,
            text: r.text.to_string(),
            remind_at: r.remind_at,
        })
        .collect()
}

/// Runs one tick against `table`; the store and the chat succeed or fail as
/// told. Returns the messages sent, as `(channel, text)`.
fn run_tick(
    s: &mut ReminderScheduler,
    table: &mut Vec<Row>,
    now: i64,
    fetch_ok: bool,
    send_ok: bool,
    delete_ok: bool,
) -> Vec<(u64, String)> {
    let mut sent = Vec::new();
    let mut action = s.step(SchedulerEvent::Tick { now });
    loop {
        action = match action {
            SchedulerAction::Fetch { due_by } => {
                assert_eq!(due_by, now);
                if fetch_ok {
                    s.step(SchedulerEvent::Fetched { rows: due_rows(table, due_by) })
                } else {
                    s.step(SchedulerEvent::FetchFailed)
                }
            }
            SchedulerAction::Send { channel_id, text } => {
                if send_ok {
                    sent.push((channel_id, text));
                }
                s.step(SchedulerEvent::Sent { ok: send_ok })
            }
            SchedulerAction::Delete { id } => {
                if delete_ok {
                    table.retain(|r| r.id != id);
                }
                s.step(SchedulerEvent::Deleted { ok: delete_ok })
            }
            SchedulerAction::Wait | SchedulerAction::Stop => break,
        };
    }
    assert_eq!(s.phase(), Phase::Idle);
    sent
}

fn stand_up() -> Row {
    Row { id: 1, user_id: 42, channel_id: 7, text: "stand up", remind_at: 900 }
}

#[test]
fn past_reminder_delivered_on_next_tick_then_gone() {
    let mut s = ReminderScheduler::new(false);
    let mut table = vec![stand_up()];
    let sent = run_tick(&mut s, &mut table, 1_000, true, true, true);
    assert_eq!(sent, vec![(7, "<@42>: stand up".to_string())]);
    assert!(table.is_empty());
    assert!(run_tick(&mut s, &mut table, 1_060, true, true, true).is_empty());
    assert!(run_tick(&mut s, &mut table, 1_120, true, true, true).is_empty());
}

#[test]
fn fetch_outage_loses_nothing() {
    let mut s = ReminderScheduler::new(false);
    let mut table = vec![stand_up()];
    assert!(run_tick(&mut s, &mut table, 1_000, false, true, true).is_empty());
    assert_eq!(table.len(), 1);
    let sent = run_tick(&mut s, &mut table, 1_060, true, true, true);
    assert_eq!(sent, vec![(7, "<@42>: stand up".to_string())]);
    assert!(table.is_empty());
}

#[test]
fn reminders_not_yet_due_wait() {
    let mut s = ReminderScheduler::new(false);
    let mut table = vec![Row { remind_at: 5_000, ..stand_up() }];
    assert!(run_tick(&mut s, &mut table, 1_000, true, true, true).is_empty());
    assert_eq!(table.len(), 1);
    assert_eq!(run_tick(&mut s, &mut table, 5_000, true, true, true).len(), 1);
}

#[test]
fn failed_delete_is_delivered_again() {
    let mut s = ReminderScheduler::new(false);
    let mut table = vec![stand_up()];
    assert_eq!(run_tick(&mut s, &mut table, 1_000, true, true, false).len(), 1);
    assert_eq!(table.len(), 1);
    assert_eq!(run_tick(&mut s, &mut table, 1_060, true, true, true).len(), 1);
    assert!(table.is_empty());
}

#[test]
fn failed_send_is_kept_for_retry() {
    let mut s = ReminderScheduler::new(false);
    let mut table = vec![stand_up()];
    assert!(run_tick(&mut s, &mut table, 1_000, true, false, true).is_empty());
    assert_eq!(table.len(), 1);
    assert_eq!(run_tick(&mut s, &mut table, 1_060, true, true, true).len(), 1);
    assert!(table.is_empty());
}

#[test]
fn failed_idempotent_send_is_deleted() {
    let mut s = ReminderScheduler::new(true);
    let mut table = vec![stand_up()];
    assert!(run_tick(&mut s, &mut table, 1_000, true, false, true).is_empty());
    assert!(table.is_empty());
}

#[test]
fn malformed_rows_are_skipped() {
    let mut s = ReminderScheduler::new(false);
    let mut table = vec![
        Row { id: 1, channel_id: -3, ..stand_up() },
        Row { id: 2, channel_id: 0, ..stand_up() },
        Row { id: 3, user_id: -5, text: "drink water", ..stand_up() },
    ];
    let sent = run_tick(&mut s, &mut table, 1_000, true, true, true);
    assert_eq!(sent, vec![(7, "<@-5>: drink water".to_string())]);
    assert_eq!(table.len(), 2);
}

#[test]
fn batch_is_sent_in_order() {
    let rows = vec![
        StoredReminder { id: 1, user_id: 1, channel_id: 10, text: "a".to_string(), remind_at: 0 },
        StoredReminder { id: 2, user_id: 2, channel_id: 20, text: "b".to_string(), remind_at: 99 },
        StoredReminder { id: 3, user_id: 3, channel_id: 30, text: "c".to_string(), remind_at: 5 },
    ];
    let plan = plan_deliveries(&rows, 10);
    let got: Vec<(u64, u64, String)> =
        plan.into_iter().map(|d| (d.id, d.channel_id, d.text)).collect();
    assert_eq!(
        got,
        vec![(1, 10, "<@1>: a".to_string()), (3, 30, "<@3>: c".to_string())]
    );
}

#[test]
fn shutdown_waits_for_delivery_under_way() {
    let mut s = ReminderScheduler::new(false);
    assert!(matches!(s.step(SchedulerEvent::Tick { now: 1_000 }), SchedulerAction::Fetch { .. }));
    assert!(matches!(s.step(SchedulerEvent::Shutdown), SchedulerAction::Wait));
    assert!(s.is_delivering());
    let rows = due_rows(&[stand_up()], 1_000);
    assert!(matches!(s.step(SchedulerEvent::Fetched { rows }), SchedulerAction::Send { .. }));
    assert!(matches!(s.step(SchedulerEvent::Sent { ok: true }), SchedulerAction::Delete { id: 1 }));
    assert!(matches!(s.step(SchedulerEvent::Deleted { ok: true }), SchedulerAction::Stop));
    assert_eq!(s.phase(), Phase::Stopped);
    assert!(matches!(s.step(SchedulerEvent::Tick { now: 2_000 }), SchedulerAction::Stop));
}

#[test]
fn shutdown_when_idle_stops_at_once() {
    let mut s = ReminderScheduler::new(false);
    assert!(matches!(s.step(SchedulerEvent::Shutdown), SchedulerAction::Stop));
    assert_eq!(s.phase(), Phase::Stopped);
}

#[test]
fn events_out_of_turn_are_ignored() {
    let mut s = ReminderScheduler::new(false);
    assert!(matches!(s.step(SchedulerEvent::Sent { ok: true }), SchedulerAction::Wait));
    assert!(matches!(s.step(SchedulerEvent::FetchFailed), SchedulerAction::Wait));
    assert_eq!(s.phase(), Phase::Idle);
    assert!(matches!(s.step(SchedulerEvent::Tick { now: 5 }), SchedulerAction::Fetch { due_by: 5 }));
    assert!(matches!(s.step(SchedulerEvent::Tick { now: 6 }), SchedulerAction::Wait));
    assert_eq!(s.phase(), Phase::Fetching);
}
