//! The reminder scheduler, as a state machine driven by its caller.
//!
//! Once per tick the caller reports the time; the scheduler asks for the due
//! reminders, then, one at a time, asks for each to be sent and, once sent,
//! deleted. The caller performs each action and reports its outcome as the
//! next event. A failed fetch ends the tick, and the reminders stay due for
//! the next one. A reminder whose send failed is kept for the next tick,
//! unless sending is idempotent; one whose deletion failed stays due and may
//! be delivered again: delivery is at least once.
use vstd::prelude::*;
use crate::text::{decimal_text, int_text};

verus! {

/// A reminder row as it is stored.
#[derive(Debug)]
pub struct StoredReminder {
    pub id: u64,
    /// The user to remind.
    pub user_id: i64,
    /// The channel to remind in; a row whose channel is not positive is
    /// malformed and is skipped.
    pub channel_id: i64,
    pub text: String,
    /// When the reminder is due, in seconds since the Unix epoch.
    pub remind_at: i64,
}

/// A reminder ready to be sent: its identifier, channel and message.
#[derive(Debug)]
pub struct Delivery {
    pub id: u64,
    pub channel_id: u64,
    pub text: String,
}

impl View for Delivery {
    type V = (u64, u64, Seq<char>);

    open spec fn view(&self) -> (u64, u64, Seq<char>) {
        (self.id, self.channel_id, self.text@)
    }
}

/// The message that delivers a reminder: `<@user>: text`.
pub open spec fn reminder_message(user_id: int, text: Seq<char>) -> Seq<char> {
    "<@"@ + decimal_text(user_id) + ">: "@ + text
}

/// Whether `row` is well formed and due at `now`.
pub open spec fn deliverable(row: StoredReminder, now: int) -> bool {
    row.channel_id > 0 && row.remind_at <= now
}

/// The deliveries of the rows that are well formed and due at `now`, in the
/// order of the rows.
pub open spec fn due_deliveries(rows: Seq<StoredReminder>, now: int) -> Seq<(u64, u64, Seq<char>)>
    decreases rows.len(),
{
    if rows.len() == 0 {
        Seq::empty()
    } else {
        let rest = due_deliveries(rows.drop_last(), now);
        let row = rows.last();
        if deliverable(row, now) {
            rest.push((row.id, row.channel_id as u64, reminder_message(row.user_id as int, row.text@)))
        } else {
            rest
        }
    }
}

/// The deliveries of the rows that are well formed and due at `now`.
pub fn plan_deliveries(rows: &Vec<StoredReminder>, now: i64) -> (r: Vec<Delivery>)
    ensures
        r.len() == due_deliveries(rows@, now as int).len(),
        forall|k: int| 0 <= k < r.len() ==> #[trigger] r[k]@ == due_deliveries(rows@, now as int)[k],
{
    let mut out: Vec<Delivery> = Vec::new();
    let mut i: usize = 0;
    while i < rows.len()
        invariant
            i <= rows.len(),
            out.len() == due_deliveries(rows@.take(i as int), now as int).len(),
            forall|k: int|
                0 <= k < out.len() ==> #[trigger] out[k]@ == due_deliveries(
                    rows@.take(i as int),
                    now as int,
                )[k],
        decreases rows.len() - i,
    {
        let row = &rows[i];
        assert(rows@.take(i + 1).drop_last() == rows@.take(i as int));
        assert(rows@.take(i + 1).last() == *row);
        if row.channel_id > 0 && row.remind_at <= now {
            let mut text = String::from_str("<@");
            let user = int_text(row.user_id);
            text.append(user.as_str());
            text.append(">: ");
            text.append(row.text.as_str());
            out.push(Delivery { id: row.id, channel_id: row.channel_id as u64, text });
        }
        i = i + 1;
    }
    assert(rows@.take(rows.len() as int) == rows@);
    out
}

/// Where the scheduler stands. `Idle` waits for a tick; `Fetching`,
/// `Sending` and `Deleting` make up delivering a tick's due reminders;
/// `Stopped` follows a shutdown.
#[derive(Clone, Copy, Debug, PartialEq, Eq, Structural)]
pub enum Phase {
    Idle,
    Fetching,
    Sending,
    Deleting,
    Stopped,
}

/// What the caller reports.
#[derive(Debug)]
pub enum SchedulerEvent {
    /// A tick at time `now`.
    Tick { now: i64 },
    /// Fetching the due reminders failed.
    FetchFailed,
    /// The reminders fetched.
    Fetched { rows: Vec<StoredReminder> },
    /// Sending the current reminder succeeded or failed.
    Sent { ok: bool },
    /// Deleting the current reminder succeeded or failed.
    Deleted { ok: bool },
    /// Stop taking ticks; a delivery under way is finished first.
    Shutdown,
}

/// The model of an event.
pub enum EventModel {
    Tick { now: i64 },
    FetchFailed,
    Fetched { rows: Seq<StoredReminder> },
    Sent { ok: bool },
    Deleted { ok: bool },
    Shutdown,
}

impl View for SchedulerEvent {
    type V = EventModel;

    open spec fn view(&self) -> EventModel {
        match self {
            SchedulerEvent::Tick { now } => EventModel::Tick { now: *now },
            SchedulerEvent::FetchFailed => EventModel::FetchFailed,
            SchedulerEvent::Fetched { rows } => EventModel::Fetched { rows: rows@ },
            SchedulerEvent::Sent { ok } => EventModel::Sent { ok: *ok },
            SchedulerEvent::Deleted { ok } => EventModel::Deleted { ok: *ok },
            SchedulerEvent::Shutdown => EventModel::Shutdown,
        }
    }
}

/// What the scheduler asks of the caller.
#[derive(Debug)]
pub enum SchedulerAction {
    /// Nothing to do until the next event.
    Wait,
    /// Fetch the reminders due at or before `due_by`.
    Fetch { due_by: i64 },
    /// Send `text` to the channel `channel_id`.
    Send { channel_id: u64, text: String },
    /// Delete the reminder `id`.
    Delete { id: u64 },
    /// The scheduler has stopped.
    Stop,
}

/// The model of an action.
pub enum ActionModel {
    Wait,
    Fetch { due_by: i64 },
    Send { channel_id: u64, text: Seq<char> },
    Delete { id: u64 },
    Stop,
}

impl View for SchedulerAction {
    type V = ActionModel;

    open spec fn view(&self) -> ActionModel {
        match self {
            SchedulerAction::Wait => ActionModel::Wait,
            SchedulerAction::Fetch { due_by } => ActionModel::Fetch { due_by: *due_by },
            SchedulerAction::Send { channel_id, text } => ActionModel::Send {
                channel_id: *channel_id,
                text: text@,
            },
            SchedulerAction::Delete { id } => ActionModel::Delete { id: *id },
            SchedulerAction::Stop => ActionModel::Stop,
        }
    }
}

/// The model of the scheduler: its phase, the time of the tick under way,
/// the deliveries of that tick and the position of the current one, whether
/// a failed send still leads to deletion, and whether a shutdown was asked.
pub struct SchedulerModel {
    pub phase: Phase,
    pub now: i64,
    pub batch: Seq<(u64, u64, Seq<char>)>,
    pub cursor: int,
    pub idempotent_send: bool,
    pub stopping: bool,
}

/// Ends the delivery under way: back to `Idle`, or to `Stopped` where a
/// shutdown was asked.
pub open spec fn finish(m: SchedulerModel) -> (SchedulerModel, ActionModel) {
    let phase = if m.stopping {
        Phase::Stopped
    } else {
        Phase::Idle
    };
    (
        SchedulerModel { phase, batch: Seq::empty(), cursor: 0, ..m },
        if m.stopping {
            ActionModel::Stop
        } else {
            ActionModel::Wait
        },
    )
}

/// Moves to the delivery at `cursor`, or ends the delivery where none is
/// left.
pub open spec fn send_at(m: SchedulerModel, cursor: int) -> (SchedulerModel, ActionModel) {
    if 0 <= cursor < m.batch.len() {
        (
            SchedulerModel { phase: Phase::Sending, cursor, ..m },
            ActionModel::Send { channel_id: m.batch[cursor].1, text: m.batch[cursor].2 },
        )
    } else {
        finish(m)
    }
}

/// The next state and the action that follow the event `e` in the state `m`.
/// An event that does not fit the phase is ignored.
pub open spec fn transition(m: SchedulerModel, e: EventModel) -> (SchedulerModel, ActionModel) {
    if m.phase == Phase::Stopped {
        (m, ActionModel::Stop)
    } else {
        match e {
            EventModel::Shutdown => if m.phase == Phase::Idle {
                (SchedulerModel { phase: Phase::Stopped, stopping: true, ..m }, ActionModel::Stop)
            } else {
                (SchedulerModel { stopping: true, ..m }, ActionModel::Wait)
            },
            EventModel::Tick { now } => if m.phase == Phase::Idle {
                (
                    SchedulerModel { phase: Phase::Fetching, now, ..m },
                    ActionModel::Fetch { due_by: now },
                )
            } else {
                (m, ActionModel::Wait)
            },
            EventModel::FetchFailed => if m.phase == Phase::Fetching {
                finish(m)
            } else {
                (m, ActionModel::Wait)
            },
            EventModel::Fetched { rows } => if m.phase == Phase::Fetching {
                send_at(SchedulerModel { batch: due_deliveries(rows, m.now as int), ..m }, 0)
            } else {
                (m, ActionModel::Wait)
            },
            EventModel::Sent { ok } => if m.phase == Phase::Sending {
                if ok || m.idempotent_send {
                    (
                        SchedulerModel { phase: Phase::Deleting, ..m },
                        ActionModel::Delete { id: m.batch[m.cursor].0 },
                    )
                } else {
                    send_at(m, m.cursor + 1)
                }
            } else {
                (m, ActionModel::Wait)
            },
            EventModel::Deleted { ok } => if m.phase == Phase::Deleting {
                send_at(m, m.cursor + 1)
            } else {
                (m, ActionModel::Wait)
            },
        }
    }
}

/// The state and action after `k` rounds, from `start`, in which the
/// current reminder is sent and then deleted, both successfully.
pub open spec fn rounds(start: (SchedulerModel, ActionModel), k: nat) -> (
    SchedulerModel,
    ActionModel,
)
    decreases k,
{
    if k == 0 {
        start
    } else {
        let prev = rounds(start, (k - 1) as nat);
        transition(
            transition(prev.0, EventModel::Sent { ok: true }).0,
            EventModel::Deleted { ok: true },
        )
    }
}

/// The state of `m` once a tick at `now` has fetched the deliveries `batch`.
pub open spec fn delivering(m: SchedulerModel, now: i64, batch: Seq<(u64, u64, Seq<char>)>) -> SchedulerModel {
    SchedulerModel { phase: Phase::Fetching, now, batch, ..m }
}

/// The state and action after a tick at `now` from `m` that fetched `rows`,
/// followed by `k` successful rounds.
pub open spec fn tick_rounds(m: SchedulerModel, now: i64, rows: Seq<StoredReminder>, k: nat) -> (
    SchedulerModel,
    ActionModel,
) {
    let fetching = transition(m, EventModel::Tick { now });
    rounds(transition(fetching.0, EventModel::Fetched { rows }), k)
}

/// After `k` successful rounds of a tick, the scheduler stands at the
/// delivery numbered `k`, or has finished the tick once none is left.
pub proof fn lemma_rounds_walk_batch(m: SchedulerModel, now: i64, rows: Seq<StoredReminder>, k: nat)
    requires
        m.phase == Phase::Idle,
        !m.stopping,
    ensures
        ({
            let batch = due_deliveries(rows, now as int);
            let at = if k < batch.len() {
                k as int
            } else {
                batch.len() as int
            };
            tick_rounds(m, now, rows, k) == send_at(delivering(m, now, batch), at)
        }),
    decreases k,
{
    if k > 0 {
        lemma_rounds_walk_batch(m, now, rows, (k - 1) as nat);
    }
}

/// A due reminder is delivered on the very next tick: from an idle
/// scheduler, a tick at `now` asks for the reminders due by `now`; once they
/// are fetched, every well-formed due one is sent in turn, and deleted after
/// its send succeeds, and the tick then ends in `Idle`.
pub proof fn lemma_tick_delivers_due(m: SchedulerModel, now: i64, rows: Seq<StoredReminder>)
    requires
        m.phase == Phase::Idle,
        !m.stopping,
    ensures
        ({
            let batch = due_deliveries(rows, now as int);
            &&& transition(m, EventModel::Tick { now }).1 == ActionModel::Fetch { due_by: now }
            &&& forall|k: nat|
                k < batch.len() ==> {
                    &&& #[trigger] tick_rounds(m, now, rows, k).1 == ActionModel::Send {
                        channel_id: batch[k as int].1,
                        text: batch[k as int].2,
                    }
                    &&& transition(tick_rounds(m, now, rows, k).0, EventModel::Sent { ok: true }).1
                        == ActionModel::Delete { id: batch[k as int].0 }
                }
            &&& tick_rounds(m, now, rows, batch.len()).0.phase == Phase::Idle
            &&& tick_rounds(m, now, rows, batch.len()).1 == ActionModel::Wait
        }),
{
    let batch = due_deliveries(rows, now as int);
    assert forall|k: nat| k < batch.len() implies {
        &&& #[trigger] tick_rounds(m, now, rows, k).1 == ActionModel::Send {
            channel_id: batch[k as int].1,
            text: batch[k as int].2,
        }
        &&& transition(tick_rounds(m, now, rows, k).0, EventModel::Sent { ok: true }).1
            == ActionModel::Delete { id: batch[k as int].0 }
    } by {
        lemma_rounds_walk_batch(m, now, rows, k);
    }
    lemma_rounds_walk_batch(m, now, rows, batch.len());
}

/// A failed fetch loses nothing: the tick ends in `Idle` having asked for
/// nothing else, and the next tick then runs exactly as it would have run
/// had the fetch not failed.
pub proof fn lemma_fetch_outage_harmless(
    m: SchedulerModel,
    failed_at: i64,
    now: i64,
    rows: Seq<StoredReminder>,
)
    requires
        m.phase == Phase::Idle,
        !m.stopping,
    ensures
        ({
            let failed = transition(
                transition(m, EventModel::Tick { now: failed_at }).0,
                EventModel::FetchFailed,
            );
            &&& failed.1 == ActionModel::Wait
            &&& failed.0.phase == Phase::Idle
            &&& !failed.0.stopping
            &&& forall|k: nat| #[trigger]
                tick_rounds(failed.0, now, rows, k) == tick_rounds(m, now, rows, k)
        }),
{
    let failed = transition(
        transition(m, EventModel::Tick { now: failed_at }).0,
        EventModel::FetchFailed,
    );
    assert forall|k: nat| #[trigger]
        tick_rounds(failed.0, now, rows, k) == tick_rounds(m, now, rows, k) by {
        lemma_rounds_walk_batch(m, now, rows, k);
        lemma_rounds_walk_batch(failed.0, now, rows, k);
    }
}

/// The reminder scheduler.
pub struct ReminderScheduler {
    phase: Phase,
    now: i64,
    batch: Vec<Delivery>,
    cursor: usize,
    idempotent_send: bool,
    stopping: bool,
}

impl View for ReminderScheduler {
    type V = SchedulerModel;

    closed spec fn view(&self) -> SchedulerModel {
        SchedulerModel {
            phase: self.phase,
            now: self.now,
            batch: self.batch@.map_values(|d: Delivery| d@),
            cursor: self.cursor as int,
            idempotent_send: self.idempotent_send,
            stopping: self.stopping,
        }
    }
}

impl ReminderScheduler {
    /// The scheduler's own invariant: while a reminder is being sent or
    /// deleted, it is one of the tick's deliveries.
    pub closed spec fn wf(&self) -> bool {
        &&& self.cursor <= self.batch.len()
        &&& (self.phase == Phase::Sending || self.phase == Phase::Deleting) ==> self.cursor
            < self.batch.len()
    }

    /// A scheduler waiting for its first tick. Where `idempotent_send` holds,
    /// a reminder whose send failed is deleted all the same.
    pub fn new(idempotent_send: bool) -> (r: Self)
        ensures
            r.wf(),
            r@.phase == Phase::Idle,
            r@.batch.len() == 0,
            r@.cursor == 0,
            r@.idempotent_send == idempotent_send,
            !r@.stopping,
    {
        let r = ReminderScheduler {
            phase: Phase::Idle,
            now: 0,
            batch: Vec::new(),
            cursor: 0,
            idempotent_send,
            stopping: false,
        };
        assert(r@.batch =~= Seq::<(u64, u64, Seq<char>)>::empty());
        r
    }

    /// Where the scheduler stands.
    pub fn phase(&self) -> (r: Phase)
        ensures
            r == self@.phase,
    {
        self.phase
    }

    /// Whether the scheduler is delivering a tick's reminders.
    pub fn is_delivering(&self) -> (r: bool)
        ensures
            r == (self@.phase == Phase::Fetching || self@.phase == Phase::Sending || self@.phase
                == Phase::Deleting),
    {
        match self.phase {
            Phase::Fetching | Phase::Sending | Phase::Deleting => true,
            _ => false,
        }
    }

    fn finish_tick(&mut self) -> (r: SchedulerAction)
        ensures
            (final(self)@, r@) == finish(old(self)@),
            final(self).wf(),
    {
        self.batch = Vec::new();
        self.cursor = 0;
        if self.stopping {
            self.phase = Phase::Stopped;
            assert(self@.batch =~= Seq::<(u64, u64, Seq<char>)>::empty());
            SchedulerAction::Stop
        } else {
            self.phase = Phase::Idle;
            assert(self@.batch =~= Seq::<(u64, u64, Seq<char>)>::empty());
            SchedulerAction::Wait
        }
    }

    fn send_from(&mut self, cursor: usize) -> (r: SchedulerAction)
        requires
            cursor <= old(self).batch.len(),
        ensures
            (final(self)@, r@) == send_at(old(self)@, cursor as int),
            final(self).wf(),
    {
        if cursor < self.batch.len() {
            self.cursor = cursor;
            self.phase = Phase::Sending;
            let d = &self.batch[cursor];
            let channel_id = d.channel_id;
            let text = d.text.clone();
            SchedulerAction::Send { channel_id, text }
        } else {
            self.finish_tick()
        }
    }

    /// Takes the event `event` and returns what the caller is to do next.
    pub fn step(&mut self, event: SchedulerEvent) -> (r: SchedulerAction)
        requires
            old(self).wf(),
        ensures
            final(self).wf(),
            (final(self)@, r@) == transition(old(self)@, event@),
    {
        if self.phase == Phase::Stopped {
            return SchedulerAction::Stop;
        }
        match event {
            SchedulerEvent::Shutdown => {
                self.stopping = true;
                if self.phase == Phase::Idle {
                    self.phase = Phase::Stopped;
                    SchedulerAction::Stop
                } else {
                    SchedulerAction::Wait
                }
            },
            SchedulerEvent::Tick { now } => {
                if self.phase == Phase::Idle {
                    self.phase = Phase::Fetching;
                    self.now = now;
                    SchedulerAction::Fetch { due_by: now }
                } else {
                    SchedulerAction::Wait
                }
            },
            SchedulerEvent::FetchFailed => {
                if self.phase == Phase::Fetching {
                    self.finish_tick()
                } else {
                    SchedulerAction::Wait
                }
            },
            SchedulerEvent::Fetched { rows } => {
                if self.phase == Phase::Fetching {
                    self.batch = plan_deliveries(&rows, self.now);
                    self.cursor = 0;
                    assert(self@.batch =~= due_deliveries(rows@, self.now as int));
                    self.send_from(0)
                } else {
                    SchedulerAction::Wait
                }
            },
            SchedulerEvent::Sent { ok } => {
                if self.phase == Phase::Sending {
                    if ok || self.idempotent_send {
                        self.phase = Phase::Deleting;
                        SchedulerAction::Delete { id: self.batch[self.cursor].id }
                    } else {
                        let next = self.cursor + 1;
                        self.send_from(next)
                    }
                } else {
                    SchedulerAction::Wait
                }
            },
            SchedulerEvent::Deleted { ok: _ } => {
                if self.phase == Phase::Deleting {
                    let next = self.cursor + 1;
                    self.send_from(next)
                } else {
                    SchedulerAction::Wait
                }
            },
        }
    }
}

} // verus!
