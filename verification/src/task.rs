//! The three things the bot does, each as a machine that is told what
//! happened and says what to do next: the monitor, which warns of low
//! balances at a fixed pace; the report, which shows all balances once a
//! day; and the reply to a command, which shows them once to the chat that
//! asked. The caller fetches, sends and sleeps, and reports back.

use crate::command::Command;
use crate::config::Config;
use crate::decimal::{Decimal, Number};
use crate::dispatch::{notify, Dispatch, Progress};
use crate::fetch::FetchError;
use crate::message::{notices_for, Mode, ModeView, Notice, NoticeView};
use crate::record::{below_threshold, records_below, BalanceRecord, Reading};
use crate::schedule::{
    due, due_after, lemma_report_wait, report_clock, report_wait, seconds_until_report, DAY, HOUR,
};
use vstd::prelude::*;

verus! {

/// Which of the three a task is.
#[derive(Clone, Copy, Debug, PartialEq, Eq, Structural)]
pub enum Kind {
    /// Warns of each balance under the threshold, again and again.
    Monitor,
    /// Shows every balance at the report hour, day after day.
    Report,
    /// Shows every balance once, to the chat that asked.
    Reply,
}

/// What the caller reports back.
pub enum Event {
    /// The wait is over.
    Woke,
    /// The fetch is done, with records or without.
    Fetched(Result<Vec<BalanceRecord>, FetchError>),
    /// The message was handed to the chat; `true` where it went out.
    Sent(bool),
}

/// What an [`Event`] holds, as plain values.
pub enum EventView {
    Woke,
    Fetched(Result<Seq<Reading>, FetchError>),
    Sent(bool),
}

impl View for Event {
    type V = EventView;

    open spec fn view(&self) -> EventView {
        match self {
            Event::Woke => EventView::Woke,
            Event::Fetched(Ok(records)) => EventView::Fetched(Ok(records.deep_view())),
            Event::Fetched(Err(error)) => EventView::Fetched(Err(*error)),
            Event::Sent(delivered) => EventView::Sent(*delivered),
        }
    }
}

/// What the caller is to do next.
pub enum Action {
    /// Sleep this many seconds, then report [`Event::Woke`].
    Wait { seconds: u64 },
    /// Fetch the tenant's balances, then report [`Event::Fetched`].
    Fetch,
    /// Send this message, then report [`Event::Sent`].
    Send(Notice),
    /// Nothing: the task is over.
    Stop,
}

/// What an [`Action`] holds, as plain values.
pub enum ActionView {
    Wait { seconds: u64 },
    Fetch,
    Send(NoticeView),
    Stop,
}

impl View for Action {
    type V = ActionView;

    open spec fn view(&self) -> ActionView {
        match self {
            Action::Wait { seconds } => ActionView::Wait { seconds: *seconds },
            Action::Fetch => ActionView::Fetch,
            Action::Send(notice) => ActionView::Send(notice@),
            Action::Stop => ActionView::Stop,
        }
    }
}

/// Where in its cycle a task stands.
pub enum StageView {
    /// Asleep until the instant `until`.
    Waiting { until: u64 },
    /// Waiting for the balances.
    Fetching,
    /// Sending a batch, of which a message is pending.
    Sending(Progress),
    /// Over.
    Finished,
}

/// A task, as plain values.
pub struct TaskView {
    pub kind: Kind,
    /// The chat that the messages go to.
    pub chat_id: i64,
    /// The balance under which the monitor warns.
    pub threshold: Number,
    /// Seconds between two cycles of the monitor.
    pub interval: u64,
    /// The hour of the day at which the report goes out.
    pub report_hour: u8,
    pub stage: StageView,
}

impl TaskView {
    /// The threshold is a number, the hour an hour of the day, a batch that
    /// is being sent has a message pending, and only a reply is ever over.
    pub open spec fn wf(self) -> bool {
        &&& self.threshold.wf()
        &&& self.report_hour < 24
        &&& self.stage matches StageView::Sending(progress) ==> progress.wf()
            && progress.pending() is Some
        &&& self.stage is Finished ==> self.kind == Kind::Reply
    }

    /// The kind of message the task sends: the monitor warns, the others
    /// report.
    pub open spec fn mode(self) -> ModeView {
        if self.kind == Kind::Monitor {
            ModeView::Warning(self.threshold)
        } else {
            ModeView::Normal
        }
    }

    /// The readings that the task speaks of: for the monitor those under
    /// the threshold, for the others all, in the order fetched.
    pub open spec fn chosen(self, readings: Seq<Reading>) -> Seq<Reading> {
        if self.kind == Kind::Monitor {
            below_threshold(readings, self.threshold)
        } else {
            readings
        }
    }

    /// The batch that the task sends on `readings`: one message for each
    /// reading it speaks of, to the task's chat.
    pub open spec fn batch(self, readings: Seq<Reading>) -> Seq<NoticeView> {
        notices_for(self.chat_id, self.chosen(readings), self.mode())
    }

    /// Where a cycle that ends at `now` leaves the task, however it ended:
    /// the monitor asleep for its interval, the report asleep until the
    /// next stroke of its hour, a reply over.
    pub open spec fn rest(self, now: u64) -> StageView {
        match self.kind {
            Kind::Monitor => StageView::Waiting { until: due(now, self.interval) },
            Kind::Report => StageView::Waiting {
                until: due(now, report_wait(now, self.report_hour)),
            },
            Kind::Reply => StageView::Finished,
        }
    }

    /// The task after `event`, reported at the instant `now`. An event that
    /// the stage does not wait for changes nothing, and so does waking
    /// early.
    pub open spec fn after(self, event: EventView, now: u64) -> TaskView {
        match (self.stage, event) {
            (StageView::Waiting { until }, EventView::Woke) => if now >= until {
                TaskView { stage: StageView::Fetching, ..self }
            } else {
                self
            },
            (StageView::Fetching, EventView::Fetched(Ok(readings))) => if self.batch(
                readings,
            ).len() == 0 {
                TaskView { stage: self.rest(now), ..self }
            } else {
                TaskView {
                    stage: StageView::Sending(Progress::start(self.batch(readings))),
                    ..self
                }
            },
            (StageView::Fetching, EventView::Fetched(Err(_))) => TaskView {
                stage: self.rest(now),
                ..self
            },
            (StageView::Sending(progress), EventView::Sent(delivered)) => if progress.record(
                delivered,
            ).pending() is None {
                TaskView { stage: self.rest(now), ..self }
            } else {
                TaskView { stage: StageView::Sending(progress.record(delivered)), ..self }
            },
            _ => self,
        }
    }

    /// What the caller is to do at the instant `now`.
    pub open spec fn action(self, now: u64) -> ActionView {
        match self.stage {
            StageView::Waiting { until } => ActionView::Wait {
                seconds: if until > now {
                    (until - now) as u64
                } else {
                    0
                },
            },
            StageView::Fetching => ActionView::Fetch,
            StageView::Sending(progress) => match progress.pending() {
                Some(notice) => ActionView::Send(notice),
                None => ActionView::Stop,
            },
            StageView::Finished => ActionView::Stop,
        }
    }
}

enum Stage {
    Waiting { until: u64 },
    Fetching,
    Sending(Dispatch),
    Finished,
}

impl View for Stage {
    type V = StageView;

    closed spec fn view(&self) -> StageView {
        match self {
            Stage::Waiting { until } => StageView::Waiting { until: *until },
            Stage::Fetching => StageView::Fetching,
            Stage::Sending(dispatch) => StageView::Sending(dispatch@),
            Stage::Finished => StageView::Finished,
        }
    }
}

/// One of the bot's tasks.
pub struct Task {
    kind: Kind,
    chat_id: i64,
    threshold: Decimal,
    interval: u64,
    report_hour: u8,
    stage: Stage,
}

impl View for Task {
    type V = TaskView;

    closed spec fn view(&self) -> TaskView {
        TaskView {
            kind: self.kind,
            chat_id: self.chat_id,
            threshold: self.threshold@,
            interval: self.interval,
            report_hour: self.report_hour,
            stage: self.stage@,
        }
    }
}

impl Task {
    #[verifier::type_invariant]
    spec fn well_formed(&self) -> bool {
        self@.wf()
    }

    /// The monitor, about to fetch for the first time.
    pub fn monitor(config: &Config) -> (task: Task)
        ensures
            task@ == (TaskView {
                kind: Kind::Monitor,
                chat_id: config@.target_chat_id,
                threshold: config@.warning_threshold,
                interval: config@.monitor_interval,
                report_hour: config@.report_hour,
                stage: StageView::Fetching,
            }),
            task@.wf(),
    {
        let report_hour = config.report_hour();
        let threshold = config.warning_threshold().clone();
        Task {
            kind: Kind::Monitor,
            chat_id: config.target_chat_id(),
            threshold,
            interval: config.monitor_interval(),
            report_hour,
            stage: Stage::Fetching,
        }
    }

    /// The report, started at the instant `now` and asleep until the next
    /// stroke of the report hour.
    pub fn report(config: &Config, now: u64) -> (task: Task)
        ensures
            task@ == (TaskView {
                kind: Kind::Report,
                chat_id: config@.target_chat_id,
                threshold: config@.warning_threshold,
                interval: config@.monitor_interval,
                report_hour: config@.report_hour,
                stage: StageView::Waiting {
                    until: due(now, report_wait(now, config@.report_hour)),
                },
            }),
            task@.wf(),
    {
        let report_hour = config.report_hour();
        let threshold = config.warning_threshold().clone();
        let until = due_after(now, seconds_until_report(now, report_hour));
        Task {
            kind: Kind::Report,
            chat_id: config.target_chat_id(),
            threshold,
            interval: config.monitor_interval(),
            report_hour,
            stage: Stage::Waiting { until },
        }
    }

    /// The reply to `command` from the chat `chat_id`, about to fetch. It
    /// answers the chat that asked, whichever that is.
    pub fn reply(config: &Config, command: Command, chat_id: i64) -> (task: Task)
        ensures
            task@ == (TaskView {
                kind: Kind::Reply,
                chat_id,
                threshold: config@.warning_threshold,
                interval: config@.monitor_interval,
                report_hour: config@.report_hour,
                stage: StageView::Fetching,
            }),
            task@.wf(),
    {
        let report_hour = config.report_hour();
        let threshold = config.warning_threshold().clone();
        match command {
            Command::DianFei => Task {
                kind: Kind::Reply,
                chat_id,
                threshold,
                interval: config.monitor_interval(),
                report_hour,
                stage: Stage::Fetching,
            },
        }
    }

    /// Which of the three the task is.
    pub fn kind(&self) -> (kind: Kind)
        ensures
            kind == self@.kind,
    {
        self.kind
    }

    /// What the caller is to do at the instant `now`.
    pub fn action(&self, now: u64) -> (action: Action)
        ensures
            self@.wf(),
            action@ == self@.action(now),
    {
        proof {
            use_type_invariant(self);
        }
        match &self.stage {
            Stage::Waiting { until } => Action::Wait {
                seconds: if *until > now {
                    *until - now
                } else {
                    0
                },
            },
            Stage::Fetching => Action::Fetch,
            Stage::Sending(dispatch) => match dispatch.pending() {
                Some(notice) => Action::Send(notice.clone()),
                None => Action::Stop,
            },
            Stage::Finished => Action::Stop,
        }
    }

    /// Where a cycle that ends at `now` leaves a task of this kind.
    fn rest(kind: Kind, interval: u64, report_hour: u8, now: u64) -> (stage: Stage)
        requires
            report_hour < 24,
        ensures
            stage@ == match kind {
                Kind::Monitor => StageView::Waiting { until: due(now, interval) },
                Kind::Report => StageView::Waiting {
                    until: due(now, report_wait(now, report_hour)),
                },
                Kind::Reply => StageView::Finished,
            },
    {
        match kind {
            Kind::Monitor => Stage::Waiting { until: due_after(now, interval) },
            Kind::Report => Stage::Waiting {
                until: due_after(now, seconds_until_report(now, report_hour)),
            },
            Kind::Reply => Stage::Finished,
        }
    }

    /// The task after `event`, reported at the instant `now`.
    pub fn step(self, event: Event, now: u64) -> (next: Task)
        ensures
            self@.wf(),
            next@ == self@.after(event@, now),
            next@.wf(),
    {
        proof {
            use_type_invariant(&self);
        }
        let ghost before = self@;
        let Task { kind, chat_id, threshold, interval, report_hour, stage } = self;
        let stage = match (stage, event) {
            (Stage::Waiting { until }, Event::Woke) => {
                if now >= until {
                    Stage::Fetching
                } else {
                    Stage::Waiting { until }
                }
            },
            (Stage::Fetching, Event::Fetched(Ok(records))) => {
                let dispatch = match kind {
                    Kind::Monitor => {
                        let low = records_below(&records, &threshold);
                        notify(chat_id, &low, &Mode::Warning(threshold.clone()))
                    },
                    _ => notify(chat_id, &records, &Mode::Normal),
                };
                assert(dispatch@ == Progress::start(before.batch(records.deep_view())));
                if dispatch.pending().is_none() {
                    Self::rest(kind, interval, report_hour, now)
                } else {
                    Stage::Sending(dispatch)
                }
            },
            (Stage::Fetching, Event::Fetched(Err(_))) => Self::rest(
                kind,
                interval,
                report_hour,
                now,
            ),
            (Stage::Sending(dispatch), Event::Sent(delivered)) => {
                let mut dispatch = dispatch;
                dispatch.record(delivered);
                if dispatch.pending().is_none() {
                    Self::rest(kind, interval, report_hour, now)
                } else {
                    Stage::Sending(dispatch)
                }
            },
            (stage, _) => stage,
        };
        Task { kind, chat_id, threshold, interval, report_hour, stage }
    }
}

/// Every step leaves the task well formed, and a task that repeats is
/// never over: whatever is reported to the monitor or the report, there is
/// a next thing to do.
pub proof fn lemma_step_keeps_going(task: TaskView, event: EventView, now: u64)
    requires
        task.wf(),
    ensures
        task.after(event, now).wf(),
        task.after(event, now).kind == task.kind,
        task.kind != Kind::Reply ==> task.after(event, now).action(now) != ActionView::Stop,
{
}

/// A cycle of a repeating task that fails, in the fetch or in a send, ends
/// in a wait like any other: the monitor is due again after its interval,
/// the report at the next stroke of its hour. Woken before that the task
/// asks for the rest of the wait; woken then or later it fetches again.
pub proof fn lemma_failure_is_survived(task: TaskView, event: EventView, now: u64, later: u64)
    requires
        task.wf(),
        task.kind != Kind::Reply,
        (task.stage is Fetching && event matches EventView::Fetched(Err(_))) || (
        task.stage is Sending && event == EventView::Sent(false)),
    ensures
        ({
            let until = if task.kind == Kind::Monitor {
                due(now, task.interval)
            } else {
                due(now, report_wait(now, task.report_hour))
            };
            let resting = task.after(event, now);
            &&& resting.stage == StageView::Waiting { until }
            &&& later < until ==> resting.action(later) == ActionView::Wait {
                seconds: (until - later) as u64,
            } && resting.after(EventView::Woke, later) == resting
            &&& later >= until ==> resting.after(EventView::Woke, later).stage
                == StageView::Fetching && resting.after(EventView::Woke, later).action(later)
                == ActionView::Fetch
        }),
{
}

/// A task that rests does nothing before it is due: until then it asks
/// for the rest of its wait whatever it is told, so that two cycles of the
/// monitor lie its interval apart and no second report follows before the
/// next stroke of the report hour. Short of the end of time, the monitor is
/// due its interval after the cycle ended and the report on the stroke.
pub proof fn lemma_rest_is_kept(task: TaskView, now: u64, later: u64, event: EventView)
    requires
        task.wf(),
        task.kind != Kind::Reply,
        task.stage == task.rest(now),
    ensures
        ({
            let wait = if task.kind == Kind::Monitor {
                task.interval
            } else {
                report_wait(now, task.report_hour)
            };
            &&& task.stage == StageView::Waiting { until: due(now, wait) }
            &&& now + wait <= u64::MAX ==> due(now, wait) == now + wait
            &&& task.kind == Kind::Report ==> 0 < wait <= DAY
            &&& task.kind == Kind::Report && now + wait <= u64::MAX ==> report_clock(
                due(now, wait) as int,
            ) == task.report_hour * HOUR
            &&& later < due(now, wait) ==> task.after(event, later) == task && task.action(later)
                == ActionView::Wait { seconds: (due(now, wait) - later) as u64 }
        }),
{
    if task.kind == Kind::Report {
        lemma_report_wait(now, task.report_hour);
    }
}

/// The batch that follows a fetch holds one message for each reading the
/// task speaks of, in their order, each addressed to the task's chat; the
/// first of them is what the task asks to send.
pub proof fn lemma_fetched_batch(task: TaskView, readings: Seq<Reading>, now: u64)
    requires
        task.wf(),
        task.stage is Fetching,
    ensures
        task.batch(readings).len() == task.chosen(readings).len(),
        forall|i: int|
            0 <= i < task.batch(readings).len() ==> (#[trigger] task.batch(readings)[i]).chat_id
                == task.chat_id,
        task.batch(readings).len() > 0 ==> task.after(EventView::Fetched(Ok(readings)), now).stage
            == StageView::Sending(Progress::start(task.batch(readings))) && task.after(
            EventView::Fetched(Ok(readings)),
            now,
        ).action(now) == ActionView::Send(task.batch(readings)[0]),
        task.batch(readings).len() == 0 ==> task.after(EventView::Fetched(Ok(readings)), now).stage
            == task.rest(now),
{
}

} // verus!
