//! The worker of an instance.

use crate::activity::{skip, skipped, ActivityId, SendActivityResult};
use crate::queue::{
    fail_elapsed, initial_fail_sleep, FederationQueueState, Instance, QueueView, SendQueue,
    WorkerError,
};
use crate::time::{utc_now, Timestamp};
use vstd::prelude::*;

verus! {

/// With more reports than this waiting, they are handled before anything is sent.
pub const MAX_WAITING_REPORTS: usize = 4;

/// The most reports that are received at once.
pub const MAX_REPORTS: usize = 1000;

/// What a worker waits for.
#[derive(Clone, Copy, Debug, PartialEq, Eq)]
pub enum Phase {
    /// The start.
    Fresh,
    /// How long to wait after that many failures.
    RetryDelay { elapsed_nanos: u128 },
    /// The end of the sleep that earlier failures call for.
    FailSleep,
    /// The newest activity, before the loop.
    FirstLatestId,
    /// A look at whether to stop, at the head of the loop.
    LoopHead,
    /// A report, or the end of the reports.
    Reports { force_write: bool },
    /// The update of the instance, before the next report.
    InstanceUpdate { force_write: bool },
    /// The update of the communities, before the next activity is sent.
    Communities,
    /// The newest activity, as the next one to send may not be there yet.
    NextLatestId { next_id: ActivityId },
    /// The end of the pause when there is no activity to send.
    Pause,
    /// The next activity.
    Activity { id: ActivityId },
    /// The inboxes to send the activity to.
    Inboxes { id: ActivityId, published: Timestamp },
    /// The report or the send that was started.
    Spawn,
    /// The save of the state, before the head of the loop.
    Save,
    /// The last save of the state.
    LastSave,
    /// Nothing more.
    Finished,
}

/// What happened.
#[derive(Clone, Copy, Debug, PartialEq, Eq)]
pub enum WorkerEvent {
    /// The worker was started.
    Started,
    /// That many nanoseconds are to pass after the failures there were.
    RetryDelay { nanos: u128 },
    /// A sleep is over, or was cut short because the worker is to stop.
    Slept,
    /// The newest activity was read.
    LatestId(ActivityId),
    /// Whether the worker is to stop, and how many reports are waiting.
    Checked { stopped: bool, waiting: usize },
    /// A report was received.
    Report(SendActivityResult),
    /// All reports that were received are handled.
    ReportsHandled,
    /// The instance was updated.
    InstanceUpdated,
    /// The communities that are followed on the instance were updated.
    CommunitiesUpdated,
    /// The activity was read: when it was published, or that it does not exist.
    Activity(Option<Timestamp>),
    /// The number of inboxes to send the activity to was found out.
    Inboxes(usize),
    /// The report was made, or the send was started.
    Spawned,
    /// The state was saved.
    Saved,
}

/// What to do next. The worker is told when it is done.
#[derive(Clone, Copy, Debug, PartialEq, Eq)]
pub enum WorkerAction {
    /// Find out how long to wait after that many failures in a row.
    FindRetryDelay { fail_count: i32 },
    /// Sleep that long, or until the worker is to stop.
    Sleep { nanos: u128 },
    /// Read the number of the newest activity.
    ReadLatestId,
    /// Save the state, and tell the statistics about it.
    SaveState(FederationQueueState),
    /// Look whether the worker is to stop, and how many reports are waiting.
    Check,
    /// Wait for a report, and receive all there are, but not more than so many.
    ReceiveReports { max: usize },
    /// Hand over the next report that was received.
    NextReport,
    /// Write to the database that the instance was alive at that time.
    UpdateInstance { updated: Timestamp },
    /// Update the communities that are followed on the instance.
    UpdateCommunities,
    /// Pause until there may be new activities, or until the worker is to stop.
    Pause,
    /// Read an activity.
    ReadActivity(ActivityId),
    /// Find out the inboxes on the instance to send the activity to.
    CollectInboxes(ActivityId),
    /// Report this to the worker itself.
    Report(SendActivityResult),
    /// Start to send the activity, alongside the worker.
    StartSend { activity_id: ActivityId, initial_fail_count: i32 },
    /// Stop.
    Finish,
}

/// Sends the activities to one instance.
pub struct InstanceWorker {
    queue: SendQueue,
    phase: Phase,
}

/// What an [`InstanceWorker`] holds.
pub struct WorkerView {
    pub queue: QueueView,
    pub phase: Phase,
}

/// What to do with the next activity, once the newest one is known: begin to send it, or pause if
/// it is not there yet.
pub open spec fn next_activity(queue: QueueView, next_id: ActivityId) -> (WorkerView, WorkerAction) {
    if next_id.0 > queue.latest_id {
        (WorkerView { queue, phase: Phase::Pause }, WorkerAction::Pause)
    } else {
        (
            WorkerView {
                queue: QueueView { in_flight: queue.in_flight + 1, ..queue },
                phase: Phase::Activity { id: next_id },
            },
            WorkerAction::ReadActivity(next_id),
        )
    }
}

impl WorkerView {
    /// A worker that was not started yet.
    pub open spec fn initial(
        instance: Instance,
        state: FederationQueueState,
        concurrent_sends: i64,
    ) -> WorkerView {
        WorkerView {
            queue: QueueView::initial(instance, state, concurrent_sends),
            phase: Phase::Fresh,
        }
    }

    /// Whether the loop was entered, and not left.
    pub open spec fn in_loop(self) -> bool {
        match self.phase {
            Phase::LoopHead
            | Phase::Reports { .. }
            | Phase::InstanceUpdate { .. }
            | Phase::Communities
            | Phase::NextLatestId { .. }
            | Phase::Pause
            | Phase::Activity { .. }
            | Phase::Inboxes { .. }
            | Phase::Spawn
            | Phase::Save => true,
            _ => false,
        }
    }

    /// Whether the loop is still to be entered.
    pub open spec fn before_loop(self) -> bool {
        self.phase is Fresh || self.phase is RetryDelay || self.phase is FailSleep || self.phase
            is FirstLatestId
    }

    /// Whether it was decided to send the next activity.
    pub open spec fn is_sending(self) -> bool {
        self.phase is Communities || self.phase is NextLatestId
    }

    /// Before the loop nothing is on its way. In the loop it is known what was sent last, and it is
    /// only decided to send an activity when there is nothing to wait for.
    pub open spec fn wf(self) -> bool {
        &&& self.before_loop() ==> self.queue.in_flight == 0 && self.queue.successfuls.len() == 0
        &&& self.in_loop() ==> self.queue.state.last_successful_id is Some
        &&& self.is_sending() ==> !self.queue.need_wait()
        &&& self.phase matches Phase::NextLatestId { next_id } ==>
            self.queue.state.last_successful_id matches Some(last) && next_id.0
            == self.queue.highest_id(last) + 1
    }

    /// Whether the worker waits for this event, and no number leaves its range.
    pub open spec fn accepts(self, event: WorkerEvent) -> bool {
        match event {
            WorkerEvent::Started => self.phase is Fresh,
            WorkerEvent::RetryDelay { .. } => self.phase is RetryDelay,
            WorkerEvent::Slept => self.phase is FailSleep || self.phase is Pause,
            WorkerEvent::LatestId(_) => self.phase is FirstLatestId || self.phase is NextLatestId,
            WorkerEvent::Checked { .. } => self.phase is LoopHead,
            WorkerEvent::Report(result) => self.phase is Reports && self.queue.takes_result(result),
            WorkerEvent::ReportsHandled => self.phase is Reports,
            WorkerEvent::InstanceUpdated => self.phase is InstanceUpdate,
            WorkerEvent::CommunitiesUpdated => self.phase is Communities
                && self.queue.next_id_fits(),
            WorkerEvent::Activity(_) => self.phase is Activity,
            WorkerEvent::Inboxes(_) => self.phase is Inboxes,
            WorkerEvent::Spawned => self.phase is Spawn,
            WorkerEvent::Saved => self.phase is Save || self.phase is LastSave,
        }
    }

    /// Whether this is where the worker goes on to, with this queue and in this phase, and whether
    /// it asks for `action`.
    pub open spec fn goes_on(
        self,
        queue: QueueView,
        phase: Phase,
        action: WorkerAction,
        outcome: Result<WorkerAction, WorkerError>,
    ) -> bool {
        &&& self == (WorkerView { queue, phase })
        &&& outcome == Ok::<WorkerAction, WorkerError>(action)
    }

    /// Before the queue is started, the time that earlier failures call for has to pass.
    pub open spec fn starts(
        self,
        now: Timestamp,
        next: WorkerView,
        outcome: Result<WorkerAction, WorkerError>,
    ) -> bool {
        let queue = self.queue;
        match fail_elapsed(queue.state, now) {
            Err(error) => next == self && outcome == Err::<WorkerAction, WorkerError>(error),
            Ok(None) => next.goes_on(
                queue,
                Phase::FirstLatestId,
                WorkerAction::ReadLatestId,
                outcome,
            ),
            Ok(Some(elapsed_nanos)) => next.goes_on(
                queue,
                Phase::RetryDelay { elapsed_nanos },
                WorkerAction::FindRetryDelay { fail_count: queue.state.fail_count },
                outcome,
            ),
        }
    }

    /// At the head of the loop the worker stops, or handles reports, or sends an activity.
    pub open spec fn checks(
        self,
        stopped: bool,
        waiting: usize,
        now: Timestamp,
        next: WorkerView,
        outcome: Result<WorkerAction, WorkerError>,
    ) -> bool {
        let queue = self.queue;
        if stopped {
            next.goes_on(
                QueueView { last_state_insert: now, ..queue },
                Phase::LastSave,
                WorkerAction::SaveState(queue.state),
                outcome,
            )
        } else if queue.need_wait() || waiting > MAX_WAITING_REPORTS {
            next.goes_on(
                queue,
                Phase::Reports { force_write: false },
                WorkerAction::ReceiveReports { max: MAX_REPORTS },
                outcome,
            )
        } else {
            next.goes_on(queue, Phase::Communities, WorkerAction::UpdateCommunities, outcome)
        }
    }

    /// A report is noted, and the next one is asked for.
    pub open spec fn notes(
        self,
        force_write: bool,
        result: SendActivityResult,
        now: Timestamp,
        next: WorkerView,
        outcome: Result<WorkerAction, WorkerError>,
    ) -> bool {
        let queue = self.queue.with_result(result, now);
        let force_write = force_write || self.queue.news_of_failure(result);
        if self.queue.news_of_life(result, now) {
            next.goes_on(
                queue,
                Phase::InstanceUpdate { force_write },
                WorkerAction::UpdateInstance { updated: now },
                outcome,
            )
        } else {
            next.goes_on(queue, Phase::Reports { force_write }, WorkerAction::NextReport, outcome)
        }
    }

    /// After the reports, what was sent without a gap is taken out of the queue, and the state is
    /// saved if that is due.
    pub open spec fn pops(
        self,
        force_write: bool,
        now: Timestamp,
        next: WorkerView,
        outcome: Result<WorkerAction, WorkerError>,
    ) -> bool {
        let before = self.queue;
        let after = QueueView { last_state_insert: before.last_state_insert, ..next.queue };
        &&& before.popped(after)
        &&& if before.is_save_due(force_write, now) {
            next.goes_on(
                QueueView { last_state_insert: now, ..after },
                Phase::Save,
                WorkerAction::SaveState(after.state),
                outcome,
            )
        } else {
            next.goes_on(after, Phase::LoopHead, WorkerAction::Check, outcome)
        }
    }

    /// How the worker goes on when `event` happens at the time `now`: to the state `next`, and with
    /// the given outcome.
    pub open spec fn transition(
        self,
        event: WorkerEvent,
        now: Timestamp,
        next: WorkerView,
        outcome: Result<WorkerAction, WorkerError>,
    ) -> bool {
        let queue = self.queue;
        match (self.phase, event) {
            (Phase::Fresh, WorkerEvent::Started) => self.starts(now, next, outcome),
            (
                Phase::RetryDelay { elapsed_nanos },
                WorkerEvent::RetryDelay { nanos },
            ) => if elapsed_nanos >= nanos {
                next.goes_on(queue, Phase::FirstLatestId, WorkerAction::ReadLatestId, outcome)
            } else {
                next.goes_on(
                    queue,
                    Phase::FailSleep,
                    WorkerAction::Sleep { nanos: (nanos - elapsed_nanos) as u128 },
                    outcome,
                )
            },
            (Phase::FailSleep, WorkerEvent::Slept) => next.goes_on(
                queue,
                Phase::FirstLatestId,
                WorkerAction::ReadLatestId,
                outcome,
            ),
            (Phase::FirstLatestId, WorkerEvent::LatestId(latest)) => {
                let read = queue.with_latest(latest, now);
                if queue.state.last_successful_id is None {
                    next.goes_on(read, Phase::Save, WorkerAction::SaveState(read.state), outcome)
                } else {
                    next.goes_on(read, Phase::LoopHead, WorkerAction::Check, outcome)
                }
            },
            (Phase::LoopHead, WorkerEvent::Checked { stopped, waiting }) => self.checks(
                stopped,
                waiting,
                now,
                next,
                outcome,
            ),
            (Phase::Reports { force_write }, WorkerEvent::Report(result)) => self.notes(
                force_write,
                result,
                now,
                next,
                outcome,
            ),
            (Phase::Reports { force_write }, WorkerEvent::ReportsHandled) => self.pops(
                force_write,
                now,
                next,
                outcome,
            ),
            (Phase::InstanceUpdate { force_write }, WorkerEvent::InstanceUpdated) => next.goes_on(
                queue,
                Phase::Reports { force_write },
                WorkerAction::NextReport,
                outcome,
            ),
            (Phase::Communities, WorkerEvent::CommunitiesUpdated) => {
                &&& queue.state.last_successful_id matches Some(last) && {
                    let next_id = ActivityId((queue.highest_id(last) + 1) as i64);
                    if next_id.0 > queue.latest_id {
                        next.goes_on(
                            queue,
                            Phase::NextLatestId { next_id },
                            WorkerAction::ReadLatestId,
                            outcome,
                        )
                    } else {
                        let (view, action) = next_activity(queue, next_id);
                        next.goes_on(view.queue, view.phase, action, outcome)
                    }
                }
            },
            (Phase::NextLatestId { next_id }, WorkerEvent::LatestId(latest)) => {
                let (view, action) = next_activity(queue.with_latest(latest, now), next_id);
                next.goes_on(view.queue, view.phase, action, outcome)
            },
            (Phase::Activity { id }, WorkerEvent::Activity(None)) => next.goes_on(
                queue,
                Phase::Spawn,
                WorkerAction::Report(skipped(id, None)),
                outcome,
            ),
            (Phase::Activity { id }, WorkerEvent::Activity(Some(published))) => next.goes_on(
                queue,
                Phase::Inboxes { id, published },
                WorkerAction::CollectInboxes(id),
                outcome,
            ),
            (Phase::Inboxes { id, published }, WorkerEvent::Inboxes(count)) => next.goes_on(
                queue,
                Phase::Spawn,
                if count == 0 {
                    WorkerAction::Report(skipped(id, Some(published)))
                } else {
                    WorkerAction::StartSend {
                        activity_id: id,
                        initial_fail_count: queue.state.fail_count,
                    }
                },
                outcome,
            ),
            (Phase::Pause, WorkerEvent::Slept)
            | (Phase::Spawn, WorkerEvent::Spawned)
            | (Phase::Save, WorkerEvent::Saved) => next.goes_on(
                queue,
                Phase::LoopHead,
                WorkerAction::Check,
                outcome,
            ),
            (Phase::LastSave, WorkerEvent::Saved) => next.goes_on(
                queue,
                Phase::Finished,
                WorkerAction::Finish,
                outcome,
            ),
            _ => false,
        }
    }
}

impl View for InstanceWorker {
    type V = WorkerView;

    closed spec fn view(&self) -> WorkerView {
        WorkerView { queue: self.queue@, phase: self.phase }
    }
}

impl InstanceWorker {
    /// A worker for an instance whose state was read, which sends so many activities at once.
    pub fn new(instance: Instance, state: FederationQueueState, concurrent_sends: i64) -> (worker:
        InstanceWorker)
        ensures
            worker@.wf(),
            worker@ == WorkerView::initial(instance, state, concurrent_sends),
    {
        broadcast use vstd::multiset::group_multiset_axioms;

        InstanceWorker {
            queue: SendQueue::new(instance, state, concurrent_sends),
            phase: Phase::Fresh,
        }
    }

    pub fn queue(&self) -> (queue: &SendQueue)
        ensures
            queue@ == self@.queue,
    {
        &self.queue
    }

    pub fn phase(&self) -> (phase: Phase)
        ensures
            phase == self@.phase,
    {
        self.phase
    }

    /// Whether the worker waits for this event, and no number leaves its range.
    pub fn accepts(&self, event: &WorkerEvent) -> (accepts: bool)
        ensures
            accepts == self@.accepts(*event),
    {
        match (self.phase, event) {
            (Phase::Fresh, WorkerEvent::Started)
            | (Phase::RetryDelay { .. }, WorkerEvent::RetryDelay { .. })
            | (Phase::FailSleep, WorkerEvent::Slept)
            | (Phase::Pause, WorkerEvent::Slept)
            | (Phase::FirstLatestId, WorkerEvent::LatestId(_))
            | (Phase::NextLatestId { .. }, WorkerEvent::LatestId(_))
            | (Phase::LoopHead, WorkerEvent::Checked { .. })
            | (Phase::Reports { .. }, WorkerEvent::ReportsHandled)
            | (Phase::InstanceUpdate { .. }, WorkerEvent::InstanceUpdated)
            | (Phase::Activity { .. }, WorkerEvent::Activity(_))
            | (Phase::Inboxes { .. }, WorkerEvent::Inboxes(_))
            | (Phase::Spawn, WorkerEvent::Spawned)
            | (Phase::Save, WorkerEvent::Saved)
            | (Phase::LastSave, WorkerEvent::Saved) => true,
            (Phase::Reports { .. }, WorkerEvent::Report(result)) => self.queue.takes_result(result),
            (Phase::Communities, WorkerEvent::CommunitiesUpdated) => self.queue.next_id_fits(),
            _ => false,
        }
    }

    /// Goes on after something happened, by the time on the clock.
    pub fn step(&mut self, event: WorkerEvent) -> (outcome: Result<WorkerAction, WorkerError>)
        requires
            old(self)@.wf(),
            old(self)@.accepts(event),
        ensures
            final(self)@.wf(),
            exists|now: Timestamp|
                now.wf() && #[trigger] old(self)@.transition(event, now, final(self)@, outcome),
    {
        let now = utc_now();
        self.step_at(event, now)
    }

    /// Goes on after something happened at the time `now`.
    pub fn step_at(&mut self, event: WorkerEvent, now: Timestamp) -> (outcome: Result<
        WorkerAction,
        WorkerError,
    >)
        requires
            old(self)@.wf(),
            old(self)@.accepts(event),
        ensures
            final(self)@.wf(),
            old(self)@.transition(event, now, final(self)@, outcome),
    {
        match (self.phase, event) {
            (Phase::Fresh, WorkerEvent::Started) => match self.queue.fail_elapsed(now) {
                Err(error) => Err(error),
                Ok(None) => self.wait_for(Phase::FirstLatestId, WorkerAction::ReadLatestId),
                Ok(Some(elapsed_nanos)) => {
                    let fail_count: i32 = self.queue.state().fail_count;
                    self.wait_for(
                        Phase::RetryDelay { elapsed_nanos },
                        WorkerAction::FindRetryDelay { fail_count },
                    )
                },
            },
            (
                Phase::RetryDelay { elapsed_nanos },
                WorkerEvent::RetryDelay { nanos },
            ) => match initial_fail_sleep(elapsed_nanos, nanos) {
                Some(nanos) => self.wait_for(Phase::FailSleep, WorkerAction::Sleep { nanos }),
                None => self.wait_for(Phase::FirstLatestId, WorkerAction::ReadLatestId),
            },
            (Phase::FailSleep, WorkerEvent::Slept) => self.wait_for(
                Phase::FirstLatestId,
                WorkerAction::ReadLatestId,
            ),
            (
                Phase::FirstLatestId,
                WorkerEvent::LatestId(latest),
            ) => match self.queue.get_latest_id(latest, now) {
                Some(state) => self.wait_for(Phase::Save, WorkerAction::SaveState(state)),
                None => self.wait_for(Phase::LoopHead, WorkerAction::Check),
            },
            (Phase::LoopHead, WorkerEvent::Checked { stopped, waiting }) => {
                if stopped {
                    let state = self.queue.save_and_send_state(now);
                    self.wait_for(Phase::LastSave, WorkerAction::SaveState(state))
                } else if self.queue.need_wait_for_event() || waiting > MAX_WAITING_REPORTS {
                    self.wait_for(
                        Phase::Reports { force_write: false },
                        WorkerAction::ReceiveReports { max: MAX_REPORTS },
                    )
                } else {
                    self.wait_for(Phase::Communities, WorkerAction::UpdateCommunities)
                }
            },
            (Phase::Reports { force_write }, WorkerEvent::Report(result)) => {
                let (alive, failed) = self.queue.handle_send_result(result, now);
                let force_write = force_write || failed;
                match alive {
                    Some(updated) => self.wait_for(
                        Phase::InstanceUpdate { force_write },
                        WorkerAction::UpdateInstance { updated },
                    ),
                    None => self.wait_for(Phase::Reports { force_write }, WorkerAction::NextReport),
                }
            },
            (
                Phase::Reports { force_write },
                WorkerEvent::ReportsHandled,
            ) => match self.queue.pop_successfuls_and_write(force_write, now) {
                Some(state) => self.wait_for(Phase::Save, WorkerAction::SaveState(state)),
                None => self.wait_for(Phase::LoopHead, WorkerAction::Check),
            },
            (Phase::InstanceUpdate { force_write }, WorkerEvent::InstanceUpdated) => self.wait_for(
                Phase::Reports { force_write },
                WorkerAction::NextReport,
            ),
            (Phase::Communities, WorkerEvent::CommunitiesUpdated) => {
                let next_id = self.queue.next_id();
                if self.queue.is_ahead(next_id) {
                    self.wait_for(Phase::NextLatestId { next_id }, WorkerAction::ReadLatestId)
                } else {
                    self.send_or_pause(next_id)
                }
            },
            (Phase::NextLatestId { next_id }, WorkerEvent::LatestId(latest)) => {
                let _ = self.queue.get_latest_id(latest, now);
                self.send_or_pause(next_id)
            },
            (Phase::Activity { id }, WorkerEvent::Activity(activity)) => match activity {
                None => self.wait_for(Phase::Spawn, WorkerAction::Report(skip(id, None))),
                Some(published) => self.wait_for(
                    Phase::Inboxes { id, published },
                    WorkerAction::CollectInboxes(id),
                ),
            },
            (Phase::Inboxes { id, published }, WorkerEvent::Inboxes(count)) => {
                if count == 0 {
                    self.wait_for(Phase::Spawn, WorkerAction::Report(skip(id, Some(published))))
                } else {
                    let initial_fail_count: i32 = self.queue.state().fail_count;
                    self.wait_for(
                        Phase::Spawn,
                        WorkerAction::StartSend { activity_id: id, initial_fail_count },
                    )
                }
            },
            (Phase::LastSave, WorkerEvent::Saved) => self.wait_for(
                Phase::Finished,
                WorkerAction::Finish,
            ),
            _ => self.wait_for(Phase::LoopHead, WorkerAction::Check),
        }
    }

    /// Asks for `action`, and waits for what `phase` says.
    fn wait_for(&mut self, phase: Phase, action: WorkerAction) -> (outcome: Result<
        WorkerAction,
        WorkerError,
    >)
        ensures
            final(self)@ == (WorkerView { phase, ..old(self)@ }),
            outcome == Ok::<WorkerAction, WorkerError>(action),
    {
        self.phase = phase;
        Ok(action)
    }

    /// Begins to send the next activity, or pauses if it is not there yet.
    fn send_or_pause(&mut self, next_id: ActivityId) -> (outcome: Result<WorkerAction, WorkerError>)
        requires
            old(self)@.queue.in_flight < i64::MAX,
        ensures
            (final(self)@, outcome) == ({
                let (view, action) = next_activity(old(self)@.queue, next_id);
                (view, Ok::<WorkerAction, WorkerError>(action))
            }),
    {
        if self.queue.is_ahead(next_id) {
            self.wait_for(Phase::Pause, WorkerAction::Pause)
        } else {
            self.queue.begin_send();
            self.wait_for(Phase::Activity { id: next_id }, WorkerAction::ReadActivity(next_id))
        }
    }
}

} // verus!
