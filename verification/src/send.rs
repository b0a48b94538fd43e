//! The sending of one activity, with as many attempts as it takes.

use crate::activity::{self, backwards, int_order, ActivityId};
use crate::time::Timestamp;
use core::cmp::Ordering;
use vstd::prelude::*;

verus! {

/// An activity that is to be sent.
#[derive(Clone, Copy, Debug, PartialEq, Eq)]
pub struct SentActivity {
    pub id: ActivityId,
    pub published: Timestamp,
    /// Whether it is known by whom the activity is. It is not for very old ones.
    pub has_actor: bool,
}

/// An activity that needs no more sending, as its task reports it.
#[derive(Clone, Copy, Debug, Eq)]
pub struct SendSuccessInfo {
    pub activity_id: ActivityId,
    /// When the activity was published, if it was found.
    pub published: Option<Timestamp>,
    /// Whether there was no way to send it.
    pub was_skipped: bool,
}

impl SendSuccessInfo {
    /// The number of the activity.
    pub open spec fn id(self) -> int {
        self.activity_id.number()
    }

    /// How two of them compare: backwards by the number of the activity, so that the first
    /// activity is the greatest one.
    pub fn cmp(&self, other: &SendSuccessInfo) -> (order: Ordering)
        ensures
            order == int_order(other.id(), self.id()),
    {
        backwards(self.activity_id, other.activity_id)
    }

    /// The same, as the worker keeps it.
    pub open spec fn spec_for_worker(self) -> activity::SendSuccessInfo {
        activity::SendSuccessInfo {
            activity_id: self.activity_id,
            published: self.published,
            was_skipped: self.was_skipped,
        }
    }
}

/// Two of them are equal when they are about the same activity.
impl PartialEq for SendSuccessInfo {
    fn eq(&self, other: &SendSuccessInfo) -> (same: bool) {
        self.activity_id == other.activity_id
    }
}

impl vstd::std_specs::cmp::PartialEqSpecImpl for SendSuccessInfo {
    open spec fn obeys_eq_spec() -> bool {
        true
    }

    open spec fn eq_spec(&self, other: &SendSuccessInfo) -> bool {
        self.activity_id == other.activity_id
    }
}

/// The order is backwards by the number of the activity, as in [`SendSuccessInfo::cmp`].
impl PartialOrd for SendSuccessInfo {
    fn partial_cmp(&self, other: &SendSuccessInfo) -> (order: Option<Ordering>) {
        Some(self.cmp(other))
    }
}

impl vstd::std_specs::cmp::PartialOrdSpecImpl for SendSuccessInfo {
    open spec fn obeys_partial_cmp_spec() -> bool {
        true
    }

    open spec fn partial_cmp_spec(&self, other: &SendSuccessInfo) -> Option<Ordering> {
        Some(int_order(other.id(), self.id()))
    }
}

/// What a task reports of the sending of its activity.
#[derive(Clone, Copy, Debug, PartialEq, Eq)]
pub enum SendActivityResult {
    /// The activity needs no more sending.
    Success(SendSuccessInfo),
    /// An attempt to send it failed, which makes so many failures in a row.
    Failure { fail_count: i32 },
}

impl SendActivityResult {
    /// What the worker is told by it.
    pub open spec fn spec_for_worker(self) -> activity::SendActivityResult {
        match self {
            SendActivityResult::Success(info) => activity::SendActivityResult::Success(
                info.spec_for_worker(),
            ),
            SendActivityResult::Failure { fail_count } => activity::SendActivityResult::Failure {
                fail_count,
            },
        }
    }

    /// What the worker is told by it: the same, in the worker's terms.
    pub fn for_worker(self) -> (result: activity::SendActivityResult)
        ensures
            result == self.spec_for_worker(),
    {
        match self {
            SendActivityResult::Success(info) => activity::SendActivityResult::Success(
                activity::SendSuccessInfo {
                    activity_id: info.activity_id,
                    published: info.published,
                    was_skipped: info.was_skipped,
                },
            ),
            SendActivityResult::Failure { fail_count } => activity::SendActivityResult::Failure {
                fail_count,
            },
        }
    }
}

/// Why an activity cannot be sent.
#[derive(Clone, Copy, Debug, PartialEq, Eq)]
pub enum SendError {
    /// The activity is so old that it is not known by whom it is.
    NoActor,
    /// The requests could not be prepared.
    NotPrepared,
    /// A report could not be made.
    NotReported,
}

/// What the task waits for.
#[derive(Clone, Copy, Debug, PartialEq, Eq)]
pub enum SendPhase {
    /// The start.
    Fresh,
    /// The requests.
    Preparing,
    /// The answer to a request, of so many.
    Sending { request: usize, requests: usize, fail_count: i32 },
    /// The report that the request failed.
    ReportingFailure { request: usize, requests: usize, fail_count: i32 },
    /// The end of the sleep after the request failed.
    Sleeping { request: usize, requests: usize, fail_count: i32 },
    /// The report that the activity was sent.
    ReportingSuccess,
    /// The report that the activity is given up.
    GivingUp,
    /// Nothing more.
    Finished,
}

/// What happened.
#[derive(Clone, Copy, Debug, PartialEq, Eq)]
pub enum SendEvent {
    /// The task was started.
    Started,
    /// So many requests were prepared, usually one.
    Prepared { requests: usize },
    /// The requests could not be prepared.
    NotPrepared,
    /// The request was answered.
    Sent,
    /// The request failed.
    NotSent,
    /// The report was made.
    Reported,
    /// The report could not be made.
    NotReported,
    /// The sleep is over, or was cut short because the worker is to stop.
    Slept { stopped: bool },
}

/// What to do next. The task is told when it is done.
#[derive(Clone, Copy, Debug, PartialEq, Eq)]
pub enum SendAction {
    /// Look up the actor, and prepare the requests to all inboxes.
    Prepare,
    /// Sign and send one of the requests.
    Send { request: usize },
    /// Report this to the worker.
    Report(SendActivityResult),
    /// Sleep for as long as that many failures in a row call for, or until the worker is to stop.
    RetrySleep { fail_count: i32 },
    /// Report to the worker that the activity is given up.
    GiveUp { error: SendError, report: SendActivityResult },
    /// Stop.
    Finish,
}

/// Sends one activity to the inboxes on an instance.
///
/// The first attempt is made at once. After a failure, the next one is delayed by the number of
/// failures there were before, and one more.
pub struct SendRetryTask {
    activity: SentActivity,
    inboxes: usize,
    initial_fail_count: i32,
    phase: SendPhase,
}

/// What a [`SendRetryTask`] holds.
pub struct SendView {
    pub activity: SentActivity,
    /// The number of inboxes that it is sent to.
    pub inboxes: usize,
    /// The number of failures in a row of other activities, when the task was started.
    pub initial_fail_count: i32,
    pub phase: SendPhase,
}

impl SendView {
    /// The report that the activity is given up.
    pub open spec fn given_up(self) -> SendActivityResult {
        SendActivityResult::Success(
            SendSuccessInfo { activity_id: self.activity.id, published: None, was_skipped: true },
        )
    }

    /// The report that the activity was sent.
    pub open spec fn success(self) -> SendActivityResult {
        SendActivityResult::Success(
            SendSuccessInfo {
                activity_id: self.activity.id,
                published: Some(self.activity.published),
                was_skipped: false,
            },
        )
    }

    /// There is an inbox to send to, and only a request that there is is being sent.
    pub open spec fn wf(self) -> bool {
        &&& self.inboxes > 0
        &&& match self.phase {
            SendPhase::Sending { request, requests, .. }
            | SendPhase::ReportingFailure { request, requests, .. }
            | SendPhase::Sleeping { request, requests, .. } => request < requests,
            _ => true,
        }
    }

    /// Whether the task waits for this event, and no number leaves its range.
    pub open spec fn accepts(self, event: SendEvent) -> bool {
        match (self.phase, event) {
            (SendPhase::Fresh, SendEvent::Started) => true,
            (SendPhase::Preparing, SendEvent::Prepared { .. }) => true,
            (SendPhase::Preparing, SendEvent::NotPrepared) => true,
            (SendPhase::Sending { .. }, SendEvent::Sent) => true,
            (SendPhase::Sending { fail_count, .. }, SendEvent::NotSent) => fail_count < i32::MAX,
            (SendPhase::ReportingFailure { .. }, SendEvent::Reported) => true,
            (SendPhase::ReportingFailure { .. }, SendEvent::NotReported) => true,
            (SendPhase::Sleeping { .. }, SendEvent::Slept { .. }) => true,
            (SendPhase::ReportingSuccess, SendEvent::Reported) => true,
            (SendPhase::ReportingSuccess, SendEvent::NotReported) => true,
            (SendPhase::GivingUp, SendEvent::Reported) => true,
            (SendPhase::GivingUp, SendEvent::NotReported) => true,
            _ => false,
        }
    }

    /// The requests from number `request` on are sent, or success is reported if there is none.
    pub open spec fn from_request(self, request: int, requests: usize) -> (SendPhase, SendAction) {
        if request < requests {
            (
                SendPhase::Sending {
                    request: request as usize,
                    requests,
                    fail_count: self.initial_fail_count,
                },
                SendAction::Send { request: request as usize },
            )
        } else {
            (SendPhase::ReportingSuccess, SendAction::Report(self.success()))
        }
    }

    /// What the task waits for after an event, and what is to be done, or why it fails.
    pub open spec fn attempt(self, event: SendEvent) -> Result<(SendPhase, SendAction), SendError> {
        match (self.phase, event) {
            (SendPhase::Fresh, SendEvent::Started) => if self.activity.has_actor {
                Ok((SendPhase::Preparing, SendAction::Prepare))
            } else {
                Err(SendError::NoActor)
            },
            (SendPhase::Preparing, SendEvent::Prepared { requests }) => Ok(
                self.from_request(0, requests),
            ),
            (SendPhase::Sending { request, requests, .. }, SendEvent::Sent) => Ok(
                self.from_request(request + 1, requests),
            ),
            (SendPhase::Sending { request, requests, fail_count }, SendEvent::NotSent) => {
                let fail_count = (fail_count + 1) as i32;
                Ok(
                    (
                        SendPhase::ReportingFailure { request, requests, fail_count },
                        SendAction::Report(SendActivityResult::Failure { fail_count }),
                    ),
                )
            },
            (
                SendPhase::ReportingFailure { request, requests, fail_count },
                SendEvent::Reported,
            ) => Ok(
                (
                    SendPhase::Sleeping { request, requests, fail_count },
                    SendAction::RetrySleep { fail_count },
                ),
            ),
            (
                SendPhase::Sleeping { request, requests, fail_count },
                SendEvent::Slept { stopped },
            ) => Ok(
                if stopped {
                    (SendPhase::Finished, SendAction::Finish)
                } else {
                    (
                        SendPhase::Sending { request, requests, fail_count },
                        SendAction::Send { request },
                    )
                },
            ),
            (SendPhase::ReportingSuccess, SendEvent::Reported) => Ok(
                (SendPhase::Finished, SendAction::Finish),
            ),
            (_, SendEvent::NotPrepared) => Err(SendError::NotPrepared),
            _ => Err(SendError::NotReported),
        }
    }

    /// How the task goes on after an event, and what is to be done. An activity whose sending fails
    /// is given up, and reported as skipped.
    pub open spec fn next(self, event: SendEvent) -> (SendView, SendAction) {
        if self.phase is GivingUp {
            (SendView { phase: SendPhase::Finished, ..self }, SendAction::Finish)
        } else {
            match self.attempt(event) {
                Ok((phase, action)) => (SendView { phase, ..self }, action),
                Err(error) => (
                    SendView { phase: SendPhase::GivingUp, ..self },
                    SendAction::GiveUp { error, report: self.given_up() },
                ),
            }
        }
    }
}

impl View for SendRetryTask {
    type V = SendView;

    closed spec fn view(&self) -> SendView {
        SendView {
            activity: self.activity,
            inboxes: self.inboxes,
            initial_fail_count: self.initial_fail_count,
            phase: self.phase,
        }
    }
}

impl SendRetryTask {
    /// A task that sends the activity to that many inboxes, after so many failures in a row of
    /// other activities.
    pub fn new(activity: SentActivity, inboxes: usize, initial_fail_count: i32) -> (task:
        SendRetryTask)
        requires
            inboxes > 0,
        ensures
            task@ == (SendView { activity, inboxes, initial_fail_count, phase: SendPhase::Fresh }),
            task@.wf(),
    {
        SendRetryTask { activity, inboxes, initial_fail_count, phase: SendPhase::Fresh }
    }

    pub fn inboxes(&self) -> (inboxes: usize)
        ensures
            inboxes == self@.inboxes,
    {
        self.inboxes
    }

    pub fn phase(&self) -> (phase: SendPhase)
        ensures
            phase == self@.phase,
    {
        self.phase
    }

    /// Whether the task waits for this event, and no number leaves its range.
    pub fn accepts(&self, event: &SendEvent) -> (accepts: bool)
        ensures
            accepts == self@.accepts(*event),
    {
        match (self.phase, event) {
            (SendPhase::Fresh, SendEvent::Started)
            | (SendPhase::Preparing, SendEvent::Prepared { .. })
            | (SendPhase::Preparing, SendEvent::NotPrepared)
            | (SendPhase::Sending { .. }, SendEvent::Sent)
            | (SendPhase::ReportingFailure { .. }, SendEvent::Reported)
            | (SendPhase::ReportingFailure { .. }, SendEvent::NotReported)
            | (SendPhase::Sleeping { .. }, SendEvent::Slept { .. })
            | (SendPhase::ReportingSuccess, SendEvent::Reported)
            | (SendPhase::ReportingSuccess, SendEvent::NotReported)
            | (SendPhase::GivingUp, SendEvent::Reported)
            | (SendPhase::GivingUp, SendEvent::NotReported) => true,
            (SendPhase::Sending { fail_count, .. }, SendEvent::NotSent) => fail_count < i32::MAX,
            _ => false,
        }
    }

    /// Goes on after something happened, up to where the activity was sent, or the worker is to
    /// stop, or it fails for a reason other than a request that fails.
    pub fn send_retry_loop(&mut self, event: SendEvent) -> (outcome: Result<SendAction, SendError>)
        requires
            old(self)@.wf(),
            old(self)@.accepts(event),
            old(self)@.phase !is GivingUp,
        ensures
            final(self)@.wf(),
            match old(self)@.attempt(event) {
                Ok((phase, action)) => outcome == Ok::<SendAction, SendError>(action)
                    && final(self)@ == (SendView { phase, ..old(self)@ }),
                Err(error) => outcome == Err::<SendAction, SendError>(error) && final(self)@
                    == old(self)@,
            },
    {
        match (self.phase, event) {
            (SendPhase::Fresh, SendEvent::Started) => {
                if !self.activity.has_actor {
                    return Err(SendError::NoActor);
                }
                self.phase = SendPhase::Preparing;
                Ok(SendAction::Prepare)
            },
            (SendPhase::Preparing, SendEvent::Prepared { requests }) => Ok(
                self.send_from(0, requests),
            ),
            (SendPhase::Sending { request, requests, .. }, SendEvent::Sent) => Ok(
                self.send_from(request + 1, requests),
            ),
            (SendPhase::Sending { request, requests, fail_count }, SendEvent::NotSent) => {
                let fail_count: i32 = fail_count + 1;
                self.phase = SendPhase::ReportingFailure { request, requests, fail_count };
                Ok(SendAction::Report(SendActivityResult::Failure { fail_count }))
            },
            (
                SendPhase::ReportingFailure { request, requests, fail_count },
                SendEvent::Reported,
            ) => {
                self.phase = SendPhase::Sleeping { request, requests, fail_count };
                Ok(SendAction::RetrySleep { fail_count })
            },
            (
                SendPhase::Sleeping { request, requests, fail_count },
                SendEvent::Slept { stopped },
            ) => {
                if stopped {
                    self.phase = SendPhase::Finished;
                    Ok(SendAction::Finish)
                } else {
                    self.phase = SendPhase::Sending { request, requests, fail_count };
                    Ok(SendAction::Send { request })
                }
            },
            (SendPhase::ReportingSuccess, SendEvent::Reported) => {
                self.phase = SendPhase::Finished;
                Ok(SendAction::Finish)
            },
            (_, SendEvent::NotPrepared) => Err(SendError::NotPrepared),
            _ => Err(SendError::NotReported),
        }
    }

    /// Sends the requests from number `request` on, or reports success if there is none.
    fn send_from(&mut self, request: usize, requests: usize) -> (action: SendAction)
        ensures
            (final(self)@, action) == ({
                let (phase, action) = old(self)@.from_request(request as int, requests);
                (SendView { phase, ..old(self)@ }, action)
            }),
    {
        if request < requests {
            self.phase =
            SendPhase::Sending { request, requests, fail_count: self.initial_fail_count };
            SendAction::Send { request }
        } else {
            self.phase = SendPhase::ReportingSuccess;
            SendAction::Report(
                SendActivityResult::Success(
                    SendSuccessInfo {
                        activity_id: self.activity.id,
                        published: Some(self.activity.published),
                        was_skipped: false,
                    },
                ),
            )
        }
    }

    /// Goes on after something happened. An activity whose sending fails is given up.
    pub fn step(&mut self, event: SendEvent) -> (action: SendAction)
        requires
            old(self)@.wf(),
            old(self)@.accepts(event),
        ensures
            final(self)@.wf(),
            (final(self)@, action) == old(self)@.next(event),
    {
        if let SendPhase::GivingUp = self.phase {
            self.phase = SendPhase::Finished;
            return SendAction::Finish;
        }
        match self.send_retry_loop(event) {
            Ok(action) => action,
            Err(error) => {
                self.phase = SendPhase::GivingUp;
                let info = SendSuccessInfo {
                    activity_id: self.activity.id,
                    published: None,
                    was_skipped: true,
                };
                SendAction::GiveUp { error, report: SendActivityResult::Success(info) }
            },
        }
    }
}

} // verus!
