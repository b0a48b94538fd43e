//! What holds of the sending of an activity at all times.

use crate::activity;
use crate::send::{
    SendAction, SendActivityResult, SendEvent, SendPhase, SendSuccessInfo, SendView,
};
use vstd::prelude::*;

verus! {

/// Whether the task waits for a report that the activity needs no more sending.
pub open spec fn reports_end(task: SendView) -> bool {
    task.phase is ReportingSuccess || task.phase is GivingUp
}

/// The report that an action makes, if it makes one that the activity needs no more sending.
pub open spec fn end_report(action: SendAction) -> Option<SendSuccessInfo> {
    match action {
        SendAction::Report(SendActivityResult::Success(info)) => Some(info),
        SendAction::GiveUp { report: SendActivityResult::Success(info), .. } => Some(info),
        _ => None,
    }
}

/// Whether these events can happen to the task, one after the other.
pub open spec fn is_run(task: SendView, events: Seq<SendEvent>) -> bool
    decreases events.len(),
{
    events.len() > 0 ==> task.accepts(events.first()) && is_run(
        task.next(events.first()).0,
        events.drop_first(),
    )
}

/// The task after these events.
pub open spec fn after(task: SendView, events: Seq<SendEvent>) -> SendView
    decreases events.len(),
{
    if events.len() == 0 {
        task
    } else {
        after(task.next(events.first()).0, events.drop_first())
    }
}

/// How many reports that the activity needs no more sending reach the worker.
pub open spec fn end_reports(task: SendView, events: Seq<SendEvent>) -> nat
    decreases events.len(),
{
    if events.len() == 0 {
        0
    } else {
        end_reports(task.next(events.first()).0, events.drop_first()) + (if reports_end(task)
            && events.first() is Reported {
            1nat
        } else {
            0nat
        })
    }
}

/// A task stays well-formed, whatever happens.
pub proof fn law_task_stays_well_formed(task: SendView, event: SendEvent)
    requires
        task.wf(),
        task.accepts(event),
    ensures
        task.next(event).0.wf(),
{
}

/// A task that was not started is well-formed as soon as there is an inbox, and waits for its start.
pub proof fn law_new_task_waits_for_its_start(task: SendView)
    requires
        task.phase is Fresh,
        task.inboxes > 0,
    ensures
        task.wf(),
        task.accepts(SendEvent::Started),
{
}

/// A report that the activity needs no more sending names the activity that the task sends. It says
/// that it was skipped exactly if the task gives up.
pub proof fn law_end_report_names_the_activity(task: SendView, event: SendEvent)
    requires
        task.accepts(event),
    ensures
        reports_end(task.next(event).0) <==> end_report(task.next(event).1) is Some,
        end_report(task.next(event).1) matches Some(info) ==> {
            &&& info.activity_id == task.activity.id
            &&& info.was_skipped <==> task.next(event).0.phase is GivingUp
            &&& info.published == if info.was_skipped {
                None
            } else {
                Some(task.activity.published)
            }
        },
{
}

/// The worker is told at most once that an activity needs no more sending.
pub proof fn law_reported_at_most_once(task: SendView, events: Seq<SendEvent>)
    requires
        is_run(task, events),
    ensures
        end_reports(task, events) <= 1,
    decreases events.len(),
{
    if events.len() > 0 {
        let next = task.next(events.first()).0;
        law_reported_at_most_once(next, events.drop_first());
        if reports_end(task) && events.first() is Reported {
            reveal_with_fuel(is_run, 2);
            assert(next.phase is Finished);
            if events.drop_first().len() > 0 {
                assert(next.accepts(events.drop_first().first()));
            }
        }
    }
}

/// A task that comes to its end told the worker exactly once that the activity needs no more
/// sending, unless the worker is to stop, or reports do not reach it any more.
pub proof fn law_reported_in_the_end(task: SendView, events: Seq<SendEvent>)
    requires
        is_run(task, events),
        task.phase !is Finished,
        after(task, events).phase is Finished,
        forall|i: int|
            0 <= i < events.len() ==> (#[trigger] events[i]) !is NotReported && events[i] != (
            SendEvent::Slept { stopped: true }),
    ensures
        end_reports(task, events) == 1,
    decreases events.len(),
{
    reveal_with_fuel(is_run, 2);
    let next = task.next(events.first()).0;
    let rest = events.drop_first();
    assert(events.first() == events[0]);
    if next.phase is Finished {
        assert(reports_end(task) && events.first() is Reported);
        if rest.len() > 0 {
            assert(next.accepts(rest.first()));
        }
        assert(end_reports(next, rest) == 0);
    } else {
        assert forall|i: int| 0 <= i < rest.len() implies (#[trigger] rest[i]) !is NotReported
            && rest[i] != (SendEvent::Slept { stopped: true }) by {
            assert(rest[i] == events[i + 1]);
        }
        law_reported_in_the_end(next, rest);
    }
}

/// How many requests were answered.
pub open spec fn answered(events: Seq<SendEvent>) -> nat
    decreases events.len(),
{
    if events.len() == 0 {
        0
    } else {
        answered(events.drop_last()) + (if events.last() is Sent {
            1nat
        } else {
            0nat
        })
    }
}

/// How many requests were prepared, if any were.
pub open spec fn prepared(events: Seq<SendEvent>) -> Option<usize>
    decreases events.len(),
{
    if events.len() == 0 {
        None
    } else {
        match events.last() {
            SendEvent::Prepared { requests } => Some(requests),
            _ => prepared(events.drop_last()),
        }
    }
}

/// What is to be done after the event with this number in a run.
pub open spec fn action_at(task: SendView, events: Seq<SendEvent>, i: int) -> SendAction {
    after(task, events.take(i)).next(events[i]).1
}

/// Whether an action reports that the activity was sent.
pub open spec fn reports_success(action: SendAction) -> bool {
    action matches SendAction::Report(SendActivityResult::Success(_))
}

/// One event more is the next step of a run.
proof fn lemma_one_more(task: SendView, events: Seq<SendEvent>, i: int)
    requires
        is_run(task, events),
        0 <= i < events.len(),
    ensures
        after(task, events.take(i)).accepts(events[i]),
        after(task, events.take(i + 1)) == after(task, events.take(i)).next(events[i]).0,
        answered(events.take(i + 1)) == answered(events.take(i)) + (if events[i] is Sent {
            1nat
        } else {
            0nat
        }),
        prepared(events.take(i + 1)) == match events[i] {
            SendEvent::Prepared { requests } => Some(requests),
            _ => prepared(events.take(i)),
        },
    decreases events.len(),
{
    assert(events.take(i + 1).drop_last() == events.take(i));
    assert(events.take(i + 1).last() == events[i]);
    let rest = events.drop_first();
    let next = task.next(events.first()).0;
    if i == 0 {
        reveal_with_fuel(after, 2);
        assert(events.take(1).drop_first() == Seq::<SendEvent>::empty());
    } else {
        lemma_one_more(next, rest, i - 1);
        assert(events.take(i).drop_first() == rest.take(i - 1));
        assert(events.take(i + 1).drop_first() == rest.take(i));
    }
}

/// Where a task stands after so many events: how far it is with the requests.
proof fn lemma_requests_so_far(task: SendView, events: Seq<SendEvent>, i: int)
    requires
        task.phase is Fresh,
        is_run(task, events),
        0 <= i <= events.len(),
    ensures
        ({
            let so_far = events.take(i);
            match after(task, so_far).phase {
                SendPhase::Fresh | SendPhase::Preparing => answered(so_far) == 0 && prepared(so_far)
                    is None,
                SendPhase::Sending { request, requests, .. }
                | SendPhase::ReportingFailure { request, requests, .. }
                | SendPhase::Sleeping { request, requests, .. } => answered(so_far) == request
                    && request < requests && prepared(so_far) == Some(requests),
                SendPhase::ReportingSuccess => prepared(so_far) matches Some(requests) && answered(
                    so_far,
                ) == requests,
                _ => true,
            }
        }),
    decreases i,
{
    if i == 0 {
        assert(events.take(0) == Seq::<SendEvent>::empty());
    } else {
        lemma_requests_so_far(task, events, i - 1);
        lemma_one_more(task, events, i - 1);
    }
}

/// Once it was reported that the activity needs no more sending, the task only gives up or ends.
proof fn lemma_end_report_comes_last(task: SendView, events: Seq<SendEvent>, i: int, j: int)
    requires
        is_run(task, events),
        0 <= i < j <= events.len(),
        reports_end(after(task, events.take(i))) || after(task, events.take(i)).phase is Finished,
    ensures
        after(task, events.take(j)).phase is GivingUp || after(task, events.take(j)).phase
            is Finished,
    decreases j - i,
{
    if i + 1 < j {
        lemma_end_report_comes_last(task, events, i, j - 1);
    }
    lemma_one_more(task, events, j - 1);
}

/// A task stays with its activity.
proof fn lemma_activity_stays(task: SendView, events: Seq<SendEvent>, i: int)
    requires
        is_run(task, events),
        0 <= i <= events.len(),
    ensures
        after(task, events.take(i)).activity == task.activity,
    decreases i,
{
    if i == 0 {
        assert(events.take(0) == Seq::<SendEvent>::empty());
    } else {
        lemma_activity_stays(task, events, i - 1);
        lemma_one_more(task, events, i - 1);
    }
}

/// In every run of a task, the requests are sent one after the other: one of them is only sent
/// when exactly those before it were answered.
pub proof fn law_run_sends_in_order(task: SendView, events: Seq<SendEvent>, i: int)
    requires
        task.phase is Fresh,
        is_run(task, events),
        0 <= i < events.len(),
    ensures
        action_at(task, events, i) matches SendAction::Send { request } ==> {
            &&& answered(events.take(i + 1)) == request
            &&& prepared(events.take(i + 1)) matches Some(requests) && request < requests
        },
{
    lemma_one_more(task, events, i);
    lemma_requests_so_far(task, events, i + 1);
}

/// In every run of a task, success is only reported when all requests that were prepared are
/// answered.
pub proof fn law_run_succeeds_when_all_are_answered(task: SendView, events: Seq<SendEvent>, i: int)
    requires
        task.phase is Fresh,
        is_run(task, events),
        0 <= i < events.len(),
    ensures
        reports_success(action_at(task, events, i)) ==> {
            &&& action_at(task, events, i) == SendAction::Report(task.success())
            &&& prepared(events.take(i + 1)) matches Some(requests) && answered(events.take(i + 1))
                == requests
        },
{
    lemma_activity_stays(task, events, i);
    lemma_one_more(task, events, i);
    lemma_requests_so_far(task, events, i + 1);
}

/// In every run of a task, success is reported at most once and after all failures: once it was,
/// nothing is sent or reported any more. Only when the report could not be made, the task gives up
/// right after it.
pub proof fn law_run_reports_success_last(task: SendView, events: Seq<SendEvent>, i: int, j: int)
    requires
        is_run(task, events),
        0 <= i < j < events.len(),
        reports_success(action_at(task, events, i)),
    ensures
        action_at(task, events, j) !is Send,
        action_at(task, events, j) !is Report,
        action_at(task, events, j) is GiveUp <==> j == i + 1 && events[j] is NotReported,
        end_reports(task, events) <= 1,
{
    law_reported_at_most_once(task, events);
    lemma_one_more(task, events, i);
    lemma_one_more(task, events, j);
    if i + 1 < j {
        lemma_end_report_comes_last(task, events, i + 1, j);
    }
}

/// Success is reported only after every request was answered: the requests are sent one after the
/// other, each until it is answered.
pub proof fn law_success_needs_all_answers(task: SendView, event: SendEvent)
    requires
        task.wf(),
        task.accepts(event),
        task.next(event).0.phase is ReportingSuccess,
    ensures
        event == (SendEvent::Prepared { requests: 0 }) || (event is Sent && (task.phase matches
            SendPhase::Sending { request, requests, .. } && request + 1 == requests)),
{
}

/// A request that fails is reported with one more failure than before, and sent again after the
/// delay that so many failures call for. Neither the other requests nor their number change.
pub proof fn law_failed_request_is_retried(
    task: SendView,
    request: usize,
    requests: usize,
    fail_count: i32,
)
    requires
        task.phase == (SendPhase::Sending { request, requests, fail_count }),
        fail_count < i32::MAX,
    ensures
        ({
            let failures = (fail_count + 1) as i32;
            let (reporting, report) = task.next(SendEvent::NotSent);
            let (sleeping, sleep) = reporting.next(SendEvent::Reported);
            let (sending, send) = sleeping.next(SendEvent::Slept { stopped: false });
            &&& failures == fail_count + 1
            &&& report == SendAction::Report(SendActivityResult::Failure { fail_count: failures })
            &&& sleep == (SendAction::RetrySleep { fail_count: failures })
            &&& send == (SendAction::Send { request })
            &&& sending == (SendView {
                phase: SendPhase::Sending { request, requests, fail_count: failures },
                ..task
            })
        }),
{
}

/// Each request starts with the failures there were before the activity was sent, and is sent at
/// once.
pub proof fn law_request_starts_afresh(task: SendView, request: usize, requests: usize, fails: i32)
    requires
        task.phase == (SendPhase::Sending { request, requests, fail_count: fails }),
        request + 1 < requests,
    ensures
        task.next(SendEvent::Sent).0.phase == (SendPhase::Sending {
            request: (request + 1) as usize,
            requests,
            fail_count: task.initial_fail_count,
        }),
        task.next(SendEvent::Sent).1 == (SendAction::Send { request: (request + 1) as usize }),
{
}

/// The task ends only once the activity was sent and reported, or given up, or when the worker is to
/// stop. It is given up only for a reason other than a request that fails, which is retried without
/// end.
pub proof fn law_ends_only_for_a_reason(task: SendView, event: SendEvent)
    requires
        task.accepts(event),
    ensures
        task.next(event).0.phase is Finished <==> {
            ||| task.phase is ReportingSuccess && event is Reported
            ||| task.phase is GivingUp
            ||| task.phase is Sleeping && event == (SendEvent::Slept { stopped: true })
        },
        task.next(event).0.phase is GivingUp ==> {
            ||| event is Started && !task.activity.has_actor
            ||| event is NotPrepared
            ||| event is NotReported
        },
        event is NotSent ==> task.next(event).0.phase is ReportingFailure,
{
}

/// When the worker is to stop during the sleep after a failure, the task ends without a report.
pub proof fn law_stops_without_report(task: SendView)
    requires
        task.phase is Sleeping,
    ensures
        task.next(SendEvent::Slept { stopped: true }).0.phase is Finished,
        task.next(SendEvent::Slept { stopped: true }).1 is Finish,
{
}

/// The worker is told just what the task reports: of an activity that needs no more sending the same
/// number, the same time of publishing and whether it was skipped, and of a failure the same number
/// of failures. No two reports that differ are told alike.
pub proof fn law_worker_is_told_the_same(report: SendActivityResult, other: SendActivityResult)
    ensures
        match (report, report.spec_for_worker()) {
            (
                SendActivityResult::Success(info),
                activity::SendActivityResult::Success(told),
            ) => {
                &&& told.activity_id == info.activity_id
                &&& told.published == info.published
                &&& told.was_skipped == info.was_skipped
            },
            (
                SendActivityResult::Failure { fail_count },
                activity::SendActivityResult::Failure { fail_count: told },
            ) => told == fail_count,
            _ => false,
        },
        report.spec_for_worker() == other.spec_for_worker() ==> report == other,
{
}

/// When all requests of a task were answered, the worker is told that the activity arrived: it was
/// not skipped, and was published when it was.
pub proof fn law_worker_is_told_of_arrival(task: SendView, event: SendEvent)
    requires
        task.accepts(event),
        task.phase is Sending || task.phase is Preparing,
        task.next(event).0.phase is ReportingSuccess,
    ensures
        task.next(event).1 matches SendAction::Report(report)
            && report.spec_for_worker() matches activity::SendActivityResult::Success(told)
            && told.activity_id == task.activity.id && told.published == Some(
            task.activity.published,
        ) && !told.was_skipped,
{
}

/// When a task gives up, the worker is told that the activity was skipped, and not when it was
/// published.
pub proof fn law_worker_is_told_of_giving_up(task: SendView, event: SendEvent)
    requires
        task.accepts(event),
        task.next(event).0.phase is GivingUp,
    ensures
        task.next(event).1 matches SendAction::GiveUp { report, .. }
            && report.spec_for_worker() matches activity::SendActivityResult::Success(told)
            && told.activity_id == task.activity.id && told.published is None && told.was_skipped,
{
}

/// A task keeps its activity, its inboxes and the failures there were before it.
pub proof fn law_task_keeps_its_activity(task: SendView, event: SendEvent)
    requires
        task.accepts(event),
    ensures
        task.next(event).0.activity == task.activity,
        task.next(event).0.inboxes == task.inboxes,
        task.next(event).0.initial_fail_count == task.initial_fail_count,
{
}

/// A task starts by preparing the requests if it is known by whom the activity is, and gives up if
/// not. It gives up too when the requests cannot be prepared, and when a report cannot be made,
/// and in no other case. The error says which it was.
pub proof fn law_task_gives_up_for_its_reason(task: SendView, event: SendEvent)
    requires
        task.accepts(event),
        task.phase !is GivingUp,
    ensures
        event is Started && task.activity.has_actor ==> task.next(event).1 is Prepare && task.next(
            event,
        ).0.phase is Preparing,
        match task.next(event).1 {
            SendAction::GiveUp { error, .. } => {
                ||| error is NoActor && event is Started && !task.activity.has_actor
                ||| error is NotPrepared && event is NotPrepared
                ||| error is NotReported && event is NotReported
            },
            _ => !(event is Started && !task.activity.has_actor) && event !is NotPrepared
                && event !is NotReported,
        },
{
}

/// Once the requests are prepared, the first one is sent at once, with the failures there were
/// before. Without any there is nothing to send, and success is reported. After the answer to a
/// request the next one is sent, and after the last success is reported.
pub proof fn law_requests_follow_each_other(task: SendView, event: SendEvent)
    requires
        task.accepts(event),
        event is Prepared || event is Sent,
    ensures
        ({
            let (next, requests) = match (event, task.phase) {
                (SendEvent::Prepared { requests }, _) => (0int, requests),
                (_, SendPhase::Sending { request, requests, .. }) => (request + 1, requests),
                _ => (0int, 0usize),
            };
            if next < requests {
                &&& task.next(event).1 matches SendAction::Send { request } && request == next
                &&& task.next(event).0.phase matches SendPhase::Sending {
                    request,
                    requests: all,
                    fail_count,
                } && request == next && all == requests && fail_count == task.initial_fail_count
            } else {
                &&& reports_success(task.next(event).1)
                &&& task.next(event).0.phase is ReportingSuccess
            }
        }),
{
}

/// A failure is reported before the sleep, and the request is sent again after it. The number of
/// failures stays the same from the report until then, and is one more than before.
pub proof fn law_failures_are_counted_up(task: SendView, event: SendEvent)
    requires
        task.accepts(event),
    ensures
        match (task.phase, event) {
            (SendPhase::Sending { request, requests, fail_count }, SendEvent::NotSent) => {
                &&& task.next(event).1 matches SendAction::Report(
                    SendActivityResult::Failure { fail_count: told },
                ) && told == fail_count + 1
                &&& task.next(event).0.phase matches SendPhase::ReportingFailure {
                    request: same,
                    requests: all,
                    fail_count: kept,
                } && same == request && all == requests && kept == fail_count + 1
            },
            (
                SendPhase::ReportingFailure { request, requests, fail_count },
                SendEvent::Reported,
            ) => {
                &&& task.next(event).1 == (SendAction::RetrySleep { fail_count })
                &&& task.next(event).0.phase == (SendPhase::Sleeping {
                    request,
                    requests,
                    fail_count,
                })
            },
            (
                SendPhase::Sleeping { request, requests, fail_count },
                SendEvent::Slept { stopped: false },
            ) => {
                &&& task.next(event).1 == (SendAction::Send { request })
                &&& task.next(event).0.phase == (SendPhase::Sending {
                    request,
                    requests,
                    fail_count,
                })
            },
            _ => true,
        },
{
}

/// Whatever a task asks for, it takes the answer to that, and nothing else. Only where there would be
/// more failures than can be counted, it does not.
pub proof fn law_task_takes_the_answer_only(task: SendView, event: SendEvent, answer: SendEvent)
    requires
        task.accepts(event),
    ensures
        task.next(event).0.accepts(answer) <==> match (task.next(event).1, answer) {
            (SendAction::Prepare, SendEvent::Prepared { .. }) => true,
            (SendAction::Prepare, SendEvent::NotPrepared) => true,
            (SendAction::Send { .. }, SendEvent::Sent) => true,
            (SendAction::Send { .. }, SendEvent::NotSent) => task.next(event).0.phase
                matches SendPhase::Sending { fail_count, .. } && fail_count + 1 <= i32::MAX,
            (SendAction::Report(_), SendEvent::Reported) => true,
            (SendAction::Report(_), SendEvent::NotReported) => true,
            (SendAction::RetrySleep { .. }, SendEvent::Slept { .. }) => true,
            (SendAction::GiveUp { .. }, SendEvent::Reported) => true,
            (SendAction::GiveUp { .. }, SendEvent::NotReported) => true,
            _ => false,
        },
        task.phase is Fresh ==> (task.accepts(answer) <==> answer is Started),
        task.phase is GivingUp ==> task.next(event).1 is Finish,
{
}

} // verus!
