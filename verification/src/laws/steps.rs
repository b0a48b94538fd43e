//! What a step of a worker does, told by what it knows before and after.

use crate::activity::{ActivityId, SendActivityResult, SendSuccessInfo};
use crate::laws::worker::{is_run, WorkerStep};
use crate::queue::{FederationQueueState, Instance, QueueView, WorkerError};
use crate::time::{law_epoch_is_zero, nanos_between, Timestamp};
use crate::worker::{Phase, WorkerAction, WorkerEvent, WorkerView};
use vstd::prelude::*;

verus! {

/// The outcome of a step that asks for an action.
pub open spec fn asks(step: WorkerStep, action: WorkerAction) -> bool {
    step.outcome == Ok::<WorkerAction, WorkerError>(action)
}

/// A new worker knows the state and the instance that it was given, and nothing else: nothing is on
/// its way, no activity is known, and the state counts as saved at the Unix epoch.
pub proof fn law_new_worker_knows_only_its_state(
    instance: Instance,
    state: FederationQueueState,
    concurrent_sends: i64,
)
    ensures
        ({
            let worker = WorkerView::initial(instance, state, concurrent_sends);
            &&& worker.phase is Fresh
            &&& worker.wf()
            &&& worker.queue.instance == instance
            &&& worker.queue.state == state
            &&& worker.queue.concurrent_sends == concurrent_sends
            &&& worker.queue.in_flight == 0
            &&& worker.queue.successfuls.len() == 0
            &&& worker.queue.latest_id == 0
            &&& worker.queue.last_state_insert.spec_secs() == 0
            &&& worker.queue.last_state_insert.spec_nanos() == 0
        }),
{
    broadcast use vstd::multiset::group_multiset_axioms;

    law_epoch_is_zero();
}

/// An activity that is begun is one that is there: its number is at most the newest one that is
/// known of. It is the one after all that were sent or are being sent.
pub proof fn law_begins_only_what_is_there(worker: WorkerView, step: WorkerStep, next: WorkerView)
    requires
        step.leads(worker, next),
    ensures
        step.outcome matches Ok(WorkerAction::ReadActivity(id)) ==> {
            &&& id.0 <= next.queue.latest_id
            &&& worker.queue.state.last_successful_id matches Some(last) && id.0 == last.0
                + worker.queue.successfuls.len() + worker.queue.in_flight + 1
            &&& next.phase == (Phase::Activity { id })
        },
{
}

/// The newest activity that is known of is the one that was read last.
pub proof fn law_newest_is_the_last_one_read(worker: WorkerView, step: WorkerStep, next: WorkerView)
    requires
        step.leads(worker, next),
    ensures
        step.event matches WorkerEvent::LatestId(latest) ==> next.queue.latest_id == latest.0,
        step.event !is LatestId ==> next.queue.latest_id == worker.queue.latest_id,
{
}

/// When it was decided to send, the next activity is begun if it is there. If it is not, the newest
/// one is read, and if that was just done, the worker pauses, whatever else is on its way.
pub proof fn law_sends_what_is_there_or_pauses(
    worker: WorkerView,
    step: WorkerStep,
    next: WorkerView,
)
    requires
        step.leads(worker, next),
        step.event is CommunitiesUpdated || worker.phase is NextLatestId,
    ensures
        worker.queue.state.last_successful_id matches Some(last) && {
            let next_id = last.0 + worker.queue.successfuls.len() + worker.queue.in_flight + 1;
            if next_id <= next.queue.latest_id {
                step.outcome matches Ok(WorkerAction::ReadActivity(id)) && id.0 == next_id
            } else if step.event is LatestId {
                asks(step, WorkerAction::Pause) && next.phase is Pause
            } else {
                asks(step, WorkerAction::ReadLatestId) && (next.phase matches Phase::NextLatestId {
                    next_id: id,
                } && id.0 == next_id)
            }
        },
{
}

/// The worker pauses only right after it read that there is no newer activity.
pub proof fn law_pauses_only_after_a_look(worker: WorkerView, step: WorkerStep, next: WorkerView)
    requires
        step.leads(worker, next),
        asks(step, WorkerAction::Pause),
    ensures
        worker.queue.state.last_successful_id matches Some(last) && step.event
            matches WorkerEvent::LatestId(latest) && latest.0 < last.0
            + worker.queue.successfuls.len() + worker.queue.in_flight + 1,
        next.queue.in_flight == worker.queue.in_flight,
{
}

/// The newest activity when it was read for the last time, if it was.
pub open spec fn last_read(steps: Seq<WorkerStep>) -> Option<ActivityId>
    decreases steps.len(),
{
    if steps.len() == 0 {
        None
    } else {
        match steps.last().event {
            WorkerEvent::LatestId(latest) => Some(latest),
            _ => last_read(steps.drop_last()),
        }
    }
}

/// What was read last is what the worker knows, and it was read before the loop.
proof fn lemma_last_read(
    states: Seq<WorkerView>,
    steps: Seq<WorkerStep>,
    instance: Instance,
    state: FederationQueueState,
    concurrent_sends: i64,
    i: int,
)
    requires
        is_run(states, steps),
        states[0] == WorkerView::initial(instance, state, concurrent_sends),
        0 <= i < states.len(),
    ensures
        match last_read(steps.take(i)) {
            Some(latest) => states[i].queue.latest_id == latest.0,
            None => states[i].before_loop(),
        },
    decreases i,
{
    if i > 0 {
        lemma_last_read(states, steps, instance, state, concurrent_sends, i - 1);
        assert(steps.take(i).drop_last() == steps.take(i - 1));
        assert(steps.take(i).last() == steps[i - 1]);
        assert(steps[i - 1].leads(states[i - 1], states[i - 1 + 1]));
    }
}

/// In every run of a new worker, an activity is begun only after the newest one was read, and only
/// if it is not newer than that was when it was last read.
pub proof fn law_run_begins_only_what_was_read(
    states: Seq<WorkerView>,
    steps: Seq<WorkerStep>,
    instance: Instance,
    state: FederationQueueState,
    concurrent_sends: i64,
    i: int,
)
    requires
        is_run(states, steps),
        states[0] == WorkerView::initial(instance, state, concurrent_sends),
        0 <= i < steps.len(),
    ensures
        steps[i].outcome matches Ok(WorkerAction::ReadActivity(id)) ==> (last_read(
            steps.take(i + 1),
        ) matches Some(latest) && id.0 <= latest.0),
{
    assert(steps[i].leads(states[i], states[i + 1]));
    lemma_last_read(states, steps, instance, state, concurrent_sends, i);
    lemma_last_read(states, steps, instance, state, concurrent_sends, i + 1);
}

/// Before anything is sent, the failures in the state are looked at. Without one, the newest
/// activity is read at once. With one, it counts how long ago the last retry was, and nothing else.
/// The worker fails exactly where that is not known, or lies in the future.
pub proof fn law_start_looks_at_the_last_retry(
    worker: WorkerView,
    step: WorkerStep,
    next: WorkerView,
)
    requires
        step.leads(worker, next),
        step.event is Started,
    ensures
        next.queue == worker.queue,
        worker.queue.state.fail_count <= 0 ==> asks(step, WorkerAction::ReadLatestId)
            && next.phase is FirstLatestId,
        worker.queue.state.fail_count > 0 ==> match worker.queue.state.last_retry {
            None => step.outcome == Err::<WorkerAction, WorkerError>(WorkerError::LastRetryMissing),
            Some(last_retry) => {
                let elapsed = nanos_between(step.now, last_retry);
                if elapsed < 0 {
                    step.outcome == Err::<WorkerAction, WorkerError>(
                        WorkerError::LastRetryInFuture,
                    )
                } else if elapsed <= u128::MAX {
                    &&& asks(
                        step,
                        WorkerAction::FindRetryDelay { fail_count: worker.queue.state.fail_count },
                    )
                    &&& next.phase matches Phase::RetryDelay { elapsed_nanos } && elapsed_nanos
                        == elapsed
                } else {
                    true
                }
            },
        },
{
}

/// The same in seconds and nanoseconds, where neither time is within a leap second.
pub proof fn law_start_counts_the_seconds(
    worker: WorkerView,
    step: WorkerStep,
    next: WorkerView,
    last_retry: Timestamp,
)
    requires
        step.leads(worker, next),
        step.event is Started,
        worker.queue.state.fail_count > 0,
        worker.queue.state.last_retry == Some(last_retry),
        0 <= last_retry.spec_nanos() < 1_000_000_000,
        0 <= step.now.spec_nanos() < 1_000_000_000,
        -10_000_000_000_000 < last_retry.spec_secs() < 10_000_000_000_000,
        -10_000_000_000_000 < step.now.spec_secs() < 10_000_000_000_000,
    ensures
        ({
            let elapsed = (step.now.spec_secs() - last_retry.spec_secs()) * 1_000_000_000
                + step.now.spec_nanos() - last_retry.spec_nanos();
            &&& step.outcome is Ok <==> elapsed >= 0
            &&& step.outcome is Ok ==> (next.phase matches Phase::RetryDelay { elapsed_nanos }
                && elapsed_nanos == elapsed)
        }),
{
}

/// From the start to the first look at the newest activity, the whole delay passes that the
/// failures call for: what passed since the last retry and what is slept add up to it, unless more
/// passed already. Nothing is slept without need.
pub proof fn law_delay_since_last_retry_passes(
    fresh: WorkerView,
    start: WorkerStep,
    waiting: WorkerView,
    answer: WorkerStep,
    next: WorkerView,
    required: u128,
    last_retry: Timestamp,
)
    requires
        start.leads(fresh, waiting),
        start.event is Started,
        start.outcome is Ok,
        fresh.queue.state.fail_count > 0,
        fresh.queue.state.last_retry == Some(last_retry),
        nanos_between(start.now, last_retry) <= u128::MAX,
        answer.leads(waiting, next),
        answer.event == (WorkerEvent::RetryDelay { nanos: required }),
    ensures
        ({
            let elapsed = nanos_between(start.now, last_retry);
            match answer.outcome {
                Ok(WorkerAction::ReadLatestId) => elapsed >= required && next.phase
                    is FirstLatestId,
                Ok(WorkerAction::Sleep { nanos }) => elapsed < required && elapsed + nanos
                    == required && next.phase is FailSleep,
                _ => false,
            }
        }),
        next.queue == fresh.queue,
{
}

/// After the sleep that failures call for, the newest activity is read. When it was, a new instance
/// takes it for the last successful one, and the state is saved. Another instance goes on where it
/// was.
pub proof fn law_loop_is_entered(worker: WorkerView, step: WorkerStep, next: WorkerView)
    requires
        step.leads(worker, next),
    ensures
        worker.phase is FailSleep ==> asks(step, WorkerAction::ReadLatestId) && next.phase
            is FirstLatestId && next.queue == worker.queue,
        worker.phase is FirstLatestId ==> (step.event matches WorkerEvent::LatestId(latest) && (
        match worker.queue.state.last_successful_id {
            None => {
                &&& next.queue.state.last_successful_id == Some(latest)
                &&& asks(step, WorkerAction::SaveState(next.queue.state))
                &&& next.phase is Save
            },
            Some(last) => {
                &&& next.queue.state == worker.queue.state
                &&& asks(step, WorkerAction::Check)
                &&& next.phase is LoopHead
            },
        })),
{
}

/// At the head of the loop, the worker ends if it is to stop. Otherwise it waits for reports if the
/// last attempt failed and something is on its way, or if a thousand activities were sent out of
/// order, or as many are being sent as may be, or more than four reports wait. If none of this
/// holds, it goes on to send, and only then.
pub proof fn law_waits_for_reports_only_with_reason(
    worker: WorkerView,
    step: WorkerStep,
    next: WorkerView,
)
    requires
        step.leads(worker, next),
    ensures
        step.event matches WorkerEvent::Checked { stopped, waiting } ==> {
            let queue = worker.queue;
            let wait = (queue.in_flight != 0 && queue.state.fail_count > 0)
                || queue.successfuls.len() >= 1000 || queue.in_flight >= queue.concurrent_sends
                || waiting > 4;
            &&& next.queue == (QueueView {
                last_state_insert: if stopped {
                    step.now
                } else {
                    queue.last_state_insert
                },
                ..queue
            })
            &&& if stopped {
                asks(step, WorkerAction::SaveState(queue.state)) && next.phase is LastSave
            } else if wait {
                asks(step, WorkerAction::ReceiveReports { max: 1000 }) && next.phase == (
                Phase::Reports { force_write: false })
            } else {
                asks(step, WorkerAction::UpdateCommunities) && next.phase is Communities
            }
        },
        step.event !is Checked ==> !asks(step, WorkerAction::UpdateCommunities) && !(
        step.outcome matches Ok(WorkerAction::ReceiveReports { .. })),
{
}

/// The time of the last retry is that of the last report of more failures than were known, whatever
/// it was before. Nothing else changes it.
pub proof fn law_last_retry_is_the_last_new_failure(
    worker: WorkerView,
    step: WorkerStep,
    next: WorkerView,
)
    requires
        step.leads(worker, next),
    ensures
        (step.event matches WorkerEvent::Report(SendActivityResult::Failure { fail_count })
            && fail_count > worker.queue.state.fail_count) ==> next.queue.state.last_retry == Some(
            step.now,
        ),
        !(step.event matches WorkerEvent::Report(SendActivityResult::Failure { fail_count })
            && fail_count > worker.queue.state.fail_count) ==> next.queue.state.last_retry
            == worker.queue.state.last_retry,
{
}

/// A report of more failures than were known makes the state be saved after the reports, whatever
/// else is reported before that. Nothing else asks for this.
pub proof fn law_new_failure_is_remembered(worker: WorkerView, step: WorkerStep, next: WorkerView)
    requires
        step.leads(worker, next),
        step.event is Report || step.event is InstanceUpdated,
    ensures
        ({
            let before = match worker.phase {
                Phase::Reports { force_write } => force_write,
                Phase::InstanceUpdate { force_write } => force_write,
                _ => false,
            };
            let news = step.event matches WorkerEvent::Report(
                SendActivityResult::Failure { fail_count },
            ) && fail_count > worker.queue.state.fail_count;
            match next.phase {
                Phase::Reports { force_write } => force_write == (before || news) && asks(
                    step,
                    WorkerAction::NextReport,
                ),
                Phase::InstanceUpdate { force_write } => force_write == (before || news)
                    && step.event is Report && (step.outcome matches Ok(
                    WorkerAction::UpdateInstance { .. },
                )),
                _ => false,
            }
        }),
        step.event is InstanceUpdated ==> next.phase is Reports && next.queue == worker.queue,
{
}

/// The instance is marked as alive exactly when an activity arrived, and was not skipped, more than
/// a day after the instance was last known to be alive. That is when it was updated, or else when
/// it was published. The time that is noted is the present, and it is written to the database.
pub proof fn law_arrival_shows_life(worker: WorkerView, step: WorkerStep, next: WorkerView)
    requires
        step.leads(worker, next),
    ensures
        ({
            let instance = worker.queue.instance;
            let known = if instance.updated is Some {
                instance.updated->0
            } else {
                instance.published
            };
            let secs = step.now.spec_secs() - known.spec_secs();
            let arrived = step.event matches WorkerEvent::Report(SendActivityResult::Success(info))
                && !info.was_skipped;
            let news = arrived && (secs > 86_400 || (secs == 86_400 && step.now.spec_nanos()
                > known.spec_nanos()));
            &&& news ==> next.queue.instance.updated == Some(step.now) && asks(
                step,
                WorkerAction::UpdateInstance { updated: step.now },
            )
            &&& !news ==> next.queue.instance == instance && !(step.outcome matches Ok(
                WorkerAction::UpdateInstance { .. },
            ))
            &&& next.queue.instance.id == instance.id
            &&& next.queue.instance.domain == instance.domain
            &&& next.queue.instance.published == instance.published
        }),
{
}

/// The number of activities on their way grows by one when one is begun, and shrinks by one when
/// one is reported to need no more sending. A failure leaves it as it is, as the activity is sent
/// again.
pub proof fn law_sends_are_counted(worker: WorkerView, step: WorkerStep, next: WorkerView)
    requires
        step.leads(worker, next),
    ensures
        (step.outcome matches Ok(WorkerAction::ReadActivity(_))) ==> next.queue.in_flight
            == worker.queue.in_flight + 1,
        (step.event matches WorkerEvent::Report(SendActivityResult::Success(_)))
            ==> next.queue.in_flight == worker.queue.in_flight - 1,
        !(step.outcome matches Ok(WorkerAction::ReadActivity(_))) && !(
        step.event matches WorkerEvent::Report(SendActivityResult::Success(_)))
            ==> next.queue.in_flight == worker.queue.in_flight,
{
}

/// A report that an activity needs no more sending is kept as it is. Only what follows upon the last
/// successful activity leaves again, after the reports.
pub proof fn law_reports_are_kept(worker: WorkerView, step: WorkerStep, next: WorkerView)
    requires
        step.leads(worker, next),
    ensures
        step.event matches WorkerEvent::Report(SendActivityResult::Success(info)) ==> {
            &&& next.queue.successfuls.count(info) == worker.queue.successfuls.count(info) + 1
            &&& forall|s: SendSuccessInfo|
                s != info ==> #[trigger] next.queue.successfuls.count(s)
                    == worker.queue.successfuls.count(s)
        },
        !(step.event matches WorkerEvent::Report(SendActivityResult::Success(_))) && step.event
            !is ReportsHandled ==> next.queue.successfuls == worker.queue.successfuls,
{
    broadcast use vstd::multiset::group_multiset_axioms;

}

/// The last successful activity changes only when reports were handled, or when it is first known.
/// The time at which it was published changes only with the former.
pub proof fn law_last_successful_changes_only_with_reports(
    worker: WorkerView,
    step: WorkerStep,
    next: WorkerView,
)
    requires
        step.leads(worker, next),
        step.event !is ReportsHandled,
    ensures
        next.queue.state.last_successful_published_time
            == worker.queue.state.last_successful_published_time,
        worker.queue.state.last_successful_id is Some ==> next.queue.state.last_successful_id
            == worker.queue.state.last_successful_id,
        worker.queue.state.last_successful_id is None ==> next.queue.state.last_successful_id
            == match step.event {
            WorkerEvent::LatestId(latest) => Some(latest),
            _ => None,
        },
{
}

/// When the reports were handled, the last successful activity moved up by as many as were taken
/// out. For each number that it passed exactly one report was taken out, and for no other number.
/// The time of publishing is that in the report on the last one, even where it has none.
pub proof fn law_passed_reports_are_taken_out(
    worker: WorkerView,
    step: WorkerStep,
    next: WorkerView,
    id: int,
)
    requires
        step.leads(worker, next),
        step.event is ReportsHandled,
    ensures
        worker.queue.state.last_successful_id matches Some(last)
            && next.queue.state.last_successful_id matches Some(now_last) && {
            let (before, after) = (worker.queue.successfuls, next.queue.successfuls);
            &&& before.len() - after.len() == now_last.0 - last.0
            &&& now_last.0 >= last.0
            &&& last.0 < id <= now_last.0 ==> exists|taken: SendSuccessInfo|
                {
                    &&& taken.activity_id.0 == id
                    &&& #[trigger] before.count(taken) == after.count(taken) + 1
                    &&& forall|s: SendSuccessInfo|
                        s.activity_id.0 == id && s != taken ==> #[trigger] before.count(s)
                            == after.count(s)
                    &&& id == now_last.0 ==> next.queue.state.last_successful_published_time
                        == taken.published
                }
            &&& !(last.0 < id <= now_last.0) ==> forall|s: SendSuccessInfo|
                s.activity_id.0 == id ==> #[trigger] before.count(s) == after.count(s)
            &&& now_last.0 == last.0 ==> next.queue.state.last_successful_published_time
                == worker.queue.state.last_successful_published_time
        },
{
    broadcast use {vstd::multiset::group_multiset_axioms, vstd::seq_lib::to_multiset_contains};

    let rest = QueueView { last_state_insert: worker.queue.last_state_insert, ..next.queue };
    let run = choose|run: Seq<SendSuccessInfo>| worker.queue.without_run(run, rest);
    let last = worker.queue.state.last_successful_id->0;
    let (before, after) = (worker.queue.successfuls, next.queue.successfuls);
    run.to_multiset_ensures();
    assert(rest.successfuls == after);
    if run.len() > 0 {
        assert(run.last() == run[run.len() - 1]);
    }
    assert forall|s: SendSuccessInfo| #[trigger] before.count(s) == after.count(s)
        + run.to_multiset().count(s) by {}
    assert forall|s: SendSuccessInfo|
        s.activity_id.0 == id && !(0 <= id - last.0 - 1 < run.len() && s == run[id - last.0
            - 1]) implies #[trigger] run.to_multiset().count(s) == 0 by {
        if run.to_multiset().count(s) > 0 {
            assert(run.contains(s));
            let i = choose|i: int| 0 <= i < run.len() && run[i] == s;
            assert(run[i].id() == last.0 + 1 + i);
        }
    }
    if 0 <= id - last.0 - 1 < run.len() {
        let i = id - last.0 - 1;
        let taken = run[i];
        assert(taken.id() == id);
        lemma_counted_once(run, i);
        assert(before.count(taken) == after.count(taken) + 1);
    }
}

/// Where the numbers in a run differ, each report in it is there once.
proof fn lemma_counted_once(run: Seq<SendSuccessInfo>, i: int)
    requires
        0 <= i < run.len(),
        forall|a: int, b: int|
            0 <= a < b < run.len() ==> (#[trigger] run[a]).id() != (#[trigger] run[b]).id(),
    ensures
        run.to_multiset().count(run[i]) == 1,
{
    assert(run.no_duplicates());
    run.lemma_multiset_has_no_duplicates();
    broadcast use vstd::seq_lib::to_multiset_contains;

    assert(run.contains(run[i]));
    assert(run.to_multiset().count(run[i]) > 0);
}

/// When the reports were handled, the report with the smallest number that is left is not on the
/// activity right after the last successful one: nothing that could be passed is held back.
pub proof fn law_what_follows_is_not_left(
    worker: WorkerView,
    step: WorkerStep,
    next: WorkerView,
    left: SendSuccessInfo,
)
    requires
        step.leads(worker, next),
        step.event is ReportsHandled,
        next.queue.successfuls.contains(left),
        forall|s: SendSuccessInfo| #[trigger]
            next.queue.successfuls.contains(s) ==> left.activity_id.0 <= s.activity_id.0,
    ensures
        next.queue.state.last_successful_id matches Some(last) && left.activity_id.0 != last.0 + 1,
{
    assert(crate::heap::is_first(next.queue.successfuls, left));
}

/// After the reports, the state is saved if a new failure was among them, or if it was saved more
/// than a minute ago, and not otherwise.
pub proof fn law_saved_after_a_minute_or_failure(
    worker: WorkerView,
    step: WorkerStep,
    next: WorkerView,
    force_write: bool,
)
    requires
        step.leads(worker, next),
        step.event is ReportsHandled,
        worker.phase == (Phase::Reports { force_write }),
    ensures
        if force_write || nanos_between(step.now, worker.queue.last_state_insert)
            > 60_000_000_000 {
            asks(step, WorkerAction::SaveState(next.queue.state)) && next.phase is Save
        } else {
            asks(step, WorkerAction::Check) && next.phase is LoopHead
        },
{
}

/// The state counts as saved when the worker asks for that, and at no other time.
pub proof fn law_saves_are_noted(worker: WorkerView, step: WorkerStep, next: WorkerView)
    requires
        step.leads(worker, next),
    ensures
        (step.outcome matches Ok(WorkerAction::SaveState(_))) ==> next.queue.last_state_insert
            == step.now,
        !(step.outcome matches Ok(WorkerAction::SaveState(_)))
            ==> next.queue.last_state_insert == worker.queue.last_state_insert,
{
}

/// An activity that does not exist is skipped, and one without inboxes too. Of the latter it is
/// known when it was published. Any other is handed to a task, with the failures that are known.
pub proof fn law_activity_is_handed_on(worker: WorkerView, step: WorkerStep, next: WorkerView)
    requires
        step.leads(worker, next),
        worker.phase is Activity || worker.phase is Inboxes,
    ensures
        next.queue == worker.queue,
        match (worker.phase, step.event) {
            (Phase::Activity { id }, WorkerEvent::Activity(None)) => {
                &&& next.phase is Spawn
                &&& step.outcome matches Ok(
                    WorkerAction::Report(SendActivityResult::Success(info)),
                ) && info.activity_id == id && info.published is None && info.was_skipped
            },
            (Phase::Activity { id }, WorkerEvent::Activity(Some(published))) => {
                &&& next.phase == (Phase::Inboxes { id, published })
                &&& asks(step, WorkerAction::CollectInboxes(id))
            },
            (Phase::Inboxes { id, published }, WorkerEvent::Inboxes(count)) => {
                &&& next.phase is Spawn
                &&& count == 0 ==> (step.outcome matches Ok(
                    WorkerAction::Report(SendActivityResult::Success(info)),
                ) && info.activity_id == id && info.published == Some(published)
                    && info.was_skipped)
                &&& count > 0 ==> (step.outcome matches Ok(
                    WorkerAction::StartSend { activity_id, initial_fail_count },
                ) && activity_id == id && initial_fail_count == worker.queue.state.fail_count)
            },
            _ => false,
        },
{
}

/// After a pause, after an activity was handed on, and after the state was saved, the worker is back
/// at the head of the loop, with nothing changed.
pub proof fn law_returns_to_the_head(worker: WorkerView, step: WorkerStep, next: WorkerView)
    requires
        step.leads(worker, next),
        worker.phase is Pause || worker.phase is Spawn || worker.phase is Save,
    ensures
        next == (WorkerView { phase: Phase::LoopHead, ..worker }),
        asks(step, WorkerAction::Check),
{
}

/// Whatever the worker asks for, it takes the answer to that, and nothing else. Only where a number
/// or a date would leave its range, it does not.
pub proof fn law_takes_the_answer_only(
    worker: WorkerView,
    step: WorkerStep,
    next: WorkerView,
    event: WorkerEvent,
)
    requires
        step.leads(worker, next),
    ensures
        next.accepts(event) <==> match (step.outcome, event) {
            (Err(_), WorkerEvent::Started) => true,
            (Ok(WorkerAction::FindRetryDelay { .. }), WorkerEvent::RetryDelay { .. }) => true,
            (Ok(WorkerAction::Sleep { .. }), WorkerEvent::Slept) => true,
            (Ok(WorkerAction::Pause), WorkerEvent::Slept) => true,
            (Ok(WorkerAction::ReadLatestId), WorkerEvent::LatestId(_)) => true,
            (Ok(WorkerAction::SaveState(_)), WorkerEvent::Saved) => true,
            (Ok(WorkerAction::Check), WorkerEvent::Checked { .. }) => true,
            (Ok(WorkerAction::ReceiveReports { .. }), WorkerEvent::ReportsHandled) => true,
            (Ok(WorkerAction::NextReport), WorkerEvent::ReportsHandled) => true,
            (Ok(WorkerAction::ReceiveReports { .. }), WorkerEvent::Report(report)) => can_note(
                next.queue,
                report,
            ),
            (Ok(WorkerAction::NextReport), WorkerEvent::Report(report)) => can_note(
                next.queue,
                report,
            ),
            (Ok(WorkerAction::UpdateInstance { .. }), WorkerEvent::InstanceUpdated) => true,
            (Ok(WorkerAction::UpdateCommunities), WorkerEvent::CommunitiesUpdated) => {
                let len = next.queue.successfuls.len();
                &&& next.queue.state.last_successful_id matches Some(last) && {
                    &&& len <= i64::MAX
                    &&& last.0 + len <= i64::MAX
                    &&& i64::MIN <= last.0 + len + next.queue.in_flight
                    &&& last.0 + len + next.queue.in_flight + 1 <= i64::MAX
                }
            },
            (Ok(WorkerAction::ReadActivity(_)), WorkerEvent::Activity(_)) => true,
            (Ok(WorkerAction::CollectInboxes(_)), WorkerEvent::Inboxes(_)) => true,
            (Ok(WorkerAction::Report(_)), WorkerEvent::Spawned) => true,
            (Ok(WorkerAction::StartSend { .. }), WorkerEvent::Spawned) => true,
            _ => false,
        },
{
}

/// Whether one less can be on its way, and there is a day after the instance was last known to be
/// alive.
pub open spec fn can_note(queue: QueueView, report: SendActivityResult) -> bool {
    report matches SendActivityResult::Success(info) ==> {
        let known = if queue.instance.updated is Some {
            queue.instance.updated->0
        } else {
            queue.instance.published
        };
        let end = 8_210_266_876_799int - 86_400;
        &&& queue.in_flight - 1 >= i64::MIN
        &&& info.was_skipped || known.spec_secs() < end || (known.spec_secs() == end
            && known.spec_nanos() < 1_000_000_000)
    }
}

/// A new worker waits for its start, and for nothing else.
pub proof fn law_new_worker_takes_its_start_only(
    instance: Instance,
    state: FederationQueueState,
    concurrent_sends: i64,
    event: WorkerEvent,
)
    ensures
        WorkerView::initial(instance, state, concurrent_sends).accepts(event) <==> event is Started,
{
}

} // verus!
