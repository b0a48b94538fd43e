//! What holds of the worker of an instance at all times.

use crate::activity::{ActivityId, SendActivityResult, SendSuccessInfo};
use crate::heap::is_first;
use crate::queue::{
    FederationQueueState, Instance, QueueView, WorkerError, MAX_SUCCESSFULS, SAVE_STATE_EVERY_NANOS,
};
use crate::time::{nanos_between, Timestamp};
use crate::worker::{Phase, WorkerAction, WorkerEvent, WorkerView};
use vstd::prelude::*;

verus! {

/// What happened to a worker, when, and what came of it.
pub struct WorkerStep {
    pub event: WorkerEvent,
    pub now: Timestamp,
    pub outcome: Result<WorkerAction, WorkerError>,
}

impl WorkerStep {
    /// Whether this can happen to a worker, and leaves it as `next`.
    pub open spec fn leads(self, worker: WorkerView, next: WorkerView) -> bool {
        &&& worker.wf()
        &&& worker.accepts(self.event)
        &&& worker.transition(self.event, self.now, next, self.outcome)
    }

    /// Whether an activity is begun to be sent.
    pub open spec fn begins_send(self) -> bool {
        self.outcome matches Ok(WorkerAction::ReadActivity(_))
    }

    /// The activity that is begun to be sent.
    pub open spec fn begun(self) -> int {
        match self.outcome {
            Ok(WorkerAction::ReadActivity(id)) => id.0 as int,
            _ => 0,
        }
    }

    /// Whether this is the report that the activity needs no more sending.
    pub open spec fn reports(self, id: int) -> bool {
        self.event matches WorkerEvent::Report(SendActivityResult::Success(info)) && info.id() == id
    }
}

/// The last activity up to which none needs more sending.
pub open spec fn last_id(queue: QueueView) -> int {
    match queue.state.last_successful_id {
        Some(last) => last.0 as int,
        None => 0,
    }
}

/// Whether the queue holds the report on this activity.
pub open spec fn holds(queue: QueueView, id: int) -> bool {
    exists|s: SendSuccessInfo| #[trigger] queue.successfuls.contains(s) && s.id() == id
}

/// A worker stays well-formed, whatever happens.
pub proof fn law_worker_stays_well_formed(worker: WorkerView, step: WorkerStep, next: WorkerView)
    requires
        step.leads(worker, next),
    ensures
        next.wf(),
{
}

/// What was taken out of the queue was in it, one activity of each number that was passed.
proof fn lemma_run_was_held(queue: QueueView, run: Seq<SendSuccessInfo>, rest: QueueView)
    requires
        queue.without_run(run, rest),
    ensures
        last_id(rest) == last_id(queue) + run.len(),
        rest.successfuls.len() + run.len() == queue.successfuls.len(),
        forall|i: int| 0 <= i < run.len() ==> queue.successfuls.contains(#[trigger] run[i]),
        forall|s: SendSuccessInfo|
            rest.successfuls.contains(s) ==> #[trigger] queue.successfuls.contains(s),
{
    broadcast use {vstd::multiset::group_multiset_axioms, vstd::seq_lib::to_multiset_contains};

    run.to_multiset_ensures();
    assert forall|i: int| 0 <= i < run.len() implies queue.successfuls.contains(
        #[trigger] run[i],
    ) by {
        assert(run.contains(run[i]));
        assert(run.to_multiset().count(run[i]) > 0);
    }
    if run.len() > 0 {
        assert(run.last() == run[run.len() - 1]);
    }
}

/// To take out what follows without a gap neither begins nor forgets a send.
proof fn lemma_pop_keeps_highest(queue: QueueView, rest: QueueView)
    requires
        queue.popped(rest),
    ensures
        queue.state.last_successful_id matches Some(last)
            && rest.state.last_successful_id matches Some(rest_last) && rest.highest_id(rest_last)
            == queue.highest_id(last),
        last_id(rest) >= last_id(queue),
        forall|id: int| last_id(queue) < id <= last_id(rest) ==> #[trigger] holds(queue, id),
        forall|s: SendSuccessInfo|
            rest.successfuls.contains(s) ==> #[trigger] queue.successfuls.contains(s),
{
    let run = choose|run: Seq<SendSuccessInfo>| queue.without_run(run, rest);
    lemma_run_was_held(queue, run, rest);
    assert forall|id: int| last_id(queue) < id <= last_id(rest) implies #[trigger] holds(
        queue,
        id,
    ) by {
        let i = id - last_id(queue) - 1;
        assert(run[i].id() == id);
        assert(queue.successfuls.contains(run[i]));
    }
}

/// Activities are begun to be sent in the order of their numbers, and none is left out: each one is
/// the one after the last that was begun. Nothing else changes which one that is.
pub proof fn law_sends_begin_in_order(worker: WorkerView, step: WorkerStep, next: WorkerView)
    requires
        step.leads(worker, next),
        worker.queue.state.last_successful_id is Some,
    ensures
        worker.queue.state.last_successful_id matches Some(last)
            && next.queue.state.last_successful_id matches Some(next_last) && {
            let highest = worker.queue.highest_id(last);
            if step.begins_send() {
                step.begun() == highest + 1 && next.queue.highest_id(next_last) == highest + 1
            } else {
                next.queue.highest_id(next_last) == highest
            }
        },
{
    broadcast use vstd::multiset::group_multiset_axioms;

    if worker.phase is Reports && step.event is ReportsHandled {
        let rest = QueueView {
            last_state_insert: worker.queue.last_state_insert,
            ..next.queue
        };
        lemma_pop_keeps_highest(worker.queue, rest);
        assert(next.queue.successfuls == rest.successfuls);
    }
}

/// An activity is only begun to be sent when there is nothing to wait for: fewer activities are
/// being sent than may be, there are not too many that were sent out of order, and the last attempt
/// did not fail unless it was the only one.
pub proof fn law_sends_begin_only_when_free(worker: WorkerView, step: WorkerStep, next: WorkerView)
    requires
        step.leads(worker, next),
        step.begins_send(),
    ensures
        worker.queue.in_flight < worker.queue.concurrent_sends,
        worker.queue.successfuls.len() < MAX_SUCCESSFULS,
        worker.queue.in_flight == 0 || worker.queue.state.fail_count <= 0,
{
}

/// The newest activity is read again, and the worker pauses, only when it has caught up: the next
/// activity to send is newer than the newest one that is known of.
pub proof fn law_pauses_only_when_caught_up(worker: WorkerView, step: WorkerStep, next: WorkerView)
    requires
        step.leads(worker, next),
        worker.in_loop(),
        step.outcome matches Ok(WorkerAction::ReadLatestId) || step.outcome matches Ok(
            WorkerAction::Pause,
        ),
    ensures
        worker.queue.state.last_successful_id matches Some(last) && worker.queue.highest_id(last)
            + 1 > next.queue.latest_id,
{
}

/// An activity is only handed to a task when there is an inbox to send it to. Otherwise it is
/// reported at once that it needs no sending. Either way it is the activity that was begun.
pub proof fn law_tasks_have_inboxes(
    worker: WorkerView,
    step: WorkerStep,
    next: WorkerView,
    id: ActivityId,
)
    requires
        step.leads(worker, next),
        (worker.phase matches Phase::Activity { id: begun } && begun == id) || (
        worker.phase matches Phase::Inboxes { id: begun, .. } && begun == id),
    ensures
        match step.outcome {
            Ok(WorkerAction::StartSend { activity_id, initial_fail_count }) => activity_id == id
                && initial_fail_count == worker.queue.state.fail_count && (
            step.event matches WorkerEvent::Inboxes(count) && count > 0),
            Ok(WorkerAction::Report(SendActivityResult::Success(info))) => info.activity_id == id
                && info.was_skipped && (step.event == WorkerEvent::Activity(None) || step.event
                == WorkerEvent::Inboxes(0)),
            Ok(WorkerAction::CollectInboxes(activity)) => activity == id && next.phase is Inboxes,
            _ => false,
        },
{
}

/// The last successful activity never goes back. Every activity that it passes was reported as
/// needing no more sending.
pub proof fn law_last_successful_passes_only_reported(
    worker: WorkerView,
    step: WorkerStep,
    next: WorkerView,
)
    requires
        step.leads(worker, next),
        worker.queue.state.last_successful_id is Some,
    ensures
        next.queue.state.last_successful_id is Some,
        last_id(next.queue) >= last_id(worker.queue),
        forall|id: int|
            last_id(worker.queue) < id <= last_id(next.queue) ==> #[trigger] holds(
                worker.queue,
                id,
            ),
{
    if worker.phase is Reports && step.event is ReportsHandled {
        let rest = QueueView {
            last_state_insert: worker.queue.last_state_insert,
            ..next.queue
        };
        lemma_pop_keeps_highest(worker.queue, rest);
    }
}

/// The account of all activities after the last successful one, where `flying` are those that are
/// being sent. Up to the last that was begun, each one is either being sent or reported, and never
/// both or twice.
pub open spec fn accounted(queue: QueueView, flying: Set<int>) -> bool {
    let last = last_id(queue);
    let highest = last + queue.successfuls.len() + queue.in_flight;
    &&& queue.state.last_successful_id is Some
    &&& flying.finite()
    &&& flying.len() == queue.in_flight
    &&& forall|id: int| #[trigger] flying.contains(id) ==> last < id <= highest && !holds(queue, id)
    &&& forall|s: SendSuccessInfo| #[trigger]
        queue.successfuls.contains(s) ==> last < s.id() <= highest && queue.successfuls.count(s)
            == 1
    &&& forall|s: SendSuccessInfo, t: SendSuccessInfo| #[trigger]
        queue.successfuls.contains(s) && #[trigger] queue.successfuls.contains(t) && s.id()
            == t.id() ==> s == t
    &&& forall|id: int|
        last < id <= highest ==> #[trigger] flying.contains(id) || holds(queue, id)
}

/// What is being sent after a step: what is begun comes to it, and what is reported leaves it.
pub open spec fn flying_after(flying: Set<int>, step: WorkerStep) -> Set<int> {
    match step.event {
        WorkerEvent::Report(SendActivityResult::Success(info)) => flying.remove(info.id()),
        _ => if step.begins_send() {
            flying.insert(step.begun())
        } else {
            flying
        },
    }
}

/// The account is opened when the worker reads the newest activity for the first time.
pub proof fn law_account_is_opened(worker: WorkerView, step: WorkerStep, next: WorkerView)
    requires
        step.leads(worker, next),
        worker.phase is FirstLatestId,
    ensures
        accounted(next.queue, Set::empty()),
{
    broadcast use vstd::multiset::group_multiset_axioms;

    assert forall|s: SendSuccessInfo| !#[trigger] next.queue.successfuls.contains(s) by {}
}

/// The account stays right, as long as only what is being sent is reported. So no activity is
/// begun twice, and none is lost between being begun and being passed by the last successful one.
pub proof fn law_account_is_kept(
    worker: WorkerView,
    step: WorkerStep,
    next: WorkerView,
    flying: Set<int>,
)
    requires
        step.leads(worker, next),
        accounted(worker.queue, flying),
        step.event matches WorkerEvent::Report(SendActivityResult::Success(info))
            ==> flying.contains(info.id()),
    ensures
        accounted(next.queue, flying_after(flying, step)),
        step.begins_send() ==> !flying.contains(step.begun()) && !holds(worker.queue, step.begun())
            && step.begun() > last_id(worker.queue),
{
    let queue = worker.queue;
    match step.event {
        WorkerEvent::Report(SendActivityResult::Success(info)) => {
            lemma_account_of_report(queue, next.queue, flying, info);
        },
        WorkerEvent::ReportsHandled => {
            let rest = QueueView { last_state_insert: queue.last_state_insert, ..next.queue };
            lemma_account_of_pop(queue, rest, flying);
            lemma_same_account(rest, next.queue, flying);
        },
        _ => {
            if step.begins_send() {
                law_sends_begin_in_order(worker, step, next);
                lemma_account_of_send(queue, next.queue, flying, step.begun());
            } else {
                lemma_same_account(queue, next.queue, flying);
            }
        },
    }
}

/// The account is only about the numbers.
proof fn lemma_same_account(queue: QueueView, next: QueueView, flying: Set<int>)
    requires
        accounted(queue, flying),
        next.successfuls == queue.successfuls,
        next.in_flight == queue.in_flight,
        next.state.last_successful_id == queue.state.last_successful_id,
    ensures
        accounted(next, flying),
{
    assert forall|id: int| holds(next, id) == #[trigger] holds(queue, id) by {}
    assert forall|id: int| #[trigger] flying.contains(id) implies last_id(next) < id <= last_id(
        next,
    ) + next.successfuls.len() + next.in_flight && !holds(next, id) by {
        assert(holds(next, id) == holds(queue, id));
    }
    assert forall|id: int|
        last_id(next) < id <= last_id(next) + next.successfuls.len()
            + next.in_flight implies #[trigger] flying.contains(id) || holds(next, id) by {
        assert(holds(next, id) == holds(queue, id));
    }
}

/// A send that is begun is accounted for.
proof fn lemma_account_of_send(queue: QueueView, next: QueueView, flying: Set<int>, id: int)
    requires
        accounted(queue, flying),
        id == last_id(queue) + queue.successfuls.len() + queue.in_flight + 1,
        next.successfuls == queue.successfuls,
        next.in_flight == queue.in_flight + 1,
        next.state.last_successful_id == queue.state.last_successful_id,
    ensures
        accounted(next, flying.insert(id)),
        !flying.contains(id),
        !holds(queue, id),
{
    assert(!flying.contains(id));
    assert(!holds(queue, id));
    let flown = flying.insert(id);
    assert forall|i: int| #[trigger] flown.contains(i) implies last_id(next) < i <= last_id(next)
        + next.successfuls.len() + next.in_flight && !holds(next, i) by {
        if i != id {
            assert(flying.contains(i));
            assert(!holds(queue, i));
        }
        if holds(next, i) {
            let s = choose|s: SendSuccessInfo| #[trigger]
                next.successfuls.contains(s) && s.id() == i;
            assert(queue.successfuls.contains(s));
            assert(holds(queue, i));
        }
    }
    assert forall|i: int|
        last_id(next) < i <= last_id(next) + next.successfuls.len()
            + next.in_flight implies #[trigger] flown.contains(i) || holds(next, i) by {
        if i != id {
            assert(flying.contains(i) || holds(queue, i));
            if holds(queue, i) {
                let s = choose|s: SendSuccessInfo| #[trigger]
                    queue.successfuls.contains(s) && s.id() == i;
                assert(next.successfuls.contains(s));
            }
        }
    }
}

/// A report moves an activity from those that are being sent to those that are held.
proof fn lemma_account_of_report(
    queue: QueueView,
    next: QueueView,
    flying: Set<int>,
    info: SendSuccessInfo,
)
    requires
        accounted(queue, flying),
        flying.contains(info.id()),
        next.successfuls == queue.successfuls.insert(info),
        next.in_flight == queue.in_flight - 1,
        next.state.last_successful_id == queue.state.last_successful_id,
    ensures
        accounted(next, flying.remove(info.id())),
{
    broadcast use vstd::multiset::group_multiset_axioms;

    let left = flying.remove(info.id());
    assert(!holds(queue, info.id()));
    assert(!queue.successfuls.contains(info));
    assert(next.successfuls.contains(info));
    assert(next.successfuls.len() == queue.successfuls.len() + 1);
    assert forall|s: SendSuccessInfo| #[trigger] next.successfuls.contains(s) implies s == info || (
    queue.successfuls.contains(s) && s.id() != info.id()) by {
        if s != info {
            assert(queue.successfuls.contains(s));
            if s.id() == info.id() {
                assert(holds(queue, info.id()));
            }
        }
    }
    assert forall|s: SendSuccessInfo| #[trigger] queue.successfuls.contains(
        s,
    ) implies next.successfuls.contains(s) by {}
    assert forall|id: int| #[trigger] left.contains(id) implies last_id(next) < id <= last_id(next)
        + next.successfuls.len() + next.in_flight && !holds(next, id) by {
        assert(flying.contains(id));
        assert(!holds(queue, id));
        if holds(next, id) {
            let s = choose|s: SendSuccessInfo| #[trigger]
                next.successfuls.contains(s) && s.id() == id;
            assert(queue.successfuls.contains(s));
        }
    }
    assert forall|s: SendSuccessInfo| #[trigger] next.successfuls.contains(s) implies last_id(next)
        < s.id() <= last_id(next) + next.successfuls.len() + next.in_flight
        && next.successfuls.count(s) == 1 by {
        if s != info {
            assert(queue.successfuls.contains(s));
            assert(queue.successfuls.count(s) == 1);
        }
    }
    assert forall|id: int|
        last_id(next) < id <= last_id(next) + next.successfuls.len()
            + next.in_flight implies #[trigger] left.contains(id) || holds(next, id) by {
        if id != info.id() {
            assert(flying.contains(id) || holds(queue, id));
            if holds(queue, id) {
                let s = choose|s: SendSuccessInfo| #[trigger]
                    queue.successfuls.contains(s) && s.id() == id;
                assert(next.successfuls.contains(s));
            }
        }
    }
}

/// What the last successful activity passes needs no more accounting for.
proof fn lemma_account_of_pop(queue: QueueView, rest: QueueView, flying: Set<int>)
    requires
        accounted(queue, flying),
        queue.popped(rest),
    ensures
        accounted(rest, flying),
        !holds(rest, last_id(rest) + 1),
        !holds(queue, last_id(rest) + 1),
{
    broadcast use {vstd::multiset::group_multiset_axioms, vstd::seq_lib::to_multiset_contains};

    let run = choose|run: Seq<SendSuccessInfo>| queue.without_run(run, rest);
    lemma_run_was_held(queue, run, rest);
    assert forall|s: SendSuccessInfo| #[trigger] rest.successfuls.contains(s) implies s.id()
        > last_id(rest) && queue.successfuls.contains(s) && rest.successfuls.count(s) == 1 by {
        assert(queue.successfuls.contains(s));
        assert(queue.successfuls.count(s) == 1);
        if s.id() <= last_id(rest) {
            let i = s.id() - last_id(queue) - 1;
            assert(queue.successfuls.contains(run[i]));
            assert(run[i] == s);
            assert(run.contains(s));
            assert(run.to_multiset().count(s) > 0);
        }
    }
    assert forall|id: int| id > last_id(rest) && #[trigger] holds(queue, id) implies holds(
        rest,
        id,
    ) by {
        let s = choose|s: SendSuccessInfo| #[trigger]
            queue.successfuls.contains(s) && s.id() == id;
        if run.to_multiset().count(s) > 0 {
            assert(run.contains(s));
            let i = choose|i: int| 0 <= i < run.len() && run[i] == s;
            assert(run[i].id() == last_id(queue) + 1 + i);
        }
        assert(rest.successfuls.contains(s));
    }
    assert forall|id: int| #[trigger] flying.contains(id) implies last_id(rest) < id <= last_id(
        rest,
    ) + rest.successfuls.len() + rest.in_flight && !holds(rest, id) by {
        assert(!holds(queue, id));
        if id <= last_id(rest) {
            let i = id - last_id(queue) - 1;
            assert(queue.successfuls.contains(run[i]));
            assert(run[i].id() == id);
        }
        if holds(rest, id) {
            let s = choose|s: SendSuccessInfo| #[trigger]
                rest.successfuls.contains(s) && s.id() == id;
            assert(queue.successfuls.contains(s));
        }
    }
    assert forall|id: int|
        last_id(rest) < id <= last_id(rest) + rest.successfuls.len()
            + rest.in_flight implies #[trigger] flying.contains(id) || holds(rest, id) by {
        assert(flying.contains(id) || holds(queue, id));
    }
    let id = last_id(rest) + 1;
    if holds(rest, id) {
        let s = choose|s: SendSuccessInfo| #[trigger] rest.successfuls.contains(s) && s.id() == id;
        assert(is_first(rest.successfuls, s));
    }
}

/// After the reports were handled, nothing is held back that the last successful activity could
/// pass, as long as the account is right: it passed all that was reported without a gap.
pub proof fn law_nothing_is_held_back(
    worker: WorkerView,
    step: WorkerStep,
    next: WorkerView,
    flying: Set<int>,
)
    requires
        step.leads(worker, next),
        step.event is ReportsHandled,
        accounted(worker.queue, flying),
    ensures
        !holds(worker.queue, last_id(next.queue) + 1),
        !holds(next.queue, last_id(next.queue) + 1),
{
    let rest = QueueView { last_state_insert: worker.queue.last_state_insert, ..next.queue };
    lemma_account_of_pop(worker.queue, rest, flying);
    if holds(next.queue, last_id(next.queue) + 1) {
        assert(holds(rest, last_id(rest) + 1));
    }
}

/// When everything that was begun is reported and handled, the last successful activity is the last
/// one that was begun.
pub proof fn law_everything_arrives(
    worker: WorkerView,
    step: WorkerStep,
    next: WorkerView,
    flying: Set<int>,
)
    requires
        step.leads(worker, next),
        step.event is ReportsHandled,
        accounted(worker.queue, flying),
        worker.queue.in_flight == 0,
    ensures
        next.queue.successfuls.len() == 0,
        last_id(next.queue) == last_id(worker.queue) + worker.queue.successfuls.len(),
{
    law_account_is_kept(worker, step, next, flying);
    law_nothing_is_held_back(worker, step, next, flying);
    law_sends_begin_in_order(worker, step, next);
    assert(flying =~= Set::empty());
    let id = last_id(next.queue) + 1;
    if next.queue.successfuls.len() > 0 {
        assert(!flying.contains(id));
        assert(holds(next.queue, id));
    }
}

/// The limits on what is on its way.
pub open spec fn within_limits(queue: QueueView) -> bool {
    &&& queue.in_flight >= 0
    &&& queue.in_flight == 0 || queue.in_flight <= queue.concurrent_sends
    &&& queue.in_flight + queue.successfuls.len() == 0 || queue.in_flight + queue.successfuls.len()
        < queue.concurrent_sends + MAX_SUCCESSFULS
}

/// Never more activities are being sent than may be, and the number of those that were sent out of
/// order stays within bounds, as long as only what is being sent is reported.
pub proof fn law_limits_are_kept(worker: WorkerView, step: WorkerStep, next: WorkerView)
    requires
        step.leads(worker, next),
        within_limits(worker.queue),
        step.event matches WorkerEvent::Report(SendActivityResult::Success(_))
            ==> worker.queue.in_flight > 0,
    ensures
        within_limits(next.queue),
{
    broadcast use vstd::multiset::group_multiset_axioms;

    if step.event is ReportsHandled {
        let rest = QueueView {
            last_state_insert: worker.queue.last_state_insert,
            ..next.queue
        };
        let run = choose|run: Seq<SendSuccessInfo>| worker.queue.without_run(run, rest);
        lemma_run_was_held(worker.queue, run, rest);
    }
}

/// A state that was not saved is never older than the time after which it is saved: whenever
/// reports were handled, it is saved, or was not long ago. It is saved at once when there is a new
/// failure.
pub proof fn law_state_is_saved_in_time(worker: WorkerView, step: WorkerStep, next: WorkerView)
    requires
        step.leads(worker, next),
        step.event is ReportsHandled,
    ensures
        nanos_between(step.now, next.queue.last_state_insert) <= SAVE_STATE_EVERY_NANOS,
        worker.phase == (Phase::Reports { force_write: true }) ==> step.outcome == Ok::<
            WorkerAction,
            WorkerError,
        >(WorkerAction::SaveState(next.queue.state)),
{
}

/// Whenever the worker asks for the state to be saved, it is the state as it then is, and the time
/// is noted.
pub proof fn law_saved_state_is_current(worker: WorkerView, step: WorkerStep, next: WorkerView)
    requires
        step.leads(worker, next),
        step.outcome matches Ok(WorkerAction::SaveState(_)),
    ensures
        step.outcome == Ok::<WorkerAction, WorkerError>(
            WorkerAction::SaveState(next.queue.state),
        ),
        next.queue.last_state_insert == step.now,
{
}

/// The worker ends by itself only after it was told to stop and its state was saved, and nothing
/// can happen to it then.
pub proof fn law_ends_only_when_stopped(worker: WorkerView, step: WorkerStep, next: WorkerView)
    requires
        step.leads(worker, next),
    ensures
        step.outcome == Ok::<WorkerAction, WorkerError>(WorkerAction::Finish) <==> worker.phase
            is LastSave,
        next.phase is LastSave <==> (step.event matches WorkerEvent::Checked { stopped, .. }
            && stopped),
        next.phase is LastSave ==> step.outcome == Ok::<WorkerAction, WorkerError>(
            WorkerAction::SaveState(next.queue.state),
        ),
        worker.phase is LastSave ==> next.queue == worker.queue && (forall|event: WorkerEvent|
            !next.accepts(event)),
{
}

/// A worker can only fail at its start, and then nothing was sent or changed.
pub proof fn law_fails_only_at_start(worker: WorkerView, step: WorkerStep, next: WorkerView)
    requires
        step.leads(worker, next),
        step.outcome is Err,
    ensures
        worker.phase is Fresh,
        worker.queue.state.fail_count > 0,
        next == worker,
{
}

/// The time that earlier failures call for passes before anything is done: either it has passed, or
/// the worker sleeps for what is left of it.
pub proof fn law_retry_delay_is_waited_for(
    worker: WorkerView,
    step: WorkerStep,
    next: WorkerView,
    elapsed: u128,
    required: u128,
)
    requires
        step.leads(worker, next),
        worker.phase == (Phase::RetryDelay { elapsed_nanos: elapsed }),
        step.event == (WorkerEvent::RetryDelay { nanos: required }),
    ensures
        match step.outcome {
            Ok(WorkerAction::ReadLatestId) => elapsed >= required,
            Ok(WorkerAction::Sleep { nanos }) => nanos > 0 && elapsed + nanos == required,
            _ => false,
        },
{
}

/// The number of failures in a row follows the reports: a success ends it, a failure never lowers
/// it, and nothing else changes it.
pub proof fn law_failures_follow_the_reports(worker: WorkerView, step: WorkerStep, next: WorkerView)
    requires
        step.leads(worker, next),
    ensures
        next.queue.state.fail_count == match step.event {
            WorkerEvent::Report(SendActivityResult::Success(_)) => 0,
            WorkerEvent::Report(SendActivityResult::Failure { fail_count }) => if fail_count
                > worker.queue.state.fail_count {
                fail_count
            } else {
                worker.queue.state.fail_count
            },
            _ => worker.queue.state.fail_count,
        },
{
}

/// A worker stays with its instance, and with the number of activities that it may send at once.
pub proof fn law_worker_keeps_its_instance(worker: WorkerView, step: WorkerStep, next: WorkerView)
    requires
        step.leads(worker, next),
    ensures
        next.queue.instance.id == worker.queue.instance.id,
        next.queue.instance.domain == worker.queue.instance.domain,
        next.queue.instance.published == worker.queue.instance.published,
        next.queue.concurrent_sends == worker.queue.concurrent_sends,
{
}

/// A run of a worker: its states, and what happened between them.
pub open spec fn is_run(states: Seq<WorkerView>, steps: Seq<WorkerStep>) -> bool {
    &&& states.len() == steps.len() + 1
    &&& forall|i: int|
        0 <= i < steps.len() ==> (#[trigger] steps[i]).leads(states[i], states[i + 1])
}

/// One step before, a run was a run too.
proof fn lemma_earlier_run(states: Seq<WorkerView>, steps: Seq<WorkerStep>)
    requires
        is_run(states, steps),
        steps.len() > 0,
    ensures
        is_run(states.drop_last(), steps.drop_last()),
        states.drop_last().last() == states[steps.len() - 1],
        states.drop_last()[0] == states[0],
        steps.last().leads(states[steps.len() - 1], states.last()),
{
    let before = states.drop_last();
    let earlier = steps.drop_last();
    assert forall|i: int| 0 <= i < earlier.len() implies (#[trigger] earlier[i]).leads(
        before[i],
        before[i + 1],
    ) by {
        assert(earlier[i] == steps[i]);
    }
    let n = steps.len() - 1;
    assert(steps[n].leads(states[n], states[n + 1]));
}

/// The activities that are begun to be sent in a run, in that order.
pub open spec fn begun_in(steps: Seq<WorkerStep>) -> Seq<int>
    decreases steps.len(),
{
    if steps.len() == 0 {
        Seq::empty()
    } else if steps.last().begins_send() {
        begun_in(steps.drop_last()).push(steps.last().begun())
    } else {
        begun_in(steps.drop_last())
    }
}

/// In every run, the activities that are begun to be sent are those that follow upon the last one
/// before it, without a gap and without one being begun twice.
pub proof fn law_run_sends_in_order(states: Seq<WorkerView>, steps: Seq<WorkerStep>)
    requires
        is_run(states, steps),
        states[0].queue.state.last_successful_id is Some,
    ensures
        states.last().queue.state.last_successful_id is Some,
        forall|i: int|
            0 <= i < begun_in(steps).len() ==> #[trigger] begun_in(steps)[i]
                == states[0].queue.highest_id(states[0].queue.state.last_successful_id->0) + 1 + i,
        states.last().queue.highest_id(states.last().queue.state.last_successful_id->0)
            == states[0].queue.highest_id(states[0].queue.state.last_successful_id->0) + begun_in(
            steps,
        ).len(),
    decreases steps.len(),
{
    if steps.len() > 0 {
        let before = states.drop_last();
        let earlier = steps.drop_last();
        lemma_earlier_run(states, steps);
        law_run_sends_in_order(before, earlier);
        let n = steps.len() - 1;
        assert(steps[n].leads(states[n], states[n + 1]));
        law_sends_begin_in_order(states[n], steps[n], states[n + 1]);
    }
}

/// In every run that starts with nothing on its way, each activity that the last successful one
/// passes was reported before.
pub proof fn law_run_passes_only_reported(states: Seq<WorkerView>, steps: Seq<WorkerStep>, id: int)
    requires
        is_run(states, steps),
        states[0].queue.state.last_successful_id is Some,
        states[0].queue.successfuls.len() == 0,
        last_id(states[0].queue) < id <= last_id(states.last().queue),
    ensures
        exists|i: int| 0 <= i < steps.len() && (#[trigger] steps[i]).reports(id),
{
    lemma_run_passes_only_reported(states, steps, id);
}

proof fn lemma_run_passes_only_reported(states: Seq<WorkerView>, steps: Seq<WorkerStep>, id: int)
    requires
        is_run(states, steps),
        states[0].queue.state.last_successful_id is Some,
        states[0].queue.successfuls.len() == 0,
    ensures
        states.last().queue.state.last_successful_id is Some,
        last_id(states[0].queue) <= last_id(states.last().queue),
        holds(states.last().queue, id) || last_id(states[0].queue) < id <= last_id(
            states.last().queue,
        ) ==> exists|i: int| 0 <= i < steps.len() && (#[trigger] steps[i]).reports(id),
    decreases steps.len(),
{
    broadcast use vstd::multiset::group_multiset_axioms;

    if steps.len() == 0 {
        assert forall|s: SendSuccessInfo| !#[trigger] states[0].queue.successfuls.contains(s) by {}
    } else {
        let before = states.drop_last();
        let earlier = steps.drop_last();
        lemma_earlier_run(states, steps);
        lemma_run_passes_only_reported(before, earlier, id);
        let n = steps.len() - 1;
        let step = steps[n];
        let (worker, next) = (states[n], states[n + 1]);
        assert(step.leads(worker, next));
        lemma_reported_or_held(worker, step, next, id);
        if holds(worker.queue, id) || last_id(states[0].queue) < id <= last_id(worker.queue) {
            let i = choose|i: int| 0 <= i < earlier.len() && (#[trigger] earlier[i]).reports(id);
            assert(steps[i].reports(id));
        } else if holds(next.queue, id) || last_id(states[0].queue) < id <= last_id(next.queue) {
            assert(steps[n].reports(id));
        }
    }
}

/// What the queue holds after a step, or the last successful activity passes in it, was held before
/// or is reported.
proof fn lemma_reported_or_held(worker: WorkerView, step: WorkerStep, next: WorkerView, id: int)
    requires
        step.leads(worker, next),
        worker.queue.state.last_successful_id is Some,
    ensures
        next.queue.state.last_successful_id is Some,
        last_id(worker.queue) <= last_id(next.queue),
        last_id(worker.queue) < id <= last_id(next.queue) ==> holds(worker.queue, id),
        holds(next.queue, id) ==> holds(worker.queue, id) || step.reports(id),
{
    broadcast use vstd::multiset::group_multiset_axioms;

    law_last_successful_passes_only_reported(worker, step, next);
    if holds(next.queue, id) && !holds(worker.queue, id) {
        let s = choose|s: SendSuccessInfo| #[trigger]
            next.queue.successfuls.contains(s) && s.id() == id;
        if step.event is ReportsHandled {
            let rest = QueueView {
                last_state_insert: worker.queue.last_state_insert,
                ..next.queue
            };
            lemma_pop_keeps_highest(worker.queue, rest);
            assert(worker.queue.successfuls.contains(s));
        }
        assert(!worker.queue.successfuls.contains(s));
    }
}

/// The newest activity when it was read for the first time, if it was.
pub open spec fn first_read(steps: Seq<WorkerStep>) -> Option<ActivityId>
    decreases steps.len(),
{
    if steps.len() == 0 {
        None
    } else if first_read(steps.drop_last()) is Some {
        first_read(steps.drop_last())
    } else {
        match steps.last().event {
            WorkerEvent::LatestId(latest) => Some(latest),
            _ => None,
        }
    }
}

/// The activity after which a run begins to send: the last successful one in the state that was
/// read. For an instance that is new it is the newest activity, once that was read.
pub open spec fn starting_point(state: FederationQueueState, steps: Seq<WorkerStep>) -> Option<
    ActivityId,
> {
    if state.last_successful_id is Some {
        state.last_successful_id
    } else {
        first_read(steps)
    }
}

/// As long as it is not known where a worker begins to send, it is before the loop, and nothing was
/// begun. From then on its last successful activity is known.
proof fn lemma_starting_point(
    states: Seq<WorkerView>,
    steps: Seq<WorkerStep>,
    instance: Instance,
    state: FederationQueueState,
    concurrent_sends: i64,
)
    requires
        is_run(states, steps),
        states[0] == WorkerView::initial(instance, state, concurrent_sends),
    ensures
        starting_point(state, steps) is Some
            <==> states.last().queue.state.last_successful_id is Some,
        starting_point(state, steps) is None ==> states.last().before_loop() && begun_in(
            steps,
        ).len() == 0,
    decreases steps.len(),
{
    if steps.len() > 0 {
        lemma_earlier_run(states, steps);
        lemma_starting_point(
            states.drop_last(),
            steps.drop_last(),
            instance,
            state,
            concurrent_sends,
        );
        let worker = states[steps.len() - 1];
        if worker.queue.state.last_successful_id is Some {
            law_last_successful_passes_only_reported(worker, steps.last(), states.last());
        }
    }
}

/// In every run of a new worker, the activities that are begun to be sent are those that follow upon
/// the starting point, without a gap and without one being begun twice. Nothing is begun before the
/// starting point is known.
pub proof fn law_run_from_start_sends_in_order(
    states: Seq<WorkerView>,
    steps: Seq<WorkerStep>,
    instance: Instance,
    state: FederationQueueState,
    concurrent_sends: i64,
)
    requires
        is_run(states, steps),
        states[0] == WorkerView::initial(instance, state, concurrent_sends),
    ensures
        match (starting_point(state, steps), states.last().queue.state.last_successful_id) {
            (None, None) => begun_in(steps).len() == 0,
            (Some(start), Some(last)) => {
                &&& forall|i: int|
                    0 <= i < begun_in(steps).len() ==> #[trigger] begun_in(steps)[i] == start.0 + 1
                        + i
                &&& states.last().queue.highest_id(last) == start.0 + begun_in(steps).len()
            },
            _ => false,
        },
    decreases steps.len(),
{
    lemma_starting_point(states, steps, instance, state, concurrent_sends);
    if steps.len() > 0 {
        let before = states.drop_last();
        let earlier = steps.drop_last();
        lemma_earlier_run(states, steps);
        lemma_starting_point(before, earlier, instance, state, concurrent_sends);
        law_run_from_start_sends_in_order(before, earlier, instance, state, concurrent_sends);
        let worker = states[steps.len() - 1];
        if worker.queue.state.last_successful_id is Some {
            law_sends_begin_in_order(worker, steps.last(), states.last());
        }
    }
}

/// In every run of a new worker, each activity after the starting point that the last successful one
/// passes was reported before. The last successful one is never before the starting point.
pub proof fn law_run_from_start_passes_only_reported(
    states: Seq<WorkerView>,
    steps: Seq<WorkerStep>,
    instance: Instance,
    state: FederationQueueState,
    concurrent_sends: i64,
    id: int,
)
    requires
        is_run(states, steps),
        states[0] == WorkerView::initial(instance, state, concurrent_sends),
    ensures
        match (starting_point(state, steps), states.last().queue.state.last_successful_id) {
            (None, None) => true,
            (Some(start), Some(last)) => {
                &&& start.0 <= last.0
                &&& start.0 < id <= last.0 ==> exists|i: int|
                    0 <= i < steps.len() && (#[trigger] steps[i]).reports(id)
            },
            _ => false,
        },
{
    lemma_run_from_start_passes_only_reported(
        states,
        steps,
        instance,
        state,
        concurrent_sends,
        id,
    );
}

proof fn lemma_run_from_start_passes_only_reported(
    states: Seq<WorkerView>,
    steps: Seq<WorkerStep>,
    instance: Instance,
    state: FederationQueueState,
    concurrent_sends: i64,
    id: int,
)
    requires
        is_run(states, steps),
        states[0] == WorkerView::initial(instance, state, concurrent_sends),
    ensures
        match (starting_point(state, steps), states.last().queue.state.last_successful_id) {
            (None, None) => true,
            (Some(start), Some(last)) => {
                &&& start.0 <= last.0
                &&& holds(states.last().queue, id) || start.0 < id <= last.0 ==> exists|i: int|
                    0 <= i < steps.len() && (#[trigger] steps[i]).reports(id)
            },
            _ => false,
        },
    decreases steps.len(),
{
    broadcast use vstd::multiset::group_multiset_axioms;

    lemma_starting_point(states, steps, instance, state, concurrent_sends);
    if steps.len() == 0 {
        assert(!holds(states[0].queue, id));
    } else {
        let before = states.drop_last();
        let earlier = steps.drop_last();
        lemma_earlier_run(states, steps);
        lemma_starting_point(before, earlier, instance, state, concurrent_sends);
        lemma_run_from_start_passes_only_reported(
            before,
            earlier,
            instance,
            state,
            concurrent_sends,
            id,
        );
        let n = steps.len() - 1;
        let (worker, next) = (states[n], states.last());
        if worker.queue.state.last_successful_id is Some {
            let start = starting_point(state, steps)->0;
            lemma_reported_or_held(worker, steps[n], next, id);
            if holds(worker.queue, id) || start.0 < id <= last_id(worker.queue) {
                let i = choose|i: int| 0 <= i < earlier.len() && (#[trigger] earlier[i]).reports(id);
                assert(steps[i].reports(id));
            } else if holds(next.queue, id) || start.0 < id <= last_id(next.queue) {
                assert(steps[n].reports(id));
            }
        } else {
            assert(next.queue.successfuls == worker.queue.successfuls);
            assert forall|s: SendSuccessInfo| !#[trigger] next.queue.successfuls.contains(s) by {}
        }
    }
}

} // verus!
