//! What holds of a worker together with the tasks that it started.

use crate::activity::{SendActivityResult, SendSuccessInfo};
use crate::laws::send::reports_end;
use crate::laws::worker::{
    accounted, flying_after, law_account_is_kept, law_account_is_opened,
    law_last_successful_passes_only_reported, law_limits_are_kept, within_limits, WorkerStep,
};
use crate::queue::{FederationQueueState, Instance};
use crate::send::{SendAction, SendEvent, SendPhase, SendView};
use crate::worker::{Phase, WorkerAction, WorkerEvent, WorkerView};
use vstd::multiset::Multiset;
use vstd::prelude::*;

verus! {

/// A worker, the tasks that it started, and the reports that it has not received yet.
pub struct System {
    pub worker: WorkerView,
    /// The tasks by the number of their activity, until they told that it needs no more sending.
    pub tasks: Map<int, SendView>,
    pub reports: Multiset<SendActivityResult>,
}

/// What happened in a system.
pub enum SystemStep {
    /// Something happened to the worker. A task that it starts then is `started`.
    Worker { step: WorkerStep, started: SendView },
    /// Something happened to the task of this activity.
    Task { id: int, event: SendEvent },
}

/// The report that a task waits for to be made, as the worker receives it.
pub open spec fn pending_report(task: SendView) -> SendActivityResult {
    match task.phase {
        SendPhase::ReportingFailure { fail_count, .. } => SendActivityResult::Failure {
            fail_count,
        },
        SendPhase::ReportingSuccess => task.success().spec_for_worker(),
        _ => task.given_up().spec_for_worker(),
    }
}

/// The report that a task waits for is the one that it asked for.
pub proof fn law_pending_report_was_asked_for(task: SendView, event: SendEvent)
    requires
        task.accepts(event),
    ensures
        match task.next(event).1 {
            SendAction::Report(report) => pending_report(task.next(event).0)
                == report.spec_for_worker(),
            SendAction::GiveUp { report, .. } => pending_report(task.next(event).0)
                == report.spec_for_worker(),
            _ => !task.next(event).0.accepts(SendEvent::Reported),
        },
{
}

/// Whether this is the report that the activity needs no more sending.
pub open spec fn ends(report: SendActivityResult, id: int) -> bool {
    report matches SendActivityResult::Success(info) && info.id() == id
}

/// The reports after the worker received one, if that is what happened, and made one, if it does.
pub open spec fn reports_after(
    reports: Multiset<SendActivityResult>,
    step: WorkerStep,
) -> Multiset<SendActivityResult> {
    let left = match step.event {
        WorkerEvent::Report(report) => reports.remove(report),
        _ => reports,
    };
    match step.outcome {
        Ok(WorkerAction::Report(report)) => left.insert(report),
        _ => left,
    }
}

impl System {
    /// Whether a report that the activity needs no more sending is under way.
    pub open spec fn in_reports(self, id: int) -> bool {
        exists|report: SendActivityResult| #[trigger]
            self.reports.contains(report) && ends(report, id)
    }

    /// Whether the worker has begun with the activity, but not handed it on.
    pub open spec fn at_worker(self, id: int) -> bool {
        match self.worker.phase {
            Phase::Activity { id: begun } => begun.0 == id,
            Phase::Inboxes { id: begun, .. } => begun.0 == id,
            _ => false,
        }
    }

    /// Whether a step can happen in the system, and leaves it as `next`. The worker receives only
    /// reports that were made.
    pub open spec fn leads(self, step: SystemStep, next: System) -> bool {
        match step {
            SystemStep::Worker { step, started } => {
                &&& step.leads(self.worker, next.worker)
                &&& step.event matches WorkerEvent::Report(report) ==> self.reports.contains(report)
                &&& next.reports == reports_after(self.reports, step)
                &&& match step.outcome {
                    Ok(WorkerAction::StartSend { activity_id, initial_fail_count }) => {
                        &&& started.activity.id == activity_id
                        &&& started.initial_fail_count == initial_fail_count
                        &&& started.phase is Fresh
                        &&& next.tasks == self.tasks.insert(activity_id.0 as int, started)
                    },
                    _ => next.tasks == self.tasks,
                }
            },
            SystemStep::Task { id, event } => {
                let task = self.tasks[id];
                &&& self.tasks.contains_key(id)
                &&& task.accepts(event)
                &&& next.worker == self.worker
                &&& next.reports == if event is Reported {
                    self.reports.insert(pending_report(task))
                } else {
                    self.reports
                }
                &&& next.tasks == if event is Reported && reports_end(task) {
                    self.tasks.remove(id)
                } else {
                    self.tasks.insert(id, task.next(event).0)
                }
            },
        }
    }

    /// Every activity that is being sent is in exactly one place, and nothing else is anywhere: it
    /// is at the worker, or has a task, or its report is under way.
    pub open spec fn well_placed(self, flying: Set<int>) -> bool {
        &&& accounted(self.worker.queue, flying)
        &&& forall|id: int| #[trigger]
            flying.contains(id) <==> self.at_worker(id) || self.tasks.contains_key(id)
                || self.in_reports(id)
        &&& forall|id: int| #[trigger]
            self.tasks.contains_key(id) ==> !self.at_worker(id) && !self.in_reports(id)
                && self.tasks[id].activity.id.0 == id
        &&& forall|id: int| #[trigger] self.at_worker(id) ==> !self.in_reports(id)
        &&& forall|a: SendActivityResult, b: SendActivityResult, id: int| #[trigger]
            ends(a, id) && #[trigger] ends(b, id) && self.reports.contains(a)
                && self.reports.contains(b) ==> a == b && self.reports.count(a) == 1
    }
}

/// What is being sent after a step in the system.
pub open spec fn system_flying_after(flying: Set<int>, step: SystemStep) -> Set<int> {
    match step {
        SystemStep::Worker { step, .. } => flying_after(flying, step),
        SystemStep::Task { .. } => flying,
    }
}

/// A report that is made is under way, besides those that were.
proof fn lemma_report_made(before: System, after: System, report: SendActivityResult)
    requires
        after.reports == before.reports.insert(report),
    ensures
        forall|id: int| #[trigger]
            after.in_reports(id) <==> before.in_reports(id) || ends(report, id),
        forall|id: int| !before.in_reports(id) && #[trigger] ends(report, id)
            ==> after.reports.count(report) == 1,
        forall|r: SendActivityResult| #[trigger]
            after.reports.contains(r) ==> r == report || before.reports.contains(r),
        forall|r: SendActivityResult| r != report ==> #[trigger] after.reports.count(r)
            == before.reports.count(r),
{
    broadcast use vstd::multiset::group_multiset_axioms;

    assert forall|id: int| #[trigger] after.in_reports(id) <==> before.in_reports(id) || ends(
        report,
        id,
    ) by {
        if before.in_reports(id) {
            let r = choose|r: SendActivityResult| #[trigger]
                before.reports.contains(r) && ends(r, id);
            assert(after.reports.contains(r));
        }
        if ends(report, id) {
            assert(after.reports.contains(report));
        }
        if after.in_reports(id) && !ends(report, id) {
            let r = choose|r: SendActivityResult| #[trigger]
                after.reports.contains(r) && ends(r, id);
            assert(before.reports.contains(r));
        }
    }
    assert forall|id: int| !before.in_reports(id) && #[trigger] ends(
        report,
        id,
    ) implies after.reports.count(report) == 1 by {
        if before.reports.contains(report) {
            assert(before.in_reports(id));
        }
    }
}

/// A report that is received is not under way any more, if it was once.
proof fn lemma_report_received(
    before: System,
    after: System,
    report: SendActivityResult,
    flying: Set<int>,
)
    requires
        before.well_placed(flying),
        before.reports.contains(report),
        after.reports == before.reports.remove(report),
    ensures
        forall|id: int| #[trigger]
            after.in_reports(id) <==> before.in_reports(id) && !ends(report, id),
        forall|r: SendActivityResult| #[trigger]
            after.reports.contains(r) ==> before.reports.contains(r),
        forall|r: SendActivityResult| #[trigger]
            after.reports.count(r) <= before.reports.count(r),
{
    broadcast use vstd::multiset::group_multiset_axioms;

    assert forall|id: int| #[trigger] after.in_reports(id) <==> before.in_reports(id) && !ends(
        report,
        id,
    ) by {
        if after.in_reports(id) {
            let r = choose|r: SendActivityResult| #[trigger]
                after.reports.contains(r) && ends(r, id);
            assert(before.reports.contains(r));
            if ends(report, id) {
                assert(r == report);
            }
        }
        if before.in_reports(id) && !ends(report, id) {
            let r = choose|r: SendActivityResult| #[trigger]
                before.reports.contains(r) && ends(r, id);
            assert(r != report);
            assert(after.reports.contains(r));
        }
    }
}

/// The system is in order when the worker enters its loop, before anything was begun.
pub proof fn law_system_starts_in_order(system: System, step: SystemStep, next: System)
    requires
        system.leads(step, next),
        step is Worker,
        system.worker.phase is FirstLatestId,
        system.tasks == Map::<int, SendView>::empty(),
        system.reports == Multiset::<SendActivityResult>::empty(),
    ensures
        next.well_placed(Set::empty()),
        within_limits(next.worker.queue),
{
    broadcast use vstd::multiset::group_multiset_axioms;

    if let SystemStep::Worker { step: worker_step, .. } = step {
        law_account_is_opened(system.worker, worker_step, next.worker);
        assert(next.reports == system.reports);
        assert forall|report: SendActivityResult| !#[trigger] next.reports.contains(report) by {}
    }
}

/// Whatever happens in the system, every activity that is being sent stays in exactly one place,
/// and the account of all activities stays right. So each one that is begun is reported once, none
/// is begun twice, and the last successful one passes none that was not reported.
pub proof fn law_system_stays_in_order(
    system: System,
    step: SystemStep,
    next: System,
    flying: Set<int>,
)
    requires
        system.leads(step, next),
        system.well_placed(flying),
    ensures
        next.well_placed(system_flying_after(flying, step)),
{
    match step {
        SystemStep::Worker { step, started } => {
            lemma_worker_step(system, step, started, next, flying);
        },
        SystemStep::Task { id, event } => {
            lemma_task_step(system, id, event, next, flying);
        },
    }
}

proof fn lemma_task_step(system: System, id: int, event: SendEvent, next: System, flying: Set<int>)
    requires
        system.leads(SystemStep::Task { id, event }, next),
        system.well_placed(flying),
    ensures
        next.well_placed(flying),
{
    let task = system.tasks[id];
    let report = pending_report(task);
    assert(flying.contains(id));
    assert forall|i: int| #[trigger] next.at_worker(i) == system.at_worker(i) by {}
    if event is Reported {
        lemma_report_made(system, next, report);
        assert forall|i: int| #[trigger] ends(report, i) implies i == id && reports_end(task) by {}
        if reports_end(task) {
            assert(ends(report, id));
        }
    } else {
        assert forall|i: int| #[trigger] next.in_reports(i) == system.in_reports(i) by {}
    }
    assert forall|i: int| #[trigger] flying.contains(i) <==> next.at_worker(i)
        || next.tasks.contains_key(i) || next.in_reports(i) by {
        assert(next.in_reports(i) == (system.in_reports(i) || (event is Reported && ends(
            report,
            i,
        ))));
    }
    assert forall|i: int| #[trigger] next.tasks.contains_key(i) implies !next.at_worker(i)
        && !next.in_reports(i) && next.tasks[i].activity.id.0 == i by {
        assert(system.tasks.contains_key(i));
        assert(next.in_reports(i) == (system.in_reports(i) || (event is Reported && ends(
            report,
            i,
        ))));
    }
    assert forall|i: int| #[trigger] next.at_worker(i) implies !next.in_reports(i) by {
        assert(system.at_worker(i));
        assert(next.in_reports(i) == (system.in_reports(i) || (event is Reported && ends(
            report,
            i,
        ))));
    }
    assert forall|a: SendActivityResult, b: SendActivityResult, i: int| #[trigger]
        ends(a, i) && #[trigger] ends(b, i) && next.reports.contains(a) && next.reports.contains(
            b,
        ) implies a == b && next.reports.count(a) == 1 by {
        if event is Reported && ends(report, i) {
            assert(i == id);
            assert(!system.in_reports(i));
            if a != report {
                assert(system.reports.contains(a));
            }
            if b != report {
                assert(system.reports.contains(b));
            }
        } else {
            assert(a != report || !(event is Reported));
            assert(b != report || !(event is Reported));
            assert(system.reports.contains(a) && system.reports.contains(b));
        }
    }
}

proof fn lemma_worker_step(
    system: System,
    step: WorkerStep,
    started: SendView,
    next: System,
    flying: Set<int>,
)
    requires
        system.leads(SystemStep::Worker { step, started }, next),
        system.well_placed(flying),
    ensures
        next.well_placed(flying_after(flying, step)),
{
    let after = flying_after(flying, step);
    if let WorkerEvent::Report(SendActivityResult::Success(info)) = step.event {
        let report = SendActivityResult::Success(info);
        assert(ends(report, info.id()));
        assert(system.in_reports(info.id()));
        assert(flying.contains(info.id()));
    }
    law_account_is_kept(system.worker, step, next.worker, flying);
    match step.event {
        WorkerEvent::Report(report) => {
            assert(next.reports == system.reports.remove(report));
            lemma_report_received(system, next, report, flying);
            assert forall|i: int| !#[trigger] next.at_worker(i) && !system.at_worker(i) by {}
            assert forall|i: int| #[trigger] after.contains(i) <==> next.at_worker(i)
                || next.tasks.contains_key(i) || next.in_reports(i) by {
                assert(next.in_reports(i) == (system.in_reports(i) && !ends(report, i)));
                assert(flying.contains(i) == (system.tasks.contains_key(i) || system.in_reports(
                    i,
                )));
                if ends(report, i) {
                    assert(system.in_reports(i));
                }
            }
            assert forall|i: int| #[trigger] next.tasks.contains_key(i) implies !next.at_worker(i)
                && !next.in_reports(i) && next.tasks[i].activity.id.0 == i by {
                assert(system.tasks.contains_key(i));
            }
            assert forall|a: SendActivityResult, b: SendActivityResult, i: int| #[trigger]
                ends(a, i) && #[trigger] ends(b, i) && next.reports.contains(a)
                    && next.reports.contains(b) implies a == b && next.reports.count(a) == 1 by {
                assert(system.reports.contains(a) && system.reports.contains(b));
                assert(next.reports.count(a) <= system.reports.count(a));
            }
        },
        _ => {
            match step.outcome {
                Ok(WorkerAction::Report(report)) => {
                    assert(next.reports == system.reports.insert(report));
                    lemma_report_made(system, next, report);
                    let id = match system.worker.phase {
                        Phase::Activity { id } => id.0 as int,
                        Phase::Inboxes { id, .. } => id.0 as int,
                        _ => 0,
                    };
                    assert(system.at_worker(id));
                    assert forall|i: int| #[trigger] ends(report, i) <==> i == id by {}
                    assert forall|i: int| !#[trigger] next.at_worker(i) by {}
                    assert forall|i: int| #[trigger] system.at_worker(i) <==> i == id by {}
                    assert forall|i: int| #[trigger] after.contains(i) <==> next.at_worker(i)
                        || next.tasks.contains_key(i) || next.in_reports(i) by {
                        assert(next.in_reports(i) == (system.in_reports(i) || i == id));
                        assert(system.at_worker(i) == (i == id));
                    }
                    assert forall|i: int| #[trigger]
                        next.tasks.contains_key(i) implies !next.at_worker(i) && !next.in_reports(i)
                        && next.tasks[i].activity.id.0 == i by {
                        assert(system.tasks.contains_key(i));
                        assert(system.at_worker(i) == (i == id));
                        assert(next.in_reports(i) == (system.in_reports(i) || i == id));
                    }
                    assert forall|a: SendActivityResult, b: SendActivityResult, i: int| #[trigger]
                        ends(a, i) && #[trigger] ends(b, i) && next.reports.contains(a)
                            && next.reports.contains(b) implies a == b && next.reports.count(a)
                        == 1 by {
                        if i == id {
                            assert(!system.in_reports(i));
                            assert(ends(report, i));
                            if a != report {
                                assert(system.reports.contains(a));
                            }
                            if b != report {
                                assert(system.reports.contains(b));
                            }
                        } else {
                            assert(!ends(report, i));
                            assert(system.reports.contains(a) && system.reports.contains(b));
                        }
                    }
                },
                _ => {
                    assert(next.reports == system.reports);
                    assert forall|i: int| #[trigger]
                        next.in_reports(i) == system.in_reports(i) by {}
                    assert forall|i: int| #[trigger] after.contains(i) <==> next.at_worker(i)
                        || next.tasks.contains_key(i) || next.in_reports(i) by {
                        assert(next.in_reports(i) == system.in_reports(i));
                        assert(flying.contains(i) <==> system.at_worker(i)
                            || system.tasks.contains_key(i) || system.in_reports(i));
                    }
                    assert forall|i: int| #[trigger]
                        next.tasks.contains_key(i) implies !next.at_worker(i) && !next.in_reports(i)
                        && next.tasks[i].activity.id.0 == i by {
                        assert(next.in_reports(i) == system.in_reports(i));
                        if system.tasks.contains_key(i) {
                            assert(flying.contains(i));
                            assert(!system.at_worker(i));
                        } else {
                            assert(system.at_worker(i));
                        }
                    }
                    assert forall|i: int| #[trigger] next.at_worker(i) implies !next.in_reports(
                        i,
                    ) by {
                        assert(next.in_reports(i) == system.in_reports(i));
                        if !system.at_worker(i) {
                            assert(step.begins_send() && step.begun() == i);
                            assert(!flying.contains(i));
                        }
                    }
                },
            }
        },
    }
}

/// In the system, never more activities are being sent than may be.
pub proof fn law_system_keeps_limits(
    system: System,
    step: SystemStep,
    next: System,
    flying: Set<int>,
)
    requires
        system.leads(step, next),
        system.well_placed(flying),
        within_limits(system.worker.queue),
    ensures
        within_limits(next.worker.queue),
{
    if let SystemStep::Worker { step: worker_step, .. } = step {
        if let WorkerEvent::Report(SendActivityResult::Success(info)) = worker_step.event {
            let report = SendActivityResult::Success(info);
            assert(ends(report, info.id()));
            assert(system.in_reports(info.id()));
            assert(flying.contains(info.id()));
            if flying.len() == 0 {
                assert(flying =~= Set::empty());
            }
        }
        law_limits_are_kept(system.worker, worker_step, next.worker);
    }
}

/// A run of a system: its states, and what happened between them.
pub open spec fn is_run(states: Seq<System>, steps: Seq<SystemStep>) -> bool {
    &&& states.len() == steps.len() + 1
    &&& forall|i: int|
        0 <= i < steps.len() ==> (#[trigger] states[i]).leads(steps[i], states[i + 1])
}

/// What is being sent after all these steps.
pub open spec fn flying_after_all(flying: Set<int>, steps: Seq<SystemStep>) -> Set<int>
    decreases steps.len(),
{
    if steps.len() == 0 {
        flying
    } else {
        system_flying_after(flying_after_all(flying, steps.drop_last()), steps.last())
    }
}

/// In every run of a system that starts in order, it is in order in every state: every activity
/// that is being sent is in exactly one place, the account of all activities is right, and never
/// more are being sent than may be.
pub proof fn law_system_run_stays_in_order(
    states: Seq<System>,
    steps: Seq<SystemStep>,
    flying: Set<int>,
)
    requires
        is_run(states, steps),
        states[0].well_placed(flying),
        within_limits(states[0].worker.queue),
    ensures
        forall|i: int|
            0 <= i < states.len() ==> (#[trigger] states[i]).well_placed(
                flying_after_all(flying, steps.take(i)),
            ) && within_limits(states[i].worker.queue),
{
    assert forall|i: int| 0 <= i < states.len() implies (#[trigger] states[i]).well_placed(
        flying_after_all(flying, steps.take(i)),
    ) && within_limits(states[i].worker.queue) by {
        lemma_state_is_in_order(states, steps, flying, i);
    }
}

proof fn lemma_state_is_in_order(
    states: Seq<System>,
    steps: Seq<SystemStep>,
    flying: Set<int>,
    i: int,
)
    requires
        is_run(states, steps),
        states[0].well_placed(flying),
        within_limits(states[0].worker.queue),
        0 <= i < states.len(),
    ensures
        states[i].well_placed(flying_after_all(flying, steps.take(i))),
        within_limits(states[i].worker.queue),
    decreases i,
{
    if i > 0 {
        lemma_state_is_in_order(states, steps, flying, i - 1);
        let before = flying_after_all(flying, steps.take(i - 1));
        assert(steps.take(i).drop_last() == steps.take(i - 1));
        assert(steps.take(i).last() == steps[i - 1]);
        assert(states[i - 1].leads(steps[i - 1], states[i - 1 + 1]));
        law_system_stays_in_order(states[i - 1], steps[i - 1], states[i], before);
        law_system_keeps_limits(states[i - 1], steps[i - 1], states[i], before);
    }
}

/// In every run of a system from the start, with a new worker and without tasks or reports, it is in
/// order in every state from where the last successful activity is known. For an instance that is
/// new this is where the newest activity is read for the first time. Before that there are neither
/// tasks nor reports, and nothing is being sent.
pub proof fn law_system_run_from_start_stays_in_order(
    states: Seq<System>,
    steps: Seq<SystemStep>,
    instance: Instance,
    state: FederationQueueState,
    concurrent_sends: i64,
    i: int,
)
    requires
        is_run(states, steps),
        states[0].worker == WorkerView::initial(instance, state, concurrent_sends),
        states[0].tasks == Map::<int, SendView>::empty(),
        states[0].reports == Multiset::<SendActivityResult>::empty(),
        0 <= i < states.len(),
    ensures
        within_limits(states[i].worker.queue),
        if states[i].worker.queue.state.last_successful_id is Some {
            states[i].well_placed(flying_after_all(Set::empty(), steps.take(i)))
        } else {
            &&& states[i].worker.before_loop()
            &&& states[i].tasks == Map::<int, SendView>::empty()
            &&& states[i].reports == Multiset::<SendActivityResult>::empty()
            &&& flying_after_all(Set::empty(), steps.take(i)) == Set::<int>::empty()
        },
    decreases i,
{
    broadcast use vstd::multiset::group_multiset_axioms;

    if i == 0 {
        assert forall|report: SendActivityResult| !#[trigger] states[0].reports.contains(
            report,
        ) by {}
        assert forall|s: SendSuccessInfo| !#[trigger] states[0].worker.queue.successfuls.contains(
            s,
        ) by {}
    } else {
        law_system_run_from_start_stays_in_order(
            states,
            steps,
            instance,
            state,
            concurrent_sends,
            i - 1,
        );
        let before = flying_after_all(Set::empty(), steps.take(i - 1));
        assert(steps.take(i).drop_last() == steps.take(i - 1));
        assert(steps.take(i).last() == steps[i - 1]);
        let (system, next) = (states[i - 1], states[i]);
        assert(system.leads(steps[i - 1], states[i - 1 + 1]));
        if system.worker.queue.state.last_successful_id is Some {
            law_system_stays_in_order(system, steps[i - 1], next, before);
            law_system_keeps_limits(system, steps[i - 1], next, before);
            if let SystemStep::Worker { step, .. } = steps[i - 1] {
                law_last_successful_passes_only_reported(system.worker, step, next.worker);
            }
        } else if system.worker.phase is FirstLatestId {
            law_system_starts_in_order(system, steps[i - 1], next);
        }
    }
}

} // verus!
