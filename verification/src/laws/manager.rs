//! What holds of the manager at all times.

use crate::manager::{
    pass, FederatedInstance, ManagerAction, ManagerError, ManagerEvent, ManagerView, Opts,
    Pass, WorkerCommand,
};
use vstd::prelude::*;

verus! {

/// Each instance has exactly one process that is in charge of it, among those with the numbers from
/// 1 on. The numbers of instances are not negative.
pub proof fn law_one_process_is_in_charge(process_count: i32, id: int)
    requires
        process_count > 0,
        id >= 0,
    ensures
        exists|process_index: i32|
            1 <= process_index <= process_count && #[trigger] (Opts {
                process_count,
                process_index,
            }).in_charge(id),
        forall|a: i32, b: i32| #[trigger]
            (Opts { process_count, process_index: a }).in_charge(id) && #[trigger] (Opts {
                process_count,
                process_index: b,
            }).in_charge(id) ==> a == b,
{
    let rest = id % (process_count as int);
    assert(0 <= rest < process_count);
    let index = (rest + 1) as i32;
    assert((Opts { process_count, process_index: index }).in_charge(id));
}

/// A process with a number above the number of processes is in charge of no instance.
pub proof fn law_surplus_process_is_idle(opts: Opts, id: int)
    requires
        opts.wf(),
        opts.process_index > opts.process_count,
    ensures
        !opts.in_charge(id),
{
    if id >= 0 {
        assert(0 <= id % (opts.process_count as int) < opts.process_count);
    }
}

/// Whether the list has an instance with this number that the process is in charge of.
pub open spec fn lists(
    list: Seq<FederatedInstance>,
    opts: Opts,
    local_domain: Seq<char>,
    id: i32,
) -> bool {
    exists|i: int|
        0 <= i < list.len() && (#[trigger] list[i]).in_scope(opts, local_domain)
            && list[i].instance.id.0 == id
}

/// Whether no instance is twice in the list.
pub open spec fn is_unique(
    list: Seq<FederatedInstance>,
    opts: Opts,
    local_domain: Seq<char>,
) -> bool {
    forall|i: int, j: int|
        0 <= i < j < list.len() && (#[trigger] list[i]).in_scope(opts, local_domain) && (
        #[trigger] list[j]).in_scope(opts, local_domain) ==> list[i].instance.id.0
            != list[j].instance.id.0
}

/// The worker of an instance that is not in the list, or that this process is not in charge of,
/// is neither started nor stopped.
pub proof fn law_other_workers_are_kept(
    workers: Set<i32>,
    list: Seq<FederatedInstance>,
    opts: Opts,
    local_domain: Seq<char>,
    id: i32,
)
    requires
        !lists(list, opts, local_domain, id),
    ensures
        pass(workers, list, opts, local_domain).0.contains(id) == workers.contains(id),
    decreases list.len(),
{
    if list.len() > 0 {
        let shorter = list.drop_last();
        if lists(shorter, opts, local_domain, id) {
            let i = choose|i: int|
                0 <= i < shorter.len() && (#[trigger] shorter[i]).in_scope(opts, local_domain)
                    && shorter[i].instance.id.0 == id;
            assert(list[i] == shorter[i]);
        }
        law_other_workers_are_kept(workers, shorter, opts, local_domain, id);
        assert(list.last() == list[list.len() - 1]);
    }
}

/// After a pass, an instance in the list has a worker exactly if it is allowed and not dead.
pub proof fn law_workers_follow_the_list(
    workers: Set<i32>,
    list: Seq<FederatedInstance>,
    opts: Opts,
    local_domain: Seq<char>,
    i: int,
)
    requires
        is_unique(list, opts, local_domain),
        0 <= i < list.len(),
        list[i].in_scope(opts, local_domain),
    ensures
        pass(workers, list, opts, local_domain).0.contains(list[i].instance.id.0) == (
        list[i].allowed && !list[i].is_dead),
    decreases list.len(),
{
    let shorter = list.drop_last();
    if i < list.len() - 1 {
        assert(shorter[i] == list[i]);
        assert(is_unique(shorter, opts, local_domain)) by {
            assert forall|a: int, b: int|
                0 <= a < b < shorter.len() && (#[trigger] shorter[a]).in_scope(opts, local_domain)
                    && (#[trigger] shorter[b]).in_scope(
                    opts,
                    local_domain,
                ) implies shorter[a].instance.id.0 != shorter[b].instance.id.0 by {
                assert(list[a] == shorter[a] && list[b] == shorter[b]);
            }
        }
        law_workers_follow_the_list(workers, shorter, opts, local_domain, i);
        assert(list.last() == list[list.len() - 1]);
    }
}

/// A second pass over the same list has nothing to do.
pub proof fn law_second_pass_is_idle(
    workers: Set<i32>,
    list: Seq<FederatedInstance>,
    opts: Opts,
    local_domain: Seq<char>,
)
    requires
        is_unique(list, opts, local_domain),
    ensures
        ({
            let settled = pass(workers, list, opts, local_domain).0;
            pass(settled, list, opts, local_domain) == (settled, Seq::<WorkerCommand>::empty())
        }),
{
    let settled = pass(workers, list, opts, local_domain).0;
    assert forall|i: int|
        0 <= i < list.len() && (#[trigger] list[i]).in_scope(
            opts,
            local_domain,
        ) implies settled.contains(list[i].instance.id.0) == list[i].should_federate() by {
        law_workers_follow_the_list(workers, list, opts, local_domain, i);
    }
    lemma_settled(settled, list, opts, local_domain);
}

proof fn lemma_settled(
    workers: Set<i32>,
    list: Seq<FederatedInstance>,
    opts: Opts,
    local_domain: Seq<char>,
)
    requires
        forall|i: int|
            0 <= i < list.len() && (#[trigger] list[i]).in_scope(opts, local_domain)
                ==> workers.contains(list[i].instance.id.0) == list[i].should_federate(),
    ensures
        pass(workers, list, opts, local_domain) == (workers, Seq::<WorkerCommand>::empty()),
    decreases list.len(),
{
    if list.len() > 0 {
        let shorter = list.drop_last();
        assert forall|i: int|
            0 <= i < shorter.len() && (#[trigger] shorter[i]).in_scope(
                opts,
                local_domain,
            ) implies workers.contains(shorter[i].instance.id.0)
            == shorter[i].should_federate() by {
            assert(list[i] == shorter[i]);
        }
        lemma_settled(workers, shorter, opts, local_domain);
        assert(list.last() == list[list.len() - 1]);
    }
}

/// Between all processes, an instance that activities are sent to gets exactly one worker.
pub proof fn law_each_instance_gets_one_worker(
    list: Seq<FederatedInstance>,
    process_count: i32,
    local_domain: Seq<char>,
    i: int,
)
    requires
        process_count > 0,
        0 <= i < list.len(),
        list[i].instance.id.0 >= 0,
        list[i].instance.domain@ != local_domain,
        list[i].should_federate(),
        forall|a: int, b: int|
            0 <= a < b < list.len() ==> (#[trigger] list[a]).instance.id.0 != (
            #[trigger] list[b]).instance.id.0,
    ensures
        exists|process_index: i32|
            1 <= process_index <= process_count && #[trigger] pass(
                Set::empty(),
                list,
                Opts { process_count, process_index },
                local_domain,
            ).0.contains(list[i].instance.id.0),
        forall|a: i32, b: i32|
            (#[trigger] pass(
                Set::empty(),
                list,
                Opts { process_count, process_index: a },
                local_domain,
            )).0.contains(list[i].instance.id.0) && (#[trigger] pass(
                Set::empty(),
                list,
                Opts { process_count, process_index: b },
                local_domain,
            )).0.contains(list[i].instance.id.0) ==> a == b,
{
    let id = list[i].instance.id.0;
    law_one_process_is_in_charge(process_count, id as int);
    let index = choose|process_index: i32|
        1 <= process_index <= process_count && #[trigger] (Opts {
            process_count,
            process_index,
        }).in_charge(id as int);
    let opts = Opts { process_count, process_index: index };
    law_workers_follow_the_list(Set::empty(), list, opts, local_domain, i);
    assert(pass(Set::empty(), list, opts, local_domain).0.contains(id));
    assert forall|a: i32, b: i32|
        (#[trigger] pass(
            Set::empty(),
            list,
            Opts { process_count, process_index: a },
            local_domain,
        )).0.contains(id) && (#[trigger] pass(
            Set::empty(),
            list,
            Opts { process_count, process_index: b },
            local_domain,
        )).0.contains(id) implies a == b by {
        let first = Opts { process_count, process_index: a };
        let second = Opts { process_count, process_index: b };
        law_only_own_instances_get_workers(list, first, local_domain, id);
        law_only_own_instances_get_workers(list, second, local_domain, id);
    }
}

/// Only the instances in the list that the process is in charge of get a worker.
pub proof fn law_only_own_instances_get_workers(
    list: Seq<FederatedInstance>,
    opts: Opts,
    local_domain: Seq<char>,
    id: i32,
)
    requires
        pass(Set::empty(), list, opts, local_domain).0.contains(id),
    ensures
        opts.in_charge(id as int),
        lists(list, opts, local_domain, id),
{
    if !lists(list, opts, local_domain, id) {
        law_other_workers_are_kept(Set::empty(), list, opts, local_domain, id);
    }
}

/// What happened to a manager, and what came of it.
pub struct ManagerStep {
    pub event: ManagerEvent,
    pub outcome: Result<ManagerAction, ManagerError>,
}

impl ManagerStep {
    /// Whether this can happen to a manager, and leaves it as `next`.
    pub open spec fn leads(self, manager: ManagerView, next: ManagerView) -> bool {
        &&& manager.accepts(self.event)
        &&& manager.transition(self.event, next, self.outcome)
    }
}

/// The loop ends only when it is cancelled, or when something cannot be read. It can only be
/// cancelled during the wait after a pass.
pub proof fn law_loop_ends_only_for_a_reason(
    manager: ManagerView,
    step: ManagerStep,
    next: ManagerView,
)
    requires
        step.leads(manager, next),
    ensures
        step.outcome == Ok::<ManagerAction, ManagerError>(ManagerAction::Finish) <==> step.event
            == (ManagerEvent::Waited { cancelled: true }),
        step.outcome == Ok::<ManagerAction, ManagerError>(ManagerAction::Finish)
            ==> manager.phase is Waiting,
        step.outcome is Err <==> step.event is NotRead,
        next.phase is Idle <==> step.outcome is Err || step.outcome == Ok::<
            ManagerAction,
            ManagerError,
        >(ManagerAction::Finish),
{
}

/// Workers are started and stopped only by a pass over the instances. The share of this process
/// stays as it is, and so does the domain of the own instance once it was read.
pub proof fn law_only_a_pass_changes_workers(
    manager: ManagerView,
    step: ManagerStep,
    next: ManagerView,
)
    requires
        step.leads(manager, next),
    ensures
        step.event !is Instances ==> next.workers == manager.workers,
        step.event !is LocalDomain ==> next.local_domain == manager.local_domain,
        next.opts == manager.opts,
        step.outcome matches Ok(ManagerAction::CarryOut(_)) <==> step.event is Instances,
{
}

/// A run of a manager: its states, and what happened between them.
pub open spec fn is_run(states: Seq<ManagerView>, steps: Seq<ManagerStep>) -> bool {
    &&& states.len() == steps.len() + 1
    &&& forall|i: int|
        0 <= i < steps.len() ==> (#[trigger] steps[i]).leads(states[i], states[i + 1])
}

/// In every run from the start, a pass is followed by a wait, and there is no wait without a pass
/// right before it. After the wait the instances are read for the next pass, or the run ends if it
/// was cancelled.
pub proof fn law_run_waits_after_each_pass(
    states: Seq<ManagerView>,
    steps: Seq<ManagerStep>,
    i: int,
)
    requires
        is_run(states, steps),
        states[0].phase is Idle,
        0 <= i < steps.len(),
    ensures
        steps[i].event is Instances && i + 1 < steps.len() ==> steps[i + 1].event is Waited,
        steps[i].event matches ManagerEvent::Waited { cancelled } ==> {
            &&& i > 0
            &&& steps[i - 1].event is Instances
            &&& steps[i].outcome == Ok::<ManagerAction, ManagerError>(
                if cancelled {
                    ManagerAction::Finish
                } else {
                    ManagerAction::ReadInstances
                },
            )
        },
{
    assert(steps[i].leads(states[i], states[i + 1]));
    if i + 1 < steps.len() {
        assert(steps[i + 1].leads(states[i + 1], states[i + 2]));
    }
    if i > 0 {
        assert(steps[i - 1].leads(states[i - 1], states[i]));
    }
}

/// The manager reads the domain of the own instance, and then the instances. What it reads is what
/// it goes by. A failure names what could not be read, and changes nothing but that the loop ends.
pub proof fn law_manager_reads_before_it_acts(
    manager: ManagerView,
    step: ManagerStep,
    next: ManagerView,
)
    requires
        step.leads(manager, next),
    ensures
        step.event is Started ==> step.outcome == Ok::<ManagerAction, ManagerError>(
            ManagerAction::ReadLocalDomain,
        ),
        step.event matches ManagerEvent::LocalDomain(domain) ==> next.local_domain == domain@
            && step.outcome == Ok::<ManagerAction, ManagerError>(ManagerAction::ReadInstances),
        step.event is NotRead ==> {
            &&& step.outcome == Err::<ManagerAction, ManagerError>(
                if manager.phase is LocalDomain {
                    ManagerError::NoLocalDomain
                } else {
                    ManagerError::NoInstances
                },
            )
            &&& next.workers == manager.workers
        },
{
}

/// Whatever the manager asks for, it takes the answer to that, and nothing else. When it has ended it
/// can be started again.
pub proof fn law_manager_takes_the_answer_only(
    manager: ManagerView,
    step: ManagerStep,
    next: ManagerView,
    event: ManagerEvent,
)
    requires
        step.leads(manager, next),
    ensures
        next.accepts(event) <==> match (step.outcome, event) {
            (Ok(ManagerAction::ReadLocalDomain), ManagerEvent::LocalDomain(_)) => true,
            (Ok(ManagerAction::ReadLocalDomain), ManagerEvent::NotRead) => true,
            (Ok(ManagerAction::ReadInstances), ManagerEvent::Instances(_)) => true,
            (Ok(ManagerAction::ReadInstances), ManagerEvent::NotRead) => true,
            (Ok(ManagerAction::CarryOut(_)), ManagerEvent::Waited { .. }) => true,
            (Ok(ManagerAction::Finish), ManagerEvent::Started) => true,
            (Err(_), ManagerEvent::Started) => true,
            _ => false,
        },
{
}

/// What is left of a number when the other is taken out as often as it goes, with the sign of the
/// number.
pub open spec fn remainder(id: int, count: int) -> int {
    if id >= 0 {
        id % count
    } else {
        -((-id) % count)
    }
}

/// Whether an instance is another than the own one, and its number leaves the remainder of the
/// process.
pub open spec fn is_own(
    known: FederatedInstance,
    process_count: i32,
    process_index: i32,
    local_domain: Seq<char>,
) -> bool {
    known.instance.domain@ != local_domain && remainder(
        known.instance.id.0 as int,
        process_count as int,
    ) == process_index - 1
}

/// A process is in charge of the instances whose numbers leave its remainder, counted from zero.
pub proof fn law_process_takes_its_remainder(
    opts: Opts,
    known: FederatedInstance,
    local_domain: Seq<char>,
)
    requires
        opts.process_count > 0,
        opts.process_index > 0,
    ensures
        opts.wf(),
        opts.in_charge(known.instance.id.0 as int) <==> remainder(
            known.instance.id.0 as int,
            opts.process_count as int,
        ) == opts.process_index - 1,
        known.in_scope(opts, local_domain) <==> is_own(
            known,
            opts.process_count,
            opts.process_index,
            local_domain,
        ),
{
    let id = known.instance.id.0 as int;
    if id < 0 {
        assert(0 <= (-id) % (opts.process_count as int));
    }
}

/// The workers that run when commands were carried out one after the other.
pub open spec fn carried_out(
    workers: Set<i32>,
    list: Seq<FederatedInstance>,
    commands: Seq<WorkerCommand>,
) -> Set<i32>
    decreases commands.len(),
{
    if commands.len() == 0 {
        workers
    } else {
        let before = carried_out(workers, list, commands.drop_last());
        match commands.last() {
            WorkerCommand::Start { entry } => before.insert(list[entry as int].instance.id.0),
            WorkerCommand::Stop { id } => before.remove(id.0),
        }
    }
}

/// Whether each command comes from the entry of the list at its place in `sources`, which go up.
/// That entry is an own one. It is started if it is allowed and not dead, and has no worker when
/// its turn comes. It is stopped if it is disallowed or dead, and has one.
pub open spec fn come_from(
    commands: Seq<WorkerCommand>,
    sources: Seq<int>,
    manager: ManagerView,
    list: Seq<FederatedInstance>,
) -> bool {
    &&& sources.len() == commands.len()
    &&& forall|k: int|
        #![trigger sources[k]]
        0 <= k < sources.len() ==> {
            let known = list[sources[k]];
            let runs = carried_out(manager.workers, list, commands.take(k)).contains(
                known.instance.id.0,
            );
            &&& 0 <= sources[k] < list.len()
            &&& is_own(
                known,
                manager.opts.process_count,
                manager.opts.process_index,
                manager.local_domain,
            )
            &&& match commands[k] {
                WorkerCommand::Start { entry } => entry == sources[k] && known.allowed
                    && !known.is_dead && !runs,
                WorkerCommand::Stop { id } => id == known.instance.id && (!known.allowed
                    || known.is_dead) && runs,
            }
        }
    &&& forall|a: int, b: int|
        0 <= a < b < sources.len() ==> (#[trigger] sources[a]) < (#[trigger] sources[b])
}

/// To carry out commands looks only at the entries that they name.
proof fn lemma_longer_list(
    workers: Set<i32>,
    list: Seq<FederatedInstance>,
    commands: Seq<WorkerCommand>,
)
    requires
        list.len() > 0,
        forall|k: int|
            0 <= k < commands.len() ==> (#[trigger] commands[k] matches WorkerCommand::Start {
                entry,
            } ==> entry < list.len() - 1),
    ensures
        carried_out(workers, list, commands) == carried_out(workers, list.drop_last(), commands),
    decreases commands.len(),
{
    if commands.len() > 0 {
        let shorter = commands.drop_last();
        assert forall|k: int| 0 <= k < shorter.len() implies (#[trigger] shorter[k]
            matches WorkerCommand::Start { entry } ==> entry < list.len() - 1) by {
            assert(shorter[k] == commands[k]);
        }
        lemma_longer_list(workers, list, shorter);
        assert(commands.last() == commands[commands.len() - 1]);
    }
}

/// The commands of a pass come from the list, and lead to the workers that the pass leaves.
proof fn lemma_commands(manager: ManagerView, list: Seq<FederatedInstance>) -> (sources: Seq<int>)
    requires
        manager.opts.process_count > 0,
        manager.opts.process_index > 0,
        list.len() <= usize::MAX,
    ensures
        ({
            let (after, commands) = pass(
                manager.workers,
                list,
                manager.opts,
                manager.local_domain,
            );
            &&& come_from(commands, sources, manager, list)
            &&& carried_out(manager.workers, list, commands) == after
        }),
    decreases list.len(),
{
    let workers = manager.workers;
    let (after, commands) = pass(workers, list, manager.opts, manager.local_domain);
    if list.len() == 0 {
        Seq::empty()
    } else {
        let shorter = list.drop_last();
        let (before, fewer) = pass(workers, shorter, manager.opts, manager.local_domain);
        let earlier = lemma_commands(manager, shorter);
        let known = list.last();
        law_process_takes_its_remainder(manager.opts, known, manager.local_domain);
        assert forall|k: int| 0 <= k < fewer.len() implies (#[trigger] fewer[k]
            matches WorkerCommand::Start { entry } ==> entry < list.len() - 1) by {
            assert(0 <= earlier[k] < shorter.len());
        }
        lemma_longer_list(workers, list, fewer);
        assert forall|k: int| 0 <= k < fewer.len() implies carried_out(
            workers,
            list,
            #[trigger] fewer.take(k),
        ) == carried_out(workers, shorter, fewer.take(k)) by {
            assert forall|j: int| 0 <= j < fewer.take(k).len() implies (#[trigger] fewer.take(k)[j]
                matches WorkerCommand::Start { entry } ==> entry < list.len() - 1) by {
                assert(fewer.take(k)[j] == fewer[j]);
            }
            lemma_longer_list(workers, list, fewer.take(k));
        }
        assert forall|k: int| 0 <= k < earlier.len() implies list[#[trigger] earlier[k]]
            == shorter[earlier[k]] by {}
        if commands == fewer {
            assert(after == before);
            earlier
        } else {
            let sources = earlier.push(list.len() - 1);
            assert(commands.drop_last() == fewer);
            assert(commands.take(fewer.len() as int) == fewer);
            assert forall|k: int| 0 <= k < fewer.len() implies #[trigger] commands.take(k)
                == fewer.take(k) by {}
            assert forall|k: int| 0 <= k < fewer.len() implies sources[k] == #[trigger] earlier[k]
                && commands[k] == fewer[k] by {}
            sources
        }
    }
}

/// The commands of a pass follow the order of the list. Each start names the place of an own instance
/// that is allowed and not dead, and for which no worker runs at that point. Each stop names an own
/// instance that is disallowed or dead, and for which one runs. When all are carried out, just the
/// workers run that the manager keeps.
pub proof fn law_commands_come_from_the_list(
    manager: ManagerView,
    step: ManagerStep,
    next: ManagerView,
    list: Vec<FederatedInstance>,
    done: Pass,
)
    requires
        step.leads(manager, next),
        manager.opts.process_count > 0,
        manager.opts.process_index > 0,
        step.event == ManagerEvent::Instances(list),
        step.outcome == Ok::<ManagerAction, ManagerError>(ManagerAction::CarryOut(done)),
    ensures
        exists|sources: Seq<int>| come_from(done.commands@, sources, manager, list@),
        carried_out(manager.workers, list@, done.commands@) == next.workers,
        done.worker_count == next.workers.len(),
{
    assert(list.len() == list@.len());
    let sources = lemma_commands(manager, list@);
    assert(come_from(done.commands@, sources, manager, list@));
}

/// Where no instance is twice in the list, each start is of an instance that had no worker before
/// the pass, and each stop of one that had.
pub proof fn law_starts_only_what_did_not_run(
    manager: ManagerView,
    step: ManagerStep,
    next: ManagerView,
    list: Vec<FederatedInstance>,
    done: Pass,
    k: int,
)
    requires
        step.leads(manager, next),
        manager.opts.process_count > 0,
        manager.opts.process_index > 0,
        step.event == ManagerEvent::Instances(list),
        step.outcome == Ok::<ManagerAction, ManagerError>(ManagerAction::CarryOut(done)),
        0 <= k < done.commands@.len(),
        forall|a: int, b: int|
            0 <= a < b < list@.len() ==> (#[trigger] list@[a]).instance.id != (
            #[trigger] list@[b]).instance.id,
    ensures
        match done.commands@[k] {
            WorkerCommand::Start { entry } => entry < list@.len() && !manager.workers.contains(
                list@[entry as int].instance.id.0,
            ) && next.workers.contains(list@[entry as int].instance.id.0),
            WorkerCommand::Stop { id } => manager.workers.contains(id.0) && !next.workers.contains(
                id.0,
            ),
        },
{
    law_commands_come_from_the_list(manager, step, next, list, done);
    let commands = done.commands@;
    let sources = choose|sources: Seq<int>| come_from(commands, sources, manager, list@);
    assert(0 <= sources[k] < list@.len());
    let id = list@[sources[k]].instance.id.0;
    assert forall|j: int| 0 <= j < commands.len() && j != k implies id_of(
        #[trigger] commands[j],
        list@,
    ) != id by {
        assert(0 <= sources[j] < list@.len());
        assert(sources[j] != sources[k]);
        if sources[j] < sources[k] {
            assert(list@[sources[j]].instance.id != list@[sources[k]].instance.id);
        } else {
            assert(list@[sources[k]].instance.id != list@[sources[j]].instance.id);
        }
    }
    lemma_untouched(manager.workers, list@, commands.take(k), id);
    let upto = commands.take(k + 1);
    assert(upto.drop_last() == commands.take(k));
    assert(upto.last() == commands[k]);
    lemma_untouched_after(manager.workers, list@, commands, k + 1, id);
}

/// The instance that a command is about.
pub open spec fn id_of(command: WorkerCommand, list: Seq<FederatedInstance>) -> i32 {
    match command {
        WorkerCommand::Start { entry } => list[entry as int].instance.id.0,
        WorkerCommand::Stop { id } => id.0,
    }
}

/// A worker that no command is about goes on as it was.
proof fn lemma_untouched(
    workers: Set<i32>,
    list: Seq<FederatedInstance>,
    commands: Seq<WorkerCommand>,
    id: i32,
)
    requires
        forall|j: int|
            0 <= j < commands.len() ==> id_of(#[trigger] commands[j], list) != id,
    ensures
        carried_out(workers, list, commands).contains(id) == workers.contains(id),
    decreases commands.len(),
{
    if commands.len() > 0 {
        let shorter = commands.drop_last();
        assert forall|j: int| 0 <= j < shorter.len() implies id_of(#[trigger] shorter[j], list)
            != id by {
            assert(shorter[j] == commands[j]);
        }
        lemma_untouched(workers, list, shorter, id);
        assert(id_of(commands[commands.len() - 1], list) != id);
    }
}

/// A worker that no later command is about stays as it is.
proof fn lemma_untouched_after(
    workers: Set<i32>,
    list: Seq<FederatedInstance>,
    commands: Seq<WorkerCommand>,
    from: int,
    id: i32,
)
    requires
        0 <= from <= commands.len(),
        forall|j: int|
            from <= j < commands.len() ==> id_of(#[trigger] commands[j], list) != id,
    ensures
        carried_out(workers, list, commands).contains(id) == carried_out(
            workers,
            list,
            commands.take(from),
        ).contains(id),
    decreases commands.len(),
{
    if from == commands.len() {
        assert(commands.take(from) == commands);
    } else {
        let shorter = commands.drop_last();
        assert forall|j: int| from <= j < shorter.len() implies id_of(#[trigger] shorter[j], list)
            != id by {
            assert(shorter[j] == commands[j]);
        }
        lemma_untouched_after(workers, list, shorter, from, id);
        assert(shorter.take(from) == commands.take(from));
        assert(id_of(commands[commands.len() - 1], list) != id);
    }
}

/// Each instance that has a worker after a pass and had none before has a start that names its place,
/// and each that had one and has none has a stop.
pub proof fn law_change_of_workers_has_a_command(
    manager: ManagerView,
    step: ManagerStep,
    next: ManagerView,
    list: Vec<FederatedInstance>,
    done: Pass,
    id: i32,
)
    requires
        step.leads(manager, next),
        manager.opts.process_count > 0,
        manager.opts.process_index > 0,
        step.event == ManagerEvent::Instances(list),
        step.outcome == Ok::<ManagerAction, ManagerError>(ManagerAction::CarryOut(done)),
    ensures
        next.workers.contains(id) && !manager.workers.contains(id) ==> exists|k: int|
            0 <= k < done.commands@.len() && (#[trigger] done.commands@[k]
                matches WorkerCommand::Start { entry } && entry < list@.len()
                && list@[entry as int].instance.id.0 == id && list@[entry as int].allowed
                && !list@[entry as int].is_dead),
        manager.workers.contains(id) && !next.workers.contains(id) ==> exists|k: int|
            0 <= k < done.commands@.len() && (#[trigger] done.commands@[k]
                matches WorkerCommand::Stop { id: stopped } && stopped.0 == id),
{
    law_commands_come_from_the_list(manager, step, next, list, done);
    let commands = done.commands@;
    let sources = choose|sources: Seq<int>| come_from(commands, sources, manager, list@);
    if next.workers.contains(id) != manager.workers.contains(id) {
        let k = lemma_last_change(manager.workers, list@, commands, id);
        assert(0 <= sources[k] < list@.len());
        match commands[k] {
            WorkerCommand::Start { .. } => {},
            WorkerCommand::Stop { .. } => {},
        }
    }
}

/// Where a worker changed, there is a last command that is about it.
proof fn lemma_last_change(
    workers: Set<i32>,
    list: Seq<FederatedInstance>,
    commands: Seq<WorkerCommand>,
    id: i32,
) -> (k: int)
    requires
        carried_out(workers, list, commands).contains(id) != workers.contains(id),
    ensures
        0 <= k < commands.len(),
        id_of(commands[k], list) == id,
        commands[k] is Start <==> carried_out(workers, list, commands).contains(id),
    decreases commands.len(),
{
    let last = commands.len() - 1;
    if id_of(commands[last], list) == id {
        last
    } else {
        lemma_last_change(workers, list, commands.drop_last(), id)
    }
}

/// After a pass, the last entry of an own instance decides whether it has a worker: it has one
/// exactly if it is allowed and not dead. What ran before does not matter.
pub proof fn law_last_entry_decides(
    manager: ManagerView,
    step: ManagerStep,
    next: ManagerView,
    list: Vec<FederatedInstance>,
    i: int,
)
    requires
        step.leads(manager, next),
        manager.opts.process_count > 0,
        manager.opts.process_index > 0,
        step.event == ManagerEvent::Instances(list),
        0 <= i < list@.len(),
        is_own(
            list@[i],
            manager.opts.process_count,
            manager.opts.process_index,
            manager.local_domain,
        ),
        forall|j: int|
            i < j < list@.len() ==> (#[trigger] list@[j]).instance.id != list@[i].instance.id
                || list@[j].instance.domain@ == manager.local_domain,
    ensures
        next.workers.contains(list@[i].instance.id.0) <==> list@[i].allowed && !list@[i].is_dead,
{
    lemma_last_entry_decides(manager, list@, i);
}

proof fn lemma_last_entry_decides(manager: ManagerView, list: Seq<FederatedInstance>, i: int)
    requires
        manager.opts.process_count > 0,
        manager.opts.process_index > 0,
        0 <= i < list.len(),
        is_own(
            list[i],
            manager.opts.process_count,
            manager.opts.process_index,
            manager.local_domain,
        ),
        forall|j: int|
            i < j < list.len() ==> (#[trigger] list[j]).instance.id != list[i].instance.id
                || list[j].instance.domain@ == manager.local_domain,
    ensures
        pass(manager.workers, list, manager.opts, manager.local_domain).0.contains(
            list[i].instance.id.0,
        ) <==> list[i].allowed && !list[i].is_dead,
    decreases list.len(),
{
    let shorter = list.drop_last();
    law_process_takes_its_remainder(manager.opts, list[i], manager.local_domain);
    if i < list.len() - 1 {
        assert forall|j: int| i < j < shorter.len() implies (#[trigger] shorter[j]).instance.id
            != shorter[i].instance.id || shorter[j].instance.domain@ == manager.local_domain by {
            assert(shorter[j] == list[j]);
        }
        lemma_last_entry_decides(manager, shorter, i);
        let last = list[list.len() - 1];
        assert(last == list.last());
        assert(last.instance.id != list[i].instance.id || last.instance.domain@
            == manager.local_domain);
        assert(last.instance.id != list[i].instance.id ==> last.instance.id.0
            != list[i].instance.id.0);
    }
}

/// A worker goes on as it was if no own instance in the list has its number.
pub proof fn law_unlisted_worker_goes_on(
    manager: ManagerView,
    step: ManagerStep,
    next: ManagerView,
    list: Vec<FederatedInstance>,
    id: i32,
)
    requires
        step.leads(manager, next),
        manager.opts.process_count > 0,
        manager.opts.process_index > 0,
        step.event == ManagerEvent::Instances(list),
        forall|i: int|
            0 <= i < list@.len() && (#[trigger] list@[i]).instance.id.0 == id ==> !is_own(
                list@[i],
                manager.opts.process_count,
                manager.opts.process_index,
                manager.local_domain,
            ),
    ensures
        next.workers.contains(id) == manager.workers.contains(id),
{
    if lists(list@, manager.opts, manager.local_domain, id) {
        let i = choose|i: int|
            0 <= i < list@.len() && (#[trigger] list@[i]).in_scope(
                manager.opts,
                manager.local_domain,
            ) && list@[i].instance.id.0 == id;
        law_process_takes_its_remainder(manager.opts, list@[i], manager.local_domain);
    }
    law_other_workers_are_kept(manager.workers, list@, manager.opts, manager.local_domain, id);
}

/// How many entries of the list are own ones, of those that are `wanted`.
pub open spec fn own_entries(
    manager: ManagerView,
    list: Seq<FederatedInstance>,
    wanted: spec_fn(FederatedInstance) -> bool,
) -> nat
    decreases list.len(),
{
    if list.len() == 0 {
        0
    } else {
        let counts = wanted(list.last()) && is_own(
            list.last(),
            manager.opts.process_count,
            manager.opts.process_index,
            manager.local_domain,
        );
        own_entries(manager, list.drop_last(), wanted) + (if counts {
            1nat
        } else {
            0nat
        })
    }
}

/// A pass counts all own entries, those of them that are dead, and those that are disallowed. One
/// that is both is counted in each.
pub proof fn law_pass_counts_own_entries(
    manager: ManagerView,
    step: ManagerStep,
    next: ManagerView,
    list: Vec<FederatedInstance>,
    done: Pass,
)
    requires
        step.leads(manager, next),
        manager.opts.process_count > 0,
        manager.opts.process_index > 0,
        step.event == ManagerEvent::Instances(list),
        step.outcome == Ok::<ManagerAction, ManagerError>(ManagerAction::CarryOut(done)),
    ensures
        done.total_count == own_entries(manager, list@, |known: FederatedInstance| true),
        done.dead_count == own_entries(manager, list@, |known: FederatedInstance| known.is_dead),
        done.disallowed_count == own_entries(
            manager,
            list@,
            |known: FederatedInstance| !known.allowed,
        ),
{
    let opts = manager.opts;
    let local = manager.local_domain;
    lemma_filtered(
        manager,
        list@,
        |known: FederatedInstance| known.in_scope(opts, local),
        |known: FederatedInstance| true,
    );
    lemma_filtered(
        manager,
        list@,
        |known: FederatedInstance| known.in_scope(opts, local) && known.is_dead,
        |known: FederatedInstance| known.is_dead,
    );
    lemma_filtered(
        manager,
        list@,
        |known: FederatedInstance| known.in_scope(opts, local) && !known.allowed,
        |known: FederatedInstance| !known.allowed,
    );
}

proof fn lemma_filtered(
    manager: ManagerView,
    list: Seq<FederatedInstance>,
    pred: spec_fn(FederatedInstance) -> bool,
    wanted: spec_fn(FederatedInstance) -> bool,
)
    requires
        manager.opts.process_count > 0,
        manager.opts.process_index > 0,
        forall|known: FederatedInstance| #[trigger]
            pred(known) <==> wanted(known) && known.in_scope(manager.opts, manager.local_domain),
    ensures
        list.filter(pred).len() == own_entries(manager, list, wanted),
    decreases list.len(),
{
    reveal(Seq::filter);
    if list.len() > 0 {
        lemma_filtered(manager, list.drop_last(), pred, wanted);
        law_process_takes_its_remainder(manager.opts, list.last(), manager.local_domain);
        assert(pred(list.last()) <==> wanted(list.last()) && list.last().in_scope(
            manager.opts,
            manager.local_domain,
        ));
    }
}

} // verus!
