//! Which instances a process sends to.

use crate::queue::{Instance, InstanceId};
use std::collections::HashSet;
use vstd::prelude::*;

verus! {

broadcast use vstd::std_specs::hash::group_hash_axioms;

/// How the instances are shared between processes.
#[derive(Clone, Copy, Debug, PartialEq, Eq)]
pub struct Opts {
    /// How many processes there are in all.
    pub process_count: i32,
    /// The number of this process, from 1 to the number of processes.
    pub process_index: i32,
}

/// An instance that is known, and what is known of it.
#[derive(Debug, PartialEq, Eq)]
pub struct FederatedInstance {
    pub instance: Instance,
    /// Whether it is allowed to send to it.
    pub allowed: bool,
    /// Whether it has not answered for a long time.
    pub is_dead: bool,
}

/// What to do with the worker of an instance.
#[derive(Clone, Copy, Debug, PartialEq, Eq)]
pub enum WorkerCommand {
    /// Start a worker for the instance at this place in the list.
    Start { entry: usize },
    /// Stop the worker of this instance.
    Stop { id: InstanceId },
}

/// What came of a pass over the instances.
#[derive(Debug, PartialEq, Eq)]
pub struct Pass {
    pub commands: Vec<WorkerCommand>,
    /// The number of workers that run.
    pub worker_count: usize,
    /// The number of instances that this process is in charge of.
    pub total_count: usize,
    /// How many of them are dead.
    pub dead_count: usize,
    /// How many of them it is not allowed to send to.
    pub disallowed_count: usize,
}

/// What the manager waits for.
#[derive(Clone, Copy, Debug, PartialEq, Eq)]
pub enum ManagerPhase {
    /// The start.
    Idle,
    /// The domain of the own instance.
    LocalDomain,
    /// The instances that are known.
    Instances,
    /// The end of the wait after a pass over them.
    Waiting,
}

/// What happened.
#[derive(Debug, PartialEq, Eq)]
pub enum ManagerEvent {
    /// The manager was started.
    Started,
    /// The domain of the own instance was read.
    LocalDomain(String),
    /// The instances that are known were read.
    Instances(Vec<FederatedInstance>),
    /// What was to be read could not be read.
    NotRead,
    /// The wait is over, or was cut short because the manager is to end.
    Waited { cancelled: bool },
}

/// What to do next. The manager is told when it is done.
#[derive(Debug, PartialEq, Eq)]
pub enum ManagerAction {
    /// Read the domain of the own instance.
    ReadLocalDomain,
    /// Read the instances that are known.
    ReadInstances,
    /// Start and stop workers in the given order. Then wait until it is time to look again, or until
    /// the manager is to end.
    CarryOut(Pass),
    /// End.
    Finish,
}

/// Why the manager fails.
#[derive(Clone, Copy, Debug, PartialEq, Eq)]
pub enum ManagerError {
    /// The domain of the own instance could not be read.
    NoLocalDomain,
    /// The instances that are known could not be read.
    NoInstances,
}

/// Keeps a worker for each instance that this process sends to.
pub struct SendManager {
    opts: Opts,
    workers: HashSet<i32>,
    local_domain: String,
    phase: ManagerPhase,
}

/// What a [`SendManager`] holds.
pub struct ManagerView {
    pub opts: Opts,
    /// The instances for which a worker runs.
    pub workers: Set<i32>,
    /// The domain of the own instance, once it was read.
    pub local_domain: Seq<char>,
    pub phase: ManagerPhase,
}

impl Opts {
    /// There is a process, and this one has a number.
    pub open spec fn wf(self) -> bool {
        self.process_count > 0 && self.process_index > 0
    }

    /// Whether this process is in charge of the instance with this number. The remainder of the
    /// number tells, and that of a negative number is not positive.
    pub open spec fn in_charge(self, id: int) -> bool {
        if id >= 0 {
            id % (self.process_count as int) == self.process_index - 1
        } else {
            self.process_index == 1 && (-id) % (self.process_count as int) == 0
        }
    }
}

impl FederatedInstance {
    /// Whether activities are sent to it.
    pub open spec fn should_federate(self) -> bool {
        self.allowed && !self.is_dead
    }

    /// Whether it is another instance than the own one, and this process is in charge of it.
    pub open spec fn in_scope(self, opts: Opts, local_domain: Seq<char>) -> bool {
        self.instance.domain@ != local_domain && opts.in_charge(self.instance.id.0 as int)
    }
}

/// The workers that run after a pass over the list, and what was done for that. Each instance gets
/// a worker if activities are sent to it, and has none otherwise.
pub open spec fn pass(
    workers: Set<i32>,
    list: Seq<FederatedInstance>,
    opts: Opts,
    local_domain: Seq<char>,
) -> (Set<i32>, Seq<WorkerCommand>)
    decreases list.len(),
{
    if list.len() == 0 {
        (workers, Seq::empty())
    } else {
        let (workers, commands) = pass(workers, list.drop_last(), opts, local_domain);
        let known = list.last();
        let id = known.instance.id.0;
        if !known.in_scope(opts, local_domain) || workers.contains(id) == known.should_federate() {
            (workers, commands)
        } else if known.should_federate() {
            (
                workers.insert(id),
                commands.push(WorkerCommand::Start { entry: (list.len() - 1) as usize }),
            )
        } else {
            (workers.remove(id), commands.push(WorkerCommand::Stop { id: known.instance.id }))
        }
    }
}

/// How many in the list this process is in charge of.
pub open spec fn total_count(
    list: Seq<FederatedInstance>,
    opts: Opts,
    local_domain: Seq<char>,
) -> nat {
    list.filter(|known: FederatedInstance| known.in_scope(opts, local_domain)).len()
}

/// How many in the list this process is in charge of and are dead.
pub open spec fn dead_count(
    list: Seq<FederatedInstance>,
    opts: Opts,
    local_domain: Seq<char>,
) -> nat {
    list.filter(
        |known: FederatedInstance| known.in_scope(opts, local_domain) && known.is_dead,
    ).len()
}

/// How many in the list this process is in charge of and may not send to.
pub open spec fn disallowed_count(
    list: Seq<FederatedInstance>,
    opts: Opts,
    local_domain: Seq<char>,
) -> nat {
    list.filter(
        |known: FederatedInstance| known.in_scope(opts, local_domain) && !known.allowed,
    ).len()
}

/// To filter one item more gives one more, if it passes.
proof fn lemma_filter_last(
    list: Seq<FederatedInstance>,
    pred: spec_fn(FederatedInstance) -> bool,
    i: int,
)
    requires
        0 <= i < list.len(),
    ensures
        list.take(i + 1).filter(pred).len() == list.take(i).filter(pred).len() + (if pred(list[i]) {
            1int
        } else {
            0int
        }),
        list.take(i).filter(pred).len() <= i,
{
    reveal(Seq::filter);
    assert(list.take(i + 1).drop_last() == list.take(i));
    list.take(i).lemma_filter_len(pred);
}

impl Pass {
    /// Whether this is what came of a pass over the list, where these workers ran before.
    pub open spec fn is_of(
        self,
        before: Set<i32>,
        list: Seq<FederatedInstance>,
        opts: Opts,
        local_domain: Seq<char>,
    ) -> bool {
        let (workers, commands) = pass(before, list, opts, local_domain);
        &&& self.commands@ == commands
        &&& self.worker_count == workers.len()
        &&& self.total_count == total_count(list, opts, local_domain)
        &&& self.dead_count == dead_count(list, opts, local_domain)
        &&& self.disallowed_count == disallowed_count(list, opts, local_domain)
    }
}

impl ManagerView {
    /// Whether the manager waits for this event.
    pub open spec fn accepts(self, event: ManagerEvent) -> bool {
        match event {
            ManagerEvent::Started => self.phase is Idle,
            ManagerEvent::LocalDomain(_) => self.phase is LocalDomain,
            ManagerEvent::Instances(_) => self.phase is Instances,
            ManagerEvent::NotRead => self.phase is LocalDomain || self.phase is Instances,
            ManagerEvent::Waited { .. } => self.phase is Waiting,
        }
    }

    /// How the manager goes on after an event: to the state `next`, and with the given outcome. Each
    /// pass is followed by a wait, and that by the next pass, or by the end if it is cancelled.
    pub open spec fn transition(
        self,
        event: ManagerEvent,
        next: ManagerView,
        outcome: Result<ManagerAction, ManagerError>,
    ) -> bool {
        match (self.phase, event) {
            (ManagerPhase::Idle, ManagerEvent::Started) => {
                &&& next == (ManagerView { phase: ManagerPhase::LocalDomain, ..self })
                &&& outcome == Ok::<ManagerAction, ManagerError>(ManagerAction::ReadLocalDomain)
            },
            (ManagerPhase::LocalDomain, ManagerEvent::LocalDomain(domain)) => {
                &&& next == (ManagerView {
                    local_domain: domain@,
                    phase: ManagerPhase::Instances,
                    ..self
                })
                &&& outcome == Ok::<ManagerAction, ManagerError>(ManagerAction::ReadInstances)
            },
            (ManagerPhase::Instances, ManagerEvent::Instances(list)) => {
                &&& next == (ManagerView {
                    workers: pass(self.workers, list@, self.opts, self.local_domain).0,
                    phase: ManagerPhase::Waiting,
                    ..self
                })
                &&& outcome matches Ok(ManagerAction::CarryOut(done)) && done.is_of(
                    self.workers,
                    list@,
                    self.opts,
                    self.local_domain,
                )
            },
            (ManagerPhase::Waiting, ManagerEvent::Waited { cancelled }) => if cancelled {
                &&& next == (ManagerView { phase: ManagerPhase::Idle, ..self })
                &&& outcome == Ok::<ManagerAction, ManagerError>(ManagerAction::Finish)
            } else {
                &&& next == (ManagerView { phase: ManagerPhase::Instances, ..self })
                &&& outcome == Ok::<ManagerAction, ManagerError>(ManagerAction::ReadInstances)
            },
            (ManagerPhase::LocalDomain, ManagerEvent::NotRead) => {
                &&& next == (ManagerView { phase: ManagerPhase::Idle, ..self })
                &&& outcome == Err::<ManagerAction, ManagerError>(ManagerError::NoLocalDomain)
            },
            (ManagerPhase::Instances, ManagerEvent::NotRead) => {
                &&& next == (ManagerView { phase: ManagerPhase::Idle, ..self })
                &&& outcome == Err::<ManagerAction, ManagerError>(ManagerError::NoInstances)
            },
            _ => false,
        }
    }
}

impl View for SendManager {
    type V = ManagerView;

    closed spec fn view(&self) -> ManagerView {
        ManagerView {
            opts: self.opts,
            workers: self.workers@,
            local_domain: self.local_domain@,
            phase: self.phase,
        }
    }
}

impl SendManager {
    #[verifier::type_invariant]
    spec fn wf(self) -> bool {
        self.opts.wf()
    }

    /// A manager without workers.
    pub fn new(opts: Opts) -> (manager: SendManager)
        requires
            opts.wf(),
        ensures
            manager@ == (ManagerView {
                opts,
                workers: Set::empty(),
                local_domain: Seq::empty(),
                phase: ManagerPhase::Idle,
            }),
    {
        SendManager {
            opts,
            workers: HashSet::new(),
            local_domain: String::new(),
            phase: ManagerPhase::Idle,
        }
    }

    pub fn opts(&self) -> (opts: Opts)
        ensures
            opts == self@.opts,
    {
        self.opts
    }

    pub fn phase(&self) -> (phase: ManagerPhase)
        ensures
            phase == self@.phase,
    {
        self.phase
    }

    /// The number of workers that run.
    pub fn worker_count(&self) -> (count: usize)
        ensures
            count == self@.workers.len(),
    {
        self.workers.len()
    }

    /// Whether a worker runs for the instance.
    pub fn has_worker(&self, id: InstanceId) -> (has: bool)
        ensures
            has == self@.workers.contains(id.0),
    {
        self.workers.contains(&id.0)
    }

    /// Whether the manager waits for this event.
    pub fn accepts(&self, event: &ManagerEvent) -> (accepts: bool)
        ensures
            accepts == self@.accepts(*event),
    {
        match (self.phase, event) {
            (ManagerPhase::Idle, ManagerEvent::Started)
            | (ManagerPhase::LocalDomain, ManagerEvent::LocalDomain(_))
            | (ManagerPhase::LocalDomain, ManagerEvent::NotRead)
            | (ManagerPhase::Instances, ManagerEvent::Instances(_))
            | (ManagerPhase::Instances, ManagerEvent::NotRead)
            | (ManagerPhase::Waiting, ManagerEvent::Waited { .. }) => true,
            _ => false,
        }
    }

    /// Whether this process is in charge of the instance.
    fn in_charge(&self, id: InstanceId) -> (is: bool)
        ensures
            is == self@.opts.in_charge(id.0 as int),
    {
        proof {
            use_type_invariant(self);
        }
        id.0 % self.opts.process_count == self.opts.process_index - 1
    }

    /// Goes on after something happened: goes over the instances that are known again and again, with
    /// a wait after each pass, until it is cancelled.
    pub fn do_loop(&mut self, event: ManagerEvent) -> (outcome: Result<ManagerAction, ManagerError>)
        requires
            old(self)@.accepts(event),
        ensures
            old(self)@.transition(event, final(self)@, outcome),
    {
        proof {
            use_type_invariant(&*self);
        }
        match (self.phase, event) {
            (ManagerPhase::Idle, ManagerEvent::Started) => {
                self.phase = ManagerPhase::LocalDomain;
                Ok(ManagerAction::ReadLocalDomain)
            },
            (ManagerPhase::LocalDomain, ManagerEvent::LocalDomain(domain)) => {
                self.local_domain = domain;
                self.phase = ManagerPhase::Instances;
                Ok(ManagerAction::ReadInstances)
            },
            (ManagerPhase::LocalDomain, _) => {
                self.phase = ManagerPhase::Idle;
                Err(ManagerError::NoLocalDomain)
            },
            (ManagerPhase::Instances, ManagerEvent::Instances(list)) => {
                let done = self.check_instances(&list);
                self.phase = ManagerPhase::Waiting;
                Ok(ManagerAction::CarryOut(done))
            },
            (ManagerPhase::Instances, _) => {
                self.phase = ManagerPhase::Idle;
                Err(ManagerError::NoInstances)
            },
            (ManagerPhase::Waiting, ManagerEvent::Waited { cancelled: false }) => {
                self.phase = ManagerPhase::Instances;
                Ok(ManagerAction::ReadInstances)
            },
            _ => {
                self.phase = ManagerPhase::Idle;
                Ok(ManagerAction::Finish)
            },
        }
    }

    /// Goes over the instances that are known once.
    fn check_instances(&mut self, list: &Vec<FederatedInstance>) -> (done: Pass)
        ensures
            final(self)@ == (ManagerView {
                workers: pass(
                    old(self)@.workers,
                    list@,
                    old(self)@.opts,
                    old(self)@.local_domain,
                ).0,
                ..old(self)@
            }),
            done.is_of(old(self)@.workers, list@, old(self)@.opts, old(self)@.local_domain),
    {
        proof {
            use_type_invariant(&*self);
        }
        let mut commands: Vec<WorkerCommand> = Vec::new();
        let mut total_count: usize = 0;
        let mut dead_count: usize = 0;
        let mut disallowed_count: usize = 0;
        let mut workers: HashSet<i32> = HashSet::new();
        core::mem::swap(&mut workers, &mut self.workers);
        let ghost opts = self.opts;
        let ghost local = self.local_domain@;
        let ghost scope = |known: FederatedInstance| known.in_scope(opts, local);
        let ghost dead = |known: FederatedInstance| known.in_scope(opts, local) && known.is_dead;
        let ghost disallowed = |known: FederatedInstance|
            known.in_scope(opts, local) && !known.allowed;
        proof {
            reveal(Seq::filter);
            assert(list@.take(0) == Seq::<FederatedInstance>::empty());
        }
        for i in 0..list.len()
            invariant
                self.opts == opts,
                opts == old(self).opts,
                opts.wf(),
                local == self.local_domain@,
                self.local_domain == old(self).local_domain,
                self.phase == old(self).phase,
                scope == (|known: FederatedInstance| known.in_scope(opts, local)),
                dead == (|known: FederatedInstance|
                    known.in_scope(opts, local) && known.is_dead),
                disallowed == (|known: FederatedInstance|
                    known.in_scope(opts, local) && !known.allowed),
                (workers@, commands@) == pass(
                    old(self).workers@,
                    list@.take(i as int),
                    opts,
                    local,
                ),
                total_count == list@.take(i as int).filter(scope).len(),
                dead_count == list@.take(i as int).filter(dead).len(),
                disallowed_count == list@.take(i as int).filter(disallowed).len(),
        {
            proof {
                lemma_filter_last(list@, scope, i as int);
                lemma_filter_last(list@, dead, i as int);
                lemma_filter_last(list@, disallowed, i as int);
                assert(list@.take(i + 1).drop_last() == list@.take(i as int));
                assert(list@.take(i + 1).last() == list@[i as int]);
            }
            let known = &list[i];
            if known.instance.domain != self.local_domain && self.in_charge(known.instance.id) {
                total_count = total_count + 1;
                if !known.allowed {
                    disallowed_count = disallowed_count + 1;
                }
                if known.is_dead {
                    dead_count = dead_count + 1;
                }
                let should_federate = known.allowed && !known.is_dead;
                let id: i32 = known.instance.id.0;
                if should_federate {
                    if !workers.contains(&id) {
                        workers.insert(id);
                        commands.push(WorkerCommand::Start { entry: i });
                    }
                } else if workers.remove(&id) {
                    commands.push(WorkerCommand::Stop { id: known.instance.id });
                }
            }
        }
        assert(list@.take(list@.len() as int) == list@);
        let worker_count: usize = workers.len();
        self.workers = workers;
        Pass { commands, worker_count, total_count, dead_count, disallowed_count }
    }

    /// Gives the workers up, all of which have to be stopped.
    pub fn cancel(self) -> (stop: Vec<InstanceId>)
        ensures
            forall|id: InstanceId| stop@.contains(id) <==> self@.workers.contains(id.0),
            stop@.no_duplicates(),
            stop@.len() == self@.workers.len(),
    {
        let ghost keys = vstd::std_specs::iter::IteratorSpec::remaining(&self.workers.iter());
        let mut stop: Vec<InstanceId> = Vec::new();
        for id in running: self.workers.iter()
            invariant
                running.seq() == keys,
                stop@ == keys.take(running.index() as int).map_values(|id: &i32| InstanceId(*id)),
        {
            stop.push(InstanceId(*id));
        }
        proof {
            assert(keys.take(keys.len() as int) == keys);
            assert forall|id: InstanceId| stop@.contains(id) == self.workers@.contains(id.0) by {
                let bare = keys.unref();
                assert(bare.to_set() == self.workers@);
                if stop@.contains(id) {
                    let i = choose|i: int| 0 <= i < stop@.len() && stop@[i] == id;
                    assert(bare[i] == id.0);
                    assert(bare.to_set().contains(id.0));
                }
                if self.workers@.contains(id.0) {
                    assert(bare.contains(id.0));
                    let i = choose|i: int| 0 <= i < bare.len() && bare[i] == id.0;
                    assert(stop@[i] == id);
                }
            }
        }
        stop
    }
}

} // verus!
