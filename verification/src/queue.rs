//! What the worker of an instance knows of the activities on their way.

use crate::activity::{ActivityId, SendActivityResult, SendSuccessInfo};
use crate::heap::{is_first, SuccessHeap};
use crate::time::{
    day_past, is_day_past, nanos_between, nanos_since, signed_nanos_between, Timestamp,
};
use vstd::multiset::Multiset;
use vstd::prelude::*;

verus! {

/// The state is saved when this time has passed since it was last saved, so that after a crash
/// little more than the activities of this time are sent again.
pub const SAVE_STATE_EVERY_NANOS: i128 = 60_000_000_000;

/// The most activities that may have been sent out of order before the worker waits.
pub const MAX_SUCCESSFULS: usize = 1000;

/// The number of an instance.
#[derive(Clone, Copy, Debug, PartialEq, Eq, Structural)]
pub struct InstanceId(pub i32);

/// Another instance, to which activities are sent.
#[derive(Debug, PartialEq, Eq)]
pub struct Instance {
    pub id: InstanceId,
    pub domain: String,
    pub published: Timestamp,
    /// When the instance was last known to be alive, if it was ever updated.
    pub updated: Option<Timestamp>,
}

/// How far the sending to an instance has come, as it is kept in the database.
#[derive(Clone, Copy, Debug, PartialEq, Eq)]
pub struct FederationQueueState {
    /// Every activity up to this one needs no more sending. It is not set for a new instance.
    pub last_successful_id: Option<ActivityId>,
    pub last_successful_published_time: Option<Timestamp>,
    /// The number of failures in a row.
    pub fail_count: i32,
    pub last_retry: Option<Timestamp>,
}

/// Why a worker cannot go on.
#[derive(Clone, Copy, Debug, PartialEq, Eq)]
pub enum WorkerError {
    /// There were failures, but it is not known when the last one was.
    LastRetryMissing,
    /// The last failure lies in the future.
    LastRetryInFuture,
}

/// The activities on their way to an instance.
pub struct SendQueue {
    instance: Instance,
    state: FederationQueueState,
    last_state_insert: Timestamp,
    latest_id: ActivityId,
    successfuls: SuccessHeap,
    in_flight: i64,
    concurrent_sends: i64,
}

/// What a [`SendQueue`] holds.
pub struct QueueView {
    pub instance: Instance,
    pub state: FederationQueueState,
    /// When the state was last saved.
    pub last_state_insert: Timestamp,
    /// The newest activity that is known of.
    pub latest_id: int,
    /// The activities that need no more sending, while an earlier one still does.
    pub successfuls: Multiset<SendSuccessInfo>,
    /// The number of activities that are being sent.
    pub in_flight: int,
    /// How many may be sent at once.
    pub concurrent_sends: i64,
}

/// The time at which the instance was last known to be alive.
pub open spec fn last_update(instance: Instance) -> Timestamp {
    match instance.updated {
        Some(updated) => updated,
        None => instance.published,
    }
}

/// The nanoseconds since the last failure, where there are failures.
pub open spec fn fail_elapsed(state: FederationQueueState, now: Timestamp) -> Result<
    Option<u128>,
    WorkerError,
> {
    if state.fail_count <= 0 {
        Ok(None)
    } else {
        match state.last_retry {
            None => Err(WorkerError::LastRetryMissing),
            Some(last_retry) => if nanos_between(now, last_retry) < 0 {
                Err(WorkerError::LastRetryInFuture)
            } else {
                Ok(Some(nanos_between(now, last_retry) as u128))
            },
        }
    }
}

impl QueueView {
    /// The state of an instance for which nothing is on its way.
    pub open spec fn initial(
        instance: Instance,
        state: FederationQueueState,
        concurrent_sends: i64,
    ) -> QueueView {
        QueueView {
            instance,
            state,
            last_state_insert: Timestamp::unix_epoch(),
            latest_id: 0,
            successfuls: Multiset::empty(),
            in_flight: 0,
            concurrent_sends,
        }
    }

    /// The last activity that was handed out for sending, where everything up to `last` was.
    pub open spec fn highest_id(self, last: ActivityId) -> int {
        last.0 + self.successfuls.len() + self.in_flight
    }

    /// Whether there is a next activity whose number can be written down.
    pub open spec fn next_id_fits(self) -> bool {
        &&& self.state.last_successful_id is Some
        &&& self.successfuls.len() <= i64::MAX
        &&& (self.state.last_successful_id->0).0 + self.successfuls.len() <= i64::MAX
        &&& i64::MIN <= self.highest_id(self.state.last_successful_id->0) < i64::MAX
    }

    /// Whether nothing may be sent before something was heard of what is on its way: the last
    /// attempt failed, or too much was sent out of order, or too much is being sent.
    pub open spec fn need_wait(self) -> bool {
        ||| self.in_flight != 0 && self.state.fail_count > 0
        ||| self.successfuls.len() >= MAX_SUCCESSFULS
        ||| self.in_flight >= self.concurrent_sends
    }

    /// After the newest activity was read. It is as if all of them had been sent, if the instance
    /// is new.
    pub open spec fn with_latest(self, latest: ActivityId, now: Timestamp) -> QueueView {
        let read = QueueView { latest_id: latest.0 as int, ..self };
        if self.state.last_successful_id is None {
            QueueView {
                state: FederationQueueState { last_successful_id: Some(latest), ..self.state },
                last_state_insert: now,
                ..read
            }
        } else {
            read
        }
    }

    /// Whether a result tells that the instance is alive, and that was not known for a day.
    pub open spec fn news_of_life(self, result: SendActivityResult, now: Timestamp) -> bool {
        match result {
            SendActivityResult::Success(info) => !info.was_skipped && day_past(
                last_update(self.instance),
                now,
            ),
            SendActivityResult::Failure { .. } => false,
        }
    }

    /// Whether a result tells of more failures in a row than were known.
    pub open spec fn news_of_failure(self, result: SendActivityResult) -> bool {
        match result {
            SendActivityResult::Success(_) => false,
            SendActivityResult::Failure { fail_count } => fail_count > self.state.fail_count,
        }
    }

    /// After the result of a send was received.
    pub open spec fn with_result(self, result: SendActivityResult, now: Timestamp) -> QueueView {
        match result {
            SendActivityResult::Success(info) => QueueView {
                instance: if self.news_of_life(result, now) {
                    Instance { updated: Some(now), ..self.instance }
                } else {
                    self.instance
                },
                state: FederationQueueState { fail_count: 0, ..self.state },
                successfuls: self.successfuls.insert(info),
                in_flight: self.in_flight - 1,
                ..self
            },
            SendActivityResult::Failure { fail_count } => if self.news_of_failure(result) {
                QueueView {
                    state: FederationQueueState { fail_count, last_retry: Some(now), ..self.state },
                    ..self
                }
            } else {
                self
            },
        }
    }

    /// Whether the result of a send can be received without leaving the range of the numbers.
    pub open spec fn takes_result(self, result: SendActivityResult) -> bool {
        match result {
            SendActivityResult::Success(info) => self.in_flight > i64::MIN && (!info.was_skipped
                ==> last_update(self.instance).days_later_fits(1)),
            SendActivityResult::Failure { .. } => true,
        }
    }

    /// After the activities in `run` were taken out one after the other. They follow upon the last
    /// successful one without a gap, and each one was the first in the heap when its turn came.
    pub open spec fn without_run(self, run: Seq<SendSuccessInfo>, rest: QueueView) -> bool {
        &&& self.successfuls == rest.successfuls.add(run.to_multiset())
        &&& self.state.last_successful_id matches Some(last) && {
            &&& forall|i: int|
                0 <= i < run.len() ==> (#[trigger] run[i]).id() == last.0 + 1 + i
            &&& forall|i: int, s: SendSuccessInfo|
                0 <= i < run.len() && rest.successfuls.contains(s) ==> (#[trigger] run[i]).id()
                    <= #[trigger] s.id()
        }
        &&& rest == QueueView {
            state: if run.len() == 0 {
                self.state
            } else {
                FederationQueueState {
                    last_successful_id: Some(run.last().activity_id),
                    last_successful_published_time: run.last().published,
                    ..self.state
                }
            },
            successfuls: rest.successfuls,
            ..self
        }
    }

    /// Whether the first activity in the heap is not the one that follows upon the last successful
    /// one.
    pub open spec fn is_stuck(self) -> bool {
        self.state.last_successful_id matches Some(last) && forall|s: SendSuccessInfo| #[trigger]
            is_first(self.successfuls, s) ==> s.id() != last.0 + 1
    }

    /// After all that follows upon the last successful activity without a gap was taken out.
    pub open spec fn popped(self, rest: QueueView) -> bool {
        &&& rest.is_stuck()
        &&& exists|run: Seq<SendSuccessInfo>| self.without_run(run, rest)
    }

    /// Whether the state is to be saved.
    pub open spec fn is_save_due(self, force_write: bool, now: Timestamp) -> bool {
        force_write || nanos_between(now, self.last_state_insert) > SAVE_STATE_EVERY_NANOS
    }
}

impl View for SendQueue {
    type V = QueueView;

    closed spec fn view(&self) -> QueueView {
        QueueView {
            instance: self.instance,
            state: self.state,
            last_state_insert: self.last_state_insert,
            latest_id: self.latest_id.0 as int,
            successfuls: self.successfuls@,
            in_flight: self.in_flight as int,
            concurrent_sends: self.concurrent_sends,
        }
    }
}

/// How long to sleep, in nanoseconds, where `elapsed` nanoseconds passed since the last failure and
/// `required` have to pass before the next attempt.
pub fn initial_fail_sleep(elapsed: u128, required: u128) -> (remaining: Option<u128>)
    ensures
        remaining is Some <==> elapsed < required,
        remaining matches Some(r) ==> r == required - elapsed,
{
    if elapsed >= required {
        None
    } else {
        Some(required - elapsed)
    }
}

impl SendQueue {
    pub fn new(instance: Instance, state: FederationQueueState, concurrent_sends: i64) -> (queue:
        SendQueue)
        ensures
            queue@ == QueueView::initial(instance, state, concurrent_sends),
    {
        SendQueue {
            instance,
            state,
            last_state_insert: Timestamp::epoch(),
            latest_id: ActivityId(0),
            successfuls: SuccessHeap::new(),
            in_flight: 0,
            concurrent_sends,
        }
    }

    pub fn instance(&self) -> (instance: &Instance)
        ensures
            *instance == self@.instance,
    {
        &self.instance
    }

    pub fn state(&self) -> (state: FederationQueueState)
        ensures
            state == self@.state,
    {
        self.state
    }

    pub fn last_state_insert(&self) -> (at: Timestamp)
        ensures
            at == self@.last_state_insert,
    {
        self.last_state_insert
    }

    pub fn latest_id(&self) -> (id: ActivityId)
        ensures
            id.0 == self@.latest_id,
    {
        self.latest_id
    }

    pub fn in_flight(&self) -> (in_flight: i64)
        ensures
            in_flight == self@.in_flight,
    {
        self.in_flight
    }

    /// The number of activities that need no more sending, while an earlier one still does.
    pub fn successfuls(&self) -> (len: usize)
        ensures
            len == self@.successfuls.len(),
    {
        self.successfuls.len()
    }

    /// The nanoseconds since the last failure, where there are failures.
    pub fn fail_elapsed(&self, now: Timestamp) -> (elapsed: Result<Option<u128>, WorkerError>)
        ensures
            elapsed == fail_elapsed(self@.state, now),
    {
        if self.state.fail_count > 0 {
            match self.state.last_retry {
                None => Err(WorkerError::LastRetryMissing),
                Some(last_retry) => match nanos_since(now, last_retry) {
                    None => Err(WorkerError::LastRetryInFuture),
                    Some(elapsed) => Ok(Some(elapsed)),
                },
            }
        } else {
            Ok(None)
        }
    }

    /// Notes the newest activity, and gives the state to save if the instance is new.
    pub fn get_latest_id(&mut self, latest: ActivityId, now: Timestamp) -> (save: Option<
        FederationQueueState,
    >)
        ensures
            final(self)@ == old(self)@.with_latest(latest, now),
            save is Some <==> old(self)@.state.last_successful_id is None,
            save matches Some(state) ==> state == final(self)@.state,
    {
        self.latest_id = latest;
        if self.state.last_successful_id.is_none() {
            // This is the first that is seen of the instance: past activities are skipped.
            self.state.last_successful_id = Some(latest);
            Some(self.save_and_send_state(now))
        } else {
            None
        }
    }

    /// Whether nothing may be sent before something was heard of what is on its way.
    pub fn need_wait_for_event(&self) -> (wait: bool)
        ensures
            wait == self@.need_wait(),
    {
        (self.in_flight != 0 && self.state.fail_count > 0) || self.successfuls.len()
            >= MAX_SUCCESSFULS || self.in_flight >= self.concurrent_sends
    }

    /// Whether there is a next activity whose number can be written down.
    pub fn next_id_fits(&self) -> (fits: bool)
        ensures
            fits == self@.next_id_fits(),
    {
        let len: usize = self.successfuls.len();
        match self.state.last_successful_id {
            None => false,
            Some(last) => {
                let len: i128 = len as i128;
                let sent: i128 = last.0 as i128 + len;
                let highest: i128 = sent + self.in_flight as i128;
                len <= i64::MAX as i128 && sent <= i64::MAX as i128 && i64::MIN as i128 <= highest
                    && highest < i64::MAX as i128
            },
        }
    }

    /// The next activity to send: the one after all that were sent and that are being sent.
    pub fn next_id(&self) -> (id: ActivityId)
        requires
            self@.next_id_fits(),
        ensures
            self@.state.last_successful_id matches Some(last) && id.0 == self@.highest_id(last) + 1,
    {
        match self.state.last_successful_id {
            Some(last) => ActivityId(last.0 + self.successfuls.len() as i64 + self.in_flight + 1),
            None => ActivityId(0),
        }
    }

    /// Whether the newest activity that is known of is not as new as this one.
    pub fn is_ahead(&self, id: ActivityId) -> (ahead: bool)
        ensures
            ahead == (id.0 > self@.latest_id),
    {
        id.0 > self.latest_id.0
    }

    /// Counts one more activity that is being sent.
    pub fn begin_send(&mut self)
        requires
            old(self)@.in_flight < i64::MAX,
        ensures
            final(self)@ == (QueueView { in_flight: old(self)@.in_flight + 1, ..old(self)@ }),
    {
        self.in_flight = self.in_flight + 1;
    }

    /// Whether the result of a send can be received without leaving the range of the numbers.
    pub fn takes_result(&self, result: &SendActivityResult) -> (takes: bool)
        ensures
            takes == self@.takes_result(*result),
    {
        match result {
            SendActivityResult::Success(info) => self.in_flight > i64::MIN && (info.was_skipped
                || self.last_update().day_later_fits()),
            SendActivityResult::Failure { .. } => true,
        }
    }

    fn last_update(&self) -> (at: Timestamp)
        ensures
            at == last_update(self@.instance),
    {
        match self.instance.updated {
            Some(updated) => updated,
            None => self.instance.published,
        }
    }

    /// Takes note of the result of a send. Gives the time at which the instance is now known to be
    /// alive, if that is news, and whether the state is to be saved in any case.
    pub fn handle_send_result(&mut self, result: SendActivityResult, now: Timestamp) -> (news: (
        Option<Timestamp>,
        bool,
    ))
        requires
            old(self)@.takes_result(result),
        ensures
            final(self)@ == old(self)@.with_result(result, now),
            news.0 == (if old(self)@.news_of_life(result, now) {
                Some(now)
            } else {
                None
            }),
            news.1 == old(self)@.news_of_failure(result),
    {
        match result {
            SendActivityResult::Success(info) => {
                self.state.fail_count = 0;
                self.in_flight = self.in_flight - 1;
                let alive = if info.was_skipped {
                    None
                } else {
                    self.mark_instance_alive(now)
                };
                self.successfuls.push(info);
                (alive, false)
            },
            SendActivityResult::Failure { fail_count } => {
                if fail_count > self.state.fail_count {
                    self.state.fail_count = fail_count;
                    self.state.last_retry = Some(now);
                    (None, true)
                } else {
                    (None, false)
                }
            },
        }
    }

    /// Marks the instance as alive if it was not for a day, and gives the time if it does.
    pub fn mark_instance_alive(&mut self, now: Timestamp) -> (alive: Option<Timestamp>)
        requires
            last_update(old(self)@.instance).days_later_fits(1),
        ensures
            day_past(last_update(old(self)@.instance), now) ==> alive == Some(now)
                && final(self)@.instance == (Instance {
                updated: Some(now),
                ..old(self)@.instance
            }),
            !day_past(last_update(old(self)@.instance), now) ==> alive is None
                && final(self)@.instance == old(self)@.instance,
            final(self)@ == (QueueView { instance: final(self)@.instance, ..old(self)@ }),
    {
        if is_day_past(self.last_update(), now) {
            self.instance.updated = Some(now);
            Some(now)
        } else {
            None
        }
    }

    /// Moves the last successful activity past all that follow upon it without a gap and were
    /// sent, and gives the state if it is to be saved. Nothing happens if there is no last
    /// successful activity.
    pub fn pop_successfuls_and_write(&mut self, force_write: bool, now: Timestamp) -> (save: Option<
        FederationQueueState,
    >)
        ensures
            old(self)@.state.last_successful_id is None ==> final(self)@ == old(self)@
                && save is None,
            old(self)@.state.last_successful_id is Some ==> {
                let due = old(self)@.is_save_due(force_write, now);
                let rest = QueueView {
                    last_state_insert: old(self)@.last_state_insert,
                    ..final(self)@
                };
                &&& old(self)@.popped(rest)
                &&& final(self)@.last_state_insert == (if due {
                    now
                } else {
                    old(self)@.last_state_insert
                })
                &&& save == (if due {
                    Some(final(self)@.state)
                } else {
                    None
                })
            },
    {
        let mut last_id: i64 = match self.state.last_successful_id {
            Some(last) => last.0,
            None => {
                return None;
            },
        };
        let ghost first_id = last_id;
        let ghost mut run = Seq::<SendSuccessInfo>::empty();
        proof {
            run.to_multiset_ensures();
            assert(run.to_multiset() =~= Multiset::<SendSuccessInfo>::empty());
            assert(old(self)@.successfuls =~= self@.successfuls.add(run.to_multiset()));
            assert(old(self)@.without_run(run, self@));
        }
        loop
            invariant
                old(self)@.state.last_successful_id == Some(ActivityId(first_id)),
                self@.state.last_successful_id == Some(ActivityId(last_id)),
                last_id == first_id + run.len(),
                old(self)@.without_run(run, self@),
            ensures
                self@.is_stuck(),
            decreases self@.successfuls.len(),
        {
            let follows = match self.successfuls.peek() {
                Some(first) => last_id < i64::MAX && first.activity_id.0 == last_id + 1,
                None => false,
            };
            if !follows {
                break;
            }
            let ghost before = self@;
            if let Some(next) = self.successfuls.pop() {
                last_id = next.activity_id.0;
                self.state.last_successful_id = Some(next.activity_id);
                self.state.last_successful_published_time = next.published;
                proof {
                    lemma_longer_run(old(self)@, run, before, next, self@);
                    run = run.push(next);
                }
            }
        }
        if force_write || signed_nanos_between(now, self.last_state_insert)
            > SAVE_STATE_EVERY_NANOS {
            Some(self.save_and_send_state(now))
        } else {
            None
        }
    }

    /// Notes that the state is saved, and gives it.
    pub fn save_and_send_state(&mut self, now: Timestamp) -> (state: FederationQueueState)
        ensures
            final(self)@ == (QueueView { last_state_insert: now, ..old(self)@ }),
            state == old(self)@.state,
    {
        self.last_state_insert = now;
        self.state
    }
}

/// To take out the first one more makes the run longer by it.
proof fn lemma_longer_run(
    start: QueueView,
    run: Seq<SendSuccessInfo>,
    before: QueueView,
    next: SendSuccessInfo,
    after: QueueView,
)
    requires
        start.without_run(run, before),
        is_first(before.successfuls, next),
        before.state.last_successful_id matches Some(last) && next.id() == last.0 + 1,
        after == (QueueView {
            state: FederationQueueState {
                last_successful_id: Some(next.activity_id),
                last_successful_published_time: next.published,
                ..before.state
            },
            successfuls: before.successfuls.remove(next),
            ..before
        }),
    ensures
        start.without_run(run.push(next), after),
{
    broadcast use vstd::multiset::group_multiset_axioms;

    let longer = run.push(next);
    run.to_multiset_ensures();
    assert(longer.to_multiset() =~= run.to_multiset().insert(next));
    assert(start.successfuls =~= after.successfuls.add(longer.to_multiset()));
    assert forall|s: SendSuccessInfo| after.successfuls.contains(s) implies #[trigger] s.id()
        >= next.id() && before.successfuls.contains(s) by {}
    assert(longer.last() == next);
    if run.len() > 0 {
        assert(run.last().id() == (start.state.last_successful_id->0).0 + run.len());
    }
    assert forall|i: int, s: SendSuccessInfo|
        0 <= i < longer.len() && after.successfuls.contains(s) implies (#[trigger] longer[i]).id()
        <= #[trigger] s.id() by {
        if i < run.len() {
            assert(longer[i] == run[i]);
        }
    }
}

} // verus!
