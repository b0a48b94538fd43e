//! What holds of the activities on their way to an instance, whatever state they are in.

use crate::activity::{ActivityId, SendActivityResult, SendSuccessInfo};
use crate::laws::steps::can_note;
use crate::queue::QueueView;
use crate::time::Timestamp;
use vstd::prelude::*;

verus! {

/// A success ends the failures, and a failure counts only if there are more than before. The time of
/// the last retry is that of the last failure that counted. Nothing else in the state changes.
pub proof fn law_result_changes_failures_only(
    queue: QueueView,
    result: SendActivityResult,
    now: Timestamp,
)
    ensures
        ({
            let before = queue.state;
            let after = queue.with_result(result, now).state;
            &&& after.last_successful_id == before.last_successful_id
            &&& after.last_successful_published_time == before.last_successful_published_time
            &&& result is Success ==> after.fail_count == 0 && after.last_retry
                == before.last_retry
            &&& result matches SendActivityResult::Failure { fail_count } ==> {
                &&& fail_count > before.fail_count ==> after.fail_count == fail_count
                    && after.last_retry == Some(now) && queue.news_of_failure(result)
                &&& fail_count <= before.fail_count ==> after == before
                    && !queue.news_of_failure(result)
            }
            &&& result is Success ==> !queue.news_of_failure(result)
        }),
{
}

/// Of two failures that are reported, the larger number counts in the end, whichever comes first.
pub proof fn law_most_failures_count(queue: QueueView, a: i32, b: i32, now: Timestamp)
    ensures
        ({
            let after = queue.with_result(
                SendActivityResult::Failure { fail_count: a },
                now,
            ).with_result(SendActivityResult::Failure { fail_count: b }, now).state.fail_count;
            &&& after >= a
            &&& after >= b
            &&& after >= queue.state.fail_count
            &&& after == a || after == b || after == queue.state.fail_count
        }),
{
}

/// A success leaves one less on its way, and is kept. A failure changes neither. The newest
/// activity, the time of the last save and the limit stay as they are.
pub proof fn law_result_moves_one_activity(
    queue: QueueView,
    result: SendActivityResult,
    now: Timestamp,
    s: SendSuccessInfo,
)
    ensures
        ({
            let after = queue.with_result(result, now);
            let kept = result == SendActivityResult::Success(s);
            &&& after.in_flight == queue.in_flight - (if result is Success {
                1int
            } else {
                0int
            })
            &&& after.successfuls.count(s) == queue.successfuls.count(s) + (if kept {
                1int
            } else {
                0int
            })
            &&& after.latest_id == queue.latest_id
            &&& after.last_state_insert == queue.last_state_insert
            &&& after.concurrent_sends == queue.concurrent_sends
        }),
{
    broadcast use vstd::multiset::group_multiset_axioms;

}

/// Only an activity that was not skipped shows that the instance is alive, and that is noted only if
/// more than a day passed since it was last known. Once it is noted, it is no news for a day.
pub proof fn law_life_is_noted_once_a_day(
    queue: QueueView,
    result: SendActivityResult,
    now: Timestamp,
    later: Timestamp,
)
    ensures
        ({
            let known = if queue.instance.updated is Some {
                queue.instance.updated->0
            } else {
                queue.instance.published
            };
            let secs = now.spec_secs() - known.spec_secs();
            let after = queue.with_result(result, now);
            &&& queue.news_of_life(result, now) <==> {
                &&& result matches SendActivityResult::Success(info) && !info.was_skipped
                &&& secs > 86_400 || (secs == 86_400 && now.spec_nanos() > known.spec_nanos())
            }
            &&& after.instance.updated == if queue.news_of_life(result, now) {
                Some(now)
            } else {
                queue.instance.updated
            }
            &&& after.instance.id == queue.instance.id
            &&& after.instance.domain == queue.instance.domain
            &&& after.instance.published == queue.instance.published
            &&& queue.news_of_life(result, now) && later.spec_secs() < now.spec_secs() + 86_400
                ==> !after.news_of_life(result, later)
        }),
{
}

/// A result can be noted as long as one less can be counted and there is a day after the instance was
/// last known to be alive.
pub proof fn law_result_is_taken_if_it_fits(queue: QueueView, result: SendActivityResult)
    ensures
        queue.takes_result(result) <==> can_note(queue, result),
{
}

/// The newest activity is noted. For an instance that was never seen it becomes the last successful
/// one, and counts as saved. To read it again later leaves the last successful one as it is.
pub proof fn law_newest_is_noted(
    queue: QueueView,
    latest: ActivityId,
    now: Timestamp,
    again: ActivityId,
    later: Timestamp,
)
    ensures
        ({
            let after = queue.with_latest(latest, now);
            let twice = after.with_latest(again, later);
            let is_new = queue.state.last_successful_id is None;
            &&& after.latest_id == latest.0
            &&& after.state.last_successful_id == if is_new {
                Some(latest)
            } else {
                queue.state.last_successful_id
            }
            &&& after.last_state_insert == if is_new {
                now
            } else {
                queue.last_state_insert
            }
            &&& after.state.last_successful_published_time
                == queue.state.last_successful_published_time
            &&& after.state.fail_count == queue.state.fail_count
            &&& after.state.last_retry == queue.state.last_retry
            &&& after.instance == queue.instance
            &&& after.successfuls == queue.successfuls
            &&& after.in_flight == queue.in_flight
            &&& after.concurrent_sends == queue.concurrent_sends
            &&& twice.latest_id == again.0
            &&& twice.state == after.state
            &&& twice.last_state_insert == after.last_state_insert
        }),
{
}

/// To have nothing on its way, and room for it, never calls for a wait. To be at a limit does, and so
/// does a failure while something is on its way.
pub proof fn law_wait_has_a_reason(queue: QueueView)
    ensures
        queue.need_wait() ==> queue.in_flight >= queue.concurrent_sends || queue.successfuls.len()
            >= 1000 || (queue.in_flight != 0 && queue.state.fail_count > 0),
        queue.in_flight >= queue.concurrent_sends ==> queue.need_wait(),
        queue.successfuls.len() >= 1000 ==> queue.need_wait(),
        queue.in_flight != 0 && queue.state.fail_count > 0 ==> queue.need_wait(),
{
}

/// The next activity follows upon all that were sent or are being sent. It can be told if its number
/// and those on the way to it are in range.
pub proof fn law_next_follows_all_that_were_begun(queue: QueueView, last: ActivityId)
    ensures
        queue.highest_id(last) - last.0 == queue.successfuls.len() + queue.in_flight,
        queue.state.last_successful_id is None ==> !queue.next_id_fits(),
        queue.state.last_successful_id == Some(last) ==> (queue.next_id_fits() <==> {
            &&& queue.successfuls.len() <= i64::MAX
            &&& last.0 + queue.successfuls.len() <= i64::MAX
            &&& i64::MIN <= last.0 + queue.successfuls.len() + queue.in_flight
            &&& last.0 + queue.successfuls.len() + queue.in_flight + 1 <= i64::MAX
        }),
{
}

/// The state is saved at once when that is called for, and otherwise only after more than a minute.
/// Right after it was saved, it is not.
pub proof fn law_save_is_due_after_a_minute(queue: QueueView, now: Timestamp)
    ensures
        queue.is_save_due(true, now),
        0 <= now.spec_nanos() < 1_000_000_000 && 0 <= queue.last_state_insert.spec_nanos()
            < 1_000_000_000 ==> (queue.is_save_due(false, now) <==> (now.spec_secs()
            - queue.last_state_insert.spec_secs() - 60) * 1_000_000_000 + now.spec_nanos()
            > queue.last_state_insert.spec_nanos()),
        !(QueueView { last_state_insert: now, ..queue }).is_save_due(false, now),
{
}

} // verus!
