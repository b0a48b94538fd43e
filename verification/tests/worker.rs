use lemmy_federate::{
    ActivityId, FederationQueueState, Instance, InstanceId, InstanceWorker, Phase, SendAction,
    SendActivityResult, SendEvent, SendRetryTask, SendSuccessInfo, SentActivity, Timestamp,
    WorkerAction, WorkerError, WorkerEvent,
};

const DAY: i64 = 86_400;
const NOW: i64 = 1_700_000_000;

fn at(secs: i64) -> Timestamp {
    Timestamp::new(secs, 0).unwrap()
}

fn instance() -> Instance {
    Instance {
        id: InstanceId(3),
        domain: "gamma.com".to_string(),
        published: at(NOW - 10 * DAY),
        updated: Some(at(NOW)),
    }
}

fn state(last: Option<i64>) -> FederationQueueState {
    FederationQueueState {
        last_successful_id: last.map(ActivityId),
        last_successful_published_time: None,
        fail_count: 0,
        last_retry: None,
    }
}

fn success(id: i64) -> SendSuccessInfo {
    SendSuccessInfo {
        activity_id: ActivityId(id),
        published: Some(at(id)),
        was_skipped: false,
    }
}

fn step(worker: &mut InstanceWorker, event: WorkerEvent) -> WorkerAction {
    step_at(worker, event, NOW)
}

fn step_at(worker: &mut InstanceWorker, event: WorkerEvent, secs: i64) -> WorkerAction {
    assert!(worker.accepts(&event));
    worker.step_at(event, at(secs)).unwrap()
}

/// A worker at the head of its loop, whose state was just saved.
fn looping(last: i64, latest: i64, concurrent_sends: i64) -> InstanceWorker {
    let mut worker = InstanceWorker::new(instance(), state(Some(last)), concurrent_sends);
    assert_eq!(WorkerAction::ReadLatestId, step(&mut worker, WorkerEvent::Started));
    assert_eq!(
        WorkerAction::Check,
        step(&mut worker, WorkerEvent::LatestId(ActivityId(latest)))
    );
    // the state was never saved by this worker, so it is due
    let full = WorkerEvent::Checked { stopped: false, waiting: 5 };
    assert_eq!(WorkerAction::ReceiveReports { max: 1000 }, step(&mut worker, full));
    assert_eq!(
        WorkerAction::SaveState(state(Some(last))),
        step(&mut worker, WorkerEvent::ReportsHandled)
    );
    assert_eq!(WorkerAction::Check, step(&mut worker, WorkerEvent::Saved));
    worker
}

fn check(worker: &mut InstanceWorker) -> WorkerAction {
    step(worker, WorkerEvent::Checked { stopped: false, waiting: 0 })
}

/// Begins to send the next activity, which has one inbox.
fn send(worker: &mut InstanceWorker) -> ActivityId {
    assert_eq!(WorkerAction::UpdateCommunities, check(worker));
    let id = match step(worker, WorkerEvent::CommunitiesUpdated) {
        WorkerAction::ReadActivity(id) => id,
        other => panic!("{:?}", other),
    };
    assert_eq!(
        WorkerAction::CollectInboxes(id),
        step(worker, WorkerEvent::Activity(Some(at(7))))
    );
    match step(worker, WorkerEvent::Inboxes(1)) {
        WorkerAction::StartSend { activity_id, .. } => assert_eq!(id, activity_id),
        other => panic!("{:?}", other),
    }
    assert_eq!(WorkerAction::Check, step(worker, WorkerEvent::Spawned));
    id
}

/// Handles reports, and says what is to be done after them.
fn reports(worker: &mut InstanceWorker, reports: Vec<SendActivityResult>, secs: i64) -> WorkerAction {
    let many = WorkerEvent::Checked { stopped: false, waiting: 5 };
    assert_eq!(WorkerAction::ReceiveReports { max: 1000 }, step(worker, many));
    for report in reports {
        let action = step_at(worker, WorkerEvent::Report(report), secs);
        assert_eq!(WorkerAction::NextReport, action);
    }
    step_at(worker, WorkerEvent::ReportsHandled, secs)
}

fn last(worker: &InstanceWorker) -> i64 {
    worker.queue().state().last_successful_id.unwrap().0
}

#[test]
fn new_instance_starts_with_the_newest_activity() {
    let mut worker = InstanceWorker::new(instance(), state(None), 8);
    assert_eq!(WorkerAction::ReadLatestId, step(&mut worker, WorkerEvent::Started));
    assert_eq!(
        WorkerAction::SaveState(state(Some(41))),
        step(&mut worker, WorkerEvent::LatestId(ActivityId(41)))
    );
    assert_eq!(at(NOW), worker.queue().last_state_insert());
    assert_eq!(WorkerAction::Check, step(&mut worker, WorkerEvent::Saved));
    assert_eq!(41, last(&worker));
    assert_eq!(ActivityId(41), worker.queue().latest_id());
}

#[test]
fn known_instance_goes_on_where_it_was() {
    let worker = looping(5, 41, 8);
    assert_eq!(5, last(&worker));
    assert_eq!(Phase::LoopHead, worker.phase());
}

#[test]
fn failures_call_for_a_sleep() {
    let failed = FederationQueueState {
        fail_count: 4,
        last_retry: Some(Timestamp::new(NOW - 10, 250_000_000).unwrap()),
        ..state(Some(5))
    };
    let mut worker = InstanceWorker::new(instance(), failed, 8);
    assert_eq!(
        WorkerAction::FindRetryDelay { fail_count: 4 },
        step(&mut worker, WorkerEvent::Started)
    );
    assert_eq!(Phase::RetryDelay { elapsed_nanos: 9_750_000_000 }, worker.phase());
    assert_eq!(
        WorkerAction::Sleep { nanos: 2_250_000_000 },
        step(&mut worker, WorkerEvent::RetryDelay { nanos: 12_000_000_000 })
    );
    assert_eq!(WorkerAction::ReadLatestId, step(&mut worker, WorkerEvent::Slept));
}

#[test]
fn no_sleep_when_enough_time_has_passed() {
    let failed =
        FederationQueueState { fail_count: 1, last_retry: Some(at(NOW - 10)), ..state(Some(5)) };
    let mut worker = InstanceWorker::new(instance(), failed, 8);
    step(&mut worker, WorkerEvent::Started);
    assert_eq!(
        WorkerAction::ReadLatestId,
        step(&mut worker, WorkerEvent::RetryDelay { nanos: 10_000_000_000 })
    );
}

#[test]
fn failures_without_a_time_are_an_error() {
    let failed = FederationQueueState { fail_count: 1, ..state(Some(5)) };
    let mut worker = InstanceWorker::new(instance(), failed, 8);
    assert_eq!(
        Err(WorkerError::LastRetryMissing),
        worker.step_at(WorkerEvent::Started, at(NOW))
    );
    assert_eq!(Phase::Fresh, worker.phase());
}

#[test]
fn failures_in_the_future_are_an_error() {
    let failed =
        FederationQueueState { fail_count: 1, last_retry: Some(at(NOW + 1)), ..state(Some(5)) };
    let mut worker = InstanceWorker::new(instance(), failed, 8);
    assert_eq!(
        Err(WorkerError::LastRetryInFuture),
        worker.step_at(WorkerEvent::Started, at(NOW))
    );
}

#[test]
fn negative_fail_count_calls_for_nothing() {
    let odd = FederationQueueState { fail_count: -1, ..state(Some(5)) };
    let mut worker = InstanceWorker::new(instance(), odd, 8);
    assert_eq!(WorkerAction::ReadLatestId, step(&mut worker, WorkerEvent::Started));
}

#[test]
fn activities_are_sent_in_order() {
    let mut worker = looping(5, 41, 8);
    let ids: Vec<i64> = (0..8).map(|_| send(&mut worker).0).collect();
    assert_eq!(vec![6, 7, 8, 9, 10, 11, 12, 13], ids);
    assert_eq!(8, worker.queue().in_flight());
    // no more at once
    assert_eq!(WorkerAction::ReceiveReports { max: 1000 }, check(&mut worker));
}

#[test]
fn nothing_is_sent_where_nothing_may_be() {
    let mut worker = looping(5, 41, 0);
    assert_eq!(WorkerAction::ReceiveReports { max: 1000 }, check(&mut worker));
}

#[test]
fn last_successful_waits_for_the_gap() {
    let mut worker = looping(5, 41, 8);
    for _ in 0..4 {
        send(&mut worker);
    }
    let done = vec![
        SendActivityResult::Success(success(9)),
        SendActivityResult::Success(success(7)),
    ];
    assert_eq!(WorkerAction::Check, reports(&mut worker, done, NOW));
    assert_eq!(5, last(&worker));
    assert_eq!(2, worker.queue().successfuls());
    assert_eq!(2, worker.queue().in_flight());
    // the next one is still the one after all that were begun
    assert_eq!(ActivityId(10), send(&mut worker));

    let done = vec![SendActivityResult::Success(success(6))];
    assert_eq!(WorkerAction::Check, reports(&mut worker, done, NOW));
    assert_eq!(7, last(&worker));
    assert_eq!(Some(at(7)), worker.queue().state().last_successful_published_time);
    assert_eq!(1, worker.queue().successfuls());

    let done = vec![
        SendActivityResult::Success(success(10)),
        SendActivityResult::Success(success(8)),
    ];
    reports(&mut worker, done, NOW);
    assert_eq!(10, last(&worker));
    assert_eq!(0, worker.queue().successfuls());
    assert_eq!(0, worker.queue().in_flight());
}

#[test]
fn too_many_out_of_order_are_waited_for() {
    let mut worker = looping(0, 5000, 2000);
    send(&mut worker);
    for _ in 0..999 {
        let id = send(&mut worker);
        reports(&mut worker, vec![SendActivityResult::Success(success(id.0))], NOW);
    }
    assert_eq!(999, worker.queue().successfuls());
    let id = send(&mut worker);
    reports(&mut worker, vec![SendActivityResult::Success(success(id.0))], NOW);
    assert_eq!(1000, worker.queue().successfuls());
    assert_eq!(WorkerAction::ReceiveReports { max: 1000 }, check(&mut worker));
    step(&mut worker, WorkerEvent::Report(SendActivityResult::Success(success(1))));
    step(&mut worker, WorkerEvent::ReportsHandled);
    assert_eq!(1001, last(&worker));
    assert_eq!(WorkerAction::UpdateCommunities, check(&mut worker));
}

#[test]
fn more_than_four_reports_are_handled_first() {
    let mut worker = looping(5, 41, 8);
    let few = WorkerEvent::Checked { stopped: false, waiting: 4 };
    assert_eq!(WorkerAction::UpdateCommunities, step(&mut worker, few));
    let mut worker = looping(5, 41, 8);
    let many = WorkerEvent::Checked { stopped: false, waiting: 5 };
    assert_eq!(WorkerAction::ReceiveReports { max: 1000 }, step(&mut worker, many));
}

#[test]
fn failure_is_waited_for_while_something_is_sent() {
    let mut worker = looping(5, 41, 8);
    send(&mut worker);
    send(&mut worker);
    let action = reports(&mut worker, vec![SendActivityResult::Failure { fail_count: 1 }], NOW + 1);
    let failed = FederationQueueState { fail_count: 1, last_retry: Some(at(NOW + 1)), ..state(Some(5)) };
    assert_eq!(WorkerAction::SaveState(failed), action);
    step(&mut worker, WorkerEvent::Saved);
    assert_eq!(WorkerAction::ReceiveReports { max: 1000 }, check(&mut worker));
    // the same number of failures is no news
    let again = WorkerEvent::Report(SendActivityResult::Failure { fail_count: 1 });
    assert_eq!(WorkerAction::NextReport, step_at(&mut worker, again, NOW + 2));
    assert_eq!(Phase::Reports { force_write: false }, worker.phase());
    let action = step_at(&mut worker, WorkerEvent::ReportsHandled, NOW + 2);
    assert_eq!(WorkerAction::Check, action);
    assert_eq!(Some(at(NOW + 1)), worker.queue().state().last_retry);
    // a success ends it
    reports(&mut worker, vec![SendActivityResult::Success(success(6))], NOW + 3);
    assert_eq!(0, worker.queue().state().fail_count);
    assert_eq!(WorkerAction::UpdateCommunities, check(&mut worker));
}

#[test]
fn failures_go_along_with_the_next_send() {
    let mut worker = looping(5, 41, 8);
    let failed = vec![SendActivityResult::Failure { fail_count: 6 }];
    reports(&mut worker, failed, NOW);
    step(&mut worker, WorkerEvent::Saved);
    assert_eq!(WorkerAction::UpdateCommunities, check(&mut worker));
    step(&mut worker, WorkerEvent::CommunitiesUpdated);
    step(&mut worker, WorkerEvent::Activity(Some(at(7))));
    assert_eq!(
        WorkerAction::StartSend { activity_id: ActivityId(6), initial_fail_count: 6 },
        step(&mut worker, WorkerEvent::Inboxes(2))
    );
}

#[test]
fn state_is_saved_once_a_minute() {
    let mut worker = looping(5, 41, 8);
    assert_eq!(WorkerAction::Check, reports(&mut worker, vec![], NOW + 60));
    assert_eq!(
        WorkerAction::SaveState(state(Some(5))),
        reports(&mut worker, vec![], NOW + 61)
    );
    assert_eq!(at(NOW + 61), worker.queue().last_state_insert());
}

#[test]
fn newest_activity_is_read_again_only_when_needed() {
    let mut worker = looping(5, 6, 8);
    send(&mut worker);
    assert_eq!(WorkerAction::UpdateCommunities, check(&mut worker));
    assert_eq!(WorkerAction::ReadLatestId, step(&mut worker, WorkerEvent::CommunitiesUpdated));
    assert_eq!(
        WorkerAction::Pause,
        step(&mut worker, WorkerEvent::LatestId(ActivityId(6)))
    );
    assert_eq!(1, worker.queue().in_flight());
    assert_eq!(WorkerAction::Check, step(&mut worker, WorkerEvent::Slept));
    assert_eq!(WorkerAction::UpdateCommunities, check(&mut worker));
    step(&mut worker, WorkerEvent::CommunitiesUpdated);
    assert_eq!(
        WorkerAction::ReadActivity(ActivityId(7)),
        step(&mut worker, WorkerEvent::LatestId(ActivityId(7)))
    );
    assert_eq!(2, worker.queue().in_flight());
}

#[test]
fn missing_activity_is_skipped() {
    let mut worker = looping(5, 41, 8);
    check(&mut worker);
    step(&mut worker, WorkerEvent::CommunitiesUpdated);
    match step(&mut worker, WorkerEvent::Activity(None)) {
        WorkerAction::Report(SendActivityResult::Success(info)) => {
            assert_eq!((ActivityId(6), None, true), (
                info.activity_id,
                info.published,
                info.was_skipped,
            ));
        }
        other => panic!("{:?}", other),
    }
    assert_eq!(WorkerAction::Check, step(&mut worker, WorkerEvent::Spawned));
    assert_eq!(1, worker.queue().in_flight());
}

#[test]
fn activity_without_inboxes_is_skipped() {
    let mut worker = looping(5, 41, 8);
    check(&mut worker);
    step(&mut worker, WorkerEvent::CommunitiesUpdated);
    step(&mut worker, WorkerEvent::Activity(Some(at(77))));
    match step(&mut worker, WorkerEvent::Inboxes(0)) {
        WorkerAction::Report(SendActivityResult::Success(info)) => {
            assert_eq!((ActivityId(6), Some(at(77)), true), (
                info.activity_id,
                info.published,
                info.was_skipped,
            ));
        }
        other => panic!("{:?}", other),
    }
}

#[test]
fn instance_is_marked_alive_after_a_day() {
    let mut worker = looping(5, 41, 8);
    for _ in 0..4 {
        send(&mut worker);
    }
    let many = WorkerEvent::Checked { stopped: false, waiting: 5 };
    step(&mut worker, many);
    let report = |id| WorkerEvent::Report(SendActivityResult::Success(success(id)));
    // not after exactly a day
    let action = step_at(&mut worker, report(6), NOW + DAY);
    assert_eq!(WorkerAction::NextReport, action);
    // not for a skipped one
    let skipped = SendSuccessInfo { was_skipped: true, ..success(7) };
    let skipped = WorkerEvent::Report(SendActivityResult::Success(skipped));
    assert_eq!(WorkerAction::NextReport, step_at(&mut worker, skipped, NOW + DAY + 1));
    let action = step_at(&mut worker, report(8), NOW + DAY + 1);
    assert_eq!(WorkerAction::UpdateInstance { updated: at(NOW + DAY + 1) }, action);
    assert_eq!(Some(at(NOW + DAY + 1)), worker.queue().instance().updated);
    assert_eq!(WorkerAction::NextReport, step(&mut worker, WorkerEvent::InstanceUpdated));
    // and not again
    let action = step_at(&mut worker, report(9), NOW + DAY + 2);
    assert_eq!(WorkerAction::NextReport, action);
}

#[test]
fn instance_that_was_never_updated_counts_from_its_publication() {
    let young = Instance { published: at(NOW - 5), updated: None, ..instance() };
    let old = Instance { published: at(NOW - 2 * DAY), updated: None, ..instance() };
    for (instance, action) in [
        (young, WorkerAction::NextReport),
        (old, WorkerAction::UpdateInstance { updated: at(NOW) }),
    ] {
        let mut worker = InstanceWorker::new(instance, state(Some(5)), 8);
        step(&mut worker, WorkerEvent::Started);
        step(&mut worker, WorkerEvent::LatestId(ActivityId(41)));
        send(&mut worker);
        let many = WorkerEvent::Checked { stopped: false, waiting: 5 };
        step(&mut worker, many);
        let report = WorkerEvent::Report(SendActivityResult::Success(success(6)));
        assert_eq!(action, step(&mut worker, report));
    }
}

#[test]
fn forced_save_survives_an_update_of_the_instance() {
    let mut worker = looping(5, 41, 8);
    send(&mut worker);
    let many = WorkerEvent::Checked { stopped: false, waiting: 5 };
    step(&mut worker, many);
    let failure = WorkerEvent::Report(SendActivityResult::Failure { fail_count: 1 });
    step_at(&mut worker, failure, NOW + 2 * DAY);
    let report = WorkerEvent::Report(SendActivityResult::Success(success(6)));
    step_at(&mut worker, report, NOW + 2 * DAY);
    assert_eq!(Phase::InstanceUpdate { force_write: true }, worker.phase());
    step(&mut worker, WorkerEvent::InstanceUpdated);
    assert_eq!(Phase::Reports { force_write: true }, worker.phase());
    match step(&mut worker, WorkerEvent::ReportsHandled) {
        WorkerAction::SaveState(saved) => assert_eq!(Some(ActivityId(6)), saved.last_successful_id),
        other => panic!("{:?}", other),
    }
}

#[test]
fn stopped_worker_saves_its_state_and_ends() {
    let mut worker = looping(5, 41, 8);
    send(&mut worker);
    let stop = WorkerEvent::Checked { stopped: true, waiting: 9 };
    assert_eq!(
        WorkerAction::SaveState(state(Some(5))),
        step_at(&mut worker, stop, NOW + 5)
    );
    assert_eq!(at(NOW + 5), worker.queue().last_state_insert());
    assert_eq!(WorkerAction::Finish, step(&mut worker, WorkerEvent::Saved));
    assert!(!worker.accepts(&WorkerEvent::Saved));
    assert_eq!(Phase::Finished, worker.phase());
}

#[test]
fn worker_accepts_only_what_it_waits_for() {
    let worker = InstanceWorker::new(instance(), state(Some(5)), 8);
    assert!(worker.accepts(&WorkerEvent::Started));
    assert!(!worker.accepts(&WorkerEvent::Saved));

    let mut worker = looping(i64::MAX, i64::MAX, 8);
    check(&mut worker);
    assert!(!worker.accepts(&WorkerEvent::CommunitiesUpdated));
    let mut worker = looping(i64::MAX - 1, i64::MAX, 8);
    check(&mut worker);
    assert!(worker.accepts(&WorkerEvent::CommunitiesUpdated));
}

#[test]
fn step_goes_by_the_clock() {
    let mut worker = looping(5, 41, 8);
    let before = chrono::Utc::now().timestamp();
    let stop = WorkerEvent::Checked { stopped: true, waiting: 0 };
    let saved = worker.step(stop).unwrap();
    let after = chrono::Utc::now().timestamp();
    assert_eq!(WorkerAction::SaveState(state(Some(5))), saved);
    let at = worker.queue().last_state_insert().secs();
    assert!(before <= at && at <= after);
}

#[test]
fn everything_that_is_sent_arrives() {
    let mut worker = looping(100, 160, 5);
    let mut flying: Vec<i64> = vec![];
    let mut begun: Vec<i64> = vec![];
    let mut seed: u64 = 11;
    while last(&worker) < 160 {
        seed = seed.wrapping_mul(6364136223846793005).wrapping_add(1442695040888963407);
        if flying.len() < 5 && begun.len() < 60 && seed >> 63 == 0 {
            let id = send(&mut worker).0;
            flying.push(id);
            begun.push(id);
        } else if !flying.is_empty() {
            let place = (seed >> 33) as usize % flying.len();
            let id = flying.swap_remove(place);
            reports(&mut worker, vec![SendActivityResult::Success(success(id))], NOW);
        }
        assert_eq!(flying.len() as i64, worker.queue().in_flight());
    }
    assert_eq!((101..161).collect::<Vec<i64>>(), begun);
    assert_eq!(0, worker.queue().successfuls());
}

#[test]
fn worker_and_its_tasks_lose_nothing() {
    let mut worker = InstanceWorker::new(instance(), state(None), 3);
    let mut tasks: Vec<(SendRetryTask, SendEvent)> = vec![];
    let mut waiting: Vec<SendActivityResult> = vec![];
    let mut received: Vec<SendActivityResult> = vec![];
    let mut begun: Vec<i64> = vec![];
    let mut ended: Vec<i64> = vec![];
    let mut latest = 10;
    let mut seed: u64 = 5;
    let mut event = WorkerEvent::Started;
    let mut rounds = 0;
    while worker.phase() != Phase::Finished {
        seed = seed.wrapping_mul(6364136223846793005).wrapping_add(1442695040888963407);
        let dice = (seed >> 33) as usize;
        let blocked = event == WorkerEvent::Slept || dice % 2 == 0;
        if blocked && !tasks.is_empty() {
            // something happens to one of the tasks
            let place = dice % tasks.len();
            let (task, happened) = &mut tasks[place];
            assert!(task.accepts(happened));
            let mut finished = false;
            *happened = match task.step(*happened) {
                SendAction::Prepare if dice % 7 == 3 => SendEvent::NotPrepared,
                SendAction::Prepare => SendEvent::Prepared { requests: 1 + dice % 2 },
                SendAction::Send { .. } if dice % 3 == 1 => SendEvent::NotSent,
                SendAction::Send { .. } => SendEvent::Sent,
                SendAction::Report(report) | SendAction::GiveUp { report, .. } => {
                    waiting.push(report.for_worker());
                    SendEvent::Reported
                }
                SendAction::RetrySleep { .. } => SendEvent::Slept { stopped: false },
                SendAction::Finish => {
                    finished = true;
                    SendEvent::Reported
                }
            };
            if finished {
                tasks.swap_remove(place);
            }
            continue;
        }
        rounds += 1;
        event = match step_at(&mut worker, event, NOW + rounds) {
            WorkerAction::FindRetryDelay { .. } | WorkerAction::Sleep { .. } => unreachable!(),
            WorkerAction::ReadLatestId => {
                let id = ActivityId(latest);
                latest = (latest + 3).min(60);
                WorkerEvent::LatestId(id)
            }
            WorkerAction::SaveState(_) => WorkerEvent::Saved,
            WorkerAction::Check => {
                let stopped = last(&worker) == 60;
                WorkerEvent::Checked { stopped, waiting: waiting.len() }
            }
            WorkerAction::ReceiveReports { max } => {
                assert!(waiting.len() <= max);
                received.append(&mut waiting);
                received.reverse();
                match received.pop() {
                    Some(report) => WorkerEvent::Report(report),
                    None => WorkerEvent::ReportsHandled,
                }
            }
            WorkerAction::NextReport => match received.pop() {
                Some(report) => WorkerEvent::Report(report),
                None => WorkerEvent::ReportsHandled,
            },
            WorkerAction::UpdateInstance { .. } => WorkerEvent::InstanceUpdated,
            WorkerAction::UpdateCommunities => WorkerEvent::CommunitiesUpdated,
            WorkerAction::Pause => {
                // the newest activities are handled before the next look
                let many = waiting.len() + 5;
                step_at(&mut worker, WorkerEvent::Slept, NOW + rounds);
                WorkerEvent::Checked { stopped: last(&worker) == 60, waiting: many }
            }
            WorkerAction::ReadActivity(id) => {
                begun.push(id.0);
                WorkerEvent::Activity(if dice % 5 == 2 { None } else { Some(at(id.0)) })
            }
            WorkerAction::CollectInboxes(_) => WorkerEvent::Inboxes(dice % 4),
            WorkerAction::Report(report) => {
                waiting.push(report);
                WorkerEvent::Spawned
            }
            WorkerAction::StartSend { activity_id, initial_fail_count } => {
                let sent =
                    SentActivity { id: activity_id, published: at(activity_id.0), has_actor: true };
                let task = SendRetryTask::new(sent, 1, initial_fail_count);
                tasks.push((task, SendEvent::Started));
                WorkerEvent::Spawned
            }
            WorkerAction::Finish => WorkerEvent::Saved,
        };
        if let WorkerEvent::Report(SendActivityResult::Success(info)) = event {
            ended.push(info.activity_id.0);
        }
        assert!(worker.queue().in_flight() >= 0 && worker.queue().in_flight() <= 3);
    }
    assert_eq!((11..61).collect::<Vec<i64>>(), begun);
    ended.sort();
    assert_eq!(begun, ended);
    assert!(tasks.iter().all(|(task, _)| !task.accepts(&SendEvent::Sent)));
}
