use lemmy_federate::send::SendActivityResult;
use lemmy_federate::{
    ActivityId, SendAction, SendError, SendEvent, SendPhase, SendRetryTask, SentActivity, Timestamp,
};

fn activity() -> SentActivity {
    SentActivity {
        id: ActivityId(17),
        published: Timestamp::new(1_700_000_000, 5).unwrap(),
        has_actor: true,
    }
}

fn is_success(report: SendActivityResult, skipped: bool) -> bool {
    match report {
        SendActivityResult::Success(info) => {
            let published = if skipped { None } else { Some(activity().published) };
            info.activity_id == ActivityId(17)
                && info.published == published
                && info.was_skipped == skipped
        }
        SendActivityResult::Failure { .. } => false,
    }
}

fn failure(action: SendAction) -> i32 {
    match action {
        SendAction::Report(SendActivityResult::Failure { fail_count }) => fail_count,
        other => panic!("{:?}", other),
    }
}

fn given_up(action: SendAction) -> SendError {
    match action {
        SendAction::GiveUp { error, report } => {
            assert!(is_success(report, true));
            error
        }
        other => panic!("{:?}", other),
    }
}

fn reported(action: SendAction) -> SendActivityResult {
    match action {
        SendAction::Report(report) => report,
        other => panic!("{:?}", other),
    }
}

#[test]
fn activity_that_arrives_is_reported() {
    let mut task = SendRetryTask::new(activity(), 1, 0);
    assert_eq!(SendAction::Prepare, task.step(SendEvent::Started));
    assert_eq!(
        SendAction::Send { request: 0 },
        task.step(SendEvent::Prepared { requests: 1 })
    );
    assert!(is_success(reported(task.step(SendEvent::Sent)), false));
    assert_eq!(SendAction::Finish, task.step(SendEvent::Reported));
    assert_eq!(SendPhase::Finished, task.phase());
}

#[test]
fn failed_request_is_retried_with_more_failures() {
    let mut task = SendRetryTask::new(activity(), 1, 3);
    task.step(SendEvent::Started);
    task.step(SendEvent::Prepared { requests: 1 });
    for fail_count in 4..8 {
        assert_eq!(fail_count, failure(task.step(SendEvent::NotSent)));
        assert_eq!(SendAction::RetrySleep { fail_count }, task.step(SendEvent::Reported));
        assert_eq!(
            SendAction::Send { request: 0 },
            task.step(SendEvent::Slept { stopped: false })
        );
    }
    assert!(is_success(reported(task.step(SendEvent::Sent)), false));
}

#[test]
fn each_request_starts_with_the_first_failures() {
    let mut task = SendRetryTask::new(activity(), 2, 3);
    task.step(SendEvent::Started);
    task.step(SendEvent::Prepared { requests: 2 });
    assert_eq!(4, failure(task.step(SendEvent::NotSent)));
    task.step(SendEvent::Reported);
    task.step(SendEvent::Slept { stopped: false });
    assert_eq!(SendAction::Send { request: 1 }, task.step(SendEvent::Sent));
    assert_eq!(4, failure(task.step(SendEvent::NotSent)));
    task.step(SendEvent::Reported);
    assert_eq!(
        SendAction::Send { request: 1 },
        task.step(SendEvent::Slept { stopped: false })
    );
    assert!(is_success(reported(task.step(SendEvent::Sent)), false));
}

#[test]
fn no_requests_are_a_success() {
    let mut task = SendRetryTask::new(activity(), 1, 0);
    task.step(SendEvent::Started);
    assert!(is_success(reported(task.step(SendEvent::Prepared { requests: 0 })), false));
}

#[test]
fn task_stops_without_a_report() {
    let mut task = SendRetryTask::new(activity(), 1, 0);
    task.step(SendEvent::Started);
    task.step(SendEvent::Prepared { requests: 1 });
    task.step(SendEvent::NotSent);
    task.step(SendEvent::Reported);
    assert_eq!(SendAction::Finish, task.step(SendEvent::Slept { stopped: true }));
    assert!(!task.accepts(&SendEvent::Reported));
}

#[test]
fn activity_without_actor_is_given_up() {
    let mut task = SendRetryTask::new(SentActivity { has_actor: false, ..activity() }, 1, 0);
    assert_eq!(SendError::NoActor, given_up(task.step(SendEvent::Started)));
    assert_eq!(SendAction::Finish, task.step(SendEvent::Reported));
}

#[test]
fn activity_without_requests_is_given_up() {
    let mut task = SendRetryTask::new(activity(), 1, 0);
    task.step(SendEvent::Started);
    assert_eq!(SendError::NotPrepared, given_up(task.step(SendEvent::NotPrepared)));
    assert_eq!(SendAction::Finish, task.step(SendEvent::NotReported));
}

#[test]
fn activity_without_reports_is_given_up() {
    let mut task = SendRetryTask::new(activity(), 1, 0);
    task.step(SendEvent::Started);
    task.step(SendEvent::Prepared { requests: 1 });
    task.step(SendEvent::NotSent);
    assert_eq!(SendError::NotReported, given_up(task.step(SendEvent::NotReported)));

    let mut task = SendRetryTask::new(activity(), 1, 0);
    task.step(SendEvent::Started);
    task.step(SendEvent::Prepared { requests: 1 });
    task.step(SendEvent::Sent);
    assert_eq!(SendError::NotReported, given_up(task.step(SendEvent::NotReported)));
}

#[test]
fn retry_loop_tells_why_it_fails() {
    let mut task = SendRetryTask::new(activity(), 4, 0);
    assert_eq!(4, task.inboxes());
    assert_eq!(Ok(SendAction::Prepare), task.send_retry_loop(SendEvent::Started));
    assert_eq!(Err(SendError::NotPrepared), task.send_retry_loop(SendEvent::NotPrepared));
    assert_eq!(SendPhase::Preparing, task.phase());
}

#[test]
fn task_accepts_only_what_it_waits_for() {
    let mut task = SendRetryTask::new(activity(), 1, i32::MAX);
    assert!(task.accepts(&SendEvent::Started));
    assert!(!task.accepts(&SendEvent::Sent));
    task.step(SendEvent::Started);
    assert!(task.accepts(&SendEvent::NotPrepared));
    task.step(SendEvent::Prepared { requests: 1 });
    assert!(task.accepts(&SendEvent::Sent));
    assert!(!task.accepts(&SendEvent::NotSent));
}

#[test]
fn requests_are_sent_one_after_the_other() {
    let mut task = SendRetryTask::new(activity(), 2, 1);
    let mut event = SendEvent::Started;
    let mut answered = 0;
    let mut failures = 0;
    let mut successes = 0;
    let mut attempts = 0;
    loop {
        assert!(task.accepts(&event));
        event = match task.step(event) {
            SendAction::Prepare => SendEvent::Prepared { requests: 5 },
            SendAction::Send { request } => {
                assert_eq!(answered, request);
                assert!(request < 5);
                assert_eq!(0, successes);
                attempts += 1;
                if attempts % 3 == 0 {
                    answered += 1;
                    SendEvent::Sent
                } else {
                    SendEvent::NotSent
                }
            }
            SendAction::Report(SendActivityResult::Failure { .. }) => {
                failures += 1;
                assert_eq!(0, successes);
                SendEvent::Reported
            }
            SendAction::Report(SendActivityResult::Success(_)) => {
                successes += 1;
                assert_eq!(5, answered);
                SendEvent::Reported
            }
            SendAction::RetrySleep { .. } => SendEvent::Slept { stopped: false },
            SendAction::GiveUp { .. } => unreachable!(),
            SendAction::Finish => break,
        };
    }
    assert_eq!(1, successes);
    assert_eq!(15, attempts);
    assert_eq!(10, failures);
}
