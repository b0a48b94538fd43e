use lemmy_federate::{
    concurrent_sends, FederatedInstance, Instance, InstanceId, ManagerAction, ManagerError,
    ManagerEvent, ManagerPhase, Opts, Pass, SendManager, Timestamp, WorkerCommand,
};

fn instance(id: i32, domain: &str) -> FederatedInstance {
    FederatedInstance {
        instance: Instance {
            id: InstanceId(id),
            domain: domain.to_string(),
            published: Timestamp::epoch(),
            updated: None,
        },
        allowed: true,
        is_dead: false,
    }
}

fn copied(known: &FederatedInstance) -> FederatedInstance {
    FederatedInstance {
        allowed: known.allowed,
        is_dead: known.is_dead,
        ..instance(known.instance.id.0, &known.instance.domain)
    }
}

fn step(manager: &mut SendManager, event: ManagerEvent) -> Result<ManagerAction, ManagerError> {
    assert!(manager.accepts(&event));
    manager.do_loop(event)
}

/// Runs the loop until it went over the list once, and cancels it then.
fn run(manager: &mut SendManager, list: &[FederatedInstance]) -> Pass {
    assert_eq!(Ok(ManagerAction::ReadLocalDomain), step(manager, ManagerEvent::Started));
    let domain = ManagerEvent::LocalDomain("local.com".to_string());
    assert_eq!(Ok(ManagerAction::ReadInstances), step(manager, domain));
    let list = ManagerEvent::Instances(list.iter().map(copied).collect());
    let pass = match step(manager, list) {
        Ok(ManagerAction::CarryOut(pass)) => pass,
        other => panic!("{:?}", other),
    };
    let cancelled = ManagerEvent::Waited { cancelled: true };
    assert_eq!(Ok(ManagerAction::Finish), step(manager, cancelled));
    pass
}

fn instances() -> Vec<FederatedInstance> {
    vec![instance(1, "alpha.com"), instance(2, "beta.com"), instance(3, "gamma.com")]
}

fn manager(process_count: i32, process_index: i32) -> SendManager {
    SendManager::new(Opts { process_count, process_index })
}

fn ids(mut stop: Vec<InstanceId>) -> Vec<i32> {
    stop.sort_by_key(|id| id.0);
    stop.iter().map(|id| id.0).collect()
}

#[test]
fn test_send_manager() {
    let mut manager = manager(1, 1);
    let pass = run(&mut manager, &instances());
    assert_eq!(3, manager.worker_count());
    assert_eq!(3, pass.worker_count);
    assert_eq!(3, pass.total_count);
    assert_eq!(0, pass.dead_count);
    assert_eq!(0, pass.disallowed_count);
    assert_eq!(
        vec![
            WorkerCommand::Start { entry: 0 },
            WorkerCommand::Start { entry: 1 },
            WorkerCommand::Start { entry: 2 },
        ],
        pass.commands
    );
    assert_eq!(vec![1, 2, 3], ids(manager.cancel()));
}

#[test]
fn test_send_manager_processes() {
    let mut active = vec![];
    let mut execute = |count, index, len| {
        let mut manager = manager(count, index);
        run(&mut manager, &instances());
        assert_eq!(len, manager.worker_count());
        active.extend(manager.cancel());
    };
    execute(3, 1, 1);
    execute(3, 2, 1);
    execute(3, 3, 1);
    execute(3, 4, 0);
    execute(3, 6, 0);

    // Should run exactly three workers
    assert_eq!(3, active.len());
    assert_eq!(vec![1, 2, 3], ids(active));
}

#[test]
fn each_process_takes_its_remainder() {
    for (index, id) in [(1, 3), (2, 1), (3, 2)] {
        let mut manager = manager(3, index);
        run(&mut manager, &instances());
        assert!(manager.has_worker(InstanceId(id)));
    }
}

#[test]
fn negative_ids_have_no_positive_remainder() {
    let list = vec![instance(-3, "a.com"), instance(-4, "b.com"), instance(i32::MIN, "c.com")];
    for (index, expected) in [(1, vec![-3]), (2, vec![]), (3, vec![])] {
        let mut manager = manager(3, index);
        run(&mut manager, &list);
        assert_eq!(expected, ids(manager.cancel()));
    }
}

#[test]
fn own_instance_has_no_worker() {
    let mut manager = manager(1, 1);
    let mut list = instances();
    list.push(instance(4, "local.com"));
    let pass = run(&mut manager, &list);
    assert_eq!(3, pass.total_count);
    assert!(!manager.has_worker(InstanceId(4)));
}

#[test]
fn dead_and_disallowed_are_counted_and_have_no_worker() {
    let mut manager = manager(1, 1);
    let mut list = instances();
    list[0].allowed = false;
    list[1].is_dead = true;
    list.push(FederatedInstance { allowed: false, is_dead: true, ..instance(4, "delta.com") });
    let pass = run(&mut manager, &list);
    assert_eq!((4, 2, 2, 1), (
        pass.total_count,
        pass.dead_count,
        pass.disallowed_count,
        pass.worker_count,
    ));
    assert_eq!(vec![WorkerCommand::Start { entry: 2 }], pass.commands);
}

#[test]
fn worker_is_stopped_when_its_instance_dies() {
    let mut manager = manager(1, 1);
    let mut list = instances();
    run(&mut manager, &list);
    list[1].is_dead = true;
    let pass = run(&mut manager, &list);
    assert_eq!(vec![WorkerCommand::Stop { id: InstanceId(2) }], pass.commands);
    assert_eq!(2, pass.worker_count);
    list[1].is_dead = false;
    let pass = run(&mut manager, &list);
    assert_eq!(vec![WorkerCommand::Start { entry: 1 }], pass.commands);
}

#[test]
fn second_pass_has_nothing_to_do() {
    let mut manager = manager(1, 1);
    let mut list = instances();
    list[2].allowed = false;
    run(&mut manager, &list);
    let pass = run(&mut manager, &list);
    assert!(pass.commands.is_empty());
    assert_eq!(2, pass.worker_count);
}

#[test]
fn worker_of_unlisted_instance_is_kept() {
    let mut manager = manager(1, 1);
    run(&mut manager, &instances());
    let pass = run(&mut manager, &[]);
    assert!(pass.commands.is_empty());
    assert_eq!(3, pass.worker_count);
    assert_eq!(0, pass.total_count);
}

#[test]
fn duplicate_entries_are_followed_in_order() {
    let mut manager = manager(1, 1);
    let list = vec![
        instance(1, "alpha.com"),
        FederatedInstance { is_dead: true, ..instance(1, "alpha.com") },
    ];
    let pass = run(&mut manager, &list);
    assert_eq!(
        vec![WorkerCommand::Start { entry: 0 }, WorkerCommand::Stop { id: InstanceId(1) }],
        pass.commands
    );
    assert_eq!(0, pass.worker_count);
}

#[test]
fn passes_go_on_until_cancelled() {
    let mut manager = manager(1, 1);
    step(&mut manager, ManagerEvent::Started).unwrap();
    step(&mut manager, ManagerEvent::LocalDomain("beta.com".to_string())).unwrap();
    for round in 0..3 {
        // cannot be cancelled before the pass
        assert!(!manager.accepts(&ManagerEvent::Waited { cancelled: true }));
        match step(&mut manager, ManagerEvent::Instances(instances())) {
            Ok(ManagerAction::CarryOut(pass)) => {
                assert_eq!(2, pass.total_count);
                assert_eq!(if round == 0 { 2 } else { 0 }, pass.commands.len());
            }
            other => panic!("{:?}", other),
        }
        assert_eq!(ManagerPhase::Waiting, manager.phase());
        assert!(!manager.accepts(&ManagerEvent::Instances(vec![])));
        let cancelled = round == 2;
        let action = step(&mut manager, ManagerEvent::Waited { cancelled });
        let expected =
            if cancelled { ManagerAction::Finish } else { ManagerAction::ReadInstances };
        assert_eq!(Ok(expected), action);
    }
    assert_eq!(ManagerPhase::Idle, manager.phase());
    assert_eq!(vec![1, 3], ids(manager.cancel()));
}

#[test]
fn manager_fails_when_nothing_can_be_read() {
    let mut manager = manager(1, 1);
    assert!(!manager.accepts(&ManagerEvent::NotRead));
    step(&mut manager, ManagerEvent::Started).unwrap();
    assert_eq!(Err(ManagerError::NoLocalDomain), step(&mut manager, ManagerEvent::NotRead));
    assert_eq!(ManagerPhase::Idle, manager.phase());
    run(&mut manager, &instances());
    step(&mut manager, ManagerEvent::Started).unwrap();
    step(&mut manager, ManagerEvent::LocalDomain("local.com".to_string())).unwrap();
    assert_eq!(Err(ManagerError::NoInstances), step(&mut manager, ManagerEvent::NotRead));
    assert_eq!(ManagerPhase::Idle, manager.phase());
    assert_eq!(3, manager.worker_count());
}

#[test]
fn concurrent_sends_are_read_from_the_setting() {
    assert_eq!(8, concurrent_sends(None));
    assert_eq!(12, concurrent_sends(Some("12")));
    assert_eq!(12, concurrent_sends(Some("+12")));
    assert_eq!(-3, concurrent_sends(Some("-3")));
    assert_eq!(0, concurrent_sends(Some("000")));
    assert_eq!(i64::MAX, concurrent_sends(Some("9223372036854775807")));
    assert_eq!(i64::MIN, concurrent_sends(Some("-9223372036854775808")));
}

#[test]
fn bad_settings_fall_back_to_the_default() {
    for text in ["", "+", "-", " 5", "5 ", "+-5", "0x10", "five", "9223372036854775808", "\u{0663}"] {
        assert_eq!(8, concurrent_sends(Some(text)));
    }
}
