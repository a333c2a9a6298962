use nimi::error::{ConfigFailure, Error};
use nimi::name_map::NameMap;
use nimi::process_manager::service::{ConfigData, Process, Service};
use nimi::process_manager::service_manager::config_dir::{PlanAction, StepOutcome};
use nimi::process_manager::service_manager::{
    ServiceAction, ServiceEvent, ServiceManager, ServiceManagerOpts, ServicePhase,
};
use nimi::subreaper::Subreaper;
use nimi::process_manager::settings::{
    Logging, Restart, RestartDecision, RestartMode, Settings, Startup,
};

fn settings_with(mode: RestartMode, count: usize, time: u64) -> Settings {
    Settings {
        restart: Restart { mode, time, count },
        startup: Startup { run_on_startup: None },
        logging: Logging { logs_dir: None },
    }
}

fn service_of(argv: &[&str]) -> Service {
    Service {
        config_data: NameMap::new(),
        process: Process::new(argv.iter().map(|a| a.to_string()).collect()).unwrap(),
    }
}

fn manager_for(argv: &[&str], mode: RestartMode, count: usize, time: u64) -> ServiceManager {
    let mut manager = ServiceManager::new(ServiceManagerOpts {
        logs_dir: None,
        tmp_dir: "/tmp".to_string(),
        settings: settings_with(mode, count, time),
        name: "svc".to_string(),
        service: service_of(argv),
    })
    .unwrap();
    while !manager.is_ready() {
        manager.config_step(StepOutcome::Done).unwrap();
    }
    manager
}

#[test]
fn service_without_config_still_gets_its_directory_made() {
    let mut registry = Subreaper::new();
    let mut manager = ServiceManager::new(ServiceManagerOpts {
        logs_dir: None,
        tmp_dir: "/tmp".to_string(),
        settings: settings_with(RestartMode::Never, 0, 0),
        name: "svc".to_string(),
        service: service_of(&["/bin/true"]),
    })
    .unwrap();
    assert!(!manager.is_ready());
    assert_eq!(manager.run(&mut registry, ServiceEvent::Start), ServiceAction::Ignore);
    assert_eq!(
        manager.next_config_action(),
        PlanAction::EnsureDir {
            path:
                "/tmp/nimi-config-44136fa355b3678a1146ad16f7e8649e94fb4fc21fe77e8310c060f61caaff8a"
                    .to_string()
        }
    );
    assert_eq!(manager.config_step(StepOutcome::Done), Ok(()));
    assert!(manager.is_ready());
    assert_eq!(manager.next_config_action(), PlanAction::Finished);
    assert_eq!(manager.run(&mut registry, ServiceEvent::Start), ServiceAction::Spawn);
}

#[test]
fn clean_exit_runs_the_child_once() {
    let mut registry = Subreaper::new();
    let mut manager = manager_for(&["/bin/true"], RestartMode::Never, 0, 0);
    assert_eq!(manager.phase(), ServicePhase::Created);
    assert!(manager.is_ready());
    assert_eq!(manager.run(&mut registry, ServiceEvent::Start), ServiceAction::Spawn);
    assert_eq!(manager.run(&mut registry, ServiceEvent::Spawned(Some(4242))), ServiceAction::AwaitChild);
    assert_eq!(manager.phase(), ServicePhase::Running);
    assert_eq!(manager.run(&mut registry, ServiceEvent::Exited(Some(0))), ServiceAction::Finish(Ok(())));
    assert!(manager.is_finished());
    assert_eq!(manager.run(&mut registry, ServiceEvent::Start), ServiceAction::Ignore);
    assert_eq!(manager.run(&mut registry, ServiceEvent::DelayElapsed), ServiceAction::Ignore);
}

#[test]
fn clean_exit_ends_the_service_under_every_policy() {
    let mut registry = Subreaper::new();
    for mode in [RestartMode::Never, RestartMode::UpToCount, RestartMode::Always] {
        let mut manager = manager_for(&["/bin/true"], mode, 5, 10);
        assert_eq!(manager.run(&mut registry, ServiceEvent::Start), ServiceAction::Spawn);
        assert_eq!(manager.run(&mut registry, ServiceEvent::Spawned(Some(4242))), ServiceAction::AwaitChild);
        assert_eq!(manager.run(&mut registry, ServiceEvent::Exited(Some(0))), ServiceAction::Finish(Ok(())));
    }
}

#[test]
fn restart_up_to_count_spawns_count_plus_one_children() {
    let mut registry = Subreaper::new();
    let mut manager = manager_for(&["/bin/false"], RestartMode::UpToCount, 2, 10);
    let mut spawns = 0;
    let mut sleeps = 0;
    let mut action = manager.run(&mut registry, ServiceEvent::Start);
    loop {
        assert_eq!(action, ServiceAction::Spawn);
        spawns += 1;
        assert_eq!(manager.run(&mut registry, ServiceEvent::Spawned(Some(4242))), ServiceAction::AwaitChild);
        match manager.run(&mut registry, ServiceEvent::Exited(Some(1))) {
            ServiceAction::Sleep { ms } => {
                assert_eq!(ms, 10);
                sleeps += 1;
                assert_eq!(manager.phase(), ServicePhase::Delaying);
                action = manager.run(&mut registry, ServiceEvent::DelayElapsed);
            }
            ServiceAction::Finish(result) => {
                assert_eq!(result, Ok(()));
                break;
            }
            other => panic!("unexpected answer {:?}", other),
        }
    }
    assert_eq!(spawns, 3);
    assert_eq!(sleeps, 2);
    assert_eq!(manager.current_restart_count(), 2);
    assert!(manager.is_finished());
}

#[test]
fn up_to_count_zero_means_no_restart() {
    let mut registry = Subreaper::new();
    let mut manager = manager_for(&["/bin/false"], RestartMode::UpToCount, 0, 10);
    assert_eq!(manager.run(&mut registry, ServiceEvent::Start), ServiceAction::Spawn);
    assert_eq!(manager.run(&mut registry, ServiceEvent::Spawned(Some(4242))), ServiceAction::AwaitChild);
    assert_eq!(manager.run(&mut registry, ServiceEvent::Exited(Some(1))), ServiceAction::Finish(Ok(())));
}

#[test]
fn never_spawns_exactly_one_child() {
    let mut registry = Subreaper::new();
    let mut manager = manager_for(&["/bin/false"], RestartMode::Never, 7, 10);
    assert_eq!(manager.run(&mut registry, ServiceEvent::Start), ServiceAction::Spawn);
    assert_eq!(manager.run(&mut registry, ServiceEvent::Spawned(Some(4242))), ServiceAction::AwaitChild);
    assert_eq!(manager.run(&mut registry, ServiceEvent::Exited(Some(3))), ServiceAction::Finish(Ok(())));
    assert_eq!(manager.run(&mut registry, ServiceEvent::DelayElapsed), ServiceAction::Ignore);
    assert_eq!(manager.run(&mut registry, ServiceEvent::Start), ServiceAction::Ignore);
}

#[test]
fn always_restarts_without_counting() {
    let mut registry = Subreaper::new();
    let mut manager = manager_for(&["/bin/false"], RestartMode::Always, 0, 5);
    assert_eq!(manager.run(&mut registry, ServiceEvent::Start), ServiceAction::Spawn);
    for _ in 0..20 {
        assert_eq!(manager.run(&mut registry, ServiceEvent::Spawned(Some(4242))), ServiceAction::AwaitChild);
        assert_eq!(manager.run(&mut registry, ServiceEvent::Exited(None)), ServiceAction::Sleep { ms: 5 });
        assert_eq!(manager.run(&mut registry, ServiceEvent::DelayElapsed), ServiceAction::Spawn);
    }
    assert_eq!(manager.current_restart_count(), 0);
}

#[test]
fn signal_shutdown_during_run_terminates_within_the_deadline() {
    let mut registry = Subreaper::new();
    let mut manager = manager_for(&["/bin/sleep", "3600"], RestartMode::Always, 0, 100);
    assert_eq!(manager.run(&mut registry, ServiceEvent::Start), ServiceAction::Spawn);
    assert_eq!(manager.run(&mut registry, ServiceEvent::Spawned(Some(4242))), ServiceAction::AwaitChild);
    assert_eq!(
        manager.run(&mut registry, ServiceEvent::Cancelled),
        ServiceAction::Terminate { deadline_ms: 100 }
    );
    assert_eq!(manager.phase(), ServicePhase::Stopping);
    assert_eq!(manager.run(&mut registry, ServiceEvent::Exited(None)), ServiceAction::Finish(Ok(())));
    assert!(manager.is_finished());
}

#[test]
fn signal_shutdown_kills_after_the_deadline() {
    let mut registry = Subreaper::new();
    let mut manager = manager_for(&["/bin/sleep", "3600"], RestartMode::Always, 0, 100);
    assert_eq!(manager.run(&mut registry, ServiceEvent::Start), ServiceAction::Spawn);
    assert_eq!(manager.run(&mut registry, ServiceEvent::Spawned(Some(4242))), ServiceAction::AwaitChild);
    assert_eq!(
        manager.run(&mut registry, ServiceEvent::Cancelled),
        ServiceAction::Terminate { deadline_ms: 100 }
    );
    assert_eq!(manager.run(&mut registry, ServiceEvent::Cancelled), ServiceAction::Ignore);
    assert_eq!(manager.run(&mut registry, ServiceEvent::DeadlineElapsed), ServiceAction::Kill);
    assert_eq!(manager.phase(), ServicePhase::Killing);
    assert_eq!(manager.run(&mut registry, ServiceEvent::DeadlineElapsed), ServiceAction::Ignore);
    assert_eq!(manager.run(&mut registry, ServiceEvent::Exited(None)), ServiceAction::Finish(Ok(())));
}

#[test]
fn shutdown_during_the_restart_delay_ends_the_service() {
    let mut registry = Subreaper::new();
    let mut manager = manager_for(&["/bin/false"], RestartMode::Always, 0, 100);
    assert_eq!(manager.run(&mut registry, ServiceEvent::Start), ServiceAction::Spawn);
    assert_eq!(manager.run(&mut registry, ServiceEvent::Spawned(Some(4242))), ServiceAction::AwaitChild);
    assert_eq!(manager.run(&mut registry, ServiceEvent::Exited(Some(1))), ServiceAction::Sleep { ms: 100 });
    assert_eq!(manager.run(&mut registry, ServiceEvent::Cancelled), ServiceAction::Finish(Ok(())));
    assert_eq!(manager.run(&mut registry, ServiceEvent::DelayElapsed), ServiceAction::Ignore);
}

#[test]
fn spawn_failure_is_an_error_of_the_service() {
    let mut registry = Subreaper::new();
    let mut manager = manager_for(&["/no/such/binary"], RestartMode::Always, 0, 100);
    assert_eq!(manager.run(&mut registry, ServiceEvent::Start), ServiceAction::Spawn);
    assert_eq!(
        manager.run(&mut registry, ServiceEvent::SpawnFailed("not found".to_string())),
        ServiceAction::Finish(Err(Error::SpawnFailed("svc".to_string(), "not found".to_string())))
    );
    assert!(manager.is_finished());
}

#[test]
fn wait_failure_is_an_error_of_the_service() {
    let mut registry = Subreaper::new();
    for cancel_first in [false, true] {
        let mut manager = manager_for(&["/bin/true"], RestartMode::Always, 0, 100);
        assert_eq!(manager.run(&mut registry, ServiceEvent::Start), ServiceAction::Spawn);
        assert_eq!(manager.run(&mut registry, ServiceEvent::Spawned(Some(4242))), ServiceAction::AwaitChild);
        if cancel_first {
            manager.run(&mut registry, ServiceEvent::Cancelled);
        }
        assert_eq!(
            manager.run(&mut registry, ServiceEvent::WaitFailed("interrupted".to_string())),
            ServiceAction::Finish(Err(Error::WaitFailed(
                "svc".to_string(),
                "interrupted".to_string()
            )))
        );
    }
}

#[test]
fn child_is_in_the_registry_from_its_start_to_its_end() {
    let mut registry = Subreaper::new();
    registry.register_child(7);
    let others = registry.snapshot_managed();
    let mut manager = manager_for(&["/bin/false"], RestartMode::Always, 0, 5);
    assert_eq!(manager.held_pid(), None);
    assert_eq!(manager.run(&mut registry, ServiceEvent::Start), ServiceAction::Spawn);
    assert_eq!(registry.snapshot_managed(), others);
    assert_eq!(manager.run(&mut registry, ServiceEvent::Spawned(Some(31))), ServiceAction::AwaitChild);
    assert_eq!(manager.held_pid(), Some(31));
    assert!(registry.registry().contains(&31));
    assert!(registry.registry().contains(&7));
    manager.run(&mut registry, ServiceEvent::Cancelled);
    assert!(registry.registry().contains(&31));
    assert_eq!(manager.run(&mut registry, ServiceEvent::DeadlineElapsed), ServiceAction::Kill);
    assert!(registry.registry().contains(&31));
    assert_eq!(manager.run(&mut registry, ServiceEvent::Exited(None)), ServiceAction::Finish(Ok(())));
    assert_eq!(manager.held_pid(), None);
    assert_eq!(registry.snapshot_managed(), others);
}

#[test]
fn each_restart_registers_its_own_child() {
    let mut registry = Subreaper::new();
    let mut manager = manager_for(&["/bin/false"], RestartMode::Always, 0, 5);
    manager.run(&mut registry, ServiceEvent::Start);
    for pid in [10u32, 11, 12] {
        manager.run(&mut registry, ServiceEvent::Spawned(Some(pid)));
        assert_eq!(manager.held_pid(), Some(pid as i32));
        assert_eq!(registry.registry().len(), 1);
        assert!(registry.registry().contains(&(pid as i32)));
        manager.run(&mut registry, ServiceEvent::Exited(Some(1)));
        assert!(registry.registry().is_empty());
        manager.run(&mut registry, ServiceEvent::DelayElapsed);
    }
    manager.run(&mut registry, ServiceEvent::Spawned(None));
    assert_eq!(manager.held_pid(), None);
    assert!(registry.registry().is_empty());
    manager.run(&mut registry, ServiceEvent::WaitFailed("gone".to_string()));
    assert!(registry.registry().is_empty());
}

#[test]
fn no_child_is_started_while_one_is_alive() {
    let mut registry = Subreaper::new();
    let mut manager = manager_for(&["/bin/false"], RestartMode::Always, 0, 5);
    assert_eq!(manager.run(&mut registry, ServiceEvent::Start), ServiceAction::Spawn);
    assert_eq!(manager.run(&mut registry, ServiceEvent::Start), ServiceAction::Ignore);
    assert_eq!(manager.run(&mut registry, ServiceEvent::DelayElapsed), ServiceAction::Ignore);
    assert_eq!(manager.run(&mut registry, ServiceEvent::Spawned(Some(4242))), ServiceAction::AwaitChild);
    assert_eq!(manager.run(&mut registry, ServiceEvent::Start), ServiceAction::Ignore);
    assert_eq!(manager.run(&mut registry, ServiceEvent::DelayElapsed), ServiceAction::Ignore);
    assert_eq!(manager.run(&mut registry, ServiceEvent::Spawned(Some(4242))), ServiceAction::Ignore);
    assert_eq!(manager.phase(), ServicePhase::Running);
    assert_eq!(manager.run(&mut registry, ServiceEvent::Exited(Some(2))), ServiceAction::Sleep { ms: 5 });
    assert_eq!(manager.run(&mut registry, ServiceEvent::Exited(Some(2))), ServiceAction::Ignore);
    assert_eq!(manager.run(&mut registry, ServiceEvent::DelayElapsed), ServiceAction::Spawn);
}

#[test]
fn child_cycle_leaves_the_other_phases_alone() {
    let mut registry = Subreaper::new();
    let mut manager = manager_for(&["/bin/false"], RestartMode::Always, 0, 5);
    assert_eq!(manager.spawn_service_process(&mut registry, ServiceEvent::Start), ServiceAction::Ignore);
    assert_eq!(manager.spawn_service_process(&mut registry, ServiceEvent::Spawned(Some(4242))), ServiceAction::Ignore);
    assert_eq!(manager.phase(), ServicePhase::Created);
    assert_eq!(manager.run(&mut registry, ServiceEvent::Start), ServiceAction::Spawn);
    assert_eq!(manager.spawn_service_process(&mut registry, ServiceEvent::Spawned(Some(4242))), ServiceAction::AwaitChild);
    assert_eq!(
        manager.spawn_service_process(&mut registry, ServiceEvent::Exited(Some(1))),
        ServiceAction::Sleep { ms: 5 }
    );
    assert_eq!(manager.spawn_service_process(&mut registry, ServiceEvent::DelayElapsed), ServiceAction::Ignore);
    assert_eq!(manager.phase(), ServicePhase::Delaying);
}

#[test]
fn events_that_do_not_apply_change_nothing() {
    let mut registry = Subreaper::new();
    let mut manager = manager_for(&["/bin/true"], RestartMode::Never, 0, 0);
    assert_eq!(manager.run(&mut registry, ServiceEvent::Spawned(Some(4242))), ServiceAction::Ignore);
    assert_eq!(manager.run(&mut registry, ServiceEvent::Exited(Some(0))), ServiceAction::Ignore);
    assert_eq!(manager.run(&mut registry, ServiceEvent::Cancelled), ServiceAction::Ignore);
    assert_eq!(manager.phase(), ServicePhase::Created);
    assert_eq!(manager.run(&mut registry, ServiceEvent::Start), ServiceAction::Spawn);
    assert_eq!(manager.run(&mut registry, ServiceEvent::Exited(Some(0))), ServiceAction::Ignore);
    assert_eq!(manager.run(&mut registry, ServiceEvent::Cancelled), ServiceAction::Ignore);
    assert_eq!(manager.phase(), ServicePhase::Spawning);
}

#[test]
fn child_gets_its_arguments_and_only_the_config_home() {
    let manager = manager_for(&["/bin/sleep", "36", "00"], RestartMode::Never, 0, 0);
    let spec = manager.create_service_child();
    assert_eq!(spec.program, "/bin/sleep");
    assert_eq!(spec.args, vec!["36".to_string(), "00".to_string()]);
    assert!(spec.clear_env);
    assert_eq!(
        spec.env,
        vec![(
            "XDG_CONFIG_HOME".to_string(),
            "/tmp/nimi-config-44136fa355b3678a1146ad16f7e8649e94fb4fc21fe77e8310c060f61caaff8a"
                .to_string()
        )]
    );
    assert!(spec.pipe_stdout);
    assert!(spec.pipe_stderr);
    assert!(spec.kill_on_drop);
}

fn shared_config(first_a: bool) -> NameMap<ConfigData> {
    let a = ConfigData {
        enable: true,
        path: "a.conf".to_string(),
        source: "/src/a".to_string(),
        text: None,
    };
    let b = ConfigData {
        enable: true,
        path: "b.conf".to_string(),
        source: "/src/b".to_string(),
        text: Some("b".to_string()),
    };
    let mut map = NameMap::new();
    if first_a {
        map.insert("a".to_string(), a);
        map.insert("b".to_string(), b);
    } else {
        map.insert("b".to_string(), b);
        map.insert("a".to_string(), a);
    }
    map
}

fn manager_with_config(name: &str, first_a: bool) -> ServiceManager {
    ServiceManager::new(ServiceManagerOpts {
        logs_dir: None,
        tmp_dir: "/tmp".to_string(),
        settings: settings_with(RestartMode::Never, 0, 0),
        name: name.to_string(),
        service: Service {
            config_data: shared_config(first_a),
            process: Process::new(vec!["/bin/true".to_string()]).unwrap(),
        },
    })
    .unwrap()
}

#[test]
fn services_with_identical_config_share_one_directory() {
    let mut registry = Subreaper::new();
    let mut one = manager_with_config("one", true);
    let mut two = manager_with_config("two", false);
    assert!(matches!(one.next_config_action(), PlanAction::EnsureDir { .. }));
    assert_eq!(one.next_config_action(), two.next_config_action());
    for outcome in [StepOutcome::Done, StepOutcome::AlreadyExists] {
        let manager = if outcome == StepOutcome::Done { &mut one } else { &mut two };
        assert!(!manager.is_ready());
        assert_eq!(manager.run(&mut registry, ServiceEvent::Start), ServiceAction::Ignore);
        let mut steps = 0;
        while !manager.is_ready() {
            assert!(!matches!(manager.next_config_action(), PlanAction::Finished));
            assert_eq!(manager.config_step(outcome.clone()), Ok(()));
            steps += 1;
        }
        assert_eq!(steps, 5);
        assert_eq!(manager.run(&mut registry, ServiceEvent::Start), ServiceAction::Spawn);
    }
    let home_one = one.create_service_child().env;
    let home_two = two.create_service_child().env;
    assert_eq!(home_one, home_two);
    assert_eq!(home_one.len(), 1);
    assert!(home_one[0].1.starts_with("/tmp/nimi-config-"));
    assert_eq!(home_one[0].1.len(), "/tmp/".len() + 76);
}

#[test]
fn config_failure_is_surfaced_and_the_service_does_not_begin() {
    let mut registry = Subreaper::new();
    let mut manager = manager_with_config("one", true);
    let dir = manager.create_service_child().env[0].1.clone();
    let failed =
        |reason: ConfigFailure| Err(Error::ServiceConfigFailed("one".to_string(), reason));
    assert_eq!(
        manager.config_step(StepOutcome::Failed("read-only file system".to_string())),
        failed(ConfigFailure::DirectoryFailed(dir, "read-only file system".to_string()))
    );
    assert_eq!(manager.config_step(StepOutcome::AlreadyExists), Ok(()));
    assert_eq!(
        manager.config_step(StepOutcome::Failed("read-only file system".to_string())),
        failed(ConfigFailure::ParentFailed(
            "a.conf".to_string(),
            "read-only file system".to_string()
        ))
    );
    assert_eq!(
        manager.config_step(StepOutcome::NoParent),
        failed(ConfigFailure::NoParentDirectory("a.conf".to_string()))
    );
    assert_eq!(manager.config_step(StepOutcome::Done), Ok(()));
    assert_eq!(
        manager.config_step(StepOutcome::Failed("read-only file system".to_string())),
        failed(ConfigFailure::LinkFailed("a.conf".to_string(), "read-only file system".to_string()))
    );
    assert!(!manager.is_ready());
    assert_eq!(manager.run(&mut registry, ServiceEvent::Start), ServiceAction::Ignore);
    assert_eq!(manager.phase(), ServicePhase::Created);
}

#[test]
fn manager_keeps_its_name_and_logs_directory() {
    let manager = ServiceManager::new(ServiceManagerOpts {
        logs_dir: Some("/var/log/nimi/logs-0".to_string()),
        tmp_dir: "/tmp".to_string(),
        settings: settings_with(RestartMode::Never, 0, 0),
        name: "web".to_string(),
        service: service_of(&["/bin/true"]),
    })
    .unwrap();
    assert_eq!(manager.service_name(), "web");
    assert_eq!(manager.logs_directory(), &Some("/var/log/nimi/logs-0".to_string()));
    assert_eq!(manager.current_restart_count(), 0);
}

#[test]
fn restart_policy_decisions() {
    let never = Restart { mode: RestartMode::Never, time: 1, count: 3 };
    let counted = Restart { mode: RestartMode::UpToCount, time: 1, count: 3 };
    let always = Restart { mode: RestartMode::Always, time: 1, count: 3 };
    assert_eq!(never.evaluate(0), RestartDecision::GiveUp);
    assert_eq!(counted.evaluate(0), RestartDecision::Again(1));
    assert_eq!(counted.evaluate(2), RestartDecision::Again(3));
    assert_eq!(counted.evaluate(3), RestartDecision::GiveUp);
    assert_eq!(counted.evaluate(usize::MAX), RestartDecision::GiveUp);
    assert_eq!(always.evaluate(9), RestartDecision::Again(9));
}

#[test]
fn process_needs_an_executable() {
    assert!(Process::new(Vec::new()).is_none());
    let process = Process::new(vec!["/bin/echo".to_string(), "hi".to_string()]).unwrap();
    assert_eq!(process.binary(), "/bin/echo");
    assert_eq!(process.args(), vec!["hi".to_string()]);
    assert_eq!(process.argv_list().len(), 2);
    let alone = Process::new(vec!["/bin/true".to_string()]).unwrap();
    assert!(alone.args().is_empty());
}
