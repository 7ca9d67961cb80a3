use service_registry::process::{ExitStatus, SupervisedProcess};
use service_registry::registry::{MonitorAction, Probe, Registry, RegistryError, StartPlan};
use service_registry::rpc::{invalid_request, Dispatch, Request, Response, ResponseData};
use service_registry::service::{RestartPolicy, ServiceSpec};

fn spec(name: &str, cmd: &[&str], restart: RestartPolicy) -> ServiceSpec {
    ServiceSpec {
        name: name.to_string(),
        cmd: cmd.iter().map(|s| s.to_string()).collect(),
        env: None,
        working_dir: None,
        restart,
        max_restarts: None,
        health_check: None,
    }
}

fn reply(d: Dispatch<u32>) -> Response {
    match d {
        Dispatch::Reply(r) => r,
        other => panic!("expected a reply, got {:?}", other),
    }
}

fn message(r: &Response) -> String {
    r.message.clone().unwrap_or_default()
}

/// Registers `s` and starts it as process `child` at time `now`.
fn started(reg: &mut Registry<u32>, s: ServiceSpec, child: u32, now: u64) {
    let name = s.name.clone();
    assert!(reg.register(s).is_ok());
    match reg.dispatch(Request::Start { name: name.clone() }, now) {
        Dispatch::Launch(n, _) => assert_eq!(n, name),
        other => panic!("expected a launch, got {:?}", other),
    }
    let r = reply(reg.finish_launch(&name, Ok(child), now));
    assert!(r.ok);
    assert_eq!(message(&r), "started");
}

#[test]
fn register_then_list_holds_spec_once() {
    let mut reg: Registry<u32> = Registry::new();
    let r = reply(reg.dispatch(Request::Register { spec: spec("web", &["sleep", "5"], RestartPolicy::Never) }, 0));
    assert!(r.ok);
    assert_eq!(message(&r), "registered");
    let listed = reg.list();
    assert_eq!(listed.iter().filter(|s| s.name == "web").count(), 1);
    assert_eq!(listed[0].cmd, vec!["sleep".to_string(), "5".to_string()]);
    let again = reply(reg.dispatch(Request::Register { spec: spec("web", &["true"], RestartPolicy::Always) }, 0));
    assert!(!again.ok);
    assert_eq!(message(&again), "service exists");
    assert_eq!(reg.list().len(), 1);
    assert_eq!(reg.list()[0].restart, RestartPolicy::Never);
}

#[test]
fn list_response_carries_specs_in_order() {
    let mut reg: Registry<u32> = Registry::new();
    assert!(reg.register(spec("a", &["true"], RestartPolicy::Never)).is_ok());
    assert!(reg.register(spec("b", &["false"], RestartPolicy::Always)).is_ok());
    let r = reply(reg.dispatch(Request::List, 0));
    assert!(r.ok);
    assert!(r.message.is_none());
    match r.data {
        Some(ResponseData::Services(v)) => {
            let names: Vec<String> = v.iter().map(|s| s.name.clone()).collect();
            assert_eq!(names, vec!["a".to_string(), "b".to_string()]);
        }
        other => panic!("expected services, got {:?}", other),
    }
}

#[test]
fn start_missing_is_not_found() {
    let mut reg: Registry<u32> = Registry::new();
    let r = reply(reg.dispatch(Request::Start { name: "missing".to_string() }, 0));
    assert!(!r.ok);
    assert_eq!(message(&r), "start failed: service not found");
    assert!(reg.supervised_names().is_empty());
    assert!(matches!(reg.begin_start("missing"), Err(RegistryError::NotFound)));
}

#[test]
fn register_with_empty_command_is_rejected() {
    let mut reg: Registry<u32> = Registry::new();
    assert!(matches!(reg.register(spec("empty", &[], RestartPolicy::Never)), Err(RegistryError::EmptyCommand)));
    let r = reply(reg.dispatch(Request::Register { spec: spec("empty", &[], RestartPolicy::Never) }, 0));
    assert!(!r.ok);
    assert_eq!(message(&r), "invalid request: empty command");
    assert!(reg.list().is_empty());
    let s = reply(reg.dispatch(Request::Start { name: "empty".to_string() }, 0));
    assert!(!s.ok);
    assert_eq!(message(&s), "start failed: service not found");
    assert!(reg.supervised_names().is_empty());
}

#[test]
fn spawn_failure_is_reported_and_leaves_nothing() {
    let mut reg: Registry<u32> = Registry::new();
    assert!(reg.register(spec("ghost", &["/no/such/binary"], RestartPolicy::Always)).is_ok());
    match reg.dispatch(Request::Start { name: "ghost".to_string() }, 0) {
        Dispatch::Launch(n, argv) => {
            assert_eq!(n, "ghost");
            assert_eq!(argv, vec!["/no/such/binary".to_string()]);
        }
        other => panic!("expected a launch, got {:?}", other),
    }
    let r = reply(reg.finish_launch("ghost", Err("No such file or directory".to_string()), 0));
    assert!(!r.ok);
    assert_eq!(message(&r), "start failed: No such file or directory");
    assert!(reg.supervised_names().is_empty());
}

#[test]
fn never_policy_exit_ends_supervision() {
    let mut reg: Registry<u32> = Registry::new();
    started(&mut reg, spec("nap", &["sleep", "5"], RestartPolicy::Never), 11, 0);
    let action = reg.monitor_step("nap", Probe::Exited(ExitStatus { code: Some(0) }));
    assert!(matches!(action, MonitorAction::Retired(ExitStatus { code: Some(0) })));
    let r = reply(reg.dispatch(Request::Status { name: "nap".to_string() }, 6000));
    assert!(!r.ok);
    assert_eq!(message(&r), "not running");
    assert!(reg.restart_args("nap").is_none());
    assert!(matches!(reg.monitor_step("nap", Probe::Running), MonitorAction::Nothing));
}

#[test]
fn on_failure_restarts_with_doubling_backoff() {
    let mut reg: Registry<u32> = Registry::new();
    started(&mut reg, spec("crashy", &["false"], RestartPolicy::OnFailure), 1, 0);
    let mut delays = Vec::new();
    let mut counts = Vec::new();
    for round in 0..8u32 {
        match reg.monitor_step("crashy", Probe::Exited(ExitStatus { code: Some(1) })) {
            MonitorAction::Restart(d) => delays.push(d),
            other => panic!("expected a restart, got {:?}", other),
        }
        assert_eq!(reg.restart_args("crashy"), Some(vec!["false".to_string()]));
        reg.complete_restart("crashy", 100 + round, 1000 * (round as u64 + 1));
        match reg.status("crashy", 0) {
            Ok(info) => counts.push(info.restart_count),
            Err(e) => panic!("unexpected {:?}", e),
        }
    }
    assert_eq!(delays, vec![1, 2, 4, 8, 16, 30, 30, 30]);
    assert_eq!(counts, vec![2, 3, 4, 5, 6, 7, 8, 9]);
}

#[test]
fn on_failure_does_not_restart_after_success() {
    let mut reg: Registry<u32> = Registry::new();
    started(&mut reg, spec("job", &["true"], RestartPolicy::OnFailure), 3, 0);
    let action = reg.monitor_step("job", Probe::Exited(ExitStatus { code: Some(0) }));
    assert!(matches!(action, MonitorAction::Retired(_)));
    assert!(reg.supervised_names().is_empty());
}

#[test]
fn on_failure_restarts_after_signal() {
    let mut reg: Registry<u32> = Registry::new();
    started(&mut reg, spec("killed", &["sleep", "100"], RestartPolicy::OnFailure), 3, 0);
    let action = reg.monitor_step("killed", Probe::Exited(ExitStatus { code: None }));
    assert!(matches!(action, MonitorAction::Restart(1)));
}

#[test]
fn always_policy_restarts_after_success() {
    let mut reg: Registry<u32> = Registry::new();
    started(&mut reg, spec("loop", &["true"], RestartPolicy::Always), 5, 0);
    let action = reg.monitor_step("loop", Probe::Exited(ExitStatus { code: Some(0) }));
    assert!(matches!(action, MonitorAction::Restart(1)));
    let action = reg.monitor_step("loop", Probe::Running);
    assert!(matches!(action, MonitorAction::Restart(2)));
}

#[test]
fn backoff_is_not_reset_after_a_healthy_run() {
    let mut reg: Registry<u32> = Registry::new();
    started(&mut reg, spec("svc", &["server"], RestartPolicy::Always), 1, 0);
    assert!(matches!(reg.monitor_step("svc", Probe::Exited(ExitStatus { code: Some(2) })), MonitorAction::Restart(1)));
    reg.complete_restart("svc", 2, 1000);
    for _ in 0..100 {
        assert!(matches!(reg.monitor_step("svc", Probe::Running), MonitorAction::CheckHealth(_)));
    }
    assert!(matches!(reg.monitor_step("svc", Probe::Exited(ExitStatus { code: Some(2) })), MonitorAction::Restart(2)));
}

#[test]
fn running_service_gets_a_health_check() {
    let mut reg: Registry<u32> = Registry::new();
    let mut s = spec("probe", &["server"], RestartPolicy::Never);
    s.health_check = Some("http://127.0.0.1:8080/health".to_string());
    started(&mut reg, s, 9, 0);
    match reg.monitor_step("probe", Probe::Running) {
        MonitorAction::CheckHealth(spec) => {
            assert_eq!(spec.name, "probe");
            assert_eq!(spec.health_check.as_deref(), Some("http://127.0.0.1:8080/health"));
        }
        other => panic!("expected a health check, got {:?}", other),
    }
    assert!(matches!(reg.monitor_step("probe", Probe::Failed), MonitorAction::Nothing));
    assert!(reg.status("probe", 0).unwrap().running);
}

#[test]
fn stop_during_restart_backoff_wins() {
    let mut reg: Registry<u32> = Registry::new();
    started(&mut reg, spec("racer", &["false"], RestartPolicy::Always), 21, 0);
    assert!(matches!(reg.monitor_step("racer", Probe::Exited(ExitStatus { code: Some(1) })), MonitorAction::Restart(1)));
    let r = reply(reg.dispatch(Request::Stop { name: "racer".to_string() }, 0));
    assert!(r.ok);
    assert_eq!(message(&r), "stopped");
    assert!(reg.restart_args("racer").is_none());
    let st = reply(reg.dispatch(Request::Status { name: "racer".to_string() }, 0));
    assert!(!st.ok);
    assert_eq!(message(&st), "not running");
}

#[test]
fn stop_running_hands_over_the_process() {
    let mut reg: Registry<u32> = Registry::new();
    started(&mut reg, spec("web", &["server"], RestartPolicy::Always), 42, 0);
    match reg.dispatch(Request::Stop { name: "web".to_string() }, 0) {
        Dispatch::Terminate(child, r) => {
            assert_eq!(child, 42);
            assert!(r.ok);
            assert_eq!(message(&r), "stopped");
        }
        other => panic!("expected a termination, got {:?}", other),
    }
    assert!(reg.status("web", 0).is_err());
    let again = reply(reg.dispatch(Request::Stop { name: "web".to_string() }, 0));
    assert!(again.ok);
}

#[test]
fn restart_after_stop_and_start_launches_nothing_more() {
    let mut reg: Registry<u32> = Registry::new();
    started(&mut reg, spec("web", &["server"], RestartPolicy::Always), 1, 0);
    assert!(matches!(reg.monitor_step("web", Probe::Exited(ExitStatus { code: Some(1) })), MonitorAction::Restart(1)));
    assert!(reg.stop("web").is_none());
    match reg.dispatch(Request::Start { name: "web".to_string() }, 10) {
        Dispatch::Launch(_, _) => {}
        other => panic!("expected a launch, got {:?}", other),
    }
    assert!(reply(reg.finish_launch("web", Ok(2), 10)).ok);
    assert!(reg.restart_args("web").is_none());
}

#[test]
fn unregister_never_registered_is_ok() {
    let mut reg: Registry<u32> = Registry::new();
    let r = reply(reg.dispatch(Request::Unregister { name: "never-registered".to_string() }, 0));
    assert!(r.ok);
    assert_eq!(message(&r), "unregistered");
}

#[test]
fn unregister_running_stops_and_forgets() {
    let mut reg: Registry<u32> = Registry::new();
    started(&mut reg, spec("web", &["server"], RestartPolicy::Always), 8, 0);
    assert!(reg.register(spec("db", &["db"], RestartPolicy::Never)).is_ok());
    match reg.dispatch(Request::Unregister { name: "web".to_string() }, 0) {
        Dispatch::Terminate(child, r) => {
            assert_eq!(child, 8);
            assert_eq!(message(&r), "unregistered");
        }
        other => panic!("expected a termination, got {:?}", other),
    }
    let names: Vec<String> = reg.list().iter().map(|s| s.name.clone()).collect();
    assert_eq!(names, vec!["db".to_string()]);
    assert!(reg.supervised_names().is_empty());
}

#[test]
fn double_start_on_running_service_keeps_one_process() {
    let mut reg: Registry<u32> = Registry::new();
    started(&mut reg, spec("web", &["server"], RestartPolicy::Never), 7, 0);
    for _ in 0..2 {
        let r = reply(reg.dispatch(Request::Start { name: "web".to_string() }, 5));
        assert!(r.ok);
        assert_eq!(message(&r), "started");
    }
    assert_eq!(reg.supervised_names(), vec!["web".to_string()]);
    let info = reg.status("web", 5000).unwrap();
    assert_eq!(info.restart_count, 1);
    assert!(info.running);
}

#[test]
fn racing_launch_hands_back_the_surplus_process() {
    let mut reg: Registry<u32> = Registry::new();
    assert!(reg.register(spec("web", &["server"], RestartPolicy::Never)).is_ok());
    assert!(matches!(reg.begin_start("web"), Ok(StartPlan::Launch(_))));
    assert!(matches!(reg.begin_start("web"), Ok(StartPlan::Launch(_))));
    assert!(reply(reg.finish_launch("web", Ok(1), 0)).ok);
    match reg.finish_launch("web", Ok(2), 0) {
        Dispatch::Terminate(child, r) => {
            assert_eq!(child, 2);
            assert!(r.ok);
        }
        other => panic!("expected a termination, got {:?}", other),
    }
    match reg.stop("web") {
        Some(child) => assert_eq!(child, 1),
        None => panic!("expected the first process"),
    }
}

#[test]
fn malformed_line_then_valid_lines() {
    let mut reg: Registry<u32> = Registry::new();
    let bad = invalid_request("expected value at line 1 column 1");
    assert!(!bad.ok);
    assert_eq!(message(&bad), "invalid request: expected value at line 1 column 1");
    assert!(bad.data.is_none());
    let r = reply(reg.dispatch(Request::Register { spec: spec("web", &["server"], RestartPolicy::Never) }, 0));
    assert!(r.ok);
    let l = reply(reg.dispatch(Request::List, 0));
    assert!(l.ok);
}

#[test]
fn status_reports_seconds_since_start() {
    let mut reg: Registry<u32> = Registry::new();
    started(&mut reg, spec("web", &["server"], RestartPolicy::Never), 4, 1000);
    let r = reply(reg.dispatch(Request::Status { name: "web".to_string() }, 4500));
    assert!(r.ok);
    match r.data {
        Some(ResponseData::Status(info)) => {
            assert_eq!(info.name, "web");
            assert!(info.running);
            assert_eq!(info.restart_count, 1);
            assert_eq!(info.last_start_secs_ago, Some(3));
        }
        other => panic!("expected a status, got {:?}", other),
    }
    assert_eq!(reg.status("web", 500).unwrap().last_start_secs_ago, Some(0));
}

#[test]
fn error_messages() {
    assert_eq!(RegistryError::NotFound.message(), "service not found");
    assert_eq!(RegistryError::AlreadyExists.message(), "service exists");
    assert_eq!(RegistryError::NotRunning.message(), "not running");
    assert_eq!(RegistryError::EmptyCommand.message(), "empty command");
    assert_eq!(RegistryError::SpawnFailed("denied".to_string()).message(), "denied");
}

#[test]
fn supervised_process_transitions() {
    let mut p: SupervisedProcess<u32> = SupervisedProcess::new(vec!["a".to_string()], RestartPolicy::OnFailure);
    assert!(!p.is_running());
    assert_eq!(p.backoff, 1);
    p.record_spawn(9, 100);
    assert!(p.is_running());
    assert_eq!(p.restart_count, 1);
    assert_eq!(p.last_start, Some(100));
    assert_eq!(p.poll_exit(None), None);
    assert!(p.is_running());
    assert_eq!(p.poll_exit(Some(ExitStatus { code: Some(3) })), Some(ExitStatus { code: Some(3) }));
    assert!(!p.is_running());
    assert_eq!(p.poll_exit(Some(ExitStatus { code: Some(3) })), None);
    p.record_spawn(10, 200);
    assert_eq!(p.kill(), Some(10));
    assert_eq!(p.kill(), None);
    assert_eq!(p.restart_count, 2);
    p.restart_count = u32::MAX;
    p.record_spawn(11, 300);
    assert_eq!(p.restart_count, u32::MAX);
}

#[test]
fn backoff_caps_at_thirty() {
    let mut p: SupervisedProcess<u32> = SupervisedProcess::new(vec!["a".to_string()], RestartPolicy::Always);
    p.backoff = 15;
    assert_eq!(p.take_backoff(), 15);
    assert_eq!(p.backoff, 30);
    assert_eq!(p.take_backoff(), 30);
    assert_eq!(p.backoff, 30);
    p.backoff = 14;
    p.take_backoff();
    assert_eq!(p.backoff, 28);
}

#[test]
fn restart_decisions() {
    let ok = Some(ExitStatus { code: Some(0) });
    let failed = Some(ExitStatus { code: Some(1) });
    let signalled = Some(ExitStatus { code: None });
    let never: SupervisedProcess<u32> = SupervisedProcess::new(vec![], RestartPolicy::Never);
    let on_failure: SupervisedProcess<u32> = SupervisedProcess::new(vec![], RestartPolicy::OnFailure);
    let always: SupervisedProcess<u32> = SupervisedProcess::new(vec![], RestartPolicy::Always);
    for e in [ok, failed, signalled, None] {
        assert!(!never.should_restart(e));
        assert!(always.should_restart(e));
    }
    assert!(!on_failure.should_restart(ok));
    assert!(on_failure.should_restart(failed));
    assert!(on_failure.should_restart(signalled));
    assert!(!on_failure.should_restart(None));
    assert!(ExitStatus { code: Some(0) }.success());
    assert!(!ExitStatus { code: Some(-1) }.success());
    assert!(!ExitStatus { code: None }.success());
}

#[test]
fn launch_args_need_a_command() {
    let empty: SupervisedProcess<u32> = SupervisedProcess::new(vec![], RestartPolicy::Never);
    assert!(empty.launch_args().is_err());
    let p: SupervisedProcess<u32> = SupervisedProcess::new(vec!["ls".to_string(), "-l".to_string()], RestartPolicy::Never);
    assert_eq!(p.launch_args().unwrap(), vec!["ls".to_string(), "-l".to_string()]);
}
