use aas_edge::reply::LogLine;
use aas_edge::scheduler_task::{
    polling_report, server_pushing_step, server_pushing_step_checked, PatchTarget, PushAction,
    PushEvent, PushState, PushStep, OFFBOARDED_GRACE_SECS, POLL_INTERVAL_SECS, PUSH_INTERVAL_SECS,
};
use aas_edge::time::{seconds_between, Instant};
use aas_edge::value::{Document, Value};

fn s(text: &str) -> Value {
    Value::Str(text.to_string())
}

fn doc(pairs: Vec<(&str, Value)>) -> Document {
    let mut d = Document::new();
    for (k, v) in pairs {
        d.insert(k.to_string(), v);
    }
    d
}

const T0: i64 = 1_700_000_000;
const T0_TEXT: &str = "2023-11-14T22:13:20+00:00";

fn at(secs: i64) -> Instant {
    Instant { secs, nanos: 0 }
}

fn system_information() -> Value {
    Value::Doc(doc(vec![("Hostname", s("edge1")), ("CpuCount", Value::Int64(4))]))
}

fn device(status: &str, last_update: &str) -> Document {
    doc(vec![
        ("idShort", s("ManagedDevice")),
        ("BoardingStatus", s(status)),
        ("LastUpdate", s(last_update)),
    ])
}

fn boarding(status: &str, stamp: &str) -> Value {
    Value::Doc(doc(vec![("BoardingStatus", s(status)), ("LastUpdate", s(stamp))]))
}

/// Runs the task up to the point where it has read the managed device.
fn read_device(device: Document, now: Instant) -> PushStep {
    let step = server_pushing_step("edge1", PushState::Start, PushEvent::Tick);
    assert_eq!(step.action, PushAction::RunScript("./scripts/aas_client/sysInfo.sh".to_string()));
    assert_eq!(step.log, None);
    let step = server_pushing_step("edge1", step.state, PushEvent::ScriptOutput(Ok(system_information())));
    assert_eq!(
        step.action,
        PushAction::PatchDatabase { submodel: "SystemInformation".to_string(), body: Ok(system_information()) }
    );
    let step = server_pushing_step("edge1", step.state, PushEvent::PatchDone(Ok("stored".to_string())));
    assert_eq!(step.action, PushAction::ReadDevice { key: "edge1:ManagedDevice".to_string() });
    server_pushing_step("edge1", step.state, PushEvent::DeviceRead(Ok(device), now))
}

/// Answers every patch with success and collects the printed lines.
fn finish_patches(mut step: PushStep) -> (Vec<PushAction>, Vec<LogLine>) {
    let mut actions = Vec::new();
    let mut logs = Vec::new();
    let mut rounds = 0;
    while step.action != PushAction::Stop {
        rounds += 1;
        assert!(rounds < 10);
        if let Some(l) = step.log.take() {
            logs.push(l);
        }
        actions.push(std::mem::replace(&mut step.action, PushAction::Stop));
        step = server_pushing_step("edge1", step.state, PushEvent::PatchDone(Ok("done".to_string())));
    }
    if let Some(l) = step.log.take() {
        logs.push(l);
    }
    assert_eq!(step.state, PushState::Finished);
    (actions, logs)
}

#[test]
fn intervals_match_the_scheduler() {
    assert_eq!(PUSH_INTERVAL_SECS, 5);
    assert_eq!(POLL_INTERVAL_SECS, 10);
    assert_eq!(OFFBOARDED_GRACE_SECS, 120);
}

#[test]
fn onboarded_device_pushes_system_information() {
    let step = read_device(device("ONBOARDED", T0_TEXT), at(T0 + 3));
    let (actions, logs) = finish_patches(step);
    assert_eq!(
        actions,
        vec![PushAction::PatchServer { submodel: "SystemInformation".to_string(), body: Ok(system_information()) }]
    );
    assert_eq!(logs, vec![LogLine::Stdout("Successful pushing system information to server".to_string())]);
}

#[test]
fn offboarding_request_marks_the_device_offboarded_twice() {
    let step = read_device(device("OFFBOARDING_REQUESTED", T0_TEXT), at(T0));
    match &step.state {
        PushState::Patching { pending } => {
            assert_eq!(pending.len(), 2);
            assert_eq!(pending[0].target, PatchTarget::Database);
            assert_eq!(pending[1].target, PatchTarget::Server);
        }
        other => panic!("unexpected state {:?}", other),
    }
    let (actions, logs) = finish_patches(step);
    let body = boarding("OFFBOARDED", T0_TEXT);
    assert_eq!(
        actions,
        vec![
            PushAction::PatchDatabase { submodel: "ManagedDevice".to_string(), body: Ok(body.clone()) },
            PushAction::PatchServer { submodel: "ManagedDevice".to_string(), body: Ok(body) },
        ]
    );
    assert_eq!(logs, vec![LogLine::Stdout("Successful offboarding".to_string())]);
}

#[test]
fn offboarded_device_waits_for_the_grace_period() {
    let step = read_device(device("OFFBOARDED", T0_TEXT), at(T0 + 119));
    assert_eq!(step, PushStep { state: PushState::Finished, log: None, action: PushAction::Stop });
}

#[test]
fn offboarded_device_boards_again_after_the_grace_period() {
    let now = T0 + 120;
    let step = read_device(device("OFFBOARDED", T0_TEXT), at(now));
    let (actions, logs) = finish_patches(step);
    let stamp = "2023-11-14T22:15:20+00:00";
    let body = boarding("ONBOARDED", stamp);
    assert_eq!(
        actions,
        vec![
            PushAction::PatchDatabase { submodel: "ManagedDevice".to_string(), body: Ok(body.clone()) },
            PushAction::PatchServer { submodel: "ManagedDevice".to_string(), body: Ok(body) },
            PushAction::PatchServer { submodel: "SystemInformation".to_string(), body: Ok(system_information()) },
        ]
    );
    assert_eq!(
        logs,
        vec![
            LogLine::Stdout("Successful onboarding".to_string()),
            LogLine::Stdout("Successful pushing system information to server".to_string()),
        ]
    );
}

#[test]
fn unknown_status_does_nothing() {
    let step = read_device(device("PAUSED", T0_TEXT), at(T0));
    assert_eq!(step, PushStep { state: PushState::Finished, log: None, action: PushAction::Stop });
}

#[test]
fn missing_status_or_last_update_is_reported() {
    let step = read_device(doc(vec![("LastUpdate", s(T0_TEXT))]), at(T0));
    assert_eq!(step.action, PushAction::Stop);
    assert_eq!(step.log, Some(LogLine::Stderr("Failed to get boarding status".to_string())));
    let step = read_device(doc(vec![("BoardingStatus", s("ONBOARDED"))]), at(T0));
    assert_eq!(step.action, PushAction::Stop);
    assert_eq!(step.log, Some(LogLine::Stderr("Failed to get last update".to_string())));
}

#[test]
fn failures_end_the_run_with_a_message() {
    let step = server_pushing_step("edge1", PushState::RunningScript, PushEvent::ScriptFailed("no such file".to_string()));
    assert_eq!(step.state, PushState::Finished);
    assert_eq!(step.log, Some(LogLine::Stderr("Failed to execute script: no such file".to_string())));

    let stored = PushState::StoringSystemInformation { system_information: Ok(system_information()) };
    let step = server_pushing_step("edge1", stored, PushEvent::PatchDone(Err("db down".to_string())));
    assert_eq!(step.action, PushAction::Stop);
    assert_eq!(step.log, Some(LogLine::Stderr("Failed to patch submodel: db down".to_string())));

    let reading = PushState::ReadingDevice { system_information: Ok(system_information()) };
    let step = server_pushing_step("edge1", reading, PushEvent::DeviceRead(Err("Document not found".to_string()), at(T0)));
    assert_eq!(step.log, Some(LogLine::Stderr("Failed to find managed device: Document not found".to_string())));

    let step = read_device(device("OFFBOARDING_REQUESTED", T0_TEXT), at(T0));
    let step = server_pushing_step("edge1", step.state, PushEvent::PatchDone(Err("refused".to_string())));
    assert_eq!(step.action, PushAction::Stop);
    assert_eq!(step.log, Some(LogLine::Stderr("Failed to offboard: refused".to_string())));
}

#[test]
fn unexpected_events_end_the_run_quietly() {
    let step = server_pushing_step("edge1", PushState::Start, PushEvent::PatchDone(Ok(String::new())));
    assert_eq!(step, PushStep { state: PushState::Finished, log: None, action: PushAction::Stop });
    let step = server_pushing_step("edge1", PushState::Finished, PushEvent::Tick);
    assert_eq!(step, PushStep { state: PushState::Finished, log: None, action: PushAction::Stop });
}

#[test]
fn unreadable_devices_are_refused_by_the_checked_step() {
    let reading = || PushState::ReadingDevice { system_information: Ok(system_information()) };
    let bad_date = device("ONBOARDED", "yesterday");
    assert!(server_pushing_step_checked("edge1", reading(), PushEvent::DeviceRead(Ok(bad_date), at(T0))).is_none());
    let bad_status = doc(vec![("BoardingStatus", Value::Int32(1)), ("LastUpdate", s(T0_TEXT))]);
    assert!(server_pushing_step_checked("edge1", reading(), PushEvent::DeviceRead(Ok(bad_status), at(T0))).is_none());
    let bad_update = doc(vec![("BoardingStatus", s("ONBOARDED")), ("LastUpdate", Value::Int64(1))]);
    assert!(server_pushing_step_checked("edge1", reading(), PushEvent::DeviceRead(Ok(bad_update), at(T0))).is_none());
    let good = device("ONBOARDED", T0_TEXT);
    let step = server_pushing_step_checked("edge1", reading(), PushEvent::DeviceRead(Ok(good), at(T0))).unwrap();
    assert!(matches!(step.action, PushAction::PatchServer { .. }));
}

#[test]
fn polling_reports_the_fetch() {
    assert_eq!(
        polling_report(Ok(())),
        LogLine::Stdout("Successful fetching submodel ManagedDevice from server".to_string())
    );
    assert_eq!(
        polling_report(Err("Document not found".to_string())),
        LogLine::Stderr("Failed to fetch submodel ManagedDevice from server: Document not found".to_string())
    );
}

#[test]
fn seconds_between_truncates_toward_zero() {
    assert_eq!(seconds_between(&at(T0 + 120), &at(T0)), 120);
    assert_eq!(seconds_between(&at(T0), &at(T0 + 120)), -120);
    let a = Instant { secs: T0 + 1, nanos: 400_000_000 };
    let b = Instant { secs: T0, nanos: 900_000_000 };
    assert_eq!(seconds_between(&a, &b), 0);
    assert_eq!(seconds_between(&b, &a), 0);
    let c = Instant { secs: T0 + 2, nanos: 950_000_000 };
    assert_eq!(seconds_between(&c, &b), 2);
    assert_eq!(seconds_between(&b, &c), -2);
}

#[test]
fn seconds_between_counts_a_leap_second_once() {
    // 23:59:60.5, half a second into a leap second.
    let leap = Instant { secs: 86_399, nanos: 1_500_000_000 };
    let next_day = Instant { secs: 86_400 + 10, nanos: 0 };
    assert_eq!(seconds_between(&next_day, &leap), 9);
    let before = Instant { secs: 86_390, nanos: 0 };
    assert_eq!(seconds_between(&leap, &before), 10);
}

#[test]
fn seconds_between_agrees_with_chrono() {
    let instants = [
        Instant { secs: 0, nanos: 0 },
        Instant { secs: T0, nanos: 0 },
        Instant { secs: T0, nanos: 999_999_999 },
        Instant { secs: T0 + 119, nanos: 500_000_000 },
        Instant { secs: -1, nanos: 1 },
        Instant { secs: 86_399, nanos: 1_500_000_000 },
        Instant { secs: 86_399, nanos: 0 },
        Instant { secs: 86_410, nanos: 0 },
        Instant { secs: 172_799, nanos: 1_000_000_000 },
        Instant { secs: 86_340, nanos: 700_000_000 },
    ];
    for a in instants.iter() {
        for b in instants.iter() {
            let ca = chrono::DateTime::from_timestamp(a.secs, a.nanos).unwrap();
            let cb = chrono::DateTime::from_timestamp(b.secs, b.nanos).unwrap();
            assert_eq!(seconds_between(a, b), (ca - cb).num_seconds() as i128, "{:?} - {:?}", a, b);
        }
    }
}

#[test]
fn checked_steps_run_the_task_as_the_plain_steps_do() {
    let mut state = PushState::Start;
    let mut event = PushEvent::Tick;
    let mut actions = Vec::new();
    let mut logs = Vec::new();
    loop {
        let step = server_pushing_step_checked("edge1", state, event).unwrap();
        if let Some(l) = step.log {
            logs.push(l);
        }
        state = step.state;
        event = match step.action {
            PushAction::Stop => break,
            PushAction::RunScript(_) => PushEvent::ScriptOutput(Ok(system_information())),
            PushAction::ReadDevice { key } => {
                assert_eq!(key, "edge1:ManagedDevice");
                PushEvent::DeviceRead(Ok(device("OFFBOARDED", T0_TEXT)), at(T0 + 600))
            }
            other => {
                actions.push(other);
                PushEvent::PatchDone(Ok("done".to_string()))
            }
        };
    }
    assert_eq!(state, PushState::Finished);
    assert_eq!(actions.len(), 4);
    assert_eq!(
        actions[3],
        PushAction::PatchServer { submodel: "SystemInformation".to_string(), body: Ok(system_information()) }
    );
    assert_eq!(
        logs,
        vec![
            LogLine::Stdout("Successful onboarding".to_string()),
            LogLine::Stdout("Successful pushing system information to server".to_string()),
        ]
    );
}
