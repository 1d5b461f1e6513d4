use larql_backend::backend::LarqlBackend;
use larql_backend::error::ProviderError;
use larql_backend::load::{LoadAction, LoadEvent, ModelLoad};
use larql_backend::watcher::TurnWatcher;

fn load(bin: Option<&str>, timeout: Option<&str>) -> ModelLoad {
    LarqlBackend::new().load_model(
        "smol",
        "/models/v",
        bin.map(|s| s.to_string()),
        timeout.map(|s| s.to_string()),
    )
}

fn failure(load: &ModelLoad) -> (String, bool) {
    match load.action() {
        LoadAction::Fail { error: ProviderError::ExecutionError(text), kill_child } => {
            (text, kill_child)
        }
        other => panic!("{other:?}"),
    }
}

fn awaiting(timeout: Option<&str>) -> ModelLoad {
    let mut load = load(None, timeout);
    load.answer(LoadEvent::PathChecked { exists: true });
    load.answer(LoadEvent::Spawned);
    load.answer(LoadEvent::PipesTaken { stdin: true, stdout: true, stderr: true });
    load
}

#[test]
fn a_model_loads_step_by_step() {
    let mut load = load(None, None);
    assert_eq!(load.action(), LoadAction::CheckPath);
    load.answer(LoadEvent::PathChecked { exists: true });
    assert_eq!(
        load.action(),
        LoadAction::Spawn {
            program: "larql".to_string(),
            args: vec!["chat".to_string(), "/models/v".to_string()],
        }
    );
    load.answer(LoadEvent::Spawned);
    assert_eq!(load.action(), LoadAction::TakePipes);
    load.answer(LoadEvent::PipesTaken { stdin: true, stdout: true, stderr: true });
    assert_eq!(load.action(), LoadAction::AwaitPrompt { timeout_secs: 120 });
    load.answer(LoadEvent::PromptSeen);
    assert_eq!(load.action(), LoadAction::PollChild);
    load.answer(LoadEvent::ChildRunning);
    assert_eq!(load.action(), LoadAction::Ready);
    load.answer(LoadEvent::PromptMissed);
    assert_eq!(load.action(), LoadAction::Ready);
}

#[test]
fn a_missing_path_fails() {
    let mut load = load(None, None);
    load.answer(LoadEvent::PathChecked { exists: false });
    assert_eq!(
        failure(&load),
        ("larql backend: vindex path does not exist for model 'smol': /models/v".to_string(), false)
    );
}

#[test]
fn a_failed_spawn_names_the_program() {
    let mut load = load(Some("/opt/larql"), None);
    load.answer(LoadEvent::PathChecked { exists: true });
    load.answer(LoadEvent::SpawnFailed { reason: "not found".to_string() });
    assert_eq!(
        failure(&load),
        (
            "larql backend: failed to spawn '/opt/larql chat /models/v': not found (set LARQL_BIN to an absolute path if '/opt/larql' is not on PATH in this environment)".to_string(),
            false
        )
    );
}

#[test]
fn missing_pipes_fail_in_order() {
    for (stdin, stdout, stderr, name) in [
        (false, false, false, "stdin"),
        (true, false, false, "stdout"),
        (true, true, false, "stderr"),
    ] {
        let mut load = load(None, None);
        load.answer(LoadEvent::PathChecked { exists: true });
        load.answer(LoadEvent::Spawned);
        load.answer(LoadEvent::PipesTaken { stdin, stdout, stderr });
        assert_eq!(failure(&load), (format!("larql backend: child {name} unavailable"), false));
    }
}

#[test]
fn a_missed_prompt_kills_the_child() {
    let mut load = awaiting(Some("7"));
    load.answer(LoadEvent::PromptMissed);
    assert_eq!(
        failure(&load),
        (
            "larql backend: 'larql chat /models/v' did not produce its first prompt within 7s (check the binary is on PATH inside the execution boundary and the vindex is valid; set LARQL_LOAD_TIMEOUT_SECS higher if the vindex is just slow to load on this host)".to_string(),
            true
        )
    );
    load.answer(LoadEvent::PromptSeen);
    assert!(matches!(load.action(), LoadAction::Fail { .. }));
}

#[test]
fn the_time_limit_is_configurable() {
    for (setting, secs) in [(None, 120), (Some("300"), 300), (Some("0"), 0), (Some("5s"), 120), (Some(""), 120)] {
        assert_eq!(awaiting(setting).action(), LoadAction::AwaitPrompt { timeout_secs: secs });
    }
}

#[test]
fn a_child_that_has_exited_is_never_ready() {
    let exited = || LoadEvent::ChildExited { status: "exit status: 2".to_string() };
    let text = "larql backend: 'larql chat /models/v' exited while it was loaded (status: exit status: 2)";

    let mut watcher = TurnWatcher::new();
    assert!(watcher.observe(b"Usage: larql chat <VINDEX> [OPTIONS]\n"));
    let mut load = awaiting(None);
    load.answer(LoadEvent::PromptSeen);
    assert_eq!(load.action(), LoadAction::PollChild);
    load.answer(exited());
    assert_eq!(failure(&load), (text.to_string(), false));
    load.answer(LoadEvent::ChildRunning);
    assert_eq!(failure(&load), (text.to_string(), false));

}

#[test]
fn a_child_that_exits_without_a_prompt_has_missed_it() {
    for event in [
        LoadEvent::PromptMissed,
        LoadEvent::ChildExited { status: "exit status: 1".to_string() },
    ] {
        let mut load = awaiting(Some("9"));
        load.answer(event);
        let missed = (
            "larql backend: 'larql chat /models/v' did not produce its first prompt within 9s (check the binary is on PATH inside the execution boundary and the vindex is valid; set LARQL_LOAD_TIMEOUT_SECS higher if the vindex is just slow to load on this host)".to_string(),
            true,
        );
        assert_eq!(failure(&load), missed);
        load.answer(LoadEvent::PromptSeen);
        assert_eq!(failure(&load), missed);
    }
}

#[test]
fn a_prompt_alone_makes_no_load_ready() {
    let mut load = awaiting(None);
    load.answer(LoadEvent::ChildRunning);
    assert_eq!(load.action(), LoadAction::AwaitPrompt { timeout_secs: 120 });
    load.answer(LoadEvent::PromptSeen);
    load.answer(LoadEvent::PromptSeen);
    assert_eq!(load.action(), LoadAction::PollChild);
}

#[test]
fn nothing_but_the_first_prompt_makes_a_load_ready() {
    let mut load = load(None, None);
    load.answer(LoadEvent::PromptSeen);
    assert_eq!(load.action(), LoadAction::CheckPath);
    let mut load = awaiting(None);
    load.answer(LoadEvent::Spawned);
    assert_eq!(load.action(), LoadAction::AwaitPrompt { timeout_secs: 120 });
}

#[test]
fn errors_tell_their_text() {
    let error = ProviderError::ExecutionError("why".to_string());
    assert_eq!(error.message(), "why");
    assert_eq!(error.duplicate(), error);
}
