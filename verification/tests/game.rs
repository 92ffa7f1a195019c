use luuxcraft_launcher::game::{
    after_game_exit, check_done, group_by_stream, log_file_text, on_exit_requested, output_line,
    progress_done, AfterExit, GameManager, OutputStream, RunningGame, Throttle, MAX_LOG_LINE,
};
use luuxcraft_launcher::game::{run_step, GameEvent, RunInput, RunPhase};
use luuxcraft_launcher::json::Json;
use luuxcraft_launcher::models::Instance;
use luuxcraft_launcher::settings::LauncherBehavior;

fn instance() -> Instance {
    let text = r#"[{"id": "survie", "name": "Survie", "loader": {"minecraft_version": "1.20.1", "loader_type": "fabric"}}]"#;
    let json = Json::parse(text.as_bytes()).expect("valid JSON");
    Instance::list_from_value(json).ok().unwrap().remove(0)
}

fn game(behavior: LauncherBehavior) -> RunningGame {
    RunningGame::new(&instance(), Some(42), 1_700_000_000, behavior)
}

#[test]
fn the_running_game_follows_the_launcher_behaviour() {
    let bound = game(LauncherBehavior::Bound);
    assert_eq!(bound.instance_id, "survie");
    assert_eq!(bound.instance_name, "Survie");
    assert_eq!(bound.pid, Some(42));
    assert!(bound.bound && !bound.hidden_launcher);
    let hidden = game(LauncherBehavior::Hide);
    assert!(!hidden.bound && hidden.hidden_launcher);
    let stay = game(LauncherBehavior::Stay);
    assert!(!stay.bound && !stay.hidden_launcher);
}

#[test]
fn a_second_run_is_refused_until_the_first_ends() {
    let mut manager = GameManager::new();
    assert!(!manager.is_busy());
    assert!(manager.begin().is_ok());
    assert!(manager.is_busy());
    let refused = manager.begin().err().unwrap();
    assert_eq!(refused.code, "busy");
    assert_eq!(refused.message, "an installation is already in progress");
    assert!(!manager.cancel());
    manager.arm_cancel();
    assert!(manager.cancel());
    manager.end();
    assert!(!manager.is_busy());
    assert!(!manager.cancel());
    assert!(manager.begin().is_ok());
}

#[test]
fn the_manager_tracks_the_running_game() {
    let mut manager = GameManager::new();
    assert!(!manager.is_running());
    assert!(!manager.kill());
    manager.started(game(LauncherBehavior::Stay));
    assert!(manager.is_running());
    assert!(manager.kill());
    assert_eq!(manager.running().map(|g| g.pid), Some(Some(42)));
    let gone = manager.exited();
    assert_eq!(gone.map(|g| g.instance_id), Some("survie".to_string()));
    assert!(!manager.is_running());
}

#[test]
fn closing_waits_for_a_bound_game_only() {
    let bound = game(LauncherBehavior::Bound);
    let first = on_exit_requested(None, Some(&bound), false);
    assert!(first.prevent_exit && first.kill_game && first.exiting);
    let second = on_exit_requested(None, Some(&bound), first.exiting);
    assert!(second.prevent_exit && !second.kill_game);
    let by_code = on_exit_requested(Some(0), Some(&bound), true);
    assert!(!by_code.prevent_exit && !by_code.kill_game);
    let detached = game(LauncherBehavior::Hide);
    let free = on_exit_requested(None, Some(&detached), false);
    assert!(!free.prevent_exit && !free.kill_game && !free.exiting);
    assert!(!on_exit_requested(None, None, false).prevent_exit);
}

#[test]
fn after_the_game_the_launcher_closes_or_shows_again() {
    let hidden = game(LauncherBehavior::Hide);
    let stay = game(LauncherBehavior::Stay);
    assert_eq!(after_game_exit(true, Some(&hidden)), AfterExit::CloseLauncher);
    assert_eq!(after_game_exit(false, Some(&hidden)), AfterExit::ShowLauncher);
    assert_eq!(after_game_exit(false, Some(&stay)), AfterExit::Nothing);
    assert_eq!(after_game_exit(false, None), AfterExit::Nothing);
}

#[test]
fn progress_passes_once_per_interval_and_at_the_end() {
    let mut throttle = Throttle::new();
    assert!(throttle.pass(1_000, false));
    assert!(!throttle.pass(1_050, false));
    assert!(throttle.pass(1_060, true));
    assert!(!throttle.pass(1_159, false));
    assert!(throttle.pass(1_160, false));
    assert!(!throttle.pass(10, false));
    assert!(progress_done(10, 10));
    assert!(!progress_done(0, 0));
    assert!(!progress_done(9, 10));
    assert!(check_done(0, 0));
    assert!(!check_done(1, 2));
}

#[test]
fn output_lines_are_redacted_then_clipped() {
    let secrets = vec!["s3cr3t-token".to_string()];
    assert_eq!(output_line("token=s3cr3t-token ok", &secrets), "token=???????? ok");
    let long = "x".repeat(MAX_LOG_LINE + 10);
    let kept = output_line(&long, &secrets);
    assert_eq!(kept.chars().count(), MAX_LOG_LINE + 1);
    assert!(kept.ends_with('…'));
    let exact = "y".repeat(MAX_LOG_LINE);
    assert_eq!(output_line(&exact, &secrets), exact);
}

#[test]
fn a_batch_is_written_and_grouped_by_stream() {
    let pending = vec![
        (OutputStream::Stdout, "a".to_string()),
        (OutputStream::Stdout, "b".to_string()),
        (OutputStream::Stderr, "c".to_string()),
        (OutputStream::Stdout, "d".to_string()),
    ];
    assert_eq!(log_file_text(&pending), "a\nb\n[stderr] c\nd\n");
    let groups = group_by_stream(&pending);
    assert_eq!(groups.len(), 3);
    assert_eq!(groups[0].0, OutputStream::Stdout);
    assert_eq!(groups[0].1, vec!["a".to_string(), "b".to_string()]);
    assert_eq!(groups[1].0, OutputStream::Stderr);
    assert_eq!(groups[1].1, vec!["c".to_string()]);
    assert_eq!(groups[2].1, vec!["d".to_string()]);
    assert_eq!(OutputStream::Stderr.name(), "stderr");
    assert!(group_by_stream(&Vec::new()).is_empty());
    assert_eq!(log_file_text(&Vec::new()), "");
}

#[test]
fn each_instance_keeps_its_latest_and_previous_log() {
    let (dir, latest, previous) = luuxcraft_launcher::game::game_log_files("/data/logs/game", "survie");
    assert_eq!(dir, "/data/logs/game/survie");
    assert_eq!(latest, "/data/logs/game/survie/latest.log");
    assert_eq!(previous, "/data/logs/game/survie/previous.log");
}

#[test]
fn a_spawn_records_the_game_only_when_it_started() {
    let mut manager = GameManager::new();
    let failed = manager
        .spawned(Err("No such file".into()), &instance(), 10, LauncherBehavior::Hide, "/opt/java")
        .err()
        .unwrap();
    assert_eq!(failed.code, "launch_failed");
    assert_eq!(failed.message, "could not start Java: No such file");
    assert_eq!(failed.details.as_deref(), Some("/opt/java"));
    assert!(!manager.is_running());

    let started = manager.spawned(Ok(Some(42)), &instance(), 10, LauncherBehavior::Hide, "/opt/java");
    assert!(matches!(started, Ok(GameEvent::Started { pid: Some(42) })));
    let game = manager.running().unwrap();
    assert_eq!(game.pid, Some(42));
    assert!(game.hidden_launcher && !game.bound);
}

#[test]
fn a_run_sends_started_first_and_exited_last() {
    let (phase, events) = run_step(RunPhase::Starting, RunInput::Output(OutputStream::Stdout, vec!["early".into()]));
    assert_eq!(phase, RunPhase::Starting);
    assert!(events.is_empty());
    let (phase, events) = run_step(phase, RunInput::Spawned(Some(7)));
    assert_eq!(phase, RunPhase::Running);
    assert!(matches!(events[0], GameEvent::Started { pid: Some(7) }));
    let (phase, events) = run_step(phase, RunInput::Output(OutputStream::Stderr, vec!["line".into()]));
    assert!(matches!(&events[0], GameEvent::Log { stream: OutputStream::Stderr, lines } if lines.len() == 1));
    let (phase, events) = run_step(phase, RunInput::Output(OutputStream::Stdout, Vec::new()));
    assert!(events.is_empty());
    let (phase, events) = run_step(phase, RunInput::Exit(Some(0), true));
    assert_eq!(phase, RunPhase::Over);
    assert!(matches!(events[0], GameEvent::Exited { code: Some(0), success: true }));
    let (_, events) = run_step(phase, RunInput::Spawned(Some(8)));
    assert!(events.is_empty());
    let (phase, _) = run_step(RunPhase::Starting, RunInput::SpawnFailed);
    assert_eq!(phase, RunPhase::Over);
}
