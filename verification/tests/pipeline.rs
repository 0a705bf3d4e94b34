use canary_probe::channel::{classify_output, prepare_command, ExecResult};
use canary_probe::config::CheckConfig;
use canary_probe::errors::CheckError;
use canary_probe::pipeline::{probe_action, probe_step, ProbeAction, ProbeEvent, ProbeOutcome, ProbeState};
use canary_probe::plan::{container_plan, export_command};

/// Drives the machine over a scripted event list, counting how often the
/// pending action is the container removal, and returns the final state.
fn drive(config: &CheckConfig, events: Vec<ProbeEvent>) -> (ProbeState, usize) {
    let mut state = ProbeState::PullingImage;
    let mut removals: usize = 0;
    for event in events {
        if matches!(probe_action(config, &state), ProbeAction::RemoveContainer) {
            removals += 1;
        }
        state = probe_step(config, state, event);
    }
    (state, removals)
}

fn ok_command() -> ProbeEvent {
    ProbeEvent::CommandFinished { result: ExecResult::Success { output: String::new() } }
}

#[test]
fn scenario_clean_build_yields_sorted_list() {
    let config = CheckConfig::default();
    let find_output = "./run\n./_internal\n".to_string();
    let (state, removals) = drive(
        &config,
        vec![
            ProbeEvent::ImagePulled,
            ProbeEvent::ContainerCreated,
            ProbeEvent::ContainerStarted,
            ok_command(),
            ok_command(),
            ProbeEvent::CommandFinished { result: ExecResult::Success { output: find_output } },
            ProbeEvent::TornDown,
        ],
    );
    assert_eq!(removals, 1);
    match state {
        ProbeState::Finished { outcome: ProbeOutcome::Executables { list } } => {
            assert_eq!(list, vec!["run"]);
        }
        _ => panic!("a clean run must finish with the executable list"),
    }
}

#[test]
fn scenario_failing_build_reports_stripped_output() {
    let config = CheckConfig::default();
    let (token, _) = prepare_command("timeout 30 make");
    let collected = format!("make: *** [all] Error 1\n{}\n", token);
    let build_result = classify_output("timeout 30 make", collected, &token);
    let (state, removals) = drive(
        &config,
        vec![
            ProbeEvent::ImagePulled,
            ProbeEvent::ContainerCreated,
            ProbeEvent::ContainerStarted,
            ok_command(),
            ProbeEvent::CommandFinished { result: build_result },
            ProbeEvent::TornDown,
        ],
    );
    assert_eq!(removals, 1);
    match state {
        ProbeState::Finished { outcome: ProbeOutcome::Failed { error: CheckError::MakeError { output } } } => {
            assert!(output.contains("make: *** [all] Error 1"));
            assert!(!output.contains(&token));
        }
        _ => panic!("a failing build must finish as a build failure"),
    }
}

#[test]
fn scenario_export_streams_working_directory() {
    let mut config = CheckConfig::default();
    config.extract = Some("/tmp/probe-out/workspace.tar".to_string());
    let mut state = ProbeState::PullingImage;
    for event in [
        ProbeEvent::ImagePulled,
        ProbeEvent::ContainerCreated,
        ProbeEvent::ContainerStarted,
        ok_command(),
        ok_command(),
        ProbeEvent::CommandFinished {
            result: ExecResult::Success { output: "./run\n".to_string() },
        },
    ] {
        state = probe_step(&config, state, event);
    }
    match probe_action(&config, &state) {
        ProbeAction::ExportWorkspace { directory, destination } => {
            assert_eq!(directory, "/homework");
            assert_eq!(destination, "/tmp/probe-out/workspace.tar");
            assert_eq!(export_command(&directory), "tar -C /homework -cf - .");
        }
        _ => panic!("after enumeration with a destination configured, the export is pending"),
    }
    state = probe_step(&config, state, ProbeEvent::ExportWritten);
    assert!(matches!(probe_action(&config, &state), ProbeAction::RemoveContainer));
    state = probe_step(&config, state, ProbeEvent::TornDown);
    match state {
        ProbeState::Finished { outcome: ProbeOutcome::Executables { list } } => {
            assert_eq!(list, vec!["run"]);
        }
        _ => panic!("a written export keeps the discovered list as the outcome"),
    }
}

#[test]
fn scenario_failed_image_pull_leaves_nothing_behind() {
    let config = CheckConfig::default();
    let (state, removals) = drive(&config, vec![ProbeEvent::ImagePullFailed]);
    assert_eq!(removals, 0);
    match state {
        ProbeState::Finished { outcome: ProbeOutcome::Failed { error } } => {
            assert!(matches!(error, CheckError::ImagePullError));
        }
        _ => panic!("a failed pull must finish the run at once"),
    }
    assert!(matches!(probe_action(&config, &ProbeState::Finished {
        outcome: ProbeOutcome::Failed { error: CheckError::ImagePullError }
    }), ProbeAction::Stop));
}

#[test]
fn teardown_runs_once_when_start_fails_after_creation() {
    let config = CheckConfig::default();
    let (state, removals) = drive(
        &config,
        vec![
            ProbeEvent::ImagePulled,
            ProbeEvent::ContainerCreated,
            ProbeEvent::ContainerStartFailed { output: "oom".to_string() },
            ProbeEvent::TornDown,
        ],
    );
    assert_eq!(removals, 1);
    match state {
        ProbeState::Finished { outcome: ProbeOutcome::Failed { error: CheckError::ContainerStartError { output } } } => {
            assert_eq!(output, "oom");
        }
        _ => panic!("a failed start must still tear the created container down"),
    }
}

#[test]
fn teardown_skipped_when_creation_fails() {
    let config = CheckConfig::default();
    let (state, removals) = drive(
        &config,
        vec![
            ProbeEvent::ImagePulled,
            ProbeEvent::ContainerCreateFailed { output: "name conflict".to_string() },
        ],
    );
    assert_eq!(removals, 0);
    match state {
        ProbeState::Finished { outcome: ProbeOutcome::Failed { error: CheckError::ContainerCreateError { output } } } => {
            assert_eq!(output, "name conflict");
        }
        _ => panic!("a failed creation finishes the run with nothing to remove"),
    }
}

#[test]
fn teardown_runs_once_when_unzip_fails() {
    let config = CheckConfig::default();
    let (state, removals) = drive(
        &config,
        vec![
            ProbeEvent::ImagePulled,
            ProbeEvent::ContainerCreated,
            ProbeEvent::ContainerStarted,
            ProbeEvent::CommandFinished {
                result: ExecResult::Failure { message: "broken zip".to_string() },
            },
            ProbeEvent::TornDown,
        ],
    );
    assert_eq!(removals, 1);
    match state {
        ProbeState::Finished { outcome: ProbeOutcome::Failed { error: CheckError::UnzipError { output } } } => {
            assert_eq!(output, "broken zip");
        }
        _ => panic!("a failed unzip must finish as an unzip failure"),
    }
}

#[test]
fn enumeration_failure_is_typed() {
    let config = CheckConfig::default();
    let (state, removals) = drive(
        &config,
        vec![
            ProbeEvent::ImagePulled,
            ProbeEvent::ContainerCreated,
            ProbeEvent::ContainerStarted,
            ok_command(),
            ok_command(),
            ProbeEvent::CommandFinished {
                result: ExecResult::Failure { message: "find: error".to_string() },
            },
            ProbeEvent::TornDown,
        ],
    );
    assert_eq!(removals, 1);
    assert!(matches!(
        state,
        ProbeState::Finished { outcome: ProbeOutcome::Failed { error: CheckError::FindError { .. } } }
    ));
}

#[test]
fn export_write_failure_is_fatal_but_torn_down() {
    let mut config = CheckConfig::default();
    config.extract = Some("/nowhere/out.tar".to_string());
    let (state, removals) = drive(
        &config,
        vec![
            ProbeEvent::ImagePulled,
            ProbeEvent::ContainerCreated,
            ProbeEvent::ContainerStarted,
            ok_command(),
            ok_command(),
            ProbeEvent::CommandFinished {
                result: ExecResult::Success { output: "./run\n".to_string() },
            },
            ProbeEvent::ExportWriteFailed { message: "permission denied".to_string() },
            ProbeEvent::TornDown,
        ],
    );
    assert_eq!(removals, 1);
    match state {
        ProbeState::Finished { outcome: ProbeOutcome::ExportIoFailed { message } } => {
            assert_eq!(message, "permission denied");
        }
        _ => panic!("a failed export write still tears down and reports the I/O error"),
    }
}

#[test]
fn actions_carry_the_configured_commands() {
    let config = CheckConfig::default();
    match probe_action(&config, &ProbeState::Unzipping) {
        ProbeAction::RunCommand { command, working_dir } => {
            assert_eq!(command, "timeout 30 unzip -j homework.zip");
            assert_eq!(working_dir, "/homework");
        }
        _ => panic!("unzipping runs a command"),
    }
    match probe_action(&config, &ProbeState::Building) {
        ProbeAction::RunCommand { command, .. } => assert_eq!(command, "timeout 30 make"),
        _ => panic!("building runs a command"),
    }
    match probe_action(&config, &ProbeState::Enumerating) {
        ProbeAction::RunCommand { command, .. } => {
            assert_eq!(command, "timeout 10 find . -type f -perm /111");
        }
        _ => panic!("enumeration runs a command"),
    }
    match probe_action(&config, &ProbeState::PullingImage) {
        ProbeAction::PullImage { image } => assert_eq!(image, "buildpack-deps:stable"),
        _ => panic!("the first pending action acquires the image"),
    }
}

#[test]
fn container_plan_carries_limits_and_mounts() {
    let config = CheckConfig::default();
    let plan = container_plan(&config, "/abs/path/homework.zip", "feedc0de-1234-5678-9abc-def012345678");
    assert_eq!(plan.name, "canary-checker-feedc0de-1234-5678-9abc-def012345678");
    assert_eq!(plan.image, "buildpack-deps:stable");
    assert_eq!(plan.keep_alive, "while true; do sleep 10; done");
    assert_eq!(plan.hostname, "canary");
    assert_eq!(plan.working_dir, "/homework");
    assert_eq!(plan.stop_timeout, 90);
    assert!(plan.network_disabled);
    assert!(plan.readonly_rootfs);
    assert!(plan.tty);
    assert_eq!(plan.cpu_period, 100000);
    assert_eq!(plan.cpu_quota, 100000);
    assert_eq!(plan.memory, 1024 * 1024 * 1024);
    assert_eq!(plan.memory_swap, 1024 * 1024 * 1024);
    assert_eq!(plan.bind, "/abs/path/homework.zip:/homework/homework.zip");
    assert_eq!(plan.tmpfs_path, "/homework");
    assert_eq!(plan.tmpfs_options, "rw,noexec,nosuid,size=1G");
}

#[test]
fn default_config_matches_stock_values() {
    let config = CheckConfig::default();
    assert_eq!(config.image, "buildpack-deps:stable");
    assert_eq!(config.hostname, "canary");
    assert_eq!(config.working_dir, "/homework");
    assert_eq!(config.zip_name, "homework.zip");
    assert_eq!(config.timeout, 90);
    assert_eq!(config.memory_limit, 1024 * 1024 * 1024);
    assert_eq!(config.cpu_limit, 1);
    assert_eq!(config.disk_limit, "1G");
    assert!(config.extract.is_none());
    assert!(!config.debug);
}

#[test]
fn error_messages_name_the_stage() {
    assert_eq!(CheckError::ImagePullError.message(), "Failed to pull image");
    assert_eq!(
        CheckError::ContainerCreateError { output: "x".to_string() }.message(),
        "Failed to create container: x"
    );
    assert_eq!(
        CheckError::ContainerStartError { output: "y".to_string() }.message(),
        "Failed to start container: y"
    );
    assert_eq!(CheckError::UnzipError { output: "z".to_string() }.message(), "Failed to unzip: z");
    assert_eq!(CheckError::MakeError { output: "m".to_string() }.message(), "Failed to make: m");
    assert_eq!(
        CheckError::FindError { output: "f".to_string() }.message(),
        "Failed to find executables: f"
    );
}
