use jarvis_core::config::{Agent, ContainerConfiguration, ShellConfig};
use jarvis_core::runtime::docker_runtime::{archive_output_name, build_container_request,
    build_exec_request, bundle_file_name, exec_completion_result, path_in_secrets_dir,
    plan_cleanup, plan_container_cleanup, plan_volume_cleanup, plugin_port_binding,
    plugin_sync_command, plugin_sync_request, plugin_volume_labels, plugin_volume_name,
    pull_progress_step, resolve_plugin_volume, CleanupAction, MountKind, PluginVolumePlan,
    PullEvent, PullRender};

#[test]
fn command_completion_requires_a_clean_exit() {
    assert!(exec_completion_result(Some(false), Some(0)).is_ok());

    let err = exec_completion_result(Some(true), Some(0)).err().unwrap();
    assert_eq!("Command has not exited.", err.msg);

    let err = exec_completion_result(None, Some(0)).err().unwrap();
    assert_eq!("Command status is not available.", err.msg);

    let err = exec_completion_result(Some(false), None).err().unwrap();
    assert_eq!("Command exit status is not available.", err.msg);

    let err = exec_completion_result(Some(false), Some(3)).err().unwrap();
    assert_eq!("Command has non-zero exit status [3]", err.msg);

    let err = exec_completion_result(Some(false), Some(-17)).err().unwrap();
    assert_eq!("Command has non-zero exit status [-17]", err.msg);
}

#[test]
fn plugin_volume_is_created_only_when_absent() {
    // No existing volume: exactly one create, under the fixed name.
    let plan = resolve_plugin_volume(&vec![]).unwrap();
    assert!(matches!(plan, PluginVolumePlan::Create));
    assert_eq!("jarvis-plugins", plugin_volume_name());

    // Exactly one existing volume: reuse it, create nothing.
    let plan = resolve_plugin_volume(&vec!["jarvis-plugins".to_string()]).unwrap();
    match plan {
        PluginVolumePlan::Reuse(name) => assert_eq!("jarvis-plugins", name),
        _ => panic!("expected reuse"),
    }

    // Several existing volumes: refuse, creating and deleting nothing.
    let err = resolve_plugin_volume(&vec!["a".to_string(), "b".to_string(), "c".to_string()])
        .err()
        .unwrap();
    assert_eq!(
        "Multiple plugin volumes found. Please remove unwanted disks until only 1 of 3 remains",
        err.msg
    );
}

#[test]
fn plugin_volume_label_set() {
    let labels = plugin_volume_labels();
    assert_eq!(
        vec![
            ("created-by".to_string(), "jarvis".to_string()),
            ("used-for".to_string(), "plugins".to_string()),
        ],
        labels
    );
}

#[test]
fn cleanup_with_nothing_found_reports_and_deletes_nothing() {
    let plan = plan_cleanup(0, 0);
    assert_eq!(2, plan.len());
    assert!(matches!(plan[0], CleanupAction::ReportNoContainers));
    assert!(matches!(plan[1], CleanupAction::ReportNoVolumes));
}

#[test]
fn cleanup_reports_each_resource_before_deleting_it() {
    let plan = plan_cleanup(2, 1);
    assert_eq!(6, plan.len());
    assert!(matches!(plan[0], CleanupAction::ReportContainer { index: 0 }));
    assert!(matches!(plan[1], CleanupAction::DeleteContainer { index: 0 }));
    assert!(matches!(plan[2], CleanupAction::ReportContainer { index: 1 }));
    assert!(matches!(plan[3], CleanupAction::DeleteContainer { index: 1 }));
    assert!(matches!(plan[4], CleanupAction::ReportVolume { index: 0 }));
    assert!(matches!(plan[5], CleanupAction::DeleteVolume { index: 0 }));
}

#[test]
fn cleanup_with_only_volumes_still_reports_missing_containers() {
    let plan = plan_cleanup(0, 1);
    assert_eq!(3, plan.len());
    assert!(matches!(plan[0], CleanupAction::ReportNoContainers));
    assert!(matches!(plan[1], CleanupAction::ReportVolume { index: 0 }));
    assert!(matches!(plan[2], CleanupAction::DeleteVolume { index: 0 }));
}

#[test]
fn archive_output_name_prefers_the_override() {
    assert_eq!(
        "dist.tgz",
        archive_output_name(&"artifacts".to_string(), &Some("dist.tgz".to_string()))
    );
    assert_eq!("artifacts.tar", archive_output_name(&"artifacts".to_string(), &None));
}

#[test]
fn exec_request_invokes_the_interpreter() {
    let shell = ShellConfig { executable: "/bin/bash".to_string() };
    let req = build_exec_request(&shell, "/build/workspace", "cargo build");
    assert_eq!(vec!["/bin/bash".to_string(), "-c".to_string(), "cargo build".to_string()], req.cmd);
    assert_eq!("/build/workspace", req.working_dir);
}

#[test]
fn bundle_files_are_fresh_tgz_names() {
    let name = bundle_file_name();
    assert!(name.starts_with("jarvis-bundle-"));
    assert!(name.ends_with(".tgz"));
    assert_eq!("jarvis-bundle-".len() + 30 + ".tgz".len(), name.len());
}

#[test]
fn container_request_wires_workspace_secrets_caches_and_plugins() {
    let agent = Agent {
        name: "rust".to_string(),
        default: Some(true),
        image: "rust:latest".to_string(),
        environment: Some(vec![("RUST_LOG".to_string(), "debug".to_string())]),
        cache: Some(vec![jarvis_core::config::CacheRule {
            name: "cargo".to_string(),
            location: "/root/.cargo".to_string(),
        }]),
        container: Some(ContainerConfiguration {
            user: Some("build".to_string()),
            group: Some("build".to_string()),
            privileged: None,
        }),
    };
    let secrets = vec![(
        "DB_PASS".to_string(),
        "/work/.jarvis/secrets/db-pass.secret.txt".to_string(),
        "/build/secrets/db-pass".to_string(),
    )];
    let caches = vec![("cargo".to_string(), "cache_core_cargo".to_string())];
    let req = build_container_request(
        "jarvis-agent-core-rust-x".to_string(),
        &agent,
        &"build-data-volume_core_x".to_string(),
        &secrets,
        &caches,
        true,
        "2021-01-01T00:00:00+00:00".to_string(),
    );

    assert_eq!("jarvis-agent-core-rust-x", req.name);
    assert_eq!("rust:latest", req.image);
    assert_eq!(
        vec!["/bin/sh".to_string(), "-c".to_string(), "tail -f /dev/null".to_string()],
        req.entrypoint
    );
    assert_eq!(
        vec!["RUST_LOG=debug".to_string(), "DB_PASS_FILE=/build/secrets/db-pass".to_string()],
        req.env
    );
    assert_eq!(
        vec![
            ("created-by".to_string(), "jarvis".to_string()),
            ("build-time".to_string(), "2021-01-01T00:00:00+00:00".to_string()),
        ],
        req.labels
    );
    assert_eq!("/build/workspace", req.working_dir);
    assert_eq!(Some("build:build".to_string()), req.user);
    assert!(!req.privileged);
    assert!(req.expose_plugin_port);

    assert_eq!(4, req.mounts.len());
    assert_eq!("/build/workspace", req.mounts[0].target);
    assert_eq!("build-data-volume_core_x", req.mounts[0].source);
    assert!(matches!(req.mounts[0].kind, MountKind::Volume));
    assert!(!req.mounts[0].read_only);
    assert_eq!("/build/secrets/db-pass", req.mounts[1].target);
    assert_eq!("/work/.jarvis/secrets/db-pass.secret.txt", req.mounts[1].source);
    assert!(matches!(req.mounts[1].kind, MountKind::Bind));
    // Secrets are never shared as writable state.
    assert!(req.mounts[1].read_only);
    assert_eq!("/root/.cargo", req.mounts[2].target);
    assert_eq!("cache_core_cargo", req.mounts[2].source);
    assert!(matches!(req.mounts[2].kind, MountKind::Volume));
    assert!(!req.mounts[2].read_only);
    assert_eq!("/build/agent", req.mounts[3].target);
    assert_eq!("jarvis-plugins", req.mounts[3].source);
    assert!(matches!(req.mounts[3].kind, MountKind::Volume));
    assert!(!req.mounts[3].read_only);
}

#[test]
fn plugin_port_is_bound_to_loopback() {
    let (container, host_ip, host_port) = plugin_port_binding();
    assert_eq!("1438/tcp", container);
    assert_eq!("127.0.0.1", host_ip);
    assert_eq!("1438", host_port);
}

#[test]
fn plugin_sync_runs_a_copy_in_a_throwaway_container() {
    let req = plugin_sync_request(
        "sync-x".to_string(),
        &"/opt/jarvis/agent".to_string(),
        "jarvis-plugins".to_string(),
    );
    assert_eq!("alpine:latest", req.image);
    assert_eq!("/input", req.working_dir);
    assert_eq!(2, req.mounts.len());
    assert_eq!("/plugins", req.mounts[0].target);
    assert_eq!("jarvis-plugins", req.mounts[0].source);
    assert_eq!("/input", req.mounts[1].target);
    assert_eq!("/opt/jarvis/agent", req.mounts[1].source);
    assert!(matches!(req.mounts[1].kind, MountKind::Bind));
    assert_eq!("cp -pR agent-worker agent-plugins /plugins", plugin_sync_command());
}

fn event(
    error: Option<&str>,
    status: Option<&str>,
    progress: Option<&str>,
    id: Option<&str>,
) -> PullEvent {
    PullEvent {
        error: error.map(|s| s.to_string()),
        status: status.map(|s| s.to_string()),
        progress: progress.map(|s| s.to_string()),
        id: id.map(|s| s.to_string()),
    }
}

#[test]
fn pull_progress_tracks_layer_lines() {
    let mut layers: Vec<String> = Vec::new();

    // First layer: a fresh first line.
    match pull_progress_step(&mut layers, &event(None, Some("Pulling fs layer"), None, Some("aa"))) {
        PullRender::NewLine { first, layer, message } => {
            assert!(first);
            assert_eq!("aa", layer);
            assert_eq!("Pulling fs layer", message);
        },
        _ => panic!("expected a new line"),
    }

    // Second layer: another fresh line.
    match pull_progress_step(&mut layers, &event(None, Some("Pulling fs layer"), None, Some("bb"))) {
        PullRender::NewLine { first, layer, .. } => {
            assert!(!first);
            assert_eq!("bb", layer);
        },
        _ => panic!("expected a new line"),
    }
    assert_eq!(vec!["aa".to_string(), "bb".to_string()], layers);

    // Known layer while downloading: rewrite its own line, one line up.
    match pull_progress_step(
        &mut layers,
        &event(None, Some("Downloading"), Some("[=> ] 1kB/9kB"), Some("aa")),
    ) {
        PullRender::Update { move_up, layer, message } => {
            assert_eq!(1, move_up);
            assert_eq!("aa", layer);
            assert_eq!("[=> ] 1kB/9kB", message);
        },
        _ => panic!("expected an update"),
    }

    // The most recent layer rewrites in place.
    match pull_progress_step(&mut layers, &event(None, Some("Pull complete"), None, Some("bb"))) {
        PullRender::Update { move_up, .. } => assert_eq!(0, move_up),
        _ => panic!("expected an update"),
    }

    // A record without a layer id carries only its trailing message.
    match pull_progress_step(
        &mut layers,
        &event(None, Some("Status: Downloaded"), Some("Status: Downloaded"), None),
    ) {
        PullRender::Trailing { message } => assert_eq!("Status: Downloaded", message),
        _ => panic!("expected a trailing message"),
    }

    // A terminal error aborts.
    match pull_progress_step(&mut layers, &event(Some("no such image"), None, None, None)) {
        PullRender::Abort { message } => assert_eq!("no such image", message),
        _ => panic!("expected an abort"),
    }
    assert_eq!(vec!["aa".to_string(), "bb".to_string()], layers);
}

#[test]
fn cleanup_phases_compose_into_the_whole_plan() {
    let mut combined = plan_container_cleanup(2);
    combined.extend(plan_volume_cleanup(0));
    assert_eq!(plan_cleanup(2, 0).len(), combined.len());
    assert!(matches!(combined[0], CleanupAction::ReportContainer { index: 0 }));
    assert!(matches!(combined[4], CleanupAction::ReportNoVolumes));
}

#[test]
fn secrets_paths_are_excluded_from_the_bundle() {
    assert!(path_in_secrets_dir(".jarvis/secrets"));
    assert!(path_in_secrets_dir(".jarvis/secrets/db-pass.secret.txt"));
    assert!(!path_in_secrets_dir(".jarvis"));
    assert!(!path_in_secrets_dir(".jarvis/build.yaml"));
    assert!(!path_in_secrets_dir("src/secrets/file"));
    assert!(!path_in_secrets_dir("jarvis/secrets/file"));
}
