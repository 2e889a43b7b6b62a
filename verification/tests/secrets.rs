use jarvis_core::runtime::docker_runtime::{cache_volume_plan, configure_secrets,
    new_agent_container_name, new_workspace_volume_name, to_environment_variable_name};
use jarvis_core::config::CacheRule;

#[test]
fn secret_name_sanitizes_to_environment_variable_name() {
    // Runs of characters outside [a-zA-Z0-9_] collapse to one underscore
    // each, and the result is upper-cased.  The trailing run collapses to a
    // trailing underscore like any other.
    assert_eq!("DB_PASS_WORD_", to_environment_variable_name("db pass-word!"));
    assert_eq!("MY_SECRET_NAME", to_environment_variable_name("my-secret.name"));
}

#[test]
fn sanitization_edge_cases() {
    assert_eq!("", to_environment_variable_name(""));
    assert_eq!("_", to_environment_variable_name("---"));
    assert_eq!("ALREADY_FINE_9", to_environment_variable_name("ALREADY_FINE_9"));
    assert_eq!("A_B", to_environment_variable_name("a . - b"));
}

#[test]
fn secrets_resolve_to_mount_wiring() {
    let jarvis_dir = "/work/project/.jarvis".to_string();
    let secrets = Some(vec!["db-pass".to_string(), "api key".to_string()]);
    let present = vec![true, true];
    let mounts = configure_secrets(&jarvis_dir, &secrets, &present).unwrap();
    assert_eq!(2, mounts.len());
    assert_eq!("DB_PASS", mounts[0].0);
    assert_eq!("/work/project/.jarvis/secrets/db-pass.secret.txt", mounts[0].1);
    assert_eq!("/build/secrets/db-pass", mounts[0].2);
    assert_eq!("API_KEY", mounts[1].0);
    assert_eq!("/work/project/.jarvis/secrets/api key.secret.txt", mounts[1].1);
    assert_eq!("/build/secrets/api key", mounts[1].2);
}

#[test]
fn a_missing_secret_is_a_hard_error() {
    let jarvis_dir = "/work/project/.jarvis".to_string();
    let secrets = Some(vec!["db-pass".to_string(), "missing".to_string()]);
    let present = vec![true, false];
    let err = configure_secrets(&jarvis_dir, &secrets, &present).err().unwrap();
    assert_eq!(
        "Secret [missing] not found at [/work/project/.jarvis/secrets/missing.secret.txt]",
        err.msg
    );
}

#[test]
fn no_secrets_means_no_mounts() {
    let jarvis_dir = "/work/project/.jarvis".to_string();
    let mounts = configure_secrets(&jarvis_dir, &None, &vec![]).unwrap();
    assert!(mounts.is_empty());
}

#[test]
fn workspace_volume_names_carry_module_and_random_suffix() {
    let name = new_workspace_volume_name(&"core".to_string());
    assert!(name.starts_with("build-data-volume_core_"));
    let suffix = &name["build-data-volume_core_".len()..];
    assert_eq!(30, suffix.len());
    assert!(suffix.chars().all(|c| c.is_ascii_alphanumeric()));
}

#[test]
fn agent_container_names_carry_module_agent_and_random_suffix() {
    let name = new_agent_container_name(&"core".to_string(), &"rust".to_string());
    assert!(name.starts_with("jarvis-agent-core-rust-"));
    let suffix = &name["jarvis-agent-core-rust-".len()..];
    assert_eq!(30, suffix.len());
    assert!(suffix.chars().all(|c| c.is_ascii_alphanumeric()));
}

#[test]
fn two_workspace_volume_names_differ() {
    let a = new_workspace_volume_name(&"core".to_string());
    let b = new_workspace_volume_name(&"core".to_string());
    assert_ne!(a, b);
}

#[test]
fn cache_volumes_are_keyed_by_module_and_rule() {
    let rules = vec![
        CacheRule { name: "cargo".to_string(), location: "/root/.cargo".to_string() },
        CacheRule { name: "target".to_string(), location: "/build/workspace/target".to_string() },
    ];
    let plan = cache_volume_plan(&rules, &"core".to_string());
    assert_eq!(2, plan.len());
    assert_eq!(("cargo".to_string(), "cache_core_cargo".to_string()), plan[0]);
    assert_eq!(("target".to_string(), "cache_core_target".to_string()), plan[1]);
}
