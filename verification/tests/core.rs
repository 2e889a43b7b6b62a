use jarvis_core::config::{ApiVersion, BuildConfig, ConfigError, Module, ProjectConfig, Step};
use jarvis_core::validate_project;
use jarvis_core::RuntimeOption;

#[test]
fn lib_it_works() {
    assert_eq!(2 + 2, 4);
}

fn project_with_modules(modules: Vec<Module>) -> ProjectConfig {
    ProjectConfig {
        project_directory: "/work/project".to_string(),
        jarvis_directory: "/work/project/.jarvis".to_string(),
        build_config: BuildConfig { api_version: ApiVersion { major: 0, minor: 1 }, modules },
    }
}

#[test]
fn runtime_option_parses_known_selectors() {
    assert!(matches!(RuntimeOption::from_str("docker"), Ok(RuntimeOption::Docker)));
    assert!(matches!(RuntimeOption::from_str("kubernetes"), Ok(RuntimeOption::Kubernetes)));
    assert!(matches!(RuntimeOption::from_str("k8s"), Ok(RuntimeOption::Kubernetes)));
    assert!(matches!(RuntimeOption::from_str(""), Ok(RuntimeOption::Unspecified)));
    assert!(matches!(RuntimeOption::from_str("swarm"), Ok(RuntimeOption::Unspecified)));
}

#[test]
fn runtime_option_labels() {
    assert_eq!("Docker runtime", RuntimeOption::Docker.label());
    assert_eq!("Kubernetes runtime", RuntimeOption::Kubernetes.label());
    assert_eq!("No runtime", RuntimeOption::Unspecified.label());
}

#[test]
fn api_version_support_floor() {
    assert!(ApiVersion { major: 0, minor: 1 }.is_supported());
    assert!(ApiVersion { major: 1, minor: 0 }.is_supported());
    assert!(!ApiVersion { major: 0, minor: 0 }.is_supported());
}

#[test]
fn validation_flags_a_project_without_modules() {
    let messages = validate_project(Ok(project_with_modules(vec![]))).unwrap();
    assert!(messages.errors.is_empty());
    assert_eq!(vec!["No build modules defined".to_string()], messages.warnings);
}

#[test]
fn validation_accepts_a_project_with_a_module() {
    let module = Module {
        name: "core".to_string(),
        path: None,
        agents: None,
        steps: vec![Step {
            name: "build".to_string(),
            command: "make".to_string(),
            agent: None,
            secrets: None,
            shell: None,
            archives: None,
            plugins: None,
        }],
    };
    let messages = validate_project(Ok(project_with_modules(vec![module]))).unwrap();
    assert!(messages.errors.is_empty());
    assert!(messages.warnings.is_empty());
}

#[test]
fn validation_reports_a_failed_config_load() {
    let result = validate_project(Err(ConfigError {
        msg: "No .jarvis directory found in the project root".to_string(),
    }));
    let err = result.err().unwrap();
    assert_eq!(
        "Could not load project config: config error: No .jarvis directory found in the project root",
        err.msg
    );
    assert_eq!(
        "config error: Could not load project config: config error: No .jarvis directory found in the project root",
        err.message()
    );
}
