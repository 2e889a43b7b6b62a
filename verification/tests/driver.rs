use jarvis_core::cleanup::cleanup_resources;
use jarvis_core::config::{Agent, ApiVersion, ArchiveRule, BuildConfig, Module, ProjectConfig,
    ShellConfig, Step};
use jarvis_core::init::init_project_with_config;
use jarvis_core::pipeline::{build_module, build_project_with_config, configure_agents,
    execute_module, get_default_agent, run_step};
use jarvis_core::runtime::k8s_runtime::KubernetesRuntime;
use jarvis_core::runtime::{BuildRuntime, BuildRuntimeError};
use jarvis_core::OutputFormatter;

struct SilentFormatter;

impl OutputFormatter for SilentFormatter {
    fn print(&self, _msg: String) {
    }

    fn success(&self, _msg: String) {
    }

    fn error(&self, _msg: String) {
    }

    fn background(&self, _msg: String) {
    }
}

/// A backend that records every operation asked of it, and fails exactly the
/// operations it is scripted to fail.
struct ScriptedRuntime {
    seen: Vec<String>,
    fail_init: bool,
    fail_command: Option<String>,
    fail_teardown: bool,
    next_agent: usize,
}

impl ScriptedRuntime {
    fn new() -> Self {
        ScriptedRuntime {
            seen: Vec::new(),
            fail_init: false,
            fail_command: None,
            fail_teardown: false,
            next_agent: 0,
        }
    }

    fn refuse(&self, what: &str) -> BuildRuntimeError {
        BuildRuntimeError { msg: format!("scripted failure: {}", what) }
    }
}

impl BuildRuntime for ScriptedRuntime {
    fn log(&self) -> jarvis_core::runtime::RuntimeCallLog {
        // The call log is a specification artifact; nothing executes it.
        unreachable!()
    }

    fn outcomes(&self) -> jarvis_core::runtime::OutcomeLog {
        // The outcome log is a specification artifact; nothing executes it.
        unreachable!()
    }

    fn connect(&mut self) -> Result<(), BuildRuntimeError> {
        self.seen.push("connect".to_string());
        Ok(())
    }

    fn init_for_module(
        &mut self,
        module_name: &String,
        _project_config: &ProjectConfig,
    ) -> Result<(), BuildRuntimeError> {
        self.seen.push(format!("init:{}", module_name));
        if self.fail_init {
            Err(self.refuse("init"))
        } else {
            Ok(())
        }
    }

    fn create_agent(
        &mut self,
        module_name: &String,
        agent: &Agent,
        _step: Option<&Step>,
    ) -> Result<String, BuildRuntimeError> {
        self.seen.push(format!("create:{}:{}", module_name, agent.name));
        self.next_agent += 1;
        Ok(format!("agent-{}", self.next_agent))
    }

    fn execute_command(
        &mut self,
        agent_id: &str,
        _shell_config: &ShellConfig,
        command: &str,
    ) -> Result<(), BuildRuntimeError> {
        self.seen.push(format!("exec:{}:{}", agent_id, command));
        match &self.fail_command {
            Some(c) if c == command => Err(self.refuse("command")),
            _ => Ok(()),
        }
    }

    fn get_archive(
        &mut self,
        agent_id: &str,
        archive_rule: &ArchiveRule,
    ) -> Result<(), BuildRuntimeError> {
        self.seen.push(format!("archive:{}:{}", agent_id, archive_rule.name));
        Ok(())
    }

    fn destroy_agent(&mut self, agent_id: &str) -> Result<(), BuildRuntimeError> {
        self.seen.push(format!("destroy:{}", agent_id));
        Ok(())
    }

    fn tear_down_for_module(&mut self, module_name: &String) -> Result<(), BuildRuntimeError> {
        self.seen.push(format!("teardown:{}", module_name));
        if self.fail_teardown {
            Err(self.refuse("teardown"))
        } else {
            Ok(())
        }
    }

    fn cleanup_resources(&mut self) -> Result<(), BuildRuntimeError> {
        self.seen.push("cleanup".to_string());
        Ok(())
    }

    fn ensure_plugins_loaded(
        &mut self,
        plugins: Vec<&jarvis_core::config::PluginSpecification>,
    ) -> Result<(), BuildRuntimeError> {
        self.seen.push(format!("plugins:{}", plugins.len()));
        Ok(())
    }
}

fn agent(name: &str, default: Option<bool>) -> Agent {
    Agent {
        name: name.to_string(),
        default,
        image: "alpine:latest".to_string(),
        environment: None,
        cache: None,
        container: None,
    }
}

fn step(name: &str, command: &str, agent: Option<&str>, archives: Option<Vec<&str>>) -> Step {
    Step {
        name: name.to_string(),
        command: command.to_string(),
        agent: agent.map(|a| a.to_string()),
        secrets: None,
        shell: None,
        archives: archives.map(|names| {
            names
                .into_iter()
                .map(|n| ArchiveRule { name: n.to_string(), location: format!("/out/{}", n), output: None })
                .collect()
        }),
        plugins: None,
    }
}

fn project(modules: Vec<Module>) -> ProjectConfig {
    ProjectConfig {
        project_directory: "/work/project".to_string(),
        jarvis_directory: "/work/project/.jarvis".to_string(),
        build_config: BuildConfig { api_version: ApiVersion { major: 0, minor: 1 }, modules },
    }
}

#[test]
fn two_default_agents_fail_before_any_runtime_call() {
    let module = Module {
        name: "core".to_string(),
        path: None,
        agents: Some(vec![agent("a", Some(true)), agent("b", Some(true))]),
        steps: vec![step("build", "make", None, None)],
    };
    let mut runtime = ScriptedRuntime::new();
    let result = execute_module(&module, &project(vec![]), &mut runtime, &SilentFormatter);
    let err = result.err().unwrap();
    assert_eq!(
        "Error configuring agents: Only one agent can be specified as default!",
        err.msg
    );
    // No container operation was observed.
    assert!(runtime.seen.is_empty());
}

#[test]
fn default_agent_selection() {
    assert_eq!(None, get_default_agent(&vec![agent("a", None), agent("b", Some(false))]).unwrap());
    assert_eq!(
        Some("b".to_string()),
        get_default_agent(&vec![agent("a", None), agent("b", Some(true))]).unwrap()
    );
    assert_eq!(
        "Only one agent can be specified as default!",
        get_default_agent(&vec![agent("a", Some(true)), agent("b", Some(true))]).err().unwrap()
    );
}

#[test]
fn a_step_without_any_agent_fails_with_its_own_error() {
    let module = Module {
        name: "core".to_string(),
        path: None,
        agents: Some(vec![agent("a", None)]),
        steps: vec![step("compile", "make", None, None)],
    };
    let config = configure_agents(&module).unwrap();
    let mut runtime = ScriptedRuntime::new();
    let err = run_step(&module.steps[0], &module.name, &config, &mut runtime, &SilentFormatter)
        .err()
        .unwrap();
    assert_eq!(
        "Step [compile] doesn't specify an agent and there is no default agent",
        err.msg
    );
    assert!(runtime.seen.is_empty());
}

#[test]
fn a_step_naming_an_unknown_agent_fails_with_its_own_error() {
    let module = Module {
        name: "core".to_string(),
        path: None,
        agents: Some(vec![agent("a", Some(true))]),
        steps: vec![step("compile", "make", Some("missing"), None)],
    };
    let config = configure_agents(&module).unwrap();
    let mut runtime = ScriptedRuntime::new();
    let err = run_step(&module.steps[0], &module.name, &config, &mut runtime, &SilentFormatter)
        .err()
        .unwrap();
    assert_eq!(
        "Step [compile] attempting to use agent [missing] which isn't defined",
        err.msg
    );
    assert!(runtime.seen.is_empty());
}

#[test]
fn a_successful_module_initialises_before_and_tears_down_after_all_steps() {
    let module = Module {
        name: "core".to_string(),
        path: None,
        agents: Some(vec![agent("rust", Some(true))]),
        steps: vec![step("compile", "make", None, None), step("test", "make test", None, None)],
    };
    let mut runtime = ScriptedRuntime::new();
    let result = execute_module(&module, &project(vec![]), &mut runtime, &SilentFormatter);
    assert!(result.is_ok());
    assert_eq!(
        vec![
            "init:core".to_string(),
            "create:core:rust".to_string(),
            "exec:agent-1:make".to_string(),
            "destroy:agent-1".to_string(),
            "create:core:rust".to_string(),
            "exec:agent-2:make test".to_string(),
            "destroy:agent-2".to_string(),
            "teardown:core".to_string(),
        ],
        runtime.seen
    );
}

#[test]
fn a_failing_command_stops_later_steps_but_not_teardown() {
    let module = Module {
        name: "core".to_string(),
        path: None,
        agents: Some(vec![agent("rust", Some(true))]),
        steps: vec![
            step("compile", "make", None, None),
            step("test", "make test", None, None),
            step("package", "make dist", None, None),
        ],
    };
    let mut runtime = ScriptedRuntime::new();
    runtime.fail_command = Some("make test".to_string());
    let result = execute_module(&module, &project(vec![]), &mut runtime, &SilentFormatter);
    assert!(result.is_err());
    assert_eq!(
        vec![
            "init:core".to_string(),
            "create:core:rust".to_string(),
            "exec:agent-1:make".to_string(),
            "destroy:agent-1".to_string(),
            "create:core:rust".to_string(),
            "exec:agent-2:make test".to_string(),
            "destroy:agent-2".to_string(),
            "teardown:core".to_string(),
        ],
        runtime.seen
    );
}

#[test]
fn a_failed_init_skips_teardown() {
    let module = Module {
        name: "core".to_string(),
        path: None,
        agents: Some(vec![agent("rust", Some(true))]),
        steps: vec![step("compile", "make", None, None)],
    };
    let mut runtime = ScriptedRuntime::new();
    runtime.fail_init = true;
    let result = execute_module(&module, &project(vec![]), &mut runtime, &SilentFormatter);
    assert!(result.is_err());
    assert_eq!(vec!["init:core".to_string()], runtime.seen);
}

#[test]
fn archives_are_fetched_in_declared_order_between_command_and_destroy() {
    let module = Module {
        name: "core".to_string(),
        path: None,
        agents: Some(vec![agent("rust", Some(true))]),
        steps: vec![step("compile", "make", None, Some(vec!["reports", "binaries"]))],
    };
    let config = configure_agents(&module).unwrap();
    let mut runtime = ScriptedRuntime::new();
    run_step(&module.steps[0], &module.name, &config, &mut runtime, &SilentFormatter).unwrap();
    assert_eq!(
        vec![
            "create:core:rust".to_string(),
            "exec:agent-1:make".to_string(),
            "archive:agent-1:reports".to_string(),
            "archive:agent-1:binaries".to_string(),
            "destroy:agent-1".to_string(),
        ],
        runtime.seen
    );

    // Reordering the rules reorders the fetches.
    let module = Module {
        name: "core".to_string(),
        path: None,
        agents: Some(vec![agent("rust", Some(true))]),
        steps: vec![step("compile", "make", None, Some(vec!["binaries", "reports"]))],
    };
    let config = configure_agents(&module).unwrap();
    let mut runtime = ScriptedRuntime::new();
    run_step(&module.steps[0], &module.name, &config, &mut runtime, &SilentFormatter).unwrap();
    assert_eq!(
        vec![
            "create:core:rust".to_string(),
            "exec:agent-1:make".to_string(),
            "archive:agent-1:binaries".to_string(),
            "archive:agent-1:reports".to_string(),
            "destroy:agent-1".to_string(),
        ],
        runtime.seen
    );
}

#[test]
fn a_module_without_steps_is_refused() {
    let module = Module {
        name: "core".to_string(),
        path: None,
        agents: Some(vec![agent("rust", Some(true))]),
        steps: vec![],
    };
    let config = configure_agents(&module).unwrap();
    let mut runtime = ScriptedRuntime::new();
    let err =
        build_module(&module, &config, &mut runtime, &SilentFormatter).err().unwrap();
    assert_eq!("No build steps provided.", err.msg);
    assert!(runtime.seen.is_empty());
}

#[test]
fn the_run_stops_after_the_first_failing_module() {
    let good = Module {
        name: "one".to_string(),
        path: None,
        agents: Some(vec![agent("rust", Some(true))]),
        steps: vec![step("compile", "make", None, None)],
    };
    let bad = Module {
        name: "two".to_string(),
        path: None,
        agents: Some(vec![agent("rust", Some(true))]),
        steps: vec![step("test", "make test", None, None)],
    };
    let never = Module {
        name: "three".to_string(),
        path: None,
        agents: Some(vec![agent("rust", Some(true))]),
        steps: vec![step("package", "make dist", None, None)],
    };
    let cfg = project(vec![good, bad, never]);
    let mut runtime = ScriptedRuntime::new();
    runtime.fail_command = Some("make test".to_string());
    let result = build_project_with_config(&cfg, &mut runtime, &SilentFormatter);
    assert!(result.is_err());
    // Module one ran whole; module two failed after its teardown; module
    // three was never started.
    assert_eq!(
        vec![
            "init:one".to_string(),
            "create:one:rust".to_string(),
            "exec:agent-1:make".to_string(),
            "destroy:agent-1".to_string(),
            "teardown:one".to_string(),
            "init:two".to_string(),
            "create:two:rust".to_string(),
            "exec:agent-2:make test".to_string(),
            "destroy:agent-2".to_string(),
            "teardown:two".to_string(),
        ],
        runtime.seen
    );
}

#[test]
fn the_cluster_backend_refuses_every_operation() {
    let mut runtime = KubernetesRuntime::new();
    let err = runtime.connect().err().unwrap();
    assert_eq!("The Kubernetes runtime is not implemented", err.msg);
    assert_eq!(
        "build runtime error: The Kubernetes runtime is not implemented",
        err.message()
    );
    let err = runtime.cleanup_resources().err().unwrap();
    assert_eq!("The Kubernetes runtime is not implemented", err.msg);
}

#[test]
fn a_failing_module_on_the_cluster_backend_reports_the_init_failure() {
    let module = Module {
        name: "core".to_string(),
        path: None,
        agents: Some(vec![agent("rust", Some(true))]),
        steps: vec![step("compile", "make", None, None)],
    };
    let mut runtime = KubernetesRuntime::new();
    let err = execute_module(&module, &project(vec![]), &mut runtime, &SilentFormatter)
        .err()
        .unwrap();
    assert_eq!(
        "Failed to build project: build runtime error: The Kubernetes runtime is not implemented",
        err.msg
    );
}

#[test]
fn with_equal_agent_names_the_last_declaration_wins() {
    let mut second = agent("rust", None);
    second.image = "rust:slim".to_string();
    let module = Module {
        name: "core".to_string(),
        path: None,
        agents: Some(vec![agent("rust", Some(true)), second]),
        steps: vec![step("compile", "make", Some("rust"), None)],
    };
    let config = configure_agents(&module).unwrap();
    let mut runtime = ScriptedRuntime::new();
    run_step(&module.steps[0], &module.name, &config, &mut runtime, &SilentFormatter).unwrap();
    // The step was created on the later declaration of the name.
    assert_eq!("create:core:rust", runtime.seen[0]);
}

#[test]
fn plugin_staging_succeeds_against_a_willing_backend() {
    let module = Module {
        name: "core".to_string(),
        path: None,
        agents: None,
        steps: vec![step("compile", "make", None, None)],
    };
    let cfg = project(vec![module]);
    let mut runtime = ScriptedRuntime::new();
    assert!(init_project_with_config(&cfg, &mut runtime).is_ok());
    assert_eq!(vec!["plugins:0".to_string()], runtime.seen);
}

#[test]
fn plugin_staging_reports_a_backend_failure() {
    let cfg = project(vec![]);
    let mut runtime = KubernetesRuntime::new();
    let err = init_project_with_config(&cfg, &mut runtime).err().unwrap();
    assert_eq!(
        "Failed to load plugins: build runtime error: The Kubernetes runtime is not implemented",
        err.msg
    );
    assert!(err.message().starts_with("init project error: "));
}

#[test]
fn cleanup_connects_and_sweeps() {
    let mut runtime = ScriptedRuntime::new();
    assert!(cleanup_resources(&mut runtime, &SilentFormatter).is_ok());
    assert_eq!(vec!["connect".to_string(), "cleanup".to_string()], runtime.seen);
}

#[test]
fn cleanup_reports_a_backend_failure() {
    let mut runtime = KubernetesRuntime::new();
    let err = cleanup_resources(&mut runtime, &SilentFormatter).err().unwrap();
    assert_eq!(
        "build runtime error: The Kubernetes runtime is not implemented",
        err.msg
    );
    assert!(err.message().starts_with("cleanup error: "));
}

#[test]
fn a_teardown_failure_is_reported_not_swallowed() {
    let module = Module {
        name: "core".to_string(),
        path: None,
        agents: Some(vec![agent("rust", Some(true))]),
        steps: vec![step("compile", "make", None, None)],
    };
    let mut runtime = ScriptedRuntime::new();
    runtime.fail_teardown = true;
    // Every step succeeds; the run still fails, carrying the teardown error.
    let err = execute_module(&module, &project(vec![]), &mut runtime, &SilentFormatter)
        .err()
        .unwrap();
    assert_eq!(
        "Failed to build project: build runtime error: scripted failure: teardown",
        err.msg
    );
    assert_eq!("teardown:core", runtime.seen.last().unwrap());
}
