use jarvis_core::agent_sdk::{make_not_implemented_error, map_result_for_json_rpc,
    FinalizationModel, FinalizationResponseModel, InitializationModel,
    InitializationResponseModel, JarvisAgentPluginContainer, PluginError};
use jarvis_core::agent_worker::{AgentInitialization, PluginSpec};
use jarvis_core::init::collect_plugins;
use jarvis_core::config::{Module, PluginSpecification, Step};

type InitHandler = fn(InitializationModel) -> Result<InitializationResponseModel, PluginError>;
type FinalizeHandler = fn(FinalizationModel) -> Result<FinalizationResponseModel, PluginError>;

#[test]
fn it_works() {
    assert_eq!(2 + 2, 4);
}

#[test]
fn a_fresh_plugin_container_registers_no_hooks() {
    let container: JarvisAgentPluginContainer<InitHandler, FinalizeHandler> =
        JarvisAgentPluginContainer::new("hello-world-plugin_0_0_0".to_string());
    let registration = container.register();
    assert!(!registration.lifecycle_initialize);
    assert!(!registration.lifecycle_finalize);
    assert!(container.initialization_handler().is_none());
    assert!(container.finalization_handler().is_none());
}

#[test]
fn registered_hooks_are_advertised() {
    let mut container: JarvisAgentPluginContainer<InitHandler, FinalizeHandler> =
        JarvisAgentPluginContainer::new("hello-world-plugin_0_0_0".to_string());
    container.add_initialize(|_req| Ok(InitializationResponseModel {}));
    let registration = container.register();
    assert!(registration.lifecycle_initialize);
    assert!(!registration.lifecycle_finalize);

    container.add_finalize(|_req| Ok(FinalizationResponseModel {}));
    let registration = container.register();
    assert!(registration.lifecycle_initialize);
    assert!(registration.lifecycle_finalize);

    let handler = container.initialization_handler().unwrap();
    assert!(handler(InitializationModel {}).is_ok());
}

#[test]
fn plugin_pipe_paths_carry_the_plugin_id() {
    let container: JarvisAgentPluginContainer<InitHandler, FinalizeHandler> =
        JarvisAgentPluginContainer::new("hello-world-plugin_0_0_0".to_string());
    assert_eq!("\\\\.\\pipe\\hello-world-plugin_0_0_0", container.pipe_path());
}

#[test]
fn plugin_errors_cross_the_rpc_boundary_as_server_errors() {
    let failure: Result<InitializationResponseModel, PluginError> =
        Err(PluginError { msg: "boom".to_string() });
    let mapped = map_result_for_json_rpc(failure);
    let err = mapped.err().unwrap();
    assert_eq!(0, err.server_error_code);
    assert_eq!("plugin error: boom", err.message);

    let ok: Result<i32, PluginError> = Ok(7);
    assert_eq!(7, map_result_for_json_rpc(ok).unwrap());

    let not_implemented: Result<i32, _> = make_not_implemented_error();
    let err = not_implemented.err().unwrap();
    assert_eq!(1, err.server_error_code);
    assert_eq!("Not implemented", err.message);
}

#[test]
fn agent_initialization_lists_plugins() {
    let init = AgentInitialization {
        plugins: Some(vec![PluginSpec {
            name: "hello-world-plugin".to_string(),
            version: "0.0.0-dev".to_string(),
        }]),
    };
    assert_eq!(1, init.plugins.unwrap().len());
}

#[test]
fn plugins_are_collected_across_all_modules_and_steps() {
    let modules = vec![
        Module {
            name: "one".to_string(),
            path: None,
            agents: None,
            steps: vec![
                Step {
                    name: "a".to_string(),
                    command: "make".to_string(),
                    agent: None,
                    secrets: None,
                    shell: None,
                    archives: None,
                    plugins: Some(vec![PluginSpecification {
                        name: "hello-world-plugin".to_string(),
                        version: "0.0.0-dev".to_string(),
                    }]),
                },
                Step {
                    name: "b".to_string(),
                    command: "make more".to_string(),
                    agent: None,
                    secrets: None,
                    shell: None,
                    archives: None,
                    plugins: None,
                },
            ],
        },
        Module {
            name: "two".to_string(),
            path: None,
            agents: None,
            steps: vec![Step {
                name: "c".to_string(),
                command: "make".to_string(),
                agent: None,
                secrets: None,
                shell: None,
                archives: None,
                plugins: Some(vec![PluginSpecification {
                    name: "deploy-plugin".to_string(),
                    version: "1.2.3".to_string(),
                }]),
            }],
        },
    ];
    let plugins = collect_plugins(&modules);
    assert_eq!(2, plugins.len());
    assert_eq!("hello-world-plugin", plugins[0].name);
    assert_eq!("deploy-plugin", plugins[1].name);
    assert_eq!("1.2.3", plugins[1].version);
}
