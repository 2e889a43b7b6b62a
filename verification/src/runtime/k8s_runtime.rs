//! The cluster-scheduler backend stub.
//!
//! Every operation fails immediately and unambiguously — each method's own
//! contract promises the not-implemented error — so that a caller cannot
//! mistake an unsupported backend for a successful no-op run.

use vstd::prelude::*;

use crate::config::{Agent, ArchiveRule, PluginSpecification, ProjectConfig, ShellConfig, Step};
use crate::runtime::{BuildRuntime, BuildRuntimeError, RuntimeCall};

verus! {

/// The message every operation of the stub fails with.
pub open spec fn spec_not_implemented_msg() -> Seq<char> {
    "The Kubernetes runtime is not implemented"@
}

/// The not-yet-supported cluster backend.
pub struct KubernetesRuntime {
    calls: Ghost<Seq<RuntimeCall>>,
    results: Ghost<Seq<bool>>,
}

impl KubernetesRuntime {
    /// A fresh stub backend with an empty call log.
    pub fn new() -> (r: Self)
        ensures
            r.log() == Seq::<RuntimeCall>::empty(),
            r.outcomes() == Seq::<bool>::empty(),
    {
        KubernetesRuntime { calls: Ghost(Seq::empty()), results: Ghost(Seq::empty()) }
    }
}

fn unsupported<T>() -> (r: Result<T, BuildRuntimeError>)
    ensures
        r is Err,
        r->Err_0.msg@ == spec_not_implemented_msg(),
{
    Err(BuildRuntimeError { msg: "The Kubernetes runtime is not implemented".to_owned() })
}

impl BuildRuntime for KubernetesRuntime {
    closed spec fn log(&self) -> Seq<RuntimeCall> {
        self.calls@
    }

    closed spec fn outcomes(&self) -> Seq<bool> {
        self.results@
    }

    fn connect(&mut self) -> (r: Result<(), BuildRuntimeError>)
        ensures
            r is Err,
            r->Err_0.msg@ == spec_not_implemented_msg(),
    {
        self.calls = Ghost(self.calls@.push(RuntimeCall::Connect));
        self.results = Ghost(self.results@.push(false));
        unsupported()
    }

    fn init_for_module(&mut self, module_name: &String, project_config: &ProjectConfig) -> (r:
        Result<(), BuildRuntimeError>)
        ensures
            r is Err,
            r->Err_0.msg@ == spec_not_implemented_msg(),
    {
        self.calls = Ghost(self.calls@.push(RuntimeCall::Init { module: module_name@ }));
        self.results = Ghost(self.results@.push(false));
        unsupported()
    }

    fn create_agent(&mut self, module_name: &String, agent: &Agent, step: Option<&Step>) -> (r:
        Result<String, BuildRuntimeError>)
        ensures
            r is Err,
            r->Err_0.msg@ == spec_not_implemented_msg(),
    {
        self.calls = Ghost(
            self.calls@.push(RuntimeCall::CreateAgent { module: module_name@, agent: agent.name@ }),
        );
        self.results = Ghost(self.results@.push(false));
        unsupported()
    }

    fn execute_command(&mut self, agent_id: &str, shell_config: &ShellConfig, command: &str) -> (r:
        Result<(), BuildRuntimeError>)
        ensures
            r is Err,
            r->Err_0.msg@ == spec_not_implemented_msg(),
    {
        self.calls = Ghost(
            self.calls@.push(RuntimeCall::ExecuteCommand { agent_id: agent_id@, command: command@ }),
        );
        self.results = Ghost(self.results@.push(false));
        unsupported()
    }

    fn get_archive(&mut self, agent_id: &str, archive_rule: &ArchiveRule) -> (r: Result<
        (),
        BuildRuntimeError,
    >)
        ensures
            r is Err,
            r->Err_0.msg@ == spec_not_implemented_msg(),
    {
        self.calls = Ghost(
            self.calls@.push(
                RuntimeCall::GetArchive { agent_id: agent_id@, archive: archive_rule.name@ },
            ),
        );
        self.results = Ghost(self.results@.push(false));
        unsupported()
    }

    fn destroy_agent(&mut self, agent_id: &str) -> (r: Result<(), BuildRuntimeError>)
        ensures
            r is Err,
            r->Err_0.msg@ == spec_not_implemented_msg(),
    {
        self.calls = Ghost(self.calls@.push(RuntimeCall::DestroyAgent { agent_id: agent_id@ }));
        self.results = Ghost(self.results@.push(false));
        unsupported()
    }

    fn tear_down_for_module(&mut self, module_name: &String) -> (r: Result<(), BuildRuntimeError>)
        ensures
            r is Err,
            r->Err_0.msg@ == spec_not_implemented_msg(),
    {
        self.calls = Ghost(self.calls@.push(RuntimeCall::TearDown { module: module_name@ }));
        self.results = Ghost(self.results@.push(false));
        unsupported()
    }

    fn cleanup_resources(&mut self) -> (r: Result<(), BuildRuntimeError>)
        ensures
            r is Err,
            r->Err_0.msg@ == spec_not_implemented_msg(),
    {
        self.calls = Ghost(self.calls@.push(RuntimeCall::CleanupResources));
        self.results = Ghost(self.results@.push(false));
        unsupported()
    }

    fn ensure_plugins_loaded(&mut self, plugins: Vec<&PluginSpecification>) -> (r: Result<
        (),
        BuildRuntimeError,
    >)
        ensures
            r is Err,
            r->Err_0.msg@ == spec_not_implemented_msg(),
    {
        self.calls = Ghost(
            self.calls@.push(
                RuntimeCall::EnsurePluginsLoaded {
                    plugins: plugins@.map_values(|p: &PluginSpecification| p@),
                },
            ),
        );
        self.results = Ghost(self.results@.push(false));
        unsupported()
    }
}

} // verus!
