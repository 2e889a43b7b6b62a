//! The backend-agnostic build-runtime contract.
//!
//! A backend materialises per-module workspaces and ephemeral agents, runs
//! commands in them and extracts artifacts.  Every operation a backend is
//! asked to perform is recorded, in order, in a ghost call log, and whether
//! it succeeded in a matching outcome log; the pipeline driver's ordering,
//! lifecycle and failure-reporting guarantees are stated and proved over the
//! two.

use vstd::prelude::*;

use crate::config::{Agent, ArchiveRule, PluginSpecificationView, PluginSpecification,
    ProjectConfig, ShellConfig, Step};

pub mod docker_runtime;
pub mod k8s_runtime;

verus! {

/// One operation requested of a backend, with the arguments the driver's
/// guarantees speak about.
pub enum RuntimeCall {
    Connect,
    Init { module: Seq<char> },
    CreateAgent { module: Seq<char>, agent: Seq<char> },
    ExecuteCommand { agent_id: Seq<char>, command: Seq<char> },
    GetArchive { agent_id: Seq<char>, archive: Seq<char> },
    DestroyAgent { agent_id: Seq<char> },
    TearDown { module: Seq<char> },
    CleanupResources,
    EnsurePluginsLoaded { plugins: Seq<PluginSpecificationView> },
}

/// The order of operations asked of a backend, oldest first.
pub type RuntimeCallLog = Seq<RuntimeCall>;

/// The outcome of each operation asked of a backend, in the same order as
/// the call log: true for success, false for failure.
pub type OutcomeLog = Seq<bool>;

/// A backend failure, wrapped with the operation's context.
#[derive(Debug)]
pub struct BuildRuntimeError {
    pub msg: String,
}

impl BuildRuntimeError {
    /// The full message, with its context prefix.
    pub fn message(&self) -> (r: String)
        ensures
            r@ == "build runtime error: "@ + self.msg@,
    {
        let r = "build runtime error: ".to_owned();
        r.concat(self.msg.as_str())
    }
}

/// The backend contract.  Each operation may fail; each operation, whatever
/// its outcome, appends exactly one entry to the backend's call log, records
/// whether it succeeded in the outcome log, and touches nothing recorded
/// earlier.
pub trait BuildRuntime: Sized {
    /// The operations asked of this backend so far, oldest first.
    spec fn log(&self) -> RuntimeCallLog;

    /// Whether each operation asked so far succeeded, in call order.
    spec fn outcomes(&self) -> OutcomeLog;

    /// Establishes connectivity to the execution substrate.
    fn connect(&mut self) -> (r: Result<(), BuildRuntimeError>)
        ensures
            final(self).log() == old(self).log().push(RuntimeCall::Connect),
            final(self).outcomes() == old(self).outcomes().push(r is Ok),
    ;

    /// Allocates the module's workspace resources and seeds them with the
    /// project's files.
    fn init_for_module(&mut self, module_name: &String, project_config: &ProjectConfig) -> (r:
        Result<(), BuildRuntimeError>)
        ensures
            final(self).log() == old(self).log().push(
                RuntimeCall::Init { module: module_name@ },
            ),
            final(self).outcomes() == old(self).outcomes().push(r is Ok),
    ;

    /// Materialises a running agent for one step, wired to the module
    /// workspace, the agent's caches and the step's secrets; returns an
    /// opaque identifier for it.
    fn create_agent(&mut self, module_name: &String, agent: &Agent, step: Option<&Step>) -> (r:
        Result<String, BuildRuntimeError>)
        ensures
            final(self).log() == old(self).log().push(
                RuntimeCall::CreateAgent { module: module_name@, agent: agent.name@ },
            ),
            final(self).outcomes() == old(self).outcomes().push(r is Ok),
    ;

    /// Runs `command` inside the agent's workspace directory under the given
    /// interpreter and waits for it to finish; a command that does not exit
    /// cleanly is a failure.
    fn execute_command(&mut self, agent_id: &str, shell_config: &ShellConfig, command: &str) -> (r:
        Result<(), BuildRuntimeError>)
        ensures
            final(self).log() == old(self).log().push(
                RuntimeCall::ExecuteCommand { agent_id: agent_id@, command: command@ },
            ),
            final(self).outcomes() == old(self).outcomes().push(r is Ok),
    ;

    /// Extracts the rule's in-agent path out to the host.
    fn get_archive(&mut self, agent_id: &str, archive_rule: &ArchiveRule) -> (r: Result<
        (),
        BuildRuntimeError,
    >)
        ensures
            final(self).log() == old(self).log().push(
                RuntimeCall::GetArchive { agent_id: agent_id@, archive: archive_rule.name@ },
            ),
            final(self).outcomes() == old(self).outcomes().push(r is Ok),
    ;

    /// Forcibly removes the agent, whatever state it is in.
    fn destroy_agent(&mut self, agent_id: &str) -> (r: Result<(), BuildRuntimeError>)
        ensures
            final(self).log() == old(self).log().push(
                RuntimeCall::DestroyAgent { agent_id: agent_id@ },
            ),
            final(self).outcomes() == old(self).outcomes().push(r is Ok),
    ;

    /// Releases the module's workspace volume (never its cache volumes).
    fn tear_down_for_module(&mut self, module_name: &String) -> (r: Result<(), BuildRuntimeError>)
        ensures
            final(self).log() == old(self).log().push(
                RuntimeCall::TearDown { module: module_name@ },
            ),
            final(self).outcomes() == old(self).outcomes().push(r is Ok),
    ;

    /// Backend-wide sweep: reports and removes every resource tagged as owned
    /// by this system that is not part of an active run.
    fn cleanup_resources(&mut self) -> (r: Result<(), BuildRuntimeError>)
        ensures
            final(self).log() == old(self).log().push(RuntimeCall::CleanupResources),
            final(self).outcomes() == old(self).outcomes().push(r is Ok),
    ;

    /// Guarantees a shared, host-synced plugin payload volume exists and is
    /// current.
    fn ensure_plugins_loaded(&mut self, plugins: Vec<&PluginSpecification>) -> (r: Result<
        (),
        BuildRuntimeError,
    >)
        ensures
            final(self).log() == old(self).log().push(
                RuntimeCall::EnsurePluginsLoaded {
                    plugins: plugins@.map_values(|p: &PluginSpecification| p@),
                },
            ),
            final(self).outcomes() == old(self).outcomes().push(r is Ok),
    ;
}

} // verus!
