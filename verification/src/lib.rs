//! A build-pipeline orchestrator core: runs user-defined build steps inside
//! ephemeral, isolated execution agents, coordinating per-module workspaces,
//! caches, secrets and artifact extraction across a multi-step, multi-module
//! pipeline, against an interchangeable backend.

#![verifier::loop_isolation(false)]

use vstd::prelude::*;

pub mod agent_sdk;
pub mod agent_worker;
pub mod cleanup;
pub mod config;
pub mod docker_image_name;
pub mod init;
pub mod pipeline;
pub mod runtime;
pub mod text;
pub mod validate;

verus! {

/// Receives the orchestrator's progress and outcome lines; how they are
/// rendered is entirely the implementor's concern.
pub trait OutputFormatter {
    fn print(&self, msg: String);

    fn success(&self, msg: String);

    fn error(&self, msg: String);

    fn background(&self, msg: String);
}

/// The backend a run is asked to execute against.  An unrecognised selector
/// falls back to the primary container backend.
pub enum RuntimeOption {
    Docker,
    Kubernetes,
    Unspecified,
}

impl RuntimeOption {
    /// Selector parsing: `docker`, `kubernetes` and `k8s` are recognised;
    /// anything else maps to `Unspecified` (which callers treat as the
    /// default container backend).  No input is rejected.
    pub fn from_str(s: &str) -> (r: Result<RuntimeOption, crate::config::ConfigError>)
        ensures
            r is Ok,
            s@ == "docker"@ ==> r->Ok_0 is Docker,
            s@ == "kubernetes"@ || s@ == "k8s"@ ==> r->Ok_0 is Kubernetes,
            s@ != "docker"@ && s@ != "kubernetes"@ && s@ != "k8s"@ ==> r->Ok_0 is Unspecified,
    {
        proof {
            // The selectors have distinct lengths, so they are distinct.
            reveal_strlit("docker");
            reveal_strlit("kubernetes");
            reveal_strlit("k8s");
            assert("docker"@.len() == 6);
            assert("kubernetes"@.len() == 10);
            assert("k8s"@.len() == 3);
        }
        let owned = s.to_owned();
        if owned == "docker".to_owned() {
            Ok(RuntimeOption::Docker)
        } else if owned == "kubernetes".to_owned() {
            Ok(RuntimeOption::Kubernetes)
        } else if owned == "k8s".to_owned() {
            Ok(RuntimeOption::Kubernetes)
        } else {
            Ok(RuntimeOption::Unspecified)
        }
    }

    /// The human-readable backend name.
    pub fn label(&self) -> (r: String)
        ensures
            self is Docker ==> r@ == "Docker runtime"@,
            self is Kubernetes ==> r@ == "Kubernetes runtime"@,
            self is Unspecified ==> r@ == "No runtime"@,
    {
        match self {
            RuntimeOption::Docker => "Docker runtime".to_owned(),
            RuntimeOption::Kubernetes => "Kubernetes runtime".to_owned(),
            RuntimeOption::Unspecified => "No runtime".to_owned(),
        }
    }
}

/// Validates the outcome of loading a project's configuration; see
/// `validate::validate_project`.
pub fn validate_project(
    project_config: Result<crate::config::ProjectConfig, crate::config::ConfigError>,
) -> (r: Result<crate::validate::ValidationMessages, crate::validate::ValidationError>)
    ensures
        r is Ok <==> project_config is Ok,
        project_config matches Err(e) ==> (r matches Err(v) && v.msg@
            == "Could not load project config: "@ + "config error: "@ + e.msg@),
        project_config matches Ok(cfg) ==> (r matches Ok(m) && m.errors@.len() == 0 && (
        cfg@.build_config.modules.len() == 0 ==> m.warnings@.len() == 1 && m.warnings@[0]@
            == "No build modules defined"@) && (cfg@.build_config.modules.len() > 0
            ==> m.warnings@.len() == 0)),
{
    crate::validate::validate_project(project_config)
}

} // verus!
