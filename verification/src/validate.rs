//! Validation of a loaded project configuration.

use vstd::prelude::*;

use crate::config::{ConfigError, ProjectConfig};

verus! {

/// A project that could not be validated at all.
#[derive(Debug)]
pub struct ValidationError {
    pub msg: String,
}

impl ValidationError {
    /// The full message, with its context prefix.
    pub fn message(&self) -> (r: String)
        ensures
            r@ == "config error: "@ + self.msg@,
    {
        let r = "config error: ".to_owned();
        r.concat(self.msg.as_str())
    }
}

/// What validation found: hard errors and advisory warnings.
#[derive(Debug)]
pub struct ValidationMessages {
    pub errors: Vec<String>,
    pub warnings: Vec<String>,
}

/// Checks a loaded configuration: a project without build modules is flagged
/// with a warning; nothing else is flagged.
pub fn validate_project_config(project_config: ProjectConfig) -> (r: ValidationMessages)
    ensures
        r.errors@.len() == 0,
        project_config@.build_config.modules.len() == 0 ==> r.warnings@.len() == 1
            && r.warnings@[0]@ == "No build modules defined"@,
        project_config@.build_config.modules.len() > 0 ==> r.warnings@.len() == 0,
{
    let mut messages = ValidationMessages { errors: Vec::new(), warnings: Vec::new() };
    if project_config.build_config.modules.len() == 0 {
        messages.warnings.push("No build modules defined".to_owned());
    }
    messages
}

/// Validates the outcome of loading a project's configuration: a failed load
/// is reported as a validation error carrying the loader's message, and a
/// loaded configuration is checked by `validate_project_config`.
pub fn validate_project(project_config: Result<ProjectConfig, ConfigError>) -> (r: Result<
    ValidationMessages,
    ValidationError,
>)
    ensures
        r is Ok <==> project_config is Ok,
        project_config matches Err(e) ==> (r matches Err(v) && v.msg@
            == "Could not load project config: "@ + "config error: "@ + e.msg@),
        project_config matches Ok(cfg) ==> (r matches Ok(m) && m.errors@.len() == 0 && (
        cfg@.build_config.modules.len() == 0 ==> m.warnings@.len() == 1 && m.warnings@[0]@
            == "No build modules defined"@) && (cfg@.build_config.modules.len() > 0
            ==> m.warnings@.len() == 0)),
{
    match project_config {
        Err(e) => {
            let msg = "Could not load project config: ".to_owned();
            let msg = msg.concat(e.message().as_str());
            proof {
                assert(msg@ =~= "Could not load project config: "@ + "config error: "@ + e.msg@);
            }
            Err(ValidationError { msg })
        },
        Ok(cfg) => Ok(validate_project_config(cfg)),
    }
}

} // verus!
