//! The data the in-agent plugin manager is handed when an agent is
//! initialised: which plugins, by name and version, it must start.

use vstd::prelude::*;

verus! {

/// An agent-initialisation request: the plugins the agent must run.
pub struct AgentInitialization {
    pub plugins: Option<Vec<PluginSpec>>,
}

/// One plugin, by name and version.
pub struct PluginSpec {
    pub name: String,
    pub version: String,
}

} // verus!
