//! The build-graph data model: a project is an ordered list of modules, each
//! holding its own agents and an ordered list of steps.
//!
//! Values of these types are produced by the external configuration loader and
//! are immutable for the whole run.  Contracts throughout the crate speak of
//! the mathematical views defined here (`Seq<char>` for strings, `Seq` for
//! lists).

use vstd::prelude::*;

verus! {

/// Mathematical image of an `Agent`.
pub struct AgentView {
    pub name: Seq<char>,
    pub default: Option<bool>,
    pub image: Seq<char>,
    pub environment: Option<Seq<(Seq<char>, Seq<char>)>>,
    pub cache: Option<Seq<CacheRuleView>>,
    pub container: Option<ContainerConfigurationView>,
}

/// An execution profile: the image and surroundings that one step runs in.
/// Instantiated as one fresh container per step.
#[derive(Debug)]
pub struct Agent {
    pub name: String,
    pub default: Option<bool>,
    pub image: String,
    pub environment: Option<Vec<(String, String)>>,
    pub cache: Option<Vec<CacheRule>>,
    pub container: Option<ContainerConfiguration>,
}

impl View for Agent {
    type V = AgentView;

    open spec fn view(&self) -> AgentView {
        AgentView {
            name: self.name@,
            default: self.default,
            image: self.image@,
            environment: match self.environment {
                Some(env) => Some(env@.map_values(|p: (String, String)| (p.0@, p.1@))),
                None => None,
            },
            cache: match self.cache {
                Some(rules) => Some(rules@.map_values(|r: CacheRule| r@)),
                None => None,
            },
            container: match self.container {
                Some(c) => Some(c@),
                None => None,
            },
        }
    }
}

pub struct CacheRuleView {
    pub name: Seq<char>,
    pub location: Seq<char>,
}

/// A named, persistent mount: backs a volume that outlives the module.
#[derive(Debug)]
pub struct CacheRule {
    pub name: String,
    pub location: String,
}

impl View for CacheRule {
    type V = CacheRuleView;

    open spec fn view(&self) -> CacheRuleView {
        CacheRuleView { name: self.name@, location: self.location@ }
    }
}

pub struct ContainerConfigurationView {
    pub user: Option<Seq<char>>,
    pub group: Option<Seq<char>>,
    pub privileged: Option<bool>,
}

/// Optional container identity and privilege settings of an agent.
#[derive(Debug)]
pub struct ContainerConfiguration {
    pub user: Option<String>,
    pub group: Option<String>,
    pub privileged: Option<bool>,
}

impl View for ContainerConfiguration {
    type V = ContainerConfigurationView;

    open spec fn view(&self) -> ContainerConfigurationView {
        ContainerConfigurationView {
            user: match self.user {
                Some(ref u) => Some(u@),
                None => None,
            },
            group: match self.group {
                Some(ref g) => Some(g@),
                None => None,
            },
            privileged: self.privileged,
        }
    }
}

pub struct ShellConfigView {
    pub executable: Seq<char>,
}

/// The interpreter a step's command is handed to.
#[derive(Debug)]
pub struct ShellConfig {
    pub executable: String,
}

impl View for ShellConfig {
    type V = ShellConfigView;

    open spec fn view(&self) -> ShellConfigView {
        ShellConfigView { executable: self.executable@ }
    }
}

pub struct ArchiveRuleView {
    pub name: Seq<char>,
    pub location: Seq<char>,
    pub output: Option<Seq<char>>,
}

/// An artifact to pull out of the agent once the step's command has run.
#[derive(Debug)]
pub struct ArchiveRule {
    pub name: String,
    pub location: String,
    pub output: Option<String>,
}

impl View for ArchiveRule {
    type V = ArchiveRuleView;

    open spec fn view(&self) -> ArchiveRuleView {
        ArchiveRuleView {
            name: self.name@,
            location: self.location@,
            output: match self.output {
                Some(ref o) => Some(o@),
                None => None,
            },
        }
    }
}

pub struct PluginSpecificationView {
    pub name: Seq<char>,
    pub version: Seq<char>,
}

/// A plugin (name and version) that a step depends on.
#[derive(Debug)]
pub struct PluginSpecification {
    pub name: String,
    pub version: String,
}

impl View for PluginSpecification {
    type V = PluginSpecificationView;

    open spec fn view(&self) -> PluginSpecificationView {
        PluginSpecificationView { name: self.name@, version: self.version@ }
    }
}

pub struct StepView {
    pub name: Seq<char>,
    pub command: Seq<char>,
    pub agent: Option<Seq<char>>,
    pub secrets: Option<Seq<Seq<char>>>,
    pub shell: Option<ShellConfigView>,
    pub archives: Option<Seq<ArchiveRuleView>>,
    pub plugins: Option<Seq<PluginSpecificationView>>,
}

/// One command to run, together with everything it needs around it.
#[derive(Debug)]
pub struct Step {
    pub name: String,
    pub command: String,
    pub agent: Option<String>,
    pub secrets: Option<Vec<String>>,
    pub shell: Option<ShellConfig>,
    pub archives: Option<Vec<ArchiveRule>>,
    pub plugins: Option<Vec<PluginSpecification>>,
}

impl View for Step {
    type V = StepView;

    open spec fn view(&self) -> StepView {
        StepView {
            name: self.name@,
            command: self.command@,
            agent: match self.agent {
                Some(ref a) => Some(a@),
                None => None,
            },
            secrets: match self.secrets {
                Some(ref s) => Some(s@.map_values(|x: String| x@)),
                None => None,
            },
            shell: match self.shell {
                Some(ref s) => Some(s@),
                None => None,
            },
            archives: match self.archives {
                Some(ref a) => Some(a@.map_values(|r: ArchiveRule| r@)),
                None => None,
            },
            plugins: match self.plugins {
                Some(ref p) => Some(p@.map_values(|r: PluginSpecification| r@)),
                None => None,
            },
        }
    }
}

pub struct ModuleView {
    pub name: Seq<char>,
    pub path: Option<Seq<char>>,
    pub agents: Option<Seq<AgentView>>,
    pub steps: Seq<StepView>,
}

/// A buildable unit: its own agents and an ordered list of steps.
#[derive(Debug)]
pub struct Module {
    pub name: String,
    pub path: Option<String>,
    pub agents: Option<Vec<Agent>>,
    pub steps: Vec<Step>,
}

impl View for Module {
    type V = ModuleView;

    open spec fn view(&self) -> ModuleView {
        ModuleView {
            name: self.name@,
            path: match self.path {
                Some(ref p) => Some(p@),
                None => None,
            },
            agents: match self.agents {
                Some(ref a) => Some(a@.map_values(|x: Agent| x@)),
                None => None,
            },
            steps: self.steps@.map_values(|s: Step| s@),
        }
    }
}

/// The declared schema version of a build file, as a major/minor pair.
#[derive(Debug, PartialEq, Eq, Structural, Clone, Copy)]
pub struct ApiVersion {
    pub major: u32,
    pub minor: u32,
}

impl ApiVersion {
    /// The earliest version this runtime accepts is 0.1.
    pub fn is_supported(&self) -> (r: bool)
        ensures
            r == (self.major > 0 || self.minor >= 1),
    {
        self.major > 0 || self.minor >= 1
    }
}

pub struct BuildConfigView {
    pub api_version: ApiVersion,
    pub modules: Seq<ModuleView>,
}

/// The whole build graph of one project, in declared order.
#[derive(Debug)]
pub struct BuildConfig {
    pub api_version: ApiVersion,
    pub modules: Vec<Module>,
}

impl View for BuildConfig {
    type V = BuildConfigView;

    open spec fn view(&self) -> BuildConfigView {
        BuildConfigView {
            api_version: self.api_version,
            modules: self.modules@.map_values(|m: Module| m@),
        }
    }
}

pub struct ProjectConfigView {
    pub project_directory: Seq<char>,
    pub jarvis_directory: Seq<char>,
    pub build_config: BuildConfigView,
}

/// A loaded project: where it lives on the host and what it builds.
#[derive(Debug)]
pub struct ProjectConfig {
    pub project_directory: String,
    pub jarvis_directory: String,
    pub build_config: BuildConfig,
}

impl View for ProjectConfig {
    type V = ProjectConfigView;

    open spec fn view(&self) -> ProjectConfigView {
        ProjectConfigView {
            project_directory: self.project_directory@,
            jarvis_directory: self.jarvis_directory@,
            build_config: self.build_config@,
        }
    }
}

/// A configuration problem, described for the user.
#[derive(Debug)]
pub struct ConfigError {
    pub msg: String,
}

impl ConfigError {
    /// The full message, with its context prefix.
    pub fn message(&self) -> (r: String)
        ensures
            r@ == "config error: "@ + self.msg@,
    {
        let r = "config error: ".to_owned();
        r.concat(self.msg.as_str())
    }
}

} // verus!
