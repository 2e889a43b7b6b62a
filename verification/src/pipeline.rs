//! The pipeline driver: walks the module/step graph, resolves each step's
//! agent, and invokes the build runtime in the required order.
//!
//! The ordering and lifecycle guarantees are stated over the runtime's ghost
//! call and outcome logs: per module, initialisation happens exactly once
//! before any agent is created, teardown exactly once after the last agent
//! call whenever initialisation succeeded, a failing step stops all later
//! steps without skipping teardown, and a step's archives are fetched in
//! declared order between its command and its agent's destruction.  A driver
//! function answers success only when every operation it requested succeeded
//! — in particular a teardown failure is never swallowed — and every error it
//! answers carries one of the library's stated message shapes.

use vstd::prelude::*;

use crate::config::{Agent, AgentView, Module, ModuleView, ProjectConfig, ShellConfig, StepView,
    Step};
use crate::runtime::{BuildRuntime, BuildRuntimeError, RuntimeCall};
use crate::OutputFormatter;
use vstd::pervasive::unreached;

verus! {

/// A failure of the run, described for the user.
#[derive(Debug)]
pub struct BuildError {
    pub msg: String,
}

impl BuildError {
    /// The full message, with its context prefix.
    pub fn message(&self) -> (r: String)
        ensures
            r@ == "build runtime error: "@ + self.msg@,
    {
        let r = "build runtime error: ".to_owned();
        r.concat(self.msg.as_str())
    }
}

/// The resolved agent registry of one module: the module's agents and the
/// name of the default one, if exactly one is declared default.
#[derive(Debug)]
pub struct BuildAgentConfig<'a> {
    pub agents: Option<&'a Vec<Agent>>,
    pub default_agent: Option<String>,
}

/// Mathematical image of a `BuildAgentConfig`.
pub struct BuildAgentConfigView {
    pub agents: Seq<AgentView>,
    pub default_agent: Option<Seq<char>>,
}

impl<'a> View for BuildAgentConfig<'a> {
    type V = BuildAgentConfigView;

    open spec fn view(&self) -> BuildAgentConfigView {
        BuildAgentConfigView {
            agents: match self.agents {
                Some(v) => v@.map_values(|a: Agent| a@),
                None => Seq::empty(),
            },
            default_agent: match self.default_agent {
                Some(ref d) => Some(d@),
                None => None,
            },
        }
    }
}

/// Whether an agent is declared as the module's default.
pub open spec fn is_default_agent(a: AgentView) -> bool {
    a.default == Some(true)
}

/// How many agents from position `i` on are declared default.
pub open spec fn count_defaults_from(agents: Seq<AgentView>, i: int) -> nat
    decreases agents.len() - i,
{
    if i < 0 || i >= agents.len() {
        0
    } else {
        (if is_default_agent(agents[i]) {
            1nat
        } else {
            0nat
        }) + count_defaults_from(agents, i + 1)
    }
}

/// How many agents are declared default.
pub open spec fn count_defaults(agents: Seq<AgentView>) -> nat {
    count_defaults_from(agents, 0)
}

/// The name of the first agent declared default, from position `i` on.
pub open spec fn first_default_from(agents: Seq<AgentView>, i: int) -> Option<Seq<char>>
    decreases agents.len() - i,
{
    if i < 0 || i >= agents.len() {
        None
    } else if is_default_agent(agents[i]) {
        Some(agents[i].name)
    } else {
        first_default_from(agents, i + 1)
    }
}

/// The name of the first agent declared default, if any.
pub open spec fn first_default(agents: Seq<AgentView>) -> Option<Seq<char>> {
    first_default_from(agents, 0)
}

/// The module's agent list (empty when it declares none).
pub open spec fn agent_list_view(m: ModuleView) -> Seq<AgentView> {
    match m.agents {
        Some(l) => l,
        None => Seq::empty(),
    }
}

/// Whether the module's agent declarations are acceptable: at most one agent
/// may be declared default.
pub open spec fn module_config_ok(m: ModuleView) -> bool {
    count_defaults(agent_list_view(m)) <= 1
}

/// The agent registry the driver computes for an acceptable module.
pub open spec fn spec_module_config(m: ModuleView) -> BuildAgentConfigView {
    BuildAgentConfigView {
        agents: agent_list_view(m),
        default_agent: first_default(agent_list_view(m)),
    }
}

/// The agent a name resolves to: as in a name-keyed map built left to right,
/// the last agent carrying the name wins.
pub open spec fn lookup_agent(agents: Seq<AgentView>, name: Seq<char>) -> Option<AgentView>
    decreases agents.len(),
{
    if agents.len() == 0 {
        None
    } else if agents.last().name == name {
        Some(agents.last())
    } else {
        lookup_agent(agents.drop_last(), name)
    }
}

/// The agent a step runs on: its explicit reference if it names one, else the
/// module default, else nothing.
pub open spec fn resolve_step_agent(cfg: BuildAgentConfigView, step: StepView) -> Option<
    AgentView,
> {
    match step.agent {
        Some(name) => lookup_agent(cfg.agents, name),
        None => match cfg.default_agent {
            Some(d) => lookup_agent(cfg.agents, d),
            None => None,
        },
    }
}

/// A registry is consistent when its default-agent name, if set, resolves.
pub open spec fn config_well_formed(cfg: BuildAgentConfigView) -> bool {
    match cfg.default_agent {
        Some(d) => lookup_agent(cfg.agents, d) is Some,
        None => true,
    }
}

/// An agent whose name occurs in the list is found by `lookup_agent`.
proof fn lemma_lookup_finds(agents: Seq<AgentView>, name: Seq<char>)
    requires
        exists|i: int| 0 <= i < agents.len() && (#[trigger] agents[i]).name == name,
    ensures
        lookup_agent(agents, name) is Some,
    decreases agents.len(),
{
    if agents.len() > 0 && agents.last().name != name {
        let i = choose|i: int| 0 <= i < agents.len() && (#[trigger] agents[i]).name == name;
        assert(agents.drop_last()[i] == agents[i]);
        lemma_lookup_finds(agents.drop_last(), name);
    }
}

/// The error reported when too many agents are declared default.
pub open spec fn spec_multiple_defaults_msg() -> Seq<char> {
    "Only one agent can be specified as default!"@
}

/// The name of the module's default agent: the single agent declared default,
/// none when no agent is, and an error when several are.
pub fn get_default_agent(agents: &Vec<Agent>) -> (r: Result<Option<String>, &'static str>)
    ensures
        r is Ok <==> count_defaults(agents@.map_values(|a: Agent| a@)) <= 1,
        r matches Ok(o) ==> match first_default(agents@.map_values(|a: Agent| a@)) {
            Some(d) => o matches Some(n) && n@ == d,
            None => o is None,
        },
        r matches Err(e) ==> e@ == spec_multiple_defaults_msg(),
{
    let ghost vs = agents@.map_values(|a: Agent| a@);
    let mut found: Option<String> = None;
    let mut i: usize = 0;
    while i < agents.len()
        invariant
            0 <= i <= agents@.len(),
            vs == agents@.map_values(|a: Agent| a@),
            vs.len() == agents@.len(),
            count_defaults(vs) == count_defaults_from(vs, 0),
            match found {
                Some(n) => count_defaults_from(vs, i as int) + 1 == count_defaults(vs) && (
                first_default(vs) matches Some(d) && n@ == d),
                None => count_defaults_from(vs, i as int) == count_defaults(vs) && first_default(
                    vs,
                ) == first_default_from(vs, i as int),
            },
        decreases agents@.len() - i,
    {
        proof {
            assert(vs[i as int] == agents@[i as int]@);
        }
        let is_default = match agents[i].default {
            Some(b) => b,
            None => false,
        };
        if is_default {
            match found {
                Some(_) => {
                    return Err("Only one agent can be specified as default!");
                },
                None => {
                    found = Some(agents[i].name.clone());
                },
            }
        }
        i = i + 1;
    }
    Ok(found)
}

/// Computes the module's agent registry: its agents as declared, and the
/// default agent when exactly one is marked default.  More than one default
/// is refused before any runtime work.
pub fn configure_agents<'a>(module: &'a Module) -> (r: Result<BuildAgentConfig<'a>, &'static str>)
    ensures
        r is Ok <==> module_config_ok(module@),
        r matches Ok(c) ==> c@ == spec_module_config(module@) && config_well_formed(c@),
        r matches Err(e) ==> e@ == spec_multiple_defaults_msg(),
{
    match module.agents {
        None => {
            let r = Ok(BuildAgentConfig { agents: None, default_agent: None });
            proof {
                assert(count_defaults(agent_list_view(module@)) == 0);
            }
            r
        },
        Some(ref agent_list) => {
            match get_default_agent(agent_list) {
                Ok(default_agent) => {
                    let cfg = BuildAgentConfig { agents: Some(agent_list), default_agent };
                    proof {
                        assert(agent_list_view(module@) == agent_list@.map_values(|a: Agent| a@));
                        assert(cfg@ == spec_module_config(module@));
                        match first_default(cfg@.agents) {
                            Some(d) => {
                                lemma_first_default_is_default(cfg@.agents, 0);
                                lemma_lookup_finds(cfg@.agents, d);
                            },
                            None => {},
                        }
                    }
                    Ok(cfg)
                },
                Err(e) => Err(e),
            }
        },
    }
}

/// The first default's name belongs to some agent of the list.
proof fn lemma_first_default_is_default(agents: Seq<AgentView>, i: int)
    requires
        0 <= i <= agents.len(),
        first_default_from(agents, i) is Some,
    ensures
        exists|k: int|
            0 <= k < agents.len() && (#[trigger] agents[k]).name == first_default_from(
                agents,
                i,
            )->0,
    decreases agents.len() - i,
{
    if i < agents.len() {
        if is_default_agent(agents[i]) {
            assert(agents[i].name == first_default_from(agents, i)->0);
        } else {
            lemma_first_default_is_default(agents, i + 1);
        }
    }
}

/// Finds the agent carrying `name`, scanning so that the last declaration of
/// a name wins, as in a name-keyed map built left to right.
fn find_agent<'a>(agents: &Option<&'a Vec<Agent>>, name: &String) -> (r: Option<&'a Agent>)
    ensures
        ({
            let vs = match *agents {
                Some(v) => v@.map_values(|a: Agent| a@),
                None => Seq::<AgentView>::empty(),
            };
            match r {
                Some(a) => lookup_agent(vs, name@) == Some(a@),
                None => lookup_agent(vs, name@) is None,
            }
        }),
{
    match *agents {
        None => None,
        Some(list) => {
            let ghost vs = list@.map_values(|a: Agent| a@);
            let mut j: usize = list.len();
            proof {
                assert(vs.take(j as int) =~= vs);
            }
            while j > 0
                invariant
                    0 <= j <= list@.len(),
                    vs == list@.map_values(|a: Agent| a@),
                    vs.len() == list@.len(),
                    lookup_agent(vs, name@) == lookup_agent(vs.take(j as int), name@),
                decreases j,
            {
                proof {
                    assert(vs.take(j as int).last() == vs[j - 1]);
                    assert(vs.take(j as int).drop_last() =~= vs.take(j - 1));
                    assert(vs[j - 1] == list@[j - 1]@);
                }
                if list[j - 1].name == *name {
                    return Some(&list[j - 1]);
                }
                j = j - 1;
            }
            proof {
                assert(vs.take(0) =~= Seq::<AgentView>::empty());
            }
            None
        },
    }
}

// ---------------------------------------------------------------------------
// The call traces the driver guarantees
// ---------------------------------------------------------------------------
/// The workspace-initialisation call for a module.
pub open spec fn init_call(module: Seq<char>) -> RuntimeCall {
    RuntimeCall::Init { module }
}

/// The workspace-teardown call for a module.
pub open spec fn teardown_call(module: Seq<char>) -> RuntimeCall {
    RuntimeCall::TearDown { module }
}

/// The archive fetches of one step against agent `id`, in declared order.
pub open spec fn archive_calls(step: StepView, id: Seq<char>) -> Seq<RuntimeCall> {
    match step.archives {
        Some(rules) => Seq::new(
            rules.len(),
            |i: int| RuntimeCall::GetArchive { agent_id: id, archive: rules[i].name },
        ),
        None => Seq::empty(),
    }
}

/// The runtime calls of one fully-executed step: create the agent, run the
/// command, fetch each declared archive in order, destroy the agent.
pub open spec fn full_step_calls(
    module: Seq<char>,
    step: StepView,
    agent: AgentView,
    id: Seq<char>,
) -> Seq<RuntimeCall> {
    seq![
        RuntimeCall::CreateAgent { module, agent: agent.name },
        RuntimeCall::ExecuteCommand { agent_id: id, command: step.command },
    ] + archive_calls(step, id) + seq![RuntimeCall::DestroyAgent { agent_id: id }]
}

/// Every call trace one step's execution can leave behind: it stops after the
/// agent create, after the command and some prefix of the archive fetches, or
/// runs to the end (a step whose command failed still fetches its archives
/// and destroys its agent before reporting the failure).
pub open spec fn is_partial_step_calls(
    module: Seq<char>,
    step: StepView,
    agent: AgentView,
    calls: Seq<RuntimeCall>,
) -> bool {
    ||| calls == seq![RuntimeCall::CreateAgent { module, agent: agent.name }]
    ||| (exists|id: Seq<char>, k: int|
        0 <= k <= archive_calls(step, id).len() && calls == seq![
            RuntimeCall::CreateAgent { module, agent: agent.name },
            RuntimeCall::ExecuteCommand { agent_id: id, command: step.command },
        ] + archive_calls(step, id).take(k))
    ||| (exists|id: Seq<char>| calls == full_step_calls(module, step, agent, id))
}

/// The concatenated full traces of the steps `j`, `j+1`, ... , one per entry
/// of `ids` (the agent identifier each step ran under).
pub open spec fn steps_calls_range(
    mname: Seq<char>,
    cfg: BuildAgentConfigView,
    steps: Seq<StepView>,
    j: int,
    ids: Seq<Seq<char>>,
) -> Seq<RuntimeCall>
    decreases ids.len(),
{
    if ids.len() == 0 {
        Seq::empty()
    } else {
        full_step_calls(mname, steps[j], resolve_step_agent(cfg, steps[j])->0, ids.first())
            + steps_calls_range(mname, cfg, steps, j + 1, ids.drop_first())
    }
}

/// The calls of a module whose steps all ran to the end, in declared order.
pub open spec fn is_complete_steps_trace(
    mname: Seq<char>,
    cfg: BuildAgentConfigView,
    steps: Seq<StepView>,
    calls: Seq<RuntimeCall>,
) -> bool {
    exists|ids: Seq<Seq<char>>|
        ids.len() == steps.len() && (forall|k: int|
            0 <= k < steps.len() ==> resolve_step_agent(cfg, #[trigger] steps[k]) is Some)
            && calls == steps_calls_range(mname, cfg, steps, 0, ids)
}

/// The calls of a module whose step `j` failed: full traces for the steps
/// before `j`, a partial trace for `j` itself, and nothing at all for the
/// steps after it.
pub open spec fn is_aborted_steps_trace(
    mname: Seq<char>,
    cfg: BuildAgentConfigView,
    steps: Seq<StepView>,
    calls: Seq<RuntimeCall>,
) -> bool {
    exists|j: int, ids: Seq<Seq<char>>, tail: Seq<RuntimeCall>|
        #![trigger steps_calls_range(mname, cfg, steps, 0, ids), steps[j], tail.len()]
        0 <= j < steps.len() && ids.len() == j && (forall|k: int|
            0 <= k < j ==> resolve_step_agent(cfg, #[trigger] steps[k]) is Some) && calls
            == steps_calls_range(mname, cfg, steps, 0, ids) + tail && match resolve_step_agent(
            cfg,
            steps[j],
        ) {
            None => tail == Seq::<RuntimeCall>::empty(),
            Some(a) => is_partial_step_calls(mname, steps[j], a, tail),
        }
}

/// Whether every operation of an outcome-log slice succeeded.
pub open spec fn all_succeeded(outcomes: Seq<bool>) -> bool {
    forall|i: int| 0 <= i < outcomes.len() ==> outcomes[i]
}

/// Success of a concatenation is success of both parts.
proof fn lemma_all_succeeded_add(a: Seq<bool>, b: Seq<bool>)
    ensures
        all_succeeded(a + b) <==> (all_succeeded(a) && all_succeeded(b)),
{
    if all_succeeded(a + b) {
        assert forall|i: int| 0 <= i < a.len() implies a[i] by {
            assert((a + b)[i] == a[i]);
        }
        assert forall|i: int| 0 <= i < b.len() implies b[i] by {
            assert((a + b)[a.len() + i] == b[i]);
        }
    }
    if all_succeeded(a) && all_succeeded(b) {
        assert forall|i: int| 0 <= i < (a + b).len() implies (a + b)[i] by {
            if i < a.len() {
                assert((a + b)[i] == a[i]);
            } else {
                assert((a + b)[i] == b[i - a.len()]);
            }
        }
    }
}

// ---------------------------------------------------------------------------
// Error messages
// ---------------------------------------------------------------------------
/// The error for a step naming an agent the module does not define.
pub open spec fn spec_missing_agent_msg(step: Seq<char>, agent: Seq<char>) -> Seq<char> {
    "Step ["@ + step + "] attempting to use agent ["@ + agent + "] which isn't defined"@
}

/// The error for a step with no agent reference in a module with no default.
pub open spec fn spec_no_agent_msg(step: Seq<char>) -> Seq<char> {
    "Step ["@ + step + "] doesn't specify an agent and there is no default agent"@
}

/// A runtime failure wrapped with the failing step's name.
pub open spec fn spec_step_failure_msg(step: Seq<char>, runtime_msg: Seq<char>) -> Seq<char> {
    "Failed to run step ["@ + step + "]: "@ + "build runtime error: "@ + runtime_msg
}

/// A runtime failure wrapped as a project-build failure.
pub open spec fn spec_build_failure_msg(runtime_msg: Seq<char>) -> Seq<char> {
    "Failed to build project: "@ + "build runtime error: "@ + runtime_msg
}

/// An agent-configuration failure wrapped with its context.
pub open spec fn spec_configure_failure_msg(detail: Seq<char>) -> Seq<char> {
    "Error configuring agents: "@ + detail
}

fn run_step_error(step_name: &String, bre: BuildRuntimeError) -> (r: BuildError)
    ensures
        r.msg@ == spec_step_failure_msg(step_name@, bre.msg@),
{
    let msg = "Failed to run step [".to_owned();
    let msg = msg.concat(step_name.as_str());
    let msg = msg.concat("]: ");
    let msg = msg.concat(bre.message().as_str());
    proof {
        assert(msg@ =~= spec_step_failure_msg(step_name@, bre.msg@));
    }
    BuildError { msg }
}

fn build_project_error(bre: BuildRuntimeError) -> (r: BuildError)
    ensures
        r.msg@ == spec_build_failure_msg(bre.msg@),
{
    let msg = "Failed to build project: ".to_owned();
    let msg = msg.concat(bre.message().as_str());
    proof {
        assert(msg@ =~= spec_build_failure_msg(bre.msg@));
    }
    BuildError { msg }
}

// ---------------------------------------------------------------------------
// Step execution
// ---------------------------------------------------------------------------
/// Runs one step: resolves its agent (explicit reference first, else the
/// module default, else an error before any runtime call), creates the agent,
/// runs the command, fetches the declared archives in order, and destroys the
/// agent.  A command failure is reported only after the archives have been
/// fetched and the agent destroyed.
pub fn run_step<R: BuildRuntime, F: OutputFormatter>(
    step: &Step,
    module_name: &String,
    agent_config: &BuildAgentConfig,
    runtime: &mut R,
    output_formatter: &F,
) -> (r: Result<(), BuildError>)
    requires
        config_well_formed(agent_config@),
    ensures
        old(runtime).log().is_prefix_of(final(runtime).log()),
        ({
            let calls = final(runtime).log().skip(old(runtime).log().len() as int);
            &&& (resolve_step_agent(agent_config@, step@) is None ==> (r is Err && calls
                == Seq::<RuntimeCall>::empty()))
            &&& (step@.agent matches Some(a) ==> (lookup_agent(agent_config@.agents, a) is None
                ==> (r matches Err(e) && e.msg@ == spec_missing_agent_msg(step@.name, a))))
            &&& (step@.agent is None && agent_config@.default_agent is None ==> (r matches Err(e)
                && e.msg@ == spec_no_agent_msg(step@.name)))
            &&& (resolve_step_agent(agent_config@, step@) matches Some(a)
                ==> is_partial_step_calls(module_name@, step@, a, calls))
            &&& (r is Ok ==> resolve_step_agent(agent_config@, step@) is Some && exists|
                id: Seq<char>,
            |
                calls == full_step_calls(
                    module_name@,
                    step@,
                    resolve_step_agent(agent_config@, step@)->0,
                    id,
                ))
        }),
        ({
            let calls = final(runtime).log().skip(old(runtime).log().len() as int);
            let outs = final(runtime).outcomes().skip(old(runtime).outcomes().len() as int);
            &&& old(runtime).outcomes().is_prefix_of(final(runtime).outcomes())
            &&& outs.len() == calls.len()
            &&& (r is Ok ==> all_succeeded(outs))
            &&& (r is Err ==> resolve_step_agent(agent_config@, step@) is None || !all_succeeded(
                outs,
            ))
            &&& (r matches Err(e) ==> ({
                ||| exists|m: Seq<char>| e.msg@ == spec_step_failure_msg(step@.name, m)
                ||| (step@.agent matches Some(a) && e.msg@ == spec_missing_agent_msg(step@.name, a))
                ||| (step@.agent is None && e.msg@ == spec_no_agent_msg(step@.name))
            }))
        }),
{
    let ghost old_log = runtime.log();
    let ghost old_out = runtime.outcomes();
    let agent: &Agent = match step.agent {
        Some(ref agent_name) => {
            match find_agent(&agent_config.agents, agent_name) {
                Some(a) => a,
                None => {
                    let msg = "Step [".to_owned();
                    let msg = msg.concat(step.name.as_str());
                    let msg = msg.concat("] attempting to use agent [");
                    let msg = msg.concat(agent_name.as_str());
                    let msg = msg.concat("] which isn't defined");
                    proof {
                        assert(msg@ =~= spec_missing_agent_msg(step@.name, agent_name@));
                        assert(runtime.log().skip(old_log.len() as int)
                            =~= Seq::<RuntimeCall>::empty());
                        assert(runtime.outcomes().skip(old_out.len() as int)
                            =~= Seq::<bool>::empty());
                    }
                    return Err(BuildError { msg });
                },
            }
        },
        None => {
            match agent_config.default_agent {
                Some(ref default_name) => {
                    match find_agent(&agent_config.agents, default_name) {
                        Some(a) => a,
                        None => {
                            // A well-formed registry's default name always
                            // resolves, so this branch cannot be reached.
                            proof {
                                assert(false);
                            }
                            unreached()
                        },
                    }
                },
                None => {
                    let msg = "Step [".to_owned();
                    let msg = msg.concat(step.name.as_str());
                    let msg = msg.concat("] doesn't specify an agent and there is no default agent");
                    proof {
                        assert(msg@ =~= spec_no_agent_msg(step@.name));
                        assert(runtime.log().skip(old_log.len() as int)
                            =~= Seq::<RuntimeCall>::empty());
                        assert(runtime.outcomes().skip(old_out.len() as int)
                            =~= Seq::<bool>::empty());
                    }
                    return Err(BuildError { msg });
                },
            }
        },
    };
    let ghost agent_view = resolve_step_agent(agent_config@, step@)->0;
    assert(agent@ == agent_view);
    let agent_id = match runtime.create_agent(module_name, agent, Some(step)) {
        Ok(id) => id,
        Err(e) => {
            proof {
                assert(runtime.log().skip(old_log.len() as int) =~= seq![
                    RuntimeCall::CreateAgent { module: module_name@, agent: agent_view.name },
                ]);
                assert(runtime.outcomes().skip(old_out.len() as int) =~= seq![false]);
                assert(!runtime.outcomes().skip(old_out.len() as int)[0]);
            }
            return Err(run_step_error(&step.name, e));
        },
    };
    let shell_default = ShellConfig { executable: "/bin/sh".to_owned() };
    let shell_config = match step.shell {
        Some(ref s) => s,
        None => &shell_default,
    };
    let command_result = runtime.execute_command(agent_id.as_str(), shell_config, step.command.as_str());
    let ghost two_calls = seq![
        RuntimeCall::CreateAgent { module: module_name@, agent: agent_view.name },
        RuntimeCall::ExecuteCommand { agent_id: agent_id@, command: step@.command },
    ];
    let ghost two_outs = seq![true, command_result is Ok];
    proof {
        assert(runtime.log() =~= old_log + two_calls);
        assert(runtime.outcomes() =~= old_out + two_outs);
    }
    match step.archives {
        Some(ref archives) => {
            let ghost fetches = archive_calls(step@, agent_id@);
            let mut i: usize = 0;
            proof {
                assert(runtime.log() =~= old_log + two_calls + fetches.take(0));
                assert(Seq::new(0, |k: int| true) =~= Seq::<bool>::empty());
                assert(runtime.outcomes() =~= old_out + two_outs + Seq::new(0, |k: int| true));
            }
            while i < archives.len()
                invariant
                    0 <= i <= archives@.len(),
                    fetches.len() == archives@.len(),
                    runtime.log() == old_log + two_calls + fetches.take(i as int),
                    runtime.outcomes() == old_out + two_outs + Seq::new(i as nat, |k: int| true),
                decreases archives@.len() - i,
            {
                let msg = "Getting archive: ".to_owned();
                let msg = msg.concat(archives[i].name.as_str());
                output_formatter.print(msg);
                let ghost log_before = runtime.log();
                match runtime.get_archive(agent_id.as_str(), &archives[i]) {
                    Ok(_) => {
                        proof {
                            assert(fetches[i as int] == (RuntimeCall::GetArchive {
                                agent_id: agent_id@,
                                archive: archives@[i as int].name@,
                            }));
                            assert(fetches.take(i + 1) =~= fetches.take(i as int).push(
                                fetches[i as int],
                            ));
                            assert(runtime.log() =~= old_log + two_calls + fetches.take(i + 1));
                            assert(Seq::new((i + 1) as nat, |k: int| true) =~= Seq::new(
                                i as nat,
                                |k: int| true,
                            ).push(true));
                            assert(runtime.outcomes() =~= old_out + two_outs + Seq::new(
                                (i + 1) as nat,
                                |k: int| true,
                            ));
                        }
                    },
                    Err(e) => {
                        proof {
                            assert(fetches[i as int] == (RuntimeCall::GetArchive {
                                agent_id: agent_id@,
                                archive: archives@[i as int].name@,
                            }));
                            assert(fetches.take(i + 1) =~= fetches.take(i as int).push(
                                fetches[i as int],
                            ));
                            assert(runtime.log().skip(old_log.len() as int) =~= two_calls
                                + fetches.take(i + 1));
                            let outs = runtime.outcomes().skip(old_out.len() as int);
                            assert(outs =~= two_outs + Seq::new(i as nat, |k: int| true) + seq![
                                false,
                            ]);
                            assert(!outs[outs.len() - 1]);
                        }
                        return Err(run_step_error(&step.name, e));
                    },
                }
                i = i + 1;
            }
            proof {
                assert(fetches.take(archives@.len() as int) =~= fetches);
            }
        },
        None => {},
    }
    let ghost pre_destroy_out = runtime.outcomes();
    proof {
        assert(runtime.log() =~= old_log + two_calls + archive_calls(step@, agent_id@));
        let pre = pre_destroy_out.skip(old_out.len() as int);
        assert(pre_destroy_out =~= old_out + pre);
        assert(pre[0] && pre[1] == (command_result is Ok));
        assert(command_result is Ok ==> all_succeeded(pre));
    }
    match runtime.destroy_agent(agent_id.as_str()) {
        Ok(_) => {},
        Err(e) => {
            proof {
                assert(runtime.log().skip(old_log.len() as int) =~= full_step_calls(
                    module_name@,
                    step@,
                    agent_view,
                    agent_id@,
                ));
                let outs = runtime.outcomes().skip(old_out.len() as int);
                assert(outs =~= pre_destroy_out.skip(old_out.len() as int) + seq![false]);
                assert(!outs[outs.len() - 1]);
            }
            return Err(run_step_error(&step.name, e));
        },
    }
    proof {
        assert(runtime.log().skip(old_log.len() as int) =~= full_step_calls(
            module_name@,
            step@,
            agent_view,
            agent_id@,
        ));
        let pre = pre_destroy_out.skip(old_out.len() as int);
        let outs = runtime.outcomes().skip(old_out.len() as int);
        assert(outs =~= pre + seq![true]);
        if command_result is Ok {
            lemma_all_succeeded_add(pre, seq![true]);
        } else {
            assert(!outs[1]);
        }
    }
    match command_result {
        Ok(_) => Ok(()),
        Err(e) => Err(run_step_error(&step.name, e)),
    }
}

// ---------------------------------------------------------------------------
// Module execution
// ---------------------------------------------------------------------------
/// Appending one more fully-executed step extends the steps trace at its end.
proof fn lemma_steps_calls_range_snoc(
    mname: Seq<char>,
    cfg: BuildAgentConfigView,
    steps: Seq<StepView>,
    j: int,
    ids: Seq<Seq<char>>,
    id: Seq<char>,
)
    requires
        0 <= j,
        j + ids.len() < steps.len(),
        resolve_step_agent(cfg, steps[j + ids.len()]) is Some,
    ensures
        steps_calls_range(mname, cfg, steps, j, ids.push(id)) == steps_calls_range(
            mname,
            cfg,
            steps,
            j,
            ids,
        ) + full_step_calls(
            mname,
            steps[j + ids.len()],
            resolve_step_agent(cfg, steps[j + ids.len()])->0,
            id,
        ),
    decreases ids.len(),
{
    let pushed = ids.push(id);
    if ids.len() == 0 {
        assert(pushed.first() == id);
        assert(pushed.drop_first() =~= Seq::<Seq<char>>::empty());
        assert(steps_calls_range(mname, cfg, steps, j + 1, pushed.drop_first())
            =~= Seq::<RuntimeCall>::empty());
        assert(steps_calls_range(mname, cfg, steps, j, ids) =~= Seq::<RuntimeCall>::empty());
        assert(steps_calls_range(mname, cfg, steps, j, pushed) =~= full_step_calls(
            mname,
            steps[j],
            resolve_step_agent(cfg, steps[j])->0,
            id,
        ));
    } else {
        assert(pushed.first() == ids.first());
        assert(pushed.drop_first() =~= ids.drop_first().push(id));
        lemma_steps_calls_range_snoc(mname, cfg, steps, j + 1, ids.drop_first(), id);
        assert(steps_calls_range(mname, cfg, steps, j, pushed) =~= steps_calls_range(
            mname,
            cfg,
            steps,
            j,
            ids,
        ) + full_step_calls(
            mname,
            steps[j + ids.len()],
            resolve_step_agent(cfg, steps[j + ids.len()])->0,
            id,
        ));
    }
}

/// Runs a module's steps in declared order against an already-initialised
/// workspace.  The first failing step aborts the remaining steps; a module
/// without steps is refused before any runtime call.
pub fn build_module<R: BuildRuntime, F: OutputFormatter>(
    module: &Module,
    agent_config: &BuildAgentConfig,
    runtime: &mut R,
    output_formatter: &F,
) -> (r: Result<(), BuildError>)
    requires
        config_well_formed(agent_config@),
    ensures
        old(runtime).log().is_prefix_of(final(runtime).log()),
        ({
            let calls = final(runtime).log().skip(old(runtime).log().len() as int);
            &&& (module@.steps.len() == 0 ==> (r matches Err(e) && e.msg@
                == "No build steps provided."@ && calls == Seq::<RuntimeCall>::empty()))
            &&& (r is Ok ==> module@.steps.len() > 0 && is_complete_steps_trace(
                module@.name,
                agent_config@,
                module@.steps,
                calls,
            ))
            &&& (r is Err && module@.steps.len() > 0 ==> is_aborted_steps_trace(
                module@.name,
                agent_config@,
                module@.steps,
                calls,
            ))
        }),
        ({
            let calls = final(runtime).log().skip(old(runtime).log().len() as int);
            let outs = final(runtime).outcomes().skip(old(runtime).outcomes().len() as int);
            &&& old(runtime).outcomes().is_prefix_of(final(runtime).outcomes())
            &&& outs.len() == calls.len()
            &&& (r is Ok ==> all_succeeded(outs))
            &&& (r is Err ==> module@.steps.len() == 0 || (exists|j: int|
                0 <= j < module@.steps.len() && resolve_step_agent(
                    agent_config@,
                    #[trigger] module@.steps[j],
                ) is None) || !all_succeeded(outs))
            &&& (r matches Err(e) ==> ({
                ||| e.msg@ == "No build steps provided."@
                ||| exists|sn: Seq<char>, m: Seq<char>| e.msg@ == spec_step_failure_msg(sn, m)
                ||| exists|sn: Seq<char>, an: Seq<char>| e.msg@ == spec_missing_agent_msg(sn, an)
                ||| exists|sn: Seq<char>| e.msg@ == spec_no_agent_msg(sn)
            }))
        }),
{
    let ghost old_log = runtime.log();
    let ghost old_out = runtime.outcomes();
    if module.steps.len() == 0 {
        proof {
            assert(runtime.log().skip(old_log.len() as int) =~= Seq::<RuntimeCall>::empty());
            assert(runtime.outcomes().skip(old_out.len() as int) =~= Seq::<bool>::empty());
        }
        return Err(BuildError { msg: "No build steps provided.".to_owned() });
    }
    let ghost mut ids: Seq<Seq<char>> = Seq::empty();
    let mut i: usize = 0;
    proof {
        assert(steps_calls_range(module@.name, agent_config@, module@.steps, 0, ids)
            =~= Seq::<RuntimeCall>::empty());
        assert(runtime.log() =~= old_log + steps_calls_range(
            module@.name,
            agent_config@,
            module@.steps,
            0,
            ids,
        ));
    }
    while i < module.steps.len()
        invariant
            0 <= i <= module@.steps.len(),
            ids.len() == i,
            forall|k: int|
                0 <= k < i ==> resolve_step_agent(agent_config@, #[trigger] module@.steps[k])
                    is Some,
            runtime.log() == old_log + steps_calls_range(
                module@.name,
                agent_config@,
                module@.steps,
                0,
                ids,
            ),
            old_out.is_prefix_of(runtime.outcomes()),
            runtime.outcomes().len() - old_out.len() == runtime.log().len() - old_log.len(),
            all_succeeded(runtime.outcomes().skip(old_out.len() as int)),
        decreases module@.steps.len() - i,
    {
        let ghost log_before = runtime.log();
        let ghost out_before = runtime.outcomes();
        let step_result = run_step(
            &module.steps[i],
            &module.name,
            agent_config,
            runtime,
            output_formatter,
        );
        proof {
            assert(module.steps@[i as int]@ == module@.steps[i as int]);
        }
        match step_result {
            Ok(_) => {
                proof {
                    let done_outs = out_before.skip(old_out.len() as int);
                    let step_outs = runtime.outcomes().skip(out_before.len() as int);
                    assert(runtime.outcomes() =~= out_before + step_outs) by {
                        assert(out_before =~= runtime.outcomes().take(out_before.len() as int));
                        assert(runtime.outcomes() =~= runtime.outcomes().take(
                            out_before.len() as int,
                        ) + runtime.outcomes().skip(out_before.len() as int));
                    }
                    assert(runtime.outcomes().skip(old_out.len() as int) =~= done_outs + step_outs);
                    lemma_all_succeeded_add(done_outs, step_outs);
                    let step_calls = runtime.log().skip(log_before.len() as int);
                    let id = choose|id: Seq<char>|
                        step_calls == full_step_calls(
                            module@.name,
                            module@.steps[i as int],
                            resolve_step_agent(agent_config@, module@.steps[i as int])->0,
                            id,
                        );
                    lemma_steps_calls_range_snoc(
                        module@.name,
                        agent_config@,
                        module@.steps,
                        0,
                        ids,
                        id,
                    );
                    assert(runtime.log() =~= log_before + step_calls);
                    ids = ids.push(id);
                    assert(runtime.log() =~= old_log + steps_calls_range(
                        module@.name,
                        agent_config@,
                        module@.steps,
                        0,
                        ids,
                    ));
                }
                i = i + 1;
            },
            Err(e) => {
                proof {
                    let done_outs = out_before.skip(old_out.len() as int);
                    let step_outs = runtime.outcomes().skip(out_before.len() as int);
                    assert(runtime.outcomes() =~= out_before + step_outs) by {
                        assert(out_before =~= runtime.outcomes().take(out_before.len() as int));
                        assert(runtime.outcomes() =~= runtime.outcomes().take(
                            out_before.len() as int,
                        ) + runtime.outcomes().skip(out_before.len() as int));
                    }
                    assert(runtime.outcomes().skip(old_out.len() as int) =~= done_outs + step_outs);
                    lemma_all_succeeded_add(done_outs, step_outs);
                    if resolve_step_agent(agent_config@, module@.steps[i as int]) is None {
                        assert(exists|j: int|
                            0 <= j < module@.steps.len() && resolve_step_agent(
                                agent_config@,
                                #[trigger] module@.steps[j],
                            ) is None);
                    }
                    let tail = runtime.log().skip(log_before.len() as int);
                    assert(runtime.log() =~= log_before + tail) by {
                        assert(log_before =~= runtime.log().take(log_before.len() as int));
                        assert(runtime.log() =~= runtime.log().take(log_before.len() as int)
                            + runtime.log().skip(log_before.len() as int));
                    }
                    assert(runtime.log().skip(old_log.len() as int) =~= steps_calls_range(
                        module@.name,
                        agent_config@,
                        module@.steps,
                        0,
                        ids,
                    ) + tail);
                    assert(is_aborted_steps_trace(
                        module@.name,
                        agent_config@,
                        module@.steps,
                        runtime.log().skip(old_log.len() as int),
                    )) by {
                        let j = i as int;
                        let whole = runtime.log().skip(old_log.len() as int);
                        assert(0 <= j < module@.steps.len() && ids.len() == j && (forall|k: int|
                            0 <= k < j ==> resolve_step_agent(
                                agent_config@,
                                #[trigger] module@.steps[k],
                            ) is Some) && whole == steps_calls_range(
                            module@.name,
                            agent_config@,
                            module@.steps,
                            0,
                            ids,
                        ) + tail && match resolve_step_agent(
                            agent_config@,
                            module@.steps[j],
                        ) {
                            None => tail == Seq::<RuntimeCall>::empty(),
                            Some(a) => is_partial_step_calls(
                                module@.name,
                                module@.steps[j],
                                a,
                                tail,
                            ),
                        });
                    }
                }
                return Err(e);
            },
        }
    }
    proof {
        assert(runtime.log().skip(old_log.len() as int) =~= steps_calls_range(
            module@.name,
            agent_config@,
            module@.steps,
            0,
            ids,
        ));
    }
    Ok(())
}

/// What can stand between a module's `Init` and `TearDown` calls: nothing for
/// a module without steps, a complete steps trace, or an aborted one.
pub open spec fn is_module_body_trace(m: ModuleView, mid: Seq<RuntimeCall>) -> bool {
    ||| (m.steps.len() == 0 && mid == Seq::<RuntimeCall>::empty())
    ||| is_complete_steps_trace(m.name, spec_module_config(m), m.steps, mid)
    ||| is_aborted_steps_trace(m.name, spec_module_config(m), m.steps, mid)
}

/// The calls of a module whose build succeeded: one `Init` first, every step
/// complete and in order, one `TearDown` last.
pub open spec fn is_successful_module_trace(m: ModuleView, calls: Seq<RuntimeCall>) -> bool {
    &&& module_config_ok(m)
    &&& m.steps.len() > 0
    &&& calls.len() >= 2
    &&& calls[0] == init_call(m.name)
    &&& calls.last() == teardown_call(m.name)
    &&& is_complete_steps_trace(
        m.name,
        spec_module_config(m),
        m.steps,
        calls.subrange(1, calls.len() - 1),
    )
}

/// The calls of a module whose build failed: nothing at all when its agent
/// configuration was refused, only the `Init` when initialisation failed, and
/// otherwise `Init`, a (possibly aborted) steps trace, and the `TearDown`,
/// which is never skipped once initialisation has succeeded.
pub open spec fn is_failing_module_trace(m: ModuleView, calls: Seq<RuntimeCall>) -> bool {
    ||| (!module_config_ok(m) && calls == Seq::<RuntimeCall>::empty())
    ||| calls == seq![init_call(m.name)]
    ||| (calls.len() >= 2 && calls[0] == init_call(m.name) && calls.last() == teardown_call(m.name)
        && is_module_body_trace(m, calls.subrange(1, calls.len() - 1)))
}

/// Builds one module: resolves its agent registry (refusing a module with
/// more than one default agent before any runtime call), initialises its
/// workspace, runs its steps, and always tears the workspace down afterwards
/// — whether the steps succeeded or not — provided initialisation succeeded.
/// A teardown failure replaces the step failure as the reported outcome.
pub fn execute_module<R: BuildRuntime, F: OutputFormatter>(
    module: &Module,
    project_config: &ProjectConfig,
    runtime: &mut R,
    output_formatter: &F,
) -> (r: Result<(), BuildError>)
    ensures
        old(runtime).log().is_prefix_of(final(runtime).log()),
        ({
            let calls = final(runtime).log().skip(old(runtime).log().len() as int);
            &&& (!module_config_ok(module@) ==> (r matches Err(e) && e.msg@
                == spec_configure_failure_msg(spec_multiple_defaults_msg()) && calls
                == Seq::<RuntimeCall>::empty()))
            &&& (r is Ok ==> is_successful_module_trace(module@, calls))
            &&& (module_config_ok(module@) ==> ({
                ||| (r is Err && calls == seq![init_call(module@.name)])
                ||| (calls.len() >= 2 && calls[0] == init_call(module@.name) && calls.last()
                    == teardown_call(module@.name) && is_module_body_trace(
                    module@,
                    calls.subrange(1, calls.len() - 1),
                ))
            }))
        }),
        ({
            let calls = final(runtime).log().skip(old(runtime).log().len() as int);
            let outs = final(runtime).outcomes().skip(old(runtime).outcomes().len() as int);
            &&& old(runtime).outcomes().is_prefix_of(final(runtime).outcomes())
            &&& outs.len() == calls.len()
            &&& (r is Ok ==> all_succeeded(outs))
            &&& (r is Err ==> !module_config_ok(module@) || module@.steps.len() == 0 || (exists|
                j: int,
            |
                0 <= j < module@.steps.len() && resolve_step_agent(
                    spec_module_config(module@),
                    #[trigger] module@.steps[j],
                ) is None) || !all_succeeded(outs))
            &&& (module_config_ok(module@) && calls == seq![init_call(module@.name)] ==> (r matches
                Err(e) && exists|m: Seq<char>| e.msg@ == spec_build_failure_msg(m)))
            &&& (calls.len() >= 1 && calls.last() == teardown_call(module@.name) && !outs[outs.len()
                - 1] ==> (r matches Err(e) && exists|m: Seq<char>| e.msg@ == spec_build_failure_msg(
                m,
            )))
            &&& (r matches Err(e) ==> ({
                ||| e.msg@ == spec_configure_failure_msg(spec_multiple_defaults_msg())
                ||| exists|m: Seq<char>| e.msg@ == spec_build_failure_msg(m)
                ||| e.msg@ == "No build steps provided."@
                ||| exists|sn: Seq<char>, m: Seq<char>| e.msg@ == spec_step_failure_msg(sn, m)
                ||| exists|sn: Seq<char>, an: Seq<char>| e.msg@ == spec_missing_agent_msg(sn, an)
                ||| exists|sn: Seq<char>| e.msg@ == spec_no_agent_msg(sn)
            }))
        }),
{
    let ghost old_log = runtime.log();
    let ghost old_out = runtime.outcomes();
    let msg = "Building module: ".to_owned();
    let msg = msg.concat(module.name.as_str());
    output_formatter.print(msg);
    let agent_config = match configure_agents(module) {
        Ok(c) => c,
        Err(e) => {
            let msg = "Error configuring agents: ".to_owned();
            let msg = msg.concat(e);
            proof {
                assert(msg@ =~= spec_configure_failure_msg(spec_multiple_defaults_msg()));
                assert(runtime.log().skip(old_log.len() as int) =~= Seq::<RuntimeCall>::empty());
                assert(runtime.outcomes().skip(old_out.len() as int) =~= Seq::<bool>::empty());
            }
            return Err(BuildError { msg });
        },
    };
    output_formatter.print("Starting module build initialisation".to_owned());
    match runtime.init_for_module(&module.name, project_config) {
        Ok(_) => {},
        Err(e) => {
            proof {
                assert(runtime.log().skip(old_log.len() as int) =~= seq![init_call(module@.name)]);
                assert(runtime.outcomes().skip(old_out.len() as int) =~= seq![false]);
                assert(!runtime.outcomes().skip(old_out.len() as int)[0]);
            }
            return Err(build_project_error(e));
        },
    }
    output_formatter.print("Module build initialised, ready to run steps".to_owned());
    let ghost log_after_init = runtime.log();
    let ghost out_after_init = runtime.outcomes();
    let module_build_result = build_module(module, &agent_config, runtime, output_formatter);
    output_formatter.print("Cleaning up".to_owned());
    let ghost log_after_steps = runtime.log();
    let ghost out_after_steps = runtime.outcomes();
    let ghost mid = log_after_steps.skip(log_after_init.len() as int);
    let ghost mid_outs = out_after_steps.skip(out_after_init.len() as int);
    let teardown_result = runtime.tear_down_for_module(&module.name);
    proof {
        assert(out_after_steps =~= out_after_init + mid_outs) by {
            assert(out_after_init =~= out_after_steps.take(out_after_init.len() as int));
            assert(out_after_steps =~= out_after_steps.take(out_after_init.len() as int)
                + out_after_steps.skip(out_after_init.len() as int));
        }
        let outs = runtime.outcomes().skip(old_out.len() as int);
        assert(outs =~= seq![true] + mid_outs + seq![teardown_result is Ok]);
        assert(outs[0]);
        assert(outs[outs.len() - 1] == (teardown_result is Ok));
        lemma_all_succeeded_add(seq![true] + mid_outs, seq![teardown_result is Ok]);
        lemma_all_succeeded_add(seq![true], mid_outs);
        assert(log_after_steps =~= log_after_init + mid) by {
            assert(log_after_init =~= log_after_steps.take(log_after_init.len() as int));
            assert(log_after_steps =~= log_after_steps.take(log_after_init.len() as int)
                + log_after_steps.skip(log_after_init.len() as int));
        }
        let calls = runtime.log().skip(old_log.len() as int);
        assert(calls =~= seq![init_call(module@.name)] + mid + seq![teardown_call(module@.name)]);
        assert(calls.subrange(1, calls.len() - 1) =~= mid);
        assert(calls[0] == init_call(module@.name));
        assert(calls.last() == teardown_call(module@.name));
        assert(agent_config@ == spec_module_config(module@));
        if module_build_result is Ok {
            assert(is_complete_steps_trace(
                module@.name,
                spec_module_config(module@),
                module@.steps,
                mid,
            ));
        } else if module@.steps.len() == 0 {
            assert(mid == Seq::<RuntimeCall>::empty());
        } else {
            assert(is_aborted_steps_trace(
                module@.name,
                spec_module_config(module@),
                module@.steps,
                mid,
            ));
        }
    }
    match teardown_result {
        Ok(_) => {},
        Err(e) => {
            return Err(build_project_error(e));
        },
    }
    module_build_result
}


// ---------------------------------------------------------------------------
// Whole-run execution
// ---------------------------------------------------------------------------
/// The calls of a run whose modules all built: each module's successful trace
/// in declared order, and module N's teardown complete before module N+1's
/// initialisation begins.
pub open spec fn is_successful_run_trace(modules: Seq<ModuleView>, calls: Seq<RuntimeCall>) -> bool
    decreases modules.len(),
{
    if modules.len() == 0 {
        calls == Seq::<RuntimeCall>::empty()
    } else {
        exists|split: int|
            0 <= split <= calls.len() && is_successful_module_trace(
                modules[0],
                #[trigger] calls.take(split),
            ) && is_successful_run_trace(modules.drop_first(), calls.skip(split))
    }
}

/// A successful run trace extends, at its end, by one more successful module.
proof fn lemma_run_trace_snoc(
    modules: Seq<ModuleView>,
    m: ModuleView,
    c1: Seq<RuntimeCall>,
    c2: Seq<RuntimeCall>,
)
    requires
        is_successful_run_trace(modules, c1),
        is_successful_module_trace(m, c2),
    ensures
        is_successful_run_trace(modules.push(m), c1 + c2),
    decreases modules.len(),
{
    let whole = c1 + c2;
    if modules.len() == 0 {
        assert(whole.take(whole.len() as int) =~= c2);
        assert(whole.skip(whole.len() as int) =~= Seq::<RuntimeCall>::empty());
        assert(modules.push(m).drop_first() =~= Seq::<ModuleView>::empty());
        assert(modules.push(m)[0] == m);
        assert(is_successful_run_trace(modules.push(m), whole)) by {
            let split = whole.len() as int;
            assert(is_successful_module_trace(modules.push(m)[0], whole.take(split)));
            assert(is_successful_run_trace(modules.push(m).drop_first(), whole.skip(split)));
        }
    } else {
        let split = choose|split: int|
            0 <= split <= c1.len() && is_successful_module_trace(
                modules[0],
                #[trigger] c1.take(split),
            ) && is_successful_run_trace(modules.drop_first(), c1.skip(split));
        lemma_run_trace_snoc(modules.drop_first(), m, c1.skip(split), c2);
        assert(modules.push(m).drop_first() =~= modules.drop_first().push(m));
        assert(whole.take(split) =~= c1.take(split));
        assert(whole.skip(split) =~= c1.skip(split) + c2);
        assert(modules.push(m)[0] == modules[0]);
        assert(is_successful_run_trace(modules.push(m), whole)) by {
            assert(is_successful_module_trace(modules.push(m)[0], whole.take(split)));
            assert(is_successful_run_trace(modules.push(m).drop_first(), whole.skip(split)));
        }
    }
}

/// Builds every module of the project in declared order.  The run stops at
/// the first module whose build fails, after that module's teardown has been
/// attempted; it succeeds only if every module's steps all succeeded.
pub fn build_project_with_config<R: BuildRuntime, F: OutputFormatter>(
    project_config: &ProjectConfig,
    runtime: &mut R,
    output_formatter: &F,
) -> (r: Result<(), BuildError>)
    ensures
        old(runtime).log().is_prefix_of(final(runtime).log()),
        ({
            let calls = final(runtime).log().skip(old(runtime).log().len() as int);
            let modules = project_config@.build_config.modules;
            &&& (r is Ok ==> is_successful_run_trace(modules, calls))
            &&& (r is Err ==> exists|k: int, split: int|
                0 <= k < modules.len() && 0 <= split <= calls.len() && is_successful_run_trace(
                    modules.take(k),
                    #[trigger] calls.take(split),
                ) && is_failing_module_trace(#[trigger] modules[k], calls.skip(split)))
        }),
        ({
            let calls = final(runtime).log().skip(old(runtime).log().len() as int);
            let outs = final(runtime).outcomes().skip(old(runtime).outcomes().len() as int);
            let modules = project_config@.build_config.modules;
            &&& old(runtime).outcomes().is_prefix_of(final(runtime).outcomes())
            &&& outs.len() == calls.len()
            &&& (r is Ok ==> all_succeeded(outs))
            &&& (r is Err ==> (exists|k: int|
                0 <= k < modules.len() && (!module_config_ok(#[trigger] modules[k])
                    || modules[k].steps.len() == 0 || (exists|j: int|
                    0 <= j < modules[k].steps.len() && resolve_step_agent(
                        spec_module_config(modules[k]),
                        #[trigger] modules[k].steps[j],
                    ) is None))) || !all_succeeded(outs))
            &&& (r matches Err(e) ==> ({
                ||| e.msg@ == spec_configure_failure_msg(spec_multiple_defaults_msg())
                ||| exists|m: Seq<char>| e.msg@ == spec_build_failure_msg(m)
                ||| e.msg@ == "No build steps provided."@
                ||| exists|sn: Seq<char>, m: Seq<char>| e.msg@ == spec_step_failure_msg(sn, m)
                ||| exists|sn: Seq<char>, an: Seq<char>| e.msg@ == spec_missing_agent_msg(sn, an)
                ||| exists|sn: Seq<char>| e.msg@ == spec_no_agent_msg(sn)
            }))
        }),
{
    let ghost old_log = runtime.log();
    let ghost old_out = runtime.outcomes();
    let ghost modules_view = project_config@.build_config.modules;
    let mut i: usize = 0;
    proof {
        assert(runtime.log().skip(old_log.len() as int) =~= Seq::<RuntimeCall>::empty());
        assert(runtime.outcomes().skip(old_out.len() as int) =~= Seq::<bool>::empty());
        assert(modules_view.take(0) =~= Seq::<ModuleView>::empty());
    }
    while i < project_config.build_config.modules.len()
        invariant
            0 <= i <= modules_view.len(),
            modules_view == project_config@.build_config.modules,
            old_log.is_prefix_of(runtime.log()),
            is_successful_run_trace(
                modules_view.take(i as int),
                runtime.log().skip(old_log.len() as int),
            ),
            old_out.is_prefix_of(runtime.outcomes()),
            runtime.outcomes().len() - old_out.len() == runtime.log().len() - old_log.len(),
            all_succeeded(runtime.outcomes().skip(old_out.len() as int)),
        decreases modules_view.len() - i,
    {
        let ghost log_before = runtime.log();
        let ghost out_before = runtime.outcomes();
        let ghost done = log_before.skip(old_log.len() as int);
        let module_result = execute_module(
            &project_config.build_config.modules[i],
            project_config,
            runtime,
            output_formatter,
        );
        proof {
            assert(project_config.build_config.modules@[i as int]@ == modules_view[i as int]);
            let done_outs = out_before.skip(old_out.len() as int);
            let module_outs = runtime.outcomes().skip(out_before.len() as int);
            assert(runtime.outcomes() =~= out_before + module_outs) by {
                assert(out_before =~= runtime.outcomes().take(out_before.len() as int));
                assert(runtime.outcomes() =~= runtime.outcomes().take(out_before.len() as int)
                    + runtime.outcomes().skip(out_before.len() as int));
            }
            assert(runtime.outcomes().skip(old_out.len() as int) =~= done_outs + module_outs);
            lemma_all_succeeded_add(done_outs, module_outs);
            let tail = runtime.log().skip(log_before.len() as int);
            assert(runtime.log() =~= log_before + tail) by {
                assert(log_before =~= runtime.log().take(log_before.len() as int));
                assert(runtime.log() =~= runtime.log().take(log_before.len() as int)
                    + runtime.log().skip(log_before.len() as int));
            }
            assert(runtime.log().skip(old_log.len() as int) =~= done + tail);
        }
        match module_result {
            Ok(_) => {
                proof {
                    let tail = runtime.log().skip(log_before.len() as int);
                    lemma_run_trace_snoc(
                        modules_view.take(i as int),
                        modules_view[i as int],
                        done,
                        tail,
                    );
                    assert(modules_view.take(i as int).push(modules_view[i as int])
                        =~= modules_view.take(i + 1));
                }
                i = i + 1;
            },
            Err(e) => {
                proof {
                    let calls = runtime.log().skip(old_log.len() as int);
                    let tail = runtime.log().skip(log_before.len() as int);
                    let k = i as int;
                    let split = done.len() as int;
                    assert(calls.take(split) =~= done);
                    assert(calls.skip(split) =~= tail);
                    assert(is_failing_module_trace(modules_view[k], calls.skip(split))) by {
                        if module_config_ok(modules_view[k]) {
                        } else {
                        }
                    }
                    assert(0 <= k < modules_view.len() && 0 <= split <= calls.len()
                        && is_successful_run_trace(modules_view.take(k), calls.take(split))
                        && is_failing_module_trace(modules_view[k], calls.skip(split)));
                }
                return Err(e);
            },
        }
    }
    proof {
        assert(modules_view.take(modules_view.len() as int) =~= modules_view);
    }
    Ok(())
}

// ---------------------------------------------------------------------------
// Lifecycle laws over the call traces
// ---------------------------------------------------------------------------
/// How many workspace-initialisation calls a trace holds.
pub open spec fn count_init_calls(calls: Seq<RuntimeCall>) -> nat
    decreases calls.len(),
{
    if calls.len() == 0 {
        0
    } else {
        (if calls.first() is Init {
            1nat
        } else {
            0nat
        }) + count_init_calls(calls.drop_first())
    }
}

/// How many workspace-teardown calls a trace holds.
pub open spec fn count_teardown_calls(calls: Seq<RuntimeCall>) -> nat
    decreases calls.len(),
{
    if calls.len() == 0 {
        0
    } else {
        (if calls.first() is TearDown {
            1nat
        } else {
            0nat
        }) + count_teardown_calls(calls.drop_first())
    }
}

/// How many agent-create calls a trace holds.
pub open spec fn count_create_calls(calls: Seq<RuntimeCall>) -> nat
    decreases calls.len(),
{
    if calls.len() == 0 {
        0
    } else {
        (if calls.first() is CreateAgent {
            1nat
        } else {
            0nat
        }) + count_create_calls(calls.drop_first())
    }
}

/// The three counters distribute over concatenation.
proof fn lemma_counts_add(a: Seq<RuntimeCall>, b: Seq<RuntimeCall>)
    ensures
        count_init_calls(a + b) == count_init_calls(a) + count_init_calls(b),
        count_teardown_calls(a + b) == count_teardown_calls(a) + count_teardown_calls(b),
        count_create_calls(a + b) == count_create_calls(a) + count_create_calls(b),
    decreases a.len(),
{
    if a.len() == 0 {
        assert(a + b =~= b);
    } else {
        assert((a + b).drop_first() =~= a.drop_first() + b);
        assert((a + b).first() == a.first());
        lemma_counts_add(a.drop_first(), b);
    }
}


/// The three counters on the empty trace.
proof fn lemma_counts_empty()
    ensures
        count_init_calls(Seq::<RuntimeCall>::empty()) == 0,
        count_teardown_calls(Seq::<RuntimeCall>::empty()) == 0,
        count_create_calls(Seq::<RuntimeCall>::empty()) == 0,
{
}

/// The three counters on a one-call trace.
proof fn lemma_counts_singleton(c: RuntimeCall)
    ensures
        count_init_calls(seq![c]) == (if c is Init { 1nat } else { 0nat }),
        count_teardown_calls(seq![c]) == (if c is TearDown { 1nat } else { 0nat }),
        count_create_calls(seq![c]) == (if c is CreateAgent { 1nat } else { 0nat }),
{
    assert(seq![c].drop_first() =~= Seq::<RuntimeCall>::empty());
    lemma_counts_empty();
    assert(seq![c].first() == c);
}

/// The three counters on a two-call trace.
proof fn lemma_counts_pair(a: RuntimeCall, b: RuntimeCall)
    ensures
        count_init_calls(seq![a, b]) == count_init_calls(seq![a]) + count_init_calls(seq![b]),
        count_teardown_calls(seq![a, b]) == count_teardown_calls(seq![a]) + count_teardown_calls(
            seq![b],
        ),
        count_create_calls(seq![a, b]) == count_create_calls(seq![a]) + count_create_calls(
            seq![b],
        ),
{
    assert(seq![a, b] =~= seq![a] + seq![b]);
    lemma_counts_add(seq![a], seq![b]);
}

/// A trace of step-level calls holds no initialisation and no teardown, and
/// as many creates as its entries say.
proof fn lemma_counts_pointwise(calls: Seq<RuntimeCall>)
    requires
        forall|i: int|
            0 <= i < calls.len() ==> !((#[trigger] calls[i]) is Init) && !(calls[i] is TearDown),
    ensures
        count_init_calls(calls) == 0,
        count_teardown_calls(calls) == 0,
    decreases calls.len(),
{
    if calls.len() > 0 {
        assert(calls[0] == calls.first());
        assert(forall|i: int|
            0 <= i < calls.drop_first().len() ==> calls.drop_first()[i] == calls[i + 1]);
        lemma_counts_pointwise(calls.drop_first());
    }
}

/// A trace without agent creates counts none.
proof fn lemma_no_creates(calls: Seq<RuntimeCall>)
    requires
        forall|i: int| 0 <= i < calls.len() ==> !((#[trigger] calls[i]) is CreateAgent),
    ensures
        count_create_calls(calls) == 0,
    decreases calls.len(),
{
    if calls.len() > 0 {
        assert(calls[0] == calls.first());
        assert(forall|i: int|
            0 <= i < calls.drop_first().len() ==> calls.drop_first()[i] == calls[i + 1]);
        lemma_no_creates(calls.drop_first());
    }
}

/// One full step trace: no initialisation or teardown anywhere in it, and
/// exactly one agent create.
proof fn lemma_full_step_facts(module: Seq<char>, step: StepView, agent: AgentView, id: Seq<char>)
    ensures
        ({
            let calls = full_step_calls(module, step, agent, id);
            &&& (forall|i: int|
                0 <= i < calls.len() ==> !((#[trigger] calls[i]) is Init) && !(calls[i] is TearDown))
            &&& count_create_calls(calls) == 1
        }),
{
    let head = seq![
        RuntimeCall::CreateAgent { module, agent: agent.name },
        RuntimeCall::ExecuteCommand { agent_id: id, command: step.command },
    ];
    let fetches = archive_calls(step, id);
    let tail = seq![RuntimeCall::DestroyAgent { agent_id: id }];
    let calls = full_step_calls(module, step, agent, id);
    assert(calls == head + fetches + tail);
    lemma_counts_add(head + fetches, tail);
    lemma_counts_add(head, fetches);
    lemma_counts_pair(
        RuntimeCall::CreateAgent { module, agent: agent.name },
        RuntimeCall::ExecuteCommand { agent_id: id, command: step.command },
    );
    lemma_counts_singleton(RuntimeCall::CreateAgent { module, agent: agent.name });
    lemma_counts_singleton(RuntimeCall::ExecuteCommand { agent_id: id, command: step.command });
    assert(forall|i: int| 0 <= i < fetches.len() ==> !((#[trigger] fetches[i]) is CreateAgent));
    lemma_no_creates(fetches);
    lemma_counts_singleton(RuntimeCall::DestroyAgent { agent_id: id });
}

/// A range of full step traces: no initialisation or teardown anywhere, and
/// exactly one agent create per step it covers.
proof fn lemma_steps_range_facts(
    mname: Seq<char>,
    cfg: BuildAgentConfigView,
    steps: Seq<StepView>,
    j: int,
    ids: Seq<Seq<char>>,
)
    ensures
        ({
            let calls = steps_calls_range(mname, cfg, steps, j, ids);
            &&& (forall|i: int|
                0 <= i < calls.len() ==> !((#[trigger] calls[i]) is Init) && !(calls[i] is TearDown))
            &&& count_create_calls(calls) == ids.len()
            &&& count_init_calls(calls) == 0
            &&& count_teardown_calls(calls) == 0
        }),
    decreases ids.len(),
{
    let calls = steps_calls_range(mname, cfg, steps, j, ids);
    if ids.len() == 0 {
        assert(calls == Seq::<RuntimeCall>::empty());
    } else {
        let head = full_step_calls(mname, steps[j], resolve_step_agent(cfg, steps[j])->0, ids.first());
        let rest = steps_calls_range(mname, cfg, steps, j + 1, ids.drop_first());
        assert(calls == head + rest);
        lemma_full_step_facts(mname, steps[j], resolve_step_agent(cfg, steps[j])->0, ids.first());
        lemma_steps_range_facts(mname, cfg, steps, j + 1, ids.drop_first());
        lemma_counts_add(head, rest);
        lemma_counts_pointwise(head);
        assert(forall|i: int|
            0 <= i < calls.len() ==> !((#[trigger] calls[i]) is Init) && !(calls[i] is TearDown))
        by {
            assert(forall|i: int| 0 <= i < head.len() ==> calls[i] == head[i]);
            assert(forall|i: int|
                head.len() <= i < calls.len() ==> calls[i] == rest[i - head.len()]);
        }
    }
}

/// A partial step trace: no initialisation or teardown anywhere, and at most
/// one agent create.
proof fn lemma_partial_step_facts(
    module: Seq<char>,
    step: StepView,
    agent: AgentView,
    calls: Seq<RuntimeCall>,
)
    requires
        is_partial_step_calls(module, step, agent, calls),
    ensures
        forall|i: int|
            0 <= i < calls.len() ==> !((#[trigger] calls[i]) is Init) && !(calls[i] is TearDown),
        count_create_calls(calls) <= 1,
{
    if calls == seq![RuntimeCall::CreateAgent { module, agent: agent.name }] {
        lemma_counts_singleton(RuntimeCall::CreateAgent { module, agent: agent.name });
    } else if exists|id: Seq<char>, k: int|
        0 <= k <= archive_calls(step, id).len() && calls == seq![
            RuntimeCall::CreateAgent { module, agent: agent.name },
            RuntimeCall::ExecuteCommand { agent_id: id, command: step.command },
        ] + archive_calls(step, id).take(k) {
        let (id, k): (Seq<char>, int) = choose|id: Seq<char>, k: int|
            0 <= k <= archive_calls(step, id).len() && calls == seq![
                RuntimeCall::CreateAgent { module, agent: agent.name },
                RuntimeCall::ExecuteCommand { agent_id: id, command: step.command },
            ] + archive_calls(step, id).take(k);
        let head = seq![
            RuntimeCall::CreateAgent { module, agent: agent.name },
            RuntimeCall::ExecuteCommand { agent_id: id, command: step.command },
        ];
        let fetches = archive_calls(step, id).take(k);
        lemma_counts_add(head, fetches);
        lemma_counts_pair(
            RuntimeCall::CreateAgent { module, agent: agent.name },
            RuntimeCall::ExecuteCommand { agent_id: id, command: step.command },
        );
        lemma_counts_singleton(RuntimeCall::CreateAgent { module, agent: agent.name });
        lemma_counts_singleton(RuntimeCall::ExecuteCommand { agent_id: id, command: step.command });
        assert(forall|i: int| 0 <= i < fetches.len() ==> !((#[trigger] fetches[i]) is CreateAgent));
        lemma_no_creates(fetches);
        assert(forall|i: int| 0 <= i < head.len() ==> calls[i] == head[i]);
        assert(forall|i: int|
            head.len() <= i < calls.len() ==> calls[i] == fetches[i - head.len()]);
    } else {
        let id = choose|id: Seq<char>| calls == full_step_calls(module, step, agent, id);
        lemma_full_step_facts(module, step, agent, id);
    }
}

/// For every module whose build ran to the end successfully: the workspace is
/// created exactly once, as the very first runtime call of the module and so
/// before any agent create, and torn down exactly once, as the very last call
/// and so after every agent destroy.
pub proof fn lemma_successful_module_lifecycle(m: ModuleView, calls: Seq<RuntimeCall>)
    requires
        is_successful_module_trace(m, calls),
    ensures
        count_init_calls(calls) == 1,
        count_teardown_calls(calls) == 1,
        calls[0] == init_call(m.name),
        calls.last() == teardown_call(m.name),
        forall|i: int|
            0 < i < calls.len() - 1 ==> !((#[trigger] calls[i]) is Init) && !(calls[i] is TearDown),
        forall|i: int| 0 <= i < calls.len() && (#[trigger] calls[i]) is CreateAgent ==> 0 < i
            < calls.len() - 1,
{
    let mid = calls.subrange(1, calls.len() - 1);
    let ids = choose|ids: Seq<Seq<char>>|
        ids.len() == m.steps.len() && (forall|k: int|
            0 <= k < m.steps.len() ==> resolve_step_agent(
                spec_module_config(m),
                #[trigger] m.steps[k],
            ) is Some) && mid == steps_calls_range(m.name, spec_module_config(m), m.steps, 0, ids);
    lemma_steps_range_facts(m.name, spec_module_config(m), m.steps, 0, ids);
    assert(calls =~= seq![init_call(m.name)] + mid + seq![teardown_call(m.name)]);
    lemma_counts_add(seq![init_call(m.name)] + mid, seq![teardown_call(m.name)]);
    lemma_counts_add(seq![init_call(m.name)], mid);
    lemma_counts_singleton(init_call(m.name));
    lemma_counts_singleton(teardown_call(m.name));
    assert(forall|i: int| 0 < i < calls.len() - 1 ==> calls[i] == mid[i - 1]);
}

/// If a module's initialisation fails, its trace is that single call: no
/// teardown is ever attempted for it.
pub proof fn lemma_init_failure_no_teardown(m: ModuleView, calls: Seq<RuntimeCall>)
    requires
        calls == seq![init_call(m.name)],
    ensures
        count_init_calls(calls) == 1,
        count_teardown_calls(calls) == 0,
{
    lemma_counts_singleton(init_call(m.name));
}

/// If step `j` of a module fails, no later step is attempted — the trace
/// creates at most one agent per step up to and including `j` — and the
/// module's teardown still happens, exactly once, as the last call.
pub proof fn lemma_step_failure_stops_module(
    m: ModuleView,
    calls: Seq<RuntimeCall>,
    j: int,
    ids: Seq<Seq<char>>,
    tail: Seq<RuntimeCall>,
)
    requires
        0 <= j < m.steps.len(),
        ids.len() == j,
        calls == seq![init_call(m.name)] + (steps_calls_range(
            m.name,
            spec_module_config(m),
            m.steps,
            0,
            ids,
        ) + tail) + seq![teardown_call(m.name)],
        match resolve_step_agent(spec_module_config(m), m.steps[j]) {
            None => tail == Seq::<RuntimeCall>::empty(),
            Some(a) => is_partial_step_calls(m.name, m.steps[j], a, tail),
        },
    ensures
        count_init_calls(calls) == 1,
        count_teardown_calls(calls) == 1,
        count_create_calls(calls) <= j + 1,
        calls.last() == teardown_call(m.name),
{
    let done = steps_calls_range(m.name, spec_module_config(m), m.steps, 0, ids);
    lemma_steps_range_facts(m.name, spec_module_config(m), m.steps, 0, ids);
    match resolve_step_agent(spec_module_config(m), m.steps[j]) {
        None => {
            assert(count_create_calls(tail) == 0) by {
                lemma_no_creates(tail);
            }
            lemma_counts_pointwise(tail);
        },
        Some(a) => {
            lemma_partial_step_facts(m.name, m.steps[j], a, tail);
            lemma_counts_pointwise(tail);
        },
    }
    lemma_counts_add(seq![init_call(m.name)] + (done + tail), seq![teardown_call(m.name)]);
    lemma_counts_add(seq![init_call(m.name)], done + tail);
    lemma_counts_add(done, tail);
    lemma_counts_singleton(init_call(m.name));
    lemma_counts_singleton(teardown_call(m.name));
}

/// A step's archives are fetched one per declared rule, in declared order:
/// the fetch at offset `i` names the `i`-th rule.  All fetches come after the
/// command execution and before the agent's destruction, which is the step's
/// last call.  Reordering the rules therefore reorders the fetches the same
/// way.
pub proof fn lemma_archives_in_declared_order(
    module: Seq<char>,
    step: StepView,
    agent: AgentView,
    id: Seq<char>,
)
    requires
        step.archives is Some,
    ensures
        ({
            let rules = step.archives->0;
            let calls = full_step_calls(module, step, agent, id);
            &&& calls.len() == rules.len() + 3
            &&& calls[0] == (RuntimeCall::CreateAgent { module, agent: agent.name })
            &&& calls[1] == (RuntimeCall::ExecuteCommand { agent_id: id, command: step.command })
            &&& (forall|i: int|
                0 <= i < rules.len() ==> calls[2 + i] == (RuntimeCall::GetArchive {
                    agent_id: id,
                    archive: rules[i].name,
                }))
            &&& calls.last() == (RuntimeCall::DestroyAgent { agent_id: id })
        }),
{
    let rules = step.archives->0;
    let calls = full_step_calls(module, step, agent, id);
    let fetches = archive_calls(step, id);
    assert(fetches.len() == rules.len());
    assert(forall|i: int|
        0 <= i < rules.len() ==> fetches[i] == (RuntimeCall::GetArchive {
            agent_id: id,
            archive: rules[i].name,
        }));
}

} // verus!
