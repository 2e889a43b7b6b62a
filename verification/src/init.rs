//! Project initialisation: staging every plugin the project's steps depend
//! on into the shared plugin volume, before any build runs.

use vstd::prelude::*;

use crate::config::{Module, ModuleView, PluginSpecification, PluginSpecificationView,
    ProjectConfig, StepView};
use crate::runtime::{BuildRuntime, RuntimeCall};

verus! {

/// An initialisation failure, described for the user.
#[derive(Debug)]
pub struct InitError {
    pub msg: String,
}

impl InitError {
    /// The full message, with its context prefix.
    pub fn message(&self) -> (r: String)
        ensures
            r@ == "init project error: "@ + self.msg@,
    {
        let r = "init project error: ".to_owned();
        r.concat(self.msg.as_str())
    }
}

/// The plugins declared by the steps from position `j` on, in declared order.
pub open spec fn plugins_of_steps(steps: Seq<StepView>, j: int) -> Seq<PluginSpecificationView>
    decreases steps.len() - j,
{
    if j < 0 || j >= steps.len() {
        Seq::empty()
    } else {
        (match steps[j].plugins {
            Some(ps) => ps,
            None => Seq::empty(),
        }) + plugins_of_steps(steps, j + 1)
    }
}

/// The plugins declared anywhere in the modules from position `j` on.
pub open spec fn plugins_of_modules(modules: Seq<ModuleView>, j: int) -> Seq<
    PluginSpecificationView,
>
    decreases modules.len() - j,
{
    if j < 0 || j >= modules.len() {
        Seq::empty()
    } else {
        plugins_of_steps(modules[j].steps, 0) + plugins_of_modules(modules, j + 1)
    }
}

proof fn lemma_plugins_of_steps_snoc(steps: Seq<StepView>, j: int, upto: int)
    requires
        0 <= j <= upto < steps.len(),
    ensures
        plugins_of_steps(steps.take(upto + 1), j) == plugins_of_steps(steps.take(upto), j) + (
        match steps[upto].plugins {
            Some(ps) => ps,
            None => Seq::<PluginSpecificationView>::empty(),
        }),
    decreases upto - j,
{
    let a = steps.take(upto);
    let b = steps.take(upto + 1);
    assert(b[upto] == steps[upto]);
    if j == upto {
        assert(plugins_of_steps(a, j) =~= Seq::<PluginSpecificationView>::empty());
        assert(plugins_of_steps(b, j + 1) =~= Seq::<PluginSpecificationView>::empty());
        assert(plugins_of_steps(b, j) =~= plugins_of_steps(a, j) + (match steps[upto].plugins {
            Some(ps) => ps,
            None => Seq::<PluginSpecificationView>::empty(),
        }));
    } else {
        lemma_plugins_of_steps_snoc(steps, j + 1, upto);
        assert(a[j] == steps[j]);
        assert(plugins_of_steps(b, j) =~= plugins_of_steps(a, j) + (match steps[upto].plugins {
            Some(ps) => ps,
            None => Seq::<PluginSpecificationView>::empty(),
        }));
    }
}

proof fn lemma_plugins_of_modules_snoc(modules: Seq<ModuleView>, j: int, upto: int)
    requires
        0 <= j <= upto < modules.len(),
    ensures
        plugins_of_modules(modules.take(upto + 1), j) == plugins_of_modules(modules.take(upto), j)
            + plugins_of_steps(modules[upto].steps, 0),
    decreases upto - j,
{
    let a = modules.take(upto);
    let b = modules.take(upto + 1);
    assert(b[upto] == modules[upto]);
    if j == upto {
        assert(plugins_of_modules(a, j) =~= Seq::<PluginSpecificationView>::empty());
        assert(plugins_of_modules(b, j + 1) =~= Seq::<PluginSpecificationView>::empty());
        assert(plugins_of_modules(b, j) =~= plugins_of_modules(a, j) + plugins_of_steps(
            modules[upto].steps,
            0,
        ));
    } else {
        lemma_plugins_of_modules_snoc(modules, j + 1, upto);
        assert(a[j] == modules[j]);
        assert(plugins_of_modules(b, j) =~= plugins_of_modules(a, j) + plugins_of_steps(
            modules[upto].steps,
            0,
        ));
    }
}

/// Gathers every plugin dependency declared by any step of any module, in
/// declared order.
pub fn collect_plugins<'a>(modules: &'a Vec<Module>) -> (r: Vec<&'a PluginSpecification>)
    ensures
        r@.map_values(|p: &PluginSpecification| p@) == plugins_of_modules(
            modules@.map_values(|m: Module| m@),
            0,
        ),
{
    let ghost mods = modules@.map_values(|m: Module| m@);
    let mut all_plugins: Vec<&'a PluginSpecification> = Vec::new();
    let mut i: usize = 0;
    proof {
        assert(mods.take(0) =~= Seq::<ModuleView>::empty());
        assert(all_plugins@.map_values(|p: &PluginSpecification| p@) =~= plugins_of_modules(
            mods.take(0),
            0,
        ));
    }
    while i < modules.len()
        invariant
            0 <= i <= modules@.len(),
            mods == modules@.map_values(|m: Module| m@),
            mods.len() == modules@.len(),
            all_plugins@.map_values(|p: &PluginSpecification| p@) == plugins_of_modules(
                mods.take(i as int),
                0,
            ),
        decreases modules@.len() - i,
    {
        let module = &modules[i];
        let ghost steps = mods[i as int].steps;
        let mut j: usize = 0;
        proof {
            assert(module@ == mods[i as int]);
            assert(steps.take(0) =~= Seq::<StepView>::empty());
            assert(plugins_of_steps(steps.take(0), 0) =~= Seq::<PluginSpecificationView>::empty());
            assert(all_plugins@.map_values(|p: &PluginSpecification| p@) =~= plugins_of_modules(
                mods.take(i as int),
                0,
            ) + plugins_of_steps(steps.take(0), 0));
        }
        while j < module.steps.len()
            invariant
                0 <= j <= module.steps@.len(),
                steps == mods[i as int].steps,
                0 <= i < mods.len(),
                module@ == mods[i as int],
                steps.len() == module.steps@.len(),
                all_plugins@.map_values(|p: &PluginSpecification| p@) == plugins_of_modules(
                    mods.take(i as int),
                    0,
                ) + plugins_of_steps(steps.take(j as int), 0),
            decreases module.steps@.len() - j,
        {
            let ghost before = all_plugins@;
            match module.steps[j].plugins {
                Some(ref plugins) => {
                    let mut k: usize = 0;
                    proof {
                        assert(steps[j as int].plugins matches Some(ps) && ps == plugins@
                            .map_values(|p: PluginSpecification| p@));
                        assert(plugins@.map_values(|p: PluginSpecification| p@).take(0)
                            =~= Seq::<PluginSpecificationView>::empty());
                        assert(all_plugins@.map_values(|p: &PluginSpecification| p@) =~= before
                            .map_values(|p: &PluginSpecification| p@) + plugins@.map_values(
                            |p: PluginSpecification| p@,
                        ).take(0));
                    }
                    while k < plugins.len()
                        invariant
                            0 <= k <= plugins@.len(),
                            module.steps@[j as int].plugins matches Some(pv) && pv@ == plugins@,
                            all_plugins@.map_values(|p: &PluginSpecification| p@) == before
                                .map_values(|p: &PluginSpecification| p@) + plugins@.map_values(
                                |p: PluginSpecification| p@,
                            ).take(k as int),
                        decreases plugins@.len() - k,
                    {
                        let ghost pre = all_plugins@;
                        all_plugins.push(&plugins[k]);
                        proof {
                            let mapped = plugins@.map_values(|p: PluginSpecification| p@);
                            assert(mapped.take(k + 1) =~= mapped.take(k as int).push(
                                mapped[k as int],
                            ));
                            assert(all_plugins@.map_values(|p: &PluginSpecification| p@)
                                =~= pre.map_values(|p: &PluginSpecification| p@).push(
                                plugins@[k as int]@,
                            ));
                            assert(all_plugins@.map_values(|p: &PluginSpecification| p@)
                                =~= before.map_values(|p: &PluginSpecification| p@) + mapped.take(
                                k + 1,
                            ));
                        }
                        k = k + 1;
                    }
                    proof {
                        let mapped = plugins@.map_values(|p: PluginSpecification| p@);
                        assert(mapped.take(plugins@.len() as int) =~= mapped);
                    }
                },
                None => {},
            }
            proof {
                lemma_plugins_of_steps_snoc(steps, 0, j as int);
                assert(all_plugins@.map_values(|p: &PluginSpecification| p@)
                    =~= plugins_of_modules(mods.take(i as int), 0) + plugins_of_steps(
                    steps.take(j + 1),
                    0,
                ));
            }
            j = j + 1;
        }
        proof {
            assert(steps.take(steps.len() as int) =~= steps);
            lemma_plugins_of_modules_snoc(mods, 0, i as int);
            assert(all_plugins@.map_values(|p: &PluginSpecification| p@) =~= plugins_of_modules(
                mods.take(i + 1),
                0,
            ));
        }
        i = i + 1;
    }
    proof {
        assert(mods.take(mods.len() as int) =~= mods);
    }
    all_plugins
}

/// Stages every plugin the project's steps depend on, so that plugin-using
/// steps find the shared payload volume current.
pub fn init_project_with_config<R: BuildRuntime>(
    project_config: &ProjectConfig,
    runtime: &mut R,
) -> (r: Result<(), InitError>)
    ensures
        final(runtime).log() == old(runtime).log().push(
            RuntimeCall::EnsurePluginsLoaded {
                plugins: plugins_of_modules(project_config@.build_config.modules, 0),
            },
        ),
        final(runtime).outcomes() == old(runtime).outcomes().push(r is Ok),
        r matches Err(e) ==> exists|m: Seq<char>|
            e.msg@ == "Failed to load plugins: "@ + "build runtime error: "@ + m,
{
    let all_plugins = collect_plugins(&project_config.build_config.modules);
    match runtime.ensure_plugins_loaded(all_plugins) {
        Ok(_) => Ok(()),
        Err(e) => {
            let msg = "Failed to load plugins: ".to_owned();
            let msg = msg.concat(e.message().as_str());
            proof {
                assert(msg@ =~= "Failed to load plugins: "@ + "build runtime error: "@ + e.msg@);
            }
            Err(InitError { msg })
        },
    }
}

} // verus!
