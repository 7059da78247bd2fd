//! The build task, as the steps that decide what happens between the
//! calls to the build cache and to the plugins' hooks. The caller makes
//! those calls and hands their outcome to the next step.

use vstd::prelude::*;

use crate::error::Error;
use crate::queue::BuildResult;
use crate::queue::BuildTaskResult;
use crate::queue::Diagnostic;
use crate::queue::Module;
use crate::queue::ModuleProfile;
use crate::queue::TaskResult;

verus! {

/// The task that builds a module.
#[derive(Debug)]
pub struct BuildTask {
    pub module: Module,
    pub current_profile: Option<ModuleProfile>,
}

/// What building a module produced: the build's result and its
/// diagnostics.
#[derive(Debug)]
pub struct BuildOutput {
    pub build_result: BuildResult,
    pub diagnostics: Vec<Diagnostic>,
}

/// A build task whose build has been started.
#[derive(Debug)]
pub struct BuildTaskStarted {
    pub module: Module,
    pub current_profile: Option<ModuleProfile>,
}

/// A build task that is under way.
#[derive(Debug)]
pub struct BuildTaskRun {
    pub module: Module,
    pub current_profile: Option<ModuleProfile>,
    /// What the build produced, once the cache has answered.
    pub build: Result<BuildOutput, Error>,
    /// Whether the cache held a module that may still be valid.
    pub is_cache_valid: bool,
}

/// What the caller of a build task does next.
#[derive(Debug)]
pub enum BuildTaskStep {
    /// Ask the plugins whether the cached module is still valid, and hand
    /// the answer to [`BuildTaskRun::on_still_valid`].
    CheckStillValid(BuildTaskRun),
    /// Tell the plugins that the module was built, and hand their answer to
    /// [`BuildTaskRun::on_module_succeeded`].
    NotifySucceeded(BuildTaskRun),
    /// The task is done with this result.
    Done(Result<TaskResult, Error>),
    /// A hook failed in a way that stops the compilation.
    Abort(Error),
}

/// `profile` with the start of the build marked.
pub open spec fn building_started(profile: Option<ModuleProfile>) -> Option<ModuleProfile> {
    match profile {
        Some(p) => Some(ModuleProfile { building_start: true, ..p }),
        None => None,
    }
}

/// `profile` with the end of the build marked.
pub open spec fn building_ended(profile: Option<ModuleProfile>) -> Option<ModuleProfile> {
    match profile {
        Some(p) => Some(ModuleProfile { building_end: true, ..p }),
        None => None,
    }
}

/// Whether `r` is the result of a build task for `module` whose build gave
/// `output`, with `profile` and `from_cache`.
pub open spec fn is_build_result(
    r: Result<TaskResult, Error>,
    module: Module,
    output: BuildOutput,
    profile: Option<ModuleProfile>,
    from_cache: bool,
) -> bool {
    r matches Ok(TaskResult::Build(b)) && *b == BuildTaskResult {
        module,
        build_result: output.build_result,
        diagnostics: output.diagnostics,
        current_profile: profile,
        from_cache,
    }
}

impl BuildTask {
    /// Starts the task: marks the start of the build. The caller then builds
    /// the module through the cache and hands the outcome to
    /// [`BuildTaskStarted::on_cache_result`].
    pub fn begin(self) -> (r: BuildTaskStarted)
        ensures
            r == (BuildTaskStarted {
                module: self.module,
                current_profile: building_started(self.current_profile),
            }),
    {
        let mut current_profile = self.current_profile;
        if let Some(p) = &mut current_profile {
            p.building_start = true;
        }
        BuildTaskStarted { module: self.module, current_profile }
    }
}

impl BuildTaskStarted {
    /// The step after the build went through the cache. A failure of the
    /// cache stops the compilation. Where the cache may hold a valid module,
    /// the plugins are asked whether it still is; else the build is over.
    pub fn on_cache_result(
        self,
        outcome: Result<(Result<BuildOutput, Error>, bool), Error>,
    ) -> (step: BuildTaskStep)
        ensures
            ({
                let module = self.module;
                let current_profile = self.current_profile;
                match outcome {
                Err(e) => step == BuildTaskStep::Abort(e),
                Ok((build, true)) => step == BuildTaskStep::CheckStillValid(
                    BuildTaskRun { module, current_profile, build, is_cache_valid: true },
                ),
                Ok((build, false)) => step == BuildTaskRun::after_checks(
                    BuildTaskRun { module, current_profile, build, is_cache_valid: false },
                ),
            }
            }),
    {
        let module = self.module;
        let current_profile = self.current_profile;
        match outcome {
            Err(e) => BuildTaskStep::Abort(e),
            Ok((build, is_cache_valid)) => {
                let run = BuildTaskRun { module, current_profile, build, is_cache_valid };
                if is_cache_valid {
                    BuildTaskStep::CheckStillValid(run)
                } else {
                    run.finish_checks()
                }
            },
        }
    }
}

impl BuildTaskRun {
    /// The step after the checks of the cache: the end of the build is
    /// marked; a failed build is the task's failure; a successful one is
    /// announced to the plugins.
    pub open spec fn after_checks(run: BuildTaskRun) -> BuildTaskStep {
        let ended = BuildTaskRun {
            current_profile: building_ended(run.current_profile),
            ..run
        };
        match run.build {
            Err(e) => BuildTaskStep::Done(Err(e)),
            Ok(_) => BuildTaskStep::NotifySucceeded(ended),
        }
    }

    fn finish_checks(self) -> (step: BuildTaskStep)
        ensures
            step == BuildTaskRun::after_checks(self),
    {
        let mut current_profile = self.current_profile;
        if let Some(p) = &mut current_profile {
            p.building_end = true;
        }
        match self.build {
            Err(e) => BuildTaskStep::Done(Err(e)),
            Ok(output) => BuildTaskStep::NotifySucceeded(
                BuildTaskRun {
                    module: self.module,
                    current_profile,
                    build: Ok(output),
                    is_cache_valid: self.is_cache_valid,
                },
            ),
        }
    }

    /// The step after the plugins were asked whether the cached module is
    /// still valid: their failure is the task's failure; else the build is
    /// over.
    pub fn on_still_valid(self, answer: Result<(), Error>) -> (step: BuildTaskStep)
        ensures
            match answer {
                Err(e) => step == BuildTaskStep::Done(Err(e)),
                Ok(()) => step == BuildTaskRun::after_checks(self),
            },
    {
        match answer {
            Err(e) => BuildTaskStep::Done(Err(e)),
            Ok(()) => self.finish_checks(),
        }
    }

    /// The step after the plugins were told that the module was built: their
    /// failure stops the compilation; else the task is done with the built
    /// module, the build's result and diagnostics, the profile, and whether
    /// the cache held the module.
    pub fn on_module_succeeded(self, answer: Result<(), Error>) -> (step: BuildTaskStep)
        requires
            self.build is Ok,
        ensures
            match answer {
                Err(e) => step == BuildTaskStep::Abort(e),
                Ok(()) => step matches BuildTaskStep::Done(r) && is_build_result(
                    r,
                    self.module,
                    self.build->Ok_0,
                    self.current_profile,
                    self.is_cache_valid,
                ),
            },
    {
        match answer {
            Err(e) => BuildTaskStep::Abort(e),
            Ok(()) => {
                let output = match self.build {
                    Ok(output) => output,
                    Err(_) => vstd::pervasive::unreached(),
                };
                BuildTaskStep::Done(
                    Ok(
                        TaskResult::Build(
                            Box::new(
                                BuildTaskResult {
                                    module: self.module,
                                    build_result: output.build_result,
                                    diagnostics: output.diagnostics,
                                    current_profile: self.current_profile,
                                    from_cache: self.is_cache_valid,
                                },
                            ),
                        ),
                    ),
                )
            },
        }
    }
}

} // verus!
