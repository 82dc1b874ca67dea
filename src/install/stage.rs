//! The stages of an installation and the order in which they run.

use vstd::prelude::*;

use crate::install::event::Event;
use crate::store::content::Content;

verus! {

/// A stage of the installation pipeline.
#[derive(Debug, Clone, Copy, PartialEq, Eq, Structural)]
pub enum Stage {
    FetchSources,
    EvalPkgscript,
    Package,
    Publish,
}

/// The position of a stage in the pipeline, from zero.
pub open spec fn rank(s: Stage) -> nat {
    match s {
        Stage::FetchSources => 0,
        Stage::EvalPkgscript => 1,
        Stage::Package => 2,
        Stage::Publish => 3,
    }
}

/// The stage at position `n`; positions past the last give the last.
pub open spec fn stage_at(n: nat) -> Stage {
    if n == 0 {
        Stage::FetchSources
    } else if n == 1 {
        Stage::EvalPkgscript
    } else if n == 2 {
        Stage::Package
    } else {
        Stage::Publish
    }
}

/// What an installation is asked to do: the target platform, whether to
/// proceed over an existing installation, and the last stage to run.
pub struct InstallOpts {
    pub os: String,
    pub arch: String,
    pub force: bool,
    pub stage: Stage,
}

/// The content records of a finished installation.
pub struct InstallResult {
    pub content: Vec<Content>,
}

impl InstallResult {
    pub fn new(content: Vec<Content>) -> (r: InstallResult)
        ensures
            r.content == content,
    {
        InstallResult { content }
    }
}

impl Stage {
    /// How many stages run when this one is the last.
    pub fn count_through(&self) -> (r: u64)
        ensures
            r == rank(*self) + 1,
    {
        match self {
            Stage::FetchSources => 1,
            Stage::EvalPkgscript => 2,
            Stage::Package => 3,
            Stage::Publish => 4,
        }
    }

    /// The last stage of an installation, with or without publishing.
    pub fn ceiling(publish: bool) -> (r: Stage)
        ensures
            r == (if publish {
                Stage::Publish
            } else {
                Stage::Package
            }),
    {
        if publish {
            Stage::Publish
        } else {
            Stage::Package
        }
    }
}

/// One step of the pipeline.
#[derive(Debug, Clone, Copy, PartialEq, Eq, Structural)]
pub enum Step {
    /// Report that the stage begins.
    Enter(Stage),
    /// Do the work of the stage.
    Run(Stage),
    /// Report that the stage completed.
    Exit(Stage),
    /// Nothing is left to do.
    Done,
}

/// The step at position `pos` of a pipeline that stops after `ceiling`:
/// enter, run and exit each stage in turn, then done.
pub open spec fn step_at(ceiling: Stage, pos: nat) -> Step {
    if pos >= 3 * (rank(ceiling) + 1) {
        Step::Done
    } else {
        let s = stage_at(pos / 3);
        if pos % 3 == 0 {
            Step::Enter(s)
        } else if pos % 3 == 1 {
            Step::Run(s)
        } else {
            Step::Exit(s)
        }
    }
}

/// The driver of the pipeline: where it stands in the sequence of steps.
///
/// The caller performs the current step and calls `advance` only when it
/// succeeded; on a failure it stops, so an `Exit` step is reached only when
/// its stage's work has completed.
pub struct Pipeline {
    ceiling: Stage,
    pos: u8,
}

impl Pipeline {
    pub closed spec fn last(&self) -> Stage {
        self.ceiling
    }

    pub closed spec fn position(&self) -> nat {
        self.pos as nat
    }

    pub closed spec fn wf(&self) -> bool {
        self.pos <= 3 * (rank(self.ceiling) + 1)
    }

    /// A pipeline at its first step, to stop after `ceiling`.
    pub fn new(ceiling: Stage) -> (r: Pipeline)
        ensures
            r.wf(),
            r.last() == ceiling,
            r.position() == 0,
    {
        Pipeline { ceiling, pos: 0 }
    }

    /// The step to perform now.
    pub fn current(&self) -> (r: Step)
        requires
            self.wf(),
        ensures
            r == step_at(self.last(), self.position()),
    {
        let n = self.ceiling.count_through();
        if self.pos as u64 >= 3 * n {
            return Step::Done;
        }
        let s = match self.pos / 3 {
            0 => Stage::FetchSources,
            1 => Stage::EvalPkgscript,
            2 => Stage::Package,
            _ => Stage::Publish,
        };
        if self.pos % 3 == 0 {
            Step::Enter(s)
        } else if self.pos % 3 == 1 {
            Step::Run(s)
        } else {
            Step::Exit(s)
        }
    }

    /// Moves on past the current step, which succeeded.
    pub fn advance(&mut self)
        requires
            old(self).wf(),
        ensures
            final(self).wf(),
            final(self).last() == old(self).last(),
            final(self).position() == if step_at(old(self).last(), old(self).position()) is Done {
                old(self).position()
            } else {
                old(self).position() + 1
            },
    {
        let n = self.ceiling.count_through();
        if (self.pos as u64) < 3 * n {
            self.pos = self.pos + 1;
        }
    }
}

impl Step {
    /// The event that reports this step, for the steps that have one.
    pub fn event(&self) -> (r: Option<Event>)
        ensures
            match *self {
                Step::Enter(s) => r matches Some(Event::EnterStage(t)) && t == s,
                Step::Exit(s) => r matches Some(Event::ExitStage(t)) && t == s,
                _ => r is None,
            },
    {
        match self {
            Step::Enter(s) => Some(Event::EnterStage(*s)),
            Step::Exit(s) => Some(Event::ExitStage(*s)),
            _ => None,
        }
    }
}

/// The content records that an installation stopping after `ceiling`
/// yields: those of the evaluated script once it has been evaluated.
pub fn install_result(ceiling: Stage, content: Vec<Content>) -> (r: InstallResult)
    ensures
        rank(ceiling) >= 1 ==> r.content == content,
        rank(ceiling) == 0 ==> r.content@.len() == 0,
{
    match ceiling {
        Stage::FetchSources => InstallResult::new(Vec::new()),
        _ => InstallResult::new(content),
    }
}

/// No stage after the first runs before the first has exited: a run of
/// EvalPkgscript, Package or Publish comes after the exit of FetchSources,
/// which a failed fetch never reaches.
pub proof fn lemma_fetch_exits_first(ceiling: Stage, pos: nat)
    requires
        step_at(ceiling, pos) matches Step::Run(s) && rank(s) >= 1,
    ensures
        2 < pos,
        step_at(ceiling, 2) == Step::Exit(Stage::FetchSources),
{
}

/// Whether an installation may go ahead: when the package is not already
/// installed, or when `force` asks to proceed anyway.
pub fn may_install(already_installed: bool, force: bool) -> (r: bool)
    ensures
        r == (!already_installed || force),
{
    !already_installed || force
}

} // verus!
