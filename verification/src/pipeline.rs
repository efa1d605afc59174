//! The decision logic of the pipeline executor: how the standard streams of
//! the stages are wired, and the bookkeeping of a run — every stage that is
//! spawned must be waited on before the run completes, whether all spawns
//! succeed or one fails midway.  The driver performs the spawning and
//! waiting; this module tells it what to do next and owns the accounting.

use vstd::prelude::*;

use crate::group::{strings_view, Invocation};

verus! {

/// How one process ended.
#[derive(Debug, PartialEq, Eq, Clone, Copy, Structural)]
pub enum Status {
    /// Exited with a code.
    Exited(i32),
    /// Terminated by a signal.
    Signaled(i32),
}

/// Where a stage's standard input comes from.
#[derive(Debug, PartialEq, Eq, Clone, Copy, Structural)]
pub enum StdinSpec {
    /// Inherited from the interpreter.
    Inherit,
    /// The read end of the pipe the previous stage writes.
    FromPrevStage,
}

/// Where a stage's standard output goes.
#[derive(Debug, PartialEq, Eq, Clone, Copy, Structural)]
pub enum StdoutSpec {
    /// Inherited from the interpreter.
    Inherit,
    /// The write end of a fresh pipe the next stage reads.
    ToNextStage,
}

/// One stage of a pipeline, with its stream wiring.
#[derive(Debug, PartialEq, Eq)]
pub struct StagePlan {
    pub program: String,
    pub args: Vec<String>,
    pub stdin: StdinSpec,
    pub stdout: StdoutSpec,
}

/// Wires a chain of invocations: the first stage reads the interpreter's
/// input, the last writes its output, and every adjacent pair shares a
/// fresh pipe.
pub fn plan_pipeline(stages: Vec<Invocation>) -> (r: Vec<StagePlan>)
    requires
        stages@.len() >= 2,
    ensures
        r@.len() == stages@.len(),
        forall|i: int| 0 <= i < r@.len() ==> (#[trigger] r@[i]).program@ == stages@[i]@.program
            && strings_view(r@[i].args@) == stages@[i]@.args,
        forall|i: int| 0 <= i < r@.len() ==> (#[trigger] r@[i]).stdin == (if i == 0 {
            StdinSpec::Inherit
        } else {
            StdinSpec::FromPrevStage
        }),
        forall|i: int| 0 <= i < r@.len() ==> (#[trigger] r@[i]).stdout == (if i == r@.len() - 1 {
            StdoutSpec::Inherit
        } else {
            StdoutSpec::ToNextStage
        }),
{
    let ghost orig = stages@;
    let n = stages.len();
    let mut rest = stages;
    let mut r: Vec<StagePlan> = Vec::new();
    let mut i: usize = 0;
    proof {
        assert(orig.skip(0) =~= orig);
    }
    while i < n
        invariant
            i <= n,
            n == orig.len(),
            rest@ =~= orig.skip(i as int),
            r@.len() == i,
            forall|m: int| 0 <= m < i ==> (#[trigger] r@[m]).program@ == orig[m]@.program
                && strings_view(r@[m].args@) == orig[m]@.args,
            forall|m: int| 0 <= m < i ==> (#[trigger] r@[m]).stdin == (if m == 0 {
                StdinSpec::Inherit
            } else {
                StdinSpec::FromPrevStage
            }),
            forall|m: int| 0 <= m < i ==> (#[trigger] r@[m]).stdout == (if m == n - 1 {
                StdoutSpec::Inherit
            } else {
                StdoutSpec::ToNextStage
            }),
        decreases n - i,
    {
        let inv = rest.remove(0);
        proof {
            assert(inv@ == orig[i as int]@);
            assert(rest@ =~= orig.skip(i + 1));
        }
        let stdin = if i == 0 {
            StdinSpec::Inherit
        } else {
            StdinSpec::FromPrevStage
        };
        let stdout = if i == n - 1 {
            StdoutSpec::Inherit
        } else {
            StdoutSpec::ToNextStage
        };
        r.push(StagePlan { program: inv.program, args: inv.args, stdin, stdout });
        i = i + 1;
    }
    r
}

/// The phase a pipeline run is in.
#[derive(Debug, PartialEq, Eq, Clone, Copy, Structural)]
pub enum RunPhase {
    /// Stages are still being spawned.
    Spawning,
    /// Every remaining obligation is a wait.
    Waiting,
    /// The run is complete.
    Done,
}

/// What the driver is to do next for a pipeline run.
#[derive(Debug, PartialEq, Eq, Clone, Copy, Structural)]
pub enum RunAction {
    /// Spawn the stage with this index.
    SpawnStage(usize),
    /// Wait on the stage with this index.
    WaitStage(usize),
    /// Nothing is outstanding: report the outcome.
    Finish,
}

/// How a completed run ended.
#[derive(Debug, PartialEq, Eq, Clone, Copy, Structural)]
pub enum Outcome {
    /// Every stage ran; this is the last stage's status.
    Completed(Status),
    /// Some stage could not be spawned.
    SpawnFailed,
}

/// The bookkeeping of one pipeline run.  The driver spawns and waits as
/// `next_action` directs and reports each event back; the accounting
/// guarantees that the run only completes once every spawned stage has
/// been waited on.
pub struct PipelineRun {
    /// How many stages the pipeline has.
    pub total: usize,
    /// How many stages have been spawned.
    pub spawned: usize,
    /// How many stages have been waited on.
    pub waited: usize,
    /// The statuses collected by the waits, in stage order.
    pub statuses: Vec<Status>,
    /// The phase the run is in.
    pub phase: RunPhase,
    /// Whether some spawn failed.
    pub failed: bool,
}

impl PipelineRun {
    /// The accounting invariant of a run.
    pub open spec fn wf(self) -> bool {
        &&& self.total >= 1
        &&& self.spawned <= self.total
        &&& self.waited <= self.spawned
        &&& self.statuses@.len() == self.waited
        &&& (self.phase is Spawning ==> self.spawned < self.total && self.waited == 0
            && !self.failed)
        &&& (self.phase is Waiting ==> (self.failed || self.spawned == self.total)
            && self.waited < self.spawned)
        &&& (self.phase is Done ==> self.waited == self.spawned && (self.failed || self.spawned
            == self.total))
    }

    /// The outcome a completed run reports.
    pub open spec fn outcome_spec(self) -> Outcome {
        if self.failed {
            Outcome::SpawnFailed
        } else {
            Outcome::Completed(self.statuses@.last())
        }
    }

    /// Begins a run of a pipeline with `total` stages.
    pub fn start(total: usize) -> (r: PipelineRun)
        requires
            total >= 1,
        ensures
            r.wf(),
            r.total == total,
            r.spawned == 0,
            r.waited == 0,
            r.phase is Spawning,
            !r.failed,
    {
        PipelineRun {
            total,
            spawned: 0,
            waited: 0,
            statuses: Vec::new(),
            phase: RunPhase::Spawning,
            failed: false,
        }
    }

    /// What the driver is to do next.
    pub fn next_action(&self) -> (a: RunAction)
        requires
            self.wf(),
        ensures
            self.phase is Spawning ==> a == RunAction::SpawnStage(self.spawned),
            self.phase is Waiting ==> a == RunAction::WaitStage(self.waited),
            self.phase is Done ==> a == RunAction::Finish,
    {
        match self.phase {
            RunPhase::Spawning => RunAction::SpawnStage(self.spawned),
            RunPhase::Waiting => RunAction::WaitStage(self.waited),
            RunPhase::Done => RunAction::Finish,
        }
    }

    /// Records that the directed spawn succeeded.
    pub fn on_spawned(&mut self)
        requires
            old(self).wf(),
            old(self).phase is Spawning,
        ensures
            final(self).wf(),
            final(self).total == old(self).total,
            final(self).spawned == old(self).spawned + 1,
            final(self).waited == old(self).waited,
            final(self).statuses == old(self).statuses,
            !final(self).failed,
            final(self).phase == (if old(self).spawned + 1 == old(self).total {
                RunPhase::Waiting
            } else {
                RunPhase::Spawning
            }),
    {
        self.spawned = self.spawned + 1;
        if self.spawned == self.total {
            self.phase = RunPhase::Waiting;
        }
    }

    /// Records that the directed spawn failed: the stages already running
    /// must still be waited on before the failure is reported.
    pub fn on_spawn_failed(&mut self)
        requires
            old(self).wf(),
            old(self).phase is Spawning,
        ensures
            final(self).wf(),
            final(self).total == old(self).total,
            final(self).spawned == old(self).spawned,
            final(self).waited == old(self).waited,
            final(self).failed,
            final(self).phase == (if old(self).spawned == 0 {
                RunPhase::Done
            } else {
                RunPhase::Waiting
            }),
    {
        self.failed = true;
        if self.spawned == 0 {
            self.phase = RunPhase::Done;
        } else {
            self.phase = RunPhase::Waiting;
        }
    }

    /// Records the status the directed wait returned.
    pub fn on_waited(&mut self, status: Status)
        requires
            old(self).wf(),
            old(self).phase is Waiting,
        ensures
            final(self).wf(),
            final(self).total == old(self).total,
            final(self).spawned == old(self).spawned,
            final(self).waited == old(self).waited + 1,
            final(self).statuses@ == old(self).statuses@.push(status),
            final(self).failed == old(self).failed,
            final(self).phase == (if old(self).waited + 1 == old(self).spawned {
                RunPhase::Done
            } else {
                RunPhase::Waiting
            }),
    {
        self.statuses.push(status);
        self.waited = self.waited + 1;
        if self.waited == self.spawned {
            self.phase = RunPhase::Done;
        }
    }

    /// The outcome of a completed run: the last stage's status when every
    /// stage ran, the spawn failure otherwise — the statuses of earlier
    /// stages never enter it.
    pub fn outcome(&self) -> (o: Outcome)
        requires
            self.wf(),
            self.phase is Done,
        ensures
            o == self.outcome_spec(),
    {
        if self.failed {
            Outcome::SpawnFailed
        } else {
            Outcome::Completed(self.statuses[self.statuses.len() - 1])
        }
    }
}

/// However a pipeline run ends — all stages spawned and run, or a spawn
/// failure midway — every stage that was spawned has been waited on by the
/// time the run completes: no child process is left unreaped.
pub proof fn lemma_no_orphans(r: PipelineRun)
    requires
        r.wf(),
        r.phase is Done,
    ensures
        r.waited == r.spawned,
{
}

/// The reported status of a completed pipeline is that of its last stage
/// alone: two runs that agree on the last collected status report the same
/// outcome, whatever the earlier stages did.
pub proof fn lemma_last_stage_status(a: PipelineRun, b: PipelineRun)
    requires
        a.wf(),
        b.wf(),
        a.phase is Done,
        b.phase is Done,
        !a.failed,
        !b.failed,
        a.statuses@.last() == b.statuses@.last(),
    ensures
        a.outcome_spec() == b.outcome_spec(),
{
}

/// The exit code the driver records for an outcome: the code of a normal
/// exit, the conventional 127 for a failed spawn, nothing for a
/// signal-terminated command.
pub fn status_code(o: &Outcome) -> (r: Option<i32>)
    ensures
        o matches Outcome::Completed(s) ==> (s matches Status::Exited(c) ==> r == Some(*c)) && (
        s matches Status::Signaled(_) ==> r is None),
        o is SpawnFailed ==> r == Some(127i32),
{
    match o {
        Outcome::Completed(Status::Exited(c)) => Some(*c),
        Outcome::Completed(Status::Signaled(_)) => None,
        Outcome::SpawnFailed => Some(127),
    }
}

} // verus!
