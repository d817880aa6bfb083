//! The decisions of the execution engine. The caller starts the processes and
//! runs the builtins; this state machine says, stage after stage, what to do
//! next, how each stage is wired, and which exit code the pipeline reports.
use vstd::prelude::*;
use crate::command::{Command, Output};

verus! {

/// The exit code of a stage whose command was not found.
pub const COMMAND_NOT_FOUND: i32 = 127;

/// The exit code of a stage whose process could not be started.
pub const SPAWN_FAILED: i32 = 126;

/// How the caller started a stage.
#[derive(Debug, Clone, Copy, PartialEq, Eq, Structural)]
pub enum Launch {
    /// A builtin ran to its end with this exit code.
    Builtin(i32),
    /// An external process was spawned.
    Spawned,
    /// The name is neither a builtin nor an executable on the search path.
    NotFound,
    /// The executable was found but its process could not be started.
    SpawnFailed,
}

/// Where a stage stands.
#[derive(Debug, Clone, Copy, PartialEq, Eq, Structural)]
pub enum StageState {
    Finished(i32),
    Running,
    Exited(i32),
    NotFound,
    SpawnFailed,
}

/// The pipeline's visible result.
#[derive(Debug, Clone, Copy, PartialEq, Eq, Structural)]
pub struct ExecutionOutcome {
    pub exit_code: i32,
}

/// What the caller does next.
#[derive(Debug, Clone, Copy, PartialEq, Eq, Structural)]
pub enum EngineAction {
    /// Start the stage with this index.
    Start(usize),
    /// Wait for the external process of the stage with this index.
    Wait(usize),
    /// Every stage is done: report the outcome.
    Finish(ExecutionOutcome),
}

/// The state in which a launch leaves its stage.
pub open spec fn launched(l: Launch) -> StageState {
    match l {
        Launch::Builtin(c) => StageState::Finished(c),
        Launch::Spawned => StageState::Running,
        Launch::NotFound => StageState::NotFound,
        Launch::SpawnFailed => StageState::SpawnFailed,
    }
}

/// Whether a stage failed to start, which ends the starting of stages.
pub open spec fn is_failure(s: StageState) -> bool {
    s is NotFound || s is SpawnFailed
}

/// The exit code that a finished stage reports.
pub open spec fn exit_code_of(s: StageState) -> i32 {
    match s {
        StageState::Finished(c) => c,
        StageState::Exited(c) => c,
        StageState::NotFound => COMMAND_NOT_FOUND,
        StageState::SpawnFailed => SPAWN_FAILED,
        StageState::Running => 0,
    }
}

/// The run as seen by the proofs: the number of stages and the state of each
/// stage started so far, in pipeline order.
pub struct RunModel {
    pub stage_count: nat,
    pub stages: Seq<StageState>,
}

/// A run is well formed: a non-empty pipeline, no more stages started than it
/// has, and nothing started after a stage that failed to start.
pub open spec fn run_wf(m: RunModel) -> bool {
    &&& m.stage_count > 0
    &&& m.stages.len() <= m.stage_count
    &&& forall|i: int| 0 <= i < m.stages.len() - 1 ==> !is_failure(#[trigger] m.stages[i])
}

/// Whether starting stages has stopped on a failure.
pub open spec fn has_failed(m: RunModel) -> bool {
    m.stages.len() > 0 && is_failure(m.stages.last())
}

/// Whether stage `i` is still running.
pub open spec fn is_running(m: RunModel, i: int) -> bool {
    0 <= i < m.stages.len() && m.stages[i] is Running
}

/// The first stage at or after `from` whose process is still running.
pub open spec fn first_running(s: Seq<StageState>, from: int) -> Option<int>
    decreases s.len() - from,
{
    if from < 0 || from >= s.len() {
        None
    } else if s[from] is Running {
        Some(from)
    } else {
        first_running(s, from + 1)
    }
}

proof fn lemma_first_running(s: Seq<StageState>, from: int)
    requires
        0 <= from,
    ensures
        first_running(s, from) is None <==> forall|i: int| from <= i < s.len() ==> !(s[i] is Running),
        first_running(s, from) matches Some(k) ==> from <= k < s.len() && s[k] is Running && forall|
            j: int,
        | from <= j < k ==> !(s[j] is Running),
    decreases s.len() - from,
{
    if from < s.len() && !(s[from] is Running) {
        lemma_first_running(s, from + 1);
    }
}

/// The next step: start the next stage while none has failed and some are left;
/// then wait for the running processes in pipeline order; then report the exit
/// code of the last stage started.
pub open spec fn next_action_spec(m: RunModel) -> EngineAction {
    if m.stages.len() < m.stage_count && !has_failed(m) {
        EngineAction::Start(m.stages.len() as usize)
    } else {
        match first_running(m.stages, 0) {
            Some(i) => EngineAction::Wait(i as usize),
            None => EngineAction::Finish(ExecutionOutcome { exit_code: exit_code_of(m.stages.last()) }),
        }
    }
}

/// One pipeline on its way through the engine.
pub struct PipelineRun {
    stage_count: usize,
    stages: Vec<StageState>,
}

impl View for PipelineRun {
    type V = RunModel;

    closed spec fn view(&self) -> RunModel {
        RunModel { stage_count: self.stage_count as nat, stages: self.stages@ }
    }
}

impl PipelineRun {
    /// A run of a pipeline of `stage_count` stages, none started.
    pub fn new(stage_count: usize) -> (r: Self)
        requires
            stage_count > 0,
        ensures
            r@.stage_count == stage_count,
            r@.stages == Seq::<StageState>::empty(),
            run_wf(r@),
    {
        PipelineRun { stage_count, stages: Vec::new() }
    }

    /// What the caller does next.
    pub fn next_action(&self) -> (r: EngineAction)
        requires
            run_wf(self@),
        ensures
            r == next_action_spec(self@),
    {
        let n = self.stages.len();
        let failed = n > 0 && match self.stages[n - 1] {
            StageState::NotFound | StageState::SpawnFailed => true,
            _ => false,
        };
        if n < self.stage_count && !failed {
            return EngineAction::Start(n);
        }
        for i in 0..n
            invariant
                n == self.stages@.len(),
                !(self@.stages.len() < self@.stage_count && !has_failed(self@)),
                first_running(self.stages@, 0) == first_running(self.stages@, i as int),
        {
            if self.stages[i] == StageState::Running {
                return EngineAction::Wait(i);
            }
        }
        EngineAction::Finish(ExecutionOutcome { exit_code: match self.stages[n - 1] {
            StageState::Finished(c) => c,
            StageState::Exited(c) => c,
            StageState::NotFound => COMMAND_NOT_FOUND,
            StageState::SpawnFailed => SPAWN_FAILED,
            StageState::Running => 0,
        } })
    }

    /// Records how the stage that `next_action` asked for was started.
    pub fn record_launch(&mut self, launch: Launch)
        requires
            run_wf(old(self)@),
            next_action_spec(old(self)@) is Start,
        ensures
            final(self)@.stage_count == old(self)@.stage_count,
            final(self)@.stages == old(self)@.stages.push(launched(launch)),
            run_wf(final(self)@),
    {
        let s = match launch {
            Launch::Builtin(c) => StageState::Finished(c),
            Launch::Spawned => StageState::Running,
            Launch::NotFound => StageState::NotFound,
            Launch::SpawnFailed => StageState::SpawnFailed,
        };
        self.stages.push(s);
    }

    /// Records the exit code of the process that `next_action` waited for.
    pub fn record_exit(&mut self, stage: usize, code: i32)
        requires
            run_wf(old(self)@),
            next_action_spec(old(self)@) == EngineAction::Wait(stage),
        ensures
            final(self)@.stage_count == old(self)@.stage_count,
            final(self)@.stages == old(self)@.stages.update(stage as int, StageState::Exited(code)),
            run_wf(final(self)@),
    {
        proof {
            lemma_first_running(self.stages@, 0);
        }
        self.stages.set(stage, StageState::Exited(code));
    }
}

/// How one stage is connected.
pub enum StageOutput {
    /// Into the next stage's input.
    Pipe,
    /// To the pipeline's own destination.
    Redirect(Output),
}

/// The connections of one stage.
pub struct StageWiring {
    /// Whether the input comes from the previous stage; else the engine's own.
    pub stdin_from_previous: bool,
    pub stdout: StageOutput,
    pub stderr: Output,
}

fn copy_output(o: &Output) -> (r: Output)
    ensures
        r@ == o@,
{
    match o {
        Output::Standard => Output::Standard,
        Output::CreateFile(f) => Output::CreateFile(f.clone()),
        Output::AppendFile(f) => Output::AppendFile(f.clone()),
    }
}

/// How stage `index` of `count` is connected: every stage but the first reads
/// the previous one, every stage but the last writes into the next whatever its
/// own redirection says, and each stage's standard error goes where it says.
pub fn stage_wiring(command: &Command, index: usize, count: usize) -> (r: StageWiring)
    requires
        index < count,
    ensures
        r.stdin_from_previous == (index > 0),
        index + 1 < count ==> r.stdout is Pipe,
        index + 1 == count ==> (r.stdout matches StageOutput::Redirect(o) && o@ == command.standard_out@),
        r.stderr@ == command.standard_error@,
{
    let stdout = if index + 1 < count {
        StageOutput::Pipe
    } else {
        StageOutput::Redirect(copy_output(&command.standard_out))
    };
    StageWiring {
        stdin_from_previous: index > 0,
        stdout,
        stderr: copy_output(&command.standard_error),
    }
}

/// Once a stage is not found, no later stage starts; the processes already
/// started are still waited for; and the pipeline ends with the non-zero code of
/// a command that was not found only after every one of them has exited.
pub proof fn lemma_missing_command_fails(m: RunModel)
    requires
        run_wf(m),
        m.stages.len() > 0,
        m.stages.last() is NotFound,
    ensures
        !(next_action_spec(m) is Start),
        (exists|i: int| is_running(m, i)) ==> next_action_spec(m) is Wait,
        next_action_spec(m) is Finish ==> (forall|i: int| !is_running(m, i))
            && next_action_spec(m) == EngineAction::Finish(ExecutionOutcome { exit_code: COMMAND_NOT_FOUND })
            && COMMAND_NOT_FOUND != 0,
{
    lemma_first_running(m.stages, 0);
}

/// Waiting for a process leaves the outcome of a stage that was not found in
/// place.
pub proof fn lemma_wait_keeps_missing(m: RunModel, stage: int, code: i32)
    requires
        run_wf(m),
        m.stages.len() > 0,
        m.stages.last() is NotFound,
        is_running(m, stage),
    ensures
        ({
            let after = RunModel { stage_count: m.stage_count, stages: m.stages.update(stage, StageState::Exited(code)) };
            run_wf(after) && after.stages.last() is NotFound
        }),
{
    let after = m.stages.update(stage, StageState::Exited(code));
    assert(stage != m.stages.len() - 1);
    assert forall|i: int| 0 <= i < after.len() - 1 implies !is_failure(#[trigger] after[i]) by {
        if i != stage {
            assert(after[i] == m.stages[i]);
        }
    }
}

} // verus!
