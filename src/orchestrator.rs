//! The orchestrator's decisions as a state machine: check that the simulator
//! is there, measure the calibration run, then each benchmark in registration
//! order. The caller performs each action and hands back what happened.
use vstd::prelude::*;

verus! {

/// Where the orchestrator stands.
#[derive(Clone, Copy, Debug, PartialEq, Eq, Structural)]
pub enum Phase {
    /// Waiting for the result of the simulator check.
    CheckTool,
    /// Waiting for the calibration run.
    Calibrate,
    /// Waiting for the run of the benchmark at this index.
    Bench(usize),
    /// The run is over.
    Done,
}

/// What the caller reports back.
#[derive(Clone, Copy, Debug, PartialEq, Eq, Structural)]
pub enum Event {
    /// The simulator check ran; `true` where the simulator can be launched.
    ToolChecked(bool),
    /// The requested measurement completed.
    Measured,
}

/// What the caller is to do next.
#[derive(Clone, Copy, Debug, PartialEq, Eq, Structural)]
pub enum Action {
    /// Check that the simulator can be launched.
    CheckTool,
    /// Measure the calibration run, which calls no benchmark.
    MeasureCalibration,
    /// Measure the benchmark at this index.
    MeasureBench(usize),
    /// Stop with a diagnostic: the simulator is not available.
    Abort,
    /// Every benchmark has been measured.
    Finish,
}

/// The action that `phase` waits on.
pub open spec fn pending(phase: Phase) -> Action {
    match phase {
        Phase::CheckTool => Action::CheckTool,
        Phase::Calibrate => Action::MeasureCalibration,
        Phase::Bench(i) => Action::MeasureBench(i),
        Phase::Done => Action::Finish,
    }
}

/// The next phase and action after `event` in `phase`, with `count`
/// registered benchmarks. An event that does not answer the pending action
/// changes nothing and asks for that action again.
pub open spec fn step_spec(count: nat, phase: Phase, event: Event) -> (Phase, Action) {
    match (phase, event) {
        (Phase::CheckTool, Event::ToolChecked(ok)) => if ok {
            (Phase::Calibrate, Action::MeasureCalibration)
        } else {
            (Phase::Done, Action::Abort)
        },
        (Phase::Calibrate, Event::Measured) => if count > 0 {
            (Phase::Bench(0), Action::MeasureBench(0))
        } else {
            (Phase::Done, Action::Finish)
        },
        (Phase::Bench(i), Event::Measured) => if i + 1 < count {
            (Phase::Bench((i + 1) as usize), Action::MeasureBench((i + 1) as usize))
        } else {
            (Phase::Done, Action::Finish)
        },
        _ => (phase, pending(phase)),
    }
}

/// The orchestrator of a run over `count` registered benchmarks.
pub struct Orchestrator {
    pub count: usize,
    pub phase: Phase,
}

impl Orchestrator {
    /// A benchmark phase names a registered benchmark.
    pub open spec fn wf(self) -> bool {
        self.phase matches Phase::Bench(i) ==> i < self.count
    }

    /// A run over `count` benchmarks, about to check for the simulator.
    pub fn new(count: usize) -> (r: Orchestrator)
        ensures
            r.count == count,
            r.phase == Phase::CheckTool,
            r.wf(),
    {
        Orchestrator { count, phase: Phase::CheckTool }
    }

    /// The action that the orchestrator waits on.
    pub fn next_action(&self) -> (r: Action)
        ensures
            r == pending(self.phase),
    {
        match self.phase {
            Phase::CheckTool => Action::CheckTool,
            Phase::Calibrate => Action::MeasureCalibration,
            Phase::Bench(i) => Action::MeasureBench(i),
            Phase::Done => Action::Finish,
        }
    }

    /// Takes in what happened and says what to do next.
    pub fn step(&mut self, event: Event) -> (r: Action)
        requires
            old(self).wf(),
        ensures
            final(self).count == old(self).count,
            (final(self).phase, r) == step_spec(old(self).count as nat, old(self).phase, event),
            final(self).wf(),
            r == pending(final(self).phase) || r == Action::Abort,
    {
        let (phase, action) = match (self.phase, event) {
            (Phase::CheckTool, Event::ToolChecked(ok)) => if ok {
                (Phase::Calibrate, Action::MeasureCalibration)
            } else {
                (Phase::Done, Action::Abort)
            },
            (Phase::Calibrate, Event::Measured) => if self.count > 0 {
                (Phase::Bench(0), Action::MeasureBench(0))
            } else {
                (Phase::Done, Action::Finish)
            },
            (Phase::Bench(i), Event::Measured) => if i + 1 < self.count {
                (Phase::Bench(i + 1), Action::MeasureBench(i + 1))
            } else {
                (Phase::Done, Action::Finish)
            },
            (phase, _) => (phase, self.next_action()),
        };
        self.phase = phase;
        action
    }
}

/// Without the simulator nothing is measured: a failed check ends the run
/// with a diagnostic, and once the run is over no event asks for another
/// measurement.
pub proof fn lemma_no_tool_no_measurement(count: nat, event: Event)
    ensures
        step_spec(count, Phase::CheckTool, Event::ToolChecked(false)) == (Phase::Done, Action::Abort),
        step_spec(count, Phase::Done, event) == (Phase::Done, Action::Finish),
{
}

/// Benchmarks are measured in registration order: after the calibration run
/// comes the first benchmark, and after each benchmark the next one, until
/// the last.
pub proof fn lemma_benchmarks_in_order(count: nat, i: usize)
    requires
        i < count,
    ensures
        step_spec(count, Phase::Calibrate, Event::Measured).1 == Action::MeasureBench(0),
        i + 1 < count ==> step_spec(count, Phase::Bench(i), Event::Measured).1
            == Action::MeasureBench((i + 1) as usize),
        i + 1 == count ==> step_spec(count, Phase::Bench(i), Event::Measured).1 == Action::Finish,
{
}

} // verus!
