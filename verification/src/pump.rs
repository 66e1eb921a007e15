//! The watering schedule: each cycle switches the pump on, pumps, lets it
//! settle, switches it off, and rests until the next cycle starts an hour
//! after the previous one. The actions themselves are performed outside.
use vstd::prelude::*;
use crate::duration::Duration;

verus! {

/// Seconds the pump runs in one cycle.
pub const PUMP_SECS: u64 = 60;

/// Seconds between the end of pumping and switching the pump off.
pub const SETTLE_SECS: u64 = 2;

/// Seconds from the start of one cycle to the start of the next.
pub const CYCLE_PERIOD_SECS: u64 = 3600;

/// Seconds of rest between switching off and the next cycle.
pub open spec fn rest_secs() -> u64 {
    (CYCLE_PERIOD_SECS - PUMP_SECS - SETTLE_SECS) as u64
}

/// Where a watering run stands.
#[derive(Clone, Copy, Debug, PartialEq, Eq, Structural)]
pub enum PumpStage {
    /// About to switch the pump on.
    SwitchOn,
    /// Pump on, about to wait while it pumps.
    Pump,
    /// Pumping done, about to wait before switching off.
    Settle,
    /// About to switch the pump off.
    SwitchOff,
    /// Pump off, about to rest before the next cycle.
    Rest,
    /// All cycles done.
    Finished,
}

/// The state of a watering run: the cycle (counted from 1) and its stage.
#[derive(Clone, Copy, Debug, PartialEq, Eq, Structural)]
pub struct PumpState {
    pub cycle: usize,
    pub stage: PumpStage,
}

/// What the controller does next.
#[derive(Clone, Copy, Debug, PartialEq, Eq, Structural)]
pub enum PumpAction {
    /// Switch the pump on.
    TurnOn,
    /// Wait this long.
    Wait(Duration),
    /// Switch the pump off.
    TurnOff,
    /// Nothing more to do.
    Done,
}

/// A state that a run of `cycles` cycles can be in: finished, or inside a
/// cycle `1..=cycles`, resting only before a later cycle.
pub open spec fn pump_state_valid(state: PumpState, cycles: usize) -> bool {
    state.stage == PumpStage::Finished || (1 <= state.cycle <= cycles && (state.stage
        == PumpStage::Rest ==> state.cycle < cycles))
}

/// The state a run of `cycles` cycles starts in.
pub open spec fn pump_start_spec(cycles: usize) -> PumpState {
    if cycles == 0 {
        PumpState { cycle: 0, stage: PumpStage::Finished }
    } else {
        PumpState { cycle: 1, stage: PumpStage::SwitchOn }
    }
}

/// The action to take in `state` and the state after it.
pub open spec fn pump_next(state: PumpState, cycles: usize) -> (PumpAction, PumpState) {
    let c = state.cycle;
    match state.stage {
        PumpStage::SwitchOn => (PumpAction::TurnOn, PumpState { cycle: c, stage: PumpStage::Pump }),
        PumpStage::Pump => (
            PumpAction::Wait(Duration::of_secs(PUMP_SECS)),
            PumpState { cycle: c, stage: PumpStage::Settle },
        ),
        PumpStage::Settle => (
            PumpAction::Wait(Duration::of_secs(SETTLE_SECS)),
            PumpState { cycle: c, stage: PumpStage::SwitchOff },
        ),
        PumpStage::SwitchOff => (
            PumpAction::TurnOff,
            PumpState {
                cycle: c,
                stage: if c < cycles {
                    PumpStage::Rest
                } else {
                    PumpStage::Finished
                },
            },
        ),
        PumpStage::Rest => (
            PumpAction::Wait(Duration::of_secs(rest_secs())),
            PumpState { cycle: (c + 1) as usize, stage: PumpStage::SwitchOn },
        ),
        PumpStage::Finished => (PumpAction::Done, state),
    }
}

/// Starts a run of `cycles` watering cycles.
pub fn pump_start(cycles: usize) -> (res: PumpState)
    ensures
        res == pump_start_spec(cycles),
        pump_state_valid(res, cycles),
{
    if cycles == 0 {
        PumpState { cycle: 0, stage: PumpStage::Finished }
    } else {
        PumpState { cycle: 1, stage: PumpStage::SwitchOn }
    }
}

/// The next action of a run of `cycles` cycles and the state after it.
pub fn pump_step(state: PumpState, cycles: usize) -> (res: (PumpAction, PumpState))
    requires
        pump_state_valid(state, cycles),
    ensures
        res == pump_next(state, cycles),
        pump_state_valid(res.1, cycles),
{
    let c = state.cycle;
    match state.stage {
        PumpStage::SwitchOn => (PumpAction::TurnOn, PumpState { cycle: c, stage: PumpStage::Pump }),
        PumpStage::Pump => (
            PumpAction::Wait(Duration::from_secs(PUMP_SECS)),
            PumpState { cycle: c, stage: PumpStage::Settle },
        ),
        PumpStage::Settle => (
            PumpAction::Wait(Duration::from_secs(SETTLE_SECS)),
            PumpState { cycle: c, stage: PumpStage::SwitchOff },
        ),
        PumpStage::SwitchOff => {
            let stage = if c < cycles {
                PumpStage::Rest
            } else {
                PumpStage::Finished
            };
            (PumpAction::TurnOff, PumpState { cycle: c, stage })
        },
        PumpStage::Rest => (
            PumpAction::Wait(Duration::from_secs(CYCLE_PERIOD_SECS - PUMP_SECS - SETTLE_SECS)),
            PumpState { cycle: c + 1, stage: PumpStage::SwitchOn },
        ),
        PumpStage::Finished => (PumpAction::Done, state),
    }
}

/// The actions of at most `steps` steps from `state`, up to the end of the run.
pub open spec fn pump_run(state: PumpState, cycles: usize, steps: nat) -> Seq<PumpAction>
    decreases steps,
{
    if steps == 0 || state.stage == PumpStage::Finished {
        Seq::empty()
    } else {
        seq![pump_next(state, cycles).0] + pump_run(pump_next(state, cycles).1, cycles, (steps - 1) as nat)
    }
}

/// The actions of one cycle: on, pump, settle, off, and a rest unless it is
/// the last cycle.
pub open spec fn cycle_actions(last: bool) -> Seq<PumpAction> {
    seq![
        PumpAction::TurnOn,
        PumpAction::Wait(Duration::of_secs(PUMP_SECS)),
        PumpAction::Wait(Duration::of_secs(SETTLE_SECS)),
        PumpAction::TurnOff,
    ] + if last {
        Seq::empty()
    } else {
        seq![PumpAction::Wait(Duration::of_secs(rest_secs()))]
    }
}

/// The actions of cycles `from..=cycles`.
pub open spec fn pump_schedule(from: int, cycles: int) -> Seq<PumpAction>
    decreases cycles - from,
{
    if from < 1 || from > cycles {
        Seq::empty()
    } else if from == cycles {
        cycle_actions(true)
    } else {
        cycle_actions(false) + pump_schedule(from + 1, cycles)
    }
}

proof fn lemma_run_from(i: usize, cycles: usize)
    requires
        1 <= i <= cycles,
    ensures
        pump_run(PumpState { cycle: i, stage: PumpStage::SwitchOn }, cycles, (5 * (cycles - i + 1)) as nat)
            == pump_schedule(i as int, cycles as int),
    decreases cycles - i,
{
    reveal_with_fuel(pump_run, 6);
    let s0 = PumpState { cycle: i, stage: PumpStage::SwitchOn };
    let n: nat = (5 * (cycles - i + 1)) as nat;
    if i == cycles {
        assert(pump_run(s0, cycles, n) =~= cycle_actions(true));
    } else {
        lemma_run_from((i + 1) as usize, cycles);
        let s5 = PumpState { cycle: (i + 1) as usize, stage: PumpStage::SwitchOn };
        assert(pump_run(s0, cycles, n) =~= cycle_actions(false) + pump_run(s5, cycles, (n - 5) as nat));
    }
}

/// A run of `cycles` cycles performs exactly the schedule: each cycle
/// switches on, pumps `PUMP_SECS`, settles `SETTLE_SECS` and switches off,
/// and every cycle but the last then rests until an hour after its start;
/// the pump is never left on when the run ends.
pub proof fn law_pump_schedule(cycles: usize)
    ensures
        pump_run(pump_start_spec(cycles), cycles, (5 * cycles) as nat) == pump_schedule(1, cycles as int),
{
    if cycles > 0 {
        lemma_run_from(1, cycles);
    }
}

/// Every reachable state stays valid, and a finished run stays finished.
pub proof fn law_pump_state_valid(state: PumpState, cycles: usize)
    requires
        pump_state_valid(state, cycles),
    ensures
        pump_state_valid(pump_next(state, cycles).1, cycles),
        state.stage == PumpStage::Finished ==> pump_next(state, cycles) == (PumpAction::Done, state),
{
}

} // verus!

verus! {

/// Each cycle pumps for one minute, lets the pump settle for two seconds
/// and switches it off; every cycle but the last then rests so that the
/// next cycle starts one hour (3600 s) after the previous one.
pub proof fn law_cycle_timing()
    ensures
        cycle_actions(true) == seq![
            PumpAction::TurnOn,
            PumpAction::Wait(Duration::of_secs(60)),
            PumpAction::Wait(Duration::of_secs(2)),
            PumpAction::TurnOff,
        ],
        cycle_actions(false) == seq![
            PumpAction::TurnOn,
            PumpAction::Wait(Duration::of_secs(60)),
            PumpAction::Wait(Duration::of_secs(2)),
            PumpAction::TurnOff,
            PumpAction::Wait(Duration::of_secs(3538)),
        ],
        60 + 2 + 3538 == 3600,
{
    assert(cycle_actions(true) =~= seq![
        PumpAction::TurnOn,
        PumpAction::Wait(Duration::of_secs(60)),
        PumpAction::Wait(Duration::of_secs(2)),
        PumpAction::TurnOff,
    ]);
    assert(cycle_actions(false) =~= seq![
        PumpAction::TurnOn,
        PumpAction::Wait(Duration::of_secs(60)),
        PumpAction::Wait(Duration::of_secs(2)),
        PumpAction::TurnOff,
        PumpAction::Wait(Duration::of_secs(3538)),
    ]);
}

/// A run of `cycles` cycles takes five actions per cycle, less the rest
/// after the last one, and ends with the pump switched off.
pub proof fn law_run_switches(cycles: usize)
    ensures
        cycles > 0 ==> pump_run(pump_start_spec(cycles), cycles, (5 * cycles) as nat).last()
            == PumpAction::TurnOff,
        pump_run(pump_start_spec(cycles), cycles, (5 * cycles) as nat).len() == if cycles == 0 {
            0
        } else {
            5 * cycles - 1
        },
{
    law_pump_schedule(cycles);
    if cycles > 0 {
        lemma_schedule_shape(1, cycles as int);
    }
}

proof fn lemma_schedule_shape(from: int, cycles: int)
    requires
        1 <= from <= cycles,
    ensures
        pump_schedule(from, cycles).len() == 5 * (cycles - from + 1) - 1,
        pump_schedule(from, cycles).last() == PumpAction::TurnOff,
    decreases cycles - from,
{
    if from < cycles {
        lemma_schedule_shape(from + 1, cycles);
    }
}

} // verus!
