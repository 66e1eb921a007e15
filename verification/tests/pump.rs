use plant_bot::duration::Duration;
use plant_bot::pump::{pump_start, pump_step, PumpAction, PumpStage, CYCLE_PERIOD_SECS, PUMP_SECS, SETTLE_SECS};

fn run(cycles: usize) -> Vec<PumpAction> {
    let mut state = pump_start(cycles);
    let mut out = Vec::new();
    loop {
        let (action, next) = pump_step(state, cycles);
        if action == PumpAction::Done {
            assert_eq!(state.stage, PumpStage::Finished);
            return out;
        }
        out.push(action);
        state = next;
    }
}

fn cycle(last: bool) -> Vec<PumpAction> {
    let mut v = vec![
        PumpAction::TurnOn,
        PumpAction::Wait(Duration::from_secs(60)),
        PumpAction::Wait(Duration::from_secs(2)),
        PumpAction::TurnOff,
    ];
    if !last {
        v.push(PumpAction::Wait(Duration::from_secs(3538)));
    }
    v
}

#[test]
fn pump_schedule_runs_each_cycle() {
    assert_eq!(run(0), vec![]);
    assert_eq!(run(1), cycle(true));
    let mut three = cycle(false);
    three.extend(cycle(false));
    three.extend(cycle(true));
    assert_eq!(run(3), three);
    assert_eq!(run(10).iter().filter(|a| **a == PumpAction::TurnOn).count(), 10);
    assert_eq!(run(10).iter().filter(|a| **a == PumpAction::TurnOff).count(), 10);
    assert_eq!(*run(10).last().unwrap(), PumpAction::TurnOff);
}

#[test]
fn pump_constants() {
    assert_eq!((PUMP_SECS, SETTLE_SECS, CYCLE_PERIOD_SECS), (60, 2, 3600));
}
