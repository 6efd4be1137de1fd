//! Fixed-timestep stage behaviour, driven through the step machine.

use loopless::fixedtimestep::{
    FixedTimestepStage, FixedTimestepStageLabel, FixedTimesteps, TimestepAction, MAX_STEP_NANOS,
};

const MS: u64 = 1_000_000;

/// Drives one whole tick, running children as no-ops; returns how many child
/// runs happened and the steps count the machine reported.
fn drive_tick(
    stage: &mut FixedTimestepStage,
    reg: &mut FixedTimesteps,
    delta: Option<u64>,
) -> (u64, u64) {
    let mut child_runs: u64 = 0;
    let mut action = stage.tick(reg, delta);
    loop {
        match action {
            TimestepAction::RunSubStage { .. } => {
                child_runs += 1;
                action = stage.sub_stage_done(reg);
            }
            TimestepAction::TickDone { steps } => return (child_runs, steps),
        }
    }
}

#[test]
fn catch_up_runs_child_twice() {
    // Scenario: step = 100 ms, six deltas of 40 ms; the child must run
    // exactly floor(240/100) = 2 times and 40 ms stay accumulated.
    let mut reg = FixedTimesteps::new();
    let mut stage = FixedTimestepStage::new(100 * MS, String::from("sim"));
    stage.add_stage(1);
    let mut runs: u64 = 0;
    for _ in 0..6 {
        let (child_runs, steps) = drive_tick(&mut stage, &mut reg, Some(40 * MS));
        assert_eq!(child_runs, steps);
        runs += child_runs;
    }
    assert_eq!(runs, 2);
    let info = reg.get(&String::from("sim")).unwrap();
    assert_eq!(info.accumulator, 40 * MS);
    assert_eq!(info.step, 100 * MS);
}

#[test]
fn catch_up_totals_follow_total_delta() {
    // Total executed steps equal floor(total delta / step) and the leftover
    // equals total delta % step, across uneven ticks.
    let mut reg = FixedTimesteps::new();
    let mut stage = FixedTimestepStage::new(100 * MS, String::from("t"));
    stage.add_stage(7);
    let deltas = [250 * MS, 30 * MS, 130 * MS];
    let mut total_steps: u64 = 0;
    for d in deltas {
        let (child_runs, _) = drive_tick(&mut stage, &mut reg, Some(d));
        total_steps += child_runs;
    }
    assert_eq!(total_steps, 4); // floor(410 / 100)
    let info = reg.get(&String::from("t")).unwrap();
    assert_eq!(info.accumulator, 10 * MS); // 410 % 100
}

#[test]
fn live_rate_change_applies_mid_tick() {
    // Scenario: step 100 ms; the child lowers the step to 50 ms on its first
    // run. Deltas [120, 40]: each tick runs the child exactly once, and the
    // accumulator ends at 10 ms.
    let label = String::from("sim");
    let mut reg = FixedTimesteps::new();
    let mut stage = FixedTimestepStage::new(100 * MS, label.clone());
    stage.add_stage(1);

    // First tick: delta 120 ms.
    let mut runs_first: u64 = 0;
    let mut action = stage.tick(&mut reg, Some(120 * MS));
    loop {
        match action {
            TimestepAction::RunSubStage { .. } => {
                runs_first += 1;
                if runs_first == 1 {
                    // The child system mutates the registry entry.
                    let info = reg.get_mut(&label).unwrap();
                    info.step = 50 * MS;
                }
                action = stage.sub_stage_done(&mut reg);
            }
            TimestepAction::TickDone { .. } => break,
        }
    }
    assert_eq!(runs_first, 1); // accumulator 20 < new step 50 stops the loop

    // Second tick: delta 40 ms; accumulator 20 + 40 = 60 >= 50.
    let (runs_second, _) = drive_tick(&mut stage, &mut reg, Some(40 * MS));
    assert_eq!(runs_second, 1);
    let info = reg.get(&label).unwrap();
    assert_eq!(info.step, 50 * MS);
    assert_eq!(info.accumulator, 10 * MS);
}

#[test]
fn pause_skips_and_preserves_accumulator() {
    // Scenario: pausing from outside skips the child entirely and keeps the
    // accumulator; unpausing resumes from the preserved value.
    let label = String::from("sim");
    let mut reg = FixedTimesteps::new();
    let mut stage = FixedTimestepStage::new(100 * MS, label.clone());
    stage.add_stage(1);

    let (runs, _) = drive_tick(&mut stage, &mut reg, Some(60 * MS));
    assert_eq!(runs, 0);
    assert_eq!(reg.get(&label).unwrap().accumulator, 60 * MS);

    reg.get_mut(&label).unwrap().pause();
    let (runs, steps) = drive_tick(&mut stage, &mut reg, Some(60 * MS));
    assert_eq!((runs, steps), (0, 0));
    // The delta of the paused tick was not accumulated.
    assert_eq!(reg.get(&label).unwrap().accumulator, 60 * MS);

    reg.get_mut(&label).unwrap().unpause();
    let (runs, _) = drive_tick(&mut stage, &mut reg, Some(60 * MS));
    assert_eq!(runs, 1); // 60 + 60 = 120 >= 100
    assert_eq!(reg.get(&label).unwrap().accumulator, 20 * MS);
}

#[test]
fn missing_delta_skips_tick() {
    let mut reg = FixedTimesteps::new();
    let mut stage = FixedTimestepStage::new(100 * MS, String::from("sim"));
    stage.add_stage(1);
    let (runs, steps) = drive_tick(&mut stage, &mut reg, Some(90 * MS));
    assert_eq!((runs, steps), (0, 0));
    let (runs, steps) = drive_tick(&mut stage, &mut reg, None);
    assert_eq!((runs, steps), (0, 0));
    assert_eq!(reg.get(&String::from("sim")).unwrap().accumulator, 90 * MS);
}

#[test]
fn rate_lock_pins_accumulator_at_half_step() {
    // After three consecutive single-step ticks the lock engages and the
    // accumulator is re-centred at half a step; while locked, every tick
    // runs exactly one step and ends at half a step, until the overstep
    // deviation forces an unlock.
    let label = String::from("sim");
    let mut reg = FixedTimesteps::new();
    let mut stage =
        FixedTimestepStage::new(100 * MS, label.clone()).with_rate_lock(3, 100_000); // 0.1
    for _ in 0..3 {
        let (_, steps) = drive_tick(&mut stage, &mut reg, Some(100 * MS));
        assert_eq!(steps, 1);
    }
    // Lock engaged on the third tick; accumulator pinned to step / 2.
    let (_, steps) = drive_tick(&mut stage, &mut reg, Some(98 * MS));
    assert_eq!(steps, 1);
    assert_eq!(reg.get(&label).unwrap().accumulator, 50 * MS);
    let (_, steps) = drive_tick(&mut stage, &mut reg, Some(104 * MS));
    assert_eq!(steps, 1);
    assert_eq!(reg.get(&label).unwrap().accumulator, 50 * MS);
    // A large stall: overstep 2.5 deviates by 1.0 >= 0.1, so the lock drops
    // and the backlog is drained normally.
    let (_, steps) = drive_tick(&mut stage, &mut reg, Some(200 * MS));
    assert_eq!(steps, 2);
    assert_eq!(reg.get(&label).unwrap().accumulator, 50 * MS);
}

#[test]
fn rate_lock_runs_one_pass_of_every_child() {
    // Locked mode with several children: each tick runs exactly one pass of
    // the whole child list and ends with the accumulator at half a step.
    let label = String::from("sim");
    let mut reg = FixedTimesteps::new();
    let mut stage = FixedTimestepStage::new(100 * MS, label.clone())
        .with_stage(10)
        .with_stage(11)
        .with_stage(12)
        .with_rate_lock(2, 100_000); // 0.1
    for _ in 0..2 {
        let (child_runs, steps) = drive_tick(&mut stage, &mut reg, Some(100 * MS));
        assert_eq!((child_runs, steps), (3, 1));
    }
    // Lock engaged; the pinned ticks still run exactly one full pass.
    for _ in 0..3 {
        let (child_runs, steps) = drive_tick(&mut stage, &mut reg, Some(97 * MS));
        assert_eq!((child_runs, steps), (3, 1));
        assert_eq!(reg.get(&label).unwrap().accumulator, 50 * MS);
    }
}

#[test]
fn registry_current_is_set_only_inside_a_tick() {
    let label = String::from("sim");
    let mut reg = FixedTimesteps::new();
    let mut stage = FixedTimestepStage::new(100 * MS, label.clone());
    stage.add_stage(1);
    assert!(reg.get_current().is_none());
    let mut action = stage.tick(&mut reg, Some(150 * MS));
    loop {
        match action {
            TimestepAction::RunSubStage { .. } => {
                // While a child runs, the registry names the running timestep.
                assert_eq!(reg.get_current().unwrap().step, 100 * MS);
                assert_eq!(reg.current().step, 100 * MS);
                action = stage.sub_stage_done(&mut reg);
            }
            TimestepAction::TickDone { .. } => break,
        }
    }
    assert!(reg.get_current().is_none());
}

#[test]
fn registry_lookup_and_single() {
    let mut reg = FixedTimesteps::new();
    assert!(reg.get(&String::from("a")).is_none());
    assert!(reg.get_single().is_none());

    let stage_a = FixedTimestepStage::new(10 * MS, String::from("a"));
    stage_a.store_fixedtimestepinfo(&mut reg);
    assert_eq!(reg.get(&String::from("a")).unwrap().step, 10 * MS);
    assert_eq!(reg.get_single().unwrap().step, 10 * MS);
    assert_eq!(reg.single().step, 10 * MS);
    assert_eq!(reg.single_mut().step, 10 * MS);

    let stage_b = FixedTimestepStage::new(20 * MS, String::from("b"));
    stage_b.store_fixedtimestepinfo(&mut reg);
    assert!(reg.get_single().is_none());
    assert!(reg.get_single_mut().is_none());
    assert_eq!(reg.get(&String::from("b")).unwrap().step, 20 * MS);

    // Writes through the mutable lookup are published.
    reg.get_mut(&String::from("a")).unwrap().accumulator = 5 * MS;
    assert_eq!(reg.get(&String::from("a")).unwrap().accumulator, 5 * MS);
    assert!(reg.get_mut(&String::from("zz")).is_none());
}

#[test]
fn info_pause_toggles() {
    let mut reg = FixedTimesteps::new();
    FixedTimestepStage::new(10 * MS, String::from("a")).store_fixedtimestepinfo(&mut reg);
    let info = reg.get_mut(&String::from("a")).unwrap();
    assert_eq!(info.timestep(), 10 * MS);
    assert_eq!(info.remaining(), 0);
    assert!(!info.paused);
    info.pause();
    assert!(info.paused);
    info.toggle_pause();
    assert!(!info.paused);
    info.toggle_pause();
    assert!(info.paused);
    info.unpause();
    assert!(!info.paused);
}

#[test]
fn paused_builder_starts_paused() {
    let label = String::from("sim");
    let mut reg = FixedTimesteps::new();
    let mut stage = FixedTimestepStage::new(100 * MS, label.clone()).paused().with_stage(1);
    stage.store_fixedtimestepinfo(&mut reg);
    let (runs, _) = drive_tick(&mut stage, &mut reg, Some(500 * MS));
    assert_eq!(runs, 0);
}

#[test]
fn from_stage_runs_the_given_child() {
    let mut reg = FixedTimesteps::new();
    let mut stage = FixedTimestepStage::from_stage(100 * MS, String::from("sim"), 42);
    let mut saw = None;
    let mut action = stage.tick(&mut reg, Some(100 * MS));
    loop {
        match action {
            TimestepAction::RunSubStage { index, stage: token } => {
                saw = Some((index, token));
                action = stage.sub_stage_done(&mut reg);
            }
            TimestepAction::TickDone { steps } => {
                assert_eq!(steps, 1);
                break;
            }
        }
    }
    assert_eq!(saw, Some((0, 42)));
}

#[test]
fn children_run_in_insertion_order() {
    let mut reg = FixedTimesteps::new();
    let mut stage = FixedTimestepStage::new(100 * MS, String::from("sim"))
        .with_stage(10)
        .with_stage(11)
        .with_stage(12);
    let mut order = Vec::new();
    let mut action = stage.tick(&mut reg, Some(100 * MS));
    loop {
        match action {
            TimestepAction::RunSubStage { index, stage: token } => {
                order.push((index, token));
                action = stage.sub_stage_done(&mut reg);
            }
            TimestepAction::TickDone { .. } => break,
        }
    }
    assert_eq!(order, vec![(0, 10), (1, 11), (2, 12)]);
}

#[test]
fn storing_under_the_same_label_updates_in_place() {
    let mut reg = FixedTimesteps::new();
    FixedTimestepStage::new(10 * MS, String::from("a")).store_fixedtimestepinfo(&mut reg);
    FixedTimestepStage::new(20 * MS, String::from("a")).store_fixedtimestepinfo(&mut reg);
    // Still a single entry, holding the later parameters.
    assert_eq!(reg.get_single().unwrap().step, 20 * MS);
}

#[test]
fn largest_step_and_delta_stay_in_range() {
    let label = String::from("big");
    let mut reg = FixedTimesteps::new();
    let mut stage = FixedTimestepStage::new(MAX_STEP_NANOS, label.clone());
    let (_, steps) = drive_tick(&mut stage, &mut reg, Some(u64::MAX));
    assert_eq!(steps, u64::MAX / MAX_STEP_NANOS);
    assert_eq!(reg.get(&label).unwrap().accumulator, u64::MAX % MAX_STEP_NANOS);
}

#[test]
fn stage_label_as_str() {
    let label = FixedTimestepStageLabel(String::from("sim"));
    assert_eq!(label.as_str(), "sim");
}
