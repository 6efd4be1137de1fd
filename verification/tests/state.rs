//! State driver behaviour, driven through the step machine.

use loopless::state::{
    CurrentState, NextState, StateSubStage, StateTransitionStage, StateTransitionStageLabel,
    TransitionAction,
};

// State values for a three-state type.
const A: u32 = 0;
const B: u32 = 1;
const C: u32 = 2;

#[test]
fn cascade_runs_exits_and_enters_in_order() {
    // Scenario: initial A; enter-of-B queues C. A single invocation performs
    // the whole cascade: exit(A), current = B, enter(B), exit(B),
    // current = C, enter(C).
    let mut d = StateTransitionStage::new(A);
    d.set_exit_stage(A, StateSubStage::Custom { stage: 100 });
    d.set_enter_stage(B, StateSubStage::Custom { stage: 101 });
    d.set_exit_stage(B, StateSubStage::Custom { stage: 102 });
    d.set_enter_stage(C, StateSubStage::Custom { stage: 103 });

    let mut current = Some(CurrentState(A));
    let mut next = Some(NextState(B));
    let mut trace: Vec<(&str, u32, u32)> = Vec::new(); // (kind, state, current value)

    let mut action = d.tick(&mut current, &mut next);
    loop {
        match action {
            TransitionAction::RunExit { state } => {
                trace.push(("exit", state, current.unwrap().0));
                if state == B {
                    // nothing; the pending target C was already consumed
                }
                action = d.stage_done(&mut current, &mut next);
            }
            TransitionAction::RunEnter { state } => {
                trace.push(("enter", state, current.unwrap().0));
                if state == B {
                    // the enter sub-stage of B queues a transition to C
                    next = Some(NextState(C));
                }
                action = d.stage_done(&mut current, &mut next);
            }
            TransitionAction::Done => break,
        }
    }

    assert_eq!(
        trace,
        vec![
            ("exit", A, A),  // exit(A) runs while A is still current
            ("enter", B, B), // current already B when enter(B) runs
            ("exit", B, B),
            ("enter", C, C),
        ]
    );
    assert_eq!(current, Some(CurrentState(C)));
    assert_eq!(next, None);
}

#[test]
fn reenter_same_state_runs_exit_and_enter() {
    // Scenario: initial A; queueing NextState = A re-enters A: both exit(A)
    // and enter(A) run, and A stays current.
    let mut d = StateTransitionStage::new(A);
    d.set_exit_stage(A, StateSubStage::Custom { stage: 100 });
    d.set_enter_stage(A, StateSubStage::Custom { stage: 101 });

    let mut current = None;
    let mut next = None;
    let mut trace: Vec<(&str, u32)> = Vec::new();

    // First invocation: installs A and runs the initial enter.
    let mut action = d.tick(&mut current, &mut next);
    loop {
        match action {
            TransitionAction::RunExit { state } => {
                trace.push(("exit", state));
                action = d.stage_done(&mut current, &mut next);
            }
            TransitionAction::RunEnter { state } => {
                trace.push(("enter", state));
                action = d.stage_done(&mut current, &mut next);
            }
            TransitionAction::Done => break,
        }
    }
    assert_eq!(trace, vec![("enter", A)]);
    assert_eq!(current, Some(CurrentState(A)));

    // Second invocation: re-enter A.
    next = Some(NextState(A));
    trace.clear();
    let mut action = d.tick(&mut current, &mut next);
    loop {
        match action {
            TransitionAction::RunExit { state } => {
                trace.push(("exit", state));
                action = d.stage_done(&mut current, &mut next);
            }
            TransitionAction::RunEnter { state } => {
                trace.push(("enter", state));
                action = d.stage_done(&mut current, &mut next);
            }
            TransitionAction::Done => break,
        }
    }
    assert_eq!(trace, vec![("exit", A), ("enter", A)]);
    assert_eq!(current, Some(CurrentState(A)));
    assert_eq!(next, None);
}

#[test]
fn initial_enter_runs_exactly_once() {
    let mut d = StateTransitionStage::new(A);
    d.set_enter_stage(A, StateSubStage::Custom { stage: 100 });
    let mut current = None;
    let mut next = None;

    let action = d.tick(&mut current, &mut next);
    assert_eq!(action, TransitionAction::RunEnter { state: A });
    assert_eq!(current, Some(CurrentState(A)));
    let action = d.stage_done(&mut current, &mut next);
    assert_eq!(action, TransitionAction::Done);

    // Further invocations never take the initialisation path again.
    for _ in 0..3 {
        let action = d.tick(&mut current, &mut next);
        assert_eq!(action, TransitionAction::Done);
    }
}

#[test]
fn preseeded_current_skips_initial_enter() {
    let mut d = StateTransitionStage::new(A);
    d.set_enter_stage(A, StateSubStage::Custom { stage: 100 });
    let mut current = Some(CurrentState(B));
    let mut next = None;
    let action = d.tick(&mut current, &mut next);
    assert_eq!(action, TransitionAction::Done);
    assert_eq!(current, Some(CurrentState(B)));
}

#[test]
fn missing_current_is_restored_from_last_known() {
    let mut d = StateTransitionStage::new(A);
    let mut current = None;
    let mut next = Some(NextState(B));
    // No sub-stages registered: the whole transition happens in one call.
    let action = d.tick(&mut current, &mut next);
    assert_eq!(action, TransitionAction::Done);
    assert_eq!(current, Some(CurrentState(B)));

    // Something removed the resource; the driver reinserts the last value
    // without running any enter sub-stage.
    current = None;
    let action = d.tick(&mut current, &mut next);
    assert_eq!(action, TransitionAction::Done);
    assert_eq!(current, Some(CurrentState(B)));
}

#[test]
fn transition_without_registered_stages_is_silent() {
    let mut d = StateTransitionStage::new(A);
    d.set_enter_stage(C, StateSubStage::Custom { stage: 103 });
    let mut current = Some(CurrentState(A));
    let mut next = Some(NextState(B));
    // A -> B has no sub-stages: one call does it all.
    let action = d.tick(&mut current, &mut next);
    assert_eq!(action, TransitionAction::Done);
    assert_eq!(current, Some(CurrentState(B)));
    assert_eq!(next, None);
    // B -> C has an enter sub-stage.
    next = Some(NextState(C));
    let action = d.tick(&mut current, &mut next);
    assert_eq!(action, TransitionAction::RunEnter { state: C });
    assert_eq!(current, Some(CurrentState(C)));
    let action = d.stage_done(&mut current, &mut next);
    assert_eq!(action, TransitionAction::Done);
}

#[test]
fn add_enter_system_builds_default_sub_stage() {
    let mut d = StateTransitionStage::new(A);
    d.add_enter_system(B, 10);
    d.add_enter_system(B, 11);
    d.add_exit_system(B, 20);
    let mut set = Vec::new();
    set.push(21);
    set.push(22);
    d.add_exit_system_set(B, &set);
    match d.get_enter_stage(&B) {
        Some(StateSubStage::Systems { systems }) => assert_eq!(systems, &vec![10, 11]),
        other => panic!("unexpected enter stage: {:?}", other),
    }
    match d.get_exit_stage(&B) {
        Some(StateSubStage::Systems { systems }) => assert_eq!(systems, &vec![20, 21, 22]),
        other => panic!("unexpected exit stage: {:?}", other),
    }
    assert!(d.get_enter_stage(&C).is_none());
}

#[test]
fn builder_forms_register_stages() {
    let set = vec![31, 32];
    let d = StateTransitionStage::new(A)
        .with_enter_stage(A, StateSubStage::Custom { stage: 1 })
        .with_exit_stage(A, StateSubStage::Custom { stage: 2 })
        .with_enter_system(B, 30)
        .with_enter_system_set(B, &set)
        .with_exit_system(C, 40)
        .with_exit_system_set(C, &vec![41]);
    assert_eq!(d.get_enter_stage(&A), Some(&StateSubStage::Custom { stage: 1 }));
    assert_eq!(d.get_exit_stage(&A), Some(&StateSubStage::Custom { stage: 2 }));
    match d.get_enter_stage(&B) {
        Some(StateSubStage::Systems { systems }) => assert_eq!(systems, &vec![30, 31, 32]),
        other => panic!("unexpected enter stage: {:?}", other),
    }
    match d.get_exit_stage(&C) {
        Some(StateSubStage::Systems { systems }) => assert_eq!(systems, &vec![40, 41]),
        other => panic!("unexpected exit stage: {:?}", other),
    }
}

#[test]
fn set_stage_replaces_registration() {
    let mut d = StateTransitionStage::new(A);
    d.set_enter_stage(A, StateSubStage::Custom { stage: 1 });
    d.set_enter_stage(A, StateSubStage::Custom { stage: 2 });
    assert_eq!(d.get_enter_stage(&A), Some(&StateSubStage::Custom { stage: 2 }));
}

#[test]
fn state_label_round_trip() {
    let label = StateTransitionStageLabel::from_type("GameState");
    assert_eq!(label.as_str(), "GameState");
}
