//! Conditional-system behaviour, driven through the dispatch machine.

use loopless::condition::{
    into_conditional, AccessSet, Condition, ConditionKind, ConditionSet, ConditionalAction,
    ConditionalSystem, SystemPartInfo,
};

/// Drives one dispatch, answering every condition from `answers` (indexed by
/// condition position); returns (conditions evaluated, main system ran).
fn drive_dispatch(w: &mut ConditionalSystem, answers: &[Option<bool>]) -> (usize, bool) {
    let mut evaluated = 0;
    let mut action = w.run_begin();
    loop {
        match action {
            ConditionalAction::EvaluateCondition { index } => {
                evaluated += 1;
                action = w.condition_evaluated(answers[index]);
            }
            ConditionalAction::RunMainSystem => return (evaluated, true),
            ConditionalAction::SkipMainSystem => return (evaluated, false),
        }
    }
}

#[test]
fn short_circuit_stops_at_first_false() {
    // Conditions [true, false, ...]: the third condition is never evaluated
    // and the main system does not run.
    let d = into_conditional(7).run_if(1).run_if(2).run_if(3);
    let mut w = ConditionalSystem::from_descriptor(d);
    let (evaluated, ran) = drive_dispatch(&mut w, &[Some(true), Some(false), Some(true)]);
    assert_eq!(evaluated, 2);
    assert!(!ran);
    // All true: every condition is evaluated and the main system runs.
    let (evaluated, ran) = drive_dispatch(&mut w, &[Some(true), Some(true), Some(true)]);
    assert_eq!(evaluated, 3);
    assert!(ran);
}

#[test]
fn gated_counter_runs_on_even_ticks() {
    // Scenario: `incr` increments a counter; its condition holds on even
    // tick indices. After 5 ticks the counter reads 3.
    let d = into_conditional(7).run_if(42);
    let mut w = ConditionalSystem::from_descriptor(d);
    let mut counter = 0;
    for t in 0..5 {
        let (_, ran) = drive_dispatch(&mut w, &[Some(t % 2 == 0)]);
        if ran {
            counter += 1;
        }
    }
    assert_eq!(counter, 3);
}

#[test]
fn no_conditions_always_runs() {
    let mut w = ConditionalSystem::from_descriptor(into_conditional(7));
    let (evaluated, ran) = drive_dispatch(&mut w, &[]);
    assert_eq!(evaluated, 0);
    assert!(ran);
}

#[test]
fn negated_condition_flips_result() {
    let d = into_conditional(7).run_if_not(1);
    let mut w = ConditionalSystem::from_descriptor(d);
    let (_, ran) = drive_dispatch(&mut w, &[Some(false)]);
    assert!(ran);
    let (_, ran) = drive_dispatch(&mut w, &[Some(true)]);
    assert!(!ran);
}

#[test]
fn resource_conditions_on_missing_resource() {
    // With the resource absent: exists is false, unless-exists is true,
    // added/changed are false, equals and not-equals are both false.
    let d = into_conditional(7)
        .run_if_resource_exists(1)
        .run_unless_resource_exists(2)
        .run_if_resource_added(3)
        .run_if_resource_changed(4)
        .run_if_resource_equals(5)
        .run_unless_resource_equals(6);
    let mut w = ConditionalSystem::from_descriptor(d);
    let absent = [Some(false), Some(false), None, None, None, None];
    let (evaluated, ran) = drive_dispatch(&mut w, &absent);
    assert_eq!((evaluated, ran), (1, false)); // exists fails at once
    let present = [Some(true), Some(true), Some(false), Some(true), Some(true), Some(true)];
    let (evaluated, ran) = drive_dispatch(&mut w, &present);
    // unless-exists fails second (the resource behind token 2 is present)
    assert_eq!((evaluated, ran), (2, false));
}

#[test]
fn resource_removed_fires_once_after_disappearance() {
    let d = into_conditional(7).run_if_resource_removed(9);
    let mut w = ConditionalSystem::from_descriptor(d);
    // Present: remembers it, does not fire.
    let (_, ran) = drive_dispatch(&mut w, &[Some(true)]);
    assert!(!ran);
    // Absent right after being present: fires.
    let (_, ran) = drive_dispatch(&mut w, &[Some(false)]);
    assert!(ran);
    // Still absent: fires no more.
    let (_, ran) = drive_dispatch(&mut w, &[Some(false)]);
    assert!(!ran);
}

#[test]
fn condition_set_prepends_before_own_conditions() {
    // The set's conditions are checked before each system's own, later-added
    // first; every accumulated condition applies to every system.
    let set = ConditionSet::new()
        .run_if(1)
        .run_if(2)
        .with_system(into_conditional(7).run_if(3))
        .with_system(9u64);
    let built = set.build();
    assert_eq!(built.len(), 2);
    let tokens = |ds: &Vec<Condition>| -> Vec<u64> {
        ds.iter()
            .map(|c| match c.kind {
                ConditionKind::Custom { condition } => condition,
                _ => panic!("unexpected kind"),
            })
            .collect()
    };
    assert_eq!(built[0].system, 7);
    assert_eq!(tokens(&built[0].conditions), vec![2, 1, 3]);
    assert_eq!(built[1].system, 9);
    assert_eq!(tokens(&built[1].conditions), vec![2, 1]);
}

#[test]
fn condition_set_orderings_apply_to_the_batch() {
    let set = ConditionSet::new()
        .label(String::from("group"))
        .before(String::from("render"))
        .after(String::from("input"))
        .with_system(into_conditional(7).label(String::from("own")));
    let built = set.build();
    assert_eq!(built[0].labels, vec![String::from("own"), String::from("group")]);
    assert_eq!(built[0].befores, vec![String::from("render")]);
    assert_eq!(built[0].afters, vec![String::from("input")]);
}

#[test]
fn descriptor_orderings_accumulate() {
    let mut d = into_conditional(7);
    d.add_label(String::from("a"));
    d.add_before(String::from("b"));
    d.add_after(String::from("c"));
    let d = d.label(String::from("d")).before(String::from("e")).after(String::from("f"));
    assert_eq!(d.labels, vec![String::from("a"), String::from("d")]);
    assert_eq!(d.befores, vec![String::from("b"), String::from("e")]);
    assert_eq!(d.afters, vec![String::from("c"), String::from("f")]);
}

fn part(reads: &[u64], writes: &[u64], send: bool, exclusive: bool) -> SystemPartInfo {
    let mut component_access = AccessSet::new();
    let mut archetype_component_access = AccessSet::new();
    for r in reads {
        component_access.add_read(*r);
        archetype_component_access.add_read(*r + 1000);
    }
    for w in writes {
        component_access.add_write(*w);
        archetype_component_access.add_write(*w + 1000);
    }
    SystemPartInfo { component_access, archetype_component_access, send, exclusive }
}

#[test]
fn access_aggregation_is_a_superset_of_all_parts() {
    let d = into_conditional(7).run_if(1).run_if(2);
    let mut w = ConditionalSystem::from_descriptor(d);
    let main = part(&[10], &[11], true, false);
    let conds = vec![part(&[20], &[], true, false), part(&[30], &[31], true, false)];
    w.initialize(&main, &conds);
    let reads = &w.component_access().reads;
    assert!(reads.contains(&10) && reads.contains(&20) && reads.contains(&30));
    let writes = &w.component_access().writes;
    assert!(writes.contains(&11) && writes.contains(&31));

    // Archetype access grows with notifications and loses nothing.
    w.update_archetype_component_access(&main, &conds);
    let before = w.archetype_component_access().reads.clone();
    let conds2 = vec![part(&[20, 21], &[], true, false), part(&[30], &[31], true, false)];
    w.update_archetype_component_access(&main, &conds2);
    let after = &w.archetype_component_access().reads;
    for r in &before {
        assert!(after.contains(r));
    }
    assert!(after.contains(&1021));
}

#[test]
fn send_and_exclusive_aggregate_over_parts() {
    let d = into_conditional(7).run_if(1).run_if(2);
    let mut w = ConditionalSystem::from_descriptor(d);
    w.initialize(&part(&[], &[], true, false), &vec![
        part(&[], &[], true, false),
        part(&[], &[], true, false),
    ]);
    assert!(w.is_send());
    assert!(!w.is_exclusive());

    let d = into_conditional(7).run_if(1).run_if(2);
    let mut w = ConditionalSystem::from_descriptor(d);
    w.initialize(&part(&[], &[], true, false), &vec![
        part(&[], &[], false, false),
        part(&[], &[], true, true),
    ]);
    assert!(!w.is_send());
    assert!(w.is_exclusive());
}

#[test]
fn change_tick_is_shared_by_all_parts() {
    let mut w = ConditionalSystem::from_descriptor(into_conditional(7));
    assert_eq!(w.get_last_change_tick(), 0);
    w.set_last_change_tick(17);
    assert_eq!(w.get_last_change_tick(), 17);
}
