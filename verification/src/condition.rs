//! Conditional systems: run conditions attached to a main system.
//!
//! A [`ConditionalSystem`] wraps one main system and an ordered list of run
//! conditions. At dispatch time the conditions are evaluated in order; the
//! moment one of them does not hold, the remaining conditions and the main
//! system are skipped. Towards the host scheduler the wrapper behaves as a
//! single system whose declared data access is the union of the accesses of
//! the main system and of every condition, so the host can still schedule it
//! safely in parallel.
//!
//! The wrapper is a step machine: the caller starts a dispatch with
//! [`run_begin`], evaluates the condition each returned action names against
//! the host world, and hands the observation back through
//! [`condition_evaluated`], until the action says to run the main system or
//! to skip it. Systems and custom conditions are identified by caller-chosen
//! tokens; the structured condition kinds carry everything the wrapper itself
//! decides, and the caller only reports what it observed in the world.
//!
//! A [`ConditionSet`] collects conditions and ordering labels once and
//! applies them to a whole batch of systems.
//!
//! [`run_begin`]: ConditionalSystem::run_begin
//! [`condition_evaluated`]: ConditionalSystem::condition_evaluated

use vstd::prelude::*;

verus! {

/// A set of component identifiers a system reads and a set it writes.
#[derive(Debug, PartialEq, Eq)]
pub struct AccessSet {
    /// Components read.
    pub reads: Vec<u64>,
    /// Components written.
    pub writes: Vec<u64>,
}

/// The elements of a concatenation are the union of the elements.
proof fn lemma_concat_to_set(a: Seq<u64>, b: Seq<u64>)
    ensures
        (a + b).to_set() == a.to_set().union(b.to_set()),
{
    assert forall|x: u64| #![auto] (a + b).to_set().contains(x) implies a.to_set().union(
        b.to_set(),
    ).contains(x) by {
        let i = choose|i: int| 0 <= i < (a + b).len() && (a + b)[i] == x;
        if i < a.len() {
            assert(a[i] == x);
        } else {
            assert(b[i - a.len()] == x);
        }
    }
    assert forall|x: u64| #![auto] a.to_set().union(b.to_set()).contains(x) implies (
    a + b).to_set().contains(x) by {
        if a.to_set().contains(x) {
            let i = choose|i: int| 0 <= i < a.len() && a[i] == x;
            assert((a + b)[i] == x);
        } else {
            let i = choose|i: int| 0 <= i < b.len() && b[i] == x;
            assert((a + b)[a.len() + i] == x);
        }
    }
    assert((a + b).to_set() =~= a.to_set().union(b.to_set()));
}

impl AccessSet {
    /// The components read, as a set.
    pub open spec fn read_set(self) -> Set<u64> {
        self.reads@.to_set()
    }

    /// The components written, as a set.
    pub open spec fn write_set(self) -> Set<u64> {
        self.writes@.to_set()
    }

    /// `self` declares everything `other` declares.
    pub open spec fn covers(self, other: AccessSet) -> bool {
        other.read_set().subset_of(self.read_set()) && other.write_set().subset_of(
            self.write_set(),
        )
    }

    /// An empty access set.
    pub fn new() -> (r: Self)
        ensures
            r.read_set() == Set::<u64>::empty(),
            r.write_set() == Set::<u64>::empty(),
    {
        let r = AccessSet { reads: Vec::new(), writes: Vec::new() };
        proof {
            assert(r.read_set() =~= Set::<u64>::empty());
            assert(r.write_set() =~= Set::<u64>::empty());
        }
        r
    }

    /// Declare a component as read.
    pub fn add_read(&mut self, component: u64)
        ensures
            final(self).read_set() == old(self).read_set().insert(component),
            final(self).write_set() == old(self).write_set(),
    {
        self.reads.push(component);
        proof {
            old(self).reads@.lemma_push_to_set_commute(component);
        }
    }

    /// Declare a component as written.
    pub fn add_write(&mut self, component: u64)
        ensures
            final(self).write_set() == old(self).write_set().insert(component),
            final(self).read_set() == old(self).read_set(),
    {
        self.writes.push(component);
        proof {
            old(self).writes@.lemma_push_to_set_commute(component);
        }
    }

    /// Extend `self` with everything `other` declares.
    pub fn extend(&mut self, other: &AccessSet)
        ensures
            final(self).read_set() == old(self).read_set().union(other.read_set()),
            final(self).write_set() == old(self).write_set().union(other.write_set()),
    {
        let mut j: usize = 0;
        let m = other.reads.len();
        while j < m
            invariant
                0 <= j <= m,
                m == other.reads@.len(),
                self.reads@ == old(self).reads@ + other.reads@.take(j as int),
                self.writes@ == old(self).writes@,
            decreases m - j,
        {
            self.reads.push(other.reads[j]);
            proof {
                assert(old(self).reads@ + other.reads@.take(j as int) + seq![
                    other.reads@[j as int],
                ] =~= old(self).reads@ + other.reads@.take(j as int + 1));
            }
            j += 1;
        }
        let mut k: usize = 0;
        let n = other.writes.len();
        while k < n
            invariant
                0 <= k <= n,
                n == other.writes@.len(),
                self.reads@ == old(self).reads@ + other.reads@.take(m as int),
                m == other.reads@.len(),
                self.writes@ == old(self).writes@ + other.writes@.take(k as int),
            decreases n - k,
        {
            self.writes.push(other.writes[k]);
            proof {
                assert(old(self).writes@ + other.writes@.take(k as int) + seq![
                    other.writes@[k as int],
                ] =~= old(self).writes@ + other.writes@.take(k as int + 1));
            }
            k += 1;
        }
        proof {
            assert(other.reads@.take(m as int) =~= other.reads@);
            assert(other.writes@.take(n as int) =~= other.writes@);
            lemma_concat_to_set(old(self).reads@, other.reads@);
            lemma_concat_to_set(old(self).writes@, other.writes@);
        }
    }
}

/// The union of a sequence of sets.
pub open spec fn union_sets(sets: Seq<Set<u64>>) -> Set<u64>
    decreases sets.len(),
{
    if sets.len() == 0 {
        Set::empty()
    } else {
        union_sets(sets.drop_last()).union(sets.last())
    }
}

/// Law: access monotonicity, set side. The union of a family of access sets
/// contains each member, so an aggregate equal to that union declares
/// everything its parts declare.
pub proof fn lemma_union_sets_superset(sets: Seq<Set<u64>>, i: int)
    requires
        0 <= i < sets.len(),
    ensures
        sets[i].subset_of(union_sets(sets)),
    decreases sets.len(),
{
    if i + 1 == sets.len() {
    } else {
        lemma_union_sets_superset(sets.drop_last(), i);
        assert(sets.drop_last()[i] == sets[i]);
    }
}

/// Law: access monotonicity. An aggregate access equal to a base joined
/// with the union of some parts' accesses and a main access — which is what
/// [`ConditionalSystem::initialize`] and
/// [`ConditionalSystem::update_archetype_component_access`] establish, with
/// the previous aggregate as the base — covers the base, the main access,
/// and every part's access: nothing a part declares is ever lost.
pub proof fn lemma_aggregate_covers(
    agg: AccessSet,
    base: AccessSet,
    part_reads: Seq<Set<u64>>,
    part_writes: Seq<Set<u64>>,
    main: AccessSet,
    i: int,
)
    requires
        0 <= i < part_reads.len(),
        part_writes.len() == part_reads.len(),
        agg.read_set() == base.read_set().union(union_sets(part_reads)).union(main.read_set()),
        agg.write_set() == base.write_set().union(union_sets(part_writes)).union(main.write_set()),
    ensures
        agg.covers(base),
        agg.covers(main),
        part_reads[i].subset_of(agg.read_set()),
        part_writes[i].subset_of(agg.write_set()),
{
    lemma_union_sets_superset(part_reads, i);
    lemma_union_sets_superset(part_writes, i);
}

/// What a system declares to the scheduler: its data access and its
/// threading flags.
#[derive(Debug, PartialEq, Eq)]
pub struct SystemPartInfo {
    /// Component-level access.
    pub component_access: AccessSet,
    /// Archetype-component-level access.
    pub archetype_component_access: AccessSet,
    /// Whether the system may run off the main thread.
    pub send: bool,
    /// Whether the system needs exclusive world access.
    pub exclusive: bool,
}

/// What a run condition tests, together with the world object (by token) it
/// tests it on. The caller evaluating a condition reports an observation of
/// the world as an `Option<bool>`; what that observation means per kind is
/// written at [`condition_raw_holds`].
#[derive(Clone, Copy, Debug, PartialEq, Eq)]
pub enum ConditionKind {
    /// A user predicate system; the observation is its boolean return.
    Custom {
        /// The caller's token for the predicate system.
        condition: u64,
    },
    /// Holds when the event queue for the event type has events; the
    /// observation is that emptiness test.
    OnEvent {
        /// The caller's token for the event type.
        event: u64,
    },
    /// Holds when the resource exists; the observation is its presence.
    ResourceExists {
        /// The caller's token for the resource type.
        resource: u64,
    },
    /// Holds when the resource exists and was added this tick; the
    /// observation is `None` when absent, else `Some` of the added flag.
    ResourceAdded {
        /// The caller's token for the resource type.
        resource: u64,
    },
    /// Holds when the resource exists and changed since last observed; the
    /// observation is `None` when absent, else `Some` of the changed flag.
    ResourceChanged {
        /// The caller's token for the resource type.
        resource: u64,
    },
    /// Holds on the tick after the resource disappeared: the condition
    /// remembers whether it has seen the resource, and holds when the
    /// resource is now absent but had been seen. The observation is the
    /// resource's presence.
    ResourceRemoved {
        /// The caller's token for the resource type.
        resource: u64,
        /// Whether the resource existed when last evaluated.
        existed: bool,
    },
    /// Holds when the resource exists and equals a reference value; the
    /// observation is `None` when absent, else `Some` of the equality test.
    ResourceEquals {
        /// The caller's token for the (resource, reference value) pair.
        value: u64,
    },
    /// Holds when the resource exists and differs from a reference value;
    /// the observation is `None` when absent, else `Some` of the equality
    /// test.
    ResourceNotEquals {
        /// The caller's token for the (resource, reference value) pair.
        value: u64,
    },
}

/// One run condition: what it tests, and whether its result is flipped.
#[derive(Clone, Copy, Debug, PartialEq, Eq)]
pub struct Condition {
    /// What the condition tests.
    pub kind: ConditionKind,
    /// Flip the result (a condition added with a `not` builder).
    pub negate: bool,
}

/// Whether a condition kind holds for an observation, before negation.
pub open spec fn condition_raw_holds(kind: ConditionKind, obs: Option<bool>) -> bool {
    match kind {
        ConditionKind::ResourceRemoved { existed, .. } => obs == Some(false) && existed,
        ConditionKind::ResourceNotEquals { .. } => obs == Some(false),
        _ => obs == Some(true),
    }
}

/// Whether a condition holds for an observation.
pub open spec fn condition_holds(c: Condition, obs: Option<bool>) -> bool {
    if c.negate {
        !condition_raw_holds(c.kind, obs)
    } else {
        condition_raw_holds(c.kind, obs)
    }
}

/// The condition's persistent state after an evaluation: the removed-watch
/// updates its memory of the resource's presence.
pub open spec fn condition_stepped(c: Condition, obs: Option<bool>) -> Condition {
    match c.kind {
        ConditionKind::ResourceRemoved { resource, .. } => Condition {
            kind: ConditionKind::ResourceRemoved { resource, existed: obs == Some(true) },
            ..c
        },
        _ => c,
    }
}

/// Evaluate a condition against an observation, updating its persistent
/// state and returning whether it holds.
pub fn evaluate_condition(c: &mut Condition, obs: Option<bool>) -> (r: bool)
    ensures
        r == condition_holds(*old(c), obs),
        *final(c) == condition_stepped(*old(c), obs),
{
    let raw = match c.kind {
        ConditionKind::ResourceRemoved { resource, existed } => {
            let present = match obs {
                Some(p) => p,
                None => false,
            };
            let held = !present && existed && obs.is_some();
            c.kind = ConditionKind::ResourceRemoved { resource, existed: present };
            held
        },
        ConditionKind::ResourceNotEquals { .. } => {
            match obs {
                Some(equal) => !equal,
                None => false,
            }
        },
        _ => {
            match obs {
                Some(b) => b,
                None => false,
            }
        },
    };
    if c.negate {
        !raw
    } else {
        raw
    }
}

/// What the caller dispatching a conditional system must do next.
#[derive(Clone, Copy, Debug, PartialEq, Eq, Structural)]
pub enum ConditionalAction {
    /// Evaluate the run condition at `index` and hand the observation to
    /// [`ConditionalSystem::condition_evaluated`].
    EvaluateCondition {
        /// Position of the condition in evaluation order.
        index: usize,
    },
    /// Every condition held: run the main system.
    RunMainSystem,
    /// A condition did not hold: do not run the main system this dispatch.
    SkipMainSystem,
}

/// The outcome of one advance of a conditional system's dispatch: the
/// conditions' persistent state, the evaluation position, and the action.
pub struct EvalOutcome {
    /// The conditions afterwards (the removed-watch updates its memory).
    pub conditions: Seq<Condition>,
    /// The condition being evaluated, if any.
    pub evaluating: Option<usize>,
    /// What the caller must do next.
    pub action: ConditionalAction,
}

/// A main system governed by run conditions.
///
/// Behaves as one system towards the scheduler: its declared access is the
/// union of its parts' accesses, it is send only when every part is, and at
/// dispatch time it runs the main system only when every condition,
/// evaluated in order, holds — stopping at the first that does not.
#[derive(Debug)]
pub struct ConditionalSystem {
    /// The caller's token for the main system.
    pub system: u64,
    /// The run conditions, in evaluation order.
    pub conditions: Vec<Condition>,
    /// Aggregate component-level access of the main system and all
    /// conditions, as of initialisation.
    pub component_access: AccessSet,
    /// Aggregate archetype-component-level access, extended on archetype
    /// notifications.
    pub archetype_component_access: AccessSet,
    /// Whether the main system may run off the main thread.
    pub main_send: bool,
    /// Whether the main system needs exclusive world access.
    pub main_exclusive: bool,
    /// Per condition, whether it may run off the main thread.
    pub condition_sends: Vec<bool>,
    /// Per condition, whether it needs exclusive world access.
    pub condition_exclusives: Vec<bool>,
    /// The change tick below which the parts consider data unchanged; held
    /// once for the wrapper and propagated to every part.
    pub last_change_tick: u32,
    /// Mid-dispatch position.
    pub evaluating: Option<usize>,
}

impl ConditionalSystem {
    /// The per-condition bookkeeping matches the condition list, and any
    /// mid-dispatch position addresses a real condition.
    pub open spec fn wf(self) -> bool {
        &&& self.condition_sends@.len() == self.conditions@.len()
        &&& self.condition_exclusives@.len() == self.conditions@.len()
        &&& (self.evaluating matches Some(i) ==> i < self.conditions@.len())
    }

    /// One call of [`run_begin`](Self::run_begin): with no conditions the
    /// main system runs at once, otherwise evaluation starts at the first
    /// condition.
    pub open spec fn spec_run_begin(self) -> (Option<usize>, ConditionalAction) {
        if self.conditions@.len() == 0 {
            (None, ConditionalAction::RunMainSystem)
        } else {
            (Some(0usize), ConditionalAction::EvaluateCondition { index: 0 })
        }
    }

    /// One call of [`condition_evaluated`](Self::condition_evaluated): step
    /// the evaluated condition's persistent state; if it did not hold, the
    /// dispatch ends without the main system, and no further condition is
    /// evaluated; otherwise move to the next condition, or to the main
    /// system after the last.
    pub open spec fn spec_condition_evaluated(self, obs: Option<bool>) -> EvalOutcome
        recommends
            self.evaluating is Some,
    {
        let i = self.evaluating.unwrap() as int;
        let c = self.conditions@[i];
        let stepped = self.conditions@.update(i, condition_stepped(c, obs));
        if !condition_holds(c, obs) {
            EvalOutcome {
                conditions: stepped,
                evaluating: None,
                action: ConditionalAction::SkipMainSystem,
            }
        } else if i + 1 < self.conditions@.len() {
            EvalOutcome {
                conditions: stepped,
                evaluating: Some((i + 1) as usize),
                action: ConditionalAction::EvaluateCondition { index: (i + 1) as usize },
            }
        } else {
            EvalOutcome {
                conditions: stepped,
                evaluating: None,
                action: ConditionalAction::RunMainSystem,
            }
        }
    }

    /// Create the wrapper a descriptor describes. Data access starts empty
    /// (it is aggregated at initialisation), and the parts' threading flags
    /// default to ordinary parallel systems until initialisation reports
    /// them.
    pub fn from_descriptor(d: ConditionalSystemDescriptor) -> (r: Self)
        ensures
            r.system == d.system,
            r.conditions@ == d.conditions@,
            r.component_access.read_set() == Set::<u64>::empty(),
            r.component_access.write_set() == Set::<u64>::empty(),
            r.archetype_component_access.read_set() == Set::<u64>::empty(),
            r.archetype_component_access.write_set() == Set::<u64>::empty(),
            r.evaluating is None,
            r.wf(),
    {
        let n = d.conditions.len();
        ConditionalSystem {
            system: d.system,
            conditions: d.conditions,
            component_access: AccessSet::new(),
            archetype_component_access: AccessSet::new(),
            main_send: true,
            main_exclusive: false,
            condition_sends: vec![true; n],
            condition_exclusives: vec![false; n],
            last_change_tick: 0,
            evaluating: None,
        }
    }

    /// Bind the wrapper to the world: record each part's declarations and
    /// extend the aggregate component access with each condition's access
    /// and the main system's access.
    pub fn initialize(&mut self, main: &SystemPartInfo, conditions_info: &Vec<SystemPartInfo>)
        requires
            conditions_info@.len() == old(self).conditions@.len(),
        ensures
            final(self).component_access.read_set() == old(self).component_access.read_set().union(
                union_sets(
                    conditions_info@.map_values(|p: SystemPartInfo| p.component_access.read_set()),
                ),
            ).union(main.component_access.read_set()),
            final(self).component_access.write_set() == old(
                self,
            ).component_access.write_set().union(
                union_sets(
                    conditions_info@.map_values(|p: SystemPartInfo| p.component_access.write_set()),
                ),
            ).union(main.component_access.write_set()),
            final(self).archetype_component_access == old(self).archetype_component_access,
            final(self).condition_sends@ == conditions_info@.map_values(
                |p: SystemPartInfo| p.send,
            ),
            final(self).condition_exclusives@ == conditions_info@.map_values(
                |p: SystemPartInfo| p.exclusive,
            ),
            final(self).main_send == main.send,
            final(self).main_exclusive == main.exclusive,
            final(self).conditions@ == old(self).conditions@,
            final(self).system == old(self).system,
            final(self).evaluating == old(self).evaluating,
            final(self).last_change_tick == old(self).last_change_tick,
            old(self).wf() ==> final(self).wf(),
    {
        let ghost rsets = conditions_info@.map_values(
            |p: SystemPartInfo| p.component_access.read_set(),
        );
        let ghost wsets = conditions_info@.map_values(
            |p: SystemPartInfo| p.component_access.write_set(),
        );
        let n = conditions_info.len();
        let mut sends: Vec<bool> = Vec::new();
        let mut exclusives: Vec<bool> = Vec::new();
        let mut i: usize = 0;
        proof {
            assert(rsets.take(0) =~= Seq::<Set<u64>>::empty());
            assert(wsets.take(0) =~= Seq::<Set<u64>>::empty());
            assert(self.component_access.read_set().union(union_sets(rsets.take(0)))
                =~= self.component_access.read_set());
            assert(self.component_access.write_set().union(union_sets(wsets.take(0)))
                =~= self.component_access.write_set());
        }
        while i < n
            invariant
                0 <= i <= n,
                n == conditions_info@.len(),
                rsets == conditions_info@.map_values(
                    |p: SystemPartInfo| p.component_access.read_set(),
                ),
                wsets == conditions_info@.map_values(
                    |p: SystemPartInfo| p.component_access.write_set(),
                ),
                self.component_access.read_set() == old(self).component_access.read_set().union(
                    union_sets(rsets.take(i as int)),
                ),
                self.component_access.write_set() == old(self).component_access.write_set().union(
                    union_sets(wsets.take(i as int)),
                ),
                sends@ == conditions_info@.map_values(|p: SystemPartInfo| p.send).take(i as int),
                exclusives@ == conditions_info@.map_values(|p: SystemPartInfo| p.exclusive).take(
                    i as int,
                ),
                self.archetype_component_access == old(self).archetype_component_access,
                self.conditions@ == old(self).conditions@,
                self.system == old(self).system,
                self.evaluating == old(self).evaluating,
                self.last_change_tick == old(self).last_change_tick,
                self.main_send == old(self).main_send,
                self.main_exclusive == old(self).main_exclusive,
                self.condition_sends == old(self).condition_sends,
                self.condition_exclusives == old(self).condition_exclusives,
            decreases n - i,
        {
            let ghost pre = self.component_access;
            self.component_access.extend(&conditions_info[i].component_access);
            sends.push(conditions_info[i].send);
            exclusives.push(conditions_info[i].exclusive);
            proof {
                assert(rsets.take(i as int + 1).drop_last() =~= rsets.take(i as int));
                assert(wsets.take(i as int + 1).drop_last() =~= wsets.take(i as int));
                assert(self.component_access.read_set() =~= old(
                    self,
                ).component_access.read_set().union(union_sets(rsets.take(i as int + 1))));
                assert(self.component_access.write_set() =~= old(
                    self,
                ).component_access.write_set().union(union_sets(wsets.take(i as int + 1))));
                assert(conditions_info@.map_values(|p: SystemPartInfo| p.send).take(i as int)
                    + seq![conditions_info@[i as int].send] =~= conditions_info@.map_values(
                    |p: SystemPartInfo| p.send,
                ).take(i as int + 1));
                assert(conditions_info@.map_values(|p: SystemPartInfo| p.exclusive).take(i as int)
                    + seq![conditions_info@[i as int].exclusive] =~= conditions_info@.map_values(
                    |p: SystemPartInfo| p.exclusive,
                ).take(i as int + 1));
            }
            i += 1;
        }
        proof {
            assert(rsets.take(n as int) =~= rsets);
            assert(wsets.take(n as int) =~= wsets);
            assert(conditions_info@.map_values(|p: SystemPartInfo| p.send).take(n as int)
                =~= conditions_info@.map_values(|p: SystemPartInfo| p.send));
            assert(conditions_info@.map_values(|p: SystemPartInfo| p.exclusive).take(n as int)
                =~= conditions_info@.map_values(|p: SystemPartInfo| p.exclusive));
        }
        self.component_access.extend(&main.component_access);
        self.condition_sends = sends;
        self.condition_exclusives = exclusives;
        self.main_send = main.send;
        self.main_exclusive = main.exclusive;
    }

    /// An archetype notification: every part reports its (possibly grown)
    /// archetype-component access, and the aggregate is re-extended with each
    /// one's contribution. The aggregate only ever grows.
    pub fn update_archetype_component_access(
        &mut self,
        main: &SystemPartInfo,
        conditions_info: &Vec<SystemPartInfo>,
    )
        requires
            conditions_info@.len() == old(self).conditions@.len(),
        ensures
            final(self).archetype_component_access.read_set() == old(
                self,
            ).archetype_component_access.read_set().union(
                union_sets(
                    conditions_info@.map_values(
                        |p: SystemPartInfo| p.archetype_component_access.read_set(),
                    ),
                ),
            ).union(main.archetype_component_access.read_set()),
            final(self).archetype_component_access.write_set() == old(
                self,
            ).archetype_component_access.write_set().union(
                union_sets(
                    conditions_info@.map_values(
                        |p: SystemPartInfo| p.archetype_component_access.write_set(),
                    ),
                ),
            ).union(main.archetype_component_access.write_set()),
            final(self).component_access == old(self).component_access,
            final(self).conditions@ == old(self).conditions@,
            final(self).system == old(self).system,
            final(self).evaluating == old(self).evaluating,
            final(self).last_change_tick == old(self).last_change_tick,
            final(self).main_send == old(self).main_send,
            final(self).main_exclusive == old(self).main_exclusive,
            final(self).condition_sends == old(self).condition_sends,
            final(self).condition_exclusives == old(self).condition_exclusives,
            old(self).wf() ==> final(self).wf(),
    {
        let ghost rsets = conditions_info@.map_values(
            |p: SystemPartInfo| p.archetype_component_access.read_set(),
        );
        let ghost wsets = conditions_info@.map_values(
            |p: SystemPartInfo| p.archetype_component_access.write_set(),
        );
        let n = conditions_info.len();
        let mut i: usize = 0;
        proof {
            assert(rsets.take(0) =~= Seq::<Set<u64>>::empty());
            assert(wsets.take(0) =~= Seq::<Set<u64>>::empty());
            assert(self.archetype_component_access.read_set().union(union_sets(rsets.take(0)))
                =~= self.archetype_component_access.read_set());
            assert(self.archetype_component_access.write_set().union(union_sets(wsets.take(0)))
                =~= self.archetype_component_access.write_set());
        }
        while i < n
            invariant
                0 <= i <= n,
                n == conditions_info@.len(),
                rsets == conditions_info@.map_values(
                    |p: SystemPartInfo| p.archetype_component_access.read_set(),
                ),
                wsets == conditions_info@.map_values(
                    |p: SystemPartInfo| p.archetype_component_access.write_set(),
                ),
                self.archetype_component_access.read_set() == old(
                    self,
                ).archetype_component_access.read_set().union(union_sets(rsets.take(i as int))),
                self.archetype_component_access.write_set() == old(
                    self,
                ).archetype_component_access.write_set().union(union_sets(wsets.take(i as int))),
                self.component_access == old(self).component_access,
                self.conditions@ == old(self).conditions@,
                self.system == old(self).system,
                self.evaluating == old(self).evaluating,
                self.last_change_tick == old(self).last_change_tick,
                self.main_send == old(self).main_send,
                self.main_exclusive == old(self).main_exclusive,
                self.condition_sends == old(self).condition_sends,
                self.condition_exclusives == old(self).condition_exclusives,
            decreases n - i,
        {
            self.archetype_component_access.extend(&conditions_info[i].archetype_component_access);
            proof {
                assert(rsets.take(i as int + 1).drop_last() =~= rsets.take(i as int));
                assert(wsets.take(i as int + 1).drop_last() =~= wsets.take(i as int));
                assert(self.archetype_component_access.read_set() =~= old(
                    self,
                ).archetype_component_access.read_set().union(union_sets(rsets.take(i as int + 1))));
                assert(self.archetype_component_access.write_set() =~= old(
                    self,
                ).archetype_component_access.write_set().union(
                    union_sets(wsets.take(i as int + 1)),
                ));
            }
            i += 1;
        }
        proof {
            assert(rsets.take(n as int) =~= rsets);
            assert(wsets.take(n as int) =~= wsets);
        }
        self.archetype_component_access.extend(&main.archetype_component_access);
    }

    /// The aggregate component-level access.
    pub fn component_access(&self) -> (r: &AccessSet)
        ensures
            r == &self.component_access,
    {
        &self.component_access
    }

    /// The aggregate archetype-component-level access.
    pub fn archetype_component_access(&self) -> (r: &AccessSet)
        ensures
            r == &self.archetype_component_access,
    {
        &self.archetype_component_access
    }

    /// The wrapper may run off the main thread only when the main system and
    /// every condition may.
    pub fn is_send(&self) -> (r: bool)
        requires
            self.wf(),
        ensures
            r == (self.main_send && (forall|i: int|
                0 <= i < self.condition_sends@.len() ==> self.condition_sends@[i])),
    {
        let mut all: bool = self.main_send;
        let n = self.condition_sends.len();
        let mut i: usize = 0;
        while i < n
            invariant
                0 <= i <= n,
                n == self.condition_sends@.len(),
                all == (self.main_send && (forall|j: int|
                    0 <= j < i ==> self.condition_sends@[j])),
            decreases n - i,
        {
            all = all && self.condition_sends[i];
            i += 1;
        }
        all
    }

    /// The wrapper needs exclusive world access when the main system or any
    /// condition does.
    pub fn is_exclusive(&self) -> (r: bool)
        requires
            self.wf(),
        ensures
            r == (self.main_exclusive || (exists|i: int|
                0 <= i < self.condition_exclusives@.len() && self.condition_exclusives@[i])),
    {
        let mut any: bool = self.main_exclusive;
        let n = self.condition_exclusives.len();
        let mut i: usize = 0;
        while i < n
            invariant
                0 <= i <= n,
                n == self.condition_exclusives@.len(),
                any == (self.main_exclusive || (exists|j: int|
                    0 <= j < i && self.condition_exclusives@[j])),
            decreases n - i,
        {
            if self.condition_exclusives[i] {
                any = true;
            }
            i += 1;
        }
        any
    }

    /// The change tick the parts compare against.
    pub fn get_last_change_tick(&self) -> (r: u32)
        ensures
            r == self.last_change_tick,
    {
        self.last_change_tick
    }

    /// Set the change tick for the main system and every condition; the
    /// wrapper holds the one value they all share.
    pub fn set_last_change_tick(&mut self, last_change_tick: u32)
        ensures
            *final(self) == (ConditionalSystem { last_change_tick, ..*old(self) }),
    {
        self.last_change_tick = last_change_tick;
    }

    /// Start one dispatch of the wrapper.
    pub fn run_begin(&mut self) -> (r: ConditionalAction)
        requires
            old(self).wf(),
            old(self).evaluating is None,
        ensures
            final(self).wf(),
            (final(self).evaluating, r) == old(self).spec_run_begin(),
            *final(self) == (ConditionalSystem {
                evaluating: final(self).evaluating,
                ..*old(self)
            }),
    {
        if self.conditions.len() == 0 {
            ConditionalAction::RunMainSystem
        } else {
            self.evaluating = Some(0);
            ConditionalAction::EvaluateCondition { index: 0 }
        }
    }

    /// Advance a dispatch with the observation for the condition the
    /// previous action named.
    pub fn condition_evaluated(&mut self, obs: Option<bool>) -> (r: ConditionalAction)
        requires
            old(self).wf(),
            old(self).evaluating is Some,
        ensures
            final(self).wf(),
            ({
                let o = old(self).spec_condition_evaluated(obs);
                final(self).conditions@ == o.conditions && final(self).evaluating == o.evaluating
                    && r == o.action
            }),
            *final(self) == (ConditionalSystem {
                conditions: final(self).conditions,
                evaluating: final(self).evaluating,
                ..*old(self)
            }),
    {
        let i = match self.evaluating {
            Some(i) => i,
            None => vstd::pervasive::unreached(),
        };
        let n = self.conditions.len();
        proof {
            assert(i < n);
        }
        let held = evaluate_condition(&mut self.conditions[i], obs);
        if !held {
            self.evaluating = None;
            ConditionalAction::SkipMainSystem
        } else if i + 1 < n {
            self.evaluating = Some(i + 1);
            ConditionalAction::EvaluateCondition { index: i + 1 }
        } else {
            self.evaluating = None;
            ConditionalAction::RunMainSystem
        }
    }
}

/// A main system, its run conditions, and its ordering constraints, as
/// collected by the builder methods; everything needed to construct a
/// [`ConditionalSystem`] and hand it to the host schedule.
#[derive(Debug, PartialEq, Eq)]
pub struct ConditionalSystemDescriptor {
    /// The caller's token for the main system.
    pub system: u64,
    /// The run conditions, in evaluation order.
    pub conditions: Vec<Condition>,
    /// Scheduling labels for the system.
    pub labels: Vec<String>,
    /// Labels the system must run before.
    pub befores: Vec<String>,
    /// Labels the system must run after.
    pub afters: Vec<String>,
}

/// The descriptor's parts that a builder method leaves alone.
pub open spec fn same_descriptor_orderings(
    pre: ConditionalSystemDescriptor,
    post: ConditionalSystemDescriptor,
) -> bool {
    &&& post.system == pre.system
    &&& post.labels@ == pre.labels@
    &&& post.befores@ == pre.befores@
    &&& post.afters@ == pre.afters@
}

/// Convert a system (by token) into a conditional system descriptor with no
/// conditions yet.
pub fn into_conditional(system: u64) -> (r: ConditionalSystemDescriptor)
    ensures
        r.system == system,
        r.conditions@ == Seq::<Condition>::empty(),
        r.labels@ == Seq::<String>::empty(),
        r.befores@ == Seq::<String>::empty(),
        r.afters@ == Seq::<String>::empty(),
{
    let r = ConditionalSystemDescriptor {
        system,
        conditions: Vec::new(),
        labels: Vec::new(),
        befores: Vec::new(),
        afters: Vec::new(),
    };
    proof {
        assert(r.conditions@ =~= Seq::<Condition>::empty());
        assert(r.labels@ =~= Seq::<String>::empty());
        assert(r.befores@ =~= Seq::<String>::empty());
        assert(r.afters@ =~= Seq::<String>::empty());
    }
    r
}

impl ConditionalSystemDescriptor {
    /// Append a run condition.
    pub fn push_condition(&mut self, c: Condition)
        ensures
            final(self).conditions@ == old(self).conditions@.push(c),
            same_descriptor_orderings(*old(self), *final(self)),
    {
        self.conditions.push(c);
    }

    /// Add a condition: the predicate system behind the token must hold.
    pub fn run_if(self, condition: u64) -> (r: Self)
        ensures
            r.conditions@ == self.conditions@.push(
                Condition { kind: ConditionKind::Custom { condition }, negate: false },
            ),
            same_descriptor_orderings(self, r),
    {
        let mut r = self;
        r.push_condition(Condition { kind: ConditionKind::Custom { condition }, negate: false });
        r
    }

    /// Add a condition with its result flipped.
    pub fn run_if_not(self, condition: u64) -> (r: Self)
        ensures
            r.conditions@ == self.conditions@.push(
                Condition { kind: ConditionKind::Custom { condition }, negate: true },
            ),
            same_descriptor_orderings(self, r),
    {
        let mut r = self;
        r.push_condition(Condition { kind: ConditionKind::Custom { condition }, negate: true });
        r
    }

    /// Add a condition: run when the event queue has events.
    pub fn run_on_event(self, event: u64) -> (r: Self)
        ensures
            r.conditions@ == self.conditions@.push(
                Condition { kind: ConditionKind::OnEvent { event }, negate: false },
            ),
            same_descriptor_orderings(self, r),
    {
        let mut r = self;
        r.push_condition(Condition { kind: ConditionKind::OnEvent { event }, negate: false });
        r
    }

    /// Add a condition: run when the resource exists.
    pub fn run_if_resource_exists(self, resource: u64) -> (r: Self)
        ensures
            r.conditions@ == self.conditions@.push(
                Condition { kind: ConditionKind::ResourceExists { resource }, negate: false },
            ),
            same_descriptor_orderings(self, r),
    {
        let mut r = self;
        r.push_condition(
            Condition { kind: ConditionKind::ResourceExists { resource }, negate: false },
        );
        r
    }

    /// Add a condition: run when the resource does not exist.
    pub fn run_unless_resource_exists(self, resource: u64) -> (r: Self)
        ensures
            r.conditions@ == self.conditions@.push(
                Condition { kind: ConditionKind::ResourceExists { resource }, negate: true },
            ),
            same_descriptor_orderings(self, r),
    {
        let mut r = self;
        r.push_condition(
            Condition { kind: ConditionKind::ResourceExists { resource }, negate: true },
        );
        r
    }

    /// Add a condition: run when the resource was added this tick.
    pub fn run_if_resource_added(self, resource: u64) -> (r: Self)
        ensures
            r.conditions@ == self.conditions@.push(
                Condition { kind: ConditionKind::ResourceAdded { resource }, negate: false },
            ),
            same_descriptor_orderings(self, r),
    {
        let mut r = self;
        r.push_condition(
            Condition { kind: ConditionKind::ResourceAdded { resource }, negate: false },
        );
        r
    }

    /// Add a condition: run when the resource changed since last observed.
    pub fn run_if_resource_changed(self, resource: u64) -> (r: Self)
        ensures
            r.conditions@ == self.conditions@.push(
                Condition { kind: ConditionKind::ResourceChanged { resource }, negate: false },
            ),
            same_descriptor_orderings(self, r),
    {
        let mut r = self;
        r.push_condition(
            Condition { kind: ConditionKind::ResourceChanged { resource }, negate: false },
        );
        r
    }

    /// Add a condition: run on the tick after the resource disappeared.
    pub fn run_if_resource_removed(self, resource: u64) -> (r: Self)
        ensures
            r.conditions@ == self.conditions@.push(
                Condition {
                    kind: ConditionKind::ResourceRemoved { resource, existed: false },
                    negate: false,
                },
            ),
            same_descriptor_orderings(self, r),
    {
        let mut r = self;
        r.push_condition(
            Condition {
                kind: ConditionKind::ResourceRemoved { resource, existed: false },
                negate: false,
            },
        );
        r
    }

    /// Add a condition: run when the resource equals the reference value
    /// behind the token.
    pub fn run_if_resource_equals(self, value: u64) -> (r: Self)
        ensures
            r.conditions@ == self.conditions@.push(
                Condition { kind: ConditionKind::ResourceEquals { value }, negate: false },
            ),
            same_descriptor_orderings(self, r),
    {
        let mut r = self;
        r.push_condition(Condition { kind: ConditionKind::ResourceEquals { value }, negate: false });
        r
    }

    /// Add a condition: run when the resource exists and differs from the
    /// reference value behind the token.
    pub fn run_unless_resource_equals(self, value: u64) -> (r: Self)
        ensures
            r.conditions@ == self.conditions@.push(
                Condition { kind: ConditionKind::ResourceNotEquals { value }, negate: false },
            ),
            same_descriptor_orderings(self, r),
    {
        let mut r = self;
        r.push_condition(
            Condition { kind: ConditionKind::ResourceNotEquals { value }, negate: false },
        );
        r
    }

    /// Add a condition: run while the current state equals the state value
    /// behind the token (checked on the driver's current-state resource).
    pub fn run_in_state(self, state: u64) -> (r: Self)
        ensures
            r.conditions@ == self.conditions@.push(
                Condition { kind: ConditionKind::ResourceEquals { value: state }, negate: false },
            ),
            same_descriptor_orderings(self, r),
    {
        self.run_if_resource_equals(state)
    }

    /// Add a condition: run while the current state differs from the state
    /// value behind the token.
    pub fn run_not_in_state(self, state: u64) -> (r: Self)
        ensures
            r.conditions@ == self.conditions@.push(
                Condition { kind: ConditionKind::ResourceNotEquals { value: state }, negate: false },
            ),
            same_descriptor_orderings(self, r),
    {
        self.run_unless_resource_equals(state)
    }

    /// Add a scheduling label.
    pub fn add_label(&mut self, label: String)
        ensures
            final(self).labels@ == old(self).labels@.push(label),
            final(self).conditions@ == old(self).conditions@,
            final(self).befores@ == old(self).befores@,
            final(self).afters@ == old(self).afters@,
            final(self).system == old(self).system,
    {
        self.labels.push(label);
    }

    /// Add a before-ordering.
    pub fn add_before(&mut self, label: String)
        ensures
            final(self).befores@ == old(self).befores@.push(label),
            final(self).conditions@ == old(self).conditions@,
            final(self).labels@ == old(self).labels@,
            final(self).afters@ == old(self).afters@,
            final(self).system == old(self).system,
    {
        self.befores.push(label);
    }

    /// Add an after-ordering.
    pub fn add_after(&mut self, label: String)
        ensures
            final(self).afters@ == old(self).afters@.push(label),
            final(self).conditions@ == old(self).conditions@,
            final(self).labels@ == old(self).labels@,
            final(self).befores@ == old(self).befores@,
            final(self).system == old(self).system,
    {
        self.afters.push(label);
    }

    /// Builder version of [`add_label`](Self::add_label).
    pub fn label(self, label: String) -> (r: Self)
        ensures
            r.labels@ == self.labels@.push(label),
            r.conditions@ == self.conditions@,
            r.befores@ == self.befores@,
            r.afters@ == self.afters@,
            r.system == self.system,
    {
        let mut r = self;
        r.add_label(label);
        r
    }

    /// Builder version of [`add_before`](Self::add_before).
    pub fn before(self, label: String) -> (r: Self)
        ensures
            r.befores@ == self.befores@.push(label),
            r.conditions@ == self.conditions@,
            r.labels@ == self.labels@,
            r.afters@ == self.afters@,
            r.system == self.system,
    {
        let mut r = self;
        r.add_before(label);
        r
    }

    /// Builder version of [`add_after`](Self::add_after).
    pub fn after(self, label: String) -> (r: Self)
        ensures
            r.afters@ == self.afters@.push(label),
            r.conditions@ == self.conditions@,
            r.labels@ == self.labels@,
            r.befores@ == self.befores@,
            r.system == self.system,
    {
        let mut r = self;
        r.add_after(label);
        r
    }
}

/// Collects run conditions and ordering labels to be applied uniformly to a
/// whole batch of systems. Adding the first system turns it into a
/// [`ConditionSystemSet`].
#[derive(Debug, PartialEq, Eq)]
pub struct ConditionSet {
    /// The collected conditions, in the order they were added.
    pub conditions: Vec<Condition>,
    /// Scheduling labels for the whole batch.
    pub labels: Vec<String>,
    /// Labels the batch must run before.
    pub befores: Vec<String>,
    /// Labels the batch must run after.
    pub afters: Vec<String>,
}

/// The set's parts that a condition-adding builder method leaves alone.
pub open spec fn same_set_orderings(pre: ConditionSet, post: ConditionSet) -> bool {
    &&& post.labels@ == pre.labels@
    &&& post.befores@ == pre.befores@
    &&& post.afters@ == pre.afters@
}

impl ConditionSet {
    /// Create an empty condition set.
    pub fn new() -> (r: Self)
        ensures
            r.conditions@ == Seq::<Condition>::empty(),
            r.labels@ == Seq::<String>::empty(),
            r.befores@ == Seq::<String>::empty(),
            r.afters@ == Seq::<String>::empty(),
    {
        let r = ConditionSet {
            conditions: Vec::new(),
            labels: Vec::new(),
            befores: Vec::new(),
            afters: Vec::new(),
        };
        proof {
            assert(r.conditions@ =~= Seq::<Condition>::empty());
            assert(r.labels@ =~= Seq::<String>::empty());
            assert(r.befores@ =~= Seq::<String>::empty());
            assert(r.afters@ =~= Seq::<String>::empty());
        }
        r
    }

    /// Add a condition, to be applied to every system of the batch. When the
    /// batch is built, conditions are checked before each system's own ones,
    /// later-added first.
    pub fn run_if(self, condition: u64) -> (r: Self)
        ensures
            r.conditions@ == self.conditions@.push(
                Condition { kind: ConditionKind::Custom { condition }, negate: false },
            ),
            same_set_orderings(self, r),
    {
        let mut r = self;
        r.conditions.push(Condition { kind: ConditionKind::Custom { condition }, negate: false });
        r
    }

    /// Add a condition with its result flipped.
    pub fn run_if_not(self, condition: u64) -> (r: Self)
        ensures
            r.conditions@ == self.conditions@.push(
                Condition { kind: ConditionKind::Custom { condition }, negate: true },
            ),
            same_set_orderings(self, r),
    {
        let mut r = self;
        r.conditions.push(Condition { kind: ConditionKind::Custom { condition }, negate: true });
        r
    }

    /// Add a condition: run when the event queue has events.
    pub fn run_on_event(self, event: u64) -> (r: Self)
        ensures
            r.conditions@ == self.conditions@.push(
                Condition { kind: ConditionKind::OnEvent { event }, negate: false },
            ),
            same_set_orderings(self, r),
    {
        let mut r = self;
        r.conditions.push(Condition { kind: ConditionKind::OnEvent { event }, negate: false });
        r
    }

    /// Add a condition: run when the resource exists.
    pub fn run_if_resource_exists(self, resource: u64) -> (r: Self)
        ensures
            r.conditions@ == self.conditions@.push(
                Condition { kind: ConditionKind::ResourceExists { resource }, negate: false },
            ),
            same_set_orderings(self, r),
    {
        let mut r = self;
        r.conditions.push(
            Condition { kind: ConditionKind::ResourceExists { resource }, negate: false },
        );
        r
    }

    /// Add a condition: run when the resource does not exist.
    pub fn run_unless_resource_exists(self, resource: u64) -> (r: Self)
        ensures
            r.conditions@ == self.conditions@.push(
                Condition { kind: ConditionKind::ResourceExists { resource }, negate: true },
            ),
            same_set_orderings(self, r),
    {
        let mut r = self;
        r.conditions.push(
            Condition { kind: ConditionKind::ResourceExists { resource }, negate: true },
        );
        r
    }

    /// Add a condition: run when the resource was added this tick.
    pub fn run_if_resource_added(self, resource: u64) -> (r: Self)
        ensures
            r.conditions@ == self.conditions@.push(
                Condition { kind: ConditionKind::ResourceAdded { resource }, negate: false },
            ),
            same_set_orderings(self, r),
    {
        let mut r = self;
        r.conditions.push(
            Condition { kind: ConditionKind::ResourceAdded { resource }, negate: false },
        );
        r
    }

    /// Add a condition: run when the resource changed since last observed.
    pub fn run_if_resource_changed(self, resource: u64) -> (r: Self)
        ensures
            r.conditions@ == self.conditions@.push(
                Condition { kind: ConditionKind::ResourceChanged { resource }, negate: false },
            ),
            same_set_orderings(self, r),
    {
        let mut r = self;
        r.conditions.push(
            Condition { kind: ConditionKind::ResourceChanged { resource }, negate: false },
        );
        r
    }

    /// Add a condition: run on the tick after the resource disappeared.
    pub fn run_if_resource_removed(self, resource: u64) -> (r: Self)
        ensures
            r.conditions@ == self.conditions@.push(
                Condition {
                    kind: ConditionKind::ResourceRemoved { resource, existed: false },
                    negate: false,
                },
            ),
            same_set_orderings(self, r),
    {
        let mut r = self;
        r.conditions.push(
            Condition {
                kind: ConditionKind::ResourceRemoved { resource, existed: false },
                negate: false,
            },
        );
        r
    }

    /// Add a condition: run when the resource equals the reference value
    /// behind the token.
    pub fn run_if_resource_equals(self, value: u64) -> (r: Self)
        ensures
            r.conditions@ == self.conditions@.push(
                Condition { kind: ConditionKind::ResourceEquals { value }, negate: false },
            ),
            same_set_orderings(self, r),
    {
        let mut r = self;
        r.conditions.push(Condition { kind: ConditionKind::ResourceEquals { value }, negate: false });
        r
    }

    /// Add a condition: run when the resource exists and differs from the
    /// reference value behind the token.
    pub fn run_unless_resource_equals(self, value: u64) -> (r: Self)
        ensures
            r.conditions@ == self.conditions@.push(
                Condition { kind: ConditionKind::ResourceNotEquals { value }, negate: false },
            ),
            same_set_orderings(self, r),
    {
        let mut r = self;
        r.conditions.push(
            Condition { kind: ConditionKind::ResourceNotEquals { value }, negate: false },
        );
        r
    }

    /// Add a condition: run while the current state equals the state value
    /// behind the token.
    pub fn run_in_state(self, state: u64) -> (r: Self)
        ensures
            r.conditions@ == self.conditions@.push(
                Condition { kind: ConditionKind::ResourceEquals { value: state }, negate: false },
            ),
            same_set_orderings(self, r),
    {
        self.run_if_resource_equals(state)
    }

    /// Add a condition: run while the current state differs from the state
    /// value behind the token.
    pub fn run_not_in_state(self, state: u64) -> (r: Self)
        ensures
            r.conditions@ == self.conditions@.push(
                Condition { kind: ConditionKind::ResourceNotEquals { value: state }, negate: false },
            ),
            same_set_orderings(self, r),
    {
        self.run_unless_resource_equals(state)
    }

    /// Add a scheduling label for the batch.
    pub fn label(self, label: String) -> (r: Self)
        ensures
            r.labels@ == self.labels@.push(label),
            r.conditions@ == self.conditions@,
            r.befores@ == self.befores@,
            r.afters@ == self.afters@,
    {
        let mut r = self;
        r.labels.push(label);
        r
    }

    /// Add a before-ordering for the batch.
    pub fn before(self, label: String) -> (r: Self)
        ensures
            r.befores@ == self.befores@.push(label),
            r.conditions@ == self.conditions@,
            r.labels@ == self.labels@,
            r.afters@ == self.afters@,
    {
        let mut r = self;
        r.befores.push(label);
        r
    }

    /// Add an after-ordering for the batch.
    pub fn after(self, label: String) -> (r: Self)
        ensures
            r.afters@ == self.afters@.push(label),
            r.conditions@ == self.conditions@,
            r.labels@ == self.labels@,
            r.befores@ == self.befores@,
    {
        let mut r = self;
        r.afters.push(label);
        r
    }

    /// Add the first system, turning the set into a [`ConditionSystemSet`]
    /// holding exactly that system and these collected conditions.
    pub fn with_system<S: AddConditionalToSet>(self, system: S) -> (r: ConditionSystemSet)
        ensures
            r.systems@.len() == 1,
            describes(system, r.systems@[0]),
            r.conditions == self,
    {
        let mut csset = ConditionSystemSet { systems: Vec::new(), conditions: self };
        proof {
            assert(csset.systems@ =~= Seq::<ConditionalSystemDescriptor>::empty());
        }
        system.add_to_set(&mut csset);
        csset
    }
}

/// The second step of batch building: accumulates the systems, and converts
/// into descriptors with every collected condition and label applied.
#[derive(Debug, PartialEq, Eq)]
pub struct ConditionSystemSet {
    /// The accumulated systems.
    pub systems: Vec<ConditionalSystemDescriptor>,
    /// The conditions and labels to apply to each of them.
    pub conditions: ConditionSet,
}

/// Anything that can be added to a [`ConditionSystemSet`] as a system: a
/// prepared [`ConditionalSystemDescriptor`], or a bare system token. The
/// spec accessors say which descriptor the value stands for, and
/// [`add_to_set`](Self::add_to_set) promises to append exactly that
/// descriptor to the batch.
pub trait AddConditionalToSet: Sized {
    /// The main system token this value stands for.
    spec fn spec_system(self) -> u64;

    /// The run conditions it carries, in evaluation order.
    spec fn spec_conditions(self) -> Seq<Condition>;

    /// Its scheduling labels.
    spec fn spec_labels(self) -> Seq<String>;

    /// Its before-orderings.
    spec fn spec_befores(self) -> Seq<String>;

    /// Its after-orderings.
    spec fn spec_afters(self) -> Seq<String>;

    /// Add `self` to the set: the batch gains, after the systems already
    /// there, exactly the descriptor `self` stands for; the collected
    /// conditions are untouched.
    fn add_to_set(self, set: &mut ConditionSystemSet)
        ensures
            final(set).systems@.len() == old(set).systems@.len() + 1,
            final(set).systems@ == old(set).systems@.push(final(set).systems@.last()),
            final(set).systems@.last().system == self.spec_system(),
            final(set).systems@.last().conditions@ == self.spec_conditions(),
            final(set).systems@.last().labels@ == self.spec_labels(),
            final(set).systems@.last().befores@ == self.spec_befores(),
            final(set).systems@.last().afters@ == self.spec_afters(),
            final(set).conditions == old(set).conditions,
    ;
}

/// The descriptor `d` carries exactly the parts `s` stands for.
pub open spec fn describes<S: AddConditionalToSet>(s: S, d: ConditionalSystemDescriptor) -> bool {
    &&& d.system == s.spec_system()
    &&& d.conditions@ == s.spec_conditions()
    &&& d.labels@ == s.spec_labels()
    &&& d.befores@ == s.spec_befores()
    &&& d.afters@ == s.spec_afters()
}

impl AddConditionalToSet for ConditionalSystemDescriptor {
    open spec fn spec_system(self) -> u64 {
        self.system
    }

    open spec fn spec_conditions(self) -> Seq<Condition> {
        self.conditions@
    }

    open spec fn spec_labels(self) -> Seq<String> {
        self.labels@
    }

    open spec fn spec_befores(self) -> Seq<String> {
        self.befores@
    }

    open spec fn spec_afters(self) -> Seq<String> {
        self.afters@
    }

    fn add_to_set(self, set: &mut ConditionSystemSet) {
        set.systems.push(self);
    }
}

impl AddConditionalToSet for u64 {
    open spec fn spec_system(self) -> u64 {
        self
    }

    open spec fn spec_conditions(self) -> Seq<Condition> {
        Seq::empty()
    }

    open spec fn spec_labels(self) -> Seq<String> {
        Seq::empty()
    }

    open spec fn spec_befores(self) -> Seq<String> {
        Seq::empty()
    }

    open spec fn spec_afters(self) -> Seq<String> {
        Seq::empty()
    }

    fn add_to_set(self, set: &mut ConditionSystemSet) {
        set.systems.push(into_conditional(self));
    }
}

/// `rd` is `d` with a condition set's conditions and orderings applied: the
/// set's conditions come first, later-added first, then the system's own;
/// the set's orderings follow the system's own.
pub open spec fn applied_to(
    cset: ConditionSet,
    d: ConditionalSystemDescriptor,
    rd: ConditionalSystemDescriptor,
) -> bool {
    &&& rd.system == d.system
    &&& rd.conditions@ == cset.conditions@.reverse() + d.conditions@
    &&& rd.labels@ == d.labels@ + cset.labels@
    &&& rd.befores@ == d.befores@ + cset.befores@
    &&& rd.afters@ == d.afters@ + cset.afters@
}

/// Append clones of `from`'s strings to `to`.
fn append_labels(to: &mut Vec<String>, from: &Vec<String>)
    ensures
        final(to)@ == old(to)@ + from@,
{
    let n = from.len();
    let mut i: usize = 0;
    while i < n
        invariant
            0 <= i <= n,
            n == from@.len(),
            to@ == old(to)@ + from@.take(i as int),
        decreases n - i,
    {
        to.push(from[i].clone());
        proof {
            assert(old(to)@ + from@.take(i as int) + seq![from@[i as int]] =~= old(to)@
                + from@.take(i as int + 1));
        }
        i += 1;
    }
    proof {
        assert(from@.take(n as int) =~= from@);
    }
}

impl ConditionSystemSet {
    /// Add a system to the set, after the systems already there.
    pub fn add_system<S: AddConditionalToSet>(&mut self, system: S)
        ensures
            final(self).systems@.len() == old(self).systems@.len() + 1,
            final(self).systems@ == old(self).systems@.push(final(self).systems@.last()),
            describes(system, final(self).systems@.last()),
            final(self).conditions == old(self).conditions,
    {
        system.add_to_set(self);
    }

    /// Builder version of [`add_system`](Self::add_system).
    pub fn with_system<S: AddConditionalToSet>(self, system: S) -> (r: Self)
        ensures
            r.systems@.len() == self.systems@.len() + 1,
            r.systems@ == self.systems@.push(r.systems@.last()),
            describes(system, r.systems@.last()),
            r.conditions == self.conditions,
    {
        let mut r = self;
        system.add_to_set(&mut r);
        r
    }

    /// Apply the collected conditions and orderings to one system.
    fn apply_to_system(cset: &ConditionSet, d: ConditionalSystemDescriptor) -> (r:
        ConditionalSystemDescriptor)
        ensures
            applied_to(*cset, d, r),
    {
        let mut cs: Vec<Condition> = Vec::new();
        let m = cset.conditions.len();
        let mut k: usize = m;
        while k > 0
            invariant
                0 <= k <= m,
                m == cset.conditions@.len(),
                cs@.len() == m - k,
                forall|t: int|
                    0 <= t < cs@.len() ==> cs@[t] == cset.conditions@[m - 1 - t],
            decreases k,
        {
            k -= 1;
            cs.push(cset.conditions[k]);
        }
        proof {
            assert(cs@ =~= cset.conditions@.reverse());
        }
        let mut own = d;
        let n = own.conditions.len();
        let mut t: usize = 0;
        while t < n
            invariant
                0 <= t <= n,
                n == own.conditions@.len(),
                cs@ == cset.conditions@.reverse() + own.conditions@.take(t as int),
                m == cset.conditions@.len(),
            decreases n - t,
        {
            cs.push(own.conditions[t]);
            proof {
                assert(cset.conditions@.reverse() + own.conditions@.take(t as int) + seq![
                    own.conditions@[t as int],
                ] =~= cset.conditions@.reverse() + own.conditions@.take(t as int + 1));
            }
            t += 1;
        }
        proof {
            assert(own.conditions@.take(n as int) =~= own.conditions@);
        }
        own.conditions = cs;
        append_labels(&mut own.labels, &cset.labels);
        append_labels(&mut own.befores, &cset.befores);
        append_labels(&mut own.afters, &cset.afters);
        own
    }

    /// Convert the batch into plain descriptors, applying every collected
    /// condition and ordering to every accumulated system.
    pub fn build(self) -> (r: Vec<ConditionalSystemDescriptor>)
        ensures
            r@.len() == self.systems@.len(),
            forall|i: int|
                0 <= i < r@.len() ==> applied_to(self.conditions, self.systems@[i], #[trigger] r@[i]),
    {
        let ConditionSystemSet { mut systems, conditions: cset } = self;
        let ghost orig = systems@;
        let mut out: Vec<ConditionalSystemDescriptor> = Vec::new();
        while systems.len() > 0
            invariant
                orig.len() == out@.len() + systems@.len(),
                systems@ == orig.skip(out@.len() as int),
                forall|i: int|
                    0 <= i < out@.len() ==> applied_to(cset, orig[i], #[trigger] out@[i]),
            decreases systems@.len(),
        {
            let ghost done = out@.len() as int;
            let d = systems.remove(0);
            proof {
                assert(orig.skip(done)[0] == orig[done]);
                assert(orig.skip(done).remove(0) =~= orig.skip(done + 1));
            }
            let rd = Self::apply_to_system(&cset, d);
            out.push(rd);
        }
        out
    }
}

/// Law: predicate short-circuit. The moment a condition evaluates to not
/// hold, the dispatch ends: the main system is not run this dispatch, and no
/// further condition is asked for — conditions after the first failing one
/// are never evaluated.
pub proof fn lemma_condition_short_circuit(w: ConditionalSystem, obs: Option<bool>)
    requires
        w.wf(),
        w.evaluating is Some,
        !condition_holds(w.conditions@[w.evaluating.unwrap() as int], obs),
    ensures
        w.spec_condition_evaluated(obs).action == ConditionalAction::SkipMainSystem,
        w.spec_condition_evaluated(obs).evaluating is None,
{
}

} // verus!
