//! State transition stages.
//!
//! The current state of a user state type `T` is held in a [`CurrentState`]
//! resource; writing a [`NextState`] resource requests a transition. A
//! [`StateTransitionStage`] drives the transitions: it removes the pending
//! next value, runs the exit sub-stage of the old state, changes
//! [`CurrentState`], runs the enter sub-stage of the new state, and repeats
//! until no next value is pending — so enter and exit sub-stages can
//! themselves queue further transitions, which all resolve within a single
//! invocation of the stage.
//!
//! The driver is a step machine: the caller invokes [`tick`], runs the enter
//! or exit sub-stage the returned action names against the host world, and
//! calls [`stage_done`] with the resources as the sub-stage left them.
//!
//! State values are compared with `T`'s own equality. Contract clauses that
//! depend on which registered sub-stage a state value selects are therefore
//! stated under `T::obeys_eq_spec()`; with an ill-behaved equality the driver
//! still runs, but which sub-stages it picks is the caller's responsibility.
//!
//! [`tick`]: StateTransitionStage::tick
//! [`stage_done`]: StateTransitionStage::stage_done

use vstd::prelude::*;
use vstd::std_specs::cmp::PartialEqSpec;

verus! {

/// Resource holding the current value of the state type `T`.
///
/// The driver keeps it in existence and up to date. Mutating it directly,
/// instead of through [`NextState`], changes the state without running any
/// exit or enter sub-stage: a deliberate escape hatch.
#[derive(Clone, Copy, Debug, PartialEq, Eq)]
pub struct CurrentState<T>(pub T);

/// Resource whose presence requests a state transition to the held value.
///
/// Inserting it with the value the state already holds re-enters that state:
/// the exit and enter sub-stages both run.
#[derive(Clone, Copy, Debug, PartialEq, Eq)]
pub struct NextState<T>(pub T);

/// A per-state sub-stage of a [`StateTransitionStage`].
#[derive(Debug, PartialEq, Eq)]
pub enum StateSubStage {
    /// A sub-stage the caller registered as a whole, by token.
    Custom {
        /// The caller's token for the sub-stage.
        stage: u64,
    },
    /// A default sub-stage assembled from individually added systems, run in
    /// insertion order.
    Systems {
        /// The callers' tokens for the systems.
        systems: Vec<u64>,
    },
}

/// What the caller of a state-transition stage must do next.
#[derive(Clone, Copy, Debug, PartialEq, Eq)]
pub enum TransitionAction<T> {
    /// Run the exit sub-stage registered for `state`, then call
    /// [`StateTransitionStage::stage_done`].
    RunExit {
        /// The state being exited.
        state: T,
    },
    /// Run the enter sub-stage registered for `state`, then call
    /// [`StateTransitionStage::stage_done`].
    RunEnter {
        /// The state being entered.
        state: T,
    },
    /// The invocation is over: no transition is pending.
    Done,
}

/// Where a mid-invocation state-transition stage stands.
#[derive(Clone, Copy, Debug, PartialEq, Eq)]
pub enum DriverPhase<T> {
    /// No invocation is in progress.
    Idle,
    /// The enter sub-stage of the initial state is running.
    EnteringInitial,
    /// The exit sub-stage of the old state is running; `next` is where the
    /// pending transition goes.
    Exiting {
        /// The state the pending transition goes to.
        next: T,
    },
    /// The enter sub-stage of the new state is running.
    Entering,
}

/// The outcome of one advance of the state driver: its bookkeeping fields,
/// the two state resources as it leaves them, and the action handed back.
pub struct TransitionOutcome<T> {
    /// The last state value the driver saw (used to restore a removed
    /// [`CurrentState`]).
    pub last: T,
    /// Whether first-invocation initialisation has happened.
    pub initialized: bool,
    /// The driver's mid-invocation position.
    pub phase: DriverPhase<T>,
    /// The [`CurrentState`] resource after the advance.
    pub current: Option<CurrentState<T>>,
    /// The [`NextState`] resource after the advance.
    pub next: Option<NextState<T>>,
    /// What the caller must do next.
    pub action: TransitionAction<T>,
}

/// The entry registered for `v` among `stages`: the first whose state value
/// equals `v` by `T`'s equality.
pub open spec fn stage_for<T: PartialEq>(stages: Seq<(T, StateSubStage)>, v: T) -> Option<
    StateSubStage,
>
    decreases stages.len(),
{
    if stages.len() == 0 {
        None
    } else if stages[0].0.eq_spec(&v) {
        Some(stages[0].1)
    } else {
        stage_for(stages.drop_first(), v)
    }
}

/// There is an entry for `v` (by `T`'s equality) among `stages`.
pub open spec fn has_stage_for<T: PartialEq>(stages: Seq<(T, StateSubStage)>, v: T) -> bool {
    stage_for(stages, v) is Some
}

/// `stages` with `sub` registered for `v`: replaces the first entry whose
/// state value equals `v` by `T`'s equality, or appends a new entry.
pub open spec fn spec_put<T: PartialEq>(
    stages: Seq<(T, StateSubStage)>,
    v: T,
    sub: StateSubStage,
) -> Seq<(T, StateSubStage)>
    decreases stages.len(),
{
    if stages.len() == 0 {
        Seq::empty().push((v, sub))
    } else if stages[0].0.eq_spec(&v) {
        stages.update(0, (stages[0].0, sub))
    } else {
        Seq::empty().push(stages[0]) + spec_put(stages.drop_first(), v, sub)
    }
}

/// This stage drives the states of type `T`: it performs transitions, based
/// on the values of [`NextState`] and [`CurrentState`], and runs the enter
/// and exit sub-stages registered per state value. Not every state value
/// needs one: states without a registered sub-stage transition silently.
pub struct StateTransitionStage<T> {
    initial: T,
    last: T,
    initialized: bool,
    phase: DriverPhase<T>,
    enter_stages: Vec<(T, StateSubStage)>,
    exit_stages: Vec<(T, StateSubStage)>,
}

impl<T: Copy + PartialEq> StateTransitionStage<T> {
    /// The configured initial state value.
    pub closed spec fn spec_initial(self) -> T {
        self.initial
    }

    /// The last state value the driver saw.
    pub closed spec fn spec_last(self) -> T {
        self.last
    }

    /// Whether the first-invocation initialisation has happened.
    pub closed spec fn spec_initialized(self) -> bool {
        self.initialized
    }

    /// The driver's mid-invocation position.
    pub closed spec fn spec_phase(self) -> DriverPhase<T> {
        self.phase
    }

    /// The registered enter sub-stages, as (state, sub-stage) pairs.
    pub closed spec fn spec_enter_stages(self) -> Seq<(T, StateSubStage)> {
        self.enter_stages@
    }

    /// The registered exit sub-stages, as (state, sub-stage) pairs.
    pub closed spec fn spec_exit_stages(self) -> Seq<(T, StateSubStage)> {
        self.exit_stages@
    }

    /// An enter sub-stage is registered for `v`.
    pub open spec fn spec_has_enter(self, v: T) -> bool {
        has_stage_for(self.spec_enter_stages(), v)
    }

    /// An exit sub-stage is registered for `v`.
    pub open spec fn spec_has_exit(self, v: T) -> bool {
        has_stage_for(self.spec_exit_stages(), v)
    }

    /// The driver with an outcome's bookkeeping fields applied.
    pub closed spec fn updated(self, o: TransitionOutcome<T>) -> Self {
        StateTransitionStage { last: o.last, initialized: o.initialized, phase: o.phase, ..self }
    }

    /// The transition loop, from the point where the driver (re)reads the
    /// state resources: restore a missing [`CurrentState`] from `last`, then
    /// consume a pending [`NextState`] and start the transition it requests —
    /// yielding to the caller at the old state's exit sub-stage, or at the new
    /// state's enter sub-stage, or finishing the transition silently when
    /// neither is registered — and otherwise end the invocation.
    pub open spec fn spec_advance(
        self,
        last: T,
        initialized: bool,
        cur: Option<CurrentState<T>>,
        nxt: Option<NextState<T>>,
    ) -> TransitionOutcome<T> {
        let cur1 = if cur is Some {
            cur
        } else {
            Some(CurrentState(last))
        };
        let c = cur1.unwrap().0;
        if nxt is Some {
            let n = nxt.unwrap().0;
            if self.spec_has_exit(c) {
                TransitionOutcome {
                    last: c,
                    initialized,
                    phase: DriverPhase::Exiting { next: n },
                    current: cur1,
                    next: None,
                    action: TransitionAction::RunExit { state: c },
                }
            } else if self.spec_has_enter(n) {
                TransitionOutcome {
                    last: n,
                    initialized,
                    phase: DriverPhase::Entering,
                    current: Some(CurrentState(n)),
                    next: None,
                    action: TransitionAction::RunEnter { state: n },
                }
            } else {
                TransitionOutcome {
                    last: n,
                    initialized,
                    phase: DriverPhase::Idle,
                    current: Some(CurrentState(n)),
                    next: None,
                    action: TransitionAction::Done,
                }
            }
        } else {
            TransitionOutcome {
                last: c,
                initialized,
                phase: DriverPhase::Idle,
                current: cur1,
                next: None,
                action: TransitionAction::Done,
            }
        }
    }

    /// One whole call of [`StateTransitionStage::tick`]. On the first
    /// invocation with no [`CurrentState`] present, seed it with the initial
    /// value and run that value's enter sub-stage before anything else;
    /// otherwise proceed straight to the transition loop. The initialisation
    /// happens at most once over the driver's lifetime: if the resource
    /// disappears later, the transition loop restores the remembered value
    /// without running any enter sub-stage again.
    pub open spec fn spec_tick(
        self,
        cur: Option<CurrentState<T>>,
        nxt: Option<NextState<T>>,
    ) -> TransitionOutcome<T>
        recommends
            self.spec_phase() is Idle,
    {
        if !self.spec_initialized() && cur is None {
            if self.spec_has_enter(self.spec_initial()) {
                TransitionOutcome {
                    last: self.spec_initial(),
                    initialized: true,
                    phase: DriverPhase::EnteringInitial,
                    current: Some(CurrentState(self.spec_initial())),
                    next: nxt,
                    action: TransitionAction::RunEnter { state: self.spec_initial() },
                }
            } else {
                self.spec_advance(
                    self.spec_initial(),
                    true,
                    Some(CurrentState(self.spec_initial())),
                    nxt,
                )
            }
        } else {
            self.spec_advance(self.spec_last(), true, cur, nxt)
        }
    }

    /// One whole call of [`StateTransitionStage::stage_done`]. After an exit
    /// sub-stage, the state value changes and the new state's enter sub-stage
    /// is next; after an enter sub-stage, the transition loop looks for a
    /// newly queued transition.
    pub open spec fn spec_stage_done(
        self,
        cur: Option<CurrentState<T>>,
        nxt: Option<NextState<T>>,
    ) -> TransitionOutcome<T>
        recommends
            !(self.spec_phase() is Idle),
    {
        match self.spec_phase() {
            DriverPhase::Exiting { next: n } => {
                if self.spec_has_enter(n) {
                    TransitionOutcome {
                        last: n,
                        initialized: self.spec_initialized(),
                        phase: DriverPhase::Entering,
                        current: Some(CurrentState(n)),
                        next: nxt,
                        action: TransitionAction::RunEnter { state: n },
                    }
                } else {
                    self.spec_advance(
                        n,
                        self.spec_initialized(),
                        Some(CurrentState(n)),
                        nxt,
                    )
                }
            },
            _ => self.spec_advance(self.spec_last(), self.spec_initialized(), cur, nxt),
        }
    }

    /// Create a new transitions stage for the given state type.
    ///
    /// The provided value initialises the [`CurrentState`] resource when it is
    /// missing on the first invocation.
    pub fn new(initial: T) -> (r: Self)
        ensures
            r.spec_initial() == initial,
            r.spec_last() == initial,
            !r.spec_initialized(),
            r.spec_phase() is Idle,
            r.spec_enter_stages() == Seq::<(T, StateSubStage)>::empty(),
            r.spec_exit_stages() == Seq::<(T, StateSubStage)>::empty(),
    {
        let r = StateTransitionStage {
            initial,
            last: initial,
            initialized: false,
            phase: DriverPhase::Idle,
            enter_stages: Vec::new(),
            exit_stages: Vec::new(),
        };
        proof {
            assert(r.spec_enter_stages() =~= Seq::<(T, StateSubStage)>::empty());
            assert(r.spec_exit_stages() =~= Seq::<(T, StateSubStage)>::empty());
        }
        r
    }

    /// Provide the sub-stage to run when entering the given state.
    pub fn set_enter_stage(&mut self, state: T, stage: StateSubStage)
        ensures
            (T::obeys_eq_spec() ==> final(self).spec_enter_stages() == spec_put(
                old(self).spec_enter_stages(),
                state,
                stage,
            )),
            final(self).spec_exit_stages() == old(self).spec_exit_stages(),
            unchanged_config(*old(self), *final(self)),
    {
        Self::put_stage(&mut self.enter_stages, state, stage);
    }

    /// Provide the sub-stage to run when exiting the given state.
    pub fn set_exit_stage(&mut self, state: T, stage: StateSubStage)
        ensures
            (T::obeys_eq_spec() ==> final(self).spec_exit_stages() == spec_put(
                old(self).spec_exit_stages(),
                state,
                stage,
            )),
            final(self).spec_enter_stages() == old(self).spec_enter_stages(),
            unchanged_config(*old(self), *final(self)),
    {
        Self::put_stage(&mut self.exit_stages, state, stage);
    }

    /// Builder version of [`set_enter_stage`](Self::set_enter_stage).
    pub fn with_enter_stage(self, state: T, stage: StateSubStage) -> (r: Self)
        ensures
            (T::obeys_eq_spec() ==> r.spec_enter_stages() == spec_put(
                self.spec_enter_stages(),
                state,
                stage,
            )),
            r.spec_exit_stages() == self.spec_exit_stages(),
            unchanged_config(self, r),
    {
        let mut r = self;
        r.set_enter_stage(state, stage);
        r
    }

    /// Builder version of [`set_exit_stage`](Self::set_exit_stage).
    pub fn with_exit_stage(self, state: T, stage: StateSubStage) -> (r: Self)
        ensures
            (T::obeys_eq_spec() ==> r.spec_exit_stages() == spec_put(
                self.spec_exit_stages(),
                state,
                stage,
            )),
            r.spec_enter_stages() == self.spec_enter_stages(),
            unchanged_config(self, r),
    {
        let mut r = self;
        r.set_exit_stage(state, stage);
        r
    }

    /// The sub-stage registered to run when entering the given state.
    pub fn get_enter_stage(&self, state: &T) -> (r: Option<&StateSubStage>)
        ensures
            (T::obeys_eq_spec() ==> match r {
                Some(s) => stage_for(self.spec_enter_stages(), *state) == Some(*s),
                None => stage_for(self.spec_enter_stages(), *state) is None,
            }),
    {
        match Self::find_index(&self.enter_stages, state) {
            Some(i) => Some(&self.enter_stages[i].1),
            None => None,
        }
    }

    /// The sub-stage registered to run when exiting the given state.
    pub fn get_exit_stage(&self, state: &T) -> (r: Option<&StateSubStage>)
        ensures
            (T::obeys_eq_spec() ==> match r {
                Some(s) => stage_for(self.spec_exit_stages(), *state) == Some(*s),
                None => stage_for(self.spec_exit_stages(), *state) is None,
            }),
    {
        match Self::find_index(&self.exit_stages, state) {
            Some(i) => Some(&self.exit_stages[i].1),
            None => None,
        }
    }

    /// Index of the first entry for `v` in `stages`, by `T`'s equality.
    fn find_index(stages: &Vec<(T, StateSubStage)>, v: &T) -> (r: Option<usize>)
        ensures
            (r matches Some(i) ==> i < stages@.len()),
            (T::obeys_eq_spec() ==> match r {
                Some(i) => i < stages@.len() && (#[trigger] stages@[i as int]).0.eq_spec(v) && (
                forall|j: int| 0 <= j < i ==> !(#[trigger] stages@[j]).0.eq_spec(v)) && stage_for(
                    stages@,
                    *v,
                ) == Some(stages@[i as int].1),
                None => stage_for(stages@, *v) is None,
            }),
    {
        let n = stages.len();
        let mut i: usize = 0;
        proof {
            assert(stages@.skip(0) =~= stages@);
        }
        while i < n
            invariant
                0 <= i <= n,
                n == stages@.len(),
                (T::obeys_eq_spec() ==> stage_for(stages@, *v) == stage_for(
                    stages@.skip(i as int),
                    *v,
                )),
                (T::obeys_eq_spec() ==> forall|j: int|
                    0 <= j < i ==> !(#[trigger] stages@[j]).0.eq_spec(v)),
            decreases n - i,
        {
            proof {
                assert(stages@.skip(i as int)[0] == stages@[i as int]);
                assert(stages@.skip(i as int).drop_first() =~= stages@.skip(i as int + 1));
            }
            if stages[i].0 == *v {
                return Some(i);
            }
            i += 1;
        }
        proof {
            assert(stages@.skip(n as int) =~= Seq::<(T, StateSubStage)>::empty());
        }
        None
    }

    /// Register `sub` for `v`: replace the first entry whose state value
    /// equals `v`, or append a new entry.
    fn put_stage(stages: &mut Vec<(T, StateSubStage)>, v: T, sub: StateSubStage)
        ensures
            (T::obeys_eq_spec() ==> final(stages)@ == spec_put(old(stages)@, v, sub)),
    {
        let ghost subg = sub;
        match Self::find_index(stages, &v) {
            Some(i) => {
                let slot = &mut stages[i].1;
                *slot = sub;
                proof {
                    if T::obeys_eq_spec() {
                        Self::lemma_put_at_found(old(stages)@, v, subg, i as int);
                    }
                }
            },
            None => {
                stages.push((v, sub));
                proof {
                    if T::obeys_eq_spec() {
                        Self::lemma_put_appends(old(stages)@, v, subg);
                    }
                }
            },
        }
    }

    /// When the first match for `v` is at `i`, registering rewrites slot `i`.
    proof fn lemma_put_at_found(stages: Seq<(T, StateSubStage)>, v: T, sub: StateSubStage, i: int)
        requires
            T::obeys_eq_spec(),
            0 <= i < stages.len(),
            forall|j: int| 0 <= j < i ==> !(#[trigger] stages[j]).0.eq_spec(&v),
            stages[i].0.eq_spec(&v),
        ensures
            spec_put(stages, v, sub) == stages.update(i, (stages[i].0, sub)),
        decreases i,
    {
        if i == 0 {
        } else {
            Self::lemma_put_at_found(stages.drop_first(), v, sub, i - 1);
            assert(stages.drop_first().update(i - 1, (stages[i].0, sub)) =~= stages.update(
                i,
                (stages[i].0, sub),
            ).drop_first());
            assert(Seq::empty().push(stages[0]) + stages.drop_first().update(
                i - 1,
                (stages[i].0, sub),
            ) =~= stages.update(i, (stages[i].0, sub)));
        }
    }

    /// When no entry matches `v`, registering appends.
    proof fn lemma_put_appends(stages: Seq<(T, StateSubStage)>, v: T, sub: StateSubStage)
        requires
            T::obeys_eq_spec(),
            stage_for(stages, v) is None,
        ensures
            spec_put(stages, v, sub) == stages.push((v, sub)),
        decreases stages.len(),
    {
        if stages.len() == 0 {
            assert(spec_put(stages, v, sub) =~= stages.push((v, sub)));
        } else {
            Self::lemma_put_appends(stages.drop_first(), v, sub);
            assert(Seq::empty().push(stages[0]) + stages.drop_first().push((v, sub))
                =~= stages.push((v, sub)));
        }
    }
}

/// The system tokens of a default sub-stage; empty for a custom sub-stage or
/// none at all.
pub open spec fn systems_of(o: Option<StateSubStage>) -> Seq<u64> {
    match o {
        Some(StateSubStage::Systems { systems }) => systems@,
        _ => Seq::empty(),
    }
}

impl<T: Copy + PartialEq> StateTransitionStage<T> {
    /// When the first match for `v` is at `i`, the first match after
    /// rewriting slot `i` is still at `i`.
    proof fn lemma_stage_for_update(
        stages: Seq<(T, StateSubStage)>,
        v: T,
        sub: StateSubStage,
        i: int,
    )
        requires
            T::obeys_eq_spec(),
            0 <= i < stages.len(),
            forall|j: int| 0 <= j < i ==> !(#[trigger] stages[j]).0.eq_spec(&v),
            stages[i].0.eq_spec(&v),
        ensures
            stage_for(stages.update(i, (stages[i].0, sub)), v) == Some(sub),
        decreases i,
    {
        let post = stages.update(i, (stages[i].0, sub));
        if i == 0 {
        } else {
            Self::lemma_stage_for_update(stages.drop_first(), v, sub, i - 1);
            assert(post[0] == stages[0]);
            assert(post.drop_first() =~= stages.drop_first().update(i - 1, (stages[i].0, sub)));
            assert(stages.drop_first()[i - 1] == stages[i]);
        }
    }

    /// Append system tokens to the default sub-stage registered for `state`,
    /// creating it when absent. Has no effect on an entry registered as a
    /// custom sub-stage (callers rule that case out).
    fn add_systems(stages: &mut Vec<(T, StateSubStage)>, state: T, tokens: &Vec<u64>)
        requires
            (T::obeys_eq_spec() ==> !(stage_for(old(stages)@, state) matches Some(
                StateSubStage::Custom { .. },
            ))),
        ensures
            (T::obeys_eq_spec() ==> (exists|sv: Vec<u64>|
                final(stages)@ == #[trigger] spec_put(
                    old(stages)@,
                    state,
                    (StateSubStage::Systems { systems: sv }),
                ) && sv@ == systems_of(stage_for(old(stages)@, state)) + tokens@)),
    {
        let idx = Self::find_index(stages, &state);
        match idx {
            Some(i) => {
                let ghost oldseq = stages@;
                let slot = &mut stages[i].1;
                match slot {
                    StateSubStage::Systems { systems } => {
                        let ghost sys0 = systems@;
                        let m = tokens.len();
                        let mut j: usize = 0;
                        while j < m
                            invariant
                                0 <= j <= m,
                                m == tokens@.len(),
                                systems@ == sys0 + tokens@.take(j as int),
                            decreases m - j,
                        {
                            systems.push(tokens[j]);
                            proof {
                                assert(sys0 + tokens@.take(j as int) + seq![
                                    tokens@[j as int],
                                ] =~= sys0 + tokens@.take(j as int + 1));
                            }
                            j += 1;
                        }
                        proof {
                            assert(tokens@.take(m as int) =~= tokens@);
                        }
                    },
                    StateSubStage::Custom { .. } => {},
                }
                proof {
                    if T::obeys_eq_spec() {
                        Self::lemma_put_at_found(oldseq, state, stages@[i as int].1, i as int);
                    }
                }
            },
            None => {
                let mut sv: Vec<u64> = Vec::new();
                let mut j: usize = 0;
                let m = tokens.len();
                while j < m
                    invariant
                        0 <= j <= m,
                        m == tokens@.len(),
                        sv@ == tokens@.take(j as int),
                    decreases m - j,
                {
                    sv.push(tokens[j]);
                    proof {
                        assert(tokens@.take(j as int) + seq![tokens@[j as int]] =~= tokens@.take(
                            j as int + 1,
                        ));
                    }
                    j += 1;
                }
                proof {
                    assert(sv@ =~= tokens@);
                    assert(Seq::<u64>::empty() + tokens@ =~= tokens@);
                    if T::obeys_eq_spec() {
                        Self::lemma_put_appends(
                            old(stages)@,
                            state,
                            (StateSubStage::Systems { systems: sv }),
                        );
                    }
                }
                stages.push((state, StateSubStage::Systems { systems: sv }));
            },
        }
    }
}

impl<T: Copy + PartialEq> StateTransitionStage<T> {
    /// Add a system (by token) to run when entering the given state. Creates
    /// the default enter sub-stage when none exists; not usable when a custom
    /// enter sub-stage was registered for that state.
    pub fn add_enter_system(&mut self, state: T, system: u64)
        requires
            (T::obeys_eq_spec() ==> !(stage_for(old(self).spec_enter_stages(), state) matches Some(
                StateSubStage::Custom { .. },
            ))),
        ensures
            (T::obeys_eq_spec() ==> (exists|sv: Vec<u64>|
                final(self).spec_enter_stages() == #[trigger] spec_put(
                    old(self).spec_enter_stages(),
                    state,
                    (StateSubStage::Systems { systems: sv }),
                ) && sv@ == systems_of(stage_for(old(self).spec_enter_stages(), state)).push(
                    system,
                ))),
            final(self).spec_exit_stages() == old(self).spec_exit_stages(),
            unchanged_config(*old(self), *final(self)),
    {
        let mut tokens: Vec<u64> = Vec::new();
        tokens.push(system);
        proof {
            assert(systems_of(stage_for(self.spec_enter_stages(), state)) + tokens@
                =~= systems_of(stage_for(self.spec_enter_stages(), state)).push(system));
        }
        Self::add_systems(&mut self.enter_stages, state, &tokens);
    }

    /// Add a system (by token) to run when exiting the given state. Creates
    /// the default exit sub-stage when none exists; not usable when a custom
    /// exit sub-stage was registered for that state.
    pub fn add_exit_system(&mut self, state: T, system: u64)
        requires
            (T::obeys_eq_spec() ==> !(stage_for(old(self).spec_exit_stages(), state) matches Some(
                StateSubStage::Custom { .. },
            ))),
        ensures
            (T::obeys_eq_spec() ==> (exists|sv: Vec<u64>|
                final(self).spec_exit_stages() == #[trigger] spec_put(
                    old(self).spec_exit_stages(),
                    state,
                    (StateSubStage::Systems { systems: sv }),
                ) && sv@ == systems_of(stage_for(old(self).spec_exit_stages(), state)).push(
                    system,
                ))),
            final(self).spec_enter_stages() == old(self).spec_enter_stages(),
            unchanged_config(*old(self), *final(self)),
    {
        let mut tokens: Vec<u64> = Vec::new();
        tokens.push(system);
        proof {
            assert(systems_of(stage_for(self.spec_exit_stages(), state)) + tokens@
                =~= systems_of(stage_for(self.spec_exit_stages(), state)).push(system));
        }
        Self::add_systems(&mut self.exit_stages, state, &tokens);
    }

    /// Add a set of systems (by token) to run when entering the given state.
    pub fn add_enter_system_set(&mut self, state: T, system_set: &Vec<u64>)
        requires
            (T::obeys_eq_spec() ==> !(stage_for(old(self).spec_enter_stages(), state) matches Some(
                StateSubStage::Custom { .. },
            ))),
        ensures
            (T::obeys_eq_spec() ==> (exists|sv: Vec<u64>|
                final(self).spec_enter_stages() == #[trigger] spec_put(
                    old(self).spec_enter_stages(),
                    state,
                    (StateSubStage::Systems { systems: sv }),
                ) && sv@ == systems_of(stage_for(old(self).spec_enter_stages(), state))
                    + system_set@)),
            final(self).spec_exit_stages() == old(self).spec_exit_stages(),
            unchanged_config(*old(self), *final(self)),
    {
        Self::add_systems(&mut self.enter_stages, state, system_set);
    }

    /// Add a set of systems (by token) to run when exiting the given state.
    pub fn add_exit_system_set(&mut self, state: T, system_set: &Vec<u64>)
        requires
            (T::obeys_eq_spec() ==> !(stage_for(old(self).spec_exit_stages(), state) matches Some(
                StateSubStage::Custom { .. },
            ))),
        ensures
            (T::obeys_eq_spec() ==> (exists|sv: Vec<u64>|
                final(self).spec_exit_stages() == #[trigger] spec_put(
                    old(self).spec_exit_stages(),
                    state,
                    (StateSubStage::Systems { systems: sv }),
                ) && sv@ == systems_of(stage_for(old(self).spec_exit_stages(), state))
                    + system_set@)),
            final(self).spec_enter_stages() == old(self).spec_enter_stages(),
            unchanged_config(*old(self), *final(self)),
    {
        Self::add_systems(&mut self.exit_stages, state, system_set);
    }

    /// Builder version of [`add_enter_system`](Self::add_enter_system).
    pub fn with_enter_system(self, state: T, system: u64) -> (r: Self)
        requires
            (T::obeys_eq_spec() ==> !(stage_for(self.spec_enter_stages(), state) matches Some(
                StateSubStage::Custom { .. },
            ))),
        ensures
            r.spec_exit_stages() == self.spec_exit_stages(),
            unchanged_config(self, r),
    {
        let mut r = self;
        r.add_enter_system(state, system);
        r
    }

    /// Builder version of [`add_exit_system`](Self::add_exit_system).
    pub fn with_exit_system(self, state: T, system: u64) -> (r: Self)
        requires
            (T::obeys_eq_spec() ==> !(stage_for(self.spec_exit_stages(), state) matches Some(
                StateSubStage::Custom { .. },
            ))),
        ensures
            r.spec_enter_stages() == self.spec_enter_stages(),
            unchanged_config(self, r),
    {
        let mut r = self;
        r.add_exit_system(state, system);
        r
    }

    /// Builder version of [`add_enter_system_set`](Self::add_enter_system_set).
    pub fn with_enter_system_set(self, state: T, system_set: &Vec<u64>) -> (r: Self)
        requires
            (T::obeys_eq_spec() ==> !(stage_for(self.spec_enter_stages(), state) matches Some(
                StateSubStage::Custom { .. },
            ))),
        ensures
            r.spec_exit_stages() == self.spec_exit_stages(),
            unchanged_config(self, r),
    {
        let mut r = self;
        r.add_enter_system_set(state, system_set);
        r
    }

    /// Builder version of [`add_exit_system_set`](Self::add_exit_system_set).
    pub fn with_exit_system_set(self, state: T, system_set: &Vec<u64>) -> (r: Self)
        requires
            (T::obeys_eq_spec() ==> !(stage_for(self.spec_exit_stages(), state) matches Some(
                StateSubStage::Custom { .. },
            ))),
        ensures
            r.spec_enter_stages() == self.spec_enter_stages(),
            unchanged_config(self, r),
    {
        let mut r = self;
        r.add_exit_system_set(state, system_set);
        r
    }

    /// The transition loop: restore a missing current state, then consume a
    /// pending next value, yielding at registered exit and enter sub-stages.
    fn advance(
        &mut self,
        current: &mut Option<CurrentState<T>>,
        next: &mut Option<NextState<T>>,
    ) -> (r: TransitionAction<T>)
        ensures
            (T::obeys_eq_spec() ==> ({
                let o = old(self).spec_advance(
                    old(self).spec_last(),
                    old(self).spec_initialized(),
                    *old(current),
                    *old(next),
                );
                *final(self) == old(self).updated(o) && final(self).spec_phase() == o.phase
                    && final(self).spec_last() == o.last && *final(current) == o.current
                    && *final(next) == o.next && r == o.action
            })),
            final(self).spec_enter_stages() == old(self).spec_enter_stages(),
            final(self).spec_exit_stages() == old(self).spec_exit_stages(),
            final(self).spec_initial() == old(self).spec_initial(),
            final(self).spec_initialized() == old(self).spec_initialized(),
            *final(current) is Some,
            (r is Done ==> *final(next) is None && final(self).spec_phase() is Idle),
            (!(r is Done) ==> !(final(self).spec_phase() is Idle)),
            !(final(self).spec_phase() is EnteringInitial),
    {
        if current.is_none() {
            *current = Some(CurrentState(self.last));
        }
        let c = (*current).unwrap().0;
        self.last = c;
        let pending = next.take();
        match pending {
            Some(nv) => {
                let n = nv.0;
                if Self::find_index(&self.exit_stages, &c).is_some() {
                    self.phase = DriverPhase::Exiting { next: n };
                    return TransitionAction::RunExit { state: c };
                }
                *current = Some(CurrentState(n));
                self.last = n;
                if Self::find_index(&self.enter_stages, &n).is_some() {
                    self.phase = DriverPhase::Entering;
                    return TransitionAction::RunEnter { state: n };
                }
                self.phase = DriverPhase::Idle;
                TransitionAction::Done
            },
            None => {
                self.phase = DriverPhase::Idle;
                TransitionAction::Done
            },
        }
    }

    /// Invoke the driver for one host tick: perform every pending transition,
    /// running exit and enter sub-stages as the returned actions direct.
    ///
    /// `current` and `next` are the two state resources; the caller hands
    /// them back, as the sub-stages left them, through
    /// [`stage_done`](Self::stage_done) after running each named sub-stage.
    /// On the first invocation with no current state present, the initial
    /// value is installed and its enter sub-stage runs before anything else.
    pub fn tick(
        &mut self,
        current: &mut Option<CurrentState<T>>,
        next: &mut Option<NextState<T>>,
    ) -> (r: TransitionAction<T>)
        requires
            old(self).spec_phase() is Idle,
        ensures
            (T::obeys_eq_spec() ==> ({
                let o = old(self).spec_tick(*old(current), *old(next));
                *final(self) == old(self).updated(o) && final(self).spec_phase() == o.phase
                    && final(self).spec_last() == o.last && *final(current) == o.current
                    && *final(next) == o.next && r == o.action
            })),
            final(self).spec_enter_stages() == old(self).spec_enter_stages(),
            final(self).spec_exit_stages() == old(self).spec_exit_stages(),
            final(self).spec_initial() == old(self).spec_initial(),
            final(self).spec_initialized(),
            *final(current) is Some,
            (r is Done ==> *final(next) is None && final(self).spec_phase() is Idle),
            (!(r is Done) ==> !(final(self).spec_phase() is Idle)),
            (old(self).spec_initialized() ==> !(final(self).spec_phase() is EnteringInitial)),
    {
        if !self.initialized {
            if current.is_none() {
                *current = Some(CurrentState(self.initial));
                self.initialized = true;
                self.last = self.initial;
                if Self::find_index(&self.enter_stages, &self.initial).is_some() {
                    self.phase = DriverPhase::EnteringInitial;
                    return TransitionAction::RunEnter { state: self.initial };
                }
                return self.advance(current, next);
            }
            self.initialized = true;
        }
        self.advance(current, next)
    }

    /// Advance the driver after the caller ran the sub-stage named by the
    /// previous action, handing back the state resources as that sub-stage
    /// left them.
    pub fn stage_done(
        &mut self,
        current: &mut Option<CurrentState<T>>,
        next: &mut Option<NextState<T>>,
    ) -> (r: TransitionAction<T>)
        requires
            !(old(self).spec_phase() is Idle),
        ensures
            (T::obeys_eq_spec() ==> ({
                let o = old(self).spec_stage_done(*old(current), *old(next));
                *final(self) == old(self).updated(o) && final(self).spec_phase() == o.phase
                    && final(self).spec_last() == o.last && *final(current) == o.current
                    && *final(next) == o.next && r == o.action
            })),
            final(self).spec_enter_stages() == old(self).spec_enter_stages(),
            final(self).spec_exit_stages() == old(self).spec_exit_stages(),
            final(self).spec_initial() == old(self).spec_initial(),
            final(self).spec_initialized() == old(self).spec_initialized(),
            *final(current) is Some,
            (r is Done ==> *final(next) is None && final(self).spec_phase() is Idle),
            (!(r is Done) ==> !(final(self).spec_phase() is Idle)),
            !(final(self).spec_phase() is EnteringInitial),
    {
        let ph = self.phase;
        match ph {
            DriverPhase::Exiting { next: n } => {
                *current = Some(CurrentState(n));
                self.last = n;
                if Self::find_index(&self.enter_stages, &n).is_some() {
                    self.phase = DriverPhase::Entering;
                    return TransitionAction::RunEnter { state: n };
                }
                self.advance(current, next)
            },
            _ => self.advance(current, next),
        }
    }
}

/// The parts of a driver that invocations never change: the initial value and
/// the registered sub-stages.
pub open spec fn unchanged_config<T: Copy + PartialEq>(
    pre: StateTransitionStage<T>,
    post: StateTransitionStage<T>,
) -> bool {
    &&& post.spec_initial() == pre.spec_initial()
    &&& post.spec_last() == pre.spec_last()
    &&& post.spec_initialized() == pre.spec_initialized()
    &&& post.spec_phase() == pre.spec_phase()
}

/// Law: exactly-once initialisation. Every invocation leaves the driver
/// initialised; the very first invocation with no current state installed is
/// the one — and the only one — whose opening action is the initial state's
/// enter sub-stage, before any other enter or exit runs. Once initialised,
/// no invocation takes the initialisation path again.
pub proof fn lemma_initial_enter_once<T: Copy + PartialEq>(
    d: StateTransitionStage<T>,
    cur: Option<CurrentState<T>>,
    nxt: Option<NextState<T>>,
)
    requires
        d.spec_phase() is Idle,
    ensures
        d.spec_tick(cur, nxt).initialized,
        (!d.spec_initialized() && cur is None && d.spec_has_enter(d.spec_initial()) ==> ({
            let o = d.spec_tick(cur, nxt);
            o.action == (TransitionAction::RunEnter { state: d.spec_initial() })
                && o.phase is EnteringInitial && o.current == Some(CurrentState(d.spec_initial()))
        })),
        (d.spec_initialized() ==> !(d.spec_tick(cur, nxt).phase is EnteringInitial)),
{
}

/// Law: transition atomicity. For a transition from `c` to `n` with both
/// sub-stages registered, the exit sub-stage of `c` runs while `c` is still
/// the current state; the current state then holds `n` before the enter
/// sub-stage of `n` begins; and when the sub-stages queue no further
/// transition, the invocation performs exactly this one transition and ends.
pub proof fn lemma_transition_atomicity<T: Copy + PartialEq>(d: StateTransitionStage<T>, c: T, n: T)
    requires
        d.spec_phase() is Idle,
        d.spec_initialized(),
        d.spec_has_exit(c),
        d.spec_has_enter(n),
    ensures
        ({
            let o1 = d.spec_tick(Some(CurrentState(c)), Some(NextState(n)));
            let d1 = d.updated(o1);
            let o2 = d1.spec_stage_done(o1.current, o1.next);
            let d2 = d1.updated(o2);
            let o3 = d2.spec_stage_done(o2.current, None);
            &&& o1.action == (TransitionAction::RunExit { state: c })
            &&& o1.current == Some(CurrentState(c))
            &&& o1.next is None
            &&& o2.action == (TransitionAction::RunEnter { state: n })
            &&& o2.current == Some(CurrentState(n))
            &&& o3.action is Done
            &&& o3.current == Some(CurrentState(n))
            &&& o3.phase is Idle
        }),
{
    let o1 = d.spec_tick(Some(CurrentState(c)), Some(NextState(n)));
    let d1 = d.updated(o1);
    assert(d1.spec_phase() == (DriverPhase::Exiting { next: n }));
    let o2 = d1.spec_stage_done(o1.current, o1.next);
    let d2 = d1.updated(o2);
    assert(d2.spec_phase() is Entering);
}

/// Law: cascade convergence. An invocation of the driver hands back `Done`
/// only when no transition is pending any more: if enter or exit sub-stages
/// queue further transitions, the invocation keeps performing them, and it
/// only ends once the next-state resource is empty.
pub proof fn lemma_runs_until_settled<T: Copy + PartialEq>(
    d: StateTransitionStage<T>,
    cur: Option<CurrentState<T>>,
    nxt: Option<NextState<T>>,
)
    ensures
        (d.spec_phase() is Idle ==> (d.spec_tick(cur, nxt).action is Done ==> d.spec_tick(
            cur,
            nxt,
        ).next is None)),
        (!(d.spec_phase() is Idle) ==> (d.spec_stage_done(cur, nxt).action is Done
            ==> d.spec_stage_done(cur, nxt).next is None)),
{
}

/// Type used as a schedule label for state transition stages, formed from the
/// state type's name.
#[derive(Clone, Debug, PartialEq, Eq)]
pub struct StateTransitionStageLabel(String);

impl View for StateTransitionStageLabel {
    type V = Seq<char>;

    closed spec fn view(&self) -> Seq<char> {
        self.0@
    }
}

impl StateTransitionStageLabel {
    /// Construct the label for the stage that drives the state type whose name is
    /// `type_name`.
    pub fn from_type(name: &str) -> (r: Self)
        ensures
            r@ == name@,
    {
        StateTransitionStageLabel(name.to_owned())
    }

    /// The label as a string.
    pub fn as_str(&self) -> (r: &str)
        ensures
            r@ == self@,
    {
        self.0.as_str()
    }
}

} // verus!
