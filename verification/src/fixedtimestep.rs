//! Fixed timestep scheduling.
//!
//! A [`FixedTimestepStage`] accumulates the wall-clock delta the host hands it
//! every tick. Whenever the accumulator holds at least one full timestep, the
//! stage consumes a step and runs each of its child sub-stages once, repeating
//! until the accumulator drops below the step. The [`FixedTimesteps`] registry
//! is a resource through which user systems can inspect and reconfigure a
//! running timestep: its entry is re-read after every child sub-stage, so a
//! child can change the step, the accumulator or the paused flag and the
//! change takes effect within the same tick.

use vstd::prelude::*;

verus! {

/// Largest accepted timestep, in nanoseconds. The rate-lock mode primes the
/// accumulator with one and a half steps, and that value must fit in `u64`;
/// this bound is exactly the largest `step` with `step + step / 2 <= u64::MAX`.
pub const MAX_STEP_NANOS: u64 = 0xAAAA_AAAA_AAAA_AAAA;

/// Largest accepted rate-lock exit deviation, in millionths of the overstep
/// ratio. The lock test multiplies the deviation by twice the step, and that
/// product must fit the comparison arithmetic; any physically meaningful
/// deviation is far below this bound.
pub const MAX_LOCK_DEVIATION_PPM: u64 = 0x4000_0000_0000_0000;

/// Parameters of one fixed timestep, as published in the [`FixedTimesteps`]
/// registry. All durations are in nanoseconds.
#[derive(Clone, Copy, Debug, PartialEq, Eq, Structural)]
pub struct FixedTimestepInfo {
    /// Duration of each fixed timestep tick.
    pub step: u64,
    /// Accumulated time not yet consumed by timestep runs.
    pub accumulator: u64,
    /// Is the fixed timestep paused?
    pub paused: bool,
}

impl FixedTimestepInfo {
    /// A usable timestep: positive and small enough for the rate-lock
    /// arithmetic to stay in range.
    pub open spec fn wf(self) -> bool {
        0 < self.step <= MAX_STEP_NANOS
    }

    /// The duration of each timestep, in nanoseconds.
    pub fn timestep(&self) -> (r: u64)
        ensures
            r == self.step,
    {
        self.step
    }

    /// The amount of time left over from the last timestep run, in nanoseconds.
    pub fn remaining(&self) -> (r: u64)
        ensures
            r == self.accumulator,
    {
        self.accumulator
    }

    /// Pause the fixed timestep.
    pub fn pause(&mut self)
        ensures
            *final(self) == (FixedTimestepInfo { paused: true, ..*old(self) }),
    {
        self.paused = true;
    }

    /// Un-pause (resume) the fixed timestep.
    pub fn unpause(&mut self)
        ensures
            *final(self) == (FixedTimestepInfo { paused: false, ..*old(self) }),
    {
        self.paused = false;
    }

    /// Toggle the paused state.
    pub fn toggle_pause(&mut self)
        ensures
            *final(self) == (FixedTimestepInfo { paused: !old(self).paused, ..*old(self) }),
    {
        self.paused = !self.paused;
    }
}

/// Mathematical model of the [`FixedTimesteps`] registry: the published
/// parameters per timestep label, and the label of the timestep whose child
/// sub-stages are presently running, if any.
pub struct FixedTimestepsView {
    /// Published info, keyed by timestep label.
    pub infos: Map<Seq<char>, FixedTimestepInfo>,
    /// Label of the currently running timestep.
    pub current: Option<Seq<char>>,
}

/// Registry resource giving access to every fixed timestep by its label.
///
/// User systems can read a timestep's parameters here and can mutate them;
/// a running [`FixedTimestepStage`] adopts the published `step` and `paused`
/// values at the start of each tick and re-reads the whole entry after every
/// child sub-stage.
pub struct FixedTimesteps {
    entries: Vec<(String, FixedTimestepInfo)>,
    current: Option<String>,
}

impl View for FixedTimesteps {
    type V = FixedTimestepsView;

    closed spec fn view(&self) -> FixedTimestepsView {
        FixedTimestepsView {
            infos: Map::new(
                |l: Seq<char>|
                    exists|i: int|
                        0 <= i < self.entries@.len() && (#[trigger] self.entries@[i]).0@ == l,
                |l: Seq<char>|
                    {
                        let i = choose|i: int|
                            0 <= i < self.entries@.len() && (#[trigger] self.entries@[i]).0@ == l;
                        self.entries@[i].1
                    },
            ),
            current: match self.current {
                Some(ref s) => Some(s@),
                None => None,
            },
        }
    }
}

impl Default for FixedTimesteps {
    /// An empty registry.
    fn default() -> (r: Self)
        ensures
            r.wf(),
            r@.infos == Map::<Seq<char>, FixedTimestepInfo>::empty(),
            r@.current is None,
            r.spec_labels() == Seq::<Seq<char>>::empty(),
    {
        Self::new()
    }
}

impl FixedTimesteps {
    /// Labels never repeat among the registry entries.
    pub closed spec fn wf(self) -> bool {
        forall|i: int, j: int|
            0 <= i < j < self.entries@.len() ==> (#[trigger] self.entries@[i]).0@ != (
            #[trigger] self.entries@[j]).0@
    }

    /// The labels of all registered timesteps, in registration order.
    pub closed spec fn spec_labels(self) -> Seq<Seq<char>> {
        self.entries@.map_values(|e: (String, FixedTimestepInfo)| e.0@)
    }

    /// An entry's label and info appear in the view.
    proof fn lemma_view_index(self, i: int)
        requires
            self.wf(),
            0 <= i < self.entries@.len(),
        ensures
            self@.infos.dom().contains(self.entries@[i].0@),
            self@.infos[self.entries@[i].0@] == self.entries@[i].1,
    {
        let l = self.entries@[i].0@;
        assert(self@.infos.dom().contains(l));
        let j = choose|j: int|
            0 <= j < self.entries@.len() && (#[trigger] self.entries@[j]).0@ == l;
        assert(j == i);
    }

    /// Appending an entry under a fresh label adds it to the view and keeps
    /// everything else.
    proof fn lemma_view_after_push(pre: Self, post: Self, s: String, info: FixedTimestepInfo)
        requires
            pre.wf(),
            forall|a: int| 0 <= a < pre.entries@.len() ==> (#[trigger] pre.entries@[a]).0@ != s@,
            post.entries@ == pre.entries@.push((s, info)),
            post.current == pre.current,
        ensures
            post.wf(),
            post@.infos =~= pre@.infos.insert(s@, info),
            post.spec_labels() == pre.spec_labels().push(s@),
            post@.current == pre@.current,
    {
        let target = pre@.infos.insert(s@, info);
        let n = pre.entries@.len() as int;
        assert forall|a: int, b: int| 0 <= a < b < post.entries@.len() implies (
        #[trigger] post.entries@[a]).0@ != (#[trigger] post.entries@[b]).0@ by {
            if b < n {
                assert(pre.entries@[a].0@ != pre.entries@[b].0@);
            } else {
                assert(post.entries@[b] == (s, info));
                assert(pre.entries@[a].0@ != s@);
            }
        }
        assert forall|k: Seq<char>|
            post@.infos.dom().contains(k) implies #[trigger] target.dom().contains(k)
            && post@.infos[k] == target[k] by {
            let a = choose|a: int|
                0 <= a < post.entries@.len() && (#[trigger] post.entries@[a]).0@ == k;
            post.lemma_view_index(a);
            if a < n {
                assert(pre.entries@[a].0@ == k);
                pre.lemma_view_index(a);
                assert(k != s@);
            } else {
                assert(post.entries@[a] == (s, info));
            }
        }
        assert forall|k: Seq<char>| #[trigger]
            target.dom().contains(k) implies post@.infos.dom().contains(k) by {
            if k == s@ {
                assert(post.entries@[n].0@ == k);
            } else {
                let a = choose|a: int|
                    0 <= a < pre.entries@.len() && (#[trigger] pre.entries@[a]).0@ == k;
                assert(post.entries@[a].0@ == k);
            }
        }
        assert(post.spec_labels() =~= pre.spec_labels().push(s@));
    }

    /// The view's info map does not depend on the `current` marker.
    proof fn lemma_view_same_entries(pre: Self, post: Self)
        requires
            pre.wf(),
            post.entries@ == pre.entries@,
        ensures
            post.wf(),
            post@.infos =~= pre@.infos,
            post.spec_labels() == pre.spec_labels(),
    {
        assert forall|k: Seq<char>|
            post@.infos.dom().contains(k) implies #[trigger] pre@.infos.dom().contains(k)
            && post@.infos[k] == pre@.infos[k] by {
            let a = choose|a: int|
                0 <= a < post.entries@.len() && (#[trigger] post.entries@[a]).0@ == k;
            assert(pre.entries@[a].0@ == k);
            pre.lemma_view_index(a);
            post.lemma_view_index(a);
        }
        assert forall|k: Seq<char>| #[trigger]
            pre@.infos.dom().contains(k) implies post@.infos.dom().contains(k) by {
            let a = choose|a: int|
                0 <= a < pre.entries@.len() && (#[trigger] pre.entries@[a]).0@ == k;
            assert(post.entries@[a].0@ == k);
        }
        assert(post.spec_labels() =~= pre.spec_labels());
    }

    /// Publish `info` under `label`: overwrite the existing entry, or append a
    /// new one.
    pub(crate) fn set_info(&mut self, label: &String, info: FixedTimestepInfo)
        requires
            old(self).wf(),
        ensures
            final(self).wf(),
            final(self)@.infos == old(self)@.infos.insert(label@, info),
            final(self)@.current == old(self)@.current,
            (old(self)@.infos.dom().contains(label@) ==> final(self).spec_labels() == old(self).spec_labels()),
            (!old(self)@.infos.dom().contains(label@) ==> final(self).spec_labels() == old(self).spec_labels().push(label@)),
    {
        let n = self.entries.len();
        let mut i: usize = 0;
        while i < n
            invariant
                *self == *old(self),
                self.wf(),
                n == self.entries@.len(),
                0 <= i <= n,
                forall|j: int| 0 <= j < i ==> (#[trigger] self.entries@[j]).0@ != label@,
            decreases n - i,
        {
            if self.entries[i].0 == *label {
                proof {
                    old(self).lemma_view_index(i as int);
                }
                let m = &mut self.entries[i].1;
                *m = info;
                proof {
                    Self::lemma_view_after_set(*old(self), *self, i as int, info);
                }
                return ;
            }
            i += 1;
        }
        let owned = label.clone();
        let ghost pushed = owned;
        self.entries.push((owned, info));
        proof {
            Self::lemma_view_after_push(*old(self), *self, pushed, info);
        }
    }

    /// Mark the timestep under `label` as the currently running one.
    pub(crate) fn set_current_to(&mut self, label: &String)
        requires
            old(self).wf(),
        ensures
            final(self).wf(),
            final(self)@.infos == old(self)@.infos,
            final(self)@.current == Some(label@),
            final(self).spec_labels() == old(self).spec_labels(),
    {
        self.current = Some(label.clone());
        proof {
            Self::lemma_view_same_entries(*old(self), *self);
        }
    }

    /// Mark that no timestep is currently running.
    pub(crate) fn clear_current(&mut self)
        requires
            old(self).wf(),
        ensures
            final(self).wf(),
            final(self)@.infos == old(self)@.infos,
            final(self)@.current is None,
            final(self).spec_labels() == old(self).spec_labels(),
    {
        self.current = None;
        proof {
            Self::lemma_view_same_entries(*old(self), *self);
        }
    }

    /// Create an empty registry.
    pub fn new() -> (r: Self)
        ensures
            r.wf(),
            r@.infos == Map::<Seq<char>, FixedTimestepInfo>::empty(),
            r@.current is None,
            r.spec_labels() == Seq::<Seq<char>>::empty(),
    {
        let r = FixedTimesteps { entries: Vec::new(), current: None };
        proof {
            assert(r@.infos =~= Map::<Seq<char>, FixedTimestepInfo>::empty());
            assert(r.spec_labels() =~= Seq::<Seq<char>>::empty());
        }
        r
    }

    /// A label's entry and the registry's view agree after one entry is
    /// rewritten in place.
    proof fn lemma_view_after_set(pre: Self, post: Self, i: int, info: FixedTimestepInfo)
        requires
            pre.wf(),
            0 <= i < pre.entries@.len(),
            post.entries@ == pre.entries@.update(i, (pre.entries@[i].0, info)),
            post.current == pre.current,
        ensures
            post.wf(),
            post@.infos =~= pre@.infos.insert(pre.entries@[i].0@, info),
            post.spec_labels() == pre.spec_labels(),
            post@.current == pre@.current,
    {
        let l = pre.entries@[i].0@;
        let target = pre@.infos.insert(l, info);
        assert forall|a: int, b: int| 0 <= a < b < post.entries@.len() implies (
        #[trigger] post.entries@[a]).0@ != (#[trigger] post.entries@[b]).0@ by {
            assert(pre.entries@[a].0@ != pre.entries@[b].0@);
        }
        assert forall|k: Seq<char>|
            post@.infos.dom().contains(k) implies #[trigger] target.dom().contains(k)
            && post@.infos[k] == target[k] by {
            let a = choose|a: int|
                0 <= a < post.entries@.len() && (#[trigger] post.entries@[a]).0@ == k;
            assert(pre.entries@[a].0@ == k);
            pre.lemma_view_index(a);
            post.lemma_view_index(a);
            if k == l {
                assert(a == i);
            } else {
                assert(a != i);
            }
        }
        assert forall|k: Seq<char>| #[trigger]
            target.dom().contains(k) implies post@.infos.dom().contains(k) by {
            if k == l {
                assert(post.entries@[i].0@ == k);
            } else {
                let a = choose|a: int|
                    0 <= a < pre.entries@.len() && (#[trigger] pre.entries@[a]).0@ == k;
                assert(post.entries@[a].0@ == k);
            }
        }
        assert(post@.infos =~= target);
        assert(post.spec_labels() =~= pre.spec_labels());
    }

    /// Rewriting one entry in place updates the view at that entry's label and
    /// keeps everything else; stated over the insert so that it applies to the
    /// final state of methods that hand out a mutable borrow of an entry.
    broadcast proof fn lemma_view_set(
        pre: Self,
        post: Self,
        i: int,
        l: Seq<char>,
        info: FixedTimestepInfo,
    )
        requires
            pre.wf(),
            0 <= i < pre.entries@.len(),
            l == pre.entries@[i].0@,
            post.entries@ == pre.entries@.update(i, (pre.entries@[i].0, info)),
            post.current == pre.current,
        ensures
            #![trigger post@.infos, pre@.infos.insert(l, info), pre.entries@[i]]
            post.wf(),
            post@.infos == pre@.infos.insert(l, info),
            post.spec_labels() == pre.spec_labels(),
            post@.current == pre@.current,
    {
        Self::lemma_view_after_set(pre, post, i, info);
    }

    /// Returns the timestep info registered under the given label.
    pub fn get(&self, label: &String) -> (r: Option<&FixedTimestepInfo>)
        requires
            self.wf(),
        ensures
            match r {
                Some(info) => self@.infos.dom().contains(label@) && *info == self@.infos[label@],
                None => !self@.infos.dom().contains(label@),
            },
    {
        let n = self.entries.len();
        let mut i: usize = 0;
        while i < n
            invariant
                self.wf(),
                n == self.entries@.len(),
                0 <= i <= n,
                forall|j: int| 0 <= j < i ==> (#[trigger] self.entries@[j]).0@ != label@,
            decreases n - i,
        {
            if self.entries[i].0 == *label {
                proof {
                    self.lemma_view_index(i as int);
                }
                return Some(&self.entries[i].1);
            }
            i += 1;
        }
        None
    }

    /// Returns the timestep info for the currently running timestep.
    ///
    /// Returns [`Some`] only while control is inside a fixed timestep's child
    /// sub-stage.
    pub fn get_current(&self) -> (r: Option<&FixedTimestepInfo>)
        requires
            self.wf(),
        ensures
            match r {
                Some(info) => (self@.current matches Some(l) && self@.infos.dom().contains(l)
                    && *info == self@.infos[l]),
                None => (self@.current is None || !self@.infos.dom().contains(
                    self@.current.unwrap(),
                )),
            },
    {
        match &self.current {
            Some(label) => self.get(label),
            None => None,
        }
    }

    /// The timestep info for the currently running timestep; only callable
    /// while control is inside a fixed timestep's child sub-stage.
    pub fn current(&self) -> (r: &FixedTimestepInfo)
        requires
            self.wf(),
            self@.current is Some,
            self@.infos.dom().contains(self@.current.unwrap()),
        ensures
            *r == self@.infos[self@.current.unwrap()],
    {
        let r = self.get_current();
        match r {
            Some(info) => info,
            None => vstd::pervasive::unreached(),
        }
    }

    /// Returns the timestep info, assuming exactly one timestep is registered.
    pub fn get_single(&self) -> (r: Option<&FixedTimestepInfo>)
        requires
            self.wf(),
        ensures
            r is Some <==> self.spec_labels().len() == 1,
            (r matches Some(info) ==> self@.infos.dom().contains(self.spec_labels()[0]) && *info
                == self@.infos[self.spec_labels()[0]]),
    {
        if self.entries.len() == 1 {
            proof {
                self.lemma_view_index(0);
            }
            Some(&self.entries[0].1)
        } else {
            None
        }
    }

    /// The single registered timestep's info; only callable when exactly one
    /// timestep is registered.
    pub fn single(&self) -> (r: &FixedTimestepInfo)
        requires
            self.wf(),
            self.spec_labels().len() == 1,
        ensures
            *r == self@.infos[self.spec_labels()[0]],
    {
        let r = self.get_single();
        match r {
            Some(info) => info,
            None => vstd::pervasive::unreached(),
        }
    }

    /// Returns a mutable borrow of the timestep info registered under the
    /// given label; whatever the caller writes through it is published in the
    /// registry under that label.
    pub fn get_mut(&mut self, label: &String) -> (r: Option<&mut FixedTimestepInfo>)
        requires
            old(self).wf(),
        ensures
            (r matches Some(m) ==> old(self)@.infos.dom().contains(label@) && *m == old(self)@.infos[label@] && final(self)@.infos == old(self)@.infos.insert(label@, *final(m))
                && final(self)@.current == old(self)@.current && final(self).wf() && final(self).spec_labels() == old(self).spec_labels()),
            (r is None ==> !old(self)@.infos.dom().contains(label@) && *final(self) == *old(self)),
    {
        broadcast use FixedTimesteps::lemma_view_set;

        let n = self.entries.len();
        let mut i: usize = 0;
        while i < n
            invariant
                *self == *old(self),
                self.wf(),
                n == self.entries@.len(),
                0 <= i <= n,
                forall|j: int| 0 <= j < i ==> (#[trigger] self.entries@[j]).0@ != label@,
            decreases n - i,
        {
            if self.entries[i].0 == *label {
                proof {
                    self.lemma_view_index(i as int);
                    assert forall|post: FixedTimesteps, v: FixedTimestepInfo|
                        #![trigger post@.infos, self@.infos.insert(label@, v)]
                        post.entries@ == self.entries@.update(
                            i as int,
                            (self.entries@[i as int].0, v),
                        ) && post.current == self.current implies post@.infos == self@.infos.insert(
                        label@,
                        v,
                    ) && post.wf() && post.spec_labels() == self.spec_labels() && post@.current
                        == self@.current by {
                        Self::lemma_view_after_set(*self, post, i as int, v);
                    }
                }
                return Some(&mut self.entries[i].1);
            }
            i += 1;
        }
        None
    }

    /// Returns a mutable borrow of the currently running timestep's info.
    pub fn get_current_mut(&mut self) -> (r: Option<&mut FixedTimestepInfo>)
        requires
            old(self).wf(),
        ensures
            (r matches Some(m) ==> old(self)@.current matches Some(l) && old(self)@.infos.dom().contains(l) && *m == old(self)@.infos[l] && final(self)@.infos == old(self)@.infos.insert(l, *final(m)) && final(self)@.current == old(self)@.current && final(self).wf() && final(self).spec_labels() == old(self).spec_labels()),
            (r is None ==> (old(self)@.current is None || !old(self)@.infos.dom().contains(
                old(self)@.current.unwrap(),
            )) && *final(self) == *old(self)),
    {
        broadcast use FixedTimesteps::lemma_view_set;

        let label = match &self.current {
            Some(label) => label.clone(),
            None => {
                return None;
            },
        };
        self.get_mut(&label)
    }

    /// A mutable borrow of the currently running timestep's info; only
    /// callable while control is inside a fixed timestep's child sub-stage.
    pub fn current_mut(&mut self) -> (r: &mut FixedTimestepInfo)
        requires
            old(self).wf(),
            old(self)@.current is Some,
            old(self)@.infos.dom().contains(old(self)@.current.unwrap()),
        ensures
            *r == old(self)@.infos[old(self)@.current.unwrap()],
            final(self)@.infos == old(self)@.infos.insert(
                old(self)@.current.unwrap(),
                *final(r),
            ),
            final(self)@.current == old(self)@.current,
            final(self).wf(),
            final(self).spec_labels() == old(self).spec_labels(),
    {
        broadcast use FixedTimesteps::lemma_view_set;

        let r = self.get_current_mut();
        match r {
            Some(info) => info,
            None => vstd::pervasive::unreached(),
        }
    }

    /// Returns a mutable borrow of the timestep info, assuming exactly one
    /// timestep is registered.
    pub fn get_single_mut(&mut self) -> (r: Option<&mut FixedTimestepInfo>)
        requires
            old(self).wf(),
        ensures
            r is Some <==> old(self).spec_labels().len() == 1,
            (r matches Some(m) ==> old(self)@.infos.dom().contains(old(self).spec_labels()[0])
                && *m == old(self)@.infos[old(self).spec_labels()[0]] && final(self)@.infos == old(self)@.infos.insert(old(self).spec_labels()[0], *final(m)) && final(self)@.current == old(self)@.current && final(self).wf() && final(self).spec_labels() == old(self).spec_labels()),
            (r is None ==> *final(self) == *old(self)),
    {
        broadcast use FixedTimesteps::lemma_view_set;

        if self.entries.len() == 1 {
            proof {
                self.lemma_view_index(0);
            }
            Some(&mut self.entries[0].1)
        } else {
            None
        }
    }

    /// The single registered timestep's info, mutably; only callable when
    /// exactly one timestep is registered.
    pub fn single_mut(&mut self) -> (r: &mut FixedTimestepInfo)
        requires
            old(self).wf(),
            old(self).spec_labels().len() == 1,
        ensures
            *r == old(self)@.infos[old(self).spec_labels()[0]],
            final(self)@.infos == old(self)@.infos.insert(old(self).spec_labels()[0], *final(r)),
            final(self)@.current == old(self)@.current,
            final(self).wf(),
            final(self).spec_labels() == old(self).spec_labels(),
    {
        broadcast use FixedTimesteps::lemma_view_set;

        let r = self.get_single_mut();
        match r {
            Some(info) => info,
            None => vstd::pervasive::unreached(),
        }
    }
}

/// True of a step duration the stage is willing to run with.
pub open spec fn usable_step(s: u64) -> bool {
    0 < s <= MAX_STEP_NANOS
}

/// What the caller of a fixed-timestep stage must do next.
#[derive(Clone, Copy, Debug, PartialEq, Eq, Structural)]
pub enum TimestepAction {
    /// Run the child sub-stage at `index` (registered under the token
    /// `stage`), then call [`FixedTimestepStage::sub_stage_done`].
    RunSubStage { index: usize, stage: u64 },
    /// The tick is over; `steps` full child passes ran during it.
    TickDone { steps: u64 },
}

/// Mathematical model of a [`FixedTimestepStage`].
pub struct FixedTimestepStageView {
    /// Fixed step duration, in nanoseconds.
    pub step: u64,
    /// Wall-clock time accumulated and not yet consumed, in nanoseconds.
    pub accumulator: u64,
    /// Whether the stage skips its ticks.
    pub paused: bool,
    /// The stage's registry label.
    pub label: Seq<char>,
    /// Tokens of the child sub-stages, in insertion order.
    pub children: Seq<u64>,
    /// Rate lock engages after this many consecutive single-step ticks.
    pub lock_frames: u32,
    /// Rate lock disengages when the overstep ratio strays at least this many
    /// millionths from three halves.
    pub lock_deviation_ppm: u64,
    /// Consecutive single-step ticks seen so far.
    pub lock_accum: u32,
    /// Mid-tick position: index of the child being run and full child passes
    /// completed so far this tick.
    pub progress: Option<(usize, u64)>,
}

/// The outcome of one advance of the fixed-timestep machine: the stage's new
/// state, the registry's new state, and the action handed back to the caller.
pub struct TickOutcome {
    /// The stage's state after the advance.
    pub stage: FixedTimestepStageView,
    /// The registry's state after the advance.
    pub registry: FixedTimestepsView,
    /// What the caller must do next.
    pub action: TimestepAction,
}

impl FixedTimestepStageView {
    /// A usable stage: the step is in range, the deviation parameter is
    /// small enough for the lock test's arithmetic, and any mid-tick
    /// position addresses a real child.
    pub open spec fn wf(self) -> bool {
        &&& usable_step(self.step)
        &&& self.lock_deviation_ppm <= MAX_LOCK_DEVIATION_PPM
        &&& (self.progress matches Some(p) ==> p.0 < self.children.len())
    }

    /// The parameters the stage publishes in the registry.
    pub open spec fn info(self) -> FixedTimestepInfo {
        FixedTimestepInfo { step: self.step, accumulator: self.accumulator, paused: self.paused }
    }

    /// Start-of-tick reconciliation: adopt the published step (when usable)
    /// and paused flag; the accumulator stays the stage's own. A published
    /// step of zero, or one too large for the rate-lock arithmetic, is a
    /// configuration bug: adopting it would wedge or overflow the drain
    /// loop, so the stage keeps its own step instead.
    pub open spec fn reconciled(self, reg: FixedTimestepsView) -> Self {
        if reg.infos.dom().contains(self.label) {
            let info = reg.infos[self.label];
            FixedTimestepStageView {
                step: if usable_step(info.step) {
                    info.step
                } else {
                    self.step
                },
                paused: info.paused,
                ..self
            }
        } else {
            self
        }
    }

    /// Child-boundary adoption: adopt the whole published entry, so user
    /// systems inside the timestep can reconfigure it mid-tick. As at the
    /// start of the tick, an unusable published step is ignored.
    pub open spec fn adopted(self, reg: FixedTimestepsView) -> Self {
        if reg.infos.dom().contains(self.label) {
            let info = reg.infos[self.label];
            FixedTimestepStageView {
                step: if usable_step(info.step) {
                    info.step
                } else {
                    self.step
                },
                accumulator: info.accumulator,
                paused: info.paused,
                ..self
            }
        } else {
            self
        }
    }

    /// The rate lock is engaged.
    pub open spec fn locked(self) -> bool {
        self.lock_accum >= self.lock_frames
    }

    /// The overstep ratio `accumulator / step` strays from `3/2` by at least
    /// `lock_deviation_ppm` millionths.
    pub open spec fn overstep_deviates(self) -> bool {
        vstd::math::abs(2 * (self.accumulator as int) - 3 * (self.step as int)) * 1_000_000 >= 2 * (
        self.lock_deviation_ppm as int) * (self.step as int)
    }

    /// Start-of-tick rate-lock check: while locked, either drop out of locked
    /// mode on a large deviation, or pin the accumulator to one and a half
    /// steps so that exactly one step runs this tick.
    pub open spec fn lock_checked(self) -> Self {
        if self.locked() {
            if self.overstep_deviates() {
                FixedTimestepStageView { lock_accum: 0, ..self }
            } else {
                FixedTimestepStageView {
                    accumulator: (self.step + self.step / 2) as u64,
                    ..self
                }
            }
        } else {
            self
        }
    }

    /// End-of-tick rate-lock bookkeeping. A single-step tick moves the stage
    /// towards (or keeps it in) locked mode, and entering or staying in locked
    /// mode re-centres the accumulator at half a step; any other step count
    /// resets the run of single-step ticks.
    pub open spec fn bookkept(self, steps: u64) -> Self {
        if steps == 1 {
            let la = if self.lock_accum < self.lock_frames {
                (self.lock_accum + 1) as u32
            } else {
                self.lock_accum
            };
            let acc = if la >= self.lock_frames {
                (self.step / 2) as u64
            } else {
                self.accumulator
            };
            FixedTimestepStageView { lock_accum: la, accumulator: acc, ..self }
        } else {
            FixedTimestepStageView { lock_accum: 0, ..self }
        }
    }

    /// The registry after this stage publishes its parameters, optionally
    /// marking itself as the currently running timestep.
    pub open spec fn published(self, reg: FixedTimestepsView, set_current: bool) -> FixedTimestepsView {
        FixedTimestepsView {
            infos: reg.infos.insert(self.label, self.info()),
            current: if set_current {
                Some(self.label)
            } else {
                reg.current
            },
        }
    }

    /// One whole call of [`FixedTimestepStage::tick`]: reconcile with the
    /// registry; skip the tick when paused or when no delta is available;
    /// otherwise accumulate the delta, apply the rate-lock check, and either
    /// hand the first child sub-stage to the caller (consuming one step and
    /// publishing), or — with no children — drain the accumulator completely
    /// and finish the tick.
    pub open spec fn spec_tick(self, reg: FixedTimestepsView, delta: Option<u64>) -> TickOutcome {
        let m0 = self.reconciled(reg);
        if m0.paused || delta is None {
            TickOutcome { stage: m0, registry: reg, action: TimestepAction::TickDone { steps: 0 } }
        } else {
            let m1 = FixedTimestepStageView {
                accumulator: (m0.accumulator + delta.unwrap()) as u64,
                ..m0
            };
            let m2 = m1.lock_checked();
            if m2.accumulator >= m2.step && m2.children.len() > 0 {
                let m3 = FixedTimestepStageView {
                    accumulator: (m2.accumulator - m2.step) as u64,
                    progress: Some((0usize, 0u64)),
                    ..m2
                };
                TickOutcome {
                    stage: m3,
                    registry: m3.published(reg, true),
                    action: TimestepAction::RunSubStage { index: 0, stage: m2.children[0] },
                }
            } else {
                let steps = ((m2.accumulator as int) / (m2.step as int)) as u64;
                let m3 = FixedTimestepStageView {
                    accumulator: ((m2.accumulator as int) % (m2.step as int)) as u64,
                    ..m2
                };
                TickOutcome {
                    stage: m3.bookkept(steps),
                    registry: FixedTimestepsView {
                        infos: reg.infos.insert(m3.label, m3.info()),
                        current: None,
                    },
                    action: TimestepAction::TickDone { steps },
                }
            }
        }
    }

    /// One whole call of [`FixedTimestepStage::sub_stage_done`]: re-read the
    /// registry entry (adopting whatever user systems wrote), then either hand
    /// the next child of the current pass to the caller, or count the
    /// completed pass and — if another whole step is accumulated — start the
    /// next pass, or finish the tick.
    pub open spec fn spec_sub_stage_done(self, reg: FixedTimestepsView) -> TickOutcome
        recommends
            self.progress is Some,
    {
        let a = self.adopted(reg);
        let p = self.progress.unwrap();
        if p.0 + 1 < a.children.len() {
            TickOutcome {
                stage: FixedTimestepStageView {
                    progress: Some((((p.0 + 1) as usize), p.1)),
                    ..a
                },
                registry: reg,
                action: TimestepAction::RunSubStage {
                    index: (p.0 + 1) as usize,
                    stage: a.children[p.0 + 1],
                },
            }
        } else {
            let steps = if p.1 < u64::MAX {
                (p.1 + 1) as u64
            } else {
                p.1
            };
            if a.accumulator >= a.step {
                let m3 = FixedTimestepStageView {
                    accumulator: (a.accumulator - a.step) as u64,
                    progress: Some((0usize, steps)),
                    ..a
                };
                TickOutcome {
                    stage: m3,
                    registry: m3.published(reg, true),
                    action: TimestepAction::RunSubStage { index: 0, stage: a.children[0] },
                }
            } else {
                TickOutcome {
                    stage: FixedTimestepStageView { progress: None, ..a }.bookkept(steps),
                    registry: FixedTimestepsView { infos: reg.infos, current: None },
                    action: TimestepAction::TickDone { steps },
                }
            }
        }
    }
}

/// A stage that runs its child sub-stages at a fixed timestep.
///
/// Each host tick, the wall-clock delta is handed to [`tick`]; child
/// sub-stages run once per accumulated whole step, several times per tick when
/// the host fell behind, not at all when it ran ahead. The stage is a step
/// machine: `tick`, and then `sub_stage_done` after every child the returned
/// action named, advance it; the caller runs the named children against the
/// host world between calls.
///
/// [`tick`]: FixedTimestepStage::tick
pub struct FixedTimestepStage {
    step: u64,
    accumulator: u64,
    paused: bool,
    label: String,
    children: Vec<u64>,
    lock_frames: u32,
    lock_deviation_ppm: u64,
    lock_accum: u32,
    progress: Option<(usize, u64)>,
}

impl View for FixedTimestepStage {
    type V = FixedTimestepStageView;

    closed spec fn view(&self) -> FixedTimestepStageView {
        FixedTimestepStageView {
            step: self.step,
            accumulator: self.accumulator,
            paused: self.paused,
            label: self.label@,
            children: self.children@,
            lock_frames: self.lock_frames,
            lock_deviation_ppm: self.lock_deviation_ppm,
            lock_accum: self.lock_accum,
            progress: self.progress,
        }
    }
}

impl FixedTimestepStage {
    /// A usable stage (see [`FixedTimestepStageView::wf`]).
    pub open spec fn wf(self) -> bool {
        self@.wf()
    }

    /// Create a new fixed-timestep stage with no child sub-stages. The
    /// timestep is in nanoseconds and must be positive and at most
    /// [`MAX_STEP_NANOS`].
    pub fn new(timestep: u64, label: String) -> (r: Self)
        requires
            usable_step(timestep),
        ensures
            r.wf(),
            r@ == (FixedTimestepStageView {
                step: timestep,
                accumulator: 0,
                paused: false,
                label: label@,
                children: Seq::<u64>::empty(),
                lock_frames: u32::MAX,
                lock_deviation_ppm: 0,
                lock_accum: 0,
                progress: None,
            }),
    {
        let r = FixedTimestepStage {
            step: timestep,
            accumulator: 0,
            paused: false,
            label,
            children: Vec::new(),
            lock_frames: u32::MAX,
            lock_deviation_ppm: 0,
            lock_accum: 0,
            progress: None,
        };
        proof {
            assert(r@.children =~= Seq::<u64>::empty());
        }
        r
    }

    /// Create a fixed-timestep stage with a single child sub-stage.
    pub fn from_stage(timestep: u64, label: String, stage: u64) -> (r: Self)
        requires
            usable_step(timestep),
        ensures
            r.wf(),
            r@ == (FixedTimestepStageView {
                step: timestep,
                accumulator: 0,
                paused: false,
                label: label@,
                children: Seq::<u64>::empty().push(stage),
                lock_frames: u32::MAX,
                lock_deviation_ppm: 0,
                lock_accum: 0,
                progress: None,
            }),
    {
        Self::new(timestep, label).with_stage(stage)
    }

    /// Builder method for starting in a paused state.
    pub fn paused(self) -> (r: Self)
        ensures
            r@ == (FixedTimestepStageView { paused: true, ..self@ }),
    {
        let mut r = self;
        r.paused = true;
        r
    }

    /// Add a child sub-stage, identified by a caller-chosen token, after any
    /// that already exist.
    pub fn add_stage(&mut self, stage: u64)
        ensures
            final(self)@ == (FixedTimestepStageView {
                children: old(self)@.children.push(stage),
                ..old(self)@
            }),
    {
        self.children.push(stage);
    }

    /// Builder method for adding a child sub-stage.
    pub fn with_stage(self, stage: u64) -> (r: Self)
        ensures
            r@ == (FixedTimestepStageView { children: self@.children.push(stage), ..self@ }),
    {
        let mut r = self;
        r.add_stage(stage);
        r
    }

    /// Enable the rate-lock smoothing mode.
    ///
    /// After `n_frames` consecutive ticks that each ran exactly one step, the
    /// stage stops accumulating drift: it pins the accumulator so that every
    /// tick runs exactly one step, until a tick's overstep ratio strays from
    /// `3/2` by at least `exit_deviation_ppm` millionths.
    pub fn set_rate_lock(&mut self, n_frames: u32, exit_deviation_ppm: u64)
        requires
            n_frames > 0,
            0 < exit_deviation_ppm <= MAX_LOCK_DEVIATION_PPM,
        ensures
            final(self)@ == (FixedTimestepStageView {
                lock_frames: n_frames,
                lock_deviation_ppm: exit_deviation_ppm,
                ..old(self)@
            }),
    {
        self.lock_frames = n_frames;
        self.lock_deviation_ppm = exit_deviation_ppm;
    }

    /// Builder method for [`set_rate_lock`](FixedTimestepStage::set_rate_lock).
    pub fn with_rate_lock(self, n_frames: u32, exit_deviation_ppm: u64) -> (r: Self)
        requires
            n_frames > 0,
            0 < exit_deviation_ppm <= MAX_LOCK_DEVIATION_PPM,
        ensures
            r@ == (FixedTimestepStageView {
                lock_frames: n_frames,
                lock_deviation_ppm: exit_deviation_ppm,
                ..self@
            }),
    {
        let mut r = self;
        r.set_rate_lock(n_frames, exit_deviation_ppm);
        r
    }

    /// The stage's current step duration, in nanoseconds.
    pub fn step(&self) -> (r: u64)
        ensures
            r == self@.step,
    {
        self.step
    }

    /// The stage's own accumulator, in nanoseconds.
    pub fn accumulator(&self) -> (r: u64)
        ensures
            r == self@.accumulator,
    {
        self.accumulator
    }

    /// Whether the stage currently skips its ticks.
    pub fn is_paused(&self) -> (r: bool)
        ensures
            r == self@.paused,
    {
        self.paused
    }

    /// Publish this stage's parameters into the registry under its label,
    /// creating the entry if it does not exist yet.
    pub fn store_fixedtimestepinfo(&self, registry: &mut FixedTimesteps)
        requires
            old(registry).wf(),
        ensures
            final(registry).wf(),
            final(registry)@ == self@.published(old(registry)@, false),
            (final(registry).spec_labels() == old(registry).spec_labels() || final(registry).spec_labels() == old(registry).spec_labels().push(self@.label)),
    {
        self.publish(registry, false);
    }

    /// Publish, optionally marking this timestep as the running one.
    fn publish(&self, registry: &mut FixedTimesteps, set_current: bool)
        requires
            old(registry).wf(),
        ensures
            final(registry).wf(),
            final(registry)@ == self@.published(old(registry)@, set_current),
            (final(registry).spec_labels() == old(registry).spec_labels() || final(registry).spec_labels() == old(registry).spec_labels().push(self@.label)),
    {
        registry.set_info(
            &self.label,
            FixedTimestepInfo {
                step: self.step,
                accumulator: self.accumulator,
                paused: self.paused,
            },
        );
        if set_current {
            registry.set_current_to(&self.label);
        }
    }

    /// Adopt the registry entry under this stage's label: the published step
    /// (when usable), the accumulator if asked for, and the paused flag.
    fn adopt(&mut self, registry: &FixedTimesteps, with_accumulator: bool)
        requires
            registry.wf(),
        ensures
            (with_accumulator ==> final(self)@ == old(self)@.adopted(registry@)),
            (!with_accumulator ==> final(self)@ == old(self)@.reconciled(registry@)),
    {
        match registry.get(&self.label) {
            Some(info) => {
                let s = info.step;
                if 1 <= s && s <= MAX_STEP_NANOS {
                    self.step = s;
                }
                if with_accumulator {
                    self.accumulator = info.accumulator;
                }
                self.paused = info.paused;
            },
            None => {},
        }
    }

    /// Advance the stage by one host tick, handing it the wall-clock delta in
    /// nanoseconds since the previous tick (`None` when no delta source is
    /// available, which skips the tick).
    ///
    /// When the returned action names a child sub-stage, the caller runs it
    /// and then calls [`sub_stage_done`](FixedTimestepStage::sub_stage_done);
    /// a tick with no children is drained entirely within this call.
    pub fn tick(&mut self, registry: &mut FixedTimesteps, delta: Option<u64>) -> (r:
        TimestepAction)
        requires
            old(self).wf(),
            old(self)@.progress is None,
            old(registry).wf(),
            (delta matches Some(d) ==> old(self)@.accumulator + d <= u64::MAX),
        ensures
            final(self).wf(),
            final(registry).wf(),
            ({
                let o = old(self)@.spec_tick(old(registry)@, delta);
                final(self)@ == o.stage && final(registry)@ == o.registry && r == o.action
            }),
            (final(registry).spec_labels() == old(registry).spec_labels() || final(registry).spec_labels() == old(registry).spec_labels().push(old(self)@.label)),
    {
        self.adopt(registry, false);

        if self.paused {
            return TimestepAction::TickDone { steps: 0 };
        }

        let d = match delta {
            Some(d) => d,
            None => {
                return TimestepAction::TickDone { steps: 0 };
            },
        };
        self.accumulator = self.accumulator + d;

        if self.lock_accum >= self.lock_frames {
            let acc2: u128 = 2 * (self.accumulator as u128);
            let step3: u128 = 3 * (self.step as u128);
            let diff: u128 = if acc2 >= step3 {
                acc2 - step3
            } else {
                step3 - acc2
            };
            proof {
                assert((2 * (self.lock_deviation_ppm as int)) * (self.step as int) <= (2 * (
                MAX_LOCK_DEVIATION_PPM as int)) * (MAX_STEP_NANOS as int)) by (nonlinear_arith)
                    requires
                        self.lock_deviation_ppm <= MAX_LOCK_DEVIATION_PPM,
                        0 < self.step <= MAX_STEP_NANOS,
                ;
            }
            if diff * 1_000_000 >= 2 * (self.lock_deviation_ppm as u128) * (self.step as u128) {
                self.lock_accum = 0;
            } else {
                self.accumulator = self.step + self.step / 2;
            }
        }

        if self.children.len() > 0 && self.accumulator >= self.step {
            self.accumulator = self.accumulator - self.step;
            self.publish(registry, true);
            self.progress = Some((0, 0));
            return TimestepAction::RunSubStage { index: 0, stage: self.children[0] };
        }

        let ghost acc0 = self@.accumulator;
        let ghost before_drain = self@;
        let mut steps: u64 = 0;
        while self.accumulator >= self.step
            invariant
                self@ == (FixedTimestepStageView {
                    accumulator: self@.accumulator,
                    ..before_drain
                }),
                usable_step(self@.step),
                steps * before_drain.step + self@.accumulator == acc0,
            decreases self@.accumulator,
        {
            self.accumulator = self.accumulator - self.step;
            proof {
                assert((steps + 1) * before_drain.step == steps * before_drain.step
                    + before_drain.step && (steps + 1) <= (steps + 1)
                    * before_drain.step) by (nonlinear_arith)
                    requires
                        before_drain.step >= 1,
                        steps >= 0,
                ;
            }
            steps = steps + 1;
        }
        proof {
            vstd::arithmetic::div_mod::lemma_fundamental_div_mod_converse(
                acc0 as int,
                before_drain.step as int,
                steps as int,
                self@.accumulator as int,
            );
        }
        self.publish(registry, false);
        registry.clear_current();
        if steps == 1 {
            if self.lock_accum < self.lock_frames {
                self.lock_accum = self.lock_accum + 1;
            }
            if self.lock_accum >= self.lock_frames {
                self.accumulator = self.step / 2;
            }
        } else {
            self.lock_accum = 0;
        }
        TimestepAction::TickDone { steps }
    }

    /// Advance the stage after the caller ran the child sub-stage named by the
    /// previous action. Re-reads the registry entry first, so changes made by
    /// user systems inside the timestep take effect immediately.
    pub fn sub_stage_done(&mut self, registry: &mut FixedTimesteps) -> (r: TimestepAction)
        requires
            old(self).wf(),
            old(self)@.progress is Some,
            old(registry).wf(),
        ensures
            final(self).wf(),
            final(registry).wf(),
            ({
                let o = old(self)@.spec_sub_stage_done(old(registry)@);
                final(self)@ == o.stage && final(registry)@ == o.registry && r == o.action
            }),
            (final(registry).spec_labels() == old(registry).spec_labels() || final(registry).spec_labels() == old(registry).spec_labels().push(old(self)@.label)),
    {
        self.adopt(registry, true);

        let (i, k) = match self.progress {
            Some(p) => p,
            None => vstd::pervasive::unreached(),
        };
        let n = self.children.len();
        proof {
            assert(i < n);
        }

        if i + 1 < n {
            self.progress = Some((i + 1, k));
            return TimestepAction::RunSubStage { index: i + 1, stage: self.children[i + 1] };
        }

        let steps = if k < u64::MAX {
            k + 1
        } else {
            k
        };

        if self.accumulator >= self.step {
            self.accumulator = self.accumulator - self.step;
            self.publish(registry, true);
            self.progress = Some((0, steps));
            return TimestepAction::RunSubStage { index: 0, stage: self.children[0] };
        }

        self.progress = None;
        registry.clear_current();
        if steps == 1 {
            if self.lock_accum < self.lock_frames {
                self.lock_accum = self.lock_accum + 1;
            }
            if self.lock_accum >= self.lock_frames {
                self.accumulator = self.step / 2;
            }
        } else {
            self.lock_accum = 0;
        }
        TimestepAction::TickDone { steps }
    }
}

/// Type used as a schedule label for fixed timestep stages.
#[derive(Clone, Debug, PartialEq, Eq)]
pub struct FixedTimestepStageLabel(pub String);

impl FixedTimestepStageLabel {
    /// The label as a string.
    pub fn as_str(&self) -> (r: &str)
        ensures
            r@ == self.0@,
    {
        self.0.as_str()
    }
}

/// Law: accumulator catch-up. A childless, unpaused, unlocked tick runs
/// `(accumulator + delta) / step` steps and leaves `(accumulator + delta) %
/// step` behind (that is what [`FixedTimestepStageView::spec_tick`] says), so
/// the run of ticks as a whole tracks the total delivered delta: if after the
/// earlier ticks the accumulator holds `total % step` and `total / step` steps
/// have run in all, then one more tick with delta `d` runs exactly
/// `(total + d) / step - total / step` further steps and leaves
/// `(total + d) % step`, which stays below `step`.
pub proof fn lemma_accumulator_catch_up(total: int, d: int, s: int)
    requires
        s > 0,
        total >= 0,
        d >= 0,
    ensures
        (total % s + d) / s == (total + d) / s - total / s,
        (total % s + d) % s == (total + d) % s,
        0 <= (total + d) % s < s,
{
    let q = total / s;
    let r = total % s;
    let q2 = (total + d) / s;
    let r2 = (total + d) % s;
    vstd::arithmetic::div_mod::lemma_fundamental_div_mod(total, s);
    vstd::arithmetic::div_mod::lemma_fundamental_div_mod(total + d, s);
    vstd::arithmetic::div_mod::lemma_mod_bound(total, s);
    vstd::arithmetic::div_mod::lemma_mod_bound(total + d, s);
    assert(r + d == s * (q2 - q) + r2) by (nonlinear_arith)
        requires
            total == s * q + r,
            total + d == s * q2 + r2,
    ;
    assert((q2 - q) * s + r2 == s * (q2 - q) + r2) by (nonlinear_arith);
    vstd::arithmetic::div_mod::lemma_fundamental_div_mod_converse(r + d, s, q2 - q, r2);
}

/// Law: accumulator catch-up at the machine. A tick of an unpaused stage
/// whose rate lock is disengaged (and stays so), whose registry entry agrees
/// with its own step and paused flag, and whose children run within the same
/// call, consumes exactly `(accumulator + delta) / step` steps and leaves
/// `(accumulator + delta) % step` behind — which is below `step`. Together
/// with [`lemma_accumulator_catch_up`] this makes the executed steps over a
/// whole run equal the total delivered delta divided by the step.
pub proof fn lemma_tick_catch_up(m: FixedTimestepStageView, reg: FixedTimestepsView, d: u64)
    requires
        m.wf(),
        m.progress is None,
        m.children.len() == 0,
        !m.paused,
        m.lock_accum + 1 < m.lock_frames,
        m.accumulator + d <= u64::MAX,
        reg.infos.dom().contains(m.label) ==> reg.infos[m.label].step == m.step
            && !reg.infos[m.label].paused,
    ensures
        ({
            let o = m.spec_tick(reg, Some(d));
            let total = m.accumulator + d;
            &&& o.action == (TimestepAction::TickDone { steps: (total / (m.step as int)) as u64 })
            &&& o.stage.accumulator == total % (m.step as int)
            &&& o.stage.accumulator < m.step
            &&& o.stage.step == m.step
            &&& !o.stage.locked()
        }),
{
    let m0 = m.reconciled(reg);
    assert(m0.step == m.step && !m0.paused);
    let total = m.accumulator + d;
    vstd::arithmetic::div_mod::lemma_mod_bound(total, m.step as int);
}

/// Law: accumulator bound in locked mode, start of the pass. While the rate
/// lock is engaged and the tick's overstep ratio stays within the exit
/// deviation, a tick of a stage with children pins the accumulator, consumes
/// exactly one step, and hands out the first child with the accumulator
/// already at half a step — whatever delta arrived. Together with
/// [`lemma_locked_pass_single_step`], which carries the pass from child to
/// child, this is the locked-mode bound for any child count: each tick runs
/// exactly one child pass and ends with the accumulator at half a step,
/// still locked.
pub proof fn lemma_locked_tick_starts_single_pass(
    m: FixedTimestepStageView,
    reg: FixedTimestepsView,
    d: u64,
)
    requires
        m.wf(),
        m.progress is None,
        m.children.len() >= 1,
        m.accumulator + d <= u64::MAX,
        ({
            let m0 = m.reconciled(reg);
            &&& !m0.paused
            &&& m0.locked()
            &&& !(FixedTimestepStageView {
                accumulator: (m0.accumulator + d) as u64,
                ..m0
            }).overstep_deviates()
        }),
    ensures
        ({
            let o = m.spec_tick(reg, Some(d));
            &&& o.action == (TimestepAction::RunSubStage { index: 0, stage: m.children[0] })
            &&& o.stage.accumulator == o.stage.step / 2
            &&& o.stage.step == m.reconciled(reg).step
            &&& o.stage.children == m.children
            &&& o.stage.label == m.label
            &&& o.stage.progress == Some((0usize, 0u64))
            &&& o.stage.locked()
            &&& o.stage.wf()
            &&& o.registry.infos.dom().contains(m.label)
            &&& o.registry.infos[m.label] == o.stage.info()
        }),
{
    let m0 = m.reconciled(reg);
    let m1 = FixedTimestepStageView { accumulator: (m0.accumulator + d) as u64, ..m0 };
    let m2 = m1.lock_checked();
    assert(m2.accumulator == m1.step + m1.step / 2);
    assert(m2.accumulator >= m2.step);
}

/// Law: accumulator bound in locked mode, middle and end of the pass. While
/// a locked tick's single pass is under way (one step consumed, no pass
/// counted yet) and the children have left the published registry entry
/// alone, completing a child hands out the next child unchanged — no further
/// step is consumed — and completing the last child ends the tick with
/// exactly one pass counted and the accumulator re-centred at half a step,
/// still locked. Applied child by child after
/// [`lemma_locked_tick_starts_single_pass`], this bounds a locked tick for
/// any number of children.
pub proof fn lemma_locked_pass_single_step(m: FixedTimestepStageView, reg: FixedTimestepsView)
    requires
        m.wf(),
        m.locked(),
        (m.progress matches Some(p) && p.1 == 0),
        m.accumulator < m.step,
        reg.infos.dom().contains(m.label),
        reg.infos[m.label] == m.info(),
    ensures
        ({
            let o = m.spec_sub_stage_done(reg);
            let p = m.progress.unwrap();
            &&& (p.0 + 1 < m.children.len() ==> o.action == (TimestepAction::RunSubStage {
                index: (p.0 + 1) as usize,
                stage: m.children[p.0 + 1],
            }) && o.stage == (FixedTimestepStageView {
                progress: Some(((p.0 + 1) as usize, 0u64)),
                ..m
            }) && o.registry == reg)
            &&& (p.0 + 1 >= m.children.len() ==> o.action == (TimestepAction::TickDone {
                steps: 1,
            }) && o.stage.accumulator == m.step / 2 && o.stage.locked() && o.stage.progress
                is None && o.registry.infos == reg.infos && o.registry.current is None)
        }),
{
    let a = m.adopted(reg);
    assert(a == m);
}

/// Law: accumulator bound in locked mode, childless form, and the exit from
/// locked mode. For a childless stage whose rate lock is engaged after
/// reconciliation: while the overstep ratio stays within the exit deviation,
/// the tick runs exactly one step and ends with the accumulator pinned at
/// half a step, still locked; once the ratio strays by at least the
/// deviation, the lock drops and the tick drains the real backlog with
/// ordinary catch-up — `floor(accumulator / step)` steps — after which a
/// single-step tick is counted towards re-locking again.
pub proof fn lemma_locked_tick_childless(m: FixedTimestepStageView, reg: FixedTimestepsView, d: u64)
    requires
        m.wf(),
        m.progress is None,
        m.children.len() == 0,
        m.lock_frames > 1,
        m.accumulator + d <= u64::MAX,
        ({
            let m0 = m.reconciled(reg);
            !m0.paused && m0.locked()
        }),
    ensures
        ({
            let m0 = m.reconciled(reg);
            let m1 = FixedTimestepStageView { accumulator: (m0.accumulator + d) as u64, ..m0 };
            let o = m.spec_tick(reg, Some(d));
            &&& (!m1.overstep_deviates() ==> o.action == (TimestepAction::TickDone { steps: 1 })
                && o.stage.accumulator == m0.step / 2 && o.stage.locked())
            &&& (m1.overstep_deviates() ==> ({
                let steps = ((m1.accumulator as int) / (m0.step as int)) as u64;
                &&& o.action == (TimestepAction::TickDone { steps })
                &&& o.stage.accumulator == (m1.accumulator as int) % (m0.step as int)
                &&& o.stage.lock_accum == (if steps == 1 {
                    1u32
                } else {
                    0u32
                })
                &&& !o.stage.locked()
            }))
        }),
{
    let m0 = m.reconciled(reg);
    let m1 = FixedTimestepStageView { accumulator: (m0.accumulator + d) as u64, ..m0 };
    let m2 = m1.lock_checked();
    if !m1.overstep_deviates() {
        assert(m2.accumulator == m1.step + m1.step / 2);
        assert(m2.accumulator >= m2.step);
        assert((m2.accumulator as int) / (m2.step as int) == 1 && (m2.accumulator as int) % (
        m2.step as int) == m2.step / 2) by (nonlinear_arith)
            requires
                m2.step >= 1,
                m2.accumulator == m1.step + m1.step / 2,
                m2.step == m1.step,
        ;
    } else {
        vstd::arithmetic::div_mod::lemma_mod_bound(m1.accumulator as int, m0.step as int);
    }
}

} // verus!
