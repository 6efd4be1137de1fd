//! Convenient import for the user-facing APIs of the crate.

pub use crate::condition::{
    into_conditional, AddConditionalToSet, Condition, ConditionKind, ConditionSet,
    ConditionSystemSet, ConditionalAction, ConditionalSystem, ConditionalSystemDescriptor,
};
pub use crate::fixedtimestep::{
    FixedTimestepInfo, FixedTimestepStage, FixedTimestepStageLabel, FixedTimesteps, TimestepAction,
};
pub use crate::state::{
    CurrentState, NextState, StateSubStage, StateTransitionStage, StateTransitionStageLabel,
    TransitionAction,
};
