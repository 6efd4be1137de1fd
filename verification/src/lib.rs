//! Composable scheduling primitives for an entity-component-system game loop:
//! run conditions, fixed timesteps, and states.
//!
//! The crate models the decision logic of three pluggable stages:
//!
//! - conditional systems: a wrapper that runs a main system only when every
//!   attached run condition holds, and that presents the combined data access
//!   of all its parts to the host scheduler;
//! - fixed-timestep stages: an accumulator that consumes wall-clock delta and
//!   drives child sub-stages at a declared fixed rate, with catch-up, pausing,
//!   live reconfiguration through a registry resource, and an optional
//!   rate-lock smoothing mode;
//! - state-transition stages: a driver that keeps a current-state resource
//!   and runs per-state enter and exit sub-stages whenever a next-state value
//!   is queued.
//!
//! The host scheduler, the world, and the actual systems live outside this
//! crate. Each stage here is a step machine: the caller invokes it, receives
//! an action naming the child sub-stage or system to run, performs that work
//! against the host world, and hands control back together with any values the
//! work changed. Everything the stages decide is stated in contracts.

pub mod condition;
pub mod fixedtimestep;
pub mod prelude;
pub mod state;
