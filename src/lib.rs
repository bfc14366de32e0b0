//! Verified core of an n-body gravity simulation: the collection of bodies,
//! the index order in which bodies interact, and the per-frame schedule of
//! simulation actions.
//!
//! The numeric physics itself (vectors, forces, integration and collision
//! response) works on 32-bit floats and is built on top of these pieces.

mod environment;
mod frame;
mod pairs;

pub use environment::Environment;
pub use frame::{
    first_pressed, first_pressed_from, frame_plan, lemma_plan_spawns_before_any_step, plan_frame,
    repeated_substeps, substep_actions, Action, FrameInput,
};
pub use pairs::{ordered_pairs, other_indices, pair_before};
