//! Bomb placement, fire propagation, destruction and pause handling for a
//! tile-based bomb game, over an explicit entity store.
pub mod grid;
pub mod timer;
pub mod world;
pub mod bomb;
pub mod state;
pub mod portal;
