//! Core of a discrete-time simulator of circular cells in a bounded world.
//!
//! The crate holds the structural heart of the engine: the generational
//! cell/bond/gusset graph, the sparse neural-net genome, bond energy slots,
//! and the control-request channel protocol. Continuous quantities (positions,
//! forces, energies) are type parameters here; a front end instantiates them
//! with its own numeric types and drives the physics.

pub mod bond;
pub mod control;
pub mod genome;
pub mod influences;
pub mod layers;
pub mod mvvm;
pub mod sortable_graph;
pub mod world;
