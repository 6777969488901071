pub mod analysis;
pub mod arith;
pub mod engine;
pub mod graph;
pub mod groups;
pub mod laws;
pub mod modifiers;
pub mod scenario;
pub mod snapshot;
pub mod state;
