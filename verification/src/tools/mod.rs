pub mod agents;
pub mod browser;
pub mod dummy_actors;
pub mod git;
pub mod marketplace;
pub mod sandbox;
pub mod wasm_runtime;
