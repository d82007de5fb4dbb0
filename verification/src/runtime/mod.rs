//! Agent runtime types, backend logic and persisted runtime state.
pub mod backends;
pub mod agent_runtime;
pub mod state;
