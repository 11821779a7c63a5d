//! An agent-orchestration core: a prompt is turned into a request for a
//! remote model backend, the backend's reply is matched against locally
//! registered callables, and the outcome is folded into a final answer.
//!
//! The crate is organised around five pieces: an associative [`memory`],
//! a callable registry ([`tool`] and [`tools`]), a provider abstraction
//! ([`provider`]) with one concrete backend ([`provider::gemini`]), the
//! [`agent`] that composes them, and a process-wide [`state`] store.

pub mod agent;
pub mod error;
pub mod event;
pub mod json;
pub mod memory;
pub mod numeric;
pub mod provider;
pub mod state;
pub mod tool;
pub mod tools;

pub use crate::agent::Agent;
pub use crate::error::Error;
pub use crate::memory::Memory;
pub use crate::provider::LLMProvider;
pub use crate::tool::{Function, RustFunction};
