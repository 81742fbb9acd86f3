//! Venues as agents: the discrete core of a venue's life.
//!
//! A venue absorbs events, keeps a weighted memory of them, develops a
//! dominant trait and speaks to the agents that visit it. The real-valued
//! parts (vibe, personality weights) are handled by the caller; this crate
//! holds everything that is decided on integers and text: which event kind
//! maps to which personality slot, the base weights and vibe nudges of each
//! kind, agent counting, the choice of the dominant trait and of the heaviest
//! echoes, the evolution of the voice prompt and the wording of the prompts.

pub mod agents;
pub mod keys;
pub mod kind;
pub mod ranking;
pub mod voice;
pub mod voice_laws;
