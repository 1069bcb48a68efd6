//! A fixed-capacity slot map keyed by bounded integers, and the page-granular
//! bump region that supplies its storage.

pub mod indexing;
pub mod keyvector;
pub mod wasm_allocator;
pub mod web_core;
