//! A GitHub Issues-backed agent memory system.
//!
//! GitHub Issues is the sole backend: no external database, no vector store. GitHub's
//! hybrid search API provides semantic retrieval.
//!
//! This crate holds the rules: what a memory looks like as an issue, what is asked of
//! GitHub and what its answers mean, how results are ranked, cached, recalled,
//! consolidated and evicted. It sends nothing itself: requests and replies are values.

pub mod api;
pub mod cli;
pub mod consolidation;
pub mod error;
pub mod json;
pub mod labels;
pub mod laws;
pub mod manager;
pub mod models;
pub mod order;
pub mod schema;
pub mod score;
pub mod search;
pub mod store;
pub mod text;
pub mod transcript;

pub use consolidation::{
    ConsolidationConfig, ConsolidationEngine, ConsolidationStats, EvictionStats,
};
pub use error::{MemoryError, Result};
pub use manager::MemoryManager;
pub use models::{MemoryEntry, MemoryEntryBuilder, MemoryPatch, MemoryTier, MemoryType};
pub use search::{SearchQuery, SearchResult};
