//! Desired-state reconciliation of registry keys and values.
//!
//! A caller describes one key, and optionally one value under it, in a
//! [`RegistryConfig`]. The library reports the current state (`config_get`),
//! says whether the current state matches the description (`config_test`), or
//! changes the registry to match it (`config_set`). The registry itself is
//! reached through the [`KeyStore`] capability; [`MemoryStore`] is a store
//! that lives in memory.

pub mod compare;
pub mod config;
pub mod engine;
pub mod error;
pub mod laws;
pub mod memory;
pub mod path;
pub mod protocol;
pub mod resolver;
pub mod store;

pub use config::{ConfigView, EnsureKind, RegistryConfig, RegistryValueData, ValueDataView};
pub use error::{ErrorView, RegistryError, StoreError};
pub use store::{KeyStore, RegistryValue, StoreDataView, StoreModel, StoreValueData};
pub use engine::{config_get, config_set, config_test};
pub use memory::{MemoryKey, MemoryStore};
pub use protocol::{exit_code, run_config, ConfigOperation};
