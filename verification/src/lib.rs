//! A local tool-lifecycle manager: a named registry of tools, each carrying
//! shell command sequences, together with a synchronization engine that
//! mirrors the registry to a remote Git-hosted file using optimistic
//! concurrency. The registry model, the document codec and the sync
//! engine's decision logic are verified; process, file and network
//! plumbing lives outside this crate.

pub mod codec;
pub mod lifecycle;
pub mod model;
pub mod sync;

pub use model::Config;
pub use model::ConfigWithSync;
pub use model::RegistryError;
pub use model::SyncConfig;
pub use model::ToolConfig;
