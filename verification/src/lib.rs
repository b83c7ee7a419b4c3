//! Extension host and message-routing runtime for a pluggable,
//! multi-transport editor backend.
//!
//! The library is the core of the platform: the closed messaging
//! protocol exchanged between transports, the core and extensions; the
//! per-state event rendezvous registry; the extension manager with its
//! two trust levels (native and sandboxed); the token-gated registry of
//! workspace states; and the transport-independent dispatch step.  The
//! transports themselves, the script runtime and the real file system
//! are collaborators: hosts drive them and hand the core plain values.

pub mod bridge;
pub mod events_manager;
pub mod extension_client;
pub mod extensions_manager;
pub mod manifest;
pub mod memory_fs;
pub mod messaging;
pub mod server;
pub mod states;

pub use events_manager::EventsManager;
pub use extension_client::ExtensionClient;
pub use extensions_manager::ExtensionsManager;
pub use extensions_manager::LoadedExtension;
pub use manifest::Manifest;
pub use manifest::ManifestErrors;
pub use manifest::ManifestInfo;
pub use messaging::ClientMessages;
pub use messaging::ServerMessages;
pub use server::Server;
pub use states::State;
pub use states::StatesList;
pub use states::TokenFlags;
