//! The entities of a cluster configuration.

pub mod host;
pub mod network;
pub mod server;
pub mod storage;

pub use host::{Host, HostRole};
pub use network::{NetworkConfig, NetworkInterface, NetworkType};
pub use server::ServerConfig;
pub use storage::{Filesystem, StorageConfig};
