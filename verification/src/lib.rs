//! Validation of a declarative cluster configuration: hosts, network
//! interfaces and storage filesystems.
//!
//! Every entity implements [`Validate`]. A validator never mutates its
//! input and never stops at the first problem it can report: failures are
//! gathered into a [`ValidationError`], whose mathematical model is
//! [`ErrorView`].

pub mod config;
pub mod error;
pub mod text;
pub mod types;
pub mod validation;

pub use config::{
    Filesystem, Host, HostRole, NetworkConfig, NetworkInterface, NetworkType, ServerConfig,
    StorageConfig,
};
pub use error::{ErrorView, ValidationError};
pub use types::ByteSize;
pub use validation::traits::Validate;
