//! A verified core for a tus 1.0.0 resumable-upload middleware.
//!
//! The crate models a single upload resource as a [`FileInfo`] state
//! machine, parses and re-emits the `Upload-Metadata` header, and keeps
//! uploads in a vault whose operations carry full contracts, with an
//! in-memory implementation verified against them. The protocol handlers
//! take plain header values and the request body, drive the vault, and
//! describe the response to send; the host HTTP framework extracts those
//! values, runs the registered callbacks where a handler says so, and
//! writes the response out.

pub mod comet_vault;
pub mod dec;
pub mod file_info;
pub mod handlers;
pub mod mem_vault;
pub mod metadata;
pub mod meteoritus;
pub mod vault;

pub use crate::comet_vault::CometFile;
pub use crate::file_info::{Building, Built, Completed, Created, FileInfo, Terminated};
pub use crate::mem_vault::MemoryVault;
pub use crate::metadata::{Metadata, MetadataError};
pub use crate::meteoritus::{Meteoritus, MeteoritusHeaders};
pub use crate::vault::{PatchOption, Vault, VaultError};
