//! The errors of the runtime.

use vstd::prelude::*;
use crate::ids::{ExpertId, ShardId};
use crate::types::Tier;

verus! {

/// What can go wrong in the runtime. No kind is fatal to the process.
#[derive(Debug)]
pub enum AuriaError {
    /// No shard is stored under this identifier (and version).
    ShardNotFound(ShardId),
    /// The topology holds no expert of this identifier.
    ExpertNotFound(ExpertId),
    /// No valid license covers this shard: missing, expired or badly signed.
    /// Which of the three is never told.
    LicenseInvalid(ShardId),
    /// The hardware cannot hold the working set of this deployment tier.
    InsufficientHardware(Tier),
    StorageError(String),
    ExecutionError(String),
    NetworkError(String),
    SerializationError(String),
    ConfigError(String),
    SecurityError(String),
    ClusterError(String),
}

/// The result of an operation of the runtime.
pub type AuriaResult<T> = Result<T, AuriaError>;

} // verus!
