//! The core of a runtime that serves a mixture-of-experts model from
//! content-addressed shards: the shard store, the license validator, the
//! usage meter, the tiered cache of expert tensors, the router and the
//! execution context, each with its contract.

pub mod assemble;
pub mod context;
pub mod encoding;
pub mod error;
pub mod gate;
pub mod hexcode;
pub mod ids;
pub mod license;
pub mod meter;
pub mod placement;
pub mod router;
pub mod sizing;
pub mod store;
pub mod tensor;
pub mod tiers;
pub mod types;

pub use context::ExecutionContext;
pub use error::{AuriaError, AuriaResult};
pub use ids::{ExpertId, PublicKey, RequestId, ShardId, Signature};
pub use license::LicenseValidator;
pub use meter::{RateLimited, UsageMeter};
pub use router::{Router, Topology};
pub use store::ShardStore;
pub use tensor::{Tensor, TensorDType, TensorLayout};
pub use tiers::TierManager;
pub use types::{
    CpuProfile, ExecutionOutput, ExecutionState, Expert, ExpertCacheEntry, ExpertDefinition,
    GpuProfile, HardwareProfile, License, LicenseTerms, LicenseType, LicenseUsage, RateLimit,
    RoutingDecision, RuntimeVersion, Shard, ShardMetadata, StorageStats, StorageTier,
    StorageTierConfig, Tier, UsageReceipt, UsageStats,
};
