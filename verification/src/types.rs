//! The shared vocabulary of the runtime.

use vstd::prelude::*;
use crate::ids::{ExpertId, PublicKey, RequestId, ShardId, Signature};
use crate::tensor::{copy_of, LayoutView, Tensor, TensorLayout, TensorView};

verus! {

/// Version of the runtime, as three numbers.
#[derive(Debug, Clone, Copy)]
pub struct RuntimeVersion {
    pub major: u16,
    pub minor: u16,
    pub patch: u16,
}

impl RuntimeVersion {
    /// The version of this runtime: 1.0.0.
    pub fn current() -> (v: Self)
        ensures
            v.major == 1,
            v.minor == 0,
            v.patch == 0,
    {
        RuntimeVersion { major: 1, minor: 0, patch: 0 }
    }
}

/// The size class of a deployment.
#[derive(Debug, Clone, Copy, PartialEq, Eq, Structural)]
pub enum Tier {
    Nano,
    Standard,
    Pro,
    Max,
}

impl Tier {
    /// The name of the tier, as it is shown.
    pub open spec fn name(self) -> Seq<char> {
        match self {
            Tier::Nano => "Nano"@,
            Tier::Standard => "Standard"@,
            Tier::Pro => "Pro"@,
            Tier::Max => "Max"@,
        }
    }

    /// The tier's name as text.
    pub fn to_string(&self) -> (text: String)
        ensures
            text@ == self.name(),
    {
        match self {
            Tier::Nano => "Nano".to_owned(),
            Tier::Standard => "Standard".to_owned(),
            Tier::Pro => "Pro".to_owned(),
            Tier::Max => "Max".to_owned(),
        }
    }
}

/// What is recorded about a shard besides its payload.
#[derive(Debug, Clone, Copy)]
pub struct ShardMetadata {
    pub owner: PublicKey,
    pub license_hash: Option<crate::ids::Hash>,
    pub created_at: u64,
    /// Rises with each new version of the shard.
    pub version: u32,
}

/// A slice of an expert's weights, with its identity.
#[derive(Debug)]
pub struct Shard {
    pub shard_id: ShardId,
    pub expert_id: ExpertId,
    pub tensor: Tensor,
    pub metadata: ShardMetadata,
}

/// What a shard holds.
pub ghost struct ShardView {
    pub shard_id: ShardId,
    pub expert_id: ExpertId,
    pub tensor: TensorView,
    pub metadata: ShardMetadata,
}

impl View for Shard {
    type V = ShardView;

    open spec fn view(&self) -> ShardView {
        ShardView {
            shard_id: self.shard_id,
            expert_id: self.expert_id,
            tensor: self.tensor@,
            metadata: self.metadata,
        }
    }
}

impl Clone for Shard {
    /// A shard that holds the same identity, payload and metadata.
    fn clone(&self) -> (copy: Self)
        ensures
            copy@ == self@,
    {
        Shard {
            shard_id: self.shard_id,
            expert_id: self.expert_id,
            tensor: self.tensor.clone(),
            metadata: self.metadata,
        }
    }
}

/// A routable unit of the model: the shards that make it up, in order, and
/// how they are laid out in its weight tensor.
#[derive(Debug)]
pub struct Expert {
    pub expert_id: ExpertId,
    pub shards: Vec<ShardId>,
    pub tensor_layout: TensorLayout,
}

/// What an expert holds.
pub ghost struct ExpertView {
    pub expert_id: ExpertId,
    pub shards: Seq<ShardId>,
    pub tensor_layout: LayoutView,
}

impl View for Expert {
    type V = ExpertView;

    open spec fn view(&self) -> ExpertView {
        ExpertView {
            expert_id: self.expert_id,
            shards: self.shards@,
            tensor_layout: self.tensor_layout@,
        }
    }
}

impl Clone for Expert {
    /// An expert with the same identifier, shard list and layout.
    fn clone(&self) -> (copy: Self)
        ensures
            copy@ == self@,
    {
        Expert {
            expert_id: self.expert_id,
            shards: copy_of(&self.shards),
            tensor_layout: self.tensor_layout.clone(),
        }
    }
}

/// An expert as it is declared to the runtime.
#[derive(Debug)]
pub struct ExpertDefinition {
    pub expert_id: ExpertId,
    pub shard_ids: Vec<ShardId>,
    pub tensor_layout: TensorLayout,
}

impl View for ExpertDefinition {
    type V = ExpertView;

    open spec fn view(&self) -> ExpertView {
        ExpertView {
            expert_id: self.expert_id,
            shards: self.shard_ids@,
            tensor_layout: self.tensor_layout@,
        }
    }
}

impl Clone for ExpertDefinition {
    /// A definition with the same identifier, shard list and layout.
    fn clone(&self) -> (copy: Self)
        ensures
            copy@ == self@,
    {
        ExpertDefinition {
            expert_id: self.expert_id,
            shard_ids: copy_of(&self.shard_ids),
            tensor_layout: self.tensor_layout.clone(),
        }
    }
}

impl ExpertDefinition {
    /// The expert that this definition declares.
    pub fn into_expert(self) -> (expert: Expert)
        ensures
            expert@ == self@,
    {
        Expert {
            expert_id: self.expert_id,
            shards: self.shard_ids,
            tensor_layout: self.tensor_layout,
        }
    }
}

/// What is known of the processor.
#[derive(Debug, Clone)]
pub struct CpuProfile {
    pub vendor: String,
    pub brand: String,
    pub cores: u32,
    pub threads: u32,
    pub features: Vec<String>,
}

/// What is known of the accelerator.
#[derive(Debug)]
pub struct GpuProfile {
    pub vendor: String,
    pub name: String,
    pub vram_bytes: u64,
    pub compute_capability: (u8, u8),
}

impl Clone for GpuProfile {
    /// The same profile once more.
    fn clone(&self) -> (copy: Self)
        ensures
            copy == *self,
    {
        GpuProfile {
            vendor: self.vendor.clone(),
            name: self.name.clone(),
            vram_bytes: self.vram_bytes,
            compute_capability: (self.compute_capability.0, self.compute_capability.1),
        }
    }
}

/// What is known of the machine. The three rates are whole numbers of
/// thousandths of their unit.
#[derive(Debug, Clone)]
pub struct HardwareProfile {
    pub cpu: CpuProfile,
    pub gpu: Option<GpuProfile>,
    pub ram_bytes: u64,
    /// Thousandths of a gigabyte per second.
    pub ram_bandwidth_milli_gbps: u64,
    /// Thousandths of a megabyte per second.
    pub disk_bandwidth_milli_mbps: u64,
    /// Thousandths of a millisecond.
    pub network_latency_micros: u64,
}

/// A grant that lets one node use one shard until it expires. The signature
/// is the issuing authority's, over shard, node and expiry.
#[derive(Debug, Clone, Copy)]
pub struct License {
    pub shard_id: ShardId,
    pub node_pubkey: PublicKey,
    pub expiry_timestamp: u64,
    pub signature: Signature,
}

/// A signed record of what one request consumed.
#[derive(Debug)]
pub struct UsageReceipt {
    pub request_id: RequestId,
    pub expert_ids: Vec<ExpertId>,
    pub token_count: u32,
    pub timestamp: u64,
    pub node_signature: Signature,
}

/// What a receipt holds.
pub ghost struct ReceiptView {
    pub request_id: RequestId,
    pub expert_ids: Seq<ExpertId>,
    pub token_count: u32,
    pub timestamp: u64,
    pub node_signature: Signature,
}

impl View for UsageReceipt {
    type V = ReceiptView;

    open spec fn view(&self) -> ReceiptView {
        ReceiptView {
            request_id: self.request_id,
            expert_ids: self.expert_ids@,
            token_count: self.token_count,
            timestamp: self.timestamp,
            node_signature: self.node_signature,
        }
    }
}

impl Clone for UsageReceipt {
    /// A receipt that records the same.
    fn clone(&self) -> (copy: Self)
        ensures
            copy@ == self@,
    {
        UsageReceipt {
            request_id: self.request_id,
            expert_ids: copy_of(&self.expert_ids),
            token_count: self.token_count,
            timestamp: self.timestamp,
            node_signature: self.node_signature,
        }
    }
}

/// The experts chosen for one request, in order.
#[derive(Debug)]
pub struct RoutingDecision {
    pub expert_ids: Vec<ExpertId>,
}

impl View for RoutingDecision {
    type V = Seq<ExpertId>;

    open spec fn view(&self) -> Seq<ExpertId> {
        self.expert_ids@
    }
}

impl Clone for RoutingDecision {
    /// A decision that names the same experts in the same order.
    fn clone(&self) -> (copy: Self)
        ensures
            copy@ == self@,
    {
        RoutingDecision { expert_ids: copy_of(&self.expert_ids) }
    }
}

/// What one call of the compute engine consumed.
#[derive(Debug, Clone, Copy)]
pub struct UsageStats {
    pub tokens_generated: u32,
}

/// What one call of the compute engine gave.
#[derive(Debug, Clone)]
pub struct ExecutionOutput {
    pub tokens: Vec<String>,
    pub usage: UsageStats,
}

/// Admission limit of a license: how many requests a second refill the
/// bucket, and how many it holds.
#[derive(Debug, Clone, Copy)]
pub struct RateLimit {
    pub requests_per_second: u32,
    pub burst_size: u32,
}

/// The kinds of license, each with what bounds its use.
#[derive(Debug, Clone)]
pub enum LicenseType {
    Subscription { tier: String, max_requests_per_day: u64 },
    /// `cost_per_token_micros` is the price of one token in millionths of a
    /// credit.
    PayPerUse { credits: u64, cost_per_token_micros: u64 },
    Enterprise { unlimited: bool, max_concurrent_requests: u32 },
    Community { tier: String },
}

/// The terms of a license.
#[derive(Debug, Clone)]
pub struct LicenseTerms {
    pub license_type: LicenseType,
    pub max_shards: u32,
    pub allowed_tiers: Vec<String>,
    pub rate_limit: Option<RateLimit>,
}

/// The running count of what one node has used under one license. The two
/// counters never fall.
#[derive(Debug, Clone, Copy)]
pub struct LicenseUsage {
    pub license_id: ShardId,
    pub node_pubkey: PublicKey,
    pub tokens_used: u64,
    pub requests_made: u64,
    pub last_updated: u64,
}

/// Where an expert's tensor can reside, from the cheapest to reach to the
/// dearest.
#[derive(Debug, Clone, Copy, PartialEq, Eq, Structural)]
pub enum StorageTier {
    Vram,
    Ram,
    Disk,
    Network,
}

impl StorageTier {
    /// The place of the tier in the order of access cost: 0 for `Vram`, 3
    /// for `Network`.
    pub open spec fn rank(self) -> int {
        match self {
            StorageTier::Vram => 0,
            StorageTier::Ram => 1,
            StorageTier::Disk => 2,
            StorageTier::Network => 3,
        }
    }

    /// The place of the tier in the order of access cost.
    pub fn index(&self) -> (i: usize)
        ensures
            i == self.rank(),
    {
        match self {
            StorageTier::Vram => 0,
            StorageTier::Ram => 1,
            StorageTier::Disk => 2,
            StorageTier::Network => 3,
        }
    }

    /// Whether this tier is cheaper to reach than `other`.
    pub fn is_faster_than(&self, other: &StorageTier) -> (faster: bool)
        ensures
            faster == (self.rank() < other.rank()),
    {
        self.index() < other.index()
    }
}

/// A path of the file system, as std holds it. Nothing in this library
/// looks inside one.
#[verifier::external_type_specification]
#[verifier::external_body]
pub struct ExPathBuf(std::path::PathBuf);

/// The bound of one tier, and where on disk the tier keeps its entries, if
/// it keeps them on disk.
#[derive(Debug, Clone)]
pub struct StorageTierConfig {
    pub tier: StorageTier,
    pub max_size_bytes: u64,
    pub path: Option<std::path::PathBuf>,
}

/// A count of the entries in the three bounded tiers at one moment.
#[derive(Debug, Clone, Copy)]
pub struct StorageStats {
    pub vram_count: usize,
    pub ram_count: usize,
    pub disk_count: u64,
}

/// An expert's tensor as it resides in a tier, with the time of its last
/// use.
#[derive(Debug)]
pub struct ExpertCacheEntry {
    pub expert_id: ExpertId,
    pub tensor: Tensor,
    pub last_used_timestamp: u64,
}

/// What a cache entry holds.
pub ghost struct EntryView {
    pub expert_id: ExpertId,
    pub tensor: TensorView,
    pub last_used_timestamp: u64,
}

impl View for ExpertCacheEntry {
    type V = EntryView;

    open spec fn view(&self) -> EntryView {
        EntryView {
            expert_id: self.expert_id,
            tensor: self.tensor@,
            last_used_timestamp: self.last_used_timestamp,
        }
    }
}

impl Clone for ExpertCacheEntry {
    /// An entry that holds the same.
    fn clone(&self) -> (copy: Self)
        ensures
            copy@ == self@,
    {
        ExpertCacheEntry {
            expert_id: self.expert_id,
            tensor: self.tensor.clone(),
            last_used_timestamp: self.last_used_timestamp,
        }
    }
}

/// The state of one request as it runs: how far it has come, and the
/// tensors cached on the way, in order.
#[derive(Debug)]
pub struct ExecutionState {
    pub position: u32,
    pub kv_cache: Vec<Tensor>,
}

} // verus!
