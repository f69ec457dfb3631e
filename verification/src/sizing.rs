//! Sizing the tiers from what is known of the machine.

use vstd::prelude::*;
use crate::error::AuriaError;
use crate::placement::Capacities;
use crate::types::{HardwareProfile, StorageTier, StorageTierConfig, Tier};

verus! {

/// The bytes of accelerator memory of a machine; none without accelerator.
pub open spec fn vram_of(profile: HardwareProfile) -> u64 {
    match profile.gpu {
        Some(gpu) => gpu.vram_bytes,
        None => 0,
    }
}

/// The bound that a list of configurations gives a tier: of several for one
/// tier the last, and zero where the list has none for it.
pub open spec fn bound_in(configs: Seq<StorageTierConfig>, tier: StorageTier) -> u64
    decreases configs.len(),
{
    if configs.len() == 0 {
        0
    } else if configs.last().tier == tier {
        configs.last().max_size_bytes
    } else {
        bound_in(configs.drop_last(), tier)
    }
}

/// The bounds that a list of configurations gives the three fast tiers.
pub open spec fn capacities_of(configs: Seq<StorageTierConfig>) -> Capacities {
    Capacities {
        vram: bound_in(configs, StorageTier::Vram),
        ram: bound_in(configs, StorageTier::Ram),
        disk: bound_in(configs, StorageTier::Disk),
    }
}

/// Whether the fast memory of a machine can hold a working set of this many
/// bytes.
pub open spec fn can_hold(profile: HardwareProfile, working_set_bytes: u64) -> bool {
    vram_of(profile) + profile.ram_bytes >= working_set_bytes
}

/// The bound that the configurations give a tier.
pub fn bound_of(configs: &Vec<StorageTierConfig>, tier: StorageTier) -> (bytes: u64)
    ensures
        bytes == bound_in(configs@, tier),
{
    let mut i: usize = configs.len();
    assert(configs@.take(i as int) =~= configs@);
    while i > 0
        invariant
            i <= configs.len(),
            bound_in(configs@, tier) == bound_in(configs@.take(i as int), tier),
        decreases i,
    {
        i -= 1;
        proof {
            let upto = configs@.take(i as int + 1);
            assert(upto.last() == configs@[i as int]);
            assert(upto.drop_last() =~= configs@.take(i as int));
        }
        if configs[i].tier == tier {
            return configs[i].max_size_bytes;
        }
    }
    0
}

impl Capacities {
    /// The bounds that the configurations give the three fast tiers.
    pub fn from_configs(configs: &Vec<StorageTierConfig>) -> (caps: Capacities)
        ensures
            caps == capacities_of(configs@),
    {
        Capacities {
            vram: bound_of(configs, StorageTier::Vram),
            ram: bound_of(configs, StorageTier::Ram),
            disk: bound_of(configs, StorageTier::Disk),
        }
    }
}

/// The configurations of the four tiers for a machine, from the fastest to
/// the slowest: the accelerator's memory, the system memory, `disk_bytes`
/// on disk under `disk_path`, and the network tier, which has no bound and
/// is listed with zero.
pub fn tier_configs(profile: &HardwareProfile, disk_bytes: u64, disk_path: Option<std::path::PathBuf>) -> (configs:
    Vec<StorageTierConfig>)
    ensures
        configs.len() == 4,
        configs[0].tier == StorageTier::Vram && configs[0].max_size_bytes == vram_of(*profile),
        configs[1].tier == StorageTier::Ram && configs[1].max_size_bytes == profile.ram_bytes,
        configs[2].tier == StorageTier::Disk && configs[2].max_size_bytes == disk_bytes
            && configs[2].path == disk_path,
        configs[3].tier == StorageTier::Network && configs[3].max_size_bytes == 0,
        configs[0].path is None && configs[1].path is None && configs[3].path is None,
        capacities_of(configs@) == (Capacities {
            vram: vram_of(*profile),
            ram: profile.ram_bytes,
            disk: disk_bytes,
        }),
{
    let vram: u64 = match &profile.gpu {
        Some(gpu) => gpu.vram_bytes,
        None => 0,
    };
    let mut configs: Vec<StorageTierConfig> = Vec::new();
    configs.push(StorageTierConfig { tier: StorageTier::Vram, max_size_bytes: vram, path: None });
    configs.push(
        StorageTierConfig { tier: StorageTier::Ram, max_size_bytes: profile.ram_bytes, path: None },
    );
    configs.push(
        StorageTierConfig { tier: StorageTier::Disk, max_size_bytes: disk_bytes, path: disk_path },
    );
    configs.push(StorageTierConfig { tier: StorageTier::Network, max_size_bytes: 0, path: None });
    proof {
        let all = configs@;
        let three = all.drop_last();
        let two = three.drop_last();
        let one = two.drop_last();
        assert(one.drop_last() =~= Seq::<StorageTierConfig>::empty());
        reveal_with_fuel(bound_in, 5);
        assert(bound_in(all, StorageTier::Vram) == vram);
        assert(bound_in(all, StorageTier::Ram) == profile.ram_bytes);
        assert(bound_in(all, StorageTier::Disk) == disk_bytes);
    }
    configs
}

/// Checks that the fast memory of the machine, accelerator and system
/// memory together, can hold the working set of the deployment tier. Fails
/// with `InsufficientHardware` for that tier where it cannot.
pub fn check_hardware(profile: &HardwareProfile, tier: Tier, working_set_bytes: u64) -> (r: Result<
    (),
    AuriaError,
>)
    ensures
        r is Ok <==> can_hold(*profile, working_set_bytes),
        r is Err ==> r->Err_0 == AuriaError::InsufficientHardware(tier),
{
    let vram: u64 = match &profile.gpu {
        Some(gpu) => gpu.vram_bytes,
        None => 0,
    };
    let enough = match vram.checked_add(profile.ram_bytes) {
        Some(fast) => fast >= working_set_bytes,
        None => true,
    };
    if enough {
        Ok(())
    } else {
        Err(AuriaError::InsufficientHardware(tier))
    }
}

} // verus!
