//! What the host and the recorded state tell: the facts from which reports
//! are built. Gathering them is the caller's part.

use vstd::prelude::*;
use crate::figures::Decimal;
use crate::report::ScrubOutcome;

verus! {

/// The SMART readings of a disk, with the two verdicts on them.
#[derive(Debug, Clone, Copy, PartialEq, Eq, Structural)]
pub struct SmartInfo {
    pub has_warning: bool,
    pub is_unknown: bool,
    pub temperature_c: Option<i64>,
    pub power_on_hours: Option<u64>,
    pub pending_sectors: Option<u64>,
    pub reallocated_sectors: Option<u64>,
    pub uncorrectable_sectors: Option<u64>,
    pub nvme_critical_warning: Option<u64>,
}

/// A disk of the host.
#[derive(Debug)]
pub struct DiskFacts {
    pub name: String,
    /// Stable `/dev/disk/by-id` name when known.
    pub id: Option<String>,
    pub size: Option<u64>,
    pub model: Option<String>,
    pub serial: Option<String>,
    pub rotational: Option<bool>,
    pub smart: SmartInfo,
    /// Whether the disk holds a part of the operating system.
    pub is_system: bool,
    /// System mountpoints observed under the disk.
    pub system_mounts: Vec<String>,
}

/// A device in the tree of disks and partitions.
#[derive(Debug)]
pub struct BlockDevice {
    pub name: String,
    pub partuuid: Option<String>,
    pub children: Vec<BlockDevice>,
}

/// A member of a live array.
#[derive(Debug)]
pub struct MdMember {
    pub name: String,
    pub role: Option<u32>,
    pub faulty: bool,
    pub spare: bool,
    pub write_mostly: bool,
    pub replacement: bool,
}

/// The progress of a live array's resync, check or reshape.
#[derive(Debug)]
pub struct MdSync {
    pub action: String,
    pub percent: Option<Decimal>,
    pub finish_min: Option<Decimal>,
}

/// A live array.
#[derive(Debug)]
pub struct MdArray {
    pub name: String,
    pub level: Option<String>,
    pub state: String,
    pub read_only: bool,
    pub degraded: bool,
    pub raid_disks: Option<usize>,
    pub active_disks: Option<usize>,
    pub members: Vec<MdMember>,
    pub sync: Option<MdSync>,
}

/// The sync speed of an array and its limits, as they are in force.
#[derive(Debug, Clone, Copy, PartialEq, Eq, Structural)]
pub struct SyncLimits {
    pub speed_kb: Option<u64>,
    pub min_kb: Option<u64>,
    pub max_kb: Option<u64>,
}

/// Everything that was observed on the host at one time.
#[derive(Debug)]
pub struct Inventory {
    pub disks: Vec<DiskFacts>,
    pub devices: Vec<BlockDevice>,
    pub arrays: Vec<MdArray>,
    /// The sync limits per array name.
    pub sync_limits: Vec<(String, SyncLimits)>,
}

/// The recorded result of a scrub.
#[derive(Debug)]
pub struct StateScrubResult {
    pub finished_at: String,
    pub outcome: ScrubOutcome,
    pub error_count: u64,
}

/// A recorded band.
#[derive(Debug)]
pub struct StateBand {
    pub index: u8,
    pub level: String,
    pub md_name: String,
    pub md_uuid: Option<String>,
    pub usable_bytes: u64,
    pub resize_pending: bool,
    pub last_scrub: Option<StateScrubResult>,
    pub scrub_in_progress: bool,
    /// The path of a member that waits for its removal.
    pub pending_member_removal: Option<String>,
    pub sync_priority: Option<String>,
    pub sync_capability_kb: Option<u64>,
    pub sync_capability_observed_at: Option<String>,
    pub last_throttle_decision: Option<String>,
    pub last_throttle_reason: Option<String>,
    pub last_throttle_speed_kb: Option<u64>,
}

/// The recorded filesystem of a group.
#[derive(Debug)]
pub struct StateFilesystem {
    pub mount_point: String,
    pub fs_uuid: Option<String>,
    pub vg_name: String,
    pub lv_name: String,
    pub compression: String,
}

/// A recorded member disk.
#[derive(Debug)]
pub struct StateDisk {
    /// The stable identifier of the disk.
    pub id: String,
    pub size_bytes: u64,
}

/// A recorded group.
#[derive(Debug)]
pub struct ArrayState {
    pub name: String,
    pub mode: String,
    pub layout_version: u32,
    pub filesystem: StateFilesystem,
    pub disks: Vec<StateDisk>,
    pub bands: Vec<StateBand>,
    /// Whether an expansion of the group was begun and is not finished.
    pub expansion_in_progress: bool,
}

/// The recorded state of the host.
#[derive(Debug)]
pub struct StateFile {
    pub groups: Vec<ArrayState>,
    /// The host-wide sync speed limit that was in force before it was lowered,
    /// while it is still to be put back.
    pub saved_speed_limit_max_kb: Option<u64>,
}

/// How a filesystem's chunks are used, as far as the filesystem tells.
#[derive(Debug, Clone, Copy, PartialEq, Eq, Structural)]
pub struct ChunkUsage {
    pub data_used_bytes: Option<u64>,
    pub data_total_bytes: Option<u64>,
    pub metadata_used_bytes: Option<u64>,
    pub metadata_total_bytes: Option<u64>,
    pub unallocated_bytes: Option<u64>,
}

} // verus!
