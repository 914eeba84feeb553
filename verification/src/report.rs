//! Report types: what the status, plan and capacity commands tell, to people
//! and to machines.

use vstd::prelude::*;
use crate::figures::Decimal;
use crate::metrics::Fraction;

verus! {

/// Version of the machine-readable report contract. Advances on breaking
/// shape changes so that consumers can adapt.
pub const SCHEMA_VERSION: u32 = 2;

/// The health of the whole host.
#[derive(Debug, Clone, Copy, PartialEq, Eq, Structural)]
pub enum Health {
    Healthy,
    Degraded,
    /// No array present yet (or state unknown).
    Unknown,
}

/// What the self-monitoring of a disk says.
#[derive(Debug, Clone, Copy, PartialEq, Eq, Structural)]
pub enum SmartState {
    /// Nothing to report.
    Good,
    Warning,
    Unknown,
}

/// The self-monitoring of a disk.
#[derive(Debug, Clone, Copy, PartialEq, Eq, Structural)]
pub struct SmartSummary {
    pub state: SmartState,
    pub temperature_c: Option<i64>,
    pub power_on_hours: Option<u64>,
    /// Detail signals so that e.g. "1 Pending Sector" can be shown.
    pub pending_sectors: Option<u64>,
    pub reallocated_sectors: Option<u64>,
    pub uncorrectable_sectors: Option<u64>,
    pub nvme_critical_warning: Option<u64>,
}

/// A disk of the host.
#[derive(Debug, PartialEq, Eq)]
pub struct DiskStatus {
    pub name: String,
    /// Stable `/dev/disk/by-id` name when known.
    pub id: Option<String>,
    pub size: Option<u64>,
    pub model: Option<String>,
    pub serial: Option<String>,
    pub rotational: Option<bool>,
    pub smart: SmartSummary,
    /// RAID arrays this disk backs (by name).
    pub arrays: Vec<String>,
    /// True when this disk holds OS mounts (`/`, `/boot`, …).
    pub system_disk: bool,
    /// System mountpoints observed under this disk (empty if none).
    pub system_mounts: Vec<String>,
}

/// Progress of a running resync, check or reshape.
#[derive(Debug, PartialEq, Eq)]
pub struct SyncSummary {
    pub action: String,
    pub percent: Option<Decimal>,
    pub finish_min: Option<Decimal>,
}

impl Clone for SyncSummary {
    fn clone(&self) -> (r: Self)
        ensures
            r == *self,
    {
        SyncSummary {
            action: self.action.clone(),
            percent: self.percent,
            finish_min: self.finish_min,
        }
    }
}

/// One member device's live state. Without it, a faulty or spare member would
/// be indistinguishable from a healthy one.
#[derive(Debug, PartialEq, Eq)]
pub struct MemberStatus {
    pub name: String,
    pub role: Option<u32>,
    pub faulty: bool,
    pub spare: bool,
    pub write_mostly: bool,
    pub replacement: bool,
}

impl Clone for MemberStatus {
    fn clone(&self) -> (r: Self)
        ensures
            r == *self,
    {
        MemberStatus {
            name: self.name.clone(),
            role: self.role,
            faulty: self.faulty,
            spare: self.spare,
            write_mostly: self.write_mostly,
            replacement: self.replacement,
        }
    }
}

/// A live array.
#[derive(Debug, PartialEq, Eq)]
pub struct ArrayStatus {
    pub name: String,
    pub level: Option<String>,
    pub state: String,
    pub read_only: bool,
    pub degraded: bool,
    pub raid_disks: Option<usize>,
    pub active_disks: Option<usize>,
    pub members: Vec<String>,
    /// Per-member detail for the same devices that `members` names, in the
    /// same order.
    pub member_states: Vec<MemberStatus>,
    pub sync: Option<SyncSummary>,
}

/// Outcome of the most recent scrub on a band.
#[derive(Debug, Clone, Copy, PartialEq, Eq, Structural)]
pub enum ScrubOutcome {
    Completed,
    Cancelled,
    Failed,
}

/// How an error check ended.
#[derive(Debug, PartialEq, Eq)]
pub struct ScrubSummary {
    pub finished_at: String,
    pub outcome: ScrubOutcome,
    pub error_count: u64,
}

/// One RAID band inside a group.
#[derive(Debug, PartialEq, Eq)]
pub struct GroupBandStatus {
    pub index: u8,
    pub level: String,
    pub md_name: String,
    /// The UUID of the band's live array, once it is known.
    pub md_uuid: Option<String>,
    pub usable_bytes: u64,
    /// A reshape completed but the layers above it have not been resized to
    /// match yet.
    pub resize_pending: bool,
    /// Kernel member device names (e.g. `sdb1`) backing this band right now.
    /// Empty when no live array has the band's name. Never fabricated.
    pub members: Vec<String>,
    /// Per-member detail for `members`.
    pub member_states: Vec<MemberStatus>,
    /// This band's live resync/check/reshape progress, if any.
    pub sync: Option<SyncSummary>,
    /// This band's most recent scrub result. `None` if no scrub has ever run
    /// against this band.
    pub last_scrub: Option<ScrubSummary>,
    /// This band's speed control: the speed and limits in force right now, the
    /// profile that put them there, and what the last adjustment decided and
    /// why. Absent rather than zero when unknown.
    pub sync_speed_kb: Option<u64>,
    pub sync_speed_min_kb: Option<u64>,
    pub sync_speed_max_kb: Option<u64>,
    pub sync_priority: Option<String>,
    pub sync_capability_kb: Option<u64>,
    pub sync_capability_observed_at: Option<String>,
    pub last_throttle_decision: Option<String>,
    pub last_throttle_reason: Option<String>,
    pub last_throttle_speed_kb: Option<u64>,
    pub scrub_in_progress: bool,
    /// The member that is still queued for removal once the copy to its
    /// replacement finishes: the kernel device name where it is known, else
    /// the recorded path. Never dropped just because it cannot be resolved.
    pub pending_member_removal: Option<String>,
}

impl Default for GroupBandStatus {
    fn default() -> (r: Self)
        ensures
            r.index == 0,
            r.level@ == ""@,
            r.md_name@ == ""@,
            r.md_uuid is None,
            r.usable_bytes == 0,
            !r.resize_pending,
            r.members@.len() == 0,
            r.member_states@.len() == 0,
            r.sync is None,
            r.last_scrub is None,
            r.sync_speed_kb is None,
            r.sync_speed_min_kb is None,
            r.sync_speed_max_kb is None,
            r.sync_priority is None,
            r.sync_capability_kb is None,
            r.sync_capability_observed_at is None,
            r.last_throttle_decision is None,
            r.last_throttle_reason is None,
            r.last_throttle_speed_kb is None,
            !r.scrub_in_progress,
            r.pending_member_removal is None,
    {
        GroupBandStatus {
            index: 0,
            level: "".to_owned(),
            md_name: "".to_owned(),
            md_uuid: None,
            usable_bytes: 0,
            resize_pending: false,
            members: Vec::new(),
            member_states: Vec::new(),
            sync: None,
            last_scrub: None,
            sync_speed_kb: None,
            sync_speed_min_kb: None,
            sync_speed_max_kb: None,
            sync_priority: None,
            sync_capability_kb: None,
            sync_capability_observed_at: None,
            last_throttle_decision: None,
            last_throttle_reason: None,
            last_throttle_speed_kb: None,
            scrub_in_progress: false,
            pending_member_removal: None,
        }
    }
}

/// One group of disks. A host with no recorded state reports an empty list of
/// groups, not fabricated entries.
#[derive(Debug, PartialEq, Eq)]
pub struct GroupStatus {
    pub name: String,
    /// `"shr"` or `"shr2"`.
    pub mode: String,
    pub layout_version: u32,
    pub mount_point: String,
    pub fs_uuid: Option<String>,
    pub vg_name: String,
    pub lv_name: String,
    pub compression: String,
    /// Sum of every band's `usable_bytes`.
    pub usable_bytes: u64,
    /// True if any band in this group has a deferred resize pending.
    pub resize_pending: bool,
    /// Member disk ids, independent of `bands[].members` since a disk can back
    /// more than one band.
    pub disks: Vec<String>,
    pub bands: Vec<GroupBandStatus>,
}

/// What the status command tells.
#[derive(Debug, PartialEq, Eq)]
pub struct StatusReport {
    pub schema_version: u32,
    pub health: Health,
    pub disks: Vec<DiskStatus>,
    pub arrays: Vec<ArrayStatus>,
    /// Every recorded group. Empty when no state exists yet.
    pub groups: Vec<GroupStatus>,
    /// The path of the state file that was loaded. `None` only means that the
    /// caller never told; it is never guessed.
    pub state_path: Option<String>,
}

/// A band of a plan.
#[derive(Debug, PartialEq, Eq)]
pub struct BandReport {
    pub index: u8,
    pub level: String,
    /// Per-member slice size in bytes.
    pub size: u64,
    pub members: Vec<String>,
    pub usable: u64,
    pub raw: u64,
}

/// What the capacity of a plan is spent on.
#[derive(Debug, PartialEq, Eq)]
pub struct MetricsReport {
    pub total_usable: u64,
    pub total_raw: u64,
    pub redundancy_overhead: u64,
    pub stranded_bytes: u64,
    pub waste_ratio: Fraction,
    /// The fill fraction of each disk, in the order of the names.
    pub utilization: Vec<(String, Fraction)>,
}

/// A plan.
#[derive(Debug, PartialEq, Eq)]
pub struct PlanReport {
    pub schema_version: u32,
    pub mode: String,
    pub bands: Vec<BandReport>,
    pub metrics: MetricsReport,
    /// Capacity that no band uses, per disk, in the order of the names.
    pub unusable_per_disk: Vec<(String, u64)>,
    pub warnings: Vec<String>,
}

/// Best-effort filesystem allocation figures for one group, as the caller
/// happens to have them. Every field is independently optional; nothing here
/// is invented.
#[derive(Debug, Clone, Copy, PartialEq, Eq, Structural)]
pub struct FsUsageInput {
    pub data_used_bytes: Option<u64>,
    pub data_total_bytes: Option<u64>,
    pub metadata_used_bytes: Option<u64>,
    pub metadata_total_bytes: Option<u64>,
    /// Raw space not yet allocated to any chunk, more trustworthy than a plain
    /// `df`'s "available".
    pub unallocated_bytes: Option<u64>,
    /// The "available" figure a plain `df` would show.
    pub statvfs_avail_bytes: Option<u64>,
}

/// No figure at all.
pub open spec fn no_usage() -> FsUsageInput {
    FsUsageInput {
        data_used_bytes: None,
        data_total_bytes: None,
        metadata_used_bytes: None,
        metadata_total_bytes: None,
        unallocated_bytes: None,
        statvfs_avail_bytes: None,
    }
}

impl Default for FsUsageInput {
    fn default() -> (r: Self)
        ensures
            r == no_usage(),
    {
        FsUsageInput {
            data_used_bytes: None,
            data_total_bytes: None,
            metadata_used_bytes: None,
            metadata_total_bytes: None,
            unallocated_bytes: None,
            statvfs_avail_bytes: None,
        }
    }
}

/// One group's row in a capacity report: the group's known logical capacity
/// plus whatever live usage the caller supplied.
#[derive(Debug, PartialEq, Eq)]
pub struct GroupDfStatus {
    pub name: String,
    pub mount_point: String,
    /// Sum of this group's bands' usable bytes, always known.
    pub usable_bytes: u64,
    pub data_used_bytes: Option<u64>,
    pub data_total_bytes: Option<u64>,
    pub metadata_used_bytes: Option<u64>,
    pub metadata_total_bytes: Option<u64>,
    pub unallocated_bytes: Option<u64>,
    pub statvfs_avail_bytes: Option<u64>,
}

/// How full the filesystems are.
#[derive(Debug, PartialEq, Eq)]
pub struct FsDfReport {
    pub schema_version: u32,
    pub groups: Vec<GroupDfStatus>,
}

} // verus!
