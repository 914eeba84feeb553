//! The read-only operations: build a status report from an inventory and the
//! recorded state, a capacity report, and a dry-run plan report for a proposed
//! disk set.

use vstd::prelude::*;
use crate::band;
use crate::band::{BandView, RedundantBand};
use crate::disk;
use crate::disk::{Disk, DiskId};
use crate::inventory::{
    ArrayState, BlockDevice, ChunkUsage, DiskFacts, Inventory, MdArray, MdMember, MdSync, SmartInfo,
    StateBand, StateDisk, StateFile, StateScrubResult, SyncLimits,
};
use crate::metrics;
use crate::metrics::{DistributionMetrics, MetricsView};
use crate::planner;
use crate::planner::{
    plan_initial, InputView, PlanError, PlanView, PlannerInput, PlannerOutput, PlannerWarning,
    WarningView,
};
use crate::raid;
use crate::raid::RedundancyMode;
use crate::report::{
    ArrayStatus, BandReport, DiskStatus, FsDfReport, FsUsageInput, GroupBandStatus, GroupDfStatus,
    GroupStatus, Health, MemberStatus, MetricsReport, PlanReport, ScrubSummary, SmartState,
    SmartSummary, StatusReport, SyncSummary, SCHEMA_VERSION,
};
use crate::report;
use crate::table;
use crate::text;

verus! {

/// Why a report could not be built.
#[derive(Debug, PartialEq, Eq)]
pub enum ShrError {
    /// The host could not be inspected.
    Inspect(String),
    /// No layout could be planned.
    Plan(PlanError),
}

/// The sentence that describes a [`ShrError`].
pub open spec fn shr_error_text(e: ShrError) -> Seq<char> {
    match e {
        ShrError::Inspect(why) => why@,
        ShrError::Plan(e) => planner::plan_fault_text(e@),
    }
}

impl ShrError {
    /// A sentence that describes the error.
    pub fn message(&self) -> (out: String)
        ensures
            out@ == shr_error_text(*self),
    {
        match self {
            ShrError::Inspect(why) => why.clone(),
            ShrError::Plan(e) => e.message(),
        }
    }
}

impl From<PlanError> for ShrError {
    fn from(e: PlanError) -> (r: Self) {
        ShrError::Plan(e)
    }
}

impl vstd::std_specs::convert::FromSpecImpl<PlanError> for ShrError {
    open spec fn obeys_from_spec() -> bool {
        true
    }

    open spec fn from_spec(e: PlanError) -> Self {
        ShrError::Plan(e)
    }
}

// ---------------------------------------------------------------------------
// Device names
// ---------------------------------------------------------------------------

/// Whether `c` is an ASCII digit.
pub open spec fn is_digit(c: char) -> bool {
    '0' <= c <= '9'
}

/// Whether `s` has ASCII digits only.
pub open spec fn all_digits(s: Seq<char>) -> bool {
    forall|i: int| 0 <= i < s.len() ==> is_digit(#[trigger] s[i])
}

/// Whether `part` is the number of a partition of `disk`: digits, preceded by
/// a `p` where the disk's own name ends in a digit.
pub open spec fn is_partition_suffix(part: Seq<char>, disk: Seq<char>) -> bool {
    if is_digit(disk.last()) {
        part.len() >= 2 && part[0] == 'p' && all_digits(part.subrange(1, part.len() as int))
    } else {
        part.len() >= 1 && all_digits(part)
    }
}

/// Whether the device `member` is the disk `disk` or one of its partitions.
pub open spec fn belongs(member: Seq<char>, disk: Seq<char>) -> bool {
    &&& disk.len() > 0
    &&& member.len() > 0
    &&& member == disk || (text::starts_with(member, disk) && is_partition_suffix(
        member.subrange(disk.len() as int, member.len() as int),
        disk,
    ))
}

fn digits_only(s: &str) -> (r: bool)
    ensures
        r == all_digits(s@),
{
    let n: usize = s.unicode_len();
    let mut i: usize = 0;
    while i < n
        invariant
            i <= n,
            n == s@.len(),
            forall|k: int| 0 <= k < i ==> is_digit(#[trigger] s@[k]),
        decreases n - i,
    {
        let c: char = s.get_char(i);
        if c < '0' || c > '9' {
            return false;
        }
        i = i + 1;
    }
    true
}

/// Does member device `member` belong to disk `disk`? The member is either the
/// whole disk, or a partition of it. Partition naming depends on whether the
/// disk name ends in a digit:
/// - ends in a letter (`sda`) → partition is `sda` + digits (`sda1`);
/// - ends in a digit (`nvme0n1`, `mmcblk0`) → partition is `…` + `p` + digits
///   (`nvme0n1p1`).
///
/// This avoids prefix collisions like `nvme0n1` vs `nvme0n10p1` and
/// `dm-1` vs `dm-10`. Stacked members are not resolved to their physical
/// backing disks.
pub fn member_belongs(member: &str, disk: &str) -> (r: bool)
    ensures
        r == belongs(member@, disk@),
{
    let dn: usize = disk.unicode_len();
    let mn: usize = member.unicode_len();
    if dn == 0 || mn == 0 {
        return false;
    }
    if text::same(member, disk) {
        return true;
    }
    if !text::has_prefix(member, disk) {
        return false;
    }
    let rest = member.substring_char(dn, mn);
    let last: char = disk.get_char(dn - 1);
    let n: usize = rest.unicode_len();
    if last >= '0' && last <= '9' {
        if n < 2 || rest.get_char(0) != 'p' {
            return false;
        }
        digits_only(rest.substring_char(1, n))
    } else {
        n >= 1 && digits_only(rest)
    }
}

/// A character with an ASCII capital letter made small.
pub open spec fn ascii_small(c: char) -> char {
    if 'A' <= c <= 'Z' {
        (c as u32 + 32) as char
    } else {
        c
    }
}

/// Whether two texts are the same but for the case of ASCII letters.
pub open spec fn same_but_case(a: Seq<char>, b: Seq<char>) -> bool {
    &&& a.len() == b.len()
    &&& forall|i: int| 0 <= i < a.len() ==> #[trigger] ascii_small(a[i]) == ascii_small(b[i])
}

fn small(c: char) -> (r: u32)
    ensures
        r == ascii_small(c) as u32,
{
    if 'A' <= c && c <= 'Z' {
        c as u32 + 32
    } else {
        c as u32
    }
}

/// Whether two texts are the same but for the case of ASCII letters.
pub fn eq_ignoring_case(a: &str, b: &str) -> (r: bool)
    ensures
        r == same_but_case(a@, b@),
{
    let n: usize = a.unicode_len();
    if n != b.unicode_len() {
        return false;
    }
    let mut i: usize = 0;
    while i < n
        invariant
            i <= n,
            n == a@.len(),
            n == b@.len(),
            forall|k: int| 0 <= k < i ==> #[trigger] ascii_small(a@[k]) == ascii_small(b@[k]),
        decreases n - i,
    {
        if small(a.get_char(i)) != small(b.get_char(i)) {
            assert(ascii_small(a@[i as int]) != ascii_small(b@[i as int]));
            return false;
        }
        i = i + 1;
    }
    true
}

/// Whether a device carries the partition UUID `uuid`.
pub open spec fn carries(d: BlockDevice, uuid: Seq<char>) -> bool {
    match d.partuuid {
        Some(p) => same_but_case(p@, uuid),
        None => false,
    }
}

/// The name of the first device, each before its children, that carries the
/// partition UUID `uuid`.
pub open spec fn device_with(devices: Seq<BlockDevice>, uuid: Seq<char>) -> Option<Seq<char>>
    decreases devices,
{
    if devices.len() == 0 {
        None
    } else if carries(devices[0], uuid) {
        Some(devices[0].name@)
    } else {
        match device_with(devices[0].children@, uuid) {
            Some(name) => Some(name),
            None => device_with(devices.subrange(1, devices.len() as int), uuid),
        }
    }
}

fn find_device(devices: &Vec<BlockDevice>, uuid: &str) -> (r: Option<String>)
    ensures
        match r {
            Some(name) => device_with(devices@, uuid@) == Some(name@),
            None => device_with(devices@, uuid@) is None,
        },
    decreases devices,
{
    let mut i: usize = 0;
    assert(devices@.subrange(0, devices@.len() as int) =~= devices@);
    while i < devices.len()
        invariant
            i <= devices.len(),
            device_with(devices@, uuid@) == device_with(
                devices@.subrange(i as int, devices@.len() as int),
                uuid@,
            ),
        decreases devices.len() - i,
    {
        let ghost rest = devices@.subrange(i as int, devices@.len() as int);
        let d = &devices[i];
        assert(rest[0] == *d);
        assert(rest.subrange(1, rest.len() as int) =~= devices@.subrange(
            i + 1,
            devices@.len() as int,
        ));
        if let Some(p) = &d.partuuid {
            if eq_ignoring_case(p.as_str(), uuid) {
                return Some(d.name.clone());
            }
        }
        if let Some(name) = find_device(&d.children, uuid) {
            return Some(name);
        }
        i = i + 1;
    }
    None
}

/// The prefix of a path that names a partition by its UUID.
pub open spec fn partuuid_prefix() -> Seq<char> {
    "/dev/disk/by-partuuid/"@
}

/// The kernel name of the device that a path by partition UUID stands for.
pub open spec fn kernel_name(devices: Seq<BlockDevice>, path: Seq<char>) -> Option<Seq<char>> {
    if text::starts_with(path, partuuid_prefix()) {
        device_with(
            devices,
            path.subrange(partuuid_prefix().len() as int, path.len() as int),
        )
    } else {
        None
    }
}

/// `None` when `raw` isn't a `/dev/disk/by-partuuid/<uuid>` path, or no device
/// (disk or partition, at any depth) currently carries that partition UUID.
/// Letter case does not matter.
pub fn kernel_name_for_partuuid(devices: &Vec<BlockDevice>, raw: &str) -> (r: Option<String>)
    ensures
        match r {
            Some(name) => kernel_name(devices@, raw@) == Some(name@),
            None => kernel_name(devices@, raw@) is None,
        },
{
    let prefix = "/dev/disk/by-partuuid/";
    if !text::has_prefix(raw, prefix) {
        return None;
    }
    find_device(devices, raw.substring_char(prefix.unicode_len(), raw.unicode_len()))
}

/// The member that waits for its removal: by kernel name where that is known,
/// else by the recorded path.
pub open spec fn removal_name(devices: Seq<BlockDevice>, path: Seq<char>) -> Seq<char> {
    match kernel_name(devices, path) {
        Some(name) => name,
        None => path,
    }
}

/// Resolve the recorded path of a member that waits for its removal to the
/// kernel device name that currently owns that partition UUID. Falls back to
/// the path itself when resolution fails, so that the fact that a removal is
/// pending never silently disappears.
pub fn resolve_pending_removal(devices: &Vec<BlockDevice>, raw: &String) -> (r: String)
    ensures
        r@ == removal_name(devices@, raw@),
{
    match kernel_name_for_partuuid(devices, raw.as_str()) {
        Some(name) => name,
        None => raw.clone(),
    }
}

// ---------------------------------------------------------------------------
// Projections of live facts
// ---------------------------------------------------------------------------

/// The verdict on SMART readings and the readings themselves.
pub open spec fn smart_of(s: SmartInfo) -> SmartSummary {
    SmartSummary {
        state: if s.has_warning {
            SmartState::Warning
        } else if s.is_unknown {
            SmartState::Unknown
        } else {
            SmartState::Good
        },
        temperature_c: s.temperature_c,
        power_on_hours: s.power_on_hours,
        pending_sectors: s.pending_sectors,
        reallocated_sectors: s.reallocated_sectors,
        uncorrectable_sectors: s.uncorrectable_sectors,
        nvme_critical_warning: s.nvme_critical_warning,
    }
}

/// Tell the health of a disk.
pub fn smart_summary(s: &SmartInfo) -> (r: SmartSummary)
    ensures
        r == smart_of(*s),
{
    let state = if s.has_warning {
        SmartState::Warning
    } else if s.is_unknown {
        SmartState::Unknown
    } else {
        SmartState::Good
    };
    SmartSummary {
        state,
        temperature_c: s.temperature_c,
        power_on_hours: s.power_on_hours,
        pending_sectors: s.pending_sectors,
        reallocated_sectors: s.reallocated_sectors,
        uncorrectable_sectors: s.uncorrectable_sectors,
        nvme_critical_warning: s.nvme_critical_warning,
    }
}

/// The status of a live member.
pub open spec fn member_of(m: MdMember) -> MemberStatus {
    MemberStatus {
        name: m.name,
        role: m.role,
        faulty: m.faulty,
        spare: m.spare,
        write_mostly: m.write_mostly,
        replacement: m.replacement,
    }
}

/// What is told of members.
pub open spec fn members_of(list: Seq<MdMember>) -> Seq<MemberStatus> {
    list.map_values(|m: MdMember| member_of(m))
}

/// The names of members.
pub open spec fn member_names(list: Seq<MdMember>) -> Seq<String> {
    list.map_values(|m: MdMember| m.name)
}

/// The progress of a live sync.
pub open spec fn sync_of(s: Option<MdSync>) -> Option<SyncSummary> {
    match s {
        Some(s) => Some(
            SyncSummary { action: s.action, percent: s.percent, finish_min: s.finish_min },
        ),
        None => None,
    }
}

fn member_status(m: &MdMember) -> (r: MemberStatus)
    ensures
        r == member_of(*m),
{
    MemberStatus {
        name: m.name.clone(),
        role: m.role,
        faulty: m.faulty,
        spare: m.spare,
        write_mostly: m.write_mostly,
        replacement: m.replacement,
    }
}

fn member_statuses(list: &Vec<MdMember>) -> (r: Vec<MemberStatus>)
    ensures
        r@ == members_of(list@),
{
    let mut r: Vec<MemberStatus> = Vec::new();
    let mut i: usize = 0;
    while i < list.len()
        invariant
            i <= list.len(),
            r@ =~= members_of(list@).take(i as int),
        decreases list.len() - i,
    {
        r.push(member_status(&list[i]));
        i = i + 1;
    }
    assert(members_of(list@).take(i as int) =~= members_of(list@));
    r
}

fn names_of(list: &Vec<MdMember>) -> (r: Vec<String>)
    ensures
        r@ == member_names(list@),
{
    let mut r: Vec<String> = Vec::new();
    let mut i: usize = 0;
    while i < list.len()
        invariant
            i <= list.len(),
            r@ =~= member_names(list@).take(i as int),
        decreases list.len() - i,
    {
        r.push(list[i].name.clone());
        i = i + 1;
    }
    assert(member_names(list@).take(i as int) =~= member_names(list@));
    r
}

fn sync_summary(s: &Option<MdSync>) -> (r: Option<SyncSummary>)
    ensures
        r == sync_of(*s),
{
    match s {
        Some(s) => Some(
            SyncSummary { action: s.action.clone(), percent: s.percent, finish_min: s.finish_min },
        ),
        None => None,
    }
}

fn copy_opt(s: &Option<String>) -> (r: Option<String>)
    ensures
        r == *s,
{
    match s {
        Some(s) => Some(s.clone()),
        None => None,
    }
}

fn copy_strings(list: &Vec<String>) -> (r: Vec<String>)
    ensures
        r@ == list@,
{
    let mut r: Vec<String> = Vec::new();
    let mut i: usize = 0;
    while i < list.len()
        invariant
            i <= list.len(),
            r@ =~= list@.take(i as int),
        decreases list.len() - i,
    {
        r.push(list[i].clone());
        i = i + 1;
    }
    assert(list@.take(i as int) =~= list@);
    r
}

/// Whether `r` tells what `a` is.
pub open spec fn tells_array(r: ArrayStatus, a: MdArray) -> bool {
    &&& r.name == a.name
    &&& r.level == a.level
    &&& r.state == a.state
    &&& r.read_only == a.read_only
    &&& r.degraded == a.degraded
    &&& r.raid_disks == a.raid_disks
    &&& r.active_disks == a.active_disks
    &&& r.members@ == member_names(a.members@)
    &&& r.member_states@ == members_of(a.members@)
    &&& r.sync == sync_of(a.sync)
}

/// Tell of an array.
pub fn array_status(a: &MdArray) -> (r: ArrayStatus)
    ensures
        tells_array(r, *a),
{
    ArrayStatus {
        name: a.name.clone(),
        level: copy_opt(&a.level),
        state: a.state.clone(),
        read_only: a.read_only,
        degraded: a.degraded,
        raid_disks: a.raid_disks,
        active_disks: a.active_disks,
        members: names_of(&a.members),
        member_states: member_statuses(&a.members),
        sync: sync_summary(&a.sync),
    }
}

/// Whether an array is in a working state.
pub open spec fn is_active(a: MdArray) -> bool {
    a.state@ == "active"@ || a.state@ == "clean"@
}

/// Whether an array claims a level that its number of disks rules out.
pub open spec fn is_impossible(a: MdArray) -> bool {
    &&& a.level matches Some(level) && same_but_case(level@, "raid6"@)
    &&& (match a.raid_disks {
        Some(n) => n as nat,
        None => a.members@.len(),
    }) < 4
}

/// Whether an array is degraded, read-only, not active, or impossible.
pub open spec fn needs_attention(a: MdArray) -> bool {
    a.degraded || a.read_only || !is_active(a) || is_impossible(a)
}

fn array_is_active(a: &MdArray) -> (r: bool)
    ensures
        r == is_active(*a),
{
    text::same(a.state.as_str(), "active") || text::same(a.state.as_str(), "clean")
}

/// Whether an array is degraded, read-only, inactive or impossible.
pub fn array_needs_attention(a: &MdArray) -> (r: bool)
    ensures
        r == needs_attention(*a),
        a.degraded || a.read_only || (a.state@ != "active"@ && a.state@ != "clean"@) ==> r,
        a.level is None ==> (r <==> a.degraded || a.read_only || (a.state@ != "active"@ && a.state@
            != "clean"@)),
{
    let raid6 = match &a.level {
        Some(level) => eq_ignoring_case(level.as_str(), "raid6"),
        None => false,
    };
    let disks: usize = match a.raid_disks {
        Some(n) => n,
        None => a.members.len(),
    };
    a.degraded || a.read_only || !array_is_active(a) || (raid6 && disks < 4)
}

// ---------------------------------------------------------------------------
// Disks
// ---------------------------------------------------------------------------

/// Whether the array `a` has a member on the disk `disk`.
pub open spec fn uses_disk(a: MdArray, disk: Seq<char>) -> bool {
    exists|i: int| 0 <= i < a.members@.len() && belongs((#[trigger] a.members@[i]).name@, disk)
}

/// The names of the arrays that the disk `disk` backs.
pub open spec fn arrays_on(arrays: Seq<MdArray>, disk: Seq<char>) -> Seq<String> {
    arrays.filter(|a: MdArray| uses_disk(a, disk)).map_values(|a: MdArray| a.name)
}

/// Whether `r` tells what `d` is and which of `arrays` it backs.
pub open spec fn tells_disk(r: DiskStatus, d: DiskFacts, arrays: Seq<MdArray>) -> bool {
    &&& r.name == d.name
    &&& r.id == d.id
    &&& r.size == d.size
    &&& r.model == d.model
    &&& r.serial == d.serial
    &&& r.rotational == d.rotational
    &&& r.smart == smart_of(d.smart)
    &&& r.arrays@ == arrays_on(arrays, d.name@)
    &&& r.system_disk == (d.system_mounts@.len() > 0)
    &&& r.system_mounts@ == d.system_mounts@
}

fn uses(a: &MdArray, disk: &str) -> (r: bool)
    ensures
        r == uses_disk(*a, disk@),
{
    let mut i: usize = 0;
    while i < a.members.len()
        invariant
            i <= a.members.len(),
            forall|k: int| 0 <= k < i ==> !belongs((#[trigger] a.members@[k]).name@, disk@),
        decreases a.members.len() - i,
    {
        if member_belongs(a.members[i].name.as_str(), disk) {
            return true;
        }
        i = i + 1;
    }
    false
}

fn backed_arrays(arrays: &Vec<MdArray>, disk: &str) -> (r: Vec<String>)
    ensures
        r@ == arrays_on(arrays@, disk@),
{
    let mut r: Vec<String> = Vec::new();
    let mut i: usize = 0;
    proof {
        reveal(Seq::filter);
        assert(arrays@.take(0) =~= Seq::empty());
        assert(r@ =~= arrays_on(arrays@.take(0), disk@));
    }
    while i < arrays.len()
        invariant
            i <= arrays.len(),
            r@ == arrays_on(arrays@.take(i as int), disk@),
        decreases arrays.len() - i,
    {
        let ghost so_far = r@;
        let here = uses(&arrays[i], disk);
        if here {
            r.push(arrays[i].name.clone());
        }
        proof {
            reveal(Seq::filter);
            let more = arrays@.take(i + 1);
            assert(more.drop_last() =~= arrays@.take(i as int));
            assert(more.last() == arrays@[i as int]);
            if here {
                assert(arrays_on(more, disk@) =~= so_far.push(arrays@[i as int].name));
            }
        }
        i = i + 1;
    }
    assert(arrays@.take(i as int) =~= arrays@);
    r
}

fn disk_status(d: &DiskFacts, arrays: &Vec<MdArray>) -> (r: DiskStatus)
    ensures
        tells_disk(r, *d, arrays@),
{
    let system_mounts = copy_strings(&d.system_mounts);
    DiskStatus {
        name: d.name.clone(),
        id: copy_opt(&d.id),
        size: d.size,
        model: copy_opt(&d.model),
        serial: copy_opt(&d.serial),
        rotational: d.rotational,
        smart: smart_summary(&d.smart),
        arrays: backed_arrays(arrays, d.name.as_str()),
        system_disk: d.system_mounts.len() > 0,
        system_mounts,
    }
}

/// Every alias of the disks that hold a part of the operating system: the
/// kernel name and, where it is known, the stable name.
pub open spec fn aliases(disks: Seq<DiskFacts>) -> Seq<String>
    decreases disks.len(),
{
    if disks.len() == 0 {
        Seq::empty()
    } else {
        let before = aliases(disks.drop_last());
        let d = disks.last();
        if d.is_system {
            match d.id {
                Some(id) => before.push(d.name).push(id),
                None => before.push(d.name),
            }
        } else {
            before
        }
    }
}

/// Every alias (kernel name and, if known, by-id name) of every disk on the
/// host that currently holds a part of the operating system.
///
/// This scans the *whole* inventory, deliberately independent of whatever
/// disks a request targets: a request for only data disks is the normal case,
/// and a guard that compares exact strings needs every spelling of every disk
/// that must not be touched.
pub fn system_disk_aliases(disks: &Vec<DiskFacts>) -> (r: Vec<String>)
    ensures
        r@ == aliases(disks@),
{
    let mut r: Vec<String> = Vec::new();
    let mut i: usize = 0;
    assert(disks@.take(0) =~= Seq::empty());
    while i < disks.len()
        invariant
            i <= disks.len(),
            r@ == aliases(disks@.take(i as int)),
        decreases disks.len() - i,
    {
        let d = &disks[i];
        proof {
            assert(disks@.take(i + 1).drop_last() =~= disks@.take(i as int));
            assert(disks@.take(i + 1).last() == *d);
        }
        if d.is_system {
            r.push(d.name.clone());
            if let Some(id) = &d.id {
                r.push(id.clone());
            }
        }
        i = i + 1;
    }
    assert(disks@.take(i as int) =~= disks@);
    r
}

// ---------------------------------------------------------------------------
// Groups
// ---------------------------------------------------------------------------

/// The first live array named `name`.
pub open spec fn live_array(arrays: Seq<MdArray>, name: Seq<char>) -> Option<MdArray>
    decreases arrays.len(),
{
    if arrays.len() == 0 {
        None
    } else if arrays[0].name@ == name {
        Some(arrays[0])
    } else {
        live_array(arrays.subrange(1, arrays.len() as int), name)
    }
}

/// The members of the live array of a band; none where there is no such array.
pub open spec fn live_members(arrays: Seq<MdArray>, name: Seq<char>) -> Seq<MdMember> {
    match live_array(arrays, name) {
        Some(a) => a.members@,
        None => Seq::empty(),
    }
}

/// The limits in force for the array `name`; unknown where none are told.
pub open spec fn limits_of(limits: Seq<(String, SyncLimits)>, name: Seq<char>) -> SyncLimits
    decreases limits.len(),
{
    if limits.len() == 0 {
        SyncLimits { speed_kb: None, min_kb: None, max_kb: None }
    } else if limits[0].0@ == name {
        limits[0].1
    } else {
        limits_of(limits.subrange(1, limits.len() as int), name)
    }
}

/// The result of a recorded scrub.
pub open spec fn scrub_of(s: Option<StateScrubResult>) -> Option<ScrubSummary> {
    match s {
        Some(s) => Some(
            ScrubSummary {
                finished_at: s.finished_at,
                outcome: s.outcome,
                error_count: s.error_count,
            },
        ),
        None => None,
    }
}

/// Whether `name` tells the member whose recorded path is `path`: by kernel
/// name where that is known, else by the path. It tells one exactly when one
/// is recorded.
pub open spec fn tells_removal(
    name: Option<String>,
    path: Option<String>,
    devices: Seq<BlockDevice>,
) -> bool {
    match (name, path) {
        (Some(name), Some(path)) => name@ == removal_name(devices, path@),
        (None, None) => true,
        _ => false,
    }
}

/// Whether `r` tells what is recorded of the band `b` and what is observed of
/// its array.
pub open spec fn tells_band(r: GroupBandStatus, b: StateBand, inv: Inventory) -> bool {
    let limits = limits_of(inv.sync_limits@, b.md_name@);
    &&& r.index == b.index
    &&& r.level == b.level
    &&& r.md_name == b.md_name
    &&& r.md_uuid == b.md_uuid
    &&& r.usable_bytes == b.usable_bytes
    &&& r.resize_pending == b.resize_pending
    &&& r.members@ == member_names(live_members(inv.arrays@, b.md_name@))
    &&& r.member_states@ == members_of(live_members(inv.arrays@, b.md_name@))
    &&& r.sync == (match live_array(inv.arrays@, b.md_name@) {
        Some(a) => sync_of(a.sync),
        None => None,
    })
    &&& r.last_scrub == scrub_of(b.last_scrub)
    &&& r.scrub_in_progress == b.scrub_in_progress
    &&& tells_removal(r.pending_member_removal, b.pending_member_removal, inv.devices@)
    &&& r.sync_speed_kb == limits.speed_kb
    &&& r.sync_speed_min_kb == limits.min_kb
    &&& r.sync_speed_max_kb == limits.max_kb
    &&& r.sync_priority == b.sync_priority
    &&& r.sync_capability_kb == b.sync_capability_kb
    &&& r.sync_capability_observed_at == b.sync_capability_observed_at
    &&& r.last_throttle_decision == b.last_throttle_decision
    &&& r.last_throttle_reason == b.last_throttle_reason
    &&& r.last_throttle_speed_kb == b.last_throttle_speed_kb
}

fn find_live<'a>(arrays: &'a Vec<MdArray>, name: &str) -> (r: Option<&'a MdArray>)
    ensures
        match r {
            Some(a) => live_array(arrays@, name@) == Some(*a),
            None => live_array(arrays@, name@) is None,
        },
{
    let mut i: usize = 0;
    assert(arrays@.subrange(0, arrays@.len() as int) =~= arrays@);
    while i < arrays.len()
        invariant
            i <= arrays.len(),
            live_array(arrays@, name@) == live_array(
                arrays@.subrange(i as int, arrays@.len() as int),
                name@,
            ),
        decreases arrays.len() - i,
    {
        let ghost rest = arrays@.subrange(i as int, arrays@.len() as int);
        assert(rest.subrange(1, rest.len() as int) =~= arrays@.subrange(
            i + 1,
            arrays@.len() as int,
        ));
        if text::same(arrays[i].name.as_str(), name) {
            return Some(&arrays[i]);
        }
        i = i + 1;
    }
    None
}

fn find_limits(limits: &Vec<(String, SyncLimits)>, name: &str) -> (r: SyncLimits)
    ensures
        r == limits_of(limits@, name@),
{
    let mut i: usize = 0;
    assert(limits@.subrange(0, limits@.len() as int) =~= limits@);
    while i < limits.len()
        invariant
            i <= limits.len(),
            limits_of(limits@, name@) == limits_of(
                limits@.subrange(i as int, limits@.len() as int),
                name@,
            ),
        decreases limits.len() - i,
    {
        let ghost rest = limits@.subrange(i as int, limits@.len() as int);
        assert(rest.subrange(1, rest.len() as int) =~= limits@.subrange(
            i + 1,
            limits@.len() as int,
        ));
        if text::same(limits[i].0.as_str(), name) {
            return limits[i].1;
        }
        i = i + 1;
    }
    SyncLimits { speed_kb: None, min_kb: None, max_kb: None }
}

fn scrub_summary(s: &Option<StateScrubResult>) -> (r: Option<ScrubSummary>)
    ensures
        r == scrub_of(*s),
{
    match s {
        Some(s) => Some(
            ScrubSummary {
                finished_at: s.finished_at.clone(),
                outcome: s.outcome,
                error_count: s.error_count,
            },
        ),
        None => None,
    }
}

/// Project one recorded band, enriched with whatever live array shares its
/// name: members and sync progress come from there, the scrub history comes
/// from the record. `None`/empty when no live array with this name exists
/// right now; never guessed.
pub fn band_status(b: &StateBand, inv: &Inventory) -> (r: GroupBandStatus)
    ensures
        tells_band(r, *b, *inv),
{
    let live = find_live(&inv.arrays, b.md_name.as_str());
    let limits = find_limits(&inv.sync_limits, b.md_name.as_str());
    let (members, member_states, sync) = match live {
        Some(a) => (names_of(&a.members), member_statuses(&a.members), sync_summary(&a.sync)),
        None => (Vec::new(), Vec::new(), None),
    };
    assert(members@ =~= member_names(live_members(inv.arrays@, b.md_name@)));
    assert(member_states@ =~= members_of(live_members(inv.arrays@, b.md_name@)));
    let pending_member_removal = match &b.pending_member_removal {
        Some(raw) => Some(resolve_pending_removal(&inv.devices, raw)),
        None => None,
    };
    GroupBandStatus {
        index: b.index,
        level: b.level.clone(),
        md_name: b.md_name.clone(),
        md_uuid: copy_opt(&b.md_uuid),
        usable_bytes: b.usable_bytes,
        resize_pending: b.resize_pending,
        members,
        member_states,
        sync,
        last_scrub: scrub_summary(&b.last_scrub),
        sync_speed_kb: limits.speed_kb,
        sync_speed_min_kb: limits.min_kb,
        sync_speed_max_kb: limits.max_kb,
        sync_priority: copy_opt(&b.sync_priority),
        sync_capability_kb: b.sync_capability_kb,
        sync_capability_observed_at: copy_opt(&b.sync_capability_observed_at),
        last_throttle_decision: copy_opt(&b.last_throttle_decision),
        last_throttle_reason: copy_opt(&b.last_throttle_reason),
        last_throttle_speed_kb: b.last_throttle_speed_kb,
        scrub_in_progress: b.scrub_in_progress,
        pending_member_removal,
    }
}

/// The usable capacities of recorded bands.
pub open spec fn band_sizes(bands: Seq<StateBand>) -> Seq<nat> {
    bands.map_values(|b: StateBand| b.usable_bytes as nat)
}

/// The usable capacity of a recorded group.
pub open spec fn group_size(g: ArrayState) -> nat {
    table::total(band_sizes(g.bands@))
}

/// Whether a recorded group has a band whose resize is pending.
pub open spec fn any_pending(bands: Seq<StateBand>) -> bool {
    exists|i: int| 0 <= i < bands.len() && (#[trigger] bands[i]).resize_pending
}

/// The identifiers of recorded disks.
pub open spec fn disk_ids(disks: Seq<StateDisk>) -> Seq<String> {
    disks.map_values(|d: StateDisk| d.id)
}

fn copy_disk_ids(disks: &Vec<StateDisk>) -> (r: Vec<String>)
    ensures
        r@ == disk_ids(disks@),
{
    let mut r: Vec<String> = Vec::new();
    let mut i: usize = 0;
    while i < disks.len()
        invariant
            i <= disks.len(),
            r@ =~= disk_ids(disks@).take(i as int),
        decreases disks.len() - i,
    {
        r.push(disks[i].id.clone());
        i = i + 1;
    }
    assert(disk_ids(disks@).take(i as int) =~= disk_ids(disks@));
    r
}

/// Whether `r` tells what is recorded of the group `g` and what is observed of
/// its bands.
pub open spec fn tells_group(r: GroupStatus, g: ArrayState, inv: Inventory) -> bool {
    &&& r.name == g.name
    &&& r.mode == g.mode
    &&& r.layout_version == g.layout_version
    &&& r.mount_point == g.filesystem.mount_point
    &&& r.fs_uuid == g.filesystem.fs_uuid
    &&& r.vg_name == g.filesystem.vg_name
    &&& r.lv_name == g.filesystem.lv_name
    &&& r.compression == g.filesystem.compression
    &&& r.usable_bytes == group_size(g)
    &&& r.resize_pending == any_pending(g.bands@)
    &&& r.disks@ == disk_ids(g.disks@)
    &&& r.bands@.len() == g.bands@.len()
    &&& forall|i: int|
        0 <= i < g.bands@.len() ==> tells_band(#[trigger] r.bands@[i], g.bands@[i], inv)
}

/// Project one recorded group down to the fields that reports need.
pub fn group_status(g: &ArrayState, inv: &Inventory) -> (r: GroupStatus)
    requires
        group_size(*g) <= u64::MAX,
    ensures
        tells_group(r, *g, *inv),
{
    let ghost sizes = band_sizes(g.bands@);
    let mut bands: Vec<GroupBandStatus> = Vec::new();
    let mut usable_bytes: u64 = 0;
    let mut resize_pending = false;
    let mut i: usize = 0;
    assert(sizes.take(0) =~= Seq::empty());
    while i < g.bands.len()
        invariant
            i <= g.bands.len(),
            sizes == band_sizes(g.bands@),
            table::total(sizes) <= u64::MAX,
            bands@.len() == i,
            forall|k: int| 0 <= k < i ==> tells_band(#[trigger] bands@[k], g.bands@[k], *inv),
            usable_bytes == table::total(sizes.take(i as int)),
            resize_pending == exists|k: int|
                0 <= k < i && (#[trigger] g.bands@[k]).resize_pending,
        decreases g.bands.len() - i,
    {
        let b = &g.bands[i];
        proof {
            table::lemma_total_step(sizes, i as int);
            assert(g.bands@[i as int] == *b);
        }
        bands.push(band_status(b, inv));
        usable_bytes = usable_bytes + b.usable_bytes;
        resize_pending = resize_pending || b.resize_pending;
        i = i + 1;
    }
    assert(sizes.take(i as int) =~= sizes);
    GroupStatus {
        name: g.name.clone(),
        mode: g.mode.clone(),
        layout_version: g.layout_version,
        mount_point: g.filesystem.mount_point.clone(),
        fs_uuid: copy_opt(&g.filesystem.fs_uuid),
        vg_name: g.filesystem.vg_name.clone(),
        lv_name: g.filesystem.lv_name.clone(),
        compression: g.filesystem.compression.clone(),
        usable_bytes,
        resize_pending,
        disks: copy_disk_ids(&g.disks),
        bands,
    }
}

// ---------------------------------------------------------------------------
// Status
// ---------------------------------------------------------------------------

/// The recorded groups; none where nothing is recorded.
pub open spec fn recorded(state: Option<&StateFile>) -> Seq<ArrayState> {
    match state {
        Some(s) => s.groups@,
        None => Seq::empty(),
    }
}

/// Whether a band of the group has no live members.
pub open spec fn is_unassembled(g: ArrayState, arrays: Seq<MdArray>) -> bool {
    exists|i: int|
        0 <= i < g.bands@.len() && live_members(arrays, (#[trigger] g.bands@[i]).md_name@).len()
            == 0
}

/// Whether a recorded group has a band without a live array.
pub open spec fn any_unassembled(groups: Seq<ArrayState>, arrays: Seq<MdArray>) -> bool {
    exists|i: int| 0 <= i < groups.len() && is_unassembled(#[trigger] groups[i], arrays)
}

/// Whether an array needs attention.
pub open spec fn any_needs_attention(arrays: Seq<MdArray>) -> bool {
    exists|i: int| 0 <= i < arrays.len() && needs_attention(#[trigger] arrays[i])
}

/// Healthy only if every array is active, writable, structurally possible and
/// not degraded, and no recorded group is missing its live array; unknown if
/// there is neither an array nor a group that misses one.
pub open spec fn health_of(groups: Seq<ArrayState>, arrays: Seq<MdArray>) -> Health {
    if arrays.len() == 0 && !any_unassembled(groups, arrays) {
        Health::Unknown
    } else if any_unassembled(groups, arrays) || any_needs_attention(arrays) {
        Health::Degraded
    } else {
        Health::Healthy
    }
}

/// Whether `r` tells what is observed and recorded.
pub open spec fn tells_status(r: StatusReport, inv: Inventory, groups: Seq<ArrayState>) -> bool {
    &&& r.schema_version == SCHEMA_VERSION
    &&& r.health == health_of(groups, inv.arrays@)
    &&& r.disks@.len() == inv.disks@.len()
    &&& forall|i: int|
        0 <= i < inv.disks@.len() ==> tells_disk(
            #[trigger] r.disks@[i],
            inv.disks@[i],
            inv.arrays@,
        )
    &&& r.arrays@.len() == inv.arrays@.len()
    &&& forall|i: int|
        0 <= i < inv.arrays@.len() ==> tells_array(#[trigger] r.arrays@[i], inv.arrays@[i])
    &&& r.groups@.len() == groups.len()
    &&& forall|i: int|
        0 <= i < groups.len() ==> tells_group(#[trigger] r.groups@[i], groups[i], inv)
    &&& r.state_path is None
}

fn group_unassembled(g: &GroupStatus) -> (r: bool)
    ensures
        r == exists|i: int|
            0 <= i < g.bands@.len() && (#[trigger] g.bands@[i]).members@.len() == 0,
{
    let mut i: usize = 0;
    while i < g.bands.len()
        invariant
            i <= g.bands.len(),
            forall|k: int| 0 <= k < i ==> (#[trigger] g.bands@[k]).members@.len() != 0,
        decreases g.bands.len() - i,
    {
        if g.bands[i].members.len() == 0 {
            return true;
        }
        i = i + 1;
    }
    false
}

/// Build a status report from what was observed on the host, plus whatever
/// recorded state the caller has (or hasn't) loaded.
///
/// `None` is a real, valid case (a fresh host has no state at all) and
/// produces an EMPTY list of groups, never an error and never fabricated data.
/// The path of the state is for the caller to add.
pub fn build_status(inv: &Inventory, state: Option<&StateFile>) -> (r: StatusReport)
    requires
        forall|i: int|
            0 <= i < recorded(state).len() ==> group_size(#[trigger] recorded(state)[i])
                <= u64::MAX,
    ensures
        tells_status(r, *inv, recorded(state)),
{
    let mut disks: Vec<DiskStatus> = Vec::new();
    let mut i: usize = 0;
    while i < inv.disks.len()
        invariant
            i <= inv.disks.len(),
            disks@.len() == i,
            forall|k: int|
                0 <= k < i ==> tells_disk(#[trigger] disks@[k], inv.disks@[k], inv.arrays@),
        decreases inv.disks.len() - i,
    {
        disks.push(disk_status(&inv.disks[i], &inv.arrays));
        i = i + 1;
    }
    let mut arrays: Vec<ArrayStatus> = Vec::new();
    let mut attention = false;
    let mut j: usize = 0;
    while j < inv.arrays.len()
        invariant
            j <= inv.arrays.len(),
            arrays@.len() == j,
            forall|k: int| 0 <= k < j ==> tells_array(#[trigger] arrays@[k], inv.arrays@[k]),
            attention == exists|k: int|
                0 <= k < j && needs_attention(#[trigger] inv.arrays@[k]),
        decreases inv.arrays.len() - j,
    {
        let a = &inv.arrays[j];
        assert(inv.arrays@[j as int] == *a);
        arrays.push(array_status(a));
        attention = attention || array_needs_attention(a);
        j = j + 1;
    }
    let ghost all = recorded(state);
    let mut groups: Vec<GroupStatus> = Vec::new();
    let mut unassembled = false;
    if let Some(s) = state {
        let mut k: usize = 0;
        while k < s.groups.len()
            invariant
                k <= s.groups.len(),
                all == s.groups@,
                forall|n: int| 0 <= n < all.len() ==> group_size(#[trigger] all[n]) <= u64::MAX,
                groups@.len() == k,
                forall|n: int| 0 <= n < k ==> tells_group(#[trigger] groups@[n], all[n], *inv),
                unassembled == exists|n: int|
                    0 <= n < k && is_unassembled(#[trigger] all[n], inv.arrays@),
            decreases s.groups.len() - k,
        {
            let g = &s.groups[k];
            assert(all[k as int] == *g);
            assert(group_size(all[k as int]) <= u64::MAX);
            let status = group_status(g, inv);
            let here = group_unassembled(&status);
            proof {
                assert(here == is_unassembled(*g, inv.arrays@)) by {
                    if here {
                        let n = choose|n: int|
                            0 <= n < status.bands@.len() && (#[trigger] status.bands@[n]).members@.len()
                                == 0;
                        assert(tells_band(status.bands@[n], g.bands@[n], *inv));
                        assert(live_members(inv.arrays@, g.bands@[n].md_name@).len() == 0);
                    }
                    if is_unassembled(*g, inv.arrays@) {
                        let n = choose|n: int|
                            0 <= n < g.bands@.len() && live_members(
                                inv.arrays@,
                                (#[trigger] g.bands@[n]).md_name@,
                            ).len() == 0;
                        assert(tells_band(status.bands@[n], g.bands@[n], *inv));
                        assert(status.bands@[n].members@.len() == 0);
                    }
                }
            }
            groups.push(status);
            unassembled = unassembled || here;
            k = k + 1;
        }
    }
    assert(unassembled == any_unassembled(all, inv.arrays@));
    assert(attention == any_needs_attention(inv.arrays@));
    // A recorded group without a live array is "something needs attention",
    // which the flat list of live arrays alone would miss.
    let health = if inv.arrays.len() == 0 && !unassembled {
        Health::Unknown
    } else if unassembled || attention {
        Health::Degraded
    } else {
        Health::Healthy
    };
    StatusReport {
        schema_version: SCHEMA_VERSION,
        health,
        disks,
        arrays,
        groups,
        state_path: None,
    }
}

/// A report is never healthy while a recorded group lacks a live array or a
/// live array needs attention.
pub proof fn health_never_hides_a_missing_group(groups: Seq<ArrayState>, arrays: Seq<MdArray>)
    ensures
        health_of(groups, arrays) == Health::Healthy <==> arrays.len() > 0 && !any_unassembled(
            groups,
            arrays,
        ) && !any_needs_attention(arrays),
        any_unassembled(groups, arrays) ==> health_of(groups, arrays) == Health::Degraded,
{
}

/// A recorded removal is told in every report, whatever is observed.
pub proof fn pending_removal_never_disappears(r: GroupBandStatus, b: StateBand, inv: Inventory)
    requires
        tells_band(r, b, inv),
    ensures
        r.pending_member_removal is Some <==> b.pending_member_removal is Some,
{
}

// ---------------------------------------------------------------------------
// Filesystem capacity
// ---------------------------------------------------------------------------

/// What is known of how full a filesystem is: the figures of its chunks, where
/// they could be read, and what a plain `df` shows.
pub open spec fn usage_read(chunks: Option<ChunkUsage>, avail: Option<u64>) -> FsUsageInput {
    match chunks {
        Some(c) => FsUsageInput {
            data_used_bytes: c.data_used_bytes,
            data_total_bytes: c.data_total_bytes,
            metadata_used_bytes: c.metadata_used_bytes,
            metadata_total_bytes: c.metadata_total_bytes,
            unallocated_bytes: c.unallocated_bytes,
            statvfs_avail_bytes: avail,
        },
        None => FsUsageInput { statvfs_avail_bytes: avail, ..report::no_usage() },
    }
}

/// What is known of how full a filesystem is. What could not be read stays
/// unknown.
pub fn fs_usage_input(chunks: Option<ChunkUsage>, avail: Option<u64>) -> (r: FsUsageInput)
    ensures
        r == usage_read(chunks, avail),
        r.statvfs_avail_bytes == avail,
        chunks matches Some(c) ==> r.data_used_bytes == c.data_used_bytes && r.data_total_bytes
            == c.data_total_bytes && r.metadata_used_bytes == c.metadata_used_bytes
            && r.metadata_total_bytes == c.metadata_total_bytes && r.unallocated_bytes
            == c.unallocated_bytes,
        chunks is None ==> r.data_used_bytes is None && r.data_total_bytes is None
            && r.metadata_used_bytes is None && r.metadata_total_bytes is None
            && r.unallocated_bytes is None,
{
    match chunks {
        Some(c) => FsUsageInput {
            data_used_bytes: c.data_used_bytes,
            data_total_bytes: c.data_total_bytes,
            metadata_used_bytes: c.metadata_used_bytes,
            metadata_total_bytes: c.metadata_total_bytes,
            unallocated_bytes: c.unallocated_bytes,
            statvfs_avail_bytes: avail,
        },
        None => FsUsageInput {
            data_used_bytes: None,
            data_total_bytes: None,
            metadata_used_bytes: None,
            metadata_total_bytes: None,
            unallocated_bytes: None,
            statvfs_avail_bytes: avail,
        },
    }
}

/// How full the filesystem of every group is, by the group's name: `readings`
/// holds for each group what could be read of its filesystem.
pub fn fs_usage_map(
    groups: &[GroupStatus],
    readings: &[(Option<ChunkUsage>, Option<u64>)],
) -> (r: Vec<(String, FsUsageInput)>)
    requires
        readings@.len() == groups@.len(),
    ensures
        r@.len() == groups@.len(),
        forall|i: int|
            0 <= i < groups@.len() ==> (#[trigger] r@[i]).0@ == groups@[i].name@ && r@[i].1
                == usage_read(readings@[i].0, readings@[i].1),
{
    let mut r: Vec<(String, FsUsageInput)> = Vec::new();
    let mut i: usize = 0;
    while i < groups.len()
        invariant
            i <= groups.len(),
            readings@.len() == groups@.len(),
            r@.len() == i,
            forall|k: int|
                0 <= k < i ==> (#[trigger] r@[k]).0@ == groups@[k].name@ && r@[k].1 == usage_read(
                    readings@[k].0,
                    readings@[k].1,
                ),
        decreases groups.len() - i,
    {
        r.push((groups[i].name.clone(), fs_usage_input(readings[i].0, readings[i].1)));
        i = i + 1;
    }
    r
}

/// The figures for the group `name`, the last that are told; none where none
/// are.
pub open spec fn usage_of(usage: Seq<(String, FsUsageInput)>, name: Seq<char>) -> FsUsageInput
    decreases usage.len(),
{
    if usage.len() == 0 {
        report::no_usage()
    } else if usage.last().0@ == name {
        usage.last().1
    } else {
        usage_of(usage.drop_last(), name)
    }
}

/// Whether the entry at `k` is the last one that `usage` has under `name`.
pub open spec fn last_told(usage: Seq<(String, FsUsageInput)>, name: Seq<char>, k: int) -> bool {
    &&& 0 <= k < usage.len()
    &&& usage[k].0@ == name
    &&& forall|j: int| k < j < usage.len() ==> (#[trigger] usage[j]).0@ != name
}

/// A group's figures are those of the last entry under its name; where there
/// is no such entry, none is known.
pub proof fn figures_are_found_by_the_name_of_the_group(
    usage: Seq<(String, FsUsageInput)>,
    name: Seq<char>,
)
    ensures
        forall|k: int| #[trigger]
            last_told(usage, name, k) ==> usage_of(usage, name) == usage[k].1,
        (forall|k: int| 0 <= k < usage.len() ==> (#[trigger] usage[k]).0@ != name) ==> {
            let u = usage_of(usage, name);
            &&& u.data_used_bytes is None
            &&& u.data_total_bytes is None
            &&& u.metadata_used_bytes is None
            &&& u.metadata_total_bytes is None
            &&& u.unallocated_bytes is None
            &&& u.statvfs_avail_bytes is None
        },
    decreases usage.len(),
{
    if usage.len() > 0 {
        let head = usage.drop_last();
        figures_are_found_by_the_name_of_the_group(head, name);
        assert forall|k: int| #[trigger] last_told(usage, name, k) implies usage_of(usage, name)
            == usage[k].1 by {
            if k < head.len() {
                assert(usage[usage.len() - 1].0@ != name);
                assert forall|j: int| k < j < head.len() implies (#[trigger] head[j]).0@ != name by {
                    assert(usage[j].0@ != name);
                }
                assert(last_told(head, name, k));
            }
        }
        if forall|k: int| 0 <= k < usage.len() ==> (#[trigger] usage[k]).0@ != name {
            assert(usage[usage.len() - 1].0@ != name);
            assert forall|k: int| 0 <= k < head.len() implies (#[trigger] head[k]).0@ != name by {
                assert(usage[k].0@ != name);
            }
        }
    }
}

/// The row of a group has each figure in the column of its name: those of the
/// last entry under the group's name, unknown ones where there is no entry,
/// and the group's own mount point and capacity.
pub proof fn a_row_has_every_figure_in_its_column(
    g: GroupStatus,
    usage: Seq<(String, FsUsageInput)>,
)
    ensures
        df_of(g, usage).name@ == g.name@,
        df_of(g, usage).mount_point@ == g.mount_point@,
        df_of(g, usage).usable_bytes == g.usable_bytes,
        forall|k: int| #[trigger]
            last_told(usage, g.name@, k) ==> {
                let row = df_of(g, usage);
                let u = usage[k].1;
                &&& row.data_used_bytes == u.data_used_bytes
                &&& row.data_total_bytes == u.data_total_bytes
                &&& row.metadata_used_bytes == u.metadata_used_bytes
                &&& row.metadata_total_bytes == u.metadata_total_bytes
                &&& row.unallocated_bytes == u.unallocated_bytes
                &&& row.statvfs_avail_bytes == u.statvfs_avail_bytes
            },
        (forall|k: int| 0 <= k < usage.len() ==> (#[trigger] usage[k]).0@ != g.name@) ==> {
            let row = df_of(g, usage);
            &&& row.data_used_bytes is None
            &&& row.data_total_bytes is None
            &&& row.metadata_used_bytes is None
            &&& row.metadata_total_bytes is None
            &&& row.unallocated_bytes is None
            &&& row.statvfs_avail_bytes is None
        },
{
    figures_are_found_by_the_name_of_the_group(usage, g.name@);
}

/// The capacity row of a group.
pub open spec fn df_of(g: GroupStatus, usage: Seq<(String, FsUsageInput)>) -> GroupDfStatus {
    let u = usage_of(usage, g.name@);
    GroupDfStatus {
        name: g.name,
        mount_point: g.mount_point,
        usable_bytes: g.usable_bytes,
        data_used_bytes: u.data_used_bytes,
        data_total_bytes: u.data_total_bytes,
        metadata_used_bytes: u.metadata_used_bytes,
        metadata_total_bytes: u.metadata_total_bytes,
        unallocated_bytes: u.unallocated_bytes,
        statvfs_avail_bytes: u.statvfs_avail_bytes,
    }
}

fn find_usage(usage: &Vec<(String, FsUsageInput)>, name: &str) -> (r: FsUsageInput)
    ensures
        r == usage_of(usage@, name@),
{
    let mut i: usize = usage.len();
    assert(usage@.take(i as int) =~= usage@);
    while i > 0
        invariant
            i <= usage.len(),
            usage_of(usage@, name@) == usage_of(usage@.take(i as int), name@),
        decreases i,
    {
        assert(usage@.take(i as int).drop_last() =~= usage@.take(i - 1));
        i = i - 1;
        if text::same(usage[i].0.as_str(), name) {
            return usage[i].1;
        }
    }
    FsUsageInput::default()
}

/// Build a capacity report from already-known group capacity plus whatever
/// live usage figures the caller has for each group (by group name).
///
/// A group with no entry in `usage` reports every figure as unknown. Never
/// fabricated.
pub fn build_fs_df(groups: &[GroupStatus], usage: &Vec<(String, FsUsageInput)>) -> (r: FsDfReport)
    ensures
        r.schema_version == SCHEMA_VERSION,
        r.groups@ == groups@.map_values(|g: GroupStatus| df_of(g, usage@)),
        r.groups@.len() == groups@.len(),
        forall|i: int|
            0 <= i < groups@.len() ==> (#[trigger] r.groups@[i]).name@ == groups@[i].name@
                && r.groups@[i].mount_point@ == groups@[i].mount_point@ && r.groups@[i].usable_bytes
                == groups@[i].usable_bytes,
        forall|i: int, k: int|
            #![trigger last_told(usage@, groups@[i].name@, k)]
            0 <= i < groups@.len() && last_told(usage@, groups@[i].name@, k) ==> {
                let row = r.groups@[i];
                let u = usage@[k].1;
                &&& row.data_used_bytes == u.data_used_bytes
                &&& row.data_total_bytes == u.data_total_bytes
                &&& row.metadata_used_bytes == u.metadata_used_bytes
                &&& row.metadata_total_bytes == u.metadata_total_bytes
                &&& row.unallocated_bytes == u.unallocated_bytes
                &&& row.statvfs_avail_bytes == u.statvfs_avail_bytes
            },
{
    let ghost all = groups@.map_values(|g: GroupStatus| df_of(g, usage@));
    let mut rows: Vec<GroupDfStatus> = Vec::new();
    let mut i: usize = 0;
    while i < groups.len()
        invariant
            i <= groups.len(),
            all == groups@.map_values(|g: GroupStatus| df_of(g, usage@)),
            rows@ =~= all.take(i as int),
        decreases groups.len() - i,
    {
        let g = &groups[i];
        let u = find_usage(usage, g.name.as_str());
        rows.push(
            GroupDfStatus {
                name: g.name.clone(),
                mount_point: g.mount_point.clone(),
                usable_bytes: g.usable_bytes,
                data_used_bytes: u.data_used_bytes,
                data_total_bytes: u.data_total_bytes,
                metadata_used_bytes: u.metadata_used_bytes,
                metadata_total_bytes: u.metadata_total_bytes,
                unallocated_bytes: u.unallocated_bytes,
                statvfs_avail_bytes: u.statvfs_avail_bytes,
            },
        );
        assert(rows@.last() == all[i as int]);
        i = i + 1;
    }
    assert(all.take(i as int) =~= all);
    proof {
        assert forall|i: int, k: int|
            #![trigger last_told(usage@, groups@[i].name@, k)]
            0 <= i < groups@.len() && last_told(usage@, groups@[i].name@, k) implies rows@[i]
            == df_of(groups@[i], usage@) && usage_of(usage@, groups@[i].name@) == usage@[k].1 by {
            figures_are_found_by_the_name_of_the_group(usage@, groups@[i].name@);
        }
    }
    FsDfReport { schema_version: SCHEMA_VERSION, groups: rows }
}

// ---------------------------------------------------------------------------
// Plans
// ---------------------------------------------------------------------------

/// The sentence that describes a planner's warning.
pub open spec fn warning_text(w: WarningView) -> Seq<char> {
    match w {
        WarningView::TooFewForBand { offset, size, members, needed } => "slice at offset "@
            + text::dec(offset as nat) + " ("@ + text::dec(size as nat) + " B) has only "@
            + text::dec(members as nat) + " member(s), needs "@ + text::dec(needed as nat),
        WarningView::UnusableTail { disk, bytes } => disk + ": "@ + text::dec(bytes as nat)
            + " B stranded (no redundancy)"@,
    }
}

/// The sentence about a warning of the planner.
pub fn fmt_warning(w: &PlannerWarning) -> (out: String)
    ensures
        out@ == warning_text(w@),
{
    match w {
        PlannerWarning::TooFewForBand { offset, size, members, needed } => {
            let mut out = "slice at offset ".to_owned();
            text::append_decimal(&mut out, *offset);
            out.append(" (");
            text::append_decimal(&mut out, *size);
            out.append(" B) has only ");
            text::append_decimal(&mut out, *members as u64);
            out.append(" member(s), needs ");
            text::append_decimal(&mut out, *needed as u64);
            out
        },
        PlannerWarning::UnusableTail { disk, bytes } => {
            let mut out = disk.as_str().to_owned();
            out.append(": ");
            text::append_decimal(&mut out, *bytes);
            out.append(" B stranded (no redundancy)");
            out
        },
    }
}

/// Whether `r` tells what the band `b` is.
pub open spec fn tells_planned_band(r: BandReport, b: BandView) -> bool {
    &&& r.index == b.index
    &&& r.level@ == raid::level_word(b.level)
    &&& r.size == b.size
    &&& text::views(r.members@) == b.members
    &&& r.usable == b.usable()
    &&& r.raw == b.raw()
}

/// The entries of a table by name.
pub open spec fn named_entries<V>(list: Seq<(String, V)>) -> Seq<(Seq<char>, V)> {
    list.map_values(|e: (String, V)| (e.0@, e.1))
}

/// Whether a report tells the metrics of a plan.
pub open spec fn tells_metrics(r: MetricsReport, m: MetricsView) -> bool {
    &&& r.total_usable == m.total_usable
    &&& r.total_raw == m.total_raw
    &&& r.redundancy_overhead == m.redundancy_overhead
    &&& r.stranded_bytes == m.stranded_bytes
    &&& r.waste_ratio == m.waste_ratio
    &&& named_entries(r.utilization@) == m.utilization
}

/// Whether `r` tells what the plan `p` is.
pub open spec fn tells_plan(r: PlanReport, mode: RedundancyMode, p: PlanView) -> bool {
    &&& r.schema_version == SCHEMA_VERSION
    &&& r.mode@ == raid::mode_word(mode)
    &&& r.bands@.len() == p.bands.len()
    &&& forall|i: int|
        0 <= i < p.bands.len() ==> tells_planned_band(#[trigger] r.bands@[i], p.bands[i])
    &&& tells_metrics(r.metrics, p.metrics)
    &&& named_entries(r.unusable_per_disk@) == p.unusable
    &&& text::views(r.warnings@) == p.warnings.map_values(|w: WarningView| warning_text(w))
}

fn id_texts(ids: &[DiskId]) -> (r: Vec<String>)
    ensures
        text::views(r@) == disk::ids(ids@),
{
    let ghost all = disk::ids(ids@);
    let mut r: Vec<String> = Vec::new();
    let mut i: usize = 0;
    assert(text::views(r@) =~= all.take(0));
    while i < ids.len()
        invariant
            i <= ids.len(),
            all == disk::ids(ids@),
            text::views(r@) == all.take(i as int),
        decreases ids.len() - i,
    {
        text::add_line(&mut r, ids[i].as_str().to_owned());
        assert(all.take(i + 1) =~= all.take(i as int).push(all[i as int]));
        i = i + 1;
    }
    assert(all.take(i as int) =~= all);
    r
}

fn named<V: Copy>(list: &Vec<(DiskId, V)>) -> (r: Vec<(String, V)>)
    ensures
        named_entries(r@) == table::entries(list@),
{
    let ghost all = table::entries(list@);
    let mut r: Vec<(String, V)> = Vec::new();
    let mut i: usize = 0;
    assert(named_entries(r@) =~= all.take(0));
    while i < list.len()
        invariant
            i <= list.len(),
            all == table::entries(list@),
            named_entries(r@) == all.take(i as int),
        decreases list.len() - i,
    {
        let ghost so_far = r@;
        r.push((list[i].0.as_str().to_owned(), list[i].1));
        assert(named_entries(r@) =~= named_entries(so_far).push(all[i as int]));
        assert(all.take(i + 1) =~= all.take(i as int).push(all[i as int]));
        i = i + 1;
    }
    assert(all.take(i as int) =~= all);
    r
}

fn band_report(b: &RedundantBand) -> (r: BandReport)
    requires
        b@.raw() <= u64::MAX,
    ensures
        tells_planned_band(r, b@),
{
    let raw: u64 = b.raw_bytes();
    BandReport {
        index: b.band_index(),
        level: b.level().word().to_owned(),
        size: b.size(),
        members: id_texts(b.members()),
        usable: b.usable_bytes(),
        raw,
    }
}

fn metrics_report(m: &DistributionMetrics) -> (r: MetricsReport)
    ensures
        tells_metrics(r, m@),
{
    MetricsReport {
        total_usable: m.total_usable,
        total_raw: m.total_raw,
        redundancy_overhead: m.redundancy_overhead,
        stranded_bytes: m.stranded_bytes,
        waste_ratio: m.waste_ratio,
        utilization: named(&m.utilization),
    }
}

/// Tell a planned layout in the words of a report.
pub fn plan_to_report(mode: RedundancyMode, out: &PlannerOutput) -> (r: PlanReport)
    requires
        forall|i: int|
            0 <= i < out@.bands.len() ==> (#[trigger] out@.bands[i]).raw() <= u64::MAX,
    ensures
        tells_plan(r, mode, out@),
{
    let ghost views = out@.bands;
    let mut bands: Vec<BandReport> = Vec::new();
    let mut i: usize = 0;
    while i < out.bands.len()
        invariant
            i <= out.bands.len(),
            views == out@.bands,
            views.len() == out.bands@.len(),
            forall|k: int| 0 <= k < views.len() ==> (#[trigger] views[k]).raw() <= u64::MAX,
            bands@.len() == i,
            forall|k: int| 0 <= k < i ==> tells_planned_band(#[trigger] bands@[k], views[k]),
        decreases out.bands.len() - i,
    {
        assert(views[i as int] == out.bands@[i as int]@);
        bands.push(band_report(&out.bands[i]));
        i = i + 1;
    }
    let ghost texts = out@.warnings.map_values(|w: WarningView| warning_text(w));
    let mut warnings: Vec<String> = Vec::new();
    let mut j: usize = 0;
    assert(text::views(warnings@) =~= texts.take(0));
    while j < out.warnings.len()
        invariant
            j <= out.warnings.len(),
            texts.len() == out.warnings@.len(),
            forall|k: int|
                0 <= k < out.warnings@.len() ==> texts[k] == warning_text(
                    (#[trigger] out.warnings@[k])@,
                ),
            text::views(warnings@) == texts.take(j as int),
        decreases out.warnings.len() - j,
    {
        text::add_line(&mut warnings, fmt_warning(&out.warnings[j]));
        assert(texts[j as int] == warning_text(out.warnings@[j as int]@));
        assert(texts.take(j + 1) =~= texts.take(j as int).push(texts[j as int]));
        j = j + 1;
    }
    assert(texts.take(j as int) =~= texts);
    PlanReport {
        schema_version: SCHEMA_VERSION,
        mode: mode.word().to_owned(),
        bands,
        metrics: metrics_report(&out.metrics),
        unusable_per_disk: named(&out.unusable_per_disk),
        warnings,
    }
}

/// The question that a dry run asks: the given disks on the default grid.
pub open spec fn default_input(mode: RedundancyMode, drives: Seq<(Seq<char>, u64)>) -> InputView {
    InputView {
        drives,
        mode,
        band_alignment: planner::DEFAULT_BAND_ALIGNMENT,
        reserved_head: planner::DEFAULT_RESERVED_HEAD,
        reserved_tail: planner::DEFAULT_RESERVED_TAIL,
    }
}

/// Dry-run: plan the initial layout for `disks` in `mode` and report it. Never
/// touches any device.
pub fn build_plan_report(mode: RedundancyMode, disks: Vec<Disk>) -> (r: Result<
    PlanReport,
    ShrError,
>)
    requires
        planner::plan(default_input(mode, disk::drives(disks@))) is Ok ==> metrics::raw_total(
            disk::drives(disks@),
        ) <= u64::MAX,
    ensures
        match (r, planner::plan(default_input(mode, disk::drives(disks@)))) {
            (Ok(report), Ok(p)) => tells_plan(report, mode, p),
            (Err(ShrError::Plan(e)), Err(f)) => e@ == f,
            _ => false,
        },
{
    let input = PlannerInput::new(disks, mode);
    assert(input@ =~= default_input(mode, disk::drives(disks@)));
    match plan_initial(&input) {
        Ok(out) => {
            proof {
                crate::slices::lemma_layout_is_countable(input@);
            }
            Ok(plan_to_report(mode, &out))
        },
        Err(e) => Err(ShrError::Plan(e)),
    }
}

} // verus!
