//! What a status report says of the host: every figure, flag and name in it
//! is one that was observed or recorded, and the verdict on the whole follows
//! from the arrays and groups themselves.

use vstd::prelude::*;
use crate::inventory::{
    ArrayState, BlockDevice, DiskFacts, Inventory, MdArray, MdMember, StateBand, SyncLimits,
};
use crate::ops;
use crate::report::{Health, SmartState, StatusReport};
use crate::table;
use crate::text;

verus! {

// ---------------------------------------------------------------------------
// The verdict
// ---------------------------------------------------------------------------

/// Whether two characters are the same letter, in whatever case, or the same
/// character.
pub open spec fn same_letter(a: char, b: char) -> bool {
    ||| a == b
    ||| 'A' <= a <= 'Z' && b as int == a as int + 32
    ||| 'A' <= b <= 'Z' && a as int == b as int + 32
}

/// Texts are the same but for case exactly when they are equally long and have
/// the same letter at each place.
pub proof fn case_is_all_that_is_ignored(a: Seq<char>, b: Seq<char>)
    ensures
        ops::same_but_case(a, b) <==> a.len() == b.len() && forall|i: int|
            0 <= i < a.len() ==> same_letter(#[trigger] a[i], b[i]),
{
    if ops::same_but_case(a, b) {
        assert forall|i: int| 0 <= i < a.len() implies same_letter(#[trigger] a[i], b[i]) by {
            assert(ops::ascii_small(a[i]) == ops::ascii_small(b[i]));
        }
    }
    if a.len() == b.len() && forall|i: int| 0 <= i < a.len() ==> same_letter(#[trigger] a[i], b[i]) {
        assert forall|i: int| 0 <= i < a.len() implies #[trigger] ops::ascii_small(a[i])
            == ops::ascii_small(b[i]) by {
            assert(same_letter(a[i], b[i]));
        }
    }
}

/// Whether nothing is wrong with a live array: it has all its disks, can be
/// written, is at work, and has no fewer than four disks where it claims to
/// survive the loss of two.
pub open spec fn in_order(a: MdArray) -> bool {
    &&& !a.degraded
    &&& !a.read_only
    &&& a.state@ == "active"@ || a.state@ == "clean"@
    &&& !(a.level matches Some(level) && level@.len() == 5 && (forall|i: int|
        0 <= i < 5 ==> same_letter(level@[i], #[trigger] "raid6"@[i])) && (match a.raid_disks {
        Some(n) => n < 4,
        None => a.members@.len() < 4,
    }))
}

/// Whether `a` is the first of `arrays` with the name `name`.
pub open spec fn first_named(arrays: Seq<MdArray>, name: Seq<char>, k: int) -> bool {
    &&& 0 <= k < arrays.len()
    &&& arrays[k].name@ == name
    &&& forall|j: int| 0 <= j < k ==> (#[trigger] arrays[j]).name@ != name
}

/// The array of a recorded band is the first live one of its name; there is
/// none exactly when no live array has the name.
pub proof fn a_band_is_found_by_the_name_of_its_array(arrays: Seq<MdArray>, name: Seq<char>)
    ensures
        forall|k: int| #[trigger]
            first_named(arrays, name, k) ==> ops::live_array(arrays, name) == Some(arrays[k]),
        ops::live_array(arrays, name) is None <==> forall|k: int|
            0 <= k < arrays.len() ==> (#[trigger] arrays[k]).name@ != name,
        ops::live_array(arrays, name) is Some ==> exists|k: int| first_named(arrays, name, k),
    decreases arrays.len(),
{
    if arrays.len() > 0 {
        let rest = arrays.subrange(1, arrays.len() as int);
        a_band_is_found_by_the_name_of_its_array(rest, name);
        if arrays[0].name@ == name {
            assert(first_named(arrays, name, 0));
            assert forall|k: int| #[trigger] first_named(arrays, name, k) implies ops::live_array(
                arrays,
                name,
            ) == Some(arrays[k]) by {
                if k > 0 {
                    assert(arrays[0].name@ != name);
                }
            }
        } else {
            assert forall|k: int| #[trigger] first_named(arrays, name, k) implies ops::live_array(
                arrays,
                name,
            ) == Some(arrays[k]) by {
                assert(first_named(rest, name, k - 1)) by {
                    assert forall|j: int| 0 <= j < k - 1 implies (#[trigger] rest[j]).name@
                        != name by {
                        assert(arrays[j + 1].name@ != name);
                    }
                }
            }
            if ops::live_array(rest, name) is Some {
                let k = choose|k: int| first_named(rest, name, k);
                assert(first_named(arrays, name, k + 1)) by {
                    assert forall|j: int| 0 <= j < k + 1 implies (#[trigger] arrays[j]).name@
                        != name by {
                        if j > 0 {
                            assert(rest[j - 1].name@ != name);
                        }
                    }
                }
            } else {
                assert forall|k: int| 0 <= k < arrays.len() implies (#[trigger] arrays[k]).name@
                    != name by {
                    if k > 0 {
                        assert(rest[k - 1].name@ != name);
                    }
                }
            }
        }
    }
}

/// Whether a recorded band has a live array with members: the first of its
/// name.
pub open spec fn assembled(arrays: Seq<MdArray>, b: StateBand) -> bool {
    exists|k: int|
        first_named(arrays, b.md_name@, k) && (#[trigger] arrays[k]).members@.len() > 0
}

proof fn lemma_assembled(arrays: Seq<MdArray>, b: StateBand)
    ensures
        assembled(arrays, b) <==> ops::live_members(arrays, b.md_name@).len() > 0,
{
    a_band_is_found_by_the_name_of_its_array(arrays, b.md_name@);
    if ops::live_members(arrays, b.md_name@).len() > 0 {
        let k = choose|k: int| first_named(arrays, b.md_name@, k);
        assert(arrays[k].members@.len() > 0);
    }
}

/// A report calls the host healthy exactly when there is an array, every array
/// is in order and every recorded band is assembled; it calls it degraded as
/// soon as one array is not in order or one recorded band is not assembled;
/// and it has no verdict only where nothing is live and nothing is recorded
/// that should be.
pub proof fn the_verdict_follows_from_every_array_and_band(
    r: StatusReport,
    inv: Inventory,
    groups: Seq<ArrayState>,
)
    requires
        ops::tells_status(r, inv, groups),
    ensures
        ({
            let arrays = inv.arrays@;
            let fine = forall|i: int| 0 <= i < arrays.len() ==> in_order(#[trigger] arrays[i]);
            let whole = forall|g: int, b: int|
                0 <= g < groups.len() && 0 <= b < groups[g].bands@.len() ==> assembled(
                    arrays,
                    #[trigger] groups[g].bands@[b],
                );
            &&& r.health == Health::Healthy <==> arrays.len() > 0 && fine && whole
            &&& r.health == Health::Degraded <==> !fine || !whole
            &&& r.health == Health::Unknown <==> arrays.len() == 0 && whole
        }),
{
    let arrays = inv.arrays@;
    reveal_strlit("raid6");
    assert forall|i: int| 0 <= i < arrays.len() implies (in_order(#[trigger] arrays[i])
        <==> !ops::needs_attention(arrays[i])) by {
        let a = arrays[i];
        match a.level {
            Some(level) => {
                case_is_all_that_is_ignored(level@, "raid6"@);
                assert("raid6"@.len() == 5);
                if level@.len() == 5 && (forall|k: int|
                    0 <= k < 5 ==> same_letter(level@[k], #[trigger] "raid6"@[k])) {
                    assert forall|k: int| 0 <= k < 5 implies same_letter(
                        #[trigger] level@[k],
                        "raid6"@[k],
                    ) by {
                        assert(same_letter(level@[k], "raid6"@[k]));
                    }
                }
                if ops::same_but_case(level@, "raid6"@) {
                    assert forall|k: int| 0 <= k < 5 implies same_letter(
                        level@[k],
                        #[trigger] "raid6"@[k],
                    ) by {
                        assert(same_letter(level@[k], "raid6"@[k]));
                    }
                }
            },
            None => {},
        }
    }
    let fine = forall|i: int| 0 <= i < arrays.len() ==> in_order(#[trigger] arrays[i]);
    assert(fine <==> !ops::any_needs_attention(arrays)) by {
        if !fine {
            let i = choose|i: int| 0 <= i < arrays.len() && !in_order(#[trigger] arrays[i]);
            assert(ops::needs_attention(arrays[i]));
        }
        if ops::any_needs_attention(arrays) {
            let i = choose|i: int| 0 <= i < arrays.len() && ops::needs_attention(#[trigger] arrays[i]);
            assert(!in_order(arrays[i]));
        }
    }
    let whole = forall|g: int, b: int|
        0 <= g < groups.len() && 0 <= b < groups[g].bands@.len() ==> assembled(
            arrays,
            #[trigger] groups[g].bands@[b],
        );
    assert(whole <==> !ops::any_unassembled(groups, arrays)) by {
        if !whole {
            let (g, b) = choose|g: int, b: int|
                0 <= g < groups.len() && 0 <= b < groups[g].bands@.len() && !assembled(
                    arrays,
                    #[trigger] groups[g].bands@[b],
                );
            lemma_assembled(arrays, groups[g].bands@[b]);
            assert(ops::is_unassembled(groups[g], arrays));
        }
        if ops::any_unassembled(groups, arrays) {
            let g = choose|g: int| 0 <= g < groups.len() && ops::is_unassembled(#[trigger] groups[g], arrays);
            let b = choose|b: int|
                0 <= b < groups[g].bands@.len() && ops::live_members(
                    arrays,
                    (#[trigger] groups[g].bands@[b]).md_name@,
                ).len() == 0;
            lemma_assembled(arrays, groups[g].bands@[b]);
            assert(!assembled(arrays, groups[g].bands@[b]));
        }
    }
}

/// An array that has lost a disk, cannot be written or is not at work makes
/// the report degraded, whatever else was observed.
pub proof fn a_troubled_array_is_never_reported_healthy(
    r: StatusReport,
    inv: Inventory,
    groups: Seq<ArrayState>,
    i: int,
)
    requires
        ops::tells_status(r, inv, groups),
        0 <= i < inv.arrays@.len(),
        inv.arrays@[i].degraded || inv.arrays@[i].read_only || (inv.arrays@[i].state@ != "active"@
            && inv.arrays@[i].state@ != "clean"@),
    ensures
        r.health == Health::Degraded,
{
    the_verdict_follows_from_every_array_and_band(r, inv, groups);
    assert(!in_order(inv.arrays@[i]));
}

// ---------------------------------------------------------------------------
// What is told of each disk, array and group
// ---------------------------------------------------------------------------

/// What is told of a disk is what was read off it, figure by figure; it counts
/// as one of the system's where something of the system is mounted from it.
pub proof fn a_disk_is_told_as_it_was_found(
    r: StatusReport,
    inv: Inventory,
    groups: Seq<ArrayState>,
    i: int,
)
    requires
        ops::tells_status(r, inv, groups),
        0 <= i < inv.disks@.len(),
    ensures
        r.disks@.len() == inv.disks@.len(),
        ({
            let t = r.disks@[i];
            let d = inv.disks@[i];
            &&& t.name@ == d.name@
            &&& t.id == d.id
            &&& t.size == d.size
            &&& t.model == d.model
            &&& t.serial == d.serial
            &&& t.rotational == d.rotational
            &&& t.system_disk <==> d.system_mounts@.len() > 0
            &&& t.system_mounts@ == d.system_mounts@
            &&& t.smart.state == SmartState::Warning <==> d.smart.has_warning
            &&& t.smart.state == SmartState::Unknown <==> !d.smart.has_warning && d.smart.is_unknown
            &&& t.smart.state == SmartState::Good <==> !d.smart.has_warning && !d.smart.is_unknown
            &&& t.smart.temperature_c == d.smart.temperature_c
            &&& t.smart.power_on_hours == d.smart.power_on_hours
            &&& t.smart.pending_sectors == d.smart.pending_sectors
            &&& t.smart.reallocated_sectors == d.smart.reallocated_sectors
            &&& t.smart.uncorrectable_sectors == d.smart.uncorrectable_sectors
            &&& t.smart.nvme_critical_warning == d.smart.nvme_critical_warning
        }),
{
    assert(ops::tells_disk(r.disks@[i], inv.disks@[i], inv.arrays@));
}

/// Whether `s` is a number: one digit or more, and nothing else.
pub open spec fn numeral(s: Seq<char>) -> bool {
    s.len() > 0 && forall|i: int| 0 <= i < s.len() ==> '0' <= #[trigger] s[i] <= '9'
}

/// Whether the device `member` is the disk `disk` itself, or its name is that
/// of the disk and a partition number, set off by a `p` where the disk's name
/// ends in a digit.
pub open spec fn is_part_of(member: Seq<char>, disk: Seq<char>) -> bool {
    &&& disk.len() > 0
    &&& member == disk || exists|n: Seq<char>|
        #[trigger] numeral(n) && member == disk + (if '0' <= disk.last() <= '9' {
            seq!['p'] + n
        } else {
            n
        })
}

/// A device belongs to a disk exactly when it is the disk or one of its
/// numbered partitions.
pub proof fn only_its_own_partitions_belong_to_a_disk(member: Seq<char>, disk: Seq<char>)
    ensures
        ops::belongs(member, disk) <==> is_part_of(member, disk),
{
    if ops::belongs(member, disk) && member != disk {
        let rest = member.subrange(disk.len() as int, member.len() as int);
        assert(member =~= disk + rest);
        if '0' <= disk.last() <= '9' {
            let n = rest.subrange(1, rest.len() as int);
            assert(rest =~= seq!['p'] + n);
            assert(ops::all_digits(n));
            assert forall|i: int| 0 <= i < n.len() implies '0' <= #[trigger] n[i] <= '9' by {
                assert(ops::is_digit(n[i]));
            }
            assert(numeral(n));
        } else {
            assert forall|i: int| 0 <= i < rest.len() implies '0' <= #[trigger] rest[i] <= '9' by {
                assert(ops::is_digit(rest[i]));
            }
            assert(numeral(rest));
        }
    }
    if is_part_of(member, disk) && member != disk {
        let n = choose|n: Seq<char>|
            #[trigger] numeral(n) && member == disk + (if '0' <= disk.last() <= '9' {
                seq!['p'] + n
            } else {
                n
            });
        let rest = member.subrange(disk.len() as int, member.len() as int);
        assert(member.subrange(0, disk.len() as int) =~= disk);
        if '0' <= disk.last() <= '9' {
            assert(rest =~= seq!['p'] + n);
            assert(rest.subrange(1, rest.len() as int) =~= n);
        } else {
            assert(rest =~= n);
        }
        assert(ops::all_digits(n));
    }
}

/// A disk is told to back an array exactly when a member of the array is the
/// disk or one of its partitions.
pub proof fn a_disk_backs_the_arrays_that_have_a_part_of_it(
    r: StatusReport,
    inv: Inventory,
    groups: Seq<ArrayState>,
    i: int,
    name: String,
)
    requires
        ops::tells_status(r, inv, groups),
        0 <= i < inv.disks@.len(),
    ensures
        r.disks@[i].arrays@.contains(name) <==> exists|a: int, m: int|
            0 <= a < inv.arrays@.len() && 0 <= m < inv.arrays@[a].members@.len()
                && inv.arrays@[a].name == name && is_part_of(
                (#[trigger] inv.arrays@[a].members@[m]).name@,
                inv.disks@[i].name@,
            ),
{
    let d = inv.disks@[i].name@;
    let all = inv.arrays@;
    assert(ops::tells_disk(r.disks@[i], inv.disks@[i], all));
    let used = |a: MdArray| ops::uses_disk(a, d);
    let some = all.filter(used);
    let names = some.map_values(|a: MdArray| a.name);
    assert(r.disks@[i].arrays@ == names);
    if names.contains(name) {
        let k = choose|k: int| 0 <= k < names.len() && names[k] == name;
        all.lemma_filter_pred(used, k);
        assert(some.contains(some[k]));
        all.lemma_filter_contains_rev(used, some[k]);
        let a = choose|a: int| 0 <= a < all.len() && all[a] == some[k];
        let m = choose|m: int|
            0 <= m < all[a].members@.len() && ops::belongs((#[trigger] all[a].members@[m]).name@, d);
        only_its_own_partitions_belong_to_a_disk(all[a].members@[m].name@, d);
    }
    if exists|a: int, m: int|
        0 <= a < all.len() && 0 <= m < all[a].members@.len() && all[a].name == name && is_part_of(
            (#[trigger] all[a].members@[m]).name@,
            d,
        ) {
        let (a, m) = choose|a: int, m: int|
            0 <= a < all.len() && 0 <= m < all[a].members@.len() && all[a].name == name
                && is_part_of((#[trigger] all[a].members@[m]).name@, d);
        only_its_own_partitions_belong_to_a_disk(all[a].members@[m].name@, d);
        assert(used(all[a]));
        all.lemma_filter_contains(used, a);
        let k = choose|k: int| 0 <= k < some.len() && some[k] == all[a];
        assert(names[k] == name);
    }
}

/// Whether `t` and `m` are the same list of members: name, place and marks.
pub open spec fn same_members(
    names: Seq<String>,
    t: Seq<crate::report::MemberStatus>,
    m: Seq<MdMember>,
) -> bool {
    &&& names.len() == m.len()
    &&& t.len() == m.len()
    &&& forall|k: int|
        #![trigger m[k]]
        0 <= k < m.len() ==> {
            &&& names[k] == m[k].name
            &&& t[k].name == m[k].name
            &&& t[k].role == m[k].role
            &&& t[k].faulty == m[k].faulty
            &&& t[k].spare == m[k].spare
            &&& t[k].write_mostly == m[k].write_mostly
            &&& t[k].replacement == m[k].replacement
        }
}

proof fn lemma_same_members(m: Seq<MdMember>)
    ensures
        same_members(ops::member_names(m), ops::members_of(m), m),
{
}

/// What is told of an array is what was observed of it, with every member in
/// its place and with its marks, and the progress of its sync.
pub proof fn an_array_is_told_as_it_was_found(
    r: StatusReport,
    inv: Inventory,
    groups: Seq<ArrayState>,
    i: int,
)
    requires
        ops::tells_status(r, inv, groups),
        0 <= i < inv.arrays@.len(),
    ensures
        r.arrays@.len() == inv.arrays@.len(),
        ({
            let t = r.arrays@[i];
            let a = inv.arrays@[i];
            &&& t.name@ == a.name@
            &&& t.level == a.level
            &&& t.state@ == a.state@
            &&& t.read_only == a.read_only
            &&& t.degraded == a.degraded
            &&& t.raid_disks == a.raid_disks
            &&& t.active_disks == a.active_disks
            &&& same_members(t.members@, t.member_states@, a.members@)
            &&& t.sync is Some <==> a.sync is Some
            &&& a.sync is Some ==> t.sync->0.action == a.sync->0.action && t.sync->0.percent
                == a.sync->0.percent && t.sync->0.finish_min == a.sync->0.finish_min
        }),
{
    assert(ops::tells_array(r.arrays@[i], inv.arrays@[i]));
    lemma_same_members(inv.arrays@[i].members@);
}

/// The limits of an array are those of the first entry under its name; where
/// there is none they are unknown.
pub proof fn limits_are_found_by_the_name_of_the_array(
    limits: Seq<(String, SyncLimits)>,
    name: Seq<char>,
    k: int,
)
    ensures
        0 <= k < limits.len() && limits[k].0@ == name && (forall|j: int|
            0 <= j < k ==> (#[trigger] limits[j]).0@ != name) ==> ops::limits_of(limits, name)
            == limits[k].1,
        (forall|j: int| 0 <= j < limits.len() ==> (#[trigger] limits[j]).0@ != name) ==> {
            let l = ops::limits_of(limits, name);
            l.speed_kb is None && l.min_kb is None && l.max_kb is None
        },
    decreases limits.len(),
{
    if limits.len() > 0 {
        let rest = limits.subrange(1, limits.len() as int);
        limits_are_found_by_the_name_of_the_array(rest, name, k - 1);
        if limits[0].0@ != name {
            if 0 <= k < limits.len() && limits[k].0@ == name && (forall|j: int|
                0 <= j < k ==> (#[trigger] limits[j]).0@ != name) {
                assert(rest[k - 1] == limits[k]);
                assert forall|j: int| 0 <= j < k - 1 implies (#[trigger] rest[j]).0@ != name by {
                    assert(limits[j + 1].0@ != name);
                }
            }
            if forall|j: int| 0 <= j < limits.len() ==> (#[trigger] limits[j]).0@ != name {
                assert forall|j: int| 0 <= j < rest.len() implies (#[trigger] rest[j]).0@
                    != name by {
                    assert(limits[j + 1].0@ != name);
                }
            }
        } else if k > 0 {
            assert(limits[0].0@ == name);
        }
    }
}

/// What is told of a band of a group is what is recorded of it, and of its
/// array what is observed of the first live one of its name; nothing where no
/// live array has the name.
pub proof fn a_band_is_told_as_recorded_and_observed(
    r: StatusReport,
    inv: Inventory,
    groups: Seq<ArrayState>,
    g: int,
    i: int,
)
    requires
        ops::tells_status(r, inv, groups),
        0 <= g < groups.len(),
        0 <= i < groups[g].bands@.len(),
    ensures
        r.groups@.len() == groups.len(),
        r.groups@[g].bands@.len() == groups[g].bands@.len(),
        ({
            let t = r.groups@[g].bands@[i];
            let b = groups[g].bands@[i];
            let limits = ops::limits_of(inv.sync_limits@, b.md_name@);
            &&& t.index == b.index
            &&& t.level@ == b.level@
            &&& t.md_name@ == b.md_name@
            &&& t.md_uuid == b.md_uuid
            &&& t.usable_bytes == b.usable_bytes
            &&& t.resize_pending == b.resize_pending
            &&& t.scrub_in_progress == b.scrub_in_progress
            &&& t.last_scrub is Some <==> b.last_scrub is Some
            &&& b.last_scrub is Some ==> t.last_scrub->0.finished_at == b.last_scrub->0.finished_at
                && t.last_scrub->0.outcome == b.last_scrub->0.outcome && t.last_scrub->0.error_count
                == b.last_scrub->0.error_count
            &&& t.pending_member_removal is Some <==> b.pending_member_removal is Some
            &&& t.sync_speed_kb == limits.speed_kb
            &&& t.sync_speed_min_kb == limits.min_kb
            &&& t.sync_speed_max_kb == limits.max_kb
            &&& t.sync_priority == b.sync_priority
            &&& t.sync_capability_kb == b.sync_capability_kb
            &&& t.sync_capability_observed_at == b.sync_capability_observed_at
            &&& t.last_throttle_decision == b.last_throttle_decision
            &&& t.last_throttle_reason == b.last_throttle_reason
            &&& t.last_throttle_speed_kb == b.last_throttle_speed_kb
            &&& forall|k: int| #[trigger]
                first_named(inv.arrays@, b.md_name@, k) ==> {
                    let a = inv.arrays@[k];
                    &&& same_members(t.members@, t.member_states@, a.members@)
                    &&& t.sync is Some <==> a.sync is Some
                    &&& a.sync is Some ==> t.sync->0.action == a.sync->0.action && t.sync->0.percent
                        == a.sync->0.percent && t.sync->0.finish_min == a.sync->0.finish_min
                }
            &&& (forall|k: int| 0 <= k < inv.arrays@.len() ==> (#[trigger] inv.arrays@[k]).name@
                != b.md_name@) ==> t.members@.len() == 0 && t.member_states@.len() == 0
                && t.sync is None
        }),
{
    let b = groups[g].bands@[i];
    assert(ops::tells_group(r.groups@[g], groups[g], inv));
    assert(ops::tells_band(r.groups@[g].bands@[i], b, inv));
    a_band_is_found_by_the_name_of_its_array(inv.arrays@, b.md_name@);
    lemma_same_members(ops::live_members(inv.arrays@, b.md_name@));
}

/// What is told of a group is what is recorded of it; its capacity is that of
/// its bands together, and a resize is pending where one of its bands waits
/// for it.
pub proof fn a_group_is_told_as_recorded(
    r: StatusReport,
    inv: Inventory,
    groups: Seq<ArrayState>,
    g: int,
)
    requires
        ops::tells_status(r, inv, groups),
        0 <= g < groups.len(),
    ensures
        ({
            let t = r.groups@[g];
            let s = groups[g];
            &&& t.name@ == s.name@
            &&& t.mode@ == s.mode@
            &&& t.layout_version == s.layout_version
            &&& t.mount_point@ == s.filesystem.mount_point@
            &&& t.fs_uuid == s.filesystem.fs_uuid
            &&& t.vg_name@ == s.filesystem.vg_name@
            &&& t.lv_name@ == s.filesystem.lv_name@
            &&& t.compression@ == s.filesystem.compression@
            &&& t.usable_bytes as int == s.bands@.fold_left(
                0int,
                |sum: int, b: StateBand| sum + b.usable_bytes,
            )
            &&& t.resize_pending <==> exists|k: int|
                0 <= k < s.bands@.len() && (#[trigger] s.bands@[k]).resize_pending
            &&& t.disks@.len() == s.disks@.len()
            &&& forall|k: int| 0 <= k < s.disks@.len() ==> #[trigger] t.disks@[k] == s.disks@[k].id
        }),
{
    assert(ops::tells_group(r.groups@[g], groups[g], inv));
    lemma_group_size(groups[g].bands@);
}

proof fn lemma_group_size(bands: Seq<StateBand>)
    ensures
        table::total(ops::band_sizes(bands)) == bands.fold_left(
            0int,
            |sum: int, b: StateBand| sum + b.usable_bytes,
        ),
    decreases bands.len(),
{
    reveal(Seq::fold_left);
    if bands.len() > 0 {
        lemma_group_size(bands.drop_last());
        assert(ops::band_sizes(bands).drop_last() =~= ops::band_sizes(bands.drop_last()));
    }
}

// ---------------------------------------------------------------------------
// Devices by partition
// ---------------------------------------------------------------------------

/// The devices and everything below them, each before what is below it.
pub open spec fn with_children(devices: Seq<BlockDevice>) -> Seq<BlockDevice>
    decreases devices,
{
    if devices.len() == 0 {
        Seq::empty()
    } else {
        seq![devices[0]] + with_children(devices[0].children@) + with_children(
            devices.subrange(1, devices.len() as int),
        )
    }
}

/// Whether a device has the partition UUID `uuid`, in whatever case.
pub open spec fn has_uuid(d: BlockDevice, uuid: Seq<char>) -> bool {
    d.partuuid matches Some(p) && p@.len() == uuid.len() && forall|i: int|
        0 <= i < uuid.len() ==> same_letter(#[trigger] p@[i], uuid[i])
}

/// A partition UUID stands for the first device, at whatever depth, that has
/// it; for none exactly when no device has it.
pub proof fn a_partition_is_found_at_any_depth(devices: Seq<BlockDevice>, uuid: Seq<char>)
    ensures
        ({
            let all = with_children(devices);
            match ops::device_with(devices, uuid) {
                Some(name) => exists|k: int|
                    0 <= k < all.len() && has_uuid(#[trigger] all[k], uuid) && all[k].name@ == name
                        && forall|j: int| 0 <= j < k ==> !has_uuid(#[trigger] all[j], uuid),
                None => forall|k: int| 0 <= k < all.len() ==> !has_uuid(#[trigger] all[k], uuid),
            }
        }),
    decreases devices,
{
    let all = with_children(devices);
    if devices.len() > 0 {
        let d = devices[0];
        let below = with_children(d.children@);
        let later = with_children(devices.subrange(1, devices.len() as int));
        match d.partuuid {
            Some(p) => {
                case_is_all_that_is_ignored(p@, uuid);
            },
            None => {},
        }
        assert(ops::carries(d, uuid) <==> has_uuid(d, uuid));
        assert(all[0] == d);
        if !ops::carries(d, uuid) {
            a_partition_is_found_at_any_depth(d.children@, uuid);
            a_partition_is_found_at_any_depth(devices.subrange(1, devices.len() as int), uuid);
            assert forall|j: int| 0 <= j < all.len() implies (#[trigger] all[j]) == (if j == 0 {
                d
            } else if j < 1 + below.len() {
                below[j - 1]
            } else {
                later[j - 1 - below.len()]
            }) by {}
            if ops::device_with(d.children@, uuid) is Some {
                let name = ops::device_with(d.children@, uuid)->0;
                let k = choose|k: int|
                    0 <= k < below.len() && has_uuid(#[trigger] below[k], uuid) && below[k].name@
                        == name && forall|j: int| 0 <= j < k ==> !has_uuid(#[trigger] below[j], uuid);
                assert(all[k + 1] == below[k]);
                assert forall|j: int| 0 <= j < k + 1 implies !has_uuid(#[trigger] all[j], uuid) by {
                    if j > 0 {
                        assert(!has_uuid(below[j - 1], uuid));
                    }
                }
            } else if ops::device_with(devices.subrange(1, devices.len() as int), uuid) is Some {
                let name = ops::device_with(devices.subrange(1, devices.len() as int), uuid)->0;
                let k = choose|k: int|
                    0 <= k < later.len() && has_uuid(#[trigger] later[k], uuid) && later[k].name@
                        == name && forall|j: int| 0 <= j < k ==> !has_uuid(#[trigger] later[j], uuid);
                let at = 1 + below.len() + k;
                assert(all[at] == later[k]);
                assert forall|j: int| 0 <= j < at implies !has_uuid(#[trigger] all[j], uuid) by {
                    if 0 < j && j < 1 + below.len() {
                        assert(!has_uuid(below[j - 1], uuid));
                    } else if j > 0 {
                        assert(!has_uuid(later[j - 1 - below.len()], uuid));
                    }
                }
            } else {
                assert forall|j: int| 0 <= j < all.len() implies !has_uuid(#[trigger] all[j], uuid) by {
                    if 0 < j && j < 1 + below.len() {
                        assert(!has_uuid(below[j - 1], uuid));
                    } else if j > 0 {
                        assert(!has_uuid(later[j - 1 - below.len()], uuid));
                    }
                }
            }
        }
    }
}

/// A member that waits for its removal is told by the name of the device that
/// has its partition UUID, and by the recorded path where no device has it or
/// the path names no partition UUID.
pub proof fn a_removal_is_told_by_device_or_by_path(
    devices: Seq<BlockDevice>,
    path: Seq<char>,
    uuid: Seq<char>,
)
    ensures
        path == "/dev/disk/by-partuuid/"@ + uuid ==> ops::removal_name(devices, path) == (
        match ops::device_with(devices, uuid) {
            Some(name) => name,
            None => path,
        }),
        !text::starts_with(path, "/dev/disk/by-partuuid/"@) ==> ops::removal_name(devices, path)
            == path,
{
    let prefix = "/dev/disk/by-partuuid/"@;
    if path == prefix + uuid {
        assert(path.subrange(0, prefix.len() as int) =~= prefix);
        assert(path.subrange(prefix.len() as int, path.len() as int) =~= uuid);
    }
}

// ---------------------------------------------------------------------------
// The system's disks
// ---------------------------------------------------------------------------

/// The names that must not be touched are the kernel names and the stable
/// names of exactly the disks that hold a part of the operating system.
pub proof fn every_name_of_a_system_disk_is_listed(disks: Seq<DiskFacts>, name: String)
    ensures
        ops::aliases(disks).contains(name) <==> exists|i: int|
            0 <= i < disks.len() && (#[trigger] disks[i]).is_system && (disks[i].name == name
                || disks[i].id == Some(name)),
    decreases disks.len(),
{
    let all = ops::aliases(disks);
    if disks.len() > 0 {
        let head = disks.drop_last();
        let before = ops::aliases(head);
        let d = disks.last();
        every_name_of_a_system_disk_is_listed(head, name);
        if all.contains(name) {
            let k = choose|k: int| 0 <= k < all.len() && all[k] == name;
            if k < before.len() {
                assert(before[k] == name);
                assert(before.contains(name));
                let i = choose|i: int|
                    0 <= i < head.len() && (#[trigger] head[i]).is_system && (head[i].name == name
                        || head[i].id == Some(name));
                assert(disks[i] == head[i]);
            } else {
                assert(disks[disks.len() - 1].is_system);
            }
        }
        if exists|i: int|
            0 <= i < disks.len() && (#[trigger] disks[i]).is_system && (disks[i].name == name
                || disks[i].id == Some(name)) {
            let i = choose|i: int|
                0 <= i < disks.len() && (#[trigger] disks[i]).is_system && (disks[i].name == name
                    || disks[i].id == Some(name));
            if i < head.len() {
                assert(head[i] == disks[i]);
                assert(before.contains(name));
                let k = choose|k: int| 0 <= k < before.len() && before[k] == name;
                assert(all[k] == name);
            } else if d.name == name {
                assert(all[before.len() as int] == name);
            } else {
                assert(all[(before.len() + 1) as int] == name);
            }
        }
    }
}

} // verus!
