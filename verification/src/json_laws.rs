//! What the JSON of a report says: under each key stands the figure, the flag
//! or the text of that name.

use vstd::prelude::*;
use crate::figures;
use crate::figures::Decimal;
use crate::json;
use crate::json::JsonView;
use crate::report::{
    ArrayStatus, BandReport, DiskStatus, FsDfReport, GroupBandStatus, GroupDfStatus, GroupStatus,
    Health, MemberStatus, MetricsReport, PlanReport, ScrubOutcome, ScrubSummary, SmartState,
    SmartSummary, StatusReport, SyncSummary,
};
use crate::report_json;
use crate::text;

verus! {

/// Whether an object has `value` under the key `key`.
pub open spec fn has(object: JsonView, key: Seq<char>, value: JsonView) -> bool {
    object matches JsonView::Object(fields) && fields.contains((key, value))
}

/// How many keys an object has.
pub open spec fn width(object: JsonView) -> nat {
    match object {
        JsonView::Object(fields) => fields.len(),
        _ => 0,
    }
}

/// A number, or null where it is not known.
pub open spec fn number(v: Option<u64>) -> JsonView {
    match v {
        Some(n) => JsonView::Number(n as int),
        None => JsonView::Null,
    }
}

/// A count, or null where it is not known.
pub open spec fn count(v: Option<usize>) -> JsonView {
    match v {
        Some(n) => JsonView::Number(n as int),
        None => JsonView::Null,
    }
}

/// A number that can be below zero, or null where it is not known.
pub open spec fn signed(v: Option<i64>) -> JsonView {
    match v {
        Some(n) => if n >= 0 {
            JsonView::Number(n as int)
        } else {
            JsonView::Literal(seq!['-'] + text::dec((-n) as nat))
        },
        None => JsonView::Null,
    }
}

/// A number with one decimal, or null where it is not known.
pub open spec fn decimal(v: Option<Decimal>) -> JsonView {
    match v {
        Some(d) => JsonView::Literal(figures::decimal_text(d)),
        None => JsonView::Null,
    }
}

/// A text, or null where it is not known.
pub open spec fn words(v: Option<String>) -> JsonView {
    match v {
        Some(s) => JsonView::Text(s@),
        None => JsonView::Null,
    }
}

/// A flag, or null where it is not known.
pub open spec fn truth(v: Option<bool>) -> JsonView {
    match v {
        Some(b) => JsonView::Bool(b),
        None => JsonView::Null,
    }
}

/// A list of texts.
pub open spec fn texts(list: Seq<String>) -> JsonView {
    JsonView::List(Seq::new(list.len(), |i: int| JsonView::Text(list[i]@)))
}

proof fn lemma_texts(list: Seq<String>)
    ensures
        json::text_values(text::views(list)) == Seq::new(
            list.len(),
            |i: int| JsonView::Text(list[i]@),
        ),
{
    assert(json::text_values(text::views(list)) =~= Seq::new(
        list.len(),
        |i: int| JsonView::Text(list[i]@),
    ));
}

/// What JSON tells of the health of a disk, key by key.
pub proof fn the_health_of_a_disk_is_told_under_its_keys(s: SmartSummary)
    ensures
        ({
            let o = report_json::smart_object(s);
            &&& has(o, "state"@, JsonView::Text(match s.state {
                SmartState::Good => "ok"@,
                SmartState::Warning => "warning"@,
                SmartState::Unknown => "unknown"@,
            }))
            &&& has(o, "temperature_c"@, signed(s.temperature_c))
            &&& has(o, "power_on_hours"@, number(s.power_on_hours))
            &&& has(o, "pending_sectors"@, number(s.pending_sectors))
            &&& has(o, "reallocated_sectors"@, number(s.reallocated_sectors))
            &&& has(o, "uncorrectable_sectors"@, number(s.uncorrectable_sectors))
            &&& has(o, "nvme_critical_warning"@, number(s.nvme_critical_warning))
            &&& width(o) == 7
        }),
{
    broadcast use vstd::seq_lib::lemma_seq_contains_after_push;

    crate::text_laws::negative_numbers_have_a_minus(match s.temperature_c {
        Some(n) => n as int,
        None => 0,
    });
}

/// What JSON tells of a disk, key by key.
pub proof fn a_disk_is_told_under_its_keys(d: DiskStatus)
    ensures
        ({
            let o = report_json::disk_object(d);
            &&& has(o, "name"@, JsonView::Text(d.name@))
            &&& has(o, "size"@, number(d.size))
            &&& has(o, "model"@, words(d.model))
            &&& has(o, "serial"@, words(d.serial))
            &&& has(o, "rotational"@, truth(d.rotational))
            &&& has(o, "smart"@, report_json::smart_object(d.smart))
            &&& has(o, "arrays"@, texts(d.arrays@))
            &&& has(o, "system_disk"@, JsonView::Bool(d.system_disk))
            &&& d.id is Some ==> has(o, "id"@, words(d.id))
            &&& d.system_mounts@.len() > 0 ==> has(o, "system_mounts"@, texts(d.system_mounts@))
            &&& width(o) == 8
                + (if d.id is Some { 1int } else { 0int })
                + (if d.system_mounts@.len() > 0 { 1int } else { 0int })
        }),
{
    broadcast use vstd::seq_lib::lemma_seq_contains_after_push;

    lemma_texts(d.arrays@);
    lemma_texts(d.system_mounts@);
}

/// What JSON tells of a sync, key by key.
pub proof fn a_sync_is_told_under_its_keys(s: SyncSummary)
    ensures
        ({
            let o = report_json::sync_object(s);
            &&& has(o, "action"@, JsonView::Text(s.action@))
            &&& has(o, "percent"@, decimal(s.percent))
            &&& has(o, "finish_min"@, decimal(s.finish_min))
            &&& width(o) == 3
        }),
{
    broadcast use vstd::seq_lib::lemma_seq_contains_after_push;

}

/// What JSON tells of a member, key by key.
pub proof fn a_member_is_told_under_its_keys(m: MemberStatus)
    ensures
        ({
            let o = report_json::member_object(m);
            &&& has(o, "name"@, JsonView::Text(m.name@))
            &&& has(o, "role"@, (match m.role {
                Some(n) => JsonView::Number(n as int),
                None => JsonView::Null,
            }))
            &&& has(o, "faulty"@, JsonView::Bool(m.faulty))
            &&& has(o, "spare"@, JsonView::Bool(m.spare))
            &&& has(o, "write_mostly"@, JsonView::Bool(m.write_mostly))
            &&& has(o, "replacement"@, JsonView::Bool(m.replacement))
            &&& width(o) == 6
        }),
{
    broadcast use vstd::seq_lib::lemma_seq_contains_after_push;

}

/// What JSON tells of an array, key by key.
pub proof fn an_array_is_told_under_its_keys(a: ArrayStatus)
    ensures
        ({
            let o = report_json::array_object(a);
            &&& has(o, "name"@, JsonView::Text(a.name@))
            &&& has(o, "level"@, words(a.level))
            &&& has(o, "state"@, JsonView::Text(a.state@))
            &&& has(o, "read_only"@, JsonView::Bool(a.read_only))
            &&& has(o, "degraded"@, JsonView::Bool(a.degraded))
            &&& has(o, "raid_disks"@, count(a.raid_disks))
            &&& has(o, "active_disks"@, count(a.active_disks))
            &&& has(o, "members"@, texts(a.members@))
            &&& has(o, "member_states"@, JsonView::List(Seq::new(a.member_states@.len(), |i: int| report_json::member_object(a.member_states@[i]))))
            &&& has(o, "sync"@, (match a.sync {
                Some(s) => report_json::sync_object(s),
                None => JsonView::Null,
            }))
            &&& width(o) == 10
        }),
{
    broadcast use vstd::seq_lib::lemma_seq_contains_after_push;

    lemma_texts(a.members@);
    assert(report_json::member_objects(a.member_states@) =~= Seq::new(a.member_states@.len(), |i: int| report_json::member_object(a.member_states@[i])));
}

/// What JSON tells of an error check, key by key.
pub proof fn an_error_check_is_told_under_its_keys(s: ScrubSummary)
    ensures
        ({
            let o = report_json::scrub_object(s);
            &&& has(o, "finished_at"@, JsonView::Text(s.finished_at@))
            &&& has(o, "outcome"@, JsonView::Text(match s.outcome {
                ScrubOutcome::Completed => "completed"@,
                ScrubOutcome::Cancelled => "cancelled"@,
                ScrubOutcome::Failed => "failed"@,
            }))
            &&& has(o, "error_count"@, JsonView::Number(s.error_count as int))
            &&& width(o) == 3
        }),
{
    broadcast use vstd::seq_lib::lemma_seq_contains_after_push;

}

/// What a list of keys with their values puts into an object, those without a
/// value left out: the first `n` of them.
spec fn put_first(entries: Seq<(Seq<char>, Option<JsonView>)>, n: nat) -> report_json::Fields
    decreases n,
{
    if n == 0 {
        Seq::empty()
    } else {
        report_json::known(
            put_first(entries, (n - 1) as nat),
            entries[n - 1].0,
            entries[n - 1].1,
        )
    }
}

proof fn lemma_put_first(entries: Seq<(Seq<char>, Option<JsonView>)>, n: nat)
    requires
        n <= entries.len(),
    ensures
        forall|i: int|
            #![trigger entries[i]]
            0 <= i < n && entries[i].1 is Some ==> put_first(entries, n).contains(
                (entries[i].0, entries[i].1->0),
            ),
    decreases n,
{
    broadcast use vstd::seq_lib::lemma_seq_contains_after_push;

    if n > 0 {
        lemma_put_first(entries, (n - 1) as nat);
    }
}

/// What JSON is told of a band, in the order of the keys.
spec fn band_entries(b: GroupBandStatus) -> Seq<(Seq<char>, Option<JsonView>)> {
    seq![
        ("index"@, Some(JsonView::Number(b.index as int))),
        ("level"@, Some(JsonView::Text(b.level@))),
        ("md_name"@, Some(JsonView::Text(b.md_name@))),
        ("md_uuid"@, report_json::text_value(b.md_uuid)),
        ("usable_bytes"@, Some(JsonView::Number(b.usable_bytes as int))),
        ("resize_pending"@, Some(JsonView::Bool(b.resize_pending))),
        (
            "members"@,
            if b.members@.len() > 0 {
            Some(texts(b.members@))
        } else {
            None
        },
        ),
        (
            "member_states"@,
            if b.member_states@.len() > 0 {
            Some(JsonView::List(report_json::member_objects(b.member_states@)))
        } else {
            None
        },
        ),
        ("sync"@, report_json::sync_value(b.sync)),
        ("last_scrub"@, report_json::scrub_value(b.last_scrub)),
        ("sync_speed_kb"@, report_json::number_value(b.sync_speed_kb)),
        ("sync_speed_min_kb"@, report_json::number_value(b.sync_speed_min_kb)),
        ("sync_speed_max_kb"@, report_json::number_value(b.sync_speed_max_kb)),
        ("sync_priority"@, report_json::text_value(b.sync_priority)),
        ("sync_capability_kb"@, report_json::number_value(b.sync_capability_kb)),
        ("sync_capability_observed_at"@, report_json::text_value(b.sync_capability_observed_at)),
        ("last_throttle_decision"@, report_json::text_value(b.last_throttle_decision)),
        ("last_throttle_reason"@, report_json::text_value(b.last_throttle_reason)),
        ("last_throttle_speed_kb"@, report_json::number_value(b.last_throttle_speed_kb)),
        ("scrub_in_progress"@, Some(JsonView::Bool(b.scrub_in_progress))),
        ("pending_member_removal"@, report_json::text_value(b.pending_member_removal)),
    ]
}

proof fn lemma_band_entries(b: GroupBandStatus)
    ensures
        report_json::band_fields(b) == put_first(band_entries(b), 21),
        band_entries(b).len() == 21,
{
    lemma_texts(b.members@);
    reveal_with_fuel(put_first, 22);
    let e = band_entries(b);
    assert(e[0].0 == "index"@);
    assert(e[1].0 == "level"@);
    assert(e[2].0 == "md_name"@);
    assert(e[3].0 == "md_uuid"@);
    assert(e[4].0 == "usable_bytes"@);
    assert(e[5].0 == "resize_pending"@);
    assert(e[6].0 == "members"@);
    assert(e[7].0 == "member_states"@);
    assert(e[8].0 == "sync"@);
    assert(e[9].0 == "last_scrub"@);
    assert(e[10].0 == "sync_speed_kb"@);
    assert(e[11].0 == "sync_speed_min_kb"@);
    assert(e[12].0 == "sync_speed_max_kb"@);
    assert(e[13].0 == "sync_priority"@);
    assert(e[14].0 == "sync_capability_kb"@);
    assert(e[15].0 == "sync_capability_observed_at"@);
    assert(e[16].0 == "last_throttle_decision"@);
    assert(e[17].0 == "last_throttle_reason"@);
    assert(e[18].0 == "last_throttle_speed_kb"@);
    assert(e[19].0 == "scrub_in_progress"@);
    assert(e[20].0 == "pending_member_removal"@);
    assert(json::text_values(text::views(b.members@)).len() == b.members@.len());
    assert(report_json::member_objects(b.member_states@).len() == b.member_states@.len());
}

/// What JSON tells of a band of a group, key by key.
pub proof fn a_band_is_told_under_its_keys(b: GroupBandStatus)
    ensures
        ({
            let o = report_json::band_object(b);
            &&& has(o, "index"@, JsonView::Number(b.index as int))
            &&& has(o, "level"@, JsonView::Text(b.level@))
            &&& has(o, "md_name"@, JsonView::Text(b.md_name@))
            &&& has(o, "usable_bytes"@, JsonView::Number(b.usable_bytes as int))
            &&& has(o, "resize_pending"@, JsonView::Bool(b.resize_pending))
            &&& has(o, "scrub_in_progress"@, JsonView::Bool(b.scrub_in_progress))
            &&& b.md_uuid is Some ==> has(o, "md_uuid"@, words(b.md_uuid))
            &&& b.members@.len() > 0 ==> has(o, "members"@, texts(b.members@))
            &&& b.member_states@.len() > 0 ==> has(o, "member_states"@, JsonView::List(Seq::new(b.member_states@.len(), |i: int| report_json::member_object(b.member_states@[i]))))
            &&& b.sync is Some ==> has(o, "sync"@, report_json::sync_object(b.sync->0))
            &&& b.last_scrub is Some ==> has(o, "last_scrub"@, report_json::scrub_object(b.last_scrub->0))
            &&& b.sync_speed_kb is Some ==> has(o, "sync_speed_kb"@, number(b.sync_speed_kb))
            &&& b.sync_speed_min_kb is Some ==> has(o, "sync_speed_min_kb"@, number(b.sync_speed_min_kb))
            &&& b.sync_speed_max_kb is Some ==> has(o, "sync_speed_max_kb"@, number(b.sync_speed_max_kb))
            &&& b.sync_priority is Some ==> has(o, "sync_priority"@, words(b.sync_priority))
            &&& b.sync_capability_kb is Some ==> has(o, "sync_capability_kb"@, number(b.sync_capability_kb))
            &&& b.sync_capability_observed_at is Some ==> has(o, "sync_capability_observed_at"@, words(b.sync_capability_observed_at))
            &&& b.last_throttle_decision is Some ==> has(o, "last_throttle_decision"@, words(b.last_throttle_decision))
            &&& b.last_throttle_reason is Some ==> has(o, "last_throttle_reason"@, words(b.last_throttle_reason))
            &&& b.last_throttle_speed_kb is Some ==> has(o, "last_throttle_speed_kb"@, number(b.last_throttle_speed_kb))
            &&& b.pending_member_removal is Some ==> has(o, "pending_member_removal"@, words(b.pending_member_removal))
        }),
{
    let e = band_entries(b);
    lemma_band_entries(b);
    lemma_put_first(e, 21);
    assert(report_json::member_objects(b.member_states@) =~= Seq::new(
        b.member_states@.len(),
        |i: int| report_json::member_object(b.member_states@[i]),
    ));
    assert(e[0].0 == "index"@);
    assert(e[1].0 == "level"@);
    assert(e[2].0 == "md_name"@);
    assert(e[3].0 == "md_uuid"@);
    assert(e[4].0 == "usable_bytes"@);
    assert(e[5].0 == "resize_pending"@);
    assert(e[6].0 == "members"@);
    assert(e[7].0 == "member_states"@);
    assert(e[8].0 == "sync"@);
    assert(e[9].0 == "last_scrub"@);
    assert(e[10].0 == "sync_speed_kb"@);
    assert(e[11].0 == "sync_speed_min_kb"@);
    assert(e[12].0 == "sync_speed_max_kb"@);
    assert(e[13].0 == "sync_priority"@);
    assert(e[14].0 == "sync_capability_kb"@);
    assert(e[15].0 == "sync_capability_observed_at"@);
    assert(e[16].0 == "last_throttle_decision"@);
    assert(e[17].0 == "last_throttle_reason"@);
    assert(e[18].0 == "last_throttle_speed_kb"@);
    assert(e[19].0 == "scrub_in_progress"@);
    assert(e[20].0 == "pending_member_removal"@);
}

/// What JSON tells of a group, key by key.
pub proof fn a_group_is_told_under_its_keys(g: GroupStatus)
    ensures
        ({
            let o = report_json::group_object(g);
            &&& has(o, "name"@, JsonView::Text(g.name@))
            &&& has(o, "mode"@, JsonView::Text(g.mode@))
            &&& has(o, "layout_version"@, JsonView::Number(g.layout_version as int))
            &&& has(o, "mount_point"@, JsonView::Text(g.mount_point@))
            &&& has(o, "fs_uuid"@, words(g.fs_uuid))
            &&& has(o, "vg_name"@, JsonView::Text(g.vg_name@))
            &&& has(o, "lv_name"@, JsonView::Text(g.lv_name@))
            &&& has(o, "compression"@, JsonView::Text(g.compression@))
            &&& has(o, "usable_bytes"@, JsonView::Number(g.usable_bytes as int))
            &&& has(o, "resize_pending"@, JsonView::Bool(g.resize_pending))
            &&& has(o, "disks"@, texts(g.disks@))
            &&& has(o, "bands"@, JsonView::List(Seq::new(g.bands@.len(), |i: int| report_json::band_object(g.bands@[i]))))
            &&& width(o) == 12
        }),
{
    broadcast use vstd::seq_lib::lemma_seq_contains_after_push;

    lemma_texts(g.disks@);
    assert(report_json::band_objects(g.bands@) =~= Seq::new(g.bands@.len(), |i: int| report_json::band_object(g.bands@[i])));
}

/// What JSON tells of the host, key by key.
pub proof fn a_status_is_told_under_its_keys(r: StatusReport)
    ensures
        ({
            let o = report_json::status_object(r);
            &&& has(o, "schema_version"@, JsonView::Number(r.schema_version as int))
            &&& has(o, "health"@, JsonView::Text(match r.health {
                Health::Healthy => "healthy"@,
                Health::Degraded => "degraded"@,
                Health::Unknown => "unknown"@,
            }))
            &&& has(o, "disks"@, JsonView::List(Seq::new(r.disks@.len(), |i: int| report_json::disk_object(r.disks@[i]))))
            &&& has(o, "arrays"@, JsonView::List(Seq::new(r.arrays@.len(), |i: int| report_json::array_object(r.arrays@[i]))))
            &&& has(o, "groups"@, JsonView::List(Seq::new(r.groups@.len(), |i: int| report_json::group_object(r.groups@[i]))))
            &&& r.state_path is Some ==> has(o, "state_path"@, words(r.state_path))
            &&& width(o) == 5
                + (if r.state_path is Some { 1int } else { 0int })
        }),
{
    broadcast use vstd::seq_lib::lemma_seq_contains_after_push;

    assert(report_json::disk_objects(r.disks@) =~= Seq::new(r.disks@.len(), |i: int| report_json::disk_object(r.disks@[i])));
    assert(report_json::array_objects(r.arrays@) =~= Seq::new(r.arrays@.len(), |i: int| report_json::array_object(r.arrays@[i])));
    assert(report_json::group_objects(r.groups@) =~= Seq::new(r.groups@.len(), |i: int| report_json::group_object(r.groups@[i])));
}

/// What JSON tells of how full a group is, key by key.
pub proof fn usage_is_told_under_its_keys(g: GroupDfStatus)
    ensures
        ({
            let o = report_json::usage_object(g);
            &&& has(o, "name"@, JsonView::Text(g.name@))
            &&& has(o, "mount_point"@, JsonView::Text(g.mount_point@))
            &&& has(o, "usable_bytes"@, JsonView::Number(g.usable_bytes as int))
            &&& has(o, "data_used_bytes"@, number(g.data_used_bytes))
            &&& has(o, "data_total_bytes"@, number(g.data_total_bytes))
            &&& has(o, "metadata_used_bytes"@, number(g.metadata_used_bytes))
            &&& has(o, "metadata_total_bytes"@, number(g.metadata_total_bytes))
            &&& has(o, "unallocated_bytes"@, number(g.unallocated_bytes))
            &&& has(o, "statvfs_avail_bytes"@, number(g.statvfs_avail_bytes))
            &&& width(o) == 9
        }),
{
    broadcast use vstd::seq_lib::lemma_seq_contains_after_push;

}

/// What JSON tells of how full the groups are, key by key.
pub proof fn the_usage_of_all_groups_is_told_under_its_keys(r: FsDfReport)
    ensures
        ({
            let o = report_json::fs_df_object(r);
            &&& has(o, "schema_version"@, JsonView::Number(r.schema_version as int))
            &&& has(o, "groups"@, JsonView::List(Seq::new(r.groups@.len(), |i: int| report_json::usage_object(r.groups@[i]))))
            &&& width(o) == 2
        }),
{
    broadcast use vstd::seq_lib::lemma_seq_contains_after_push;

    assert(report_json::usage_objects(r.groups@) =~= Seq::new(r.groups@.len(), |i: int| report_json::usage_object(r.groups@[i])));
}

/// What JSON tells of a planned band, key by key.
pub proof fn a_planned_band_is_told_under_its_keys(b: BandReport)
    ensures
        ({
            let o = report_json::plan_band_object(b);
            &&& has(o, "index"@, JsonView::Number(b.index as int))
            &&& has(o, "level"@, JsonView::Text(b.level@))
            &&& has(o, "size"@, JsonView::Number(b.size as int))
            &&& has(o, "members"@, texts(b.members@))
            &&& has(o, "usable"@, JsonView::Number(b.usable as int))
            &&& has(o, "raw"@, JsonView::Number(b.raw as int))
            &&& width(o) == 6
        }),
{
    broadcast use vstd::seq_lib::lemma_seq_contains_after_push;

    lemma_texts(b.members@);
}

/// What JSON tells of the capacity of a plan, key by key.
pub proof fn capacity_is_told_under_its_keys(m: MetricsReport)
    ensures
        ({
            let o = report_json::metrics_object(m);
            &&& has(o, "total_usable"@, JsonView::Number(m.total_usable as int))
            &&& has(o, "total_raw"@, JsonView::Number(m.total_raw as int))
            &&& has(o, "redundancy_overhead"@, JsonView::Number(m.redundancy_overhead as int))
            &&& has(o, "stranded_bytes"@, JsonView::Number(m.stranded_bytes as int))
            &&& has(o, "waste_ratio"@, JsonView::Quotient(m.waste_ratio.numerator as int, m.waste_ratio.denominator as int))
            &&& has(o, "utilization"@, JsonView::Object(Seq::new(m.utilization@.len(), |i: int| (m.utilization@[i].0@, JsonView::Quotient(m.utilization@[i].1.numerator as int, m.utilization@[i].1.denominator as int)))))
            &&& width(o) == 6
        }),
{
    broadcast use vstd::seq_lib::lemma_seq_contains_after_push;

    assert(report_json::ratio_fields(m.utilization@) =~= Seq::new(m.utilization@.len(), |i: int| (m.utilization@[i].0@, JsonView::Quotient(m.utilization@[i].1.numerator as int, m.utilization@[i].1.denominator as int))));
}

/// What JSON tells of a plan, key by key.
pub proof fn a_plan_is_told_under_its_keys(r: PlanReport)
    ensures
        ({
            let o = report_json::plan_object(r);
            &&& has(o, "schema_version"@, JsonView::Number(r.schema_version as int))
            &&& has(o, "mode"@, JsonView::Text(r.mode@))
            &&& has(o, "bands"@, JsonView::List(Seq::new(r.bands@.len(), |i: int| report_json::plan_band_object(r.bands@[i]))))
            &&& has(o, "metrics"@, report_json::metrics_object(r.metrics))
            &&& has(o, "unusable_per_disk"@, JsonView::Object(Seq::new(r.unusable_per_disk@.len(), |i: int| (r.unusable_per_disk@[i].0@, JsonView::Number(r.unusable_per_disk@[i].1 as int)))))
            &&& has(o, "warnings"@, texts(r.warnings@))
            &&& width(o) == 6
        }),
{
    broadcast use vstd::seq_lib::lemma_seq_contains_after_push;

    assert(report_json::plan_band_objects(r.bands@) =~= Seq::new(r.bands@.len(), |i: int| report_json::plan_band_object(r.bands@[i])));
    assert(report_json::amount_fields(r.unusable_per_disk@) =~= Seq::new(r.unusable_per_disk@.len(), |i: int| (r.unusable_per_disk@[i].0@, JsonView::Number(r.unusable_per_disk@[i].1 as int))));
    lemma_texts(r.warnings@);
}

} // verus!
