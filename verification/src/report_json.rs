//! The reports as JSON: what machines read. A fact that is part of the contract
//! from the start is told as null where it is unknown; one that joined later is
//! left out instead, so that it cannot be taken for a value.

use vstd::prelude::*;
use crate::figures;
use crate::figures::Decimal;
use crate::json;
use crate::json::{Json, JsonView};
use crate::metrics::Fraction;
use crate::report::{
    ArrayStatus, BandReport, DiskStatus, FsDfReport, GroupBandStatus, GroupDfStatus, GroupStatus,
    Health, MemberStatus, MetricsReport, PlanReport, ScrubOutcome, ScrubSummary, SmartState,
    SmartSummary, StatusReport, SyncSummary,
};
use crate::text;

verus! {

// ---------------------------------------------------------------------------
// Values
// ---------------------------------------------------------------------------

/// The fields of an object.
pub type Fields = Seq<(Seq<char>, JsonView)>;

/// A value, or null where there is none.
pub open spec fn or_null(v: Option<JsonView>) -> JsonView {
    match v {
        Some(v) => v,
        None => JsonView::Null,
    }
}

/// The fields and, where there is a value, `key` with it.
pub open spec fn known(fields: Fields, key: Seq<char>, v: Option<JsonView>) -> Fields {
    match v {
        Some(v) => fields.push((key, v)),
        None => fields,
    }
}

/// The fields and, where the list holds something, `key` with it.
pub open spec fn filled(fields: Fields, key: Seq<char>, list: Seq<JsonView>) -> Fields {
    if list.len() > 0 {
        fields.push((key, JsonView::List(list)))
    } else {
        fields
    }
}

/// A text that may be unknown.
pub open spec fn text_value(v: Option<String>) -> Option<JsonView> {
    match v {
        Some(v) => Some(JsonView::Text(v@)),
        None => None,
    }
}

fn text_or_null(v: &Option<String>) -> (r: Json)
    ensures
        r@ == or_null(text_value(*v)),
{
    match v {
        Some(v) => json::string(v.as_str()),
        None => Json::Null,
    }
}

/// A number that may be unknown.
pub open spec fn number_value(v: Option<u64>) -> Option<JsonView> {
    match v {
        Some(v) => Some(JsonView::Number(v as int)),
        None => None,
    }
}

fn number_or_null(v: Option<u64>) -> (r: Json)
    ensures
        r@ == or_null(number_value(v)),
{
    match v {
        Some(v) => Json::Number(v),
        None => Json::Null,
    }
}

/// The place of a member, which it may not have.
pub open spec fn role_value(v: Option<u32>) -> Option<JsonView> {
    match v {
        Some(v) => Some(JsonView::Number(v as int)),
        None => None,
    }
}

fn role_or_null(v: Option<u32>) -> (r: Json)
    ensures
        r@ == or_null(role_value(v)),
{
    match v {
        Some(v) => Json::Number(v as u64),
        None => Json::Null,
    }
}

/// A count that may be unknown.
pub open spec fn count_value(v: Option<usize>) -> Option<JsonView> {
    match v {
        Some(v) => Some(JsonView::Number(v as int)),
        None => None,
    }
}

fn count_or_null(v: Option<usize>) -> (r: Json)
    ensures
        r@ == or_null(count_value(v)),
{
    match v {
        Some(v) => Json::Number(v as u64),
        None => Json::Null,
    }
}

/// A truth that may be unknown.
pub open spec fn bool_value(v: Option<bool>) -> Option<JsonView> {
    match v {
        Some(v) => Some(JsonView::Bool(v)),
        None => None,
    }
}

fn bool_or_null(v: Option<bool>) -> (r: Json)
    ensures
        r@ == or_null(bool_value(v)),
{
    match v {
        Some(v) => Json::Bool(v),
        None => Json::Null,
    }
}

/// A signed number that may be unknown.
pub open spec fn signed_value(v: Option<i64>) -> Option<JsonView> {
    match v {
        Some(v) => if v < 0 {
            Some(JsonView::Literal(text::signed_dec(v as int)))
        } else {
            Some(JsonView::Number(v as int))
        },
        None => None,
    }
}

fn signed_or_null(v: Option<i64>) -> (r: Json)
    ensures
        r@ == or_null(signed_value(v)),
{
    match v {
        Some(v) => if v < 0 {
            Json::Literal(text::signed_decimal(v))
        } else {
            Json::Number(v as u64)
        },
        None => Json::Null,
    }
}

/// A number with one decimal that may be unknown.
pub open spec fn decimal_value(v: Option<Decimal>) -> Option<JsonView> {
    match v {
        Some(v) => Some(JsonView::Literal(figures::decimal_text(v))),
        None => None,
    }
}

fn decimal_or_null(v: Option<Decimal>) -> (r: Json)
    ensures
        r@ == or_null(decimal_value(v)),
{
    match v {
        Some(v) => Json::Literal(v.to_text()),
        None => Json::Null,
    }
}

/// A fraction.
pub open spec fn ratio_value(f: Fraction) -> JsonView {
    JsonView::Quotient(f.numerator as int, f.denominator as int)
}

/// The fractions of named things, as fields.
pub open spec fn ratio_fields(list: Seq<(String, Fraction)>) -> Fields {
    list.map_values(|e: (String, Fraction)| (e.0@, ratio_value(e.1)))
}

/// The amounts of named things, as fields.
pub open spec fn amount_fields(list: Seq<(String, u64)>) -> Fields {
    list.map_values(|e: (String, u64)| (e.0@, JsonView::Number(e.1 as int)))
}

fn ratio_json(f: Fraction) -> (r: Json)
    ensures
        r@ == ratio_value(f),
{
    Json::Quotient(f.numerator, f.denominator)
}

fn ratios_json(list: &Vec<(String, Fraction)>) -> (r: Json)
    ensures
        r@ == JsonView::Object(ratio_fields(list@)),
{
    let mut fields: Vec<(String, Json)> = Vec::new();
    let mut i: usize = 0;
    while i < list.len()
        invariant
            i <= list.len(),
            json::pairs(fields@) =~= ratio_fields(list@).take(i as int),
        decreases list.len() - i,
    {
        json::put(&mut fields, list[i].0.as_str(), ratio_json(list[i].1));
        i = i + 1;
    }
    assert(ratio_fields(list@).take(i as int) =~= ratio_fields(list@));
    json::object(fields)
}

fn amounts_json(list: &Vec<(String, u64)>) -> (r: Json)
    ensures
        r@ == JsonView::Object(amount_fields(list@)),
{
    let mut fields: Vec<(String, Json)> = Vec::new();
    let mut i: usize = 0;
    while i < list.len()
        invariant
            i <= list.len(),
            json::pairs(fields@) =~= amount_fields(list@).take(i as int),
        decreases list.len() - i,
    {
        json::put(&mut fields, list[i].0.as_str(), Json::Number(list[i].1));
        i = i + 1;
    }
    assert(amount_fields(list@).take(i as int) =~= amount_fields(list@));
    json::object(fields)
}

fn put_known_text(fields: &mut Vec<(String, Json)>, key: &str, v: &Option<String>)
    ensures
        json::pairs(final(fields)@) == known(json::pairs(old(fields)@), key@, text_value(*v)),
{
    match v {
        Some(v) => json::put(fields, key, json::string(v.as_str())),
        None => {},
    }
}

fn put_known_number(fields: &mut Vec<(String, Json)>, key: &str, v: Option<u64>)
    ensures
        json::pairs(final(fields)@) == known(json::pairs(old(fields)@), key@, number_value(v)),
{
    match v {
        Some(v) => json::put(fields, key, Json::Number(v)),
        None => {},
    }
}

fn put_filled(fields: &mut Vec<(String, Json)>, key: &str, values: Vec<Json>)
    ensures
        json::pairs(final(fields)@) == filled(
            json::pairs(old(fields)@),
            key@,
            json::trees(values@),
        ),
{
    if values.len() > 0 {
        json::put(fields, key, json::list(values));
    }
}

fn put_filled_texts(fields: &mut Vec<(String, Json)>, key: &str, values: &Vec<String>)
    ensures
        json::pairs(final(fields)@) == filled(
            json::pairs(old(fields)@),
            key@,
            json::text_values(text::views(values@)),
        ),
{
    if values.len() > 0 {
        json::put(fields, key, json::strings(values.as_slice()));
    }
}

// ---------------------------------------------------------------------------
// Words
// ---------------------------------------------------------------------------

/// The word for a health.
pub open spec fn health_json_word(v: Health) -> Seq<char> {
    match v {
        Health::Healthy => "healthy"@,
        Health::Degraded => "degraded"@,
        Health::Unknown => "unknown"@,
    }
}

fn health_name(v: Health) -> (s: &'static str)
    ensures
        s@ == health_json_word(v),
{
    match v {
        Health::Healthy => "healthy",
        Health::Degraded => "degraded",
        Health::Unknown => "unknown",
    }
}

/// The word for what the self-monitoring of a disk says.
pub open spec fn smart_state_word(v: SmartState) -> Seq<char> {
    match v {
        SmartState::Good => "ok"@,
        SmartState::Warning => "warning"@,
        SmartState::Unknown => "unknown"@,
    }
}

fn smart_state_name(v: SmartState) -> (s: &'static str)
    ensures
        s@ == smart_state_word(v),
{
    match v {
        SmartState::Good => "ok",
        SmartState::Warning => "warning",
        SmartState::Unknown => "unknown",
    }
}

/// The word for how an error check ended.
pub open spec fn scrub_outcome_word(v: ScrubOutcome) -> Seq<char> {
    match v {
        ScrubOutcome::Completed => "completed"@,
        ScrubOutcome::Cancelled => "cancelled"@,
        ScrubOutcome::Failed => "failed"@,
    }
}

fn scrub_outcome_name(v: ScrubOutcome) -> (s: &'static str)
    ensures
        s@ == scrub_outcome_word(v),
{
    match v {
        ScrubOutcome::Completed => "completed",
        ScrubOutcome::Cancelled => "cancelled",
        ScrubOutcome::Failed => "failed",
    }
}

// ---------------------------------------------------------------------------
// Disks
// ---------------------------------------------------------------------------

/// The fields of the self-monitoring of a disk.
pub open spec fn smart_fields(s: SmartSummary) -> Fields {
    let f: Fields = Seq::empty();
    let f = f.push(("state"@, JsonView::Text(smart_state_word(s.state))));
    let f = f.push(("temperature_c"@, or_null(signed_value(s.temperature_c))));
    let f = f.push(("power_on_hours"@, or_null(number_value(s.power_on_hours))));
    let f = f.push(("pending_sectors"@, or_null(number_value(s.pending_sectors))));
    let f = f.push(("reallocated_sectors"@, or_null(number_value(s.reallocated_sectors))));
    let f = f.push(("uncorrectable_sectors"@, or_null(number_value(s.uncorrectable_sectors))));
    let f = f.push(("nvme_critical_warning"@, or_null(number_value(s.nvme_critical_warning))));
    f
}

/// The self-monitoring of a disk, as an object.
pub open spec fn smart_object(s: SmartSummary) -> JsonView {
    JsonView::Object(smart_fields(s))
}

fn smart_json(s: &SmartSummary) -> (j: Json)
    ensures
        j@ == smart_object(*s),
{
    let mut f: Vec<(String, Json)> = Vec::new();
    assert(json::pairs(f@) =~= Seq::empty());
    json::put(&mut f, "state", json::string(smart_state_name(s.state)));
    json::put(&mut f, "temperature_c", signed_or_null(s.temperature_c));
    json::put(&mut f, "power_on_hours", number_or_null(s.power_on_hours));
    json::put(&mut f, "pending_sectors", number_or_null(s.pending_sectors));
    json::put(&mut f, "reallocated_sectors", number_or_null(s.reallocated_sectors));
    json::put(&mut f, "uncorrectable_sectors", number_or_null(s.uncorrectable_sectors));
    json::put(&mut f, "nvme_critical_warning", number_or_null(s.nvme_critical_warning));
    json::object(f)
}

/// The fields of a disk.
pub open spec fn disk_fields(d: DiskStatus) -> Fields {
    let f: Fields = Seq::empty();
    let f = f.push(("name"@, JsonView::Text(d.name@)));
    let f = known(f, "id"@, text_value(d.id));
    let f = f.push(("size"@, or_null(number_value(d.size))));
    let f = f.push(("model"@, or_null(text_value(d.model))));
    let f = f.push(("serial"@, or_null(text_value(d.serial))));
    let f = f.push(("rotational"@, or_null(bool_value(d.rotational))));
    let f = f.push(("smart"@, smart_object(d.smart)));
    let f = f.push(("arrays"@, JsonView::List(json::text_values(text::views(d.arrays@)))));
    let f = f.push(("system_disk"@, JsonView::Bool(d.system_disk)));
    let f = filled(f, "system_mounts"@, json::text_values(text::views(d.system_mounts@)));
    f
}

/// A disk, as an object.
pub open spec fn disk_object(d: DiskStatus) -> JsonView {
    JsonView::Object(disk_fields(d))
}

fn disk_json(d: &DiskStatus) -> (j: Json)
    ensures
        j@ == disk_object(*d),
{
    let mut f: Vec<(String, Json)> = Vec::new();
    assert(json::pairs(f@) =~= Seq::empty());
    json::put(&mut f, "name", json::string(d.name.as_str()));
    put_known_text(&mut f, "id", &d.id);
    json::put(&mut f, "size", number_or_null(d.size));
    json::put(&mut f, "model", text_or_null(&d.model));
    json::put(&mut f, "serial", text_or_null(&d.serial));
    json::put(&mut f, "rotational", bool_or_null(d.rotational));
    json::put(&mut f, "smart", smart_json(&d.smart));
    json::put(&mut f, "arrays", json::strings(d.arrays.as_slice()));
    json::put(&mut f, "system_disk", Json::Bool(d.system_disk));
    put_filled_texts(&mut f, "system_mounts", &d.system_mounts);
    json::object(f)
}

/// The objects of a list.
pub open spec fn disk_objects(list: Seq<DiskStatus>) -> Seq<JsonView> {
    list.map_values(|d: DiskStatus| disk_object(d))
}

fn disk_list(list: &Vec<DiskStatus>) -> (r: Vec<Json>)
    ensures
        json::trees(r@) == disk_objects(list@),
{
    let mut values: Vec<Json> = Vec::new();
    let mut i: usize = 0;
    while i < list.len()
        invariant
            i <= list.len(),
            json::trees(values@) =~= disk_objects(list@).take(i as int),
        decreases list.len() - i,
    {
        let value = disk_json(&list[i]);
        let ghost before = values@;
        values.push(value);
        assert(json::trees(values@) =~= json::trees(before).push(value@));
        i = i + 1;
    }
    assert(disk_objects(list@).take(i as int) =~= disk_objects(list@));
    values
}

/// The disks of a host as JSON.
pub fn disks_json(disks: &Vec<DiskStatus>) -> (r: Json)
    ensures
        r@ == JsonView::List(disk_objects(disks@)),
{
    json::list(disk_list(disks))
}

// ---------------------------------------------------------------------------
// Arrays
// ---------------------------------------------------------------------------

/// The fields of the progress of a sync.
pub open spec fn sync_fields(s: SyncSummary) -> Fields {
    let f: Fields = Seq::empty();
    let f = f.push(("action"@, JsonView::Text(s.action@)));
    let f = f.push(("percent"@, or_null(decimal_value(s.percent))));
    let f = f.push(("finish_min"@, or_null(decimal_value(s.finish_min))));
    f
}

/// The progress of a sync, as an object.
pub open spec fn sync_object(s: SyncSummary) -> JsonView {
    JsonView::Object(sync_fields(s))
}

fn sync_json(s: &SyncSummary) -> (j: Json)
    ensures
        j@ == sync_object(*s),
{
    let mut f: Vec<(String, Json)> = Vec::new();
    assert(json::pairs(f@) =~= Seq::empty());
    json::put(&mut f, "action", json::string(s.action.as_str()));
    json::put(&mut f, "percent", decimal_or_null(s.percent));
    json::put(&mut f, "finish_min", decimal_or_null(s.finish_min));
    json::object(f)
}

/// The progress of a sync, where there is one.
pub open spec fn sync_value(v: Option<SyncSummary>) -> Option<JsonView> {
    match v {
        Some(v) => Some(sync_object(v)),
        None => None,
    }
}

fn sync_or_null(v: &Option<SyncSummary>) -> (r: Json)
    ensures
        r@ == or_null(sync_value(*v)),
{
    match v {
        Some(v) => sync_json(v),
        None => Json::Null,
    }
}

fn put_known_sync(fields: &mut Vec<(String, Json)>, key: &str, v: &Option<SyncSummary>)
    ensures
        json::pairs(final(fields)@) == known(json::pairs(old(fields)@), key@, sync_value(*v)),
{
    match v {
        Some(v) => json::put(fields, key, sync_json(v)),
        None => {},
    }
}

/// The fields of a member of an array.
pub open spec fn member_fields(m: MemberStatus) -> Fields {
    let f: Fields = Seq::empty();
    let f = f.push(("name"@, JsonView::Text(m.name@)));
    let f = f.push(("role"@, or_null(role_value(m.role))));
    let f = f.push(("faulty"@, JsonView::Bool(m.faulty)));
    let f = f.push(("spare"@, JsonView::Bool(m.spare)));
    let f = f.push(("write_mostly"@, JsonView::Bool(m.write_mostly)));
    let f = f.push(("replacement"@, JsonView::Bool(m.replacement)));
    f
}

/// A member of an array, as an object.
pub open spec fn member_object(m: MemberStatus) -> JsonView {
    JsonView::Object(member_fields(m))
}

fn member_json(m: &MemberStatus) -> (j: Json)
    ensures
        j@ == member_object(*m),
{
    let mut f: Vec<(String, Json)> = Vec::new();
    assert(json::pairs(f@) =~= Seq::empty());
    json::put(&mut f, "name", json::string(m.name.as_str()));
    json::put(&mut f, "role", role_or_null(m.role));
    json::put(&mut f, "faulty", Json::Bool(m.faulty));
    json::put(&mut f, "spare", Json::Bool(m.spare));
    json::put(&mut f, "write_mostly", Json::Bool(m.write_mostly));
    json::put(&mut f, "replacement", Json::Bool(m.replacement));
    json::object(f)
}

/// The objects of a list.
pub open spec fn member_objects(list: Seq<MemberStatus>) -> Seq<JsonView> {
    list.map_values(|m: MemberStatus| member_object(m))
}

fn member_list(list: &Vec<MemberStatus>) -> (r: Vec<Json>)
    ensures
        json::trees(r@) == member_objects(list@),
{
    let mut values: Vec<Json> = Vec::new();
    let mut i: usize = 0;
    while i < list.len()
        invariant
            i <= list.len(),
            json::trees(values@) =~= member_objects(list@).take(i as int),
        decreases list.len() - i,
    {
        let value = member_json(&list[i]);
        let ghost before = values@;
        values.push(value);
        assert(json::trees(values@) =~= json::trees(before).push(value@));
        i = i + 1;
    }
    assert(member_objects(list@).take(i as int) =~= member_objects(list@));
    values
}

/// The fields of an array.
pub open spec fn array_fields(a: ArrayStatus) -> Fields {
    let f: Fields = Seq::empty();
    let f = f.push(("name"@, JsonView::Text(a.name@)));
    let f = f.push(("level"@, or_null(text_value(a.level))));
    let f = f.push(("state"@, JsonView::Text(a.state@)));
    let f = f.push(("read_only"@, JsonView::Bool(a.read_only)));
    let f = f.push(("degraded"@, JsonView::Bool(a.degraded)));
    let f = f.push(("raid_disks"@, or_null(count_value(a.raid_disks))));
    let f = f.push(("active_disks"@, or_null(count_value(a.active_disks))));
    let f = f.push(("members"@, JsonView::List(json::text_values(text::views(a.members@)))));
    let f = f.push(("member_states"@, JsonView::List(member_objects(a.member_states@))));
    let f = f.push(("sync"@, or_null(sync_value(a.sync))));
    f
}

/// An array, as an object.
pub open spec fn array_object(a: ArrayStatus) -> JsonView {
    JsonView::Object(array_fields(a))
}

fn array_json(a: &ArrayStatus) -> (j: Json)
    ensures
        j@ == array_object(*a),
{
    let mut f: Vec<(String, Json)> = Vec::new();
    assert(json::pairs(f@) =~= Seq::empty());
    json::put(&mut f, "name", json::string(a.name.as_str()));
    json::put(&mut f, "level", text_or_null(&a.level));
    json::put(&mut f, "state", json::string(a.state.as_str()));
    json::put(&mut f, "read_only", Json::Bool(a.read_only));
    json::put(&mut f, "degraded", Json::Bool(a.degraded));
    json::put(&mut f, "raid_disks", count_or_null(a.raid_disks));
    json::put(&mut f, "active_disks", count_or_null(a.active_disks));
    json::put(&mut f, "members", json::strings(a.members.as_slice()));
    json::put(&mut f, "member_states", json::list(member_list(&a.member_states)));
    json::put(&mut f, "sync", sync_or_null(&a.sync));
    json::object(f)
}

/// The objects of a list.
pub open spec fn array_objects(list: Seq<ArrayStatus>) -> Seq<JsonView> {
    list.map_values(|a: ArrayStatus| array_object(a))
}

fn array_list(list: &Vec<ArrayStatus>) -> (r: Vec<Json>)
    ensures
        json::trees(r@) == array_objects(list@),
{
    let mut values: Vec<Json> = Vec::new();
    let mut i: usize = 0;
    while i < list.len()
        invariant
            i <= list.len(),
            json::trees(values@) =~= array_objects(list@).take(i as int),
        decreases list.len() - i,
    {
        let value = array_json(&list[i]);
        let ghost before = values@;
        values.push(value);
        assert(json::trees(values@) =~= json::trees(before).push(value@));
        i = i + 1;
    }
    assert(array_objects(list@).take(i as int) =~= array_objects(list@));
    values
}

// ---------------------------------------------------------------------------
// Groups
// ---------------------------------------------------------------------------

/// The fields of an error check that ended.
pub open spec fn scrub_fields(s: ScrubSummary) -> Fields {
    let f: Fields = Seq::empty();
    let f = f.push(("finished_at"@, JsonView::Text(s.finished_at@)));
    let f = f.push(("outcome"@, JsonView::Text(scrub_outcome_word(s.outcome))));
    let f = f.push(("error_count"@, JsonView::Number(s.error_count as int)));
    f
}

/// An error check that ended, as an object.
pub open spec fn scrub_object(s: ScrubSummary) -> JsonView {
    JsonView::Object(scrub_fields(s))
}

fn scrub_json(s: &ScrubSummary) -> (j: Json)
    ensures
        j@ == scrub_object(*s),
{
    let mut f: Vec<(String, Json)> = Vec::new();
    assert(json::pairs(f@) =~= Seq::empty());
    json::put(&mut f, "finished_at", json::string(s.finished_at.as_str()));
    json::put(&mut f, "outcome", json::string(scrub_outcome_name(s.outcome)));
    json::put(&mut f, "error_count", Json::Number(s.error_count));
    json::object(f)
}

/// An error check that ended, where there is one.
pub open spec fn scrub_value(v: Option<ScrubSummary>) -> Option<JsonView> {
    match v {
        Some(v) => Some(scrub_object(v)),
        None => None,
    }
}

fn put_known_scrub(fields: &mut Vec<(String, Json)>, key: &str, v: &Option<ScrubSummary>)
    ensures
        json::pairs(final(fields)@) == known(json::pairs(old(fields)@), key@, scrub_value(*v)),
{
    match v {
        Some(v) => json::put(fields, key, scrub_json(v)),
        None => {},
    }
}

/// The fields of a band of a group.
pub open spec fn band_fields(b: GroupBandStatus) -> Fields {
    let f: Fields = Seq::empty();
    let f = f.push(("index"@, JsonView::Number(b.index as int)));
    let f = f.push(("level"@, JsonView::Text(b.level@)));
    let f = f.push(("md_name"@, JsonView::Text(b.md_name@)));
    let f = known(f, "md_uuid"@, text_value(b.md_uuid));
    let f = f.push(("usable_bytes"@, JsonView::Number(b.usable_bytes as int)));
    let f = f.push(("resize_pending"@, JsonView::Bool(b.resize_pending)));
    let f = filled(f, "members"@, json::text_values(text::views(b.members@)));
    let f = filled(f, "member_states"@, member_objects(b.member_states@));
    let f = known(f, "sync"@, sync_value(b.sync));
    let f = known(f, "last_scrub"@, scrub_value(b.last_scrub));
    let f = known(f, "sync_speed_kb"@, number_value(b.sync_speed_kb));
    let f = known(f, "sync_speed_min_kb"@, number_value(b.sync_speed_min_kb));
    let f = known(f, "sync_speed_max_kb"@, number_value(b.sync_speed_max_kb));
    let f = known(f, "sync_priority"@, text_value(b.sync_priority));
    let f = known(f, "sync_capability_kb"@, number_value(b.sync_capability_kb));
    let f = known(f, "sync_capability_observed_at"@, text_value(b.sync_capability_observed_at));
    let f = known(f, "last_throttle_decision"@, text_value(b.last_throttle_decision));
    let f = known(f, "last_throttle_reason"@, text_value(b.last_throttle_reason));
    let f = known(f, "last_throttle_speed_kb"@, number_value(b.last_throttle_speed_kb));
    let f = f.push(("scrub_in_progress"@, JsonView::Bool(b.scrub_in_progress)));
    let f = known(f, "pending_member_removal"@, text_value(b.pending_member_removal));
    f
}

/// A band of a group, as an object.
pub open spec fn band_object(b: GroupBandStatus) -> JsonView {
    JsonView::Object(band_fields(b))
}

fn band_json(b: &GroupBandStatus) -> (j: Json)
    ensures
        j@ == band_object(*b),
{
    let mut f: Vec<(String, Json)> = Vec::new();
    assert(json::pairs(f@) =~= Seq::empty());
    json::put(&mut f, "index", Json::Number(b.index as u64));
    json::put(&mut f, "level", json::string(b.level.as_str()));
    json::put(&mut f, "md_name", json::string(b.md_name.as_str()));
    put_known_text(&mut f, "md_uuid", &b.md_uuid);
    json::put(&mut f, "usable_bytes", Json::Number(b.usable_bytes));
    json::put(&mut f, "resize_pending", Json::Bool(b.resize_pending));
    put_filled_texts(&mut f, "members", &b.members);
    put_filled(&mut f, "member_states", member_list(&b.member_states));
    put_known_sync(&mut f, "sync", &b.sync);
    put_known_scrub(&mut f, "last_scrub", &b.last_scrub);
    put_known_number(&mut f, "sync_speed_kb", b.sync_speed_kb);
    put_known_number(&mut f, "sync_speed_min_kb", b.sync_speed_min_kb);
    put_known_number(&mut f, "sync_speed_max_kb", b.sync_speed_max_kb);
    put_known_text(&mut f, "sync_priority", &b.sync_priority);
    put_known_number(&mut f, "sync_capability_kb", b.sync_capability_kb);
    put_known_text(&mut f, "sync_capability_observed_at", &b.sync_capability_observed_at);
    put_known_text(&mut f, "last_throttle_decision", &b.last_throttle_decision);
    put_known_text(&mut f, "last_throttle_reason", &b.last_throttle_reason);
    put_known_number(&mut f, "last_throttle_speed_kb", b.last_throttle_speed_kb);
    json::put(&mut f, "scrub_in_progress", Json::Bool(b.scrub_in_progress));
    put_known_text(&mut f, "pending_member_removal", &b.pending_member_removal);
    json::object(f)
}

/// The objects of a list.
pub open spec fn band_objects(list: Seq<GroupBandStatus>) -> Seq<JsonView> {
    list.map_values(|b: GroupBandStatus| band_object(b))
}

fn band_list(list: &Vec<GroupBandStatus>) -> (r: Vec<Json>)
    ensures
        json::trees(r@) == band_objects(list@),
{
    let mut values: Vec<Json> = Vec::new();
    let mut i: usize = 0;
    while i < list.len()
        invariant
            i <= list.len(),
            json::trees(values@) =~= band_objects(list@).take(i as int),
        decreases list.len() - i,
    {
        let value = band_json(&list[i]);
        let ghost before = values@;
        values.push(value);
        assert(json::trees(values@) =~= json::trees(before).push(value@));
        i = i + 1;
    }
    assert(band_objects(list@).take(i as int) =~= band_objects(list@));
    values
}

/// The fields of a group.
pub open spec fn group_fields(g: GroupStatus) -> Fields {
    let f: Fields = Seq::empty();
    let f = f.push(("name"@, JsonView::Text(g.name@)));
    let f = f.push(("mode"@, JsonView::Text(g.mode@)));
    let f = f.push(("layout_version"@, JsonView::Number(g.layout_version as int)));
    let f = f.push(("mount_point"@, JsonView::Text(g.mount_point@)));
    let f = f.push(("fs_uuid"@, or_null(text_value(g.fs_uuid))));
    let f = f.push(("vg_name"@, JsonView::Text(g.vg_name@)));
    let f = f.push(("lv_name"@, JsonView::Text(g.lv_name@)));
    let f = f.push(("compression"@, JsonView::Text(g.compression@)));
    let f = f.push(("usable_bytes"@, JsonView::Number(g.usable_bytes as int)));
    let f = f.push(("resize_pending"@, JsonView::Bool(g.resize_pending)));
    let f = f.push(("disks"@, JsonView::List(json::text_values(text::views(g.disks@)))));
    let f = f.push(("bands"@, JsonView::List(band_objects(g.bands@))));
    f
}

/// A group, as an object.
pub open spec fn group_object(g: GroupStatus) -> JsonView {
    JsonView::Object(group_fields(g))
}

fn group_json(g: &GroupStatus) -> (j: Json)
    ensures
        j@ == group_object(*g),
{
    let mut f: Vec<(String, Json)> = Vec::new();
    assert(json::pairs(f@) =~= Seq::empty());
    json::put(&mut f, "name", json::string(g.name.as_str()));
    json::put(&mut f, "mode", json::string(g.mode.as_str()));
    json::put(&mut f, "layout_version", Json::Number(g.layout_version as u64));
    json::put(&mut f, "mount_point", json::string(g.mount_point.as_str()));
    json::put(&mut f, "fs_uuid", text_or_null(&g.fs_uuid));
    json::put(&mut f, "vg_name", json::string(g.vg_name.as_str()));
    json::put(&mut f, "lv_name", json::string(g.lv_name.as_str()));
    json::put(&mut f, "compression", json::string(g.compression.as_str()));
    json::put(&mut f, "usable_bytes", Json::Number(g.usable_bytes));
    json::put(&mut f, "resize_pending", Json::Bool(g.resize_pending));
    json::put(&mut f, "disks", json::strings(g.disks.as_slice()));
    json::put(&mut f, "bands", json::list(band_list(&g.bands)));
    json::object(f)
}

/// The objects of a list.
pub open spec fn group_objects(list: Seq<GroupStatus>) -> Seq<JsonView> {
    list.map_values(|g: GroupStatus| group_object(g))
}

fn group_list(list: &Vec<GroupStatus>) -> (r: Vec<Json>)
    ensures
        json::trees(r@) == group_objects(list@),
{
    let mut values: Vec<Json> = Vec::new();
    let mut i: usize = 0;
    while i < list.len()
        invariant
            i <= list.len(),
            json::trees(values@) =~= group_objects(list@).take(i as int),
        decreases list.len() - i,
    {
        let value = group_json(&list[i]);
        let ghost before = values@;
        values.push(value);
        assert(json::trees(values@) =~= json::trees(before).push(value@));
        i = i + 1;
    }
    assert(group_objects(list@).take(i as int) =~= group_objects(list@));
    values
}

// ---------------------------------------------------------------------------
// The status
// ---------------------------------------------------------------------------

/// The fields of the status.
pub open spec fn status_fields(r: StatusReport) -> Fields {
    let f: Fields = Seq::empty();
    let f = f.push(("schema_version"@, JsonView::Number(r.schema_version as int)));
    let f = f.push(("health"@, JsonView::Text(health_json_word(r.health))));
    let f = f.push(("disks"@, JsonView::List(disk_objects(r.disks@))));
    let f = f.push(("arrays"@, JsonView::List(array_objects(r.arrays@))));
    let f = f.push(("groups"@, JsonView::List(group_objects(r.groups@))));
    let f = known(f, "state_path"@, text_value(r.state_path));
    f
}

/// The status, as an object.
pub open spec fn status_object(r: StatusReport) -> JsonView {
    JsonView::Object(status_fields(r))
}

/// The status as JSON.
pub fn status_json(r: &StatusReport) -> (j: Json)
    ensures
        j@ == status_object(*r),
{
    let mut f: Vec<(String, Json)> = Vec::new();
    assert(json::pairs(f@) =~= Seq::empty());
    json::put(&mut f, "schema_version", Json::Number(r.schema_version as u64));
    json::put(&mut f, "health", json::string(health_name(r.health)));
    json::put(&mut f, "disks", json::list(disk_list(&r.disks)));
    json::put(&mut f, "arrays", json::list(array_list(&r.arrays)));
    json::put(&mut f, "groups", json::list(group_list(&r.groups)));
    put_known_text(&mut f, "state_path", &r.state_path);
    json::object(f)
}

// ---------------------------------------------------------------------------
// Filesystems
// ---------------------------------------------------------------------------

/// The fields of how full a filesystem is.
pub open spec fn usage_fields(g: GroupDfStatus) -> Fields {
    let f: Fields = Seq::empty();
    let f = f.push(("name"@, JsonView::Text(g.name@)));
    let f = f.push(("mount_point"@, JsonView::Text(g.mount_point@)));
    let f = f.push(("usable_bytes"@, JsonView::Number(g.usable_bytes as int)));
    let f = f.push(("data_used_bytes"@, or_null(number_value(g.data_used_bytes))));
    let f = f.push(("data_total_bytes"@, or_null(number_value(g.data_total_bytes))));
    let f = f.push(("metadata_used_bytes"@, or_null(number_value(g.metadata_used_bytes))));
    let f = f.push(("metadata_total_bytes"@, or_null(number_value(g.metadata_total_bytes))));
    let f = f.push(("unallocated_bytes"@, or_null(number_value(g.unallocated_bytes))));
    let f = f.push(("statvfs_avail_bytes"@, or_null(number_value(g.statvfs_avail_bytes))));
    f
}

/// How full a filesystem is, as an object.
pub open spec fn usage_object(g: GroupDfStatus) -> JsonView {
    JsonView::Object(usage_fields(g))
}

fn usage_json(g: &GroupDfStatus) -> (j: Json)
    ensures
        j@ == usage_object(*g),
{
    let mut f: Vec<(String, Json)> = Vec::new();
    assert(json::pairs(f@) =~= Seq::empty());
    json::put(&mut f, "name", json::string(g.name.as_str()));
    json::put(&mut f, "mount_point", json::string(g.mount_point.as_str()));
    json::put(&mut f, "usable_bytes", Json::Number(g.usable_bytes));
    json::put(&mut f, "data_used_bytes", number_or_null(g.data_used_bytes));
    json::put(&mut f, "data_total_bytes", number_or_null(g.data_total_bytes));
    json::put(&mut f, "metadata_used_bytes", number_or_null(g.metadata_used_bytes));
    json::put(&mut f, "metadata_total_bytes", number_or_null(g.metadata_total_bytes));
    json::put(&mut f, "unallocated_bytes", number_or_null(g.unallocated_bytes));
    json::put(&mut f, "statvfs_avail_bytes", number_or_null(g.statvfs_avail_bytes));
    json::object(f)
}

/// The objects of a list.
pub open spec fn usage_objects(list: Seq<GroupDfStatus>) -> Seq<JsonView> {
    list.map_values(|g: GroupDfStatus| usage_object(g))
}

fn usage_list(list: &Vec<GroupDfStatus>) -> (r: Vec<Json>)
    ensures
        json::trees(r@) == usage_objects(list@),
{
    let mut values: Vec<Json> = Vec::new();
    let mut i: usize = 0;
    while i < list.len()
        invariant
            i <= list.len(),
            json::trees(values@) =~= usage_objects(list@).take(i as int),
        decreases list.len() - i,
    {
        let value = usage_json(&list[i]);
        let ghost before = values@;
        values.push(value);
        assert(json::trees(values@) =~= json::trees(before).push(value@));
        i = i + 1;
    }
    assert(usage_objects(list@).take(i as int) =~= usage_objects(list@));
    values
}

/// The fields of how full the filesystems are.
pub open spec fn fs_df_fields(r: FsDfReport) -> Fields {
    let f: Fields = Seq::empty();
    let f = f.push(("schema_version"@, JsonView::Number(r.schema_version as int)));
    let f = f.push(("groups"@, JsonView::List(usage_objects(r.groups@))));
    f
}

/// How full the filesystems are, as an object.
pub open spec fn fs_df_object(r: FsDfReport) -> JsonView {
    JsonView::Object(fs_df_fields(r))
}

/// How full the filesystems are as JSON.
pub fn fs_df_json(r: &FsDfReport) -> (j: Json)
    ensures
        j@ == fs_df_object(*r),
{
    let mut f: Vec<(String, Json)> = Vec::new();
    assert(json::pairs(f@) =~= Seq::empty());
    json::put(&mut f, "schema_version", Json::Number(r.schema_version as u64));
    json::put(&mut f, "groups", json::list(usage_list(&r.groups)));
    json::object(f)
}

// ---------------------------------------------------------------------------
// Plans
// ---------------------------------------------------------------------------

/// The fields of a band of a plan.
pub open spec fn plan_band_fields(b: BandReport) -> Fields {
    let f: Fields = Seq::empty();
    let f = f.push(("index"@, JsonView::Number(b.index as int)));
    let f = f.push(("level"@, JsonView::Text(b.level@)));
    let f = f.push(("size"@, JsonView::Number(b.size as int)));
    let f = f.push(("members"@, JsonView::List(json::text_values(text::views(b.members@)))));
    let f = f.push(("usable"@, JsonView::Number(b.usable as int)));
    let f = f.push(("raw"@, JsonView::Number(b.raw as int)));
    f
}

/// A band of a plan, as an object.
pub open spec fn plan_band_object(b: BandReport) -> JsonView {
    JsonView::Object(plan_band_fields(b))
}

fn plan_band_json(b: &BandReport) -> (j: Json)
    ensures
        j@ == plan_band_object(*b),
{
    let mut f: Vec<(String, Json)> = Vec::new();
    assert(json::pairs(f@) =~= Seq::empty());
    json::put(&mut f, "index", Json::Number(b.index as u64));
    json::put(&mut f, "level", json::string(b.level.as_str()));
    json::put(&mut f, "size", Json::Number(b.size));
    json::put(&mut f, "members", json::strings(b.members.as_slice()));
    json::put(&mut f, "usable", Json::Number(b.usable));
    json::put(&mut f, "raw", Json::Number(b.raw));
    json::object(f)
}

/// The objects of a list.
pub open spec fn plan_band_objects(list: Seq<BandReport>) -> Seq<JsonView> {
    list.map_values(|b: BandReport| plan_band_object(b))
}

fn plan_band_list(list: &Vec<BandReport>) -> (r: Vec<Json>)
    ensures
        json::trees(r@) == plan_band_objects(list@),
{
    let mut values: Vec<Json> = Vec::new();
    let mut i: usize = 0;
    while i < list.len()
        invariant
            i <= list.len(),
            json::trees(values@) =~= plan_band_objects(list@).take(i as int),
        decreases list.len() - i,
    {
        let value = plan_band_json(&list[i]);
        let ghost before = values@;
        values.push(value);
        assert(json::trees(values@) =~= json::trees(before).push(value@));
        i = i + 1;
    }
    assert(plan_band_objects(list@).take(i as int) =~= plan_band_objects(list@));
    values
}

/// The fields of what the capacity of a plan is spent on.
pub open spec fn metrics_fields(m: MetricsReport) -> Fields {
    let f: Fields = Seq::empty();
    let f = f.push(("total_usable"@, JsonView::Number(m.total_usable as int)));
    let f = f.push(("total_raw"@, JsonView::Number(m.total_raw as int)));
    let f = f.push(("redundancy_overhead"@, JsonView::Number(m.redundancy_overhead as int)));
    let f = f.push(("stranded_bytes"@, JsonView::Number(m.stranded_bytes as int)));
    let f = f.push(("waste_ratio"@, ratio_value(m.waste_ratio)));
    let f = f.push(("utilization"@, JsonView::Object(ratio_fields(m.utilization@))));
    f
}

/// What the capacity of a plan is spent on, as an object.
pub open spec fn metrics_object(m: MetricsReport) -> JsonView {
    JsonView::Object(metrics_fields(m))
}

fn metrics_json(m: &MetricsReport) -> (j: Json)
    ensures
        j@ == metrics_object(*m),
{
    let mut f: Vec<(String, Json)> = Vec::new();
    assert(json::pairs(f@) =~= Seq::empty());
    json::put(&mut f, "total_usable", Json::Number(m.total_usable));
    json::put(&mut f, "total_raw", Json::Number(m.total_raw));
    json::put(&mut f, "redundancy_overhead", Json::Number(m.redundancy_overhead));
    json::put(&mut f, "stranded_bytes", Json::Number(m.stranded_bytes));
    json::put(&mut f, "waste_ratio", ratio_json(m.waste_ratio));
    json::put(&mut f, "utilization", ratios_json(&m.utilization));
    json::object(f)
}

/// The fields of a plan.
pub open spec fn plan_fields(r: PlanReport) -> Fields {
    let f: Fields = Seq::empty();
    let f = f.push(("schema_version"@, JsonView::Number(r.schema_version as int)));
    let f = f.push(("mode"@, JsonView::Text(r.mode@)));
    let f = f.push(("bands"@, JsonView::List(plan_band_objects(r.bands@))));
    let f = f.push(("metrics"@, metrics_object(r.metrics)));
    let f = f.push(("unusable_per_disk"@, JsonView::Object(amount_fields(r.unusable_per_disk@))));
    let f = f.push(("warnings"@, JsonView::List(json::text_values(text::views(r.warnings@)))));
    f
}

/// A plan, as an object.
pub open spec fn plan_object(r: PlanReport) -> JsonView {
    JsonView::Object(plan_fields(r))
}

/// A plan as JSON.
pub fn plan_json(r: &PlanReport) -> (j: Json)
    ensures
        j@ == plan_object(*r),
{
    let mut f: Vec<(String, Json)> = Vec::new();
    assert(json::pairs(f@) =~= Seq::empty());
    json::put(&mut f, "schema_version", Json::Number(r.schema_version as u64));
    json::put(&mut f, "mode", json::string(r.mode.as_str()));
    json::put(&mut f, "bands", json::list(plan_band_list(&r.bands)));
    json::put(&mut f, "metrics", metrics_json(&r.metrics));
    json::put(&mut f, "unusable_per_disk", amounts_json(&r.unusable_per_disk));
    json::put(&mut f, "warnings", json::strings(r.warnings.as_slice()));
    json::object(f)
}

// ---------------------------------------------------------------------------
// Laws
// ---------------------------------------------------------------------------

/// Whether no field has the key.
spec fn absent(fields: Fields, key: Seq<char>) -> bool {
    json::field(fields, key) is None
}

broadcast proof fn lemma_push_spares(f: Fields, k: Seq<char>, v: JsonView, key: Seq<char>)
    requires
        absent(f, key),
        k != key,
    ensures
        #[trigger] absent(f.push((k, v)), key),
{
    assert(f.push((k, v)).drop_last() =~= f);
}

broadcast proof fn lemma_known_spares(
    f: Fields,
    k: Seq<char>,
    v: Option<JsonView>,
    key: Seq<char>,
)
    requires
        absent(f, key),
        k != key,
    ensures
        #[trigger] absent(known(f, k, v), key),
{
    if let Some(v) = v {
        lemma_push_spares(f, k, v, key);
    }
}

broadcast proof fn lemma_filled_spares(
    f: Fields,
    k: Seq<char>,
    list: Seq<JsonView>,
    key: Seq<char>,
)
    requires
        absent(f, key),
        k != key,
    ensures
        #[trigger] absent(filled(f, k, list), key),
{
    if list.len() > 0 {
        lemma_push_spares(f, k, JsonView::List(list), key);
    }
}

/// A member that is queued for removal is in the JSON of its band, under its
/// own key; where none is, the key is missing, not null.
pub proof fn a_pending_removal_is_told_exactly_where_there_is_one(b: GroupBandStatus)
    ensures
        json::field(band_fields(b), "pending_member_removal"@) == text_value(
            b.pending_member_removal,
        ),
{
    broadcast use {lemma_push_spares, lemma_known_spares, lemma_filled_spares};

    reveal_strlit("index");
    reveal_strlit("level");
    reveal_strlit("md_name");
    reveal_strlit("md_uuid");
    reveal_strlit("usable_bytes");
    reveal_strlit("resize_pending");
    reveal_strlit("members");
    reveal_strlit("member_states");
    reveal_strlit("sync");
    reveal_strlit("last_scrub");
    reveal_strlit("sync_speed_kb");
    reveal_strlit("sync_speed_min_kb");
    reveal_strlit("sync_speed_max_kb");
    reveal_strlit("sync_priority");
    reveal_strlit("sync_capability_kb");
    reveal_strlit("sync_capability_observed_at");
    reveal_strlit("last_throttle_decision");
    reveal_strlit("last_throttle_reason");
    reveal_strlit("last_throttle_speed_kb");
    reveal_strlit("scrub_in_progress");
    reveal_strlit("pending_member_removal");
    if let Some(name) = b.pending_member_removal {
        assert(band_fields(b).last().0 == "pending_member_removal"@);
    } else {
        let key = "pending_member_removal"@;
        assert("index"@.len() != key.len());
        assert("level"@.len() != key.len());
        assert("md_name"@.len() != key.len());
        assert("md_uuid"@.len() != key.len());
        assert("usable_bytes"@.len() != key.len());
        assert("resize_pending"@.len() != key.len());
        assert("members"@.len() != key.len());
        assert("member_states"@.len() != key.len());
        assert("sync"@.len() != key.len());
        assert("last_scrub"@.len() != key.len());
        assert("sync_speed_kb"@.len() != key.len());
        assert("sync_speed_min_kb"@.len() != key.len());
        assert("sync_speed_max_kb"@.len() != key.len());
        assert("sync_priority"@.len() != key.len());
        assert("sync_capability_kb"@.len() != key.len());
        assert("sync_capability_observed_at"@.len() != key.len());
        assert("last_throttle_decision"@[0] != key[0]);
        assert("last_throttle_reason"@.len() != key.len());
        assert("last_throttle_speed_kb"@[0] != key[0]);
        assert("scrub_in_progress"@.len() != key.len());
        assert(absent(band_fields(b), key));
    }
}

/// The path of the state file is in the JSON of a status exactly where the
/// status has it; where it has none, the key is missing, not null.
pub proof fn the_state_path_is_told_exactly_where_it_is_known(r: StatusReport)
    ensures
        json::field(status_fields(r), "state_path"@) == text_value(r.state_path),
{
    broadcast use {lemma_push_spares, lemma_known_spares, lemma_filled_spares};

    reveal_strlit("schema_version");
    reveal_strlit("health");
    reveal_strlit("disks");
    reveal_strlit("arrays");
    reveal_strlit("groups");
    reveal_strlit("state_path");
    if let Some(path) = r.state_path {
        assert(status_fields(r).last().0 == "state_path"@);
    } else {
        let key = "state_path"@;
        assert("schema_version"@.len() != key.len());
        assert("health"@.len() != key.len());
        assert("disks"@.len() != key.len());
        assert("arrays"@.len() != key.len());
        assert("groups"@.len() != key.len());
        assert(absent(status_fields(r), key));
    }
}

/// Every status tells the version of its schema.
pub proof fn every_status_tells_its_schema(r: StatusReport)
    ensures
        status_fields(r)[0] == ("schema_version"@, JsonView::Number(r.schema_version as int)),
{
}

} // verus!
