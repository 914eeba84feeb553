//! What stands in the columns of the tables: under each heading the figure or
//! the text that the heading names, as long as the cells keep to their widths.

use vstd::prelude::*;
use crate::detail;
use crate::figures;
use crate::plan_view;
use crate::render;
use crate::report::{
    ArrayStatus, BandReport, DiskStatus, GroupBandStatus, GroupDfStatus, GroupStatus,
};
use crate::text;

verus! {

/// Whether `part` stands in `row` from the place `at`.
pub open spec fn stands_at(row: Seq<char>, at: int, part: Seq<char>) -> bool {
    &&& 0 <= at
    &&& at + part.len() <= row.len()
    &&& row.subrange(at, at + part.len()) =~= part
}

/// Whether `part` stands in `row` so that it ends at the place `end`.
pub open spec fn ends_at(row: Seq<char>, end: int, part: Seq<char>) -> bool {
    stands_at(row, end - part.len(), part)
}

/// A text that is cut keeps its beginning, is no wider than its column, and
/// ends in a mark; one that fits is kept.
pub proof fn cut_texts_keep_their_beginning(s: Seq<char>, width: nat)
    requires
        width > 0,
    ensures
        s.len() <= width ==> render::bounded_text(s, width) == s,
        s.len() > width ==> render::bounded_text(s, width) == s.subrange(0, width - 1).push('>'),
{
    reveal_strlit(">");
    if s.len() > width {
        assert(s.take(width - 1) + ">"@ =~= s.subrange(0, width - 1).push('>'));
    }
}

/// How full a group is: every figure stands under its heading.
#[verifier::rlimit(80)]
pub proof fn df_figures_stand_under_their_headings(g: GroupDfStatus)
    requires
        (render::bounded_text(g.name@, 10)).len() <= 10,
        (render::bounded_text(g.mount_point@, 18)).len() <= 18,
        (figures::bytes_text(g.usable_bytes as nat)).len() <= 10,
        (render::size_text(g.data_used_bytes) + "/"@ + render::size_text(g.data_total_bytes)).len() <= 22,
        (render::size_text(g.metadata_used_bytes) + "/"@ + render::size_text(g.metadata_total_bytes)).len() <= 22,
        (render::size_text(g.unallocated_bytes)).len() <= 10,
        (render::size_text(g.statvfs_avail_bytes)).len() <= 10,
    ensures
        stands_at(render::df_row(g), 2, render::bounded_text(g.name@, 10)),
        stands_at(render::df_row(g), 12, render::bounded_text(g.mount_point@, 18)),
        ends_at(render::df_row(g), 40, figures::bytes_text(g.usable_bytes as nat)),
        ends_at(render::df_row(g), 62, render::size_text(g.data_used_bytes) + "/"@ + render::size_text(g.data_total_bytes)),
        ends_at(render::df_row(g), 84, render::size_text(g.metadata_used_bytes) + "/"@ + render::size_text(g.metadata_total_bytes)),
        ends_at(render::df_row(g), 94, render::size_text(g.unallocated_bytes)),
        ends_at(render::df_row(g), 104, render::size_text(g.statvfs_avail_bytes)),
{
    reveal_strlit("  ");
}

/// The headings over how full the groups are.
#[verifier::rlimit(80)]
pub proof fn df_headings_stand_over_their_figures()
    ensures
        stands_at(render::df_header(), 2, "GROUP"@),
        stands_at(render::df_header(), 12, "MOUNT"@),
        ends_at(render::df_header(), 40, "USABLE"@),
        ends_at(render::df_header(), 62, "DATA (used/total)"@),
        ends_at(render::df_header(), 84, "META (used/total)"@),
        ends_at(render::df_header(), 94, "UNALLOC"@),
        ends_at(render::df_header(), 104, "DF-AVAIL"@),
{
    reveal_strlit("  ");
    reveal_strlit("DATA (used/total)");
    reveal_strlit("DF-AVAIL");
    reveal_strlit("GROUP");
    reveal_strlit("META (used/total)");
    reveal_strlit("MOUNT");
    reveal_strlit("UNALLOC");
    reveal_strlit("USABLE");
}

/// A disk in detail: every figure stands under its heading.
#[verifier::rlimit(80)]
pub proof fn disk_details_stand_under_their_headings(d: DiskStatus)
    requires
        (d.name@).len() <= 10,
        (render::size_text(d.size)).len() <= 10,
        (render::bounded_text(render::opt_text(d.model), 20)).len() <= 20,
        (render::bounded_text(render::opt_text(d.serial), 16)).len() <= 16,
        (render::smart_text(d.smart.state)).len() <= 6,
        (render::temperature_text(d.smart.temperature_c)).len() <= 6,
        (detail::hours_text(d.smart.power_on_hours)).len() <= 9,
        (render::count_text(d.smart.pending_sectors)).len() <= 6,
        (render::count_text(d.smart.reallocated_sectors)).len() <= 8,
        (render::count_text(d.smart.uncorrectable_sectors)).len() <= 8,
    ensures
        stands_at(detail::disk_row(d), 2, d.name@),
        ends_at(detail::disk_row(d), 22, render::size_text(d.size)),
        stands_at(detail::disk_row(d), 24, render::bounded_text(render::opt_text(d.model), 20)),
        stands_at(detail::disk_row(d), 44, render::bounded_text(render::opt_text(d.serial), 16)),
        stands_at(detail::disk_row(d), 60, render::smart_text(d.smart.state)),
        stands_at(detail::disk_row(d), 66, render::temperature_text(d.smart.temperature_c)),
        ends_at(detail::disk_row(d), 81, detail::hours_text(d.smart.power_on_hours)),
        ends_at(detail::disk_row(d), 87, render::count_text(d.smart.pending_sectors)),
        ends_at(detail::disk_row(d), 95, render::count_text(d.smart.reallocated_sectors)),
        ends_at(detail::disk_row(d), 103, render::count_text(d.smart.uncorrectable_sectors)),
{
    reveal_strlit("  ");
}

/// The headings over the disks in detail.
#[verifier::rlimit(80)]
pub proof fn detail_headings_stand_over_their_figures()
    ensures
        stands_at(detail::disk_header(), 2, "NODE"@),
        ends_at(detail::disk_header(), 22, "SIZE"@),
        stands_at(detail::disk_header(), 24, "MODEL"@),
        stands_at(detail::disk_header(), 44, "SERIAL"@),
        stands_at(detail::disk_header(), 60, "SMART"@),
        stands_at(detail::disk_header(), 66, "TEMP"@),
        ends_at(detail::disk_header(), 81, "POWERON"@),
        ends_at(detail::disk_header(), 87, "PEND"@),
        ends_at(detail::disk_header(), 95, "REALLOC"@),
        ends_at(detail::disk_header(), 103, "UNCORR"@),
{
    reveal_strlit("  ");
    reveal_strlit("MODEL");
    reveal_strlit("NODE");
    reveal_strlit("PEND");
    reveal_strlit("POWERON");
    reveal_strlit("REALLOC");
    reveal_strlit("SERIAL");
    reveal_strlit("SIZE");
    reveal_strlit("SMART");
    reveal_strlit("TEMP");
    reveal_strlit("UNCORR");
}

/// A planned band: every figure stands under its heading.
pub proof fn planned_bands_stand_under_their_headings(b: BandReport)
    requires
        (text::dec(b.index as nat)).len() <= 3,
        (b.level@).len() <= 7,
        (figures::bytes_text(b.size as nat)).len() <= 12,
        (text::dec(b.members@.len())).len() <= 8,
        (figures::bytes_text(b.usable as nat)).len() <= 12,
    ensures
        stands_at(plan_view::plan_row(b), 6, text::dec(b.index as nat)),
        stands_at(plan_view::plan_header(), 2, "BAND"@),
        stands_at(plan_view::plan_row(b), 9, b.level@),
        stands_at(plan_view::plan_header(), 9, "LEVEL"@),
        ends_at(plan_view::plan_row(b), 28, figures::bytes_text(b.size as nat)),
        ends_at(plan_view::plan_header(), 28, "SLICE"@),
        ends_at(plan_view::plan_row(b), 36, text::dec(b.members@.len())),
        ends_at(plan_view::plan_header(), 36, "MEMBERS"@),
        ends_at(plan_view::plan_row(b), 48, figures::bytes_text(b.usable as nat)),
        ends_at(plan_view::plan_header(), 48, "USABLE"@),
{
    reveal_strlit("  ");
    reveal_strlit("  band");
    reveal_strlit("BAND");
    reveal_strlit("LEVEL");
    reveal_strlit("MEMBERS");
    reveal_strlit("SLICE");
    reveal_strlit("USABLE");
}

/// A disk in a status: every figure stands in its column, and the arrays behind.
pub proof fn disks_of_a_status_stand_under_their_headings(d: DiskStatus)
    requires
        (d.name@).len() <= 10,
        (render::size_text(d.size)).len() <= 10,
        (render::opt_text(d.model)).len() <= 24,
        (render::smart_text(d.smart.state)).len() <= 10,
        (render::temperature_text(d.smart.temperature_c)).len() <= 8,
    ensures
        stands_at(render::status_disk_row(d), 13, d.name@),
        ends_at(render::status_disk_row(d), 33, render::size_text(d.size)),
        stands_at(render::status_disk_row(d), 35, render::opt_text(d.model)),
        stands_at(render::status_disk_row(d), 59, render::smart_text(d.smart.state)),
        stands_at(render::status_disk_row(d), 69, render::temperature_text(d.smart.temperature_c)),
        stands_at(render::status_disk_row(d), 77, text::joined(text::views(d.arrays@), ","@)),
{
    reveal_strlit("  ");
    reveal_strlit("             ");
}

/// A disk in the list: every figure stands in its column, and the arrays behind.
#[verifier::rlimit(80)]
pub proof fn listed_disks_stand_in_their_columns(d: DiskStatus)
    requires
        (d.name@).len() <= 10,
        (render::opt_text(d.id)).len() <= 26,
        (render::size_text(d.size)).len() <= 10,
        (render::opt_text(d.model)).len() <= 24,
        (render::opt_text(d.serial)).len() <= 16,
        (render::rotation_text(d.rotational)).len() <= 6,
        (if d.system_disk {
                "yes"@
            } else {
                "-"@
            }).len() <= 8,
    ensures
        stands_at(render::inventory_row(d), 13, d.name@),
        stands_at(render::inventory_row(d), 23, render::opt_text(d.id)),
        ends_at(render::inventory_row(d), 59, render::size_text(d.size)),
        stands_at(render::inventory_row(d), 61, render::opt_text(d.model)),
        stands_at(render::inventory_row(d), 85, render::opt_text(d.serial)),
        stands_at(render::inventory_row(d), 101, render::rotation_text(d.rotational)),
        stands_at(render::inventory_row(d), 107, (if d.system_disk {
                "yes"@
            } else {
                "-"@
            })),
        stands_at(render::inventory_row(d), 115, text::joined(text::views(d.arrays@), ","@)),
{
    reveal_strlit("  ");
    reveal_strlit("             ");
}

/// An array: name, level, state and disks stand in their columns, the progress behind.
pub proof fn arrays_stand_in_their_columns(a: ArrayStatus)
    requires
        (a.name@).len() <= 8,
        (render::opt_text(a.level)).len() <= 8,
        (render::array_state_text(a)).len() <= 10,
        (render::array_disks_text(a)).len() <= 8,
    ensures
        stands_at(render::array_cells(a), 0, a.name@),
        stands_at(render::array_cells(a), 8, render::opt_text(a.level)),
        stands_at(render::array_cells(a), 16, render::array_state_text(a)),
        stands_at(render::array_cells(a), 26, render::array_disks_text(a)),
        stands_at(render::array_cells(a), 34, render::array_progress_text(a.sync)),
{
}

/// A group: name, mode, number of disks and capacity stand in their columns, the mount point behind.
pub proof fn groups_stand_in_their_columns(g: GroupStatus)
    requires
        (g.name@).len() <= 10,
        (g.mode@).len() <= 8,
        (text::dec(g.disks@.len())).len() <= 8,
        (figures::bytes_text(g.usable_bytes as nat)).len() <= 10,
    ensures
        stands_at(render::group_cells(g), 0, g.name@),
        stands_at(render::group_cells(g), 10, g.mode@),
        stands_at(render::group_cells(g), 18, text::dec(g.disks@.len())),
        stands_at(render::group_cells(g), 26, figures::bytes_text(g.usable_bytes as nat)),
        stands_at(render::group_cells(g), 36, g.mount_point@),
        stands_at(render::group_cells(g), (36 + (g.mount_point@).len()) as int, render::pending_text(g.resize_pending)),
{
}

/// A band in a status: index, level, array and capacity stand in their columns.
pub proof fn bands_of_a_status_stand_in_their_columns(b: GroupBandStatus)
    requires
        (text::dec(b.index as nat)).len() <= 3,
        (b.level@).len() <= 8,
        (b.md_name@).len() <= 12,
        (figures::bytes_text(b.usable_bytes as nat)).len() <= 12,
    ensures
        stands_at(render::status_band_row(b), 21, text::dec(b.index as nat)),
        stands_at(render::status_band_row(b), 24, b.level@),
        stands_at(render::status_band_row(b), 32, b.md_name@),
        ends_at(render::status_band_row(b), 56, figures::bytes_text(b.usable_bytes as nat)),
        stands_at(render::status_band_row(b), 56, render::pending_text(b.resize_pending)),
        stands_at(render::status_band_row(b), (56 + (render::pending_text(b.resize_pending)).len()) as int, render::unassembled_text(b)),
{
    reveal_strlit("                 band");
}

} // verus!
