//! What the bars show: every column stands for its share of the bytes, and has
//! the mark of what those bytes are used for.

use vstd::prelude::*;
use crate::band::BandView;
use crate::diagram;
use crate::figures;
use crate::plan_view;
use crate::planner::PlanView;
use crate::raid::RaidLevel;
use crate::render;
use crate::table;
use crate::text;

verus! {

/// Whether `part` bytes of `total` fill the column `i` of `width`.
pub open spec fn fills(part: int, total: int, width: int, i: int) -> bool {
    (i + 1) * total <= part * width
}

/// As many columns are marked as the part fills whole.
pub proof fn columns_are_filled_whole(part: nat, total: nat, width: nat, i: nat)
    requires
        total > 0,
    ensures
        i < plan_view::column(part, total, width) <==> fills(
            part as int,
            total as int,
            width as int,
            i as int,
        ),
{
    let c = plan_view::column(part, total, width);
    let x = part * width;
    vstd::arithmetic::div_mod::lemma_fundamental_div_mod(x as int, total as int);
    vstd::arithmetic::div_mod::lemma_mod_bound(x as int, total as int);
    let r = x % total;
    assert(x == total * c + r);
    if i < c {
        assert((i + 1) * total <= total * c) by (nonlinear_arith)
            requires
                i + 1 <= c,
                total > 0,
        ;
    } else {
        assert((i + 1) * total >= total * c + total) by (nonlinear_arith)
            requires
                i >= c,
                total > 0,
        ;
    }
}

/// The bar of a plan's capacity: a column is marked as usable, as parity or as
/// stranded where the usable bytes, those with the parity, or those with what is
/// stranded too fill it, and is blank otherwise.
pub proof fn the_capacity_bar_shows_each_share(
    usable: u64,
    parity: u64,
    stranded: u64,
    total: u64,
    width: nat,
    i: int,
)
    requires
        total > 0,
        0 <= i < width,
        usable + parity + stranded <= u64::MAX,
    ensures
        ({
            let c = plan_view::capacity_bar_text(usable, parity, stranded, total, width)[i];
            let w = width as int;
            let t = total as int;
            &&& c == '#' <==> fills(usable as int, t, w, i)
            &&& c == '+' <==> !fills(usable as int, t, w, i) && fills(usable + parity, t, w, i)
            &&& c == '.' <==> !fills(usable as int, t, w, i) && !fills(usable + parity, t, w, i)
                && fills(usable + parity + stranded, t, w, i)
            &&& c == ' ' <==> !fills(usable as int, t, w, i) && !fills(usable + parity, t, w, i)
                && !fills(usable + parity + stranded, t, w, i)
        }),
{
    columns_are_filled_whole(usable as nat, total as nat, width, i as nat);
    columns_are_filled_whole((usable + parity) as nat, total as nat, width, i as nat);
    columns_are_filled_whole((usable + parity + stranded) as nat, total as nat, width, i as nat);
}

// ---------------------------------------------------------------------------
// The bar of a disk
// ---------------------------------------------------------------------------

/// Whether bands tile the disks: each ends where the next one starts, and its
/// data ends inside.
pub open spec fn tiled(bands: Seq<BandView>) -> bool {
    &&& forall|j: int, k: int|
        0 <= j < k < bands.len() ==> (#[trigger] bands[j]).end() <= (#[trigger] bands[k]).offset
    &&& forall|j: int|
        0 <= j < bands.len() ==> (#[trigger] bands[j]).offset <= diagram::data_end(bands[j])
            <= bands[j].end()
}

/// Where the data of a band ends on each of its members: a mirror keeps half of
/// a pair, one parity all but one share, two all but two.
pub proof fn data_ends_where_redundancy_begins(b: BandView)
    requires
        b.members.len() > 0,
    ensures
        b.level == RaidLevel::Raid1 ==> diagram::data_end(b) == b.offset + (b.size as nat)
            / b.members.len(),
        b.level == RaidLevel::Raid5 ==> diagram::data_end(b) == b.offset + (b.size * (
        b.members.len() - 1)) / (b.members.len() as int),
        b.level == RaidLevel::Raid6 && b.members.len() >= 2 ==> diagram::data_end(b) == b.offset + (
        b.size * (b.members.len() - 2)) / (b.members.len() as int),
{
}

/// The column at which a position on a disk begins.
pub open spec fn col(x: nat, max: nat, width: nat) -> nat {
    plan_view::column(x, max, width)
}

proof fn lemma_col_monotone(x: nat, y: nat, max: nat, width: nat)
    requires
        x <= y,
        max > 0,
    ensures
        col(x, max, width) <= col(y, max, width),
{
    assert(x * width <= y * width) by (nonlinear_arith)
        requires
            x <= y,
    ;
    vstd::arithmetic::div_mod::lemma_div_is_ordered(
        (x * width) as int,
        (y * width) as int,
        max as int,
    );
}

/// Whether the column `i` lies on the data of one of the first `n` bands that
/// the disk belongs to.
pub open spec fn on_data(
    bands: Seq<BandView>,
    n: nat,
    id: Seq<char>,
    max: nat,
    width: nat,
    i: int,
) -> bool {
    exists|k: int|
        0 <= k < n && (#[trigger] bands[k]).members.contains(id) && col(
            bands[k].offset as nat,
            max,
            width,
        ) <= i < col(diagram::data_end(bands[k]), max, width)
}

/// Whether it lies on the redundancy of one of them.
pub open spec fn on_redundancy(
    bands: Seq<BandView>,
    n: nat,
    id: Seq<char>,
    max: nat,
    width: nat,
    i: int,
) -> bool {
    exists|k: int|
        0 <= k < n && (#[trigger] bands[k]).members.contains(id) && col(
            diagram::data_end(bands[k]),
            max,
            width,
        ) <= i < col(bands[k].end() as nat, max, width)
}

proof fn lemma_banded(
    bands: Seq<BandView>,
    n: nat,
    id: Seq<char>,
    max: nat,
    width: nat,
    i: int,
)
    requires
        tiled(bands),
        n <= bands.len(),
        max > 0,
        0 <= i < width,
    ensures
        ({
            let drawn = diagram::banded(bands, n, id, max, width);
            &&& drawn.0.len() == width
            &&& drawn.0[i] == '#' <==> on_data(bands, n, id, max, width, i)
            &&& drawn.0[i] == '+' <==> on_redundancy(bands, n, id, max, width, i)
            &&& drawn.0[i] == '#' || drawn.0[i] == '+' || drawn.0[i] == ' '
            &&& drawn.0[i] != ' ' ==> i < col(drawn.1 as nat, max, width)
            &&& forall|k: int|
                0 <= k < n && (#[trigger] bands[k]).members.contains(id) ==> bands[k].end()
                    <= drawn.1
            &&& drawn.1 == 0 || exists|k: int|
                0 <= k < n && (#[trigger] bands[k]).members.contains(id) && bands[k].end()
                    == drawn.1
        }),
    decreases n,
{
    if n > 0 {
        let m = (n - 1) as nat;
        lemma_banded(bands, m, id, max, width, i);
        let below = diagram::banded(bands, m, id, max, width);
        let drawn = diagram::banded(bands, n, id, max, width);
        let b = bands[n - 1];
        let start = col(b.offset as nat, max, width);
        let middle = col(diagram::data_end(b), max, width);
        let end = col(b.end() as nat, max, width);
        lemma_col_monotone(b.offset as nat, diagram::data_end(b), max, width);
        lemma_col_monotone(diagram::data_end(b), b.end() as nat, max, width);
        assert forall|k: int| 0 <= k < m implies col(
            (#[trigger] bands[k]).end() as nat,
            max,
            width,
        ) <= start by {
            assert(bands[k].end() <= bands[n - 1].offset);
            lemma_col_monotone(bands[k].end() as nat, b.offset as nat, max, width);
        }
        if below.1 > 0 {
            let k = choose|k: int|
                0 <= k < m && (#[trigger] bands[k]).members.contains(id) && bands[k].end()
                    == below.1;
            assert(bands[k].end() <= bands[n - 1].offset);
        }
        lemma_col_monotone(below.1 as nat, b.offset as nat, max, width);
        if on_data(bands, m, id, max, width, i) {
            let k = choose|k: int|
                0 <= k < m && (#[trigger] bands[k]).members.contains(id) && col(
                    bands[k].offset as nat,
                    max,
                    width,
                ) <= i < col(diagram::data_end(bands[k]), max, width);
            lemma_col_monotone(diagram::data_end(bands[k]), bands[k].end() as nat, max, width);
            assert(0 <= k < n);
            assert(on_data(bands, n, id, max, width, i));
        }
        if on_redundancy(bands, m, id, max, width, i) {
            let k = choose|k: int|
                0 <= k < m && (#[trigger] bands[k]).members.contains(id) && col(
                    diagram::data_end(bands[k]),
                    max,
                    width,
                ) <= i < col(bands[k].end() as nat, max, width);
            assert(0 <= k < n);
            assert(on_redundancy(bands, n, id, max, width, i));
        }
        if on_data(bands, n, id, max, width, i) {
            let k = choose|k: int|
                0 <= k < n && (#[trigger] bands[k]).members.contains(id) && col(
                    bands[k].offset as nat,
                    max,
                    width,
                ) <= i < col(diagram::data_end(bands[k]), max, width);
            if k < m {
                assert(on_data(bands, m, id, max, width, i));
                lemma_col_monotone(diagram::data_end(bands[k]), bands[k].end() as nat, max, width);
            }
        }
        if on_redundancy(bands, n, id, max, width, i) {
            let k = choose|k: int|
                0 <= k < n && (#[trigger] bands[k]).members.contains(id) && col(
                    diagram::data_end(bands[k]),
                    max,
                    width,
                ) <= i < col(bands[k].end() as nat, max, width);
            if k < m {
                assert(on_redundancy(bands, m, id, max, width, i));
            }
        }
        if b.members.contains(id) {
            assert(bands[n - 1].members.contains(id) && bands[n - 1].end() == drawn.1);
            if start <= i < middle {
                assert(on_data(bands, n, id, max, width, i));
            }
            if middle <= i < end {
                assert(on_redundancy(bands, n, id, max, width, i));
            }
            assert forall|k: int|
                0 <= k < n && (#[trigger] bands[k]).members.contains(id) implies bands[k].end()
                <= drawn.1 by {
                if k < m {
                    assert(bands[k].end() <= bands[n - 1].offset);
                }
            }
        }
    }
}

/// The bar of a disk, column by column: data and redundancy where a band has
/// them on the disk, then what is stranded above the bands, then what lies
/// outside the grid or the disk's reserves, up to the end of the disk.
pub proof fn the_bar_of_a_disk_shows_its_bands(
    p: PlanView,
    id: Seq<char>,
    size: u64,
    max: u64,
    width: nat,
    i: int,
) -> (top: u64)
    requires
        tiled(p.bands),
        max > 0,
        0 <= i < width,
    ensures
        forall|k: int|
            0 <= k < p.bands.len() && (#[trigger] p.bands[k]).members.contains(id)
                ==> p.bands[k].end() <= top,
        top == 0 || exists|k: int|
            0 <= k < p.bands.len() && (#[trigger] p.bands[k]).members.contains(id)
                && p.bands[k].end() == top,
        ({
            let c = diagram::disk_bar_text(p, id, size, max, width)[i];
            let left = table::entry_or_zero(p.unusable, id) as u64;
            let high = if top + left <= u64::MAX {
                top + left
            } else {
                u64::MAX as int
            };
            let w = width;
            let m = max as nat;
            let n = p.bands.len();
            let outside = col(high as nat, m, w) <= i < col(size as nat, m, w);
            let stranded = col(top as nat, m, w) <= i < col(high as nat, m, w);
            &&& outside ==> c == '~'
            &&& !outside && stranded ==> c == '.'
            &&& !outside && !stranded && on_data(p.bands, n, id, m, w, i) ==> c == '#'
            &&& !outside && !stranded && on_redundancy(p.bands, n, id, m, w, i) ==> c == '+'
            &&& !outside && !stranded && !on_data(p.bands, n, id, m, w, i) && !on_redundancy(
                p.bands,
                n,
                id,
                m,
                w,
                i,
            ) ==> c == ' '
            &&& i < col(top as nat, m, w) ==> !outside && !stranded
        }),
{
    let n = p.bands.len();
    lemma_banded(p.bands, n, id, max as nat, width, i);
    let drawn = diagram::banded(p.bands, n, id, max as nat, width);
    let left = table::entry_or_zero(p.unusable, id) as u64;
    let high = plan_view::capped_sum(drawn.1, left);
    lemma_col_monotone(drawn.1 as nat, high as nat, max as nat, width);
    drawn.1
}

/// The scale of the picture is the size of the largest disk.
pub proof fn the_largest_disk_gives_the_scale(drives: Seq<(Seq<char>, u64)>)
    ensures
        forall|i: int|
            0 <= i < drives.len() ==> (#[trigger] drives[i]).1 <= diagram::largest(drives),
        drives.len() > 0 ==> exists|i: int|
            0 <= i < drives.len() && (#[trigger] drives[i]).1 == diagram::largest(drives),
    decreases drives.len(),
{
    if drives.len() > 0 {
        let head = drives.drop_last();
        the_largest_disk_gives_the_scale(head);
        let top = diagram::largest(drives);
        assert forall|i: int| 0 <= i < drives.len() implies (#[trigger] drives[i]).1 <= top by {
            if i < head.len() {
                assert(head[i].1 <= diagram::largest(head));
            }
        }
        if drives[drives.len() - 1].1 < top {
            if head.len() > 0 {
                let i = choose|i: int|
                    0 <= i < head.len() && (#[trigger] head[i]).1 == diagram::largest(head);
                assert(drives[i].1 == top);
            }
        } else {
            assert(drives[drives.len() - 1].1 == top);
        }
    }
}

/// The picture has a line for every disk, in their order, and one for every
/// band: which level it has and which disks belong to it.
pub proof fn the_picture_leaves_nothing_out(drives: Seq<(Seq<char>, u64)>, p: PlanView)
    ensures
        ({
            let lines = diagram::diagram_lines(drives, p);
            let n = drives.len();
            &&& forall|i: int|
                0 <= i < n ==> lines[4 + i] == "  "@ + text::left_aligned(
                    diagram::label_text((#[trigger] drives[i]).0),
                    14,
                ) + text::right_aligned(figures::bytes_text(drives[i].1 as nat), 10) + "  ["@
                    + diagram::disk_bar_text(
                    p,
                    drives[i].0,
                    drives[i].1,
                    diagram::largest(drives),
                    40,
                ) + "]"@
            &&& forall|k: int|
                0 <= k < p.bands.len() ==> lines[5 + n + k] == "  band"@ + text::left_aligned(
                    text::dec((#[trigger] p.bands[k]).index as nat),
                    3,
                ) + text::left_aligned(
                    match p.bands[k].level {
                        RaidLevel::Raid1 => "raid1"@,
                        RaidLevel::Raid5 => "raid5"@,
                        RaidLevel::Raid6 => "raid6"@,
                    },
                    7,
                ) + "members: "@ + render::bounded_join(
                    p.bands[k].members.map_values(|id: Seq<char>| diagram::label_text(id)),
                    48,
                )
        }),
{
    let lines = diagram::diagram_lines(drives, p);
    let n = drives.len();
    assert forall|k: int| 0 <= k < p.bands.len() implies lines[5 + n + k] == diagram::legend_row(
        #[trigger] p.bands[k],
    ) by {
        let section = diagram::legend_section(p);
        assert(section[1 + k] == diagram::legend_row(p.bands[k]));
        assert(lines[4 + n + 1 + k] == section[1 + k]);
    }
}

} // verus!
