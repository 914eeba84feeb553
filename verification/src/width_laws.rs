//! Laws on the width of rendered lines: no name, however long, and no number,
//! however large, widens the layout diagram; and no list is cut that fits.

use vstd::prelude::*;
use crate::band::BandView;
use crate::detail::MEMBERS_WIDTH;
use crate::diagram;
use crate::diagram::{DIAGRAM_BAR_WIDTH, DIAGRAM_LABEL_WIDTH};
use crate::figures;
use crate::planner::PlanView;
use crate::render;
use crate::text;

verus! {

/// The least number with more than `k` decimal digits.
spec fn ten_to(k: nat) -> nat
    decreases k,
{
    if k == 0 {
        1
    } else {
        10 * ten_to((k - 1) as nat)
    }
}

proof fn lemma_dec_len(n: nat, k: nat)
    requires
        k >= 1,
        n < ten_to(k),
    ensures
        1 <= text::dec(n).len() <= k,
    decreases n,
{
    if n >= 10 {
        if k == 1 {
            reveal_with_fuel(ten_to, 2);
        } else {
            lemma_dec_len(n / 10, (k - 1) as nat);
        }
    }
}

proof fn lemma_ten_to_values()
    ensures
        ten_to(1) == 10,
        ten_to(3) == 1000,
        ten_to(5) == 100000,
        ten_to(20) == 100000000000000000000,
{
    reveal_with_fuel(ten_to, 21);
}

/// A shown byte count is at most ten characters long.
pub proof fn byte_counts_are_short(bytes: nat)
    requires
        bytes <= u64::MAX,
    ensures
        figures::bytes_text(bytes).len() <= 10,
{
    lemma_ten_to_values();
    let b = figures::to_double(bytes);
    if b < 1000 {
        reveal_strlit(" B");
        figures::lemma_small_double(bytes);
        lemma_dec_len(bytes, 3);
    } else {
        let unit = figures::unit_of(b);
        let q = figures::quotient(b, unit.0);
        let tenths = figures::scaled(10 * q.m, q);
        figures::lemma_shown_tenths(bytes);
        lemma_dec_len(tenths / 10, 5);
        lemma_dec_len(tenths % 10, 1);
        reveal_strlit(".");
        reveal_strlit(" ");
        reveal_strlit("PB");
        reveal_strlit("TB");
        reveal_strlit("GB");
        reveal_strlit("MB");
        reveal_strlit("KB");
    }
}

proof fn lemma_fitting(items: Seq<Seq<char>>, k: nat, width: nat)
    ensures
        ({
            let n = render::fitting(items, k, width);
            &&& n == 1 || (n <= k && render::cut_text(items, n).len() <= width)
            &&& n >= 1
            &&& forall|more: nat|
                n < more <= k ==> (#[trigger] render::cut_text(items, more)).len() > width
        }),
    decreases k,
{
    if k > 1 {
        lemma_fitting(items, (k - 1) as nat, width);
    }
}

/// A list that fits is shown whole. One that does not is cut: what is shown
/// fits, unless it is the first item alone, and with any more items it would
/// not fit.
pub proof fn as_many_items_are_shown_as_fit(items: Seq<Seq<char>>, width: nat)
    ensures
        text::joined(items, ", "@).len() <= width ==> render::bounded_join(items, width)
            == text::joined(items, ", "@),
        text::joined(items, ", "@).len() > width && items.len() > 1 ==> {
            let n = render::fitting(items, (items.len() - 1) as nat, width);
            &&& 1 <= n < items.len()
            &&& render::bounded_join(items, width) == render::cut_text(items, n)
            &&& n == 1 || render::cut_text(items, n).len() <= width
            &&& forall|more: nat|
                n < more < items.len() ==> (#[trigger] render::cut_text(items, more)).len() > width
        },
{
    if items.len() > 1 {
        lemma_fitting(items, (items.len() - 1) as nat, width);
    }
}

/// A bounded list of short items keeps to its width.
proof fn lemma_bounded_join(items: Seq<Seq<char>>)
    requires
        items.len() <= u64::MAX,
        forall|k: int|
            0 <= k < items.len() ==> (#[trigger] items[k]).len() <= DIAGRAM_LABEL_WIDTH,
    ensures
        render::bounded_join(items, MEMBERS_WIDTH as nat).len() <= MEMBERS_WIDTH,
{
    if items.len() == 1 {
        assert(items[0].len() <= DIAGRAM_LABEL_WIDTH);
    } else if items.len() > 1 {
        reveal_strlit(" +");
        reveal_strlit(" more");
        lemma_ten_to_values();
        lemma_dec_len((items.len() - 1) as nat, 20);
        assert(items.take(1)[0] == items[0]);
        lemma_fitting(items, (items.len() - 1) as nat, MEMBERS_WIDTH as nat);
    }
}

proof fn lemma_label_len(id: Seq<char>)
    ensures
        diagram::label_text(id).len() <= DIAGRAM_LABEL_WIDTH,
{
    reveal_strlit(">");
}

proof fn lemma_legend_len(b: BandView)
    requires
        b.members.len() <= u64::MAX,
    ensures
        diagram::legend_row(b).len() <= 100,
{
    let labels = diagram::label_texts(b.members);
    assert forall|k: int| 0 <= k < labels.len() implies (#[trigger] labels[k]).len()
        <= DIAGRAM_LABEL_WIDTH by {
        lemma_label_len(b.members[k]);
    }
    lemma_bounded_join(labels);
    lemma_ten_to_values();
    lemma_dec_len(b.index as nat, 3);
    reveal_strlit("  band");
    reveal_strlit("members: ");
    reveal_strlit("raid1");
    reveal_strlit("raid5");
    reveal_strlit("raid6");
}

proof fn lemma_drive_row_len(p: PlanView, d: (Seq<char>, u64), max: u64)
    ensures
        diagram::drive_row(p, d, max).len() <= 100,
{
    lemma_label_len(d.0);
    byte_counts_are_short(d.1 as nat);
    diagram::disk_bar_is_exact(p, d.0, d.1, max, DIAGRAM_BAR_WIDTH as nat);
    reveal_strlit("  ");
    reveal_strlit("  [");
    reveal_strlit("]");
}

/// No line of the layout diagram is wider than 100 columns, however many disks
/// there are and however long their names.
pub proof fn diagram_lines_are_bounded(drives: Seq<(Seq<char>, u64)>, p: PlanView, i: int)
    requires
        forall|k: int|
            0 <= k < p.bands.len() ==> (#[trigger] p.bands[k]).members.len() <= u64::MAX,
        0 <= i < diagram::diagram_lines(drives, p).len(),
    ensures
        diagram::diagram_lines(drives, p)[i].len() <= 100,
{
    reveal_strlit("Layout diagram (DRY RUN)");
    reveal_strlit("");
    reveal_strlit("  # data   + parity   . stranded (no redundancy)   ~ reserved/alignment");
    let max = diagram::largest(drives);
    let rows = diagram::drive_rows(p, drives, max);
    let n = 4 + rows.len();
    if 4 <= i < n {
        lemma_drive_row_len(p, drives[i - 4], max);
    } else if i > n {
        lemma_legend_len(p.bands[i - n - 1]);
    }
}

} // verus!
