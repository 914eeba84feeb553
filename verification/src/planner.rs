//! The initial-layout planner: given a set of disks and a mode, carve them into
//! redundant bands, one slice boundary per distinct usable size.

use vstd::prelude::*;
use crate::band;
use crate::band::{BandError, BandView, RedundantBand};
use crate::disk;
use crate::disk::{Disk, DiskId};
use crate::metrics;
use crate::metrics::{compute_metrics, DistributionMetrics, MetricsView};
use crate::raid;
use crate::raid::RedundancyMode;
use crate::slices;
use crate::table;
use crate::text;

verus! {

/// Default band alignment: 4 GiB.
pub const DEFAULT_BAND_ALIGNMENT: u64 = 4 * 1024 * 1024 * 1024;

/// Default reserved head (partition table + slack): 128 MiB.
pub const DEFAULT_RESERVED_HEAD: u64 = 128 * 1024 * 1024;

/// Default reserved tail (RAID superblock slack): 8 MiB.
pub const DEFAULT_RESERVED_TAIL: u64 = 8 * 1024 * 1024;

/// The most bands that a band index can tell apart.
pub const MAX_BANDS: usize = 256;

/// The disks, the mode, and the grid on which bands are cut.
#[derive(Debug)]
pub struct PlannerInput {
    pub disks: Vec<Disk>,
    pub mode: RedundancyMode,
    pub band_alignment: u64,
    pub reserved_head: u64,
    pub reserved_tail: u64,
}

/// What the planner is asked: which disks of which raw sizes, in what mode,
/// on what grid.
#[verifier::ext_equal]
pub struct InputView {
    pub drives: Seq<(Seq<char>, u64)>,
    pub mode: RedundancyMode,
    pub band_alignment: u64,
    pub reserved_head: u64,
    pub reserved_tail: u64,
}

impl View for PlannerInput {
    type V = InputView;

    open spec fn view(&self) -> InputView {
        InputView {
            drives: disk::drives(self.disks@),
            mode: self.mode,
            band_alignment: self.band_alignment,
            reserved_head: self.reserved_head,
            reserved_tail: self.reserved_tail,
        }
    }
}

impl Clone for PlannerInput {
    fn clone(&self) -> (r: Self)
        ensures
            r@ == self@,
            disk::same_disks(r.disks@, self.disks@),
    {
        PlannerInput {
            disks: disk::copy_disks(self.disks.as_slice()),
            mode: self.mode,
            band_alignment: self.band_alignment,
            reserved_head: self.reserved_head,
            reserved_tail: self.reserved_tail,
        }
    }
}

impl PlannerInput {
    /// Production defaults (4 GiB alignment, reserved head/tail).
    pub fn new(disks: Vec<Disk>, mode: RedundancyMode) -> (r: Self)
        ensures
            r == (PlannerInput {
                disks,
                mode,
                band_alignment: DEFAULT_BAND_ALIGNMENT,
                reserved_head: DEFAULT_RESERVED_HEAD,
                reserved_tail: DEFAULT_RESERVED_TAIL,
            }),
    {
        PlannerInput {
            disks,
            mode,
            band_alignment: DEFAULT_BAND_ALIGNMENT,
            reserved_head: DEFAULT_RESERVED_HEAD,
            reserved_tail: DEFAULT_RESERVED_TAIL,
        }
    }

    /// No reserves, byte-exact alignment: for reasoning and tests where clean
    /// arithmetic matters.
    pub fn exact(disks: Vec<Disk>, mode: RedundancyMode) -> (r: Self)
        ensures
            r == (PlannerInput {
                disks,
                mode,
                band_alignment: 1,
                reserved_head: 0,
                reserved_tail: 0,
            }),
    {
        PlannerInput { disks, mode, band_alignment: 1, reserved_head: 0, reserved_tail: 0 }
    }
}

/// A remark on capacity that a plan leaves unused.
#[derive(Debug, PartialEq, Eq)]
pub enum PlannerWarning {
    /// A slice had members, but too few to be redundant in this mode.
    TooFewForBand { offset: u64, size: u64, members: usize, needed: usize },
    /// A disk has non-redundant capacity stranded at its tail.
    UnusableTail { disk: DiskId, bytes: u64 },
}

/// What a [`PlannerWarning`] says.
pub enum WarningView {
    TooFewForBand { offset: u64, size: u64, members: usize, needed: usize },
    UnusableTail { disk: Seq<char>, bytes: u64 },
}

impl View for PlannerWarning {
    type V = WarningView;

    open spec fn view(&self) -> WarningView {
        match *self {
            PlannerWarning::TooFewForBand {
                offset,
                size,
                members,
                needed,
            } => WarningView::TooFewForBand { offset, size, members, needed },
            PlannerWarning::UnusableTail { disk, bytes } => WarningView::UnusableTail {
                disk: disk@,
                bytes,
            },
        }
    }
}

/// A planned layout.
#[derive(Debug)]
pub struct PlannerOutput {
    pub bands: Vec<RedundantBand>,
    /// Capacity that no band uses, per disk, in the order of the identifiers.
    pub unusable_per_disk: Vec<(DiskId, u64)>,
    pub metrics: DistributionMetrics,
    pub warnings: Vec<PlannerWarning>,
}

/// What a [`PlannerOutput`] says.
#[verifier::ext_equal]
pub struct PlanView {
    pub bands: Seq<BandView>,
    pub unusable: Seq<(Seq<char>, u64)>,
    pub metrics: MetricsView,
    pub warnings: Seq<WarningView>,
}

/// The views of a list of warnings.
pub open spec fn warning_views(list: Seq<PlannerWarning>) -> Seq<WarningView> {
    list.map_values(|w: PlannerWarning| w@)
}

impl View for PlannerOutput {
    type V = PlanView;

    open spec fn view(&self) -> PlanView {
        PlanView {
            bands: band::band_views(self.bands@),
            unusable: table::entries(self.unusable_per_disk@),
            metrics: self.metrics@,
            warnings: warning_views(self.warnings@),
        }
    }
}

/// Why no layout or no expansion could be planned.
#[derive(Debug, PartialEq, Eq)]
pub enum PlanError {
    TooFewDisks { got: usize, min: usize },
    NoRedundantCapacity,
    InvalidSnapshot(String),
    UnsafeExpansion(String),
    LayoutVersionOverflow,
    TooManyBands { index: usize },
    Band(BandError),
}

/// What a [`PlanError`] says.
pub enum PlanFault {
    TooFewDisks { got: usize, min: usize },
    NoRedundantCapacity,
    InvalidSnapshot(Seq<char>),
    UnsafeExpansion(Seq<char>),
    LayoutVersionOverflow,
    TooManyBands { index: usize },
    Band(BandError),
}

impl View for PlanError {
    type V = PlanFault;

    open spec fn view(&self) -> PlanFault {
        match *self {
            PlanError::TooFewDisks { got, min } => PlanFault::TooFewDisks { got, min },
            PlanError::NoRedundantCapacity => PlanFault::NoRedundantCapacity,
            PlanError::InvalidSnapshot(why) => PlanFault::InvalidSnapshot(why@),
            PlanError::UnsafeExpansion(why) => PlanFault::UnsafeExpansion(why@),
            PlanError::LayoutVersionOverflow => PlanFault::LayoutVersionOverflow,
            PlanError::TooManyBands { index } => PlanFault::TooManyBands { index },
            PlanError::Band(e) => PlanFault::Band(e),
        }
    }
}

/// The sentence that describes a [`PlanError`].
pub open spec fn plan_fault_text(e: PlanFault) -> Seq<char> {
    match e {
        PlanFault::TooFewDisks { got, min } => "too few disks: got "@ + text::dec(got as nat)
            + ", mode requires at least "@ + text::dec(min as nat),
        PlanFault::NoRedundantCapacity => "no redundant band could be formed from the given disks"@,
        PlanFault::InvalidSnapshot(why) => "invalid current layout snapshot: "@ + why,
        PlanFault::UnsafeExpansion(why) => "expansion would be unsafe: "@ + why,
        PlanFault::LayoutVersionOverflow => "layout version would overflow u64"@,
        PlanFault::TooManyBands { index } => "layout would need band_index "@ + text::dec(
            index as nat,
        ) + ", which does not fit in u8 (max 255)"@,
        PlanFault::Band(e) => band::band_error_text(e),
    }
}

impl PlanError {
    /// A sentence that describes the error.
    pub fn message(&self) -> (out: String)
        ensures
            out@ == plan_fault_text(self@),
    {
        match self {
            PlanError::TooFewDisks { got, min } => {
                let mut out = "too few disks: got ".to_owned();
                text::append_decimal(&mut out, *got as u64);
                out.append(", mode requires at least ");
                text::append_decimal(&mut out, *min as u64);
                out
            },
            PlanError::NoRedundantCapacity => "no redundant band could be formed from the given disks".to_owned(),
            PlanError::InvalidSnapshot(why) => {
                let mut out = "invalid current layout snapshot: ".to_owned();
                out.append(why.as_str());
                out
            },
            PlanError::UnsafeExpansion(why) => {
                let mut out = "expansion would be unsafe: ".to_owned();
                out.append(why.as_str());
                out
            },
            PlanError::LayoutVersionOverflow => "layout version would overflow u64".to_owned(),
            PlanError::TooManyBands { index } => {
                let mut out = "layout would need band_index ".to_owned();
                text::append_decimal(&mut out, *index as u64);
                out.append(", which does not fit in u8 (max 255)");
                out
            },
            PlanError::Band(e) => e.message(),
        }
    }
}

impl From<BandError> for PlanError {
    fn from(e: BandError) -> (r: Self) {
        PlanError::Band(e)
    }
}

impl vstd::std_specs::convert::FromSpecImpl<BandError> for PlanError {
    open spec fn obeys_from_spec() -> bool {
        true
    }

    open spec fn from_spec(e: BandError) -> Self {
        PlanError::Band(e)
    }
}

// ---------------------------------------------------------------------------
// The layout that belongs to a set of disks
// ---------------------------------------------------------------------------

/// The greatest multiple of `align` that is at most `value`.
pub open spec fn aligned(value: u64, align: u64) -> u64 {
    if align <= 1 {
        value
    } else {
        (value - value % align) as u64
    }
}

/// How much of a disk of `size` bytes lies between the reserves, on the grid.
pub open spec fn usable_len(size: u64, head: u64, tail: u64, align: u64) -> u64 {
    aligned(
        metrics::less(metrics::less(size as nat, head as nat), tail as nat) as u64,
        align,
    )
}

/// Each disk with the length up to which bands can use it.
pub open spec fn reaches(input: InputView) -> Seq<(Seq<char>, u64)> {
    input.drives.map_values(
        |d: (Seq<char>, u64)|
            (
                d.0,
                usable_len(
                    d.1,
                    input.reserved_head,
                    input.reserved_tail,
                    input.band_alignment,
                ),
            ),
    )
}

/// The order of disks by length, then by identifier.
pub open spec fn shorter(a: (Seq<char>, u64), b: (Seq<char>, u64)) -> bool {
    a.1 < b.1 || (a.1 == b.1 && text::before(a.0, b.0))
}

/// `list` with `e` put in its place.
pub open spec fn placed(list: Seq<(Seq<char>, u64)>, e: (Seq<char>, u64)) -> Seq<(Seq<char>, u64)>
    decreases list.len(),
{
    if list.len() > 0 && shorter(e, list.last()) {
        placed(list.drop_last(), e).push(list.last())
    } else {
        list.push(e)
    }
}

/// `list` from the shortest to the longest.
pub open spec fn by_length(list: Seq<(Seq<char>, u64)>) -> Seq<(Seq<char>, u64)>
    decreases list.len(),
{
    if list.len() == 0 {
        Seq::empty()
    } else {
        placed(by_length(list.drop_last()), list.last())
    }
}

/// The lengths that occur in `list` above `low` and up to `high`, without the
/// repetitions of neighbours.
pub open spec fn cuts(list: Seq<(Seq<char>, u64)>, low: u64, high: u64) -> Seq<u64>
    decreases list.len(),
{
    if list.len() == 0 {
        Seq::empty()
    } else {
        let c = cuts(list.drop_last(), low, high);
        let x = list.last().1;
        if low < x <= high && (c.len() == 0 || c.last() != x) {
            c.push(x)
        } else {
            c
        }
    }
}

/// The disks of `list` that reach at least up to `end`.
pub open spec fn reaching(list: Seq<(Seq<char>, u64)>, end: u64) -> Seq<(Seq<char>, u64)> {
    list.filter(|e: (Seq<char>, u64)| e.1 >= end)
}

/// The identifiers of `list`.
pub open spec fn names(list: Seq<(Seq<char>, u64)>) -> Seq<Seq<char>> {
    list.map_values(|e: (Seq<char>, u64)| e.0)
}

/// Up to where bands can be redundant: the length that the mode's least
/// number of disks reach together.
pub open spec fn redundant_top(sorted: Seq<(Seq<char>, u64)>, mode: RedundancyMode) -> u64 {
    sorted[sorted.len() - raid::mode_floor(mode)].1
}

/// Where the slice that ends at `ends[i]` starts, for slices that follow one
/// another from `base`.
pub open spec fn slice_start(ends: Seq<u64>, base: u64, i: int) -> u64 {
    if i == 0 {
        base
    } else {
        ends[i - 1]
    }
}

/// The band that ends at `ends[i]`.
pub open spec fn band_at(
    sorted: Seq<(Seq<char>, u64)>,
    mode: RedundancyMode,
    ends: Seq<u64>,
    i: int,
) -> BandView {
    let start = slice_start(ends, 0, i);
    let members = names(reaching(sorted, ends[i]));
    BandView {
        index: i as u8,
        offset: start,
        size: (ends[i] - start) as u64,
        members,
        level: raid::mode_level(mode, members.len())->0,
    }
}

/// One band for each end.
pub open spec fn bands_for(
    sorted: Seq<(Seq<char>, u64)>,
    mode: RedundancyMode,
    ends: Seq<u64>,
) -> Seq<BandView> {
    Seq::new(ends.len(), |i: int| band_at(sorted, mode, ends, i))
}

/// What each disk of `list` has above `top`.
pub open spec fn tails(list: Seq<(Seq<char>, u64)>, top: u64) -> Seq<(Seq<char>, u64)>
    decreases list.len(),
{
    if list.len() == 0 {
        Seq::empty()
    } else {
        let e = list.last();
        if e.1 > top {
            table::stored(tails(list.drop_last(), top), e.0, (e.1 - top) as u64)
        } else {
            tails(list.drop_last(), top)
        }
    }
}

/// A warning for each of the first `n` slices above `base` that has several
/// members.
pub open spec fn slice_warnings(
    sorted: Seq<(Seq<char>, u64)>,
    mode: RedundancyMode,
    ends: Seq<u64>,
    base: u64,
    n: nat,
) -> Seq<WarningView>
    decreases n,
{
    if n == 0 {
        Seq::empty()
    } else {
        let i = n - 1;
        let earlier = slice_warnings(sorted, mode, ends, base, i as nat);
        let members = reaching(sorted, ends[i]).len();
        if members >= 2 {
            let start = slice_start(ends, base, i);
            earlier.push(
                WarningView::TooFewForBand {
                    offset: start,
                    size: (ends[i] - start) as u64,
                    members: members as usize,
                    needed: raid::mode_floor(mode) as usize,
                },
            )
        } else {
            earlier
        }
    }
}

/// A warning for each entry of a table of unused capacity.
pub open spec fn tail_warnings(unusable: Seq<(Seq<char>, u64)>) -> Seq<WarningView> {
    unusable.map_values(
        |e: (Seq<char>, u64)| WarningView::UnusableTail { disk: e.0, bytes: e.1 },
    )
}

/// The layout over disks of which `sorted` is the list by length.
pub open spec fn layout(input: InputView, sorted: Seq<(Seq<char>, u64)>) -> PlanView {
    let top = redundant_top(sorted, input.mode);
    let bands = bands_for(sorted, input.mode, cuts(sorted, 0, top));
    let above = cuts(sorted, top, u64::MAX);
    let unusable = tails(sorted, top);
    PlanView {
        bands,
        unusable,
        metrics: metrics::metrics(input.drives, bands),
        warnings: slice_warnings(sorted, input.mode, above, top, above.len()) + tail_warnings(
            unusable,
        ),
    }
}

/// The initial layout for `input`, or why there is none.
pub open spec fn plan(input: InputView) -> Result<PlanView, PlanFault> {
    let floor = raid::mode_floor(input.mode);
    let sorted = by_length(reaches(input));
    if input.drives.len() < floor {
        Err(PlanFault::TooFewDisks { got: input.drives.len() as usize, min: floor as usize })
    } else {
        let ends = cuts(sorted, 0, redundant_top(sorted, input.mode));
        if ends.len() == 0 {
            Err(PlanFault::NoRedundantCapacity)
        } else if !names(reaching(sorted, ends[0])).no_duplicates() {
            Err(PlanFault::Band(BandError::DuplicateMember))
        } else if ends.len() > MAX_BANDS {
            Err(PlanFault::TooManyBands { index: MAX_BANDS })
        } else {
            Ok(layout(input, sorted))
        }
    }
}

/// Whether an outcome of the planner is the one that a model gives.
pub open spec fn plan_outcome(
    r: Result<PlannerOutput, PlanError>,
    model: Result<PlanView, PlanFault>,
) -> bool {
    match (r, model) {
        (Ok(o), Ok(v)) => o@ == v,
        (Err(e), Err(f)) => e@ == f,
        _ => false,
    }
}

// ---------------------------------------------------------------------------
// Planning
// ---------------------------------------------------------------------------

/// Rounding down to the grid gives a point of it, and leaves less than one
/// unit behind.
pub proof fn lemma_aligned(value: u64, align: u64)
    ensures
        aligned(value, align) <= value,
        align <= 1 ==> aligned(value, align) == value,
        align > 1 ==> aligned(value, align) % align == 0 && value - aligned(value, align) < align
            && aligned(value, align) == value - value % align,
{
    if align > 1 {
        let v = value as int;
        let a = align as int;
        vstd::arithmetic::div_mod::lemma_mod_decreases(value as nat, align as nat);
        vstd::arithmetic::div_mod::lemma_fundamental_div_mod(v, a);
        vstd::arithmetic::div_mod::lemma_mod_multiples_basic(v / a, a);
        vstd::arithmetic::mul::lemma_mul_is_commutative(a, v / a);
        assert(aligned(value, align) == (v / a) * a);
    }
}

fn align_down(value: u64, align: u64) -> (r: u64)
    ensures
        r == aligned(value, align),
        r <= value,
        align <= 1 ==> r == value,
        align > 1 ==> r % align == 0 && value - r < align,
{
    if align <= 1 {
        value
    } else {
        proof {
            lemma_aligned(value, align);
        }
        value - (value % align)
    }
}

/// Puts an entry in its place in a list by length.
fn place(list: &mut Vec<(DiskId, u64)>, id: DiskId, len: u64)
    ensures
        table::entries(final(list)@) == placed(table::entries(old(list)@), (id@, len)),
{
    let ghost start = table::entries(list@);
    let ghost e = (id@, len);
    let mut at: usize = list.len();
    assert(start.take(at as int) =~= start);
    assert(placed(start, e) =~= placed(start.take(at as int), e) + start.skip(at as int));
    while at > 0 && (len < list[at - 1].1 || (len == list[at - 1].1 && text::precedes(
        id.as_str(),
        list[at - 1].0.as_str(),
    )))
        invariant
            at <= list.len(),
            start == table::entries(list@),
            e == (id@, len),
            placed(start, e) == placed(start.take(at as int), e) + start.skip(at as int),
        decreases at,
    {
        proof {
            let head = start.take(at as int);
            assert(head.drop_last() =~= start.take(at - 1));
            assert(head.last() == start[at - 1]);
            assert(placed(head.drop_last(), e).push(head.last()) + start.skip(at as int) =~= placed(
                head.drop_last(),
                e,
            ) + start.skip(at - 1));
        }
        at = at - 1;
    }
    proof {
        if at > 0 {
            assert(start.take(at as int).last() == start[at - 1]);
        }
    }
    list.insert(at, (id, len));
    assert(table::entries(list@) =~= start.take(at as int).push(e) + start.skip(at as int));
}

/// Each disk with its usable length after reserves and alignment, by length
/// and then by identifier.
fn sorted_reaches(input: &PlannerInput) -> (r: Vec<(DiskId, u64)>)
    ensures
        table::entries(r@) == by_length(reaches(input@)),
{
    let ghost all = reaches(input@);
    let mut r: Vec<(DiskId, u64)> = Vec::new();
    let mut i: usize = 0;
    assert(all.take(0) =~= Seq::empty());
    assert(table::entries(r@) =~= Seq::empty());
    while i < input.disks.len()
        invariant
            i <= input.disks.len(),
            all == reaches(input@),
            table::entries(r@) == by_length(all.take(i as int)),
        decreases input.disks.len() - i,
    {
        let d = &input.disks[i];
        let raw: u64 = d.size_bytes.saturating_sub(input.reserved_head).saturating_sub(
            input.reserved_tail,
        );
        let len: u64 = align_down(raw, input.band_alignment);
        place(&mut r, d.id.clone(), len);
        proof {
            assert(all.take(i + 1).drop_last() =~= all.take(i as int));
            assert(all.take(i + 1).last() == (d.id@, len));
        }
        i = i + 1;
    }
    assert(all.take(i as int) =~= all);
    r
}

/// The slice boundaries above `low` and up to `high`.
fn cut_points(sorted: &Vec<(DiskId, u64)>, low: u64, high: u64) -> (r: Vec<u64>)
    ensures
        r@ == cuts(table::entries(sorted@), low, high),
{
    let ghost all = table::entries(sorted@);
    let mut r: Vec<u64> = Vec::new();
    let mut i: usize = 0;
    assert(all.take(0) =~= Seq::empty());
    while i < sorted.len()
        invariant
            i <= sorted.len(),
            all == table::entries(sorted@),
            r@ == cuts(all.take(i as int), low, high),
        decreases sorted.len() - i,
    {
        let x: u64 = sorted[i].1;
        proof {
            assert(all.take(i + 1).drop_last() =~= all.take(i as int));
        }
        if low < x && x <= high && (r.len() == 0 || r[r.len() - 1] != x) {
            r.push(x);
        }
        i = i + 1;
    }
    assert(all.take(i as int) =~= all);
    r
}

/// The identifiers of the disks that reach at least up to `end`.
fn reaching_ids(sorted: &Vec<(DiskId, u64)>, end: u64) -> (r: Vec<DiskId>)
    ensures
        disk::ids(r@) == names(reaching(table::entries(sorted@), end)),
        r@.len() == reaching(table::entries(sorted@), end).len(),
{
    let ghost all = table::entries(sorted@);
    let mut r: Vec<DiskId> = Vec::new();
    let mut i: usize = 0;
    proof {
        reveal(Seq::filter);
        assert(all.take(0) =~= Seq::empty());
        assert(disk::ids(r@) =~= names(reaching(all.take(0), end)));
    }
    while i < sorted.len()
        invariant
            i <= sorted.len(),
            all == table::entries(sorted@),
            disk::ids(r@) == names(reaching(all.take(i as int), end)),
        decreases sorted.len() - i,
    {
        let ghost so_far = r@;
        if sorted[i].1 >= end {
            r.push(sorted[i].0.clone());
        }
        proof {
            reveal(Seq::filter);
            let more = all.take(i + 1);
            assert(more.drop_last() =~= all.take(i as int));
            assert(more.last() == all[i as int]);
            if sorted@[i as int].1 >= end {
                assert(disk::ids(r@) =~= disk::ids(so_far).push(all[i as int].0));
                assert(names(reaching(more, end)) =~= names(reaching(all.take(i as int), end)).push(
                    all[i as int].0,
                ));
            }
        }
        i = i + 1;
    }
    assert(all.take(i as int) =~= all);
    assert(disk::ids(r@).len() == r@.len());
    r
}

/// What each disk has above `top`.
fn stranded_tails(sorted: &Vec<(DiskId, u64)>, top: u64) -> (r: Vec<(DiskId, u64)>)
    ensures
        table::entries(r@) == tails(table::entries(sorted@), top),
{
    let ghost all = table::entries(sorted@);
    let mut r: Vec<(DiskId, u64)> = Vec::new();
    let mut i: usize = 0;
    assert(all.take(0) =~= Seq::empty());
    assert(table::entries(r@) =~= Seq::empty());
    while i < sorted.len()
        invariant
            i <= sorted.len(),
            all == table::entries(sorted@),
            table::entries(r@) == tails(all.take(i as int), top),
        decreases sorted.len() - i,
    {
        proof {
            assert(all.take(i + 1).drop_last() =~= all.take(i as int));
            assert(all.take(i + 1).last() == all[i as int]);
        }
        let len: u64 = sorted[i].1;
        if len > top {
            table::store(&mut r, sorted[i].0.clone(), len - top);
        }
        i = i + 1;
    }
    assert(all.take(i as int) =~= all);
    r
}

/// The remarks on what lies above `top`: slices with too few members, then
/// the unused tail of each disk.
fn warnings_above(
    sorted: &Vec<(DiskId, u64)>,
    mode: RedundancyMode,
    top: u64,
    unusable: &Vec<(DiskId, u64)>,
) -> (r: Vec<PlannerWarning>)
    requires
        slices::in_order(table::entries(sorted@)),
    ensures
        ({
            let s = table::entries(sorted@);
            let above = cuts(s, top, u64::MAX);
            warning_views(r@) == slice_warnings(s, mode, above, top, above.len()) + tail_warnings(
                table::entries(unusable@),
            )
        }),
{
    let ghost s = table::entries(sorted@);
    let above = cut_points(sorted, top, u64::MAX);
    let mut r: Vec<PlannerWarning> = Vec::new();
    let mut i: usize = 0;
    assert(warning_views(r@) =~= Seq::empty());
    while i < above.len()
        invariant
            i <= above.len(),
            s == table::entries(sorted@),
            slices::in_order(s),
            above@ == cuts(s, top, u64::MAX),
            warning_views(r@) == slice_warnings(s, mode, above@, top, i as nat),
        decreases above.len() - i,
    {
        let ghost so_far = r@;
        let start: u64 = if i == 0 {
            top
        } else {
            above[i - 1]
        };
        proof {
            slices::lemma_cuts(s, top, u64::MAX);
            if i > 0 {
                assert(above@[i - 1] < above@[i as int]);
            }
        }
        let members = reaching_ids(sorted, above[i]);
        if members.len() >= 2 {
            r.push(
                PlannerWarning::TooFewForBand {
                    offset: start,
                    size: above[i] - start,
                    members: members.len(),
                    needed: mode.min_members_per_band(),
                },
            );
            assert(warning_views(r@) =~= warning_views(so_far).push(r@.last()@));
        }
        i = i + 1;
    }
    let ghost first = warning_views(r@);
    let ghost rest = tail_warnings(table::entries(unusable@));
    let mut j: usize = 0;
    assert(first + rest.take(0) =~= first);
    while j < unusable.len()
        invariant
            j <= unusable.len(),
            rest == tail_warnings(table::entries(unusable@)),
            warning_views(r@) == first + rest.take(j as int),
        decreases unusable.len() - j,
    {
        let ghost so_far = r@;
        r.push(
            PlannerWarning::UnusableTail { disk: unusable[j].0.clone(), bytes: unusable[j].1 },
        );
        assert(warning_views(r@) =~= warning_views(so_far).push(rest[j as int]));
        assert(first + rest.take(j + 1) =~= (first + rest.take(j as int)).push(rest[j as int]));
        j = j + 1;
    }
    assert(rest.take(j as int) =~= rest);
    r
}

/// Plan the initial layout for a fresh array.
pub fn plan_initial(input: &PlannerInput) -> (r: Result<PlannerOutput, PlanError>)
    requires
        plan(input@) is Ok ==> metrics::raw_total(input@.drives) <= u64::MAX,
    ensures
        plan_outcome(r, plan(input@)),
        r matches Ok(o) ==> plan(input@) == Ok::<PlanView, PlanFault>(o@),
        r matches Err(e) ==> plan(input@) == Err::<PlanView, PlanFault>(e@),
{
    let min: usize = input.mode.min_initial_disks();
    if input.disks.len() < min {
        return Err(PlanError::TooFewDisks { got: input.disks.len(), min });
    }
    // Usable length per disk after reserves + alignment, in a deterministic
    // order: by size, then by id.

    let sorted = sorted_reaches(input);
    let ghost s = table::entries(sorted@);
    let ghost mode = input.mode;
    proof {
        slices::lemma_by_length(reaches(input@));
        assert(s.len() == sorted@.len());
    }
    // Bands go up to where the least number of disks reach together, with one
    // boundary for each distinct usable size.
    let top: u64 = sorted[sorted.len() - min].1;
    let ends = cut_points(&sorted, 0, top);
    proof {
        slices::lemma_cuts(s, 0, top);
    }
    if ends.len() == 0 {
        return Err(PlanError::NoRedundantCapacity);
    }
    let mut bands: Vec<RedundantBand> = Vec::new();
    let mut i: usize = 0;
    assert(band::band_views(bands@) =~= bands_for(s, mode, ends@).take(0));
    while i < ends.len()
        invariant
            i <= ends.len(),
            i <= MAX_BANDS,
            0 < ends.len(),
            s == table::entries(sorted@),
            slices::in_order(s),
            s.len() >= raid::mode_floor(mode),
            mode == input.mode,
            top == redundant_top(s, mode),
            ends@ == cuts(s, 0, top),
            bands.len() == i,
            band::band_views(bands@) == bands_for(s, mode, ends@).take(i as int),
            i > 0 ==> names(reaching(s, ends@[0])).no_duplicates(),
            plan(input@) is Ok <==> names(reaching(s, ends@[0])).no_duplicates() && ends.len()
                <= MAX_BANDS,
            plan(input@) is Err ==> plan(input@) == Err::<PlanView, PlanFault>(
                if !names(reaching(s, ends@[0])).no_duplicates() {
                    PlanFault::Band(BandError::DuplicateMember)
                } else {
                    PlanFault::TooManyBands { index: MAX_BANDS }
                },
            ),
        decreases ends.len() - i,
    {
        let ghost so_far = bands@;
        let end: u64 = ends[i];
        let start: u64 = if i == 0 {
            0
        } else {
            ends[i - 1]
        };
        proof {
            slices::lemma_cuts(s, 0, top);
            slices::lemma_top_separates(s, mode, end);
            if i > 0 {
                assert(ends@[i - 1] < ends@[i as int]);
                assert(ends@[0] < ends@[i as int]);
                slices::lemma_higher_slices_stay_distinct(s, ends@[0], end);
            }
        }
        // A band index beyond 255 would collide with an earlier band.
        if i >= MAX_BANDS {
            return Err(PlanError::TooManyBands { index: i });
        }
        let members = reaching_ids(&sorted, end);
        let level = match input.mode.pick_level(members.len()) {
            Some(level) => level,
            None => return Err(PlanError::NoRedundantCapacity),
        };
        let ghost view = BandView {
            index: i as u8,
            offset: start,
            size: (end - start) as u64,
            members: disk::ids(members@),
            level,
        };
        assert(disk::ids(members@).len() == members@.len());
        assert(view == band_at(s, mode, ends@, i as int));
        match RedundantBand::new(i as u8, start, end - start, members, level, input.mode) {
            Ok(b) => {
                bands.push(b);
                assert(band::band_views(bands@) =~= band::band_views(so_far).push(view));
                assert(bands_for(s, mode, ends@).take(i + 1) =~= bands_for(s, mode, ends@).take(
                    i as int,
                ).push(view));
            },
            Err(e) => {
                return Err(PlanError::Band(e));
            },
        }
        i = i + 1;
    }
    assert(bands_for(s, mode, ends@).take(i as int) =~= bands_for(s, mode, ends@));
    proof {
        slices::lemma_layout_is_countable(input@);
    }
    let unusable_per_disk = stranded_tails(&sorted, top);
    let warnings = warnings_above(&sorted, input.mode, top, &unusable_per_disk);
    let metrics = compute_metrics(input.disks.as_slice(), bands.as_slice());
    Ok(PlannerOutput { bands, unusable_per_disk, metrics, warnings })
}

} // verus!
