//! Capacity metrics of a layout: how full each disk is, how much of the raw
//! capacity carries data, redundancy, or neither.

use vstd::prelude::*;
use crate::band;
use crate::band::{BandView, RedundantBand};
use crate::disk;
use crate::disk::{Disk, DiskId};
use crate::raid;
use crate::table;

verus! {

/// The exact ratio of two byte counts.
#[derive(Debug, Clone, Copy, PartialEq, Eq, Structural)]
pub struct Fraction {
    pub numerator: u64,
    pub denominator: u64,
}

/// `part` out of `whole`, and zero where there is no whole.
pub open spec fn fraction(part: u64, whole: u64) -> Fraction {
    if whole == 0 {
        Fraction { numerator: 0, denominator: 1 }
    } else {
        Fraction { numerator: part, denominator: whole }
    }
}

impl Fraction {
    /// `part` out of `whole`, and zero where there is no whole.
    pub fn of(part: u64, whole: u64) -> (f: Fraction)
        ensures
            f == fraction(part, whole),
            f.denominator > 0,
    {
        if whole == 0 {
            Fraction { numerator: 0, denominator: 1 }
        } else {
            Fraction { numerator: part, denominator: whole }
        }
    }
}

/// The metrics of a layout.
#[derive(Debug, PartialEq, Eq)]
pub struct DistributionMetrics {
    /// Per-disk fill fraction, in the order of the identifiers: how much of
    /// each disk the bands use.
    pub utilization: Vec<(DiskId, Fraction)>,
    /// Fraction of total raw capacity that carries neither user data nor
    /// parity, i.e. reserved head/tail, alignment loss, and non-redundant
    /// stranded regions.
    pub waste_ratio: Fraction,
    /// Total user-visible capacity across all bands.
    pub total_usable: u64,
    /// Sum of every disk's raw size.
    pub total_raw: u64,
    /// Raw capacity spent on parity/mirroring across all bands.
    pub redundancy_overhead: u64,
    /// Bytes carrying neither data nor parity (reserved + alignment + stranded).
    pub stranded_bytes: u64,
}

/// What the metrics of a layout say.
#[verifier::ext_equal]
pub struct MetricsView {
    pub utilization: Seq<(Seq<char>, Fraction)>,
    pub waste_ratio: Fraction,
    pub total_usable: u64,
    pub total_raw: u64,
    pub redundancy_overhead: u64,
    pub stranded_bytes: u64,
}

impl View for DistributionMetrics {
    type V = MetricsView;

    open spec fn view(&self) -> MetricsView {
        MetricsView {
            utilization: table::entries(self.utilization@),
            waste_ratio: self.waste_ratio,
            total_usable: self.total_usable,
            total_raw: self.total_raw,
            redundancy_overhead: self.redundancy_overhead,
            stranded_bytes: self.stranded_bytes,
        }
    }
}

/// The raw sizes of `drives`.
pub open spec fn sizes(drives: Seq<(Seq<char>, u64)>) -> Seq<nat> {
    drives.map_values(|d: (Seq<char>, u64)| d.1 as nat)
}

/// The raw size of all disks together.
pub open spec fn raw_total(drives: Seq<(Seq<char>, u64)>) -> nat {
    table::total(sizes(drives))
}

/// The data-bearing capacities of `bands`.
pub open spec fn usables(bands: Seq<BandView>) -> Seq<nat> {
    bands.map_values(|b: BandView| b.usable())
}

/// The data-bearing capacity of all bands together.
pub open spec fn usable_total(bands: Seq<BandView>) -> nat {
    table::total(usables(bands))
}

/// The capacities that `bands` spend on redundancy.
pub open spec fn overheads(bands: Seq<BandView>) -> Seq<nat> {
    bands.map_values(|b: BandView| (b.raw() - b.usable()) as nat)
}

/// The capacity that all bands together spend on redundancy.
pub open spec fn overhead_total(bands: Seq<BandView>) -> nat {
    table::total(overheads(bands))
}

/// What each of `bands` takes up on the disk `id`.
pub open spec fn shares(bands: Seq<BandView>, id: Seq<char>) -> Seq<nat> {
    bands.map_values(
        |b: BandView|
            if b.members.contains(id) {
                b.size as nat
            } else {
                0
            },
    )
}

/// What all bands together take up on the disk `id`.
pub open spec fn consumed(bands: Seq<BandView>, id: Seq<char>) -> nat {
    table::total(shares(bands, id))
}

/// The fill fraction of each disk. Where two disks share an identifier the
/// later one counts.
pub open spec fn utilization(drives: Seq<(Seq<char>, u64)>, bands: Seq<BandView>) -> Seq<
    (Seq<char>, Fraction),
>
    decreases drives.len(),
{
    if drives.len() == 0 {
        Seq::empty()
    } else {
        let d = drives.last();
        table::stored(
            utilization(drives.drop_last(), bands),
            d.0,
            fraction(consumed(bands, d.0) as u64, d.1),
        )
    }
}

/// `a - b`, or zero where that is negative.
pub open spec fn less(a: nat, b: nat) -> nat {
    if a >= b {
        (a - b) as nat
    } else {
        0
    }
}

/// The metrics of `bands` over `drives`.
pub open spec fn metrics(drives: Seq<(Seq<char>, u64)>, bands: Seq<BandView>) -> MetricsView {
    let raw = raw_total(drives);
    let usable = usable_total(bands);
    let overhead = overhead_total(bands);
    let stranded = less(less(raw, usable), overhead) as u64;
    MetricsView {
        utilization: utilization(drives, bands),
        waste_ratio: fraction(stranded, raw as u64),
        total_usable: usable as u64,
        total_raw: raw as u64,
        redundancy_overhead: overhead as u64,
        stranded_bytes: stranded,
    }
}

/// Whether every number in the metrics of `bands` over `drives` fits.
pub open spec fn countable(drives: Seq<(Seq<char>, u64)>, bands: Seq<BandView>) -> bool {
    &&& raw_total(drives) <= u64::MAX
    &&& usable_total(bands) <= u64::MAX
    &&& overhead_total(bands) <= u64::MAX
    &&& forall|i: int| 0 <= i < bands.len() ==> (#[trigger] bands[i]).raw() <= u64::MAX
    &&& forall|id: Seq<char>| #[trigger] consumed(bands, id) <= u64::MAX
}

/// What all bands together take up on one disk.
fn consumed_by(bands: &[RedundantBand], id: &DiskId) -> (used: u64)
    requires
        consumed(band::band_views(bands@), id@) <= u64::MAX,
    ensures
        used == consumed(band::band_views(bands@), id@),
{
    let ghost all = band::band_views(bands@);
    let ghost parts = shares(all, id@);
    let mut used: u64 = 0;
    let mut i: usize = 0;
    assert(parts.take(0) =~= Seq::empty());
    while i < bands.len()
        invariant
            i <= bands.len(),
            all == band::band_views(bands@),
            parts == shares(all, id@),
            used == table::total(parts.take(i as int)),
            table::total(parts) <= u64::MAX,
        decreases bands.len() - i,
    {
        proof {
            table::lemma_total_step(parts, i as int);
            assert(all[i as int] == bands@[i as int]@);
        }
        if bands[i].contains(id) {
            used = used + bands[i].size();
        }
        i = i + 1;
    }
    assert(parts.take(i as int) =~= parts);
    used
}

/// Compute metrics for a set of `bands` over `disks`.
pub fn compute_metrics(disks: &[Disk], bands: &[RedundantBand]) -> (r: DistributionMetrics)
    requires
        countable(disk::drives(disks@), band::band_views(bands@)),
    ensures
        r@ == metrics(disk::drives(disks@), band::band_views(bands@)),
{
    let ghost all = band::band_views(bands@);
    let ghost drives = disk::drives(disks@);
    let ghost raws = sizes(drives);
    let mut total_raw: u64 = 0;
    let mut utilization: Vec<(DiskId, Fraction)> = Vec::new();
    let mut i: usize = 0;
    assert(raws.take(0) =~= Seq::empty());
    assert(drives.take(0) =~= Seq::empty());
    assert(table::entries(utilization@) =~= Seq::empty());
    while i < disks.len()
        invariant
            i <= disks.len(),
            all == band::band_views(bands@),
            drives == disk::drives(disks@),
            raws == sizes(drives),
            countable(drives, all),
            total_raw == table::total(raws.take(i as int)),
            table::entries(utilization@) == self::utilization(drives.take(i as int), all),
        decreases disks.len() - i,
    {
        proof {
            table::lemma_total_step(raws, i as int);
            assert(drives.take(i + 1).drop_last() =~= drives.take(i as int));
            assert(consumed(all, drives[i as int].0) <= u64::MAX);
        }
        total_raw = total_raw + disks[i].size_bytes;
        let used: u64 = consumed_by(bands, &disks[i].id);
        table::store(
            &mut utilization,
            disks[i].id.clone(),
            Fraction::of(used, disks[i].size_bytes),
        );
        i = i + 1;
    }
    assert(raws.take(i as int) =~= raws);
    assert(drives.take(i as int) =~= drives);

    let ghost data = usables(all);
    let ghost spent = overheads(all);
    let mut total_usable: u64 = 0;
    let mut redundancy_overhead: u64 = 0;
    let mut j: usize = 0;
    assert(data.take(0) =~= Seq::empty());
    assert(spent.take(0) =~= Seq::empty());
    while j < bands.len()
        invariant
            j <= bands.len(),
            all == band::band_views(bands@),
            data == usables(all),
            spent == overheads(all),
            countable(drives, all),
            total_usable == table::total(data.take(j as int)),
            redundancy_overhead == table::total(spent.take(j as int)),
        decreases bands.len() - j,
    {
        proof {
            table::lemma_total_step(data, j as int);
            table::lemma_total_step(spent, j as int);
            assert(all[j as int] == bands@[j as int]@);
        }
        let raw: u64 = bands[j].raw_bytes();
        let usable: u64 = bands[j].usable_bytes();
        total_usable = total_usable + usable;
        redundancy_overhead = redundancy_overhead + (raw - usable);
        j = j + 1;
    }
    assert(data.take(j as int) =~= data);
    assert(spent.take(j as int) =~= spent);

    // Everything not carried as data or parity is stranded: reserved head/tail,
    // alignment loss, and capacity on disks too shallow to join an upper band.
    let stranded_bytes: u64 = total_raw.saturating_sub(total_usable).saturating_sub(
        redundancy_overhead,
    );
    DistributionMetrics {
        utilization,
        waste_ratio: Fraction::of(stranded_bytes, total_raw),
        total_usable,
        total_raw,
        redundancy_overhead,
        stranded_bytes,
    }
}

// ---------------------------------------------------------------------------
// Laws
// ---------------------------------------------------------------------------

/// Data and redundancy of bands with enough members for their levels together
/// are what the bands take up across their members.
pub proof fn usable_and_overhead_make_up_the_raw_bands(bands: Seq<BandView>)
    requires
        forall|i: int|
            0 <= i < bands.len() ==> (#[trigger] bands[i]).members.len() >= raid::level_floor(
                bands[i].level,
            ),
    ensures
        usable_total(bands) + overhead_total(bands) == table::total(
            bands.map_values(|b: BandView| b.raw()),
        ),
    decreases bands.len(),
{
    let raws = bands.map_values(|b: BandView| b.raw());
    if bands.len() > 0 {
        let head = bands.drop_last();
        assert forall|i: int| 0 <= i < head.len() implies (#[trigger] head[i]).members.len()
            >= raid::level_floor(head[i].level) by {
            assert(head[i] == bands[i]);
        }
        usable_and_overhead_make_up_the_raw_bands(head);
        let b = bands[bands.len() - 1];
        let d = raid::level_data(b.level, b.members.len());
        assert(b.size as nat * d <= b.size as nat * b.members.len()) by (nonlinear_arith)
            requires
                d <= b.members.len(),
        ;
        assert(usables(bands).drop_last() =~= usables(head));
        assert(overheads(bands).drop_last() =~= overheads(head));
        assert(raws.drop_last() =~= head.map_values(|b: BandView| b.raw()));
    }
}

/// Capacity accounting is conserved: as soon as the bands fit on the disks,
/// usable, overhead and stranded bytes make up the raw capacity, and the
/// waste ratio is between zero and one.
pub proof fn capacity_accounting_is_conserved(
    drives: Seq<(Seq<char>, u64)>,
    bands: Seq<BandView>,
)
    requires
        raw_total(drives) <= u64::MAX,
        usable_total(bands) + overhead_total(bands) <= raw_total(drives),
    ensures
        ({
            let m = metrics(drives, bands);
            &&& m.total_usable + m.redundancy_overhead + m.stranded_bytes == m.total_raw
            &&& m.total_raw == raw_total(drives)
            &&& 0 < m.waste_ratio.denominator
            &&& m.waste_ratio.numerator <= m.waste_ratio.denominator
        }),
{
}

} // verus!
