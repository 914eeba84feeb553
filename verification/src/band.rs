//! [`RedundantBand`]: a horizontal slice across disks, backed by one RAID
//! array. Its constructors carry the main invariant of the whole system: a
//! band cannot exist unless it is genuinely redundant.
//!
//! Two constructors, two different guarantees:
//!
//! - [`RedundantBand::from_parts`] checks the structural, mode-independent
//!   invariants: non-zero size, enough members for the level itself, no
//!   duplicate member. It has no mode to check against, so a 3-member RAID5
//!   band passes even where the array is a strict 2-fault tolerant one.
//! - [`RedundantBand::new`] checks mode-consistency too: member count against
//!   the mode's per-band floor, and the requested level against what the mode
//!   picks for that member count.
//!
//! The mode-consistency of a loaded layout is checked one layer up, before
//! any expansion is planned against it.

use vstd::prelude::*;
use crate::disk;
use crate::disk::DiskId;
use crate::raid;
use crate::raid::{RaidLevel, RedundancyMode};
use crate::text;

verus! {

/// Why a band cannot be built.
#[allow(inconsistent_fields)]
#[derive(Debug, Clone, Copy, PartialEq, Eq, Structural)]
pub enum BandError {
    InsufficientForMode { got: usize, min: usize },
    InsufficientForLevel { got: usize, min: usize, level: RaidLevel },
    NoLevelAvailable(usize),
    LevelMismatch { expected: RaidLevel, got: RaidLevel },
    DuplicateMember,
    ZeroSize,
}

/// The sentence that describes a [`BandError`].
pub open spec fn band_error_text(e: BandError) -> Seq<char> {
    match e {
        BandError::InsufficientForMode { got, min } => "band has "@ + text::dec(got as nat)
            + " members but mode requires at least "@ + text::dec(min as nat),
        BandError::InsufficientForLevel { got, min, level } => raid::level_name(level)
            + " needs at least "@ + text::dec(min as nat) + " members, got "@ + text::dec(
            got as nat,
        ),
        BandError::NoLevelAvailable(n) => "no redundant RAID level is available for "@ + text::dec(
            n as nat,
        ) + " members in this mode"@,
        BandError::LevelMismatch { expected, got } => "level mismatch: expected "@
            + raid::level_name(expected) + " for this member count, got "@ + raid::level_name(got),
        BandError::DuplicateMember => "a disk appears twice in one band (single point of failure)"@,
        BandError::ZeroSize => "band size must be greater than zero"@,
    }
}

impl BandError {
    /// A sentence that describes the error.
    pub fn message(&self) -> (out: String)
        ensures
            out@ == band_error_text(*self),
    {
        match *self {
            BandError::InsufficientForMode { got, min } => {
                let mut out = "band has ".to_owned();
                text::append_decimal(&mut out, got as u64);
                out.append(" members but mode requires at least ");
                text::append_decimal(&mut out, min as u64);
                out
            },
            BandError::InsufficientForLevel { got, min, level } => {
                let mut out = level.name().to_owned();
                out.append(" needs at least ");
                text::append_decimal(&mut out, min as u64);
                out.append(" members, got ");
                text::append_decimal(&mut out, got as u64);
                out
            },
            BandError::NoLevelAvailable(n) => {
                let mut out = "no redundant RAID level is available for ".to_owned();
                text::append_decimal(&mut out, n as u64);
                out.append(" members in this mode");
                out
            },
            BandError::LevelMismatch { expected, got } => {
                let mut out = "level mismatch: expected ".to_owned();
                out.append(expected.name());
                out.append(" for this member count, got ");
                out.append(got.name());
                out
            },
            BandError::DuplicateMember => "a disk appears twice in one band (single point of failure)".to_owned(),
            BandError::ZeroSize => "band size must be greater than zero".to_owned(),
        }
    }
}

/// What a band is: its index, its extent `[offset, offset + size)` on each
/// member disk, its members in order, and its RAID level.
#[verifier::ext_equal]
pub struct BandView {
    pub index: u8,
    pub offset: u64,
    pub size: u64,
    pub members: Seq<Seq<char>>,
    pub level: RaidLevel,
}

/// How many of `members` are among `victims`.
pub open spec fn losses(members: Seq<Seq<char>>, victims: Seq<Seq<char>>) -> nat {
    members.filter(|m: Seq<char>| victims.contains(m)).len()
}

impl BandView {
    /// The exclusive end of the extent, or the largest offset there is.
    pub open spec fn end(self) -> u64 {
        if self.offset + self.size <= u64::MAX {
            (self.offset + self.size) as u64
        } else {
            u64::MAX
        }
    }

    /// The data-bearing capacity.
    pub open spec fn usable(self) -> nat {
        self.size as nat * raid::level_data(self.level, self.members.len())
    }

    /// The capacity taken up across all members.
    pub open spec fn raw(self) -> nat {
        self.size as nat * self.members.len()
    }

    /// Whether the band is non-empty, has the members its level needs, and
    /// has no member twice.
    pub open spec fn redundant(self) -> bool {
        &&& self.size > 0
        &&& self.members.len() >= raid::level_floor(self.level)
        &&& self.members.no_duplicates()
    }

    /// Whether the data survives when all of `victims` are lost.
    pub open spec fn survives(self, victims: Seq<Seq<char>>) -> bool {
        losses(self.members, victims) <= raid::level_tolerance(self.level)
    }

    /// The band itself, or the first structural rule that it breaks.
    pub open spec fn checked(self) -> Result<BandView, BandError> {
        if self.size == 0 {
            Err(BandError::ZeroSize)
        } else if self.members.len() < raid::level_floor(self.level) {
            Err(
                BandError::InsufficientForLevel {
                    got: self.members.len() as usize,
                    min: raid::level_floor(self.level) as usize,
                    level: self.level,
                },
            )
        } else if !self.members.no_duplicates() {
            Err(BandError::DuplicateMember)
        } else {
            Ok(self)
        }
    }

    /// The band itself, or the first rule that it breaks in `mode`.
    pub open spec fn checked_in(self, mode: RedundancyMode) -> Result<BandView, BandError> {
        let n = self.members.len();
        if n < raid::mode_floor(mode) {
            Err(
                BandError::InsufficientForMode {
                    got: n as usize,
                    min: raid::mode_floor(mode) as usize,
                },
            )
        } else if raid::mode_level(mode, n) != Some(self.level) {
            Err(BandError::LevelMismatch { expected: raid::mode_level(mode, n)->0, got: self.level })
        } else {
            self.checked()
        }
    }
}

/// Whether an outcome of a constructor is the one that a model gives.
pub open spec fn band_outcome(
    r: Result<RedundantBand, BandError>,
    model: Result<BandView, BandError>,
) -> bool {
    match (r, model) {
        (Ok(b), Ok(v)) => b@ == v,
        (Err(e), Err(f)) => e == f,
        _ => false,
    }
}

/// A redundant band. Fields are private and immutable; every construction path
/// funnels through validation.
#[derive(Debug, PartialEq, Eq)]
pub struct RedundantBand {
    band_index: u8,
    offset: u64,
    size: u64,
    members: Vec<DiskId>,
    level: RaidLevel,
}

impl View for RedundantBand {
    type V = BandView;

    closed spec fn view(&self) -> BandView {
        BandView {
            index: self.band_index,
            offset: self.offset,
            size: self.size,
            members: disk::ids(self.members@),
            level: self.level,
        }
    }
}

/// The views of a list of bands.
pub open spec fn band_views(list: Seq<RedundantBand>) -> Seq<BandView> {
    list.map_values(|b: RedundantBand| b@)
}

/// The fields of a band as they were read from storage, before validation.
#[derive(Debug)]
pub struct RedundantBandRaw {
    pub band_index: u8,
    pub offset: u64,
    pub size: u64,
    pub members: Vec<DiskId>,
    pub level: RaidLevel,
}

impl View for RedundantBandRaw {
    type V = BandView;

    open spec fn view(&self) -> BandView {
        BandView {
            index: self.band_index,
            offset: self.offset,
            size: self.size,
            members: disk::ids(self.members@),
            level: self.level,
        }
    }
}

impl TryFrom<RedundantBandRaw> for RedundantBand {
    type Error = BandError;

    fn try_from(r: RedundantBandRaw) -> (res: Result<Self, BandError>)
        ensures
            band_outcome(res, r@.checked()),
            res matches Ok(b) ==> b@.index == r.band_index && b@.offset == r.offset && b@.size
                == r.size && b@.members == disk::ids(r.members@) && b@.level == r.level,
    {
        RedundantBand::from_parts(r.band_index, r.offset, r.size, r.members, r.level)
    }
}

impl vstd::std_specs::convert::TryFromSpecImpl<RedundantBandRaw> for RedundantBand {
    open spec fn obeys_try_from_spec() -> bool {
        false
    }

    open spec fn try_from_spec(r: RedundantBandRaw) -> Result<Self, BandError> {
        arbitrary()
    }
}

impl Clone for RedundantBand {
    fn clone(&self) -> (r: Self)
        ensures
            r@ == self@,
    {
        proof {
            use_type_invariant(self);
        }
        let members = disk::copy_ids(self.members.as_slice());
        RedundantBand {
            band_index: self.band_index,
            offset: self.offset,
            size: self.size,
            members,
            level: self.level,
        }
    }
}

/// Whether no identifier occurs twice in `list`.
fn all_distinct(list: &Vec<DiskId>) -> (r: bool)
    ensures
        r == disk::ids(list@).no_duplicates(),
{
    let mut i: usize = 0;
    while i < list.len()
        invariant
            i <= list.len(),
            forall|a: int, b: int|
                0 <= a < b < i ==> #[trigger] disk::ids(list@)[a] != #[trigger] disk::ids(list@)[b],
        decreases list.len() - i,
    {
        let mut j: usize = 0;
        while j < i
            invariant
                i < list.len(),
                j <= i,
                forall|a: int| 0 <= a < j ==> #[trigger] disk::ids(list@)[a] != list@[i as int]@,
            decreases i - j,
        {
            if list[j].same(&list[i]) {
                assert(disk::ids(list@)[j as int] == disk::ids(list@)[i as int]);
                return false;
            }
            j = j + 1;
        }
        assert(disk::ids(list@)[i as int] == list@[i as int]@);
        i = i + 1;
    }
    true
}

impl RedundantBand {
    #[verifier::type_invariant]
    spec fn is_redundant(self) -> bool {
        self@.redundant()
    }

    /// Structural (mode-independent) validation shared by every construction
    /// path: non-zero size, enough members for the level, no duplicate member.
    pub fn from_parts(
        band_index: u8,
        offset: u64,
        size: u64,
        members: Vec<DiskId>,
        level: RaidLevel,
    ) -> (r: Result<Self, BandError>)
        ensures
            band_outcome(
                r,
                (BandView {
                    index: band_index,
                    offset,
                    size,
                    members: disk::ids(members@),
                    level,
                }).checked(),
            ),
            r matches Ok(b) ==> b@.redundant(),
            r matches Ok(b) ==> b@.index == band_index && b@.offset == offset && b@.size == size
                && b@.members == disk::ids(members@) && b@.level == level,
            r matches Err(e) ==> (BandView {
                index: band_index,
                offset,
                size,
                members: disk::ids(members@),
                level,
            }).checked() == Err::<BandView, BandError>(e),
    {
        if size == 0 {
            return Err(BandError::ZeroSize);
        }
        if members.len() < level.min_members() {
            return Err(
                BandError::InsufficientForLevel {
                    got: members.len(),
                    min: level.min_members(),
                    level,
                },
            );
        }
        if !all_distinct(&members) {
            return Err(BandError::DuplicateMember);
        }
        Ok(RedundantBand { band_index, offset, size, members, level })
    }

    /// Build a band under a specific redundancy mode, verifying:
    /// 1. member count ≥ the mode's per-band minimum,
    /// 2. a redundant level exists for that member count,
    /// 3. the requested `level` matches what the mode would pick.
    ///
    /// It then applies the structural invariants of
    /// [`from_parts`](Self::from_parts).
    pub fn new(
        band_index: u8,
        offset: u64,
        size: u64,
        members: Vec<DiskId>,
        level: RaidLevel,
        mode: RedundancyMode,
    ) -> (r: Result<Self, BandError>)
        ensures
            band_outcome(
                r,
                (BandView {
                    index: band_index,
                    offset,
                    size,
                    members: disk::ids(members@),
                    level,
                }).checked_in(mode),
            ),
            r matches Ok(b) ==> b@.redundant(),
            r matches Ok(b) ==> b@.index == band_index && b@.offset == offset && b@.size == size
                && b@.members == disk::ids(members@) && b@.level == level,
            r matches Err(e) ==> (BandView {
                index: band_index,
                offset,
                size,
                members: disk::ids(members@),
                level,
            }).checked_in(mode) == Err::<BandView, BandError>(e),
    {
        let min: usize = mode.min_members_per_band();
        if members.len() < min {
            return Err(BandError::InsufficientForMode { got: members.len(), min });
        }
        let expected = match mode.pick_level(members.len()) {
            Some(level) => level,
            None => return Err(BandError::NoLevelAvailable(members.len())),
        };
        if expected != level {
            return Err(BandError::LevelMismatch { expected, got: level });
        }
        RedundantBand::from_parts(band_index, offset, size, members, level)
    }

    pub fn band_index(&self) -> (i: u8)
        ensures
            i == self@.index,
    {
        self.band_index
    }

    pub fn offset(&self) -> (o: u64)
        ensures
            o == self@.offset,
    {
        self.offset
    }

    /// Per-member slice length in bytes (all members contribute equally).
    pub fn size(&self) -> (s: u64)
        ensures
            s == self@.size,
            s > 0,
    {
        proof {
            use_type_invariant(self);
        }
        self.size
    }

    /// Exclusive end of this band's extent on each member disk.
    pub fn end(&self) -> (e: u64)
        ensures
            e == self@.end(),
    {
        self.offset.saturating_add(self.size)
    }

    /// The member disks. They are pairwise different, and at least as many as
    /// the level needs.
    pub fn members(&self) -> (m: &[DiskId])
        ensures
            disk::ids(m@) == self@.members,
            self@.redundant(),
    {
        proof {
            use_type_invariant(self);
        }
        self.members.as_slice()
    }

    pub fn level(&self) -> (l: RaidLevel)
        ensures
            l == self@.level,
    {
        self.level
    }

    /// Usable (data-bearing) capacity of this band.
    pub fn usable_bytes(&self) -> (n: u64)
        requires
            self@.usable() <= u64::MAX,
        ensures
            n == self@.usable(),
    {
        self.size * self.level.data_members(self.members.len()) as u64
    }

    /// Total raw capacity this band consumes across all members.
    pub fn raw_bytes(&self) -> (n: u64)
        requires
            self@.raw() <= u64::MAX,
        ensures
            n == self@.raw(),
            self@.usable() <= n,
    {
        proof {
            use_type_invariant(self);
            usable_is_less_than_raw(self@);
        }
        self.size * self.members.len() as u64
    }

    pub fn contains(&self, id: &DiskId) -> (r: bool)
        ensures
            r == self@.members.contains(id@),
    {
        disk::holds(self.members.as_slice(), id)
    }

    /// Would this band still be recoverable after losing `victims`?
    pub fn is_recoverable_without(&self, victims: &[DiskId]) -> (r: bool)
        ensures
            r == self@.survives(disk::ids(victims@)),
    {
        let ghost members = self@.members;
        let ghost gone = disk::ids(victims@);
        let mut lost: usize = 0;
        let mut i: usize = 0;
        assert(members.take(0) =~= Seq::empty());
        while i < self.members.len()
            invariant
                members == disk::ids(self.members@),
                gone == disk::ids(victims@),
                i <= self.members.len(),
                lost <= i,
                lost == losses(members.take(i as int), gone),
            decreases self.members.len() - i,
        {
            proof {
                assert(members.take(i + 1).drop_last() =~= members.take(i as int));
                reveal(Seq::filter);
            }
            if disk::holds(victims, &self.members[i]) {
                lost = lost + 1;
            }
            i = i + 1;
        }
        assert(members.take(i as int) =~= members);
        lost <= self.level.fault_tolerance() as usize
    }
}

// ---------------------------------------------------------------------------
// Laws
// ---------------------------------------------------------------------------

/// A band of pairwise different members loses no more members than there are
/// victims.
pub proof fn lemma_losses_at_most_victims(members: Seq<Seq<char>>, victims: Seq<Seq<char>>)
    requires
        members.no_duplicates(),
    ensures
        losses(members, victims) <= victims.len(),
    decreases members.len(),
{
    let hit = |m: Seq<char>| victims.contains(m);
    let lost = members.filter(hit);
    lemma_filter_keeps_distinct(members, hit);
    lost.unique_seq_to_set();
    victims.lemma_cardinality_of_set();
    assert(lost.to_set().subset_of(victims.to_set())) by {
        assert forall|m: Seq<char>| lost.to_set().contains(m) implies victims.to_set().contains(
            m,
        ) by {
            let i = choose|i: int| 0 <= i < lost.len() && lost[i] == m;
            assert(lost[i] == m);
            members.lemma_filter_pred(hit, i);
        }
    }
    vstd::set_lib::lemma_len_subset(lost.to_set(), victims.to_set());
}

/// Filtering a list of pairwise different items leaves them different.
pub proof fn lemma_filter_keeps_distinct<A>(s: Seq<A>, keep: spec_fn(A) -> bool)
    requires
        s.no_duplicates(),
    ensures
        s.filter(keep).no_duplicates(),
    decreases s.len(),
{
    reveal(Seq::filter);
    if s.len() > 0 {
        let head = s.drop_last();
        lemma_filter_keeps_distinct(head, keep);
        let rest = head.filter(keep);
        if keep(s.last()) {
            assert forall|i: int| 0 <= i < rest.len() implies rest[i] != s.last() by {
                assert(rest.contains(rest[i]));
                head.lemma_filter_contains_rev(keep, rest[i]);
                assert(head.contains(rest[i]));
                let j = choose|j: int| 0 <= j < head.len() && head[j] == rest[i];
                assert(s[j] == rest[i]);
            }
        }
    }
}

/// The central redundancy guarantee: a band that its mode accepts stays
/// recoverable after the loss of any disks no more in number than the mode
/// promises to survive.
pub proof fn accepted_band_survives_promised_losses(
    band: BandView,
    mode: RedundancyMode,
    victims: Seq<Seq<char>>,
)
    requires
        band.checked_in(mode) is Ok,
        victims.len() <= raid::mode_tolerance(mode),
    ensures
        band.survives(victims),
{
    lemma_losses_at_most_victims(band.members, victims);
    raid::picked_level_keeps_the_promise_of_the_mode(mode, band.members.len());
}

/// A redundant band stays recoverable after the loss of any disks no more in
/// number than its own level tolerates.
pub proof fn redundant_band_survives_its_tolerance(band: BandView, victims: Seq<Seq<char>>)
    requires
        band.redundant(),
        victims.len() <= raid::level_tolerance(band.level),
    ensures
        band.survives(victims),
{
    lemma_losses_at_most_victims(band.members, victims);
}

/// A redundant band never counts more usable capacity than raw capacity, and
/// always keeps at least one member's worth of each for data and redundancy.
pub proof fn usable_is_less_than_raw(band: BandView)
    requires
        band.redundant(),
    ensures
        band.size <= band.usable(),
        band.usable() + band.size <= band.raw(),
{
    let d = raid::level_data(band.level, band.members.len());
    let n = band.members.len();
    let s = band.size as nat;
    assert(s * d >= s) by (nonlinear_arith)
        requires
            d >= 1,
    ;
    assert(s * d + s <= s * n) by (nonlinear_arith)
        requires
            d + 1 <= n,
    ;
}

/// Exactly the bands without a structural defect can be built, with or
/// without a mode, and a mode accepts only such bands.
pub proof fn only_redundant_bands_are_accepted(band: BandView, mode: RedundancyMode)
    ensures
        band.checked() is Ok <==> band.redundant(),
        band.checked_in(mode) is Ok <==> band.redundant() && raid::mode_level(
            mode,
            band.members.len(),
        ) == Some(band.level),
{
}

} // verus!
