//! RAID levels and redundancy modes, with the policy that maps a member count
//! to a level.

use vstd::prelude::*;

verus! {

/// The RAID levels a band can have. Every one of them tolerates at least one
/// disk loss.
#[derive(Debug, Clone, Copy, PartialEq, Eq, Structural)]
pub enum RaidLevel {
    Raid1,
    Raid5,
    Raid6,
}

/// The redundancy policy fixed when an array is created. The two modes never
/// convert into one another.
#[derive(Debug, Clone, Copy, PartialEq, Eq, Structural)]
pub enum RedundancyMode {
    /// 1-fault tolerant. Starts at 2 disks (RAID1), promotes to RAID5 at 3+.
    Shr,
    /// 2-fault tolerant, strict: RAID6 only, minimum 4 disks per band.
    Shr2,
}

/// The least member count for which `level` is defined.
pub open spec fn level_floor(level: RaidLevel) -> nat {
    match level {
        RaidLevel::Raid1 => 2,
        RaidLevel::Raid5 => 3,
        RaidLevel::Raid6 => 4,
    }
}

/// How many simultaneous member losses `level` survives.
pub open spec fn level_tolerance(level: RaidLevel) -> nat {
    match level {
        RaidLevel::Raid1 => 1,
        RaidLevel::Raid5 => 1,
        RaidLevel::Raid6 => 2,
    }
}

/// How many of `n` members carry user data at `level`.
pub open spec fn level_data(level: RaidLevel, n: nat) -> nat {
    match level {
        RaidLevel::Raid1 => 1,
        RaidLevel::Raid5 => if n >= 1 { (n - 1) as nat } else { 0 },
        RaidLevel::Raid6 => if n >= 2 { (n - 2) as nat } else { 0 },
    }
}

/// The place of `level` in the order of promotions.
pub open spec fn level_rank(level: RaidLevel) -> nat {
    match level {
        RaidLevel::Raid1 => 1,
        RaidLevel::Raid5 => 2,
        RaidLevel::Raid6 => 3,
    }
}

/// The least number of members of any band in `mode`, which is also the least
/// number of disks of an array.
pub open spec fn mode_floor(mode: RedundancyMode) -> nat {
    match mode {
        RedundancyMode::Shr => 2,
        RedundancyMode::Shr2 => 4,
    }
}

/// How many disk losses an array in `mode` survives.
pub open spec fn mode_tolerance(mode: RedundancyMode) -> nat {
    match mode {
        RedundancyMode::Shr => 1,
        RedundancyMode::Shr2 => 2,
    }
}

/// The level that `mode` gives to a band of `n` members.
pub open spec fn mode_level(mode: RedundancyMode, n: nat) -> Option<RaidLevel> {
    if n < mode_floor(mode) {
        None
    } else if mode == RedundancyMode::Shr2 {
        Some(RaidLevel::Raid6)
    } else if n == 2 {
        Some(RaidLevel::Raid1)
    } else {
        Some(RaidLevel::Raid5)
    }
}

/// The name of a level as diagnostics print it.
pub open spec fn level_name(level: RaidLevel) -> Seq<char> {
    match level {
        RaidLevel::Raid1 => "Raid1"@,
        RaidLevel::Raid5 => "Raid5"@,
        RaidLevel::Raid6 => "Raid6"@,
    }
}

/// The name of a level as reports spell it.
pub open spec fn level_word(level: RaidLevel) -> Seq<char> {
    match level {
        RaidLevel::Raid1 => "raid1"@,
        RaidLevel::Raid5 => "raid5"@,
        RaidLevel::Raid6 => "raid6"@,
    }
}

/// The name of a mode as diagnostics print it.
pub open spec fn mode_name(mode: RedundancyMode) -> Seq<char> {
    match mode {
        RedundancyMode::Shr => "Shr"@,
        RedundancyMode::Shr2 => "Shr2"@,
    }
}

/// The name of a mode as reports spell it.
pub open spec fn mode_word(mode: RedundancyMode) -> Seq<char> {
    match mode {
        RedundancyMode::Shr => "shr"@,
        RedundancyMode::Shr2 => "shr2"@,
    }
}

impl RaidLevel {
    /// Minimum member count for which this level is defined.
    pub fn min_members(self) -> (n: usize)
        ensures
            n == level_floor(self),
    {
        match self {
            RaidLevel::Raid1 => 2,
            RaidLevel::Raid5 => 3,
            RaidLevel::Raid6 => 4,
        }
    }

    /// Number of members whose worth of capacity carries user data, for a
    /// band with `n` members. The remainder is redundancy overhead.
    ///
    /// - RAID1: a single copy is usable regardless of the number of mirrors.
    /// - RAID5: `n - 1` (one member's worth is parity).
    /// - RAID6: `n - 2` (two members' worth is parity).
    pub fn data_members(self, n: usize) -> (d: usize)
        ensures
            d == level_data(self, n as nat),
    {
        match self {
            RaidLevel::Raid1 => 1,
            RaidLevel::Raid5 => n.saturating_sub(1),
            RaidLevel::Raid6 => n.saturating_sub(2),
        }
    }

    /// How many simultaneous member losses this level survives.
    pub fn fault_tolerance(self) -> (t: u8)
        ensures
            t == level_tolerance(self),
    {
        match self {
            RaidLevel::Raid1 => 1,
            RaidLevel::Raid5 => 1,
            RaidLevel::Raid6 => 2,
        }
    }

    /// Redundancy rank for ordering promotions (RAID1 < RAID5 < RAID6). A
    /// higher rank must never be replaced by a lower one.
    pub fn rank(self) -> (r: u8)
        ensures
            r == level_rank(self),
    {
        match self {
            RaidLevel::Raid1 => 1,
            RaidLevel::Raid5 => 2,
            RaidLevel::Raid6 => 3,
        }
    }

    /// The name of the level as diagnostics print it.
    pub fn name(self) -> (s: &'static str)
        ensures
            s@ == level_name(self),
    {
        match self {
            RaidLevel::Raid1 => "Raid1",
            RaidLevel::Raid5 => "Raid5",
            RaidLevel::Raid6 => "Raid6",
        }
    }

    /// The name of the level as reports spell it.
    pub fn word(self) -> (s: &'static str)
        ensures
            s@ == level_word(self),
    {
        match self {
            RaidLevel::Raid1 => "raid1",
            RaidLevel::Raid5 => "raid5",
            RaidLevel::Raid6 => "raid6",
        }
    }
}

impl RedundancyMode {
    /// Minimum disks to create an array in this mode.
    pub fn min_initial_disks(self) -> (n: usize)
        ensures
            n == mode_floor(self),
    {
        match self {
            RedundancyMode::Shr => 2,
            RedundancyMode::Shr2 => 4,
        }
    }

    /// Minimum members for any single band in this mode.
    pub fn min_members_per_band(self) -> (n: usize)
        ensures
            n == mode_floor(self),
    {
        match self {
            RedundancyMode::Shr => 2,
            RedundancyMode::Shr2 => 4,
        }
    }

    /// The RAID level this mode assigns to a band with `n` participating
    /// members, or `None` if `n` is too small to be redundant in this mode.
    pub fn pick_level(self, n: usize) -> (level: Option<RaidLevel>)
        ensures
            level == mode_level(self, n as nat),
    {
        match self {
            RedundancyMode::Shr => {
                if n == 2 {
                    Some(RaidLevel::Raid1)
                } else if n >= 3 {
                    Some(RaidLevel::Raid5)
                } else {
                    None
                }
            },
            RedundancyMode::Shr2 => {
                if n >= 4 {
                    Some(RaidLevel::Raid6)
                } else {
                    None
                }
            },
        }
    }

    /// The guaranteed number of disk losses the whole array survives.
    pub fn fault_tolerance(self) -> (t: u8)
        ensures
            t == mode_tolerance(self),
    {
        match self {
            RedundancyMode::Shr => 1,
            RedundancyMode::Shr2 => 2,
        }
    }

    /// The name of the mode as diagnostics print it.
    pub fn name(self) -> (s: &'static str)
        ensures
            s@ == mode_name(self),
    {
        match self {
            RedundancyMode::Shr => "Shr",
            RedundancyMode::Shr2 => "Shr2",
        }
    }

    /// The name of the mode as reports spell it.
    pub fn word(self) -> (s: &'static str)
        ensures
            s@ == mode_word(self),
    {
        match self {
            RedundancyMode::Shr => "shr",
            RedundancyMode::Shr2 => "shr2",
        }
    }
}

/// The level that a mode picks is always defined for the member count it was
/// picked for, and tolerates as many losses as the mode promises.
pub proof fn picked_level_keeps_the_promise_of_the_mode(mode: RedundancyMode, n: nat)
    ensures
        mode_level(mode, n) is Some <==> n >= mode_floor(mode),
        mode_level(mode, n) matches Some(level) ==> {
            &&& n >= level_floor(level)
            &&& level_tolerance(level) == mode_tolerance(mode)
            &&& 1 <= level_data(level, n) < n
        },
{
}

/// More members never lower the level that a mode picks.
pub proof fn picked_level_never_drops_as_members_join(mode: RedundancyMode, n: nat, more: nat)
    requires
        n <= more,
        mode_level(mode, n) is Some,
    ensures
        mode_level(mode, more) is Some,
        level_rank(mode_level(mode, n)->0) <= level_rank(mode_level(mode, more)->0),
{
}

} // verus!
