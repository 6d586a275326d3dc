//! Versions of the M2 format, one per game expansion.
use vstd::prelude::*;

verus! {

/// The expansion whose M2 format a file follows, oldest first.
#[derive(Debug, Clone, Copy, PartialEq, Eq, Structural)]
pub enum M2Version {
    Vanilla,
    TBC,
    WotLK,
    Cataclysm,
    MoP,
    WoD,
    Legion,
    BfA,
    Shadowlands,
    Dragonflight,
    TheWarWithin,
}

impl M2Version {
    /// The place of the version in release order, starting at 0.
    pub open spec fn order(self) -> u8 {
        match self {
            M2Version::Vanilla => 0,
            M2Version::TBC => 1,
            M2Version::WotLK => 2,
            M2Version::Cataclysm => 3,
            M2Version::MoP => 4,
            M2Version::WoD => 5,
            M2Version::Legion => 6,
            M2Version::BfA => 7,
            M2Version::Shadowlands => 8,
            M2Version::Dragonflight => 9,
            M2Version::TheWarWithin => 10,
        }
    }

    /// Whether `self` is `other` or a later version.
    pub open spec fn is_at_least(self, other: M2Version) -> bool {
        self.order() >= other.order()
    }

    /// The version that a header version number names: 256-257 Vanilla,
    /// 260-263 TBC, 264 WotLK, 265-272 Cataclysm, 273 WoD, 274 Legion. The
    /// numbers of later versions coincide with these, so no number names MoP
    /// or anything after Legion.
    pub open spec fn of_header_version(version: u32) -> Option<M2Version> {
        if 256 <= version <= 257 {
            Some(M2Version::Vanilla)
        } else if 260 <= version <= 263 {
            Some(M2Version::TBC)
        } else if version == 264 {
            Some(M2Version::WotLK)
        } else if 265 <= version <= 272 {
            Some(M2Version::Cataclysm)
        } else if version == 273 {
            Some(M2Version::WoD)
        } else if version == 274 {
            Some(M2Version::Legion)
        } else {
            None
        }
    }

    /// Whether a header version number names `target` or a later version.
    pub open spec fn header_is_at_least(version: u32, target: M2Version) -> bool {
        match Self::of_header_version(version) {
            Some(v) => v.is_at_least(target),
            None => false,
        }
    }

    /// The place of the version in release order, starting at 0.
    pub fn rank(&self) -> (r: u8)
        ensures
            r == self.order(),
    {
        match self {
            M2Version::Vanilla => 0,
            M2Version::TBC => 1,
            M2Version::WotLK => 2,
            M2Version::Cataclysm => 3,
            M2Version::MoP => 4,
            M2Version::WoD => 5,
            M2Version::Legion => 6,
            M2Version::BfA => 7,
            M2Version::Shadowlands => 8,
            M2Version::Dragonflight => 9,
            M2Version::TheWarWithin => 10,
        }
    }

    /// Whether `self` is `other` or a later version.
    pub fn at_least(&self, other: M2Version) -> (r: bool)
        ensures
            r == self.is_at_least(other),
    {
        self.rank() >= other.rank()
    }

    /// The version that a header version number names, if any.
    pub fn from_header_version(version: u32) -> (r: Option<M2Version>)
        ensures
            r == Self::of_header_version(version),
    {
        if 256 <= version && version <= 257 {
            Some(M2Version::Vanilla)
        } else if 260 <= version && version <= 263 {
            Some(M2Version::TBC)
        } else if version == 264 {
            Some(M2Version::WotLK)
        } else if 265 <= version && version <= 272 {
            Some(M2Version::Cataclysm)
        } else if version == 273 {
            Some(M2Version::WoD)
        } else if version == 274 {
            Some(M2Version::Legion)
        } else {
            None
        }
    }
}

} // verus!
