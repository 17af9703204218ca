//! Rule schema: the authored shape of a rule and its predicates.
//!
//! Instants are held as UTC epoch seconds plus a nanosecond fraction (and the
//! authored UTC offset, which plays no part in comparisons). Coordinates and
//! radii are held as IEEE-754 binary64 bit patterns; the validator compares
//! them through [`crate::schema::float_key`], the total order under which
//! the ordinary floating-point comparisons against the finite bounds used
//! here agree.

use vstd::prelude::*;

use crate::match_expr::MatchExpr;

verus! {

/// An IEEE-754 binary64 value, kept as its bit pattern.
#[derive(Debug, Clone, Copy, PartialEq, Eq, Structural)]
pub struct FloatBits {
    pub bits: u64,
}

/// Mask of the magnitude bits of a binary64 pattern.
pub const MAGNITUDE_MASK: u64 = 0x7fff_ffff_ffff_ffff;

/// Position of a binary64 bit pattern in the ordering of the real line:
/// the magnitude bits, negated when the sign bit is set. Both zeros map to 0;
/// a NaN lands beyond the infinity of its sign, so no range check against
/// finite bounds accepts it.
pub open spec fn float_key(bits: u64) -> int {
    let magnitude = (bits & MAGNITUDE_MASK) as int;
    if bits >= 0x8000_0000_0000_0000u64 {
        -magnitude
    } else {
        magnitude
    }
}

impl FloatBits {
    /// Executable form of [`float_key`].
    pub fn key(&self) -> (k: i64)
        ensures
            k as int == float_key(self.bits),
    {
        let b: u64 = self.bits;
        let magnitude: u64 = b & MAGNITUDE_MASK;
        assert(magnitude <= MAGNITUDE_MASK) by (bit_vector)
            requires
                magnitude == b & MAGNITUDE_MASK,
        ;
        if b >= 0x8000_0000_0000_0000u64 {
            -(magnitude as i64)
        } else {
            magnitude as i64
        }
    }

    /// Whether `lo <= self <= hi` in the ordering of [`float_key`].
    pub fn within(&self, lo: FloatBits, hi: FloatBits) -> (r: bool)
        ensures
            r == (float_key(lo.bits) <= float_key(self.bits) && float_key(self.bits) <= float_key(hi.bits)),
    {
        let k = self.key();
        lo.key() <= k && k <= hi.key()
    }
}

/// A point in time: UTC epoch seconds, the sub-second fraction in
/// nanoseconds (a leap second carries a fraction of one second or more), and
/// the UTC offset it was written with.
#[derive(Debug, Clone, Copy, PartialEq, Eq, Structural)]
pub struct Timestamp {
    pub secs: i64,
    pub nanos: u32,
    pub offset_secs: i32,
}

/// `a` is strictly earlier than `b` (offsets play no part).
pub open spec fn instant_lt(a: Timestamp, b: Timestamp) -> bool {
    a.secs < b.secs || (a.secs == b.secs && a.nanos < b.nanos)
}

impl Timestamp {
    /// Whether `self` is strictly earlier than `other`.
    pub fn is_before(&self, other: &Timestamp) -> (r: bool)
        ensures
            r == instant_lt(*self, *other),
    {
        self.secs < other.secs || (self.secs == other.secs && self.nanos < other.nanos)
    }
}

/// Where matched assets are sent.
#[derive(Debug, Clone, PartialEq)]
pub enum TargetAlbum {
    Existing { album_id: String },
    Managed { name: String, shared_with: Vec<String> },
}

/// Discriminator used in storage and the API layer.
#[derive(Debug, Clone, Copy, PartialEq, Eq, Structural)]
pub enum TargetAlbumKind {
    Existing,
    Managed,
}

impl TargetAlbum {
    pub fn kind(&self) -> (k: TargetAlbumKind)
        ensures
            k == (match self {
                TargetAlbum::Existing { .. } => TargetAlbumKind::Existing,
                TargetAlbum::Managed { .. } => TargetAlbumKind::Managed,
            }),
    {
        match self {
            TargetAlbum::Existing { .. } => TargetAlbumKind::Existing,
            TargetAlbum::Managed { .. } => TargetAlbumKind::Managed,
        }
    }
}

impl TargetAlbumKind {
    pub fn as_str(self) -> (s: &'static str)
        ensures
            s@ == (match self {
                TargetAlbumKind::Existing => "existing"@,
                TargetAlbumKind::Managed => "managed"@,
            }),
    {
        match self {
            TargetAlbumKind::Existing => "existing",
            TargetAlbumKind::Managed => "managed",
        }
    }
}

/// Inclusive date window; either bound may be absent.
#[derive(Debug, Clone, Copy, PartialEq, Eq, Structural)]
pub struct DatePredicate {
    pub from: Option<Timestamp>,
    pub to: Option<Timestamp>,
}

/// Geo-fence: `center` is `[lat, lng]` in degrees, `radius_km` in km.
#[derive(Debug, Clone, Copy, PartialEq, Eq)]
pub struct LocationPredicate {
    pub center: [FloatBits; 2],
    pub radius_km: FloatBits,
}

/// Identified-people constraints.
#[derive(Debug, Clone, Default, PartialEq)]
pub struct PeoplePredicate {
    pub must_include: Vec<String>,
    pub must_include_any_of: Vec<String>,
    pub may_include: Vec<String>,
    pub must_exclude: Vec<String>,
    pub must_exclude_other_identifiable: bool,
    pub no_unidentified_humans: bool,
}

/// Media-type filter; an empty list places no constraint.
#[derive(Debug, Clone, PartialEq)]
pub struct MediaPredicate {
    pub types: Vec<MediaType>,
}

#[derive(Debug, Clone, Copy, PartialEq, Eq, Structural)]
pub enum MediaType {
    Photo,
    Video,
}

#[derive(Debug, Clone, Copy, PartialEq, Eq, Structural)]
pub enum RuleStatus {
    Active,
    Archived,
    Paused,
}

impl Default for RuleStatus {
    fn default() -> (s: Self)
        ensures
            s == RuleStatus::Active,
    {
        RuleStatus::Active
    }
}

impl RuleStatus {
    pub fn as_str(self) -> (s: &'static str)
        ensures
            s@ == (match self {
                RuleStatus::Active => "active"@,
                RuleStatus::Archived => "archived"@,
                RuleStatus::Paused => "paused"@,
            }),
    {
        match self {
            RuleStatus::Active => "active",
            RuleStatus::Archived => "archived",
            RuleStatus::Paused => "paused",
        }
    }
}

/// The legacy flat match shape: every present predicate is ANDed; an absent
/// one places no constraint on its dimension.
#[derive(Debug, Clone, Default, PartialEq)]
pub struct MatchSpec {
    pub date: Option<DatePredicate>,
    pub location: Option<LocationPredicate>,
    pub people: Option<PeoplePredicate>,
    pub media: Option<MediaPredicate>,
}

impl MatchSpec {
    /// True when no predicate dimension is set.
    pub fn is_empty(&self) -> (r: bool)
        ensures
            r == (self.date is None && self.location is None && self.people is None
                && self.media is None),
    {
        self.date.is_none() && self.location.is_none() && self.people.is_none()
            && self.media.is_none()
    }

    /// True iff deciding the spec needs a YOLO person count: only
    /// `people.no_unidentified_humans` asks for one.
    pub fn requires_yolo(&self) -> (r: bool)
        ensures
            r == (self.people matches Some(p) && p.no_unidentified_humans),
    {
        match &self.people {
            Some(p) => p.no_unidentified_humans,
            None => false,
        }
    }
}

/// A complete rule as authored.
#[derive(Debug, PartialEq)]
pub struct Rule {
    pub id: Option<String>,
    pub name: String,
    pub target_album: TargetAlbum,
    pub match_: MatchExpr,
    pub status: RuleStatus,
}

/// Serialization helper: a `false` flag is left out of the written form.
pub fn is_false(b: &bool) -> (r: bool)
    ensures
        r == !*b,
{
    !*b
}

} // verus!
