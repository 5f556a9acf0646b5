//! The mods of a score, as the calculator reads them.
use vstd::prelude::*;

verus! {

/// Legacy bit of NoFail.
pub const NF: u32 = 1;
/// Legacy bit of Easy.
pub const EZ: u32 = 2;
/// Legacy bit of TouchDevice.
pub const TD: u32 = 4;
/// Legacy bit of Hidden.
pub const HD: u32 = 8;
/// Legacy bit of HardRock.
pub const HR: u32 = 16;
/// Legacy bit of DoubleTime.
pub const DT: u32 = 64;
/// Legacy bit of Relax.
pub const RX: u32 = 128;
/// Legacy bit of Nightcore (always together with DoubleTime's effect).
pub const NC: u32 = 512;
/// Legacy bit of Flashlight.
pub const FL: u32 = 1024;
/// Legacy bit of SpunOut.
pub const SO: u32 = 4096;
/// Legacy bit of Autopilot.
pub const AP: u32 = 8192;

/// Mods of a score: the legacy bits, and the lazer-only mods that the
/// calculator distinguishes.
#[derive(Clone, Copy, Debug, Default, PartialEq, Eq, Structural)]
pub struct GameMods {
    /// Legacy mod bits.
    pub bits: u32,
    /// Blinds (lazer only).
    pub blinds: bool,
    /// Traceable (lazer only).
    pub traceable: bool,
    /// Classic with slider head accuracy turned off (lazer only).
    pub classic: bool,
}

impl GameMods {
    /// Whether the legacy bit `bit` is set.
    pub open spec fn has_bit(self, bit: u32) -> bool {
        self.bits & bit != 0
    }

    fn has(&self, bit: u32) -> (b: bool)
        ensures
            b == self.has_bit(bit),
    {
        self.bits & bit != 0
    }

    /// NoFail.
    pub fn nf(&self) -> (b: bool)
        ensures
            b == self.has_bit(NF),
    {
        self.has(NF)
    }

    /// Easy.
    pub fn ez(&self) -> (b: bool)
        ensures
            b == self.has_bit(EZ),
    {
        self.has(EZ)
    }

    /// TouchDevice.
    pub fn td(&self) -> (b: bool)
        ensures
            b == self.has_bit(TD),
    {
        self.has(TD)
    }

    /// Hidden.
    pub fn hd(&self) -> (b: bool)
        ensures
            b == self.has_bit(HD),
    {
        self.has(HD)
    }

    /// HardRock.
    pub fn hr(&self) -> (b: bool)
        ensures
            b == self.has_bit(HR),
    {
        self.has(HR)
    }

    /// DoubleTime or Nightcore.
    pub fn dt(&self) -> (b: bool)
        ensures
            b == (self.has_bit(DT) || self.has_bit(NC)),
    {
        self.has(DT) || self.has(NC)
    }

    /// Relax.
    pub fn rx(&self) -> (b: bool)
        ensures
            b == self.has_bit(RX),
    {
        self.has(RX)
    }

    /// Autopilot.
    pub fn ap(&self) -> (b: bool)
        ensures
            b == self.has_bit(AP),
    {
        self.has(AP)
    }

    /// Flashlight.
    pub fn fl(&self) -> (b: bool)
        ensures
            b == self.has_bit(FL),
    {
        self.has(FL)
    }

    /// SpunOut.
    pub fn so(&self) -> (b: bool)
        ensures
            b == self.has_bit(SO),
    {
        self.has(SO)
    }

    /// Blinds.
    pub fn bl(&self) -> (b: bool)
        ensures
            b == self.blinds,
    {
        self.blinds
    }

    /// Traceable.
    pub fn tc(&self) -> (b: bool)
        ensures
            b == self.traceable,
    {
        self.traceable
    }

    /// Whether slider heads do not count for accuracy: always on osu!stable,
    /// and on osu!lazer with classic.
    pub fn no_slider_head_acc(&self, lazer: bool) -> (b: bool)
        ensures
            b == (self.classic || !lazer),
    {
        self.classic || !lazer
    }
}

} // verus!
