//! Reference frames and coordinate spaces that positions are given in.
use vstd::prelude::*;

verus! {

/// The two celestial reference frames that a survey or a view can use.
#[derive(Clone, Copy, Debug, PartialEq, Eq, Structural, Hash)]
pub enum CooSystem {
    ICRS,
    GAL,
}

/// Number of reference frames.
pub const NUM_COOSYSTEM: usize = 2;

/// Which of the three fixed rotations leads from one frame to another.
#[derive(Clone, Copy, Debug, PartialEq, Eq, Structural, Hash)]
pub enum FrameChange {
    Identity,
    GalToIcrs,
    IcrsToGal,
}

impl CooSystem {
    /// The rotation that takes positions of this frame to `target`: the
    /// identity exactly when the two frames are the same.
    pub fn to(&self, target: CooSystem) -> (r: FrameChange)
        ensures
            r == (match (*self, target) {
                (CooSystem::GAL, CooSystem::ICRS) => FrameChange::GalToIcrs,
                (CooSystem::ICRS, CooSystem::GAL) => FrameChange::IcrsToGal,
                _ => FrameChange::Identity,
            }),
            (r == FrameChange::Identity) == (*self == target),
    {
        match (*self, target) {
            (CooSystem::GAL, CooSystem::ICRS) => FrameChange::GalToIcrs,
            (CooSystem::ICRS, CooSystem::GAL) => FrameChange::IcrsToGal,
            _ => FrameChange::Identity,
        }
    }
}

/// How an angle is written out.
#[derive(Clone, Copy, Debug, PartialEq, Eq, Structural, Hash)]
pub enum Formatter {
    Sexagesimal,
    Decimal,
}

/// The spaces that a position goes through from the sky to the screen.
#[derive(Clone, Copy, Debug, PartialEq, Eq, Structural, Hash)]
pub enum CooSpace {
    Screen,
    NDC,
    Clip,
    World,
    Model,
    LonLat,
}

} // verus!
