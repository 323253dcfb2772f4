//! How screens stand relative to each other.

use crate::comms::Port;
pub use crate::geometry::Transform;
use crate::geometry::{Hori, MaybeCenter, Scale, Vert};
use crate::info::Resolution;
use vstd::prelude::*;

verus! {

/// Description of a screen layout,
/// based on relative positioning.
#[derive(Debug)]
pub struct Layout {
    pub screens: Vec<Screen>,
}

/// One screen of a relative layout.
#[derive(Copy, Clone, Debug, PartialEq, Eq)]
pub struct Screen {
    pub port: Port,
    pub resolution: Option<Resolution>,
    pub scale: Option<Scale>,
    pub transform: Transform,
    pub pos: Position,
}

/// Where a screen goes, seen from all that was placed before it: the edge
/// of the bounding box that it touches, and where along that edge it lies.
#[derive(Copy, Clone, Debug, PartialEq, Eq)]
#[allow(inconsistent_fields)]
pub enum Position {
    Hori { edge: Hori, spec: MaybeCenter<Vert> },
    Vert { edge: Vert, spec: MaybeCenter<Hori> },
}

impl Default for Position {
    fn default() -> (r: Self)
        ensures
            r == (Position::Hori { edge: Hori::Right, spec: MaybeCenter::Extreme(Vert::Top) }),
    {
        Position::Hori { edge: Hori::Right, spec: MaybeCenter::Extreme(Vert::Top) }
    }
}

impl Screen {
    /// The scale, if one is given, is a valid one.
    pub open spec fn wf(self) -> bool {
        self.scale matches Some(scale) ==> scale.wf()
    }
}

impl Layout {
    /// Every screen is valid.
    pub open spec fn wf(&self) -> bool {
        forall|i: int| 0 <= i < self.screens@.len() ==> (#[trigger] self.screens@[i]).wf()
    }
}

} // verus!
