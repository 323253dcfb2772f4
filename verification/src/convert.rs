//! Concretizes a [`relative::Layout`] into an [`absolute::Layout`].
//!
//! The screens are placed one after another. Each is set against the
//! bounding box of all that were placed before it, so their order matters.
//! In the end everything is moved so that the least corner of the bounding
//! box is the origin.

use crate::absolute;
use crate::absolute::{at_origin, is_hull, is_normalized_of, normalizable, vacant, OutputConfig};
use crate::comms::Port;
use crate::geometry::{fits, Interval, Rect, Scale, Size};
use crate::relative;
use crate::relative::{Position, Screen};
use vstd::prelude::*;

verus! {

/// Why a layout could not be made absolute.
#[derive(Copy, Clone, Debug, PartialEq, Eq)]
pub enum Error {
    /// A coordinate, a width or a height left the range of a pixel count.
    OutOfRange,
}

/// What has been placed so far: the bounding box and the outputs.
pub type Placement = (Rect, Map<Port, OutputConfig>);

/// How many pixels the screen has: as many as its resolution says, else as
/// many as the output that is connected at its port, else unknown.
pub open spec fn physical_size(screen: Screen, current: Map<Port, OutputConfig>) -> Option<Size> {
    match screen.resolution {
        Some(resolution) => Some(resolution.spec_size()),
        None => if current.contains_key(screen.port) {
            Some(current[screen.port].bounds.extent())
        } else {
            None
        },
    }
}

/// The scale of a screen that neither has one nor is connected: two for more
/// than 4000 pixels of height, else one.
pub open spec fn default_scale(size: Size) -> Scale {
    if size.height > 4000 {
        Scale::of(2, 0)
    } else {
        Scale::of(1, 0)
    }
}

/// The scale of the screen: its own, else that of the output that is
/// connected at its port, else the default for its size.
pub open spec fn chosen_scale(
    screen: Screen,
    current: Map<Port, OutputConfig>,
    size: Size,
) -> Scale {
    match screen.scale {
        Some(scale) => scale,
        None => if current.contains_key(screen.port) {
            current[screen.port].scale
        } else {
            default_scale(size)
        },
    }
}

/// How much room the screen takes in the layout: its size, turned as the
/// screen is turned and divided by its scale.
pub open spec fn logical_size(screen: Screen, size: Size, scale: Scale) -> Size {
    size.rotated(screen.transform.rotation).divided(scale)
}

/// Whether a screen of the given size can be set at `pos` against the
/// bounding box without a coordinate, a width or a height leaving the range
/// of a pixel count.
pub open spec fn bounds_fit(bb: Rect, size: Size, pos: Position) -> bool {
    &&& match pos {
        Position::Hori { edge, spec } => bb.x.outside_fits(size.width as int, edge.spec_side())
            && bb.y.inside_fits(size.height as int, spec.spec_side()),
        Position::Vert { edge, spec } => bb.x.inside_fits(size.width as int, spec.spec_side())
            && bb.y.outside_fits(size.height as int, edge.spec_side()),
    }
    &&& bounds_at(bb, size, pos).measurable()
}

/// Where a screen of the given size goes when it is set at `pos` against
/// the bounding box. On one axis it touches the box from outside, on the
/// other it lies along the box.
pub open spec fn bounds_at(bb: Rect, size: Size, pos: Position) -> Rect {
    match pos {
        Position::Hori { edge, spec } => Rect {
            x: bb.x.outside(size.width as int, edge.spec_side()),
            y: bb.y.inside(size.height as int, spec.spec_side()),
        },
        Position::Vert { edge, spec } => Rect {
            x: bb.x.inside(size.width as int, spec.spec_side()),
            y: bb.y.outside(size.height as int, edge.spec_side()),
        },
    }
}

/// The placement after one more screen. A screen of unknown size leaves
/// everything as it is. A screen that leaves the range of a pixel count
/// leaves no placement at all.
pub open spec fn step(
    state: Placement,
    screen: Screen,
    current: Map<Port, OutputConfig>,
) -> Option<Placement> {
    match physical_size(screen, current) {
        None => Some(state),
        Some(size) => {
            let scale = chosen_scale(screen, current, size);
            let room = logical_size(screen, size, scale);
            if bounds_fit(state.0, room, screen.pos) {
                let bounds = bounds_at(state.0, room, screen.pos);
                Some(
                    (
                        state.0.hull(bounds),
                        state.1.insert(
                            screen.port,
                            OutputConfig {
                                bounds,
                                resolution: Some(size),
                                scale,
                                transform: screen.transform,
                                active: true,
                            },
                        ),
                    ),
                )
            } else {
                None
            }
        },
    }
}

/// The placement before any screen: an empty bounding box at the origin and
/// no output.
pub open spec fn start() -> Placement {
    (
        Rect { x: Interval::spanning(0, 0), y: Interval::spanning(0, 0) },
        Map::empty(),
    )
}

/// The placement after the first `n` screens.
pub open spec fn placed_upto(
    screens: Seq<Screen>,
    current: Map<Port, OutputConfig>,
    n: nat,
) -> Option<Placement>
    decreases n,
{
    if n == 0 {
        Some(start())
    } else {
        match placed_upto(screens, current, (n - 1) as nat) {
            None => None,
            Some(state) => step(state, screens[n - 1], current),
        }
    }
}

/// The outputs after all screens were placed, not yet moved to the origin.
pub open spec fn placed(screens: Seq<Screen>, current: Map<Port, OutputConfig>) -> Option<
    Map<Port, OutputConfig>,
> {
    match placed_upto(screens, current, screens.len()) {
        None => None,
        Some(state) => Some(state.1),
    }
}

/// Once a screen has left the range, no placement comes back.
pub proof fn lemma_none_stays(
    screens: Seq<Screen>,
    current: Map<Port, OutputConfig>,
    i: nat,
    n: nat,
)
    requires
        i <= n,
        placed_upto(screens, current, i) is None,
    ensures
        placed_upto(screens, current, n) is None,
    decreases n,
{
    if i < n {
        lemma_none_stays(screens, current, i, (n - 1) as nat);
    }
}

/// Every output that was placed has a resolution and is active.
pub proof fn lemma_placed_outputs(
    screens: Seq<Screen>,
    current: Map<Port, OutputConfig>,
    n: nat,
    p: Port,
)
    requires
        placed_upto(screens, current, n) matches Some(state) && state.1.contains_key(p),
    ensures
        placed_upto(screens, current, n).unwrap().1[p].resolution is Some,
        placed_upto(screens, current, n).unwrap().1[p].active,
    decreases n,
{
    if n > 0 {
        let before = placed_upto(screens, current, (n - 1) as nat).unwrap();
        if before.1.contains_key(p) {
            lemma_placed_outputs(screens, current, (n - 1) as nat, p);
        }
    }
}

/// The bounding box of some outputs can be measured just when the outputs
/// can be moved to the origin.
pub proof fn lemma_hull_measurable(bb: Rect, m: Map<Port, OutputConfig>)
    requires
        is_hull(bb, m),
        forall|p: Port| #[trigger] m.contains_key(p) ==> m[p].wf(),
    ensures
        bb.measurable() <==> normalizable(m),
{
    if bb.measurable() {
        assert forall|p: Port, q: Port|
            #![trigger m.contains_key(p), m.contains_key(q)]
            m.contains_key(p) && m.contains_key(q) implies fits(
            m[q].bounds.x.hi() - m[p].bounds.x.lo(),
        ) && fits(m[q].bounds.y.hi() - m[p].bounds.y.lo()) by {
            assert(bb.encloses(m[p].bounds));
            assert(bb.encloses(m[q].bounds));
            assert(m[p].wf());
            assert(m[q].wf());
        }
    }
    if normalizable(m) {
        let xl = choose|p: Port| #[trigger] m.contains_key(p) && m[p].bounds.x.lo() == bb.x.lo();
        let xh = choose|p: Port| #[trigger] m.contains_key(p) && m[p].bounds.x.hi() == bb.x.hi();
        let yl = choose|p: Port| #[trigger] m.contains_key(p) && m[p].bounds.y.lo() == bb.y.lo();
        let yh = choose|p: Port| #[trigger] m.contains_key(p) && m[p].bounds.y.hi() == bb.y.hi();
        assert(m.contains_key(xl) && m.contains_key(xh));
        assert(m.contains_key(yl) && m.contains_key(yh));
    }
}

impl relative::Layout {
    /// Resolve the layout according to the currently connected displays.
    ///
    /// A screen that has no resolution and whose port is not among the
    /// connected ones is left out. Where a port comes more than once, its
    /// last screen stays.
    pub fn to_absolute(&self, current: &absolute::Layout) -> (r: Result<absolute::Layout, Error>)
        requires
            self.wf(),
            current.wf(),
        ensures
            match placed(self.screens@, current@) {
                Some(outputs) => if normalizable(outputs) {
                    r matches Ok(layout) && layout.wf() && is_normalized_of(layout@, outputs)
                } else {
                    r == Err::<absolute::Layout, Error>(Error::OutOfRange)
                },
                None => r == Err::<absolute::Layout, Error>(Error::OutOfRange),
            },
            r matches Ok(layout) ==> vacant(layout@) || at_origin(layout@),
            r matches Ok(layout) ==> layout@.dom().finite() && layout.entries().len()
                == layout@.dom().len(),
            r matches Ok(layout) ==> forall|p: Port| #[trigger]
                layout@.contains_key(p) ==> layout@[p].resolution is Some && layout@[p].active,
    {
        let mut placed: absolute::Layout = absolute::Layout::new();
        let mut bb: Rect = Rect::default();
        let n: usize = self.screens.len();
        let ghost screens = self.screens@;
        let ghost snapshot = current@;
        proof {
            bb.x.lemma_spanning_self();
            bb.y.lemma_spanning_self();
        }
        let mut i: usize = 0;
        while i < n
            invariant
                i <= n,
                n == screens.len(),
                screens == self.screens@,
                snapshot == current@,
                self.wf(),
                current.wf(),
                placed.wf(),
                bb.wf(),
                placed_upto(screens, snapshot, i as nat) == Some((bb, placed@)),
            decreases n - i,
        {
            let screen: Screen = self.screens[i];
            assert(screen == screens[i as int]);
            assert(screen.wf());
            let connected: Option<OutputConfig> = current.get(screen.port);
            let resolution: Option<Size> = match screen.resolution {
                Some(resolution) => Some(resolution.size()),
                None => match connected {
                    Some(cfg) => Some(cfg.bounds.size()),
                    None => None,
                },
            };
            assert(resolution == physical_size(screen, snapshot));
            // a screen that isn't connected does not affect the layout
            if let Some(size) = resolution {
                let scale: Scale = match screen.scale {
                    Some(scale) => scale,
                    None => match connected {
                        Some(cfg) => cfg.scale,
                        None => if size.height > 4000 {
                            Scale::whole(2)
                        } else {
                            Scale::whole(1)
                        },
                    },
                };
                assert(scale == chosen_scale(screen, snapshot, size));
                assert(scale.wf());
                // Which size the screen occupies in the *layout*, not physically:
                // for positioning, the scale has to be taken into account.
                let room: Size = size.rotate(screen.transform.rotation).divide(scale);
                // note: order of x/y placement does not actually matter
                // they don't have any influence on each other
                let (x, y) = match screen.pos {
                    // place left/right of bbox, then decide exact vertical placement
                    Position::Hori { edge, spec } => (
                        bb.x.try_place_outside(room.width, edge.side()),
                        bb.y.try_place_inside(room.height, spec.side()),
                    ),
                    // place top/bottom of bbox, then decide exact horizontal placement
                    Position::Vert { edge, spec } => (
                        bb.x.try_place_inside(room.width, spec.side()),
                        bb.y.try_place_outside(room.height, edge.side()),
                    ),
                };
                let bounds: Rect = match (x, y) {
                    (Some(x), Some(y)) => Rect { x, y },
                    _ => {
                        proof {
                            assert(!bounds_fit(bb, room, screen.pos));
                            lemma_none_stays(screens, snapshot, (i + 1) as nat, n as nat);
                        }
                        return Err(Error::OutOfRange);
                    },
                };
                assert(bounds == bounds_at(bb, room, screen.pos));
                if !bounds.is_measurable() {
                    proof {
                        lemma_none_stays(screens, snapshot, (i + 1) as nat, n as nat);
                    }
                    return Err(Error::OutOfRange);
                }
                // now that we've got the screen bounds, make sure it's actually
                // noticed by the bounding box
                // so future screens can be placed accordingly

                bb.stretch_to_rect(bounds);
                placed.add(
                    absolute::Output {
                        port: screen.port,
                        cfg: OutputConfig {
                            bounds,
                            scale,
                            resolution: Some(size),
                            transform: screen.transform,
                            active: true,
                        },
                    },
                );
            }
            i = i + 1;
        }
        let ghost raw = placed@;
        assert(self::placed(screens, snapshot) == Some(raw));
        proof {
            assert forall|p: Port| #[trigger] raw.contains_key(p) implies raw[p].wf() by {
                placed.lemma_cfg_wf(p);
            }
        }
        let hull: Rect = placed.bounding_box();
        if !placed.is_empty() {
            proof {
                lemma_hull_measurable(hull, raw);
            }
            if !hull.is_measurable() {
                return Err(Error::OutOfRange);
            }
        }
        placed.reset_to_origin();
        proof {
            placed.lemma_len();
            assert forall|p: Port| #[trigger] placed@.contains_key(p) implies placed@[p].resolution
                is Some && placed@[p].active by {
                if !vacant(raw) {
                    let (dx, dy) = choose|dx: int, dy: int|
                        absolute::is_moved(placed@, raw, dx, dy);
                    assert(absolute::is_moved(placed@, raw, dx, dy));
                    assert(raw.contains_key(p));
                    assert(placed@[p].is_moved(raw[p], dx, dy));
                    lemma_placed_outputs(screens, snapshot, n as nat, p);
                }
            }
        }
        Ok(placed)
    }
}

} // verus!
