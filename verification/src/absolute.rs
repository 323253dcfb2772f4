//! How each output is configured, as the window manager sees it.

use crate::comms::Port;
use crate::geometry::{fits, Point, Rect, Scale, Size, Transform};
use vstd::prelude::*;

verus! {

/// Configuration for a given output in the WM.
#[derive(Copy, Clone, Debug, PartialEq, Eq)]
pub struct OutputConfig {
    /// Where this output is placed in the WM.
    pub bounds: Rect,
    /// Unscaled physical resolution of the screen.
    /// [`None`] if the screen is not active.
    pub resolution: Option<Size>,
    /// With what size multiplier to have applications rendered
    /// if they are visible on this output.
    pub scale: Scale,
    /// How the output is flipped and rotated.
    pub transform: Transform,
    /// If the output is currently on and displaying.
    pub active: bool,
}

impl OutputConfig {
    /// The bounds are in order, width and height can be measured, and the
    /// scale is positive.
    pub open spec fn wf(self) -> bool {
        self.bounds.wf() && self.bounds.measurable() && self.scale.wf()
    }

    /// The configuration `from`, moved by `dx` to the right and `dy`
    /// downwards.
    pub open spec fn is_moved(self, from: OutputConfig, dx: int, dy: int) -> bool {
        &&& self.bounds.is_moved(from.bounds, dx, dy)
        &&& self.resolution == from.resolution
        &&& self.scale == from.scale
        &&& self.transform == from.transform
        &&& self.active == from.active
    }
}

/// Something that the WM can display to. Usually a screen.
#[derive(Copy, Clone, Debug, PartialEq, Eq)]
pub struct Output {
    /// Where this output is physically connected.
    pub port: Port,
    /// Properties of this output, like position and scale.
    pub cfg: OutputConfig,
}

/// Version of [`Output`] where every field is a reference.
#[derive(Copy, Clone, Debug, PartialEq, Eq)]
pub struct OutputRef<'layout> {
    pub port: &'layout Port,
    pub cfg: &'layout OutputConfig,
}

impl<'layout> OutputRef<'layout> {
    /// The output that is referred to.
    pub fn to_output(&self) -> (r: Output)
        ensures
            r == (Output { port: *self.port, cfg: *self.cfg }),
    {
        Output { port: *self.port, cfg: *self.cfg }
    }
}

impl<'layout> From<OutputRef<'layout>> for Output {
    fn from(output: OutputRef<'layout>) -> (r: Output) {
        output.to_output()
    }
}

impl<'layout> vstd::std_specs::convert::FromSpecImpl<OutputRef<'layout>> for Output {
    open spec fn obeys_from_spec() -> bool {
        true
    }

    open spec fn from_spec(output: OutputRef<'layout>) -> Output {
        Output { port: *output.port, cfg: *output.cfg }
    }
}

impl<'layout> From<&'layout Output> for OutputRef<'layout> {
    fn from(output: &'layout Output) -> (r: OutputRef<'layout>) {
        output.as_ref()
    }
}

impl<'layout> vstd::std_specs::convert::FromSpecImpl<&'layout Output> for OutputRef<'layout> {
    open spec fn obeys_from_spec() -> bool {
        true
    }

    open spec fn from_spec(output: &'layout Output) -> OutputRef<'layout> {
        OutputRef { port: &output.port, cfg: &output.cfg }
    }
}

impl Output {
    /// The output with every field as a reference.
    pub fn as_ref(&self) -> (r: OutputRef<'_>)
        ensures
            r == (OutputRef { port: &self.port, cfg: &self.cfg }),
    {
        OutputRef { port: &self.port, cfg: &self.cfg }
    }
}

/// Whether no port has an output.
pub open spec fn vacant(m: Map<Port, OutputConfig>) -> bool {
    forall|p: Port| !m.contains_key(p)
}

/// Whether `bb` is the smallest rectangle that includes the bounds of all
/// outputs: it encloses each of them, and each of its four sides is the side
/// of one of them.
pub open spec fn is_hull(bb: Rect, m: Map<Port, OutputConfig>) -> bool {
    &&& bb.wf()
    &&& forall|p: Port| #[trigger] m.contains_key(p) ==> bb.encloses(m[p].bounds)
    &&& exists|p: Port| #[trigger] m.contains_key(p) && m[p].bounds.x.lo() == bb.x.lo()
    &&& exists|p: Port| #[trigger] m.contains_key(p) && m[p].bounds.x.hi() == bb.x.hi()
    &&& exists|p: Port| #[trigger] m.contains_key(p) && m[p].bounds.y.lo() == bb.y.lo()
    &&& exists|p: Port| #[trigger] m.contains_key(p) && m[p].bounds.y.hi() == bb.y.hi()
}

/// Whether the outputs can be moved to the origin: their bounding box has a
/// width and a height that a pixel count can hold.
pub open spec fn normalizable(m: Map<Port, OutputConfig>) -> bool {
    forall|p: Port, q: Port|
        #![trigger m.contains_key(p), m.contains_key(q)]
        m.contains_key(p) && m.contains_key(q) ==> fits(m[q].bounds.x.hi() - m[p].bounds.x.lo())
            && fits(m[q].bounds.y.hi() - m[p].bounds.y.lo())
}

/// Whether the least x and the least y among all bounds are zero.
pub open spec fn at_origin(m: Map<Port, OutputConfig>) -> bool {
    &&& forall|p: Port| #[trigger]
        m.contains_key(p) ==> m[p].bounds.x.lo() >= 0 && m[p].bounds.y.lo() >= 0
    &&& exists|p: Port| #[trigger] m.contains_key(p) && m[p].bounds.x.lo() == 0
    &&& exists|p: Port| #[trigger] m.contains_key(p) && m[p].bounds.y.lo() == 0
}

/// Whether `after` has the outputs of `before`, each moved by `dx` to the
/// right and `dy` downwards.
pub open spec fn is_moved(
    after: Map<Port, OutputConfig>,
    before: Map<Port, OutputConfig>,
    dx: int,
    dy: int,
) -> bool {
    &&& forall|p: Port| after.contains_key(p) == before.contains_key(p)
    &&& forall|p: Port| #[trigger] before.contains_key(p) ==> after[p].is_moved(before[p], dx, dy)
}

/// Whether `after` is `before` with all outputs moved by the same amount, so
/// that the least x and the least y among all bounds are zero. Without any
/// output there is nothing to move.
pub open spec fn is_normalized_of(
    after: Map<Port, OutputConfig>,
    before: Map<Port, OutputConfig>,
) -> bool {
    if vacant(before) {
        vacant(after)
    } else {
        at_origin(after) && exists|dx: int, dy: int| is_moved(after, before, dx, dy)
    }
}

/// The outputs in the order given, as a mapping: where a port comes more
/// than once, its last output stays.
pub open spec fn collected(outputs: Seq<Output>) -> Map<Port, OutputConfig>
    decreases outputs.len(),
{
    if outputs.len() == 0 {
        Map::empty()
    } else {
        collected(outputs.drop_last()).insert(outputs.last().port, outputs.last().cfg)
    }
}

/// Outputs whose least x and y are zero stay as they are when they are
/// moved to the origin.
pub proof fn lemma_normalized_stays(before: Map<Port, OutputConfig>, after: Map<Port, OutputConfig>)
    requires
        vacant(before) || at_origin(before),
        is_normalized_of(after, before),
    ensures
        after == before,
{
    if vacant(before) {
        assert(after =~= before);
    } else {
        let (dx, dy) = choose|dx: int, dy: int| is_moved(after, before, dx, dy);
        assert(is_moved(after, before, dx, dy));
        let bx = choose|p: Port| #[trigger] before.contains_key(p) && before[p].bounds.x.lo() == 0;
        let ax = choose|p: Port| #[trigger] after.contains_key(p) && after[p].bounds.x.lo() == 0;
        let by = choose|p: Port| #[trigger] before.contains_key(p) && before[p].bounds.y.lo() == 0;
        let ay = choose|p: Port| #[trigger] after.contains_key(p) && after[p].bounds.y.lo() == 0;
        assert(after.contains_key(bx) && after[bx].is_moved(before[bx], dx, dy));
        assert(before.contains_key(ax) && after[ax].is_moved(before[ax], dx, dy));
        assert(after.contains_key(by) && after[by].is_moved(before[by], dx, dy));
        assert(before.contains_key(ay) && after[ay].is_moved(before[ay], dx, dy));
        assert(dx == 0 && dy == 0);
        assert forall|p: Port| before.contains_key(p) implies after[p] == before[p] by {
            assert(after[p].is_moved(before[p], dx, dy));
            after[p].bounds.lemma_same_bounds(before[p].bounds);
        }
        assert(after =~= before);
    }
}

/// Moving outputs to the origin a second time changes nothing.
pub proof fn lemma_normalize_twice(
    first: Map<Port, OutputConfig>,
    second: Map<Port, OutputConfig>,
    third: Map<Port, OutputConfig>,
)
    requires
        is_normalized_of(second, first),
        is_normalized_of(third, second),
    ensures
        third == second,
{
    if vacant(first) {
        assert(vacant(second));
    } else {
        let (dx, dy) = choose|dx: int, dy: int| is_moved(second, first, dx, dy);
        assert(is_moved(second, first, dx, dy));
    }
    lemma_normalized_stays(second, third);
}

/// Whether one of the entries is for the port `p`.
pub open spec fn holds(entries: Seq<Output>, p: Port) -> bool {
    exists|i: int| 0 <= i < entries.len() && (#[trigger] entries[i]).port == p
}

/// The place of the entry for the port `p`.
pub open spec fn index_of(entries: Seq<Output>, p: Port) -> int {
    choose|i: int| 0 <= i < entries.len() && (#[trigger] entries[i]).port == p
}

/// The entries as a mapping from port to configuration.
pub open spec fn map_of(entries: Seq<Output>) -> Map<Port, OutputConfig> {
    Map::new(|p: Port| holds(entries, p), |p: Port| entries[index_of(entries, p)].cfg)
}

/// Whether the entries are in the order of their ports, each port once.
pub open spec fn sorted(entries: Seq<Output>) -> bool {
    forall|i: int, j: int|
        0 <= i < j < entries.len() ==> (#[trigger] entries[i]).port.key() < (
        #[trigger] entries[j]).port.key()
}

/// In sorted entries each port is found at one place only.
pub proof fn lemma_index_of(entries: Seq<Output>, i: int)
    requires
        sorted(entries),
        0 <= i < entries.len(),
    ensures
        holds(entries, entries[i].port),
        index_of(entries, entries[i].port) == i,
        map_of(entries).contains_key(entries[i].port),
        map_of(entries)[entries[i].port] == entries[i].cfg,
{
    let p = entries[i].port;
    assert(holds(entries, p));
    let k = index_of(entries, p);
    assert(0 <= k < entries.len() && entries[k].port == p);
    if k < i {
        assert(entries[k].port.key() < entries[i].port.key());
    }
    if i < k {
        assert(entries[i].port.key() < entries[k].port.key());
    }
}

/// What the mapping holds is found among the entries.
pub proof fn lemma_map_of(entries: Seq<Output>, p: Port)
    requires
        sorted(entries),
        map_of(entries).contains_key(p),
    ensures
        0 <= index_of(entries, p) < entries.len(),
        entries[index_of(entries, p)].port == p,
        entries[index_of(entries, p)].cfg == map_of(entries)[p],
{
}

/// Entries with one more put in at its place are what they stood for, with
/// the new one added.
pub proof fn lemma_insert(entries: Seq<Output>, i: int, output: Output)
    requires
        sorted(entries),
        0 <= i <= entries.len(),
        forall|j: int| 0 <= j < i ==> (#[trigger] entries[j]).port.key() < output.port.key(),
        forall|j: int|
            i <= j < entries.len() ==> (#[trigger] entries[j]).port.key() > output.port.key(),
    ensures
        sorted(entries.insert(i, output)),
        map_of(entries.insert(i, output)) == map_of(entries).insert(output.port, output.cfg),
{
    let after = entries.insert(i, output);
    assert forall|a: int, b: int| 0 <= a < b < after.len() implies (#[trigger] after[a]).port.key()
        < (#[trigger] after[b]).port.key() by {
        let a0 = if a < i {
            a
        } else {
            a - 1
        };
        let b0 = if b < i {
            b
        } else {
            b - 1
        };
        if a != i && b != i {
            assert(after[a] == entries[a0]);
            assert(after[b] == entries[b0]);
            assert(entries[a0].port.key() < entries[b0].port.key());
        } else if a == i {
            assert(after[b] == entries[b0]);
        } else {
            assert(after[a] == entries[a0]);
        }
    }
    let want = map_of(entries).insert(output.port, output.cfg);
    assert forall|p: Port| map_of(after).contains_key(p) == want.contains_key(p) by {
        if holds(after, p) {
            let k = index_of(after, p);
            if k < i {
                assert(entries[k].port == p);
            } else if k > i {
                assert(entries[k - 1].port == p);
            }
        }
        if holds(entries, p) {
            let k = index_of(entries, p);
            if k < i {
                assert(after[k].port == p);
            } else {
                assert(after[k + 1].port == p);
            }
        }
        if p == output.port {
            assert(after[i].port == p);
        }
    }
    assert forall|p: Port| map_of(after).contains_key(p) implies map_of(after)[p] == want[p] by {
        let k = index_of(after, p);
        lemma_index_of(after, k);
        if k < i {
            lemma_index_of(entries, k);
            if p == output.port {
                assert(entries[k].port.key() < output.port.key());
            }
        } else if k > i {
            lemma_index_of(entries, k - 1);
            if p == output.port {
                assert(entries[k - 1].port.key() > output.port.key());
            }
        } else {
            assert(after[i] == output);
        }
    }
    assert(map_of(after) =~= want);
}

/// Entries with one of them replaced by another for the same port are what
/// they stood for, with the new one in place of the old.
pub proof fn lemma_replace(entries: Seq<Output>, i: int, output: Output)
    requires
        sorted(entries),
        0 <= i < entries.len(),
        entries[i].port == output.port,
    ensures
        sorted(entries.update(i, output)),
        map_of(entries.update(i, output)) == map_of(entries).insert(output.port, output.cfg),
{
    let after = entries.update(i, output);
    assert forall|a: int, b: int| 0 <= a < b < after.len() implies (#[trigger] after[a]).port.key()
        < (#[trigger] after[b]).port.key() by {
        assert(after[a].port == entries[a].port);
        assert(after[b].port == entries[b].port);
        assert(entries[a].port.key() < entries[b].port.key());
    }
    let want = map_of(entries).insert(output.port, output.cfg);
    assert forall|p: Port| map_of(after).contains_key(p) == want.contains_key(p) by {
        if holds(after, p) {
            let k = index_of(after, p);
            assert(entries[k].port == p);
        }
        if holds(entries, p) {
            let k = index_of(entries, p);
            assert(after[k].port == p);
        }
        if p == output.port {
            assert(after[i].port == p);
        }
    }
    assert forall|p: Port| map_of(after).contains_key(p) implies map_of(after)[p] == want[p] by {
        let k = index_of(after, p);
        lemma_index_of(after, k);
        assert(after[k].port == entries[k].port);
        lemma_index_of(entries, k);
        if k != i {
            if p == output.port {
                lemma_index_of(entries, i);
            }
        }
    }
    assert(map_of(after) =~= want);
}

/// Sorted entries stand for as many ports as there are entries.
pub proof fn lemma_map_of_len(entries: Seq<Output>)
    requires
        sorted(entries),
    ensures
        map_of(entries).dom().finite(),
        map_of(entries).dom().len() == entries.len(),
    decreases entries.len(),
{
    if entries.len() == 0 {
        assert(map_of(entries).dom() =~= Set::<Port>::empty());
    } else {
        let shorter = entries.drop_last();
        let last = entries.last();
        let n = shorter.len() as int;
        assert forall|i: int, j: int| 0 <= i < j < shorter.len() implies (
        #[trigger] shorter[i]).port.key() < (#[trigger] shorter[j]).port.key() by {
            assert(shorter[i] == entries[i]);
            assert(shorter[j] == entries[j]);
            assert(entries[i].port.key() < entries[j].port.key());
        }
        assert forall|j: int| 0 <= j < n implies (#[trigger] shorter[j]).port.key()
            < last.port.key() by {
            assert(shorter[j] == entries[j]);
            assert(entries[j].port.key() < entries[n].port.key());
        }
        lemma_map_of_len(shorter);
        lemma_insert(shorter, n, last);
        assert(shorter.insert(n, last) =~= entries);
        if map_of(shorter).contains_key(last.port) {
            lemma_map_of(shorter, last.port);
            let k = index_of(shorter, last.port);
            assert(shorter[k].port.key() < last.port.key());
        }
        assert(map_of(entries).dom() =~= map_of(shorter).dom().insert(last.port));
    }
}

/// How each output should be configured,
/// as seen from the WM: a mapping from port to configuration, kept in the
/// order of the ports.
#[derive(Debug)]
pub struct Layout {
    outputs: Vec<Output>,
}

impl View for Layout {
    type V = Map<Port, OutputConfig>;

    open spec fn view(&self) -> Map<Port, OutputConfig> {
        map_of(self.entries())
    }
}

impl Default for Layout {
    fn default() -> (r: Self)
        ensures
            r.wf(),
            r@ == Map::<Port, OutputConfig>::empty(),
    {
        Layout::new()
    }
}

impl Layout {
    /// The outputs in the order of their ports.
    pub closed spec fn entries(&self) -> Seq<Output> {
        self.outputs@
    }

    /// The outputs are in the order of their ports, each port once, and
    /// every configuration is valid.
    pub open spec fn wf(&self) -> bool {
        &&& sorted(self.entries())
        &&& forall|i: int| 0 <= i < self.entries().len() ==> (#[trigger] self.entries()[i]).cfg.wf()
    }

    /// Every configuration in a valid layout is valid.
    pub proof fn lemma_cfg_wf(&self, p: Port)
        requires
            self.wf(),
            self@.contains_key(p),
        ensures
            self@[p].wf(),
    {
        lemma_map_of(self.entries(), p);
    }

    /// A layout without outputs.
    #[must_use]
    pub fn new() -> (r: Self)
        ensures
            r.wf(),
            r.entries().len() == 0,
            r@ == Map::<Port, OutputConfig>::empty(),
    {
        let r = Layout { outputs: Vec::new() };
        proof {
            assert(r@ =~= Map::<Port, OutputConfig>::empty());
        }
        r
    }

    /// A valid layout has as many outputs as ports have one.
    pub proof fn lemma_len(&self)
        requires
            self.wf(),
        ensures
            self@.dom().finite(),
            self@.dom().len() == self.entries().len(),
    {
        lemma_map_of_len(self.entries());
    }

    /// How many outputs the layout has: in a valid layout, how many ports
    /// have one.
    pub fn len(&self) -> (r: usize)
        ensures
            r == self.entries().len(),
            self.wf() ==> self@.dom().finite() && r == self@.dom().len(),
    {
        proof {
            if self.wf() {
                self.lemma_len();
            }
        }
        self.outputs.len()
    }

    /// Whether the layout has no output.
    pub fn is_empty(&self) -> (r: bool)
        ensures
            r == (self.entries().len() == 0),
            r == vacant(self@),
    {
        proof {
            if self.outputs@.len() > 0 {
                assert(holds(self.entries(), self.entries()[0].port));
                assert(self@.contains_key(self.entries()[0].port));
            }
        }
        self.outputs.len() == 0
    }

    /// The place of the first output whose port is not before `port`.
    fn position(&self, port: Port) -> (r: usize)
        requires
            self.wf(),
        ensures
            r <= self.entries().len(),
            forall|j: int| 0 <= j < r ==> (#[trigger] self.entries()[j]).port.key() < port.key(),
            forall|j: int|
                r <= j < self.entries().len() ==> (#[trigger] self.entries()[j]).port.key()
                    >= port.key(),
    {
        let key: u64 = port.sort_key();
        let n: usize = self.outputs.len();
        let mut i: usize = 0;
        while i < n
            invariant
                i <= n,
                n == self.entries().len(),
                self.wf(),
                key == port.key(),
                forall|j: int| 0 <= j < i ==> (#[trigger] self.entries()[j]).port.key() < key,
            decreases n - i,
        {
            if self.outputs[i].port.sort_key() >= key {
                assert forall|j: int| i <= j < self.entries().len() implies (
                #[trigger] self.entries()[j]).port.key() >= port.key() by {
                    if i < j {
                        assert(self.entries()[i as int].port.key() < self.entries()[j].port.key());
                    }
                }
                return i;
            }
            i = i + 1;
        }
        i
    }

    /// Sets the output at its port. An output that was there before is
    /// replaced.
    pub fn add(&mut self, output: Output)
        requires
            old(self).wf(),
            output.cfg.wf(),
        ensures
            final(self).wf(),
            final(self)@ == old(self)@.insert(output.port, output.cfg),
            final(self).entries().len() == old(self).entries().len() + (if old(self)@.contains_key(
                output.port,
            ) {
                0int
            } else {
                1int
            }),
    {
        let i: usize = self.position(output.port);
        if i < self.outputs.len() && self.outputs[i].port.sort_key() == output.port.sort_key() {
            proof {
                self.entries()[i as int].port.lemma_key_unique(output.port);
                lemma_replace(self.entries(), i as int, output);
                lemma_index_of(self.entries(), i as int);
            }
            self.outputs[i] = output;
        } else {
            proof {
                lemma_insert(self.entries(), i as int, output);
                if self@.contains_key(output.port) {
                    lemma_map_of(self.entries(), output.port);
                    let k = index_of(self.entries(), output.port);
                    assert(self.entries()[k].port.key() == output.port.key());
                }
            }
            self.outputs.insert(i, output);
        }
    }

    /// The smallest rectangle that includes all output bounds. Without any
    /// output it is the empty rectangle at the origin.
    pub fn bounding_box(&self) -> (r: Rect)
        requires
            self.wf(),
        ensures
            r.wf(),
            vacant(self@) ==> r.x.lo() == 0 && r.x.hi() == 0 && r.y.lo() == 0 && r.y.hi() == 0,
            !vacant(self@) ==> is_hull(r, self@),
    {
        let n: usize = self.outputs.len();
        if self.is_empty() {
            return Rect::default();
        }
        let mut bb: Rect = self.outputs[0].cfg.bounds;
        let ghost mut at_x_lo: int = 0;
        let ghost mut at_x_hi: int = 0;
        let ghost mut at_y_lo: int = 0;
        let ghost mut at_y_hi: int = 0;
        let mut i: usize = 1;
        while i < n
            invariant
                1 <= i <= n,
                n == self.entries().len(),
                self.wf(),
                bb.wf(),
                forall|j: int| 0 <= j < i ==> bb.encloses((#[trigger] self.entries()[j]).cfg.bounds),
                0 <= at_x_lo < i && self.entries()[at_x_lo].cfg.bounds.x.lo() == bb.x.lo(),
                0 <= at_x_hi < i && self.entries()[at_x_hi].cfg.bounds.x.hi() == bb.x.hi(),
                0 <= at_y_lo < i && self.entries()[at_y_lo].cfg.bounds.y.lo() == bb.y.lo(),
                0 <= at_y_hi < i && self.entries()[at_y_hi].cfg.bounds.y.hi() == bb.y.hi(),
            decreases n - i,
        {
            let bounds: Rect = self.outputs[i].cfg.bounds;
            let ghost before = bb;
            assert(self.entries()[i as int].cfg.wf());
            bb.stretch_to_rect(bounds);
            proof {
                if bounds.x.lo() < before.x.lo() {
                    at_x_lo = i as int;
                }
                if bounds.x.hi() > before.x.hi() {
                    at_x_hi = i as int;
                }
                if bounds.y.lo() < before.y.lo() {
                    at_y_lo = i as int;
                }
                if bounds.y.hi() > before.y.hi() {
                    at_y_hi = i as int;
                }
                assert forall|j: int| 0 <= j < i + 1 implies bb.encloses(
                    (#[trigger] self.entries()[j]).cfg.bounds,
                ) by {
                    if j < i {
                        assert(before.encloses(self.entries()[j].cfg.bounds));
                    }
                }
            }
            i = i + 1;
        }
        proof {
            let entries = self.entries();
            assert forall|p: Port| #[trigger] self@.contains_key(p) implies bb.encloses(
                self@[p].bounds,
            ) by {
                lemma_map_of(entries, p);
            }
            lemma_index_of(entries, at_x_lo);
            lemma_index_of(entries, at_x_hi);
            lemma_index_of(entries, at_y_lo);
            lemma_index_of(entries, at_y_hi);
        }
        bb
    }

    /// Move all outputs so that the bounding box has a corner at the origin.
    /// Their relative positions to each other aren't changed.
    ///
    /// This implies moving all bounds into the positive space.
    /// Some applications appear to only use unsigned numbers
    /// for their absolute positions,
    /// so this might fix their inputs.
    pub fn reset_to_origin(&mut self)
        requires
            old(self).wf(),
            normalizable(old(self)@),
        ensures
            final(self).wf(),
            is_normalized_of(final(self)@, old(self)@),
            !vacant(old(self)@) ==> at_origin(final(self)@),
            vacant(old(self)@) || at_origin(old(self)@) ==> final(self)@ == old(self)@,
            final(self).entries().len() == old(self).entries().len(),
    {
        proof {
            if vacant(self@) {
                lemma_normalized_stays(self@, self@);
            }
        }
        let ghost start = self@;
        // find out how much we need to move
        let bb: Rect = self.bounding_box();
        let least = Point { x: bb.x.start(), y: bb.y.start() };
        let n: usize = self.outputs.len();
        if self.is_empty() {
            return ;
        }
        let ghost before = self.entries();
        proof {
            assert forall|j: int| 0 <= j < n implies {
                &&& 0 <= (#[trigger] before[j]).cfg.bounds.x.lo() - least.x
                &&& fits(before[j].cfg.bounds.x.hi() - least.x)
                &&& 0 <= before[j].cfg.bounds.y.lo() - least.y
                &&& fits(before[j].cfg.bounds.y.hi() - least.y)
            } by {
                lemma_index_of(before, j);
                let p = choose|p: Port| #[trigger]
                    self@.contains_key(p) && self@[p].bounds.x.lo() == bb.x.lo();
                let q = choose|q: Port| #[trigger]
                    self@.contains_key(q) && self@[q].bounds.y.lo() == bb.y.lo();
                assert(self@.contains_key(p) && self@.contains_key(before[j].port));
                assert(self@.contains_key(q) && self@.contains_key(before[j].port));
                assert(bb.encloses(self@[before[j].port].bounds));
                assert(before[j].cfg.wf());
            }
        }
        // then actually do move everything
        let mut i: usize = 0;
        while i < n
            invariant
                i <= n,
                n == before.len(),
                n == self.entries().len(),
                sorted(before),
                least.x == bb.x.lo(),
                least.y == bb.y.lo(),
                forall|j: int| 0 <= j < n ==> (#[trigger] before[j]).cfg.wf(),
                forall|j: int|
                    0 <= j < n ==> {
                        &&& 0 <= (#[trigger] before[j]).cfg.bounds.x.lo() - least.x
                        &&& fits(before[j].cfg.bounds.x.hi() - least.x)
                        &&& 0 <= before[j].cfg.bounds.y.lo() - least.y
                        &&& fits(before[j].cfg.bounds.y.hi() - least.y)
                    },
                forall|j: int|
                    0 <= j < n ==> (#[trigger] self.entries()[j]).port == before[j].port,
                forall|j: int|
                    0 <= j < i ==> (#[trigger] self.entries()[j]).cfg.is_moved(
                        before[j].cfg,
                        -(least.x as int),
                        -(least.y as int),
                    ),
                forall|j: int| 0 <= j < i ==> (#[trigger] self.entries()[j]).cfg.wf(),
                forall|j: int| i <= j < n ==> (#[trigger] self.entries()[j]) == before[j],
            decreases n - i,
        {
            let ghost current = self.entries();
            let mut output: Output = self.outputs[i];
            assert(output == before[i as int]);
            assert(before[i as int].cfg.wf());
            output.cfg.bounds = output.cfg.bounds.shifted_back(least);
            self.outputs[i] = output;
            proof {
                assert(self.entries() == current.update(i as int, output));
                assert forall|j: int| 0 <= j < n implies (#[trigger] self.entries()[j]).port
                    == before[j].port by {
                    assert(current[j].port == before[j].port);
                }
                assert forall|j: int| 0 <= j < i + 1 implies (
                #[trigger] self.entries()[j]).cfg.is_moved(
                    before[j].cfg,
                    -(least.x as int),
                    -(least.y as int),
                ) by {
                    if j < i {
                        assert(current[j].cfg.is_moved(
                            before[j].cfg,
                            -(least.x as int),
                            -(least.y as int),
                        ));
                    }
                }
                assert forall|j: int| 0 <= j < i + 1 implies (#[trigger] self.entries()[j]).cfg.wf() by {
                    if j < i {
                        assert(current[j].cfg.wf());
                    }
                }
                assert forall|j: int| i + 1 <= j < n implies (#[trigger] self.entries()[j])
                    == before[j] by {
                    assert(current[j] == before[j]);
                }
            }
            i = i + 1;
        }
        proof {
            let after = self.entries();
            let dx = -(least.x as int);
            let dy = -(least.y as int);
            assert forall|a: int, b: int| 0 <= a < b < after.len() implies (
            #[trigger] after[a]).port.key() < (#[trigger] after[b]).port.key() by {
                assert(after[a].port == before[a].port);
                assert(after[b].port == before[b].port);
                assert(before[a].port.key() < before[b].port.key());
            }
            assert forall|p: Port| map_of(after).contains_key(p) == map_of(before).contains_key(
                p,
            ) by {
                if holds(after, p) {
                    let k = index_of(after, p);
                    assert(before[k].port == p);
                }
                if holds(before, p) {
                    let k = index_of(before, p);
                    assert(after[k].port == p);
                }
            }
            assert forall|p: Port| #[trigger] map_of(before).contains_key(p) implies map_of(
                after,
            )[p].is_moved(map_of(before)[p], dx, dy) by {
                lemma_map_of(before, p);
                let k = index_of(before, p);
                assert(after[k].port == p);
                lemma_index_of(after, k);
            }
            assert(is_moved(map_of(after), map_of(before), dx, dy));
            assert forall|p: Port| #[trigger] map_of(after).contains_key(p) implies map_of(
                after,
            )[p].bounds.x.lo() >= 0 && map_of(after)[p].bounds.y.lo() >= 0 by {
                lemma_map_of(after, p);
                let k = index_of(after, p);
                assert(after[k].cfg.is_moved(before[k].cfg, dx, dy));
            }
            let px = choose|p: Port| #[trigger]
                map_of(before).contains_key(p) && map_of(before)[p].bounds.x.lo() == bb.x.lo();
            let py = choose|p: Port| #[trigger]
                map_of(before).contains_key(p) && map_of(before)[p].bounds.y.lo() == bb.y.lo();
            assert(map_of(after).contains_key(px) && map_of(after)[px].bounds.x.lo() == 0);
            assert(map_of(after).contains_key(py) && map_of(after)[py].bounds.y.lo() == 0);
            assert(at_origin(map_of(after)));
            assert(is_normalized_of(map_of(after), start));
            if at_origin(start) {
                lemma_normalized_stays(start, map_of(after));
            }
        }
    }

    /// The outputs in the order of their ports.
    pub fn outputs(&self) -> (r: Vec<OutputRef<'_>>)
        ensures
            r@.len() == self.entries().len(),
            forall|i: int|
                0 <= i < r@.len() ==> *(#[trigger] r@[i]).port == self.entries()[i].port
                    && *r@[i].cfg == self.entries()[i].cfg,
    {
        let n: usize = self.outputs.len();
        let mut r: Vec<OutputRef<'_>> = Vec::new();
        let mut i: usize = 0;
        while i < n
            invariant
                i <= n,
                n == self.entries().len(),
                r@.len() == i,
                forall|j: int|
                    0 <= j < i ==> *(#[trigger] r@[j]).port == self.entries()[j].port
                        && *r@[j].cfg == self.entries()[j].cfg,
            decreases n - i,
        {
            r.push(self.outputs[i].as_ref());
            i = i + 1;
        }
        r
    }

    /// The layout of the given outputs. Where a port comes more than once,
    /// its last output stays.
    pub fn from_outputs(outputs: Vec<Output>) -> (r: Self)
        requires
            forall|i: int| 0 <= i < outputs@.len() ==> (#[trigger] outputs@[i]).cfg.wf(),
        ensures
            r.wf(),
            r@ == collected(outputs@),
            r@.dom().finite(),
            r.entries().len() == r@.dom().len(),
    {
        let n: usize = outputs.len();
        let mut layout: Layout = Layout::new();
        let mut i: usize = 0;
        proof {
            assert(layout@ =~= collected(outputs@.take(0)));
        }
        while i < n
            invariant
                i <= n,
                n == outputs@.len(),
                layout.wf(),
                layout@ == collected(outputs@.take(i as int)),
                forall|i: int| 0 <= i < outputs@.len() ==> (#[trigger] outputs@[i]).cfg.wf(),
            decreases n - i,
        {
            layout.add(outputs[i]);
            proof {
                assert(outputs@.take(i + 1).drop_last() =~= outputs@.take(i as int));
            }
            i = i + 1;
        }
        proof {
            assert(outputs@.take(n as int) =~= outputs@);
            layout.lemma_len();
        }
        layout
    }

    /// The configuration of the output at `port`, if there is one.
    pub fn get(&self, port: Port) -> (r: Option<OutputConfig>)
        requires
            self.wf(),
        ensures
            r is Some <==> self@.contains_key(port),
            r matches Some(cfg) ==> cfg == self@[port] && cfg.wf(),
    {
        let i: usize = self.position(port);
        if i < self.outputs.len() && self.outputs[i].port.sort_key() == port.sort_key() {
            proof {
                self.entries()[i as int].port.lemma_key_unique(port);
                lemma_index_of(self.entries(), i as int);
            }
            Some(self.outputs[i].cfg)
        } else {
            proof {
                if self@.contains_key(port) {
                    lemma_map_of(self.entries(), port);
                    let k = index_of(self.entries(), port);
                    assert(self.entries()[k].port.key() == port.key());
                }
            }
            None
        }
    }
}

} // verus!
