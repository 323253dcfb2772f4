//! The texts of [Sway](https://swaywm.org/): how it names ports and
//! transforms, what it tells of its outputs, and the commands that
//! configure them.

use crate::absolute::{collected, Layout, Output, OutputConfig, OutputRef};
use crate::comms::Port;
use crate::geometry::{fits, pow10, Interval, Pixel, Rect, Rotation, Scale, Size, Transform};
use crate::info::Connector;
use crate::text::{
    all_digits, chars_of, decimal, decimal_value, digit, digit_value, fixed, has_at, int_text,
    is_digit, lemma_decimal, lemma_decimal_value_grows, lemma_prefix_value, push_decimal,
    push_fixed, push_int, range_is, starts_at,
};
use vstd::prelude::*;
use vstd::string::{StrSliceExecFns, StringExecFns};

verus! {

/// Why a text is no transform.
#[derive(Debug)]
pub enum ParseTransformError {
    /// The angle is none of `normal` (only if not flipped), 0, 90, 180 or 270.
    InvalidAngle { raw: String },
}

/// Why a text is no index of a port.
#[derive(Copy, Clone, Debug, PartialEq, Eq)]
pub enum IntError {
    /// There is no text at all.
    Empty,
    /// A character is no digit, or a sign stands alone.
    InvalidDigit,
    /// The number is greater than an index can be.
    Overflow,
}

/// Why a text is no name of a port.
#[derive(Debug)]
pub enum ParsePortError {
    /// There is no dash to separate connector from index.
    NoDash { name: String },
    /// No connector is known by that name.
    NewConnector { connector: String },
    /// What follows the last dash is no number.
    IdxNotANumber { idx: String, err: IntError },
}

/// Why what the WM told of an output could not be taken over.
#[derive(Debug)]
#[allow(inconsistent_fields)]
pub enum Error {
    /// The name of the output is no port.
    ParsePort { raw: String, err: ParsePortError },
    /// The far corner of the output, its width or its height is more than a
    /// pixel count can hold.
    InvalidRect { raw: String },
    /// The transform of the output is none that is known.
    ParseTransform { raw: String, err: ParseTransformError },
}

/// The rotation that a text of degrees stands for.
pub open spec fn angle(text: Seq<char>) -> Option<Rotation> {
    if text == "0"@ {
        Some(Rotation::Zero)
    } else if text == "90"@ {
        Some(Rotation::Quarter)
    } else if text == "180"@ {
        Some(Rotation::Half)
    } else if text == "270"@ {
        Some(Rotation::ThreeQuarter)
    } else {
        None
    }
}

/// The transform that a text of the WM stands for: `normal`, `flipped`, an
/// angle, or an angle behind `flipped-`.
pub open spec fn sway_transform(raw: Seq<char>) -> Option<Transform> {
    if has_at(raw, 0, "flipped-"@) {
        match angle(raw.skip("flipped-"@.len() as int)) {
            Some(rotation) => Some(Transform { flipped: true, rotation }),
            None => None,
        }
    } else if raw == "normal"@ {
        Some(Transform { flipped: false, rotation: Rotation::Zero })
    } else if raw == "flipped"@ {
        Some(Transform { flipped: true, rotation: Rotation::Zero })
    } else {
        match angle(raw) {
            Some(rotation) => Some(Transform { flipped: false, rotation }),
            None => None,
        }
    }
}

/// The degrees of a rotation as the WM writes them.
pub open spec fn degrees_text(rotation: Rotation) -> Seq<char> {
    match rotation {
        Rotation::Zero => "0"@,
        Rotation::Quarter => "90"@,
        Rotation::Half => "180"@,
        Rotation::ThreeQuarter => "270"@,
    }
}

/// Reads the rotation that the characters from `from` up to `to` stand for.
fn angle_in(input: &[char], from: usize, to: usize) -> (r: Option<Rotation>)
    requires
        from <= to <= input@.len(),
    ensures
        r == angle(input@.subrange(from as int, to as int)),
{
    if range_is(input, from, to, "0") {
        Some(Rotation::Zero)
    } else if range_is(input, from, to, "90") {
        Some(Rotation::Quarter)
    } else if range_is(input, from, to, "180") {
        Some(Rotation::Half)
    } else if range_is(input, from, to, "270") {
        Some(Rotation::ThreeQuarter)
    } else {
        None
    }
}

impl Transform {
    /// The text by which the WM calls the transform.
    pub open spec fn spec_to_sway(self) -> Seq<char> {
        if !self.flipped && self.rotation == Rotation::Zero {
            "normal"@
        } else if !self.flipped {
            degrees_text(self.rotation)
        } else if self.rotation == Rotation::Zero {
            "flipped"@
        } else {
            "flipped-"@ + degrees_text(self.rotation)
        }
    }

    /// Reads a transform as the WM writes it.
    pub fn parse_from_sway(raw: &str) -> (r: Result<Self, ParseTransformError>)
        ensures
            match r {
                Ok(transform) => sway_transform(raw@) == Some(transform),
                Err(ParseTransformError::InvalidAngle { raw: text }) => sway_transform(raw@) is None
                    && text@ == raw@,
            },
    {
        let chars: Vec<char> = chars_of(raw);
        let n: usize = chars.len();
        proof {
            assert(chars@.take(n as int) =~= chars@);
            assert(chars@.subrange(0, n as int) =~= chars@);
        }
        let prefix: &str = "flipped-";
        let found: Option<Transform> = if starts_at(chars.as_slice(), n, 0, prefix) {
            let from: usize = prefix.unicode_len();
            proof {
                assert(chars@.subrange(from as int, n as int) =~= raw@.skip(from as int));
            }
            match angle_in(chars.as_slice(), from, n) {
                Some(rotation) => Some(Transform { flipped: true, rotation }),
                None => None,
            }
        } else if range_is(chars.as_slice(), 0, n, "normal") {
            Some(Transform { flipped: false, rotation: Rotation::Zero })
        } else if range_is(chars.as_slice(), 0, n, "flipped") {
            Some(Transform { flipped: true, rotation: Rotation::Zero })
        } else {
            // assume no flip but still rotation
            match angle_in(chars.as_slice(), 0, n) {
                Some(rotation) => Some(Transform { flipped: false, rotation }),
                None => None,
            }
        };
        match found {
            Some(transform) => Ok(transform),
            None => Err(ParseTransformError::InvalidAngle { raw: String::from_str(raw) }),
        }
    }

    /// Writes the transform as the WM reads it.
    #[must_use]
    pub fn to_sway(&self) -> (r: String)
        ensures
            r@ == self.spec_to_sway(),
    {
        if !self.flipped && self.rotation == Rotation::Zero {
            return String::from_str("normal");
        }
        let degrees: &'static str = match self.rotation {
            Rotation::Zero => "0",
            Rotation::Quarter => "90",
            Rotation::Half => "180",
            Rotation::ThreeQuarter => "270",
        };
        if !self.flipped {
            return String::from_str(degrees);
        }
        if self.rotation == Rotation::Zero {
            return String::from_str("flipped");
        }
        let mut out: String = String::from_str("flipped-");
        out.append(degrees);
        out
    }

    /// What the WM is told of a transform, it tells back as the same one.
    pub proof fn lemma_sway_round_trip(self)
        ensures
            sway_transform(self.spec_to_sway()) == Some(self),
    {
        reveal_strlit("flipped-");
        reveal_strlit("flipped");
        reveal_strlit("normal");
        reveal_strlit("0");
        reveal_strlit("90");
        reveal_strlit("180");
        reveal_strlit("270");
        let text = self.spec_to_sway();
        let prefix = "flipped-"@;
        assert("0"@.len() == 1 && "90"@.len() == 2 && "180"@.len() == 3 && "270"@.len() == 3);
        assert("180"@[0] == '1' && "270"@[0] == '2');
        assert(prefix.len() == 8 && "flipped"@.len() == 7 && "normal"@.len() == 6);
        let degrees = degrees_text(self.rotation);
        assert(angle(degrees) == Some(self.rotation));
        if self.flipped && self.rotation != Rotation::Zero {
            assert(text.subrange(0, 8) =~= prefix);
            assert(text.skip(8) =~= degrees);
        } else if self.flipped {
            assert(text == "flipped"@);
            assert(!has_at(text, 0, prefix));
        } else if self.rotation == Rotation::Zero {
            assert(text == "normal"@);
            assert(!has_at(text, 0, prefix));
        } else {
            assert(text == degrees);
            assert(!has_at(text, 0, prefix));
            assert(text != "normal"@);
            assert(text != "flipped"@);
        }
    }
}

/// The place of the last dash before `upto`, or -1 if there is none.
pub open spec fn last_dash(s: Seq<char>, upto: int) -> int
    decreases upto,
{
    if upto <= 0 {
        -1
    } else if s[upto - 1] == '-' {
        upto - 1
    } else {
        last_dash(s, upto - 1)
    }
}

/// Reads the digits from place `i` on, with `value` read so far. The first
/// character that is no digit, or with which the number gets greater than an
/// index can be, ends the reading.
pub open spec fn scan_index(digits: Seq<char>, i: int, value: int) -> Result<u32, IntError>
    decreases digits.len() - i,
{
    if i < 0 || i >= digits.len() {
        Ok(value as u32)
    } else if !is_digit(digits[i]) {
        Err(IntError::InvalidDigit)
    } else if value * 10 + digit_value(digits[i]) > u32::MAX {
        Err(IntError::Overflow)
    } else {
        scan_index(digits, i + 1, value * 10 + digit_value(digits[i]))
    }
}

/// The index that a text stands for: digits, which a plus sign may precede.
pub open spec fn index_of_text(text: Seq<char>) -> Result<u32, IntError> {
    if text.len() == 0 {
        Err(IntError::Empty)
    } else {
        let digits = if text[0] == '+' {
            text.skip(1)
        } else {
            text
        };
        if digits.len() == 0 {
            Err(IntError::InvalidDigit)
        } else {
            scan_index(digits, 0, 0)
        }
    }
}

/// The port that the WM calls `name`: the connector named before the
/// last dash, with the index written behind it.
pub open spec fn sway_port(name: Seq<char>) -> Option<Port> {
    let dash = last_dash(name, name.len() as int);
    if dash < 0 {
        None
    } else {
        match (Connector::wm_lookup(name.take(dash), 0), index_of_text(name.skip(dash + 1))) {
            (Some(kind), Ok(idx)) => Some(Port { kind, idx }),
            _ => None,
        }
    }
}

/// Whether `err` says why `name` is no port: the first of no dash, no
/// connector of the name before the last dash, and no number behind it.
pub open spec fn is_port_fault(name: Seq<char>, err: ParsePortError) -> bool {
    let dash = last_dash(name, name.len() as int);
    match err {
        ParsePortError::NoDash { name: text } => dash == -1 && text@ == name,
        ParsePortError::NewConnector { connector } => {
            &&& dash >= 0
            &&& Connector::wm_lookup(name.take(dash), 0) is None
            &&& connector@ == name.take(dash)
        },
        ParsePortError::IdxNotANumber { idx, err } => {
            &&& dash >= 0
            &&& Connector::wm_lookup(name.take(dash), 0) is Some
            &&& index_of_text(name.skip(dash + 1)) == Err::<u32, IntError>(err)
            &&& idx@ == name.skip(dash + 1)
        },
    }
}

/// The last dash of a text that has no dash behind one of its dashes is
/// that dash.
pub proof fn lemma_last_dash(head: Seq<char>, tail: Seq<char>, upto: int)
    requires
        forall|i: int| 0 <= i < tail.len() ==> #[trigger] tail[i] != '-',
        head.len() < upto <= head.len() + 1 + tail.len(),
    ensures
        last_dash(head + seq!['-'] + tail, upto) == head.len(),
    decreases upto,
{
    let text = head + seq!['-'] + tail;
    if upto == head.len() + 1 {
        assert(text[upto - 1] == '-');
    } else {
        assert(text[upto - 1] == tail[upto - 2 - head.len()]);
        lemma_last_dash(head, tail, upto - 1);
    }
}

/// Digits that stand for a number that an index can be are read as that
/// number, from any place on with the number of the digits before it.
pub proof fn lemma_scan_index(digits: Seq<char>, i: int)
    requires
        all_digits(digits),
        decimal_value(digits) <= u32::MAX,
        0 <= i <= digits.len(),
    ensures
        scan_index(digits, i, decimal_value(digits.take(i))) == Ok::<u32, IntError>(
            decimal_value(digits) as u32,
        ),
    decreases digits.len() - i,
{
    lemma_decimal_value_grows(digits);
    if i == digits.len() {
        assert(digits.take(i) =~= digits);
    } else {
        let longer = digits.take(i + 1);
        assert(longer.drop_last() =~= digits.take(i));
        assert(longer.last() == digits[i]);
        lemma_prefix_value(digits, i + 1);
        lemma_scan_index(digits, i + 1);
    }
}

/// What the library writes as the name of a port, it reads as the same
/// port.
pub proof fn lemma_port_round_trip(port: Port)
    ensures
        sway_port(port.spec_name()) == Some(port),
{
    let head = port.kind.spec_wm_name();
    let tail = decimal(port.idx as nat);
    let name = port.spec_name();
    lemma_decimal(port.idx as nat);
    assert forall|i: int| 0 <= i < tail.len() implies #[trigger] tail[i] != '-' by {
        assert(is_digit(tail[i]));
    }
    lemma_last_dash(head, tail, name.len() as int);
    assert(name.take(head.len() as int) =~= head);
    assert(name.skip(head.len() as int + 1) =~= tail);
    port.kind.lemma_wm_lookup(0);
    assert(tail.take(0) =~= Seq::<char>::empty());
    lemma_scan_index(tail, 0);
    assert(is_digit(tail[0]));
}

/// The place of the last dash in `input`.
fn find_last_dash(input: &[char]) -> (r: Option<usize>)
    ensures
        r is None <==> last_dash(input@, input@.len() as int) == -1,
        r matches Some(at) ==> at == last_dash(input@, input@.len() as int) && at < input@.len(),
{
    let mut i: usize = input.len();
    while i > 0
        invariant
            i <= input@.len(),
            last_dash(input@, input@.len() as int) == last_dash(input@, i as int),
        decreases i,
    {
        if input[i - 1] == '-' {
            return Some(i - 1);
        }
        i = i - 1;
    }
    None
}

/// Reads the index that the characters from `from` up to `to` stand for.
fn read_index(input: &[char], from: usize, to: usize) -> (r: Result<u32, IntError>)
    requires
        from <= to <= input@.len(),
    ensures
        r == index_of_text(input@.subrange(from as int, to as int)),
{
    if from == to {
        return Err(IntError::Empty);
    }
    let ghost text = input@.subrange(from as int, to as int);
    assert(text[0] == input@[from as int]);
    let start: usize = if input[from] == '+' {
        from + 1
    } else {
        from
    };
    let ghost digits = input@.subrange(start as int, to as int);
    proof {
        if start == from + 1 {
            assert(digits =~= text.skip(1));
        }
    }
    if start == to {
        return Err(IntError::InvalidDigit);
    }
    let mut value: u64 = 0;
    let mut i: usize = start;
    while i < to
        invariant
            start <= i <= to <= input@.len(),
            digits == input@.subrange(start as int, to as int),
            value <= u32::MAX,
            index_of_text(input@.subrange(from as int, to as int)) == scan_index(digits, 0, 0),
            scan_index(digits, 0, 0) == scan_index(digits, i - start, value as int),
        decreases to - i,
    {
        let c: char = input[i];
        assert(c == digits[i - start]);
        if !digit(c) {
            return Err(IntError::InvalidDigit);
        }
        let next: u64 = value * 10 + (c as u32 - 48) as u64;
        if next > u32::MAX as u64 {
            return Err(IntError::Overflow);
        }
        value = next;
        i = i + 1;
    }
    Ok(value as u32)
}

impl Port {
    /// Reads a port as the WM names it: the name of the connector, a dash
    /// and the index. The dash that counts is the last one.
    pub fn parse_from_sway(name: &str) -> (r: Result<Self, ParsePortError>)
        ensures
            match r {
                Ok(port) => sway_port(name@) == Some(port),
                Err(err) => sway_port(name@) is None && is_port_fault(name@, err),
            },
    {
        let chars: Vec<char> = chars_of(name);
        let n: usize = chars.len();
        let dash: usize = match find_last_dash(chars.as_slice()) {
            Some(dash) => dash,
            None => {
                return Err(ParsePortError::NoDash { name: String::from_str(name) });
            },
        };
        proof {
            assert(chars@.subrange(0, dash as int) =~= name@.take(dash as int));
            assert(chars@.subrange(dash + 1, n as int) =~= name@.skip(dash + 1));
        }
        let kind: Connector = match Connector::wm_name_in(chars.as_slice(), 0, dash) {
            Some(kind) => kind,
            None => {
                return Err(
                    ParsePortError::NewConnector {
                        connector: String::from_str(name.substring_char(0, dash)),
                    },
                );
            },
        };
        let idx: u32 = match read_index(chars.as_slice(), dash + 1, n) {
            Ok(idx) => idx,
            Err(err) => {
                return Err(
                    ParsePortError::IdxNotANumber {
                        idx: String::from_str(name.substring_char(dash + 1, n)),
                        err,
                    },
                );
            },
        };
        Ok(Port { kind, idx })
    }
}

/// The text of a scale: the whole part and, where the scale has decimal
/// places, a point and all of them.
pub open spec fn scale_text(scale: Scale) -> Seq<char> {
    let unit = pow10(scale.places());
    if scale.places() == 0 {
        decimal(scale.digits() as nat)
    } else {
        decimal((scale.digits() / unit) as nat) + seq!['.'] + fixed(
            (scale.digits() % unit) as nat,
            scale.places(),
        )
    }
}

/// The command that sets an output of the WM to the given configuration.
pub open spec fn sway_command(port: Port, cfg: OutputConfig) -> Seq<char> {
    "output "@ + port.spec_name() + " position "@ + int_text(cfg.bounds.x.lo()) + " "@ + int_text(
        cfg.bounds.y.lo(),
    ) + " scale "@ + scale_text(cfg.scale) + " transform "@ + cfg.transform.spec_to_sway() + (
    match cfg.resolution {
        Some(size) => " resolution "@ + int_text(size.width as int) + "x"@ + int_text(
            size.height as int,
        ),
        None => Seq::empty(),
    })
}

/// Writes the text of a scale behind `out`.
fn push_scale(out: &mut String, scale: Scale)
    requires
        scale.wf(),
    ensures
        final(out)@ == old(out)@ + scale_text(scale),
{
    let unit: u64 = scale.unit() as u64;
    let digits: u64 = scale.mantissa() as u64;
    if scale.decimals() == 0 {
        push_decimal(out, digits);
    } else {
        push_decimal(out, digits / unit);
        proof {
            reveal_strlit(".");
        }
        out.append(".");
        push_fixed(out, digits % unit, scale.decimals());
        assert(out@ =~= old(out)@ + scale_text(scale)) by {
            assert("."@ =~= seq!['.']);
        }
    }
}

impl<'layout> OutputRef<'layout> {
    /// The command that sets the output of the WM to this configuration.
    #[must_use]
    pub fn to_sway_command(&self) -> (r: String)
        requires
            self.cfg.scale.wf(),
        ensures
            r@ == sway_command(*self.port, *self.cfg),
    {
        let cfg: &OutputConfig = self.cfg;
        let mut cmd: String = String::from_str("output ");
        let port: String = self.port.name();
        cmd.append(port.as_str());
        cmd.append(" position ");
        push_int(&mut cmd, cfg.bounds.x.start() as i64);
        cmd.append(" ");
        push_int(&mut cmd, cfg.bounds.y.start() as i64);
        cmd.append(" scale ");
        push_scale(&mut cmd, cfg.scale);
        cmd.append(" transform ");
        let transform: String = cfg.transform.to_sway();
        cmd.append(transform.as_str());
        let ghost head = cmd@;
        assert(head =~= "output "@ + self.port.spec_name() + " position "@ + int_text(
            cfg.bounds.x.lo(),
        ) + " "@ + int_text(cfg.bounds.y.lo()) + " scale "@ + scale_text(cfg.scale)
            + " transform "@ + cfg.transform.spec_to_sway());
        if let Some(size) = cfg.resolution {
            cmd.append(" resolution ");
            push_int(&mut cmd, size.width as i64);
            cmd.append("x");
            push_int(&mut cmd, size.height as i64);
            assert(cmd@ =~= head + (" resolution "@ + int_text(size.width as int) + "x"@
                + int_text(size.height as int)));
        } else {
            assert(cmd@ =~= head + Seq::<char>::empty());
        }
        cmd
    }
}

impl Layout {
    /// The commands that set the outputs of the WM to this layout, in the
    /// order of the ports.
    pub fn to_sway_commands(&self) -> (r: Vec<String>)
        requires
            self.wf(),
        ensures
            r@.len() == self.entries().len(),
            forall|i: int|
                0 <= i < r@.len() ==> (#[trigger] r@[i])@ == sway_command(
                    self.entries()[i].port,
                    self.entries()[i].cfg,
                ),
    {
        let outputs: Vec<OutputRef<'_>> = self.outputs();
        let n: usize = outputs.len();
        let mut commands: Vec<String> = Vec::new();
        let mut i: usize = 0;
        while i < n
            invariant
                i <= n,
                n == outputs@.len(),
                n == self.entries().len(),
                self.wf(),
                commands@.len() == i,
                forall|j: int|
                    0 <= j < n ==> *(#[trigger] outputs@[j]).port == self.entries()[j].port
                        && *outputs@[j].cfg == self.entries()[j].cfg,
                forall|j: int|
                    0 <= j < i ==> (#[trigger] commands@[j])@ == sway_command(
                        self.entries()[j].port,
                        self.entries()[j].cfg,
                    ),
            decreases n - i,
        {
            assert(self.entries()[i as int].cfg.wf());
            commands.push(outputs[i].to_sway_command());
            i = i + 1;
        }
        commands
    }
}

/// What the WM tells of one output, as plain values.
#[derive(Debug)]
pub struct RawOutput {
    /// The name of the output. On DRM, this is the connector.
    pub name: String,
    /// The least x of the output.
    pub x: Pixel,
    /// The least y of the output.
    pub y: Pixel,
    /// How wide the output is in the layout.
    pub width: Pixel,
    /// How high the output is in the layout.
    pub height: Pixel,
    /// Width and height of the mode that the output is in.
    pub current_mode: Option<Size>,
    /// The scale in use on the output.
    pub scale: Option<Scale>,
    /// The transform in use on the output.
    pub transform: Option<String>,
    /// Whether the output is enabled.
    pub active: bool,
}

impl RawOutput {
    /// The scale, if one is given, is a valid one.
    pub open spec fn wf(&self) -> bool {
        self.scale matches Some(scale) ==> scale.wf()
    }

    /// The rectangle that the output takes.
    pub open spec fn bounds(&self) -> Rect {
        Rect {
            x: Interval::spanning(self.x as int, self.x + self.width),
            y: Interval::spanning(self.y as int, self.y + self.height),
        }
    }

    /// Whether the far corner, the width and the height of the output can
    /// each be held by a pixel count.
    pub open spec fn bounds_fit(&self) -> bool {
        &&& fits(self.x + self.width)
        &&& fits(self.y + self.height)
        &&& self.bounds().measurable()
    }

    /// The transform of the output: the one that its text stands for, or
    /// none at all where it has no text.
    pub open spec fn spec_transform(&self) -> Option<Transform> {
        match self.transform {
            Some(text) => sway_transform(text@),
            None => Some(Transform { flipped: false, rotation: Rotation::Zero }),
        }
    }

    /// The output as the library holds it, where the name is a port, the
    /// rectangle fits and the transform is known. Without a scale the output
    /// has the scale one.
    pub open spec fn output(&self) -> Option<Output> {
        match (sway_port(self.name@), self.spec_transform()) {
            (Some(port), Some(transform)) => if self.bounds_fit() {
                Some(
                    Output {
                        port,
                        cfg: OutputConfig {
                            bounds: self.bounds(),
                            resolution: self.current_mode,
                            scale: match self.scale {
                                Some(scale) => scale,
                                None => Scale::of(1, 0),
                            },
                            transform,
                            active: self.active,
                        },
                    },
                )
            } else {
                None
            },
            _ => None,
        }
    }

    /// Whether `err` says why the output cannot be taken over: the first of
    /// a name that is no port, a rectangle that does not fit, and a
    /// transform that is not known.
    pub open spec fn is_fault(&self, err: Error) -> bool {
        match err {
            Error::ParsePort { raw, err } => {
                &&& sway_port(self.name@) is None
                &&& raw@ == self.name@
                &&& is_port_fault(self.name@, err)
            },
            Error::InvalidRect { raw } => {
                &&& sway_port(self.name@) is Some
                &&& !self.bounds_fit()
                &&& raw@ == self.name@
            },
            Error::ParseTransform { raw, err } => {
                &&& sway_port(self.name@) is Some
                &&& self.bounds_fit()
                &&& self.transform matches Some(text) && sway_transform(text@) is None && raw@
                    == text@
                &&& err matches ParseTransformError::InvalidAngle { raw: inner } && inner@
                    == raw@
            },
        }
    }
}

/// The interval from `start` on that is `length` long, if its far end is
/// not more than a pixel count can hold.
fn interval_from(start: Pixel, length: Pixel) -> (r: Option<Interval>)
    ensures
        r is Some <==> fits(start + length),
        r matches Some(interval) ==> interval.wf() && interval == Interval::spanning(
            start as int,
            start + length,
        ),
{
    let far: i64 = start as i64 + length as i64;
    if far < i32::MIN as i64 || far > i32::MAX as i64 {
        return None;
    }
    let interval: Interval = Interval::new(start, far as Pixel);
    proof {
        interval.lemma_between_is_spanning(start as int, start + length);
    }
    Some(interval)
}

impl Output {
    /// Takes over what the WM tells of an output.
    pub fn try_from(raw: &RawOutput) -> (r: Result<Self, Error>)
        requires
            raw.wf(),
        ensures
            match r {
                Ok(output) => raw.output() == Some(output) && output.cfg.wf(),
                Err(err) => raw.output() is None && raw.is_fault(err),
            },
    {
        let port: Port = match Port::parse_from_sway(raw.name.as_str()) {
            Ok(port) => port,
            Err(err) => {
                return Err(Error::ParsePort { raw: raw.name.clone(), err });
            },
        };
        let bounds: Rect = match (interval_from(raw.x, raw.width), interval_from(raw.y, raw.height)) {
            (Some(x), Some(y)) => Rect { x, y },
            _ => {
                return Err(Error::InvalidRect { raw: raw.name.clone() });
            },
        };
        if !bounds.is_measurable() {
            return Err(Error::InvalidRect { raw: raw.name.clone() });
        }
        let scale: Scale = match raw.scale {
            Some(scale) => scale,
            None => Scale::whole(1),
        };
        let transform: Transform = match &raw.transform {
            Some(text) => match Transform::parse_from_sway(text.as_str()) {
                Ok(transform) => transform,
                Err(err) => {
                    return Err(Error::ParseTransform { raw: text.clone(), err });
                },
            },
            None => Transform::default(),
        };
        Ok(
            Output {
                port,
                cfg: OutputConfig {
                    bounds,
                    resolution: raw.current_mode,
                    scale,
                    transform,
                    active: raw.active,
                },
            },
        )
    }
}

/// The outputs that the WM told of, as the library holds them.
pub open spec fn taken_over(raws: Seq<RawOutput>) -> Seq<Output> {
    Seq::new(raws.len(), |i: int| raws[i].output().unwrap())
}

impl Layout {
    /// Takes over what the WM tells of all its outputs. The first output
    /// that cannot be taken over is the error.
    pub fn try_from_raw(raws: &Vec<RawOutput>) -> (r: Result<Self, Error>)
        requires
            forall|i: int| 0 <= i < raws@.len() ==> (#[trigger] raws@[i]).wf(),
        ensures
            match r {
                Ok(layout) => {
                    &&& forall|i: int| 0 <= i < raws@.len() ==> (#[trigger] raws@[i]).output() is Some
                    &&& layout.wf()
                    &&& layout@ == collected(taken_over(raws@))
                },
                Err(err) => exists|i: int|
                    {
                        &&& 0 <= i < raws@.len()
                        &&& (#[trigger] raws@[i]).is_fault(err)
                        &&& forall|j: int| 0 <= j < i ==> (#[trigger] raws@[j]).output() is Some
                    },
            },
    {
        let n: usize = raws.len();
        let mut outputs: Vec<Output> = Vec::new();
        let mut i: usize = 0;
        while i < n
            invariant
                i <= n,
                n == raws@.len(),
                outputs@.len() == i,
                forall|j: int| 0 <= j < raws@.len() ==> (#[trigger] raws@[j]).wf(),
                forall|j: int| 0 <= j < i ==> (#[trigger] raws@[j]).output() == Some(outputs@[j]),
                forall|j: int| 0 <= j < i ==> (#[trigger] outputs@[j]).cfg.wf(),
            decreases n - i,
        {
            match Output::try_from(&raws[i]) {
                Ok(output) => {
                    outputs.push(output);
                },
                Err(err) => {
                    assert(raws@[i as int].is_fault(err));
                    return Err(err);
                },
            }
            i = i + 1;
        }
        proof {
            assert(outputs@ =~= taken_over(raws@));
        }
        Ok(Layout::from_outputs(outputs))
    }
}

} // verus!
