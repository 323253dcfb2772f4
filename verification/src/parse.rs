//! Reads the description of a layout into a [`Layout`].
//!
//! The goal of the description is to concisely express common setups like
//! "laptop screen is centered under the external one"
//! or "DP1, DP2, DP3 are placed from left to right and
//! align their upper corners".
//!
//! Screens are listed after each other, joined by `+`.
//! For each screen, only the connector it is on is required:
//!
//! ```text
//! vga3 + dp + edp
//! ```
//!
//! After the connector a screen may say its resolution behind `@`, its
//! scale behind `:`, its transform behind `#` and its position behind `/`,
//! in this order:
//!
//! ```text
//! dp + edp@1080p:1.5#flip 90/bottom,center
//! ```
//!
//! # Grammar
//!
//! ```text
//! layout     = screen *(sp "+" sp screen)
//! screen     = port [sp "@" sp resolution] [sp ":" sp scale]
//!                   [sp "#" sp transform] [sp "/" sp pos]
//! port       = connector [index]
//! index      = "0" / (nonzero-digit *digit)
//! resolution = name / (number "x" number)
//! scale      = number ["." number]
//! transform  = "flip" sp [degrees] / degrees
//! degrees    = "0" / "90" / "180" / "270"
//! pos        = hori [sp "," sp vert-spec] / vert [sp "," sp hori-spec]
//! hori       = "left" / "right"
//! vert       = "top" / "bottom"
//! hori-spec  = hori / "center"
//! vert-spec  = vert / "center"
//! number     = 1*digit
//! sp         = *whitespace
//! ```
//!
//! # Notes
//!
//! - the index of a port defaults to `1` and is at most 4294967295
//! - width and height of a resolution are each at most 2147483647
//! - a scale is positive; the digits before its point make no more than
//!   4294967295; behind the point it keeps up to nine places, and no more
//!   than leave all its digits within 4294967295: further places are cut
//! - a screen without resolution has the one of the connected output
//! - the rotation of a transform is clockwise
//! - the position defaults to `right,top`; `left` and `right` alone mean
//!   `top` along the edge, `top` and `bottom` alone mean `center`
//! - every screen that cannot be read is reported, not only the first

use crate::comms::Port;
use crate::geometry::{Hori, HoriSpec, MaybeCenter, Rotation, Scale, Size, Transform, Vert, VertSpec};
use crate::info::{first_named, Connector, Resolution};
use crate::relative::{Layout, Position, Screen};
use crate::text::{
    all_digits, chars_of, decimal, decimal_value, digit, digits_end, has_at, is_digit,
    lemma_decimal_value_grows, lemma_digits_end, number_in, push_decimal, skip_digits, starts_at,
};
use vstd::prelude::*;
use vstd::string::StringExecFns;

verus! {

/// What is wrong at a place of the description.
#[derive(Copy, Clone, Debug, PartialEq, Eq, Structural)]
pub enum Fault {
    /// A screen does not start with the name of a connector.
    Connector,
    /// The index of a port is greater than an index can be.
    Index,
    /// What follows `@` is neither the name of a resolution nor width and
    /// height, or one of the two is more than a pixel count can hold.
    Resolution,
    /// What follows `:` is no number, or not one that a scale can be.
    Scale,
    /// What follows `#` is neither `flip` nor one of the four angles.
    Transform,
    /// What follows `/` or `,` is none of the words for a position.
    Position,
    /// Something follows a screen that is no part of it.
    Unexpected,
}

/// A fault and the place where it was found, counted in characters.
#[derive(Copy, Clone, Debug, PartialEq, Eq, Structural)]
pub struct SyntaxError {
    pub at: usize,
    pub fault: Fault,
}

/// All that is wrong with a description, in the order of the text.
#[derive(Debug)]
pub struct ParseError {
    pub errors: Vec<SyntaxError>,
}

/// What reading a part of the description gives: the part and the place
/// behind it, or the place of a fault.
pub type Read<T> = Result<(T, int), (int, Fault)>;

/// Whether `c` is white space.
pub open spec fn is_space(c: char) -> bool {
    let code = c as u32;
    ||| 0x09 <= code <= 0x0d
    ||| code == 0x20
    ||| code == 0x85
    ||| code == 0xa0
    ||| code == 0x1680
    ||| 0x2000 <= code <= 0x200a
    ||| code == 0x2028
    ||| code == 0x2029
    ||| code == 0x202f
    ||| code == 0x205f
    ||| code == 0x3000
}

/// The end of the white space that stands in `s` from `pos` on.
pub open spec fn spaces_end(s: Seq<char>, pos: int) -> int
    decreases s.len() - pos,
{
    if 0 <= pos < s.len() && is_space(s[pos]) {
        spaces_end(s, pos + 1)
    } else {
        pos
    }
}

/// The place behind the delimiter `c` and the white space around it, if the
/// delimiter is what follows `pos`.
pub open spec fn spec_delimiter(s: Seq<char>, pos: int, c: char) -> Option<int> {
    let at = spaces_end(s, pos);
    if 0 <= at < s.len() && s[at] == c {
        Some(spaces_end(s, at + 1))
    } else {
        None
    }
}

/// One of the four angles, and the place behind it.
pub open spec fn spec_rotation(s: Seq<char>, pos: int) -> Option<(Rotation, int)> {
    if has_at(s, pos, "0"@) {
        Some((Rotation::Zero, pos + "0"@.len()))
    } else if has_at(s, pos, "90"@) {
        Some((Rotation::Quarter, pos + "90"@.len()))
    } else if has_at(s, pos, "180"@) {
        Some((Rotation::Half, pos + "180"@.len()))
    } else if has_at(s, pos, "270"@) {
        Some((Rotation::ThreeQuarter, pos + "270"@.len()))
    } else {
        None
    }
}

/// `left` or `right`, and the place behind it.
pub open spec fn spec_hori(s: Seq<char>, pos: int) -> Option<(Hori, int)> {
    if has_at(s, pos, "left"@) {
        Some((Hori::Left, pos + "left"@.len()))
    } else if has_at(s, pos, "right"@) {
        Some((Hori::Right, pos + "right"@.len()))
    } else {
        None
    }
}

/// `top` or `bottom`, and the place behind it.
pub open spec fn spec_vert(s: Seq<char>, pos: int) -> Option<(Vert, int)> {
    if has_at(s, pos, "top"@) {
        Some((Vert::Top, pos + "top"@.len()))
    } else if has_at(s, pos, "bottom"@) {
        Some((Vert::Bottom, pos + "bottom"@.len()))
    } else {
        None
    }
}

/// `left`, `right` or `center`, and the place behind it.
pub open spec fn spec_hori_spec(s: Seq<char>, pos: int) -> Option<(HoriSpec, int)> {
    match spec_hori(s, pos) {
        Some((edge, next)) => Some((MaybeCenter::Extreme(edge), next)),
        None => if has_at(s, pos, "center"@) {
            Some((MaybeCenter::Center, pos + "center"@.len()))
        } else {
            None
        },
    }
}

/// `top`, `bottom` or `center`, and the place behind it.
pub open spec fn spec_vert_spec(s: Seq<char>, pos: int) -> Option<(VertSpec, int)> {
    match spec_vert(s, pos) {
        Some((edge, next)) => Some((MaybeCenter::Extreme(edge), next)),
        None => if has_at(s, pos, "center"@) {
            Some((MaybeCenter::Center, pos + "center"@.len()))
        } else {
            None
        },
    }
}

/// Whether what was read at `pos` is what `want` says, with places counted
/// as the text counts them.
pub open spec fn found<T>(got: Option<(T, usize)>, want: Option<(T, int)>) -> bool {
    match got {
        Some((value, next)) => want == Some((value, next as int)),
        None => want is None,
    }
}

/// Whether what was read is what `want` says, with places counted as the
/// text counts them.
pub open spec fn read_as<T>(got: Result<(T, usize), SyntaxError>, want: Read<T>) -> bool {
    match got {
        Ok((value, next)) => want == Ok::<(T, int), (int, Fault)>((value, next as int)),
        Err(error) => want == Err::<(T, int), (int, Fault)>((error.at as int, error.fault)),
    }
}

/// Whether `c` is white space.
pub fn space(c: char) -> (r: bool)
    ensures
        r == is_space(c),
{
    let code: u32 = c as u32;
    (0x09 <= code && code <= 0x0d) || code == 0x20 || code == 0x85 || code == 0xa0 || code
        == 0x1680 || (0x2000 <= code && code <= 0x200a) || code == 0x2028 || code == 0x2029
        || code == 0x202f || code == 0x205f || code == 0x3000
}

/// The end of the white space that stands in the first `end` characters of
/// `input` from `pos` on.
pub fn skip_spaces(input: &[char], end: usize, pos: usize) -> (r: usize)
    requires
        pos <= end <= input@.len(),
    ensures
        r == spaces_end(input@.take(end as int), pos as int),
        pos <= r <= end,
{
    let ghost t = input@.take(end as int);
    let mut i: usize = pos;
    while i < end && space(input[i])
        invariant
            pos <= i <= end <= input@.len(),
            t == input@.take(end as int),
            spaces_end(t, pos as int) == spaces_end(t, i as int),
        decreases end - i,
    {
        i = i + 1;
    }
    i
}

/// Reads the delimiter `c` with the white space around it.
pub fn delimiter(input: &[char], end: usize, pos: usize, c: char) -> (r: Option<usize>)
    requires
        pos <= end <= input@.len(),
    ensures
        r is Some <==> spec_delimiter(input@.take(end as int), pos as int, c) is Some,
        r matches Some(next) ==> spec_delimiter(input@.take(end as int), pos as int, c) == Some(
            next as int,
        ) && pos < next <= end,
{
    let at: usize = skip_spaces(input, end, pos);
    if at < end && input[at] == c {
        Some(skip_spaces(input, end, at + 1))
    } else {
        None
    }
}

/// Reads one of the four angles.
#[must_use]
pub fn rotation(input: &[char], end: usize, pos: usize) -> (r: Option<(Rotation, usize)>)
    requires
        pos <= end <= input@.len(),
    ensures
        found(r, spec_rotation(input@.take(end as int), pos as int)),
        r matches Some(read) ==> pos < read.1 <= end,
{
    proof {
        reveal_strlit("0");
        reveal_strlit("90");
        reveal_strlit("180");
        reveal_strlit("270");
    }
    if starts_at(input, end, pos, "0") {
        Some((Rotation::Zero, pos + 1))
    } else if starts_at(input, end, pos, "90") {
        Some((Rotation::Quarter, pos + 2))
    } else if starts_at(input, end, pos, "180") {
        Some((Rotation::Half, pos + 3))
    } else if starts_at(input, end, pos, "270") {
        Some((Rotation::ThreeQuarter, pos + 3))
    } else {
        None
    }
}

/// Reads `left` or `right`.
#[must_use]
pub fn hori(input: &[char], end: usize, pos: usize) -> (r: Option<(Hori, usize)>)
    requires
        pos <= end <= input@.len(),
    ensures
        found(r, spec_hori(input@.take(end as int), pos as int)),
        r matches Some(read) ==> pos < read.1 <= end,
{
    proof {
        reveal_strlit("left");
        reveal_strlit("right");
    }
    if starts_at(input, end, pos, "left") {
        Some((Hori::Left, pos + 4))
    } else if starts_at(input, end, pos, "right") {
        Some((Hori::Right, pos + 5))
    } else {
        None
    }
}

/// Reads `top` or `bottom`.
#[must_use]
pub fn vert(input: &[char], end: usize, pos: usize) -> (r: Option<(Vert, usize)>)
    requires
        pos <= end <= input@.len(),
    ensures
        found(r, spec_vert(input@.take(end as int), pos as int)),
        r matches Some(read) ==> pos < read.1 <= end,
{
    proof {
        reveal_strlit("top");
        reveal_strlit("bottom");
    }
    if starts_at(input, end, pos, "top") {
        Some((Vert::Top, pos + 3))
    } else if starts_at(input, end, pos, "bottom") {
        Some((Vert::Bottom, pos + 6))
    } else {
        None
    }
}

/// Reads `left`, `right` or `center`.
#[must_use]
pub fn hori_spec(input: &[char], end: usize, pos: usize) -> (r: Option<(HoriSpec, usize)>)
    requires
        pos <= end <= input@.len(),
    ensures
        found(r, spec_hori_spec(input@.take(end as int), pos as int)),
        r matches Some(read) ==> pos < read.1 <= end,
{
    proof {
        reveal_strlit("center");
    }
    match hori(input, end, pos) {
        Some((edge, next)) => Some((MaybeCenter::Extreme(edge), next)),
        None => if starts_at(input, end, pos, "center") {
            Some((MaybeCenter::Center, pos + 6))
        } else {
            None
        },
    }
}

/// Reads `top`, `bottom` or `center`.
#[must_use]
pub fn vert_spec(input: &[char], end: usize, pos: usize) -> (r: Option<(VertSpec, usize)>)
    requires
        pos <= end <= input@.len(),
    ensures
        found(r, spec_vert_spec(input@.take(end as int), pos as int)),
        r matches Some(read) ==> pos < read.1 <= end,
{
    proof {
        reveal_strlit("center");
    }
    match vert(input, end, pos) {
        Some((edge, next)) => Some((MaybeCenter::Extreme(edge), next)),
        None => if starts_at(input, end, pos, "center") {
            Some((MaybeCenter::Center, pos + 6))
        } else {
            None
        },
    }
}

/// A port: the name of a connector and, if digits follow, its index. An
/// index is a single zero or starts with another digit. Without digits the
/// index is one.
pub open spec fn spec_port(s: Seq<char>, pos: int) -> Read<Port> {
    match first_named(Connector::dsl_table(), s, pos, 0) {
        None => Err((pos, Fault::Connector)),
        Some((kind, at)) => if 0 <= at < s.len() && is_digit(s[at]) {
            let next = if s[at] == '0' {
                at + 1
            } else {
                digits_end(s, at)
            };
            let idx = decimal_value(s.subrange(at, next));
            if idx <= u32::MAX {
                Ok((Port { kind, idx: idx as u32 }, next))
            } else {
                Err((at, Fault::Index))
            }
        } else {
            Ok((Port { kind, idx: 1 }, at))
        },
    }
}

/// Width and height with an `x` between them.
pub open spec fn spec_size(s: Seq<char>, pos: int) -> Read<Size> {
    let mid = digits_end(s, pos);
    if mid == pos || !(0 <= mid < s.len() && s[mid] == 'x') {
        Err((mid, Fault::Resolution))
    } else {
        let next = digits_end(s, mid + 1);
        let width = decimal_value(s.subrange(pos, mid));
        let height = decimal_value(s.subrange(mid + 1, next));
        if next == mid + 1 {
            Err((next, Fault::Resolution))
        } else if width > i32::MAX {
            Err((pos, Fault::Resolution))
        } else if height > i32::MAX {
            Err((mid + 1, Fault::Resolution))
        } else {
            Ok((Size { width: width as i32, height: height as i32 }, next))
        }
    }
}

/// A resolution: one of the names, else width and height.
pub open spec fn spec_resolution(s: Seq<char>, pos: int) -> Read<Resolution> {
    match first_named(Resolution::named_table(), s, pos, 0) {
        Some((resolution, next)) => Ok((resolution, next)),
        None => match spec_size(s, pos) {
            Ok((size, next)) => Ok((Resolution::Custom(size), next)),
            Err(fault) => Err(fault),
        },
    }
}

/// How many of the places behind the point a scale keeps, counted on from
/// `k` that are kept: as many as there are, but no more than nine, and no
/// more than leave the digits of the scale within 4294967295.
pub open spec fn kept_places(whole: Seq<char>, part: Seq<char>, k: int) -> int
    decreases 9 - k,
{
    if 0 <= k < 9 && k < part.len() && decimal_value(whole + part.take(k + 1)) <= u32::MAX {
        kept_places(whole, part, k + 1)
    } else {
        k
    }
}

/// The scale with the digits `whole` before the point and `part` behind it.
/// Places that a scale cannot keep are cut. What is left must be positive,
/// and `whole` alone no more than 4294967295.
pub open spec fn spec_scale_of(whole: Seq<char>, part: Seq<char>, at: int, next: int) -> Read<
    Scale,
> {
    let places = kept_places(whole, part, 0);
    let digits = decimal_value(whole + part.take(places));
    if 0 < digits <= u32::MAX {
        Ok((Scale::of(digits, places as nat), next))
    } else {
        Err((at, Fault::Scale))
    }
}

/// A scale: digits, and behind a point more digits.
pub open spec fn spec_scale(s: Seq<char>, pos: int) -> Read<Scale> {
    let mid = digits_end(s, pos);
    if mid == pos {
        Err((pos, Fault::Scale))
    } else if 0 <= mid < s.len() && s[mid] == '.' {
        let next = digits_end(s, mid + 1);
        if next == mid + 1 {
            Err((next, Fault::Scale))
        } else {
            spec_scale_of(s.subrange(pos, mid), s.subrange(mid + 1, next), pos, next)
        }
    } else {
        spec_scale_of(s.subrange(pos, mid), Seq::empty(), pos, mid)
    }
}

/// Reads a port.
pub fn port(input: &[char], end: usize, pos: usize) -> (r: Result<(Port, usize), SyntaxError>)
    requires
        pos <= end <= input@.len(),
    ensures
        read_as(r, spec_port(input@.take(end as int), pos as int)),
        r matches Ok(read) ==> pos <= read.1 <= end,
        r matches Err(error) ==> pos <= error.at <= end,
{
    let ghost t = input@.take(end as int);
    let (kind, at) = match Connector::parse_from_name(input, end, pos) {
        Some(named) => named,
        None => {
            return Err(SyntaxError { at: pos, fault: Fault::Connector });
        },
    };
    if at < end && digit(input[at]) {
        let next: usize = if input[at] == '0' {
            at + 1
        } else {
            skip_digits(input, end, at)
        };
        proof {
            lemma_digits_end(t, at as int);
            assert(t.subrange(at as int, next as int) =~= input@.subrange(at as int, next as int));
            if input@[at as int] == '0' {
                assert(all_digits(input@.subrange(at as int, next as int)));
            }
        }
        match number_in(input, at, next, 0xffff_ffff) {
            Some(idx) => Ok((Port { kind, idx: idx as u32 }, next)),
            None => Err(SyntaxError { at, fault: Fault::Index }),
        }
    } else {
        Ok((Port { kind, idx: 1 }, at))
    }
}

/// Reads width and height with an `x` between them.
pub fn size(input: &[char], end: usize, pos: usize) -> (r: Result<(Size, usize), SyntaxError>)
    requires
        pos <= end <= input@.len(),
    ensures
        read_as(r, spec_size(input@.take(end as int), pos as int)),
        r matches Ok(read) ==> pos < read.1 <= end,
        r matches Err(error) ==> pos <= error.at <= end,
{
    let ghost t = input@.take(end as int);
    let mid: usize = skip_digits(input, end, pos);
    if mid == pos || !(mid < end && input[mid] == 'x') {
        return Err(SyntaxError { at: mid, fault: Fault::Resolution });
    }
    let next: usize = skip_digits(input, end, mid + 1);
    if next == mid + 1 {
        return Err(SyntaxError { at: next, fault: Fault::Resolution });
    }
    proof {
        lemma_digits_end(t, pos as int);
        lemma_digits_end(t, mid + 1);
        assert(t.subrange(pos as int, mid as int) =~= input@.subrange(pos as int, mid as int));
        assert(t.subrange(mid + 1, next as int) =~= input@.subrange(mid + 1, next as int));
    }
    let width: u64 = match number_in(input, pos, mid, 0x7fff_ffff) {
        Some(width) => width,
        None => {
            return Err(SyntaxError { at: pos, fault: Fault::Resolution });
        },
    };
    let height: u64 = match number_in(input, mid + 1, next, 0x7fff_ffff) {
        Some(height) => height,
        None => {
            return Err(SyntaxError { at: mid + 1, fault: Fault::Resolution });
        },
    };
    Ok((Size { width: width as i32, height: height as i32 }, next))
}

/// Reads a resolution.
#[must_use]
pub fn resolution(input: &[char], end: usize, pos: usize) -> (r: Result<
    (Resolution, usize),
    SyntaxError,
>)
    requires
        pos <= end <= input@.len(),
    ensures
        read_as(r, spec_resolution(input@.take(end as int), pos as int)),
        r matches Ok(read) ==> pos <= read.1 <= end,
        r matches Err(error) ==> pos <= error.at <= end,
{
    match Resolution::parse_from_name(input, end, pos) {
        Some((resolution, next)) => Ok((resolution, next)),
        None => match size(input, end, pos) {
            Ok((size, next)) => Ok((Resolution::Custom(size), next)),
            Err(error) => Err(error),
        },
    }
}

/// Reads a scale.
#[must_use]
pub fn scale(input: &[char], end: usize, pos: usize) -> (r: Result<(Scale, usize), SyntaxError>)
    requires
        pos <= end <= input@.len(),
    ensures
        read_as(r, spec_scale(input@.take(end as int), pos as int)),
        r matches Ok(read) ==> pos < read.1 <= end && read.0.wf(),
        r matches Err(error) ==> pos <= error.at <= end,
{
    let ghost t = input@.take(end as int);
    let mid: usize = skip_digits(input, end, pos);
    if mid == pos {
        return Err(SyntaxError { at: pos, fault: Fault::Scale });
    }
    let ghost whole_digits = input@.subrange(pos as int, mid as int);
    proof {
        lemma_digits_end(t, pos as int);
        assert(t.subrange(pos as int, mid as int) =~= whole_digits);
        lemma_decimal_value_grows(whole_digits);
    }
    let pointed: bool = mid < end && input[mid] == '.';
    let next: usize = if pointed {
        skip_digits(input, end, mid + 1)
    } else {
        mid
    };
    if pointed && next == mid + 1 {
        return Err(SyntaxError { at: next, fault: Fault::Scale });
    }
    let from: usize = if pointed {
        mid + 1
    } else {
        mid
    };
    let ghost part_digits = input@.subrange(from as int, next as int);
    proof {
        if pointed {
            lemma_digits_end(t, mid + 1);
            assert(t.subrange(mid + 1, next as int) =~= part_digits);
        } else {
            assert(part_digits =~= Seq::<char>::empty());
        }
        assert(whole_digits + part_digits.take(0) =~= whole_digits);
    }
    let whole: u64 = match number_in(input, pos, mid, 0xffff_ffff) {
        Some(whole) => whole,
        None => {
            proof {
                if part_digits.len() > 0 {
                    let longer = whole_digits + part_digits.take(1);
                    assert(longer.drop_last() =~= whole_digits);
                    assert(longer.last() == part_digits[0]);
                    assert(is_digit(part_digits[0]));
                }
            }
            return Err(SyntaxError { at: pos, fault: Fault::Scale });
        },
    };
    let mut mantissa: u64 = whole;
    let mut places: usize = 0;
    let mut more: bool = true;
    while more && places < 9 && from + places < next
        invariant
            pos < mid <= from <= next <= end <= input@.len(),
            places <= 9,
            from + places <= next,
            whole_digits == input@.subrange(pos as int, mid as int),
            part_digits == input@.subrange(from as int, next as int),
            all_digits(part_digits),
            mantissa <= 0xffff_ffff,
            mantissa == decimal_value(whole_digits + part_digits.take(places as int)),
            kept_places(whole_digits, part_digits, 0) == kept_places(
                whole_digits,
                part_digits,
                places as int,
            ),
            !more ==> kept_places(whole_digits, part_digits, places as int) == places,
        decreases
                9 - places + (if more {
                    1int
                } else {
                    0int
                }),
    {
        let c: char = input[from + places];
        assert(c == part_digits[places as int]);
        assert(is_digit(c));
        let grown: u64 = mantissa * 10 + (c as u32 - 48) as u64;
        proof {
            let longer = whole_digits + part_digits.take(places + 1);
            assert(longer.drop_last() =~= whole_digits + part_digits.take(places as int));
            assert(longer.last() == c);
            assert(decimal_value(longer) == grown);
        }
        if grown > 0xffff_ffff {
            more = false;
        } else {
            mantissa = grown;
            places = places + 1;
        }
    }
    if mantissa == 0 {
        return Err(SyntaxError { at: pos, fault: Fault::Scale });
    }
    match Scale::new(mantissa as u32, places as u8) {
        Some(scale) => Ok((scale, next)),
        None => Err(SyntaxError { at: pos, fault: Fault::Scale }),
    }
}

/// A transform: `flip`, one of the four angles, or both with white space
/// between them or none.
pub open spec fn spec_transform(s: Seq<char>, pos: int) -> Read<Transform> {
    if has_at(s, pos, "flip"@) {
        let at = spaces_end(s, pos + "flip"@.len());
        match spec_rotation(s, at) {
            Some((rotation, next)) => Ok((Transform { flipped: true, rotation }, next)),
            None => Ok((Transform { flipped: true, rotation: Rotation::Zero }, at)),
        }
    } else {
        match spec_rotation(s, pos) {
            Some((rotation, next)) => Ok((Transform { flipped: false, rotation }, next)),
            None => Err((pos, Fault::Transform)),
        }
    }
}

/// A position: the edge and, behind a comma, where along the edge. Without
/// the second part a screen left or right lies at the top, and a screen
/// above or below lies in the center.
pub open spec fn spec_pos(s: Seq<char>, pos: int) -> Read<Position> {
    match spec_hori(s, pos) {
        Some((edge, at)) => match spec_delimiter(s, at, ',') {
            Some(then) => match spec_vert_spec(s, then) {
                Some((spec, next)) => Ok((Position::Hori { edge, spec }, next)),
                None => Err((then, Fault::Position)),
            },
            None => Ok((Position::Hori { edge, spec: MaybeCenter::Extreme(Vert::Top) }, at)),
        },
        None => match spec_vert(s, pos) {
            Some((edge, at)) => match spec_delimiter(s, at, ',') {
                Some(then) => match spec_hori_spec(s, then) {
                    Some((spec, next)) => Ok((Position::Vert { edge, spec }, next)),
                    None => Err((then, Fault::Position)),
                },
                None => Ok((Position::Vert { edge, spec: MaybeCenter::Center }, at)),
            },
            None => Err((pos, Fault::Position)),
        },
    }
}

/// A part of a screen that may be left out: if the delimiter `c` follows,
/// the part must follow it.
pub open spec fn spec_part<T>(
    s: Seq<char>,
    pos: int,
    c: char,
    part: spec_fn(int) -> Read<T>,
) -> Read<Option<T>> {
    match spec_delimiter(s, pos, c) {
        None => Ok((None, pos)),
        Some(at) => match part(at) {
            Ok((value, next)) => Ok((Some(value), next)),
            Err(fault) => Err(fault),
        },
    }
}

/// A screen: its port and, each behind its delimiter, resolution, scale,
/// transform and position. Without transform it is neither flipped nor
/// turned; without position it goes to the right, at the top.
pub open spec fn spec_screen(s: Seq<char>, pos: int) -> Read<Screen> {
    match spec_port(s, pos) {
        Err(fault) => Err(fault),
        Ok((port, after_port)) => match spec_part(
            s,
            after_port,
            '@',
            |at: int| spec_resolution(s, at),
        ) {
            Err(fault) => Err(fault),
            Ok((resolution, after_resolution)) => match spec_part(
                s,
                after_resolution,
                ':',
                |at: int| spec_scale(s, at),
            ) {
                Err(fault) => Err(fault),
                Ok((scale, after_scale)) => match spec_part(
                    s,
                    after_scale,
                    '#',
                    |at: int| spec_transform(s, at),
                ) {
                    Err(fault) => Err(fault),
                    Ok((transform, after_transform)) => match spec_part(
                        s,
                        after_transform,
                        '/',
                        |at: int| spec_pos(s, at),
                    ) {
                        Err(fault) => Err(fault),
                        Ok((pos, next)) => Ok(
                            (
                                Screen {
                                    port,
                                    resolution,
                                    scale,
                                    transform: match transform {
                                        Some(transform) => transform,
                                        None => Transform {
                                            flipped: false,
                                            rotation: Rotation::Zero,
                                        },
                                    },
                                    pos: match pos {
                                        Some(pos) => pos,
                                        None => Position::Hori {
                                            edge: Hori::Right,
                                            spec: MaybeCenter::Extreme(Vert::Top),
                                        },
                                    },
                                },
                                next,
                            ),
                        ),
                    },
                },
            },
        },
    }
}

/// Reads a transform.
#[must_use]
pub fn transform(input: &[char], end: usize, pos: usize) -> (r: Result<
    (Transform, usize),
    SyntaxError,
>)
    requires
        pos <= end <= input@.len(),
    ensures
        read_as(r, spec_transform(input@.take(end as int), pos as int)),
        r matches Ok(read) ==> pos < read.1 <= end,
        r matches Err(error) ==> pos <= error.at <= end,
{
    proof {
        reveal_strlit("flip");
    }
    if starts_at(input, end, pos, "flip") {
        let at: usize = skip_spaces(input, end, pos + 4);
        match rotation(input, end, at) {
            Some((rotation, next)) => Ok((Transform { flipped: true, rotation }, next)),
            None => Ok((Transform { flipped: true, rotation: Rotation::Zero }, at)),
        }
    } else {
        match rotation(input, end, pos) {
            Some((rotation, next)) => Ok((Transform { flipped: false, rotation }, next)),
            None => Err(SyntaxError { at: pos, fault: Fault::Transform }),
        }
    }
}

/// Reads a position.
#[must_use]
pub fn pos(input: &[char], end: usize, start: usize) -> (r: Result<(Position, usize), SyntaxError>)
    requires
        start <= end <= input@.len(),
    ensures
        read_as(r, spec_pos(input@.take(end as int), start as int)),
        r matches Ok(read) ==> start < read.1 <= end,
        r matches Err(error) ==> start <= error.at <= end,
{
    match hori(input, end, start) {
        Some((edge, at)) => match delimiter(input, end, at, ',') {
            Some(then) => match vert_spec(input, end, then) {
                Some((spec, next)) => Ok((Position::Hori { edge, spec }, next)),
                None => Err(SyntaxError { at: then, fault: Fault::Position }),
            },
            None => Ok((Position::Hori { edge, spec: MaybeCenter::Extreme(Vert::Top) }, at)),
        },
        None => match vert(input, end, start) {
            Some((edge, at)) => match delimiter(input, end, at, ',') {
                Some(then) => match hori_spec(input, end, then) {
                    Some((spec, next)) => Ok((Position::Vert { edge, spec }, next)),
                    None => Err(SyntaxError { at: then, fault: Fault::Position }),
                },
                None => Ok((Position::Vert { edge, spec: MaybeCenter::Center }, at)),
            },
            None => Err(SyntaxError { at: start, fault: Fault::Position }),
        },
    }
}

/// Reads a screen.
#[must_use]
pub fn screen(input: &[char], end: usize, start: usize) -> (r: Result<(Screen, usize), SyntaxError>)
    requires
        start <= end <= input@.len(),
    ensures
        read_as(r, spec_screen(input@.take(end as int), start as int)),
        r matches Ok(read) ==> start <= read.1 <= end && read.0.wf(),
        r matches Err(error) ==> start <= error.at <= end,
{
    let ghost t = input@.take(end as int);
    let (port, after_port) = match port(input, end, start) {
        Ok(read) => read,
        Err(error) => {
            return Err(error);
        },
    };
    let (resolution, after_resolution) = match delimiter(input, end, after_port, '@') {
        Some(at) => match resolution(input, end, at) {
            Ok((resolution, next)) => (Some(resolution), next),
            Err(error) => {
                return Err(error);
            },
        },
        None => (None, after_port),
    };
    assert(spec_part(t, after_port as int, '@', |at: int| spec_resolution(t, at)) == Ok::<
        (Option<Resolution>, int),
        (int, Fault),
    >((resolution, after_resolution as int)));
    let (scale, after_scale) = match delimiter(input, end, after_resolution, ':') {
        Some(at) => match scale(input, end, at) {
            Ok((scale, next)) => (Some(scale), next),
            Err(error) => {
                return Err(error);
            },
        },
        None => (None, after_resolution),
    };
    assert(spec_part(t, after_resolution as int, ':', |at: int| spec_scale(t, at)) == Ok::<
        (Option<Scale>, int),
        (int, Fault),
    >((scale, after_scale as int)));
    let (transform, after_transform) = match delimiter(input, end, after_scale, '#') {
        Some(at) => match transform(input, end, at) {
            Ok((transform, next)) => (Some(transform), next),
            Err(error) => {
                return Err(error);
            },
        },
        None => (None, after_scale),
    };
    assert(spec_part(t, after_scale as int, '#', |at: int| spec_transform(t, at)) == Ok::<
        (Option<Transform>, int),
        (int, Fault),
    >((transform, after_transform as int)));
    let (position, next) = match delimiter(input, end, after_transform, '/') {
        Some(at) => match pos(input, end, at) {
            Ok((position, next)) => (Some(position), next),
            Err(error) => {
                return Err(error);
            },
        },
        None => (None, after_transform),
    };
    assert(spec_part(t, after_transform as int, '/', |at: int| spec_pos(t, at)) == Ok::<
        (Option<Position>, int),
        (int, Fault),
    >((position, next as int)));
    Ok(
        (
            Screen {
                port,
                resolution,
                scale,
                transform: match transform {
                    Some(transform) => transform,
                    None => Transform::default(),
                },
                pos: match position {
                    Some(position) => position,
                    None => Position::default(),
                },
            },
            next,
        ),
    )
}

/// The place of the first `+` from `from` on, or the end of the text.
pub open spec fn next_plus(s: Seq<char>, from: int) -> int
    decreases s.len() - from,
{
    if 0 <= from < s.len() && s[from] != '+' {
        next_plus(s, from + 1)
    } else {
        from
    }
}

/// The screen that stands between two `+`, from `from` up to `to`. White
/// space may stand before it, but not at the start of the text, and behind
/// it, but not at the end of the text. Nothing else may.
pub open spec fn spec_segment(s: Seq<char>, from: int, to: int) -> Result<Screen, (int, Fault)> {
    let t = s.take(to);
    let start = if from == 0 {
        0
    } else {
        spaces_end(t, from)
    };
    match spec_screen(t, start) {
        Err(fault) => Err(fault),
        Ok((screen, next)) => {
            let stop = if to == s.len() {
                next
            } else {
                spaces_end(t, next)
            };
            if stop == to {
                Ok(screen)
            } else {
                Err((stop, Fault::Unexpected))
            }
        },
    }
}

/// The screens that can be read from `from` on, and the faults of those
/// that cannot, each in the order of the text.
pub open spec fn spec_layout_from(s: Seq<char>, from: int) -> (Seq<Screen>, Seq<(int, Fault)>)
    decreases s.len() - from,
{
    let to = next_plus(s, from);
    let rest = if 0 <= from <= to < s.len() {
        spec_layout_from(s, to + 1)
    } else {
        (Seq::empty(), Seq::empty())
    };
    match spec_segment(s, from, to) {
        Ok(screen) => (seq![screen] + rest.0, rest.1),
        Err(fault) => (rest.0, seq![fault] + rest.1),
    }
}

/// The screens of a layout, one or more, with `+` between them. If any of
/// them cannot be read, the faults of all that cannot.
pub open spec fn spec_layout(s: Seq<char>) -> Result<Seq<Screen>, Seq<(int, Fault)>> {
    let (screens, faults) = spec_layout_from(s, 0);
    if faults.len() == 0 {
        Ok(screens)
    } else {
        Err(faults)
    }
}

/// Whatever the text, a screen or a fault is read from it: a layout has at
/// least one screen.
pub proof fn lemma_some_screen(s: Seq<char>)
    ensures
        spec_layout(s) matches Ok(screens) ==> screens.len() >= 1,
        spec_layout(s) matches Err(faults) ==> faults.len() >= 1,
{
}

/// The places and faults of the errors.
pub open spec fn spec_faults(errors: Seq<SyntaxError>) -> Seq<(int, Fault)> {
    errors.map_values(|error: SyntaxError| (error.at as int, error.fault))
}

/// Whether `got` is what reading the layout gives.
pub open spec fn parsed_as(got: Result<Layout, ParseError>, s: Seq<char>) -> bool {
    match spec_layout(s) {
        Ok(screens) => got matches Ok(layout) && layout.screens@ == screens && layout.wf(),
        Err(faults) => got matches Err(error) && spec_faults(error.errors@) == faults,
    }
}

/// The place of the first `+` from `from` on, or the end of the text.
fn find_plus(input: &[char], from: usize) -> (r: usize)
    requires
        from <= input@.len(),
    ensures
        r == next_plus(input@, from as int),
        from <= r <= input@.len(),
{
    let mut i: usize = from;
    while i < input.len() && input[i] != '+'
        invariant
            from <= i <= input@.len(),
            next_plus(input@, from as int) == next_plus(input@, i as int),
        decreases input@.len() - i,
    {
        i = i + 1;
    }
    i
}

/// Reads the screen that stands between two `+`.
fn segment(input: &[char], from: usize, to: usize) -> (r: Result<Screen, SyntaxError>)
    requires
        from <= to <= input@.len(),
    ensures
        match r {
            Ok(screen) => spec_segment(input@, from as int, to as int) == Ok::<
                Screen,
                (int, Fault),
            >(screen) && screen.wf(),
            Err(error) => spec_segment(input@, from as int, to as int) == Err::<
                Screen,
                (int, Fault),
            >((error.at as int, error.fault)),
        },
{
    let start: usize = if from == 0 {
        0
    } else {
        skip_spaces(input, to, from)
    };
    match screen(input, to, start) {
        Err(error) => Err(error),
        Ok((screen, next)) => {
            let stop: usize = if to == input.len() {
                next
            } else {
                skip_spaces(input, to, next)
            };
            if stop == to {
                Ok(screen)
            } else {
                Err(SyntaxError { at: stop, fault: Fault::Unexpected })
            }
        },
    }
}

/// Reads a layout from its characters.
pub fn layout(input: &[char]) -> (r: Result<Layout, ParseError>)
    ensures
        parsed_as(r, input@),
        r matches Ok(layout) ==> layout.screens@.len() >= 1,
        r matches Err(error) ==> error.errors@.len() >= 1,
{
    proof {
        lemma_some_screen(input@);
    }
    let n: usize = input.len();
    let mut screens: Vec<Screen> = Vec::new();
    let mut errors: Vec<SyntaxError> = Vec::new();
    let mut from: usize = 0;
    let mut done: bool = false;
    proof {
        assert(spec_faults(errors@) =~= Seq::<(int, Fault)>::empty());
        assert(screens@ + spec_layout_from(input@, 0).0 =~= spec_layout_from(input@, 0).0);
        assert(spec_faults(errors@) + spec_layout_from(input@, 0).1 =~= spec_layout_from(
            input@,
            0,
        ).1);
    }
    while !done
        invariant
            from <= n,
            n == input@.len(),
            forall|i: int| 0 <= i < screens@.len() ==> (#[trigger] screens@[i]).wf(),
            !done ==> spec_layout_from(input@, 0).0 == screens@ + spec_layout_from(
                input@,
                from as int,
            ).0,
            !done ==> spec_layout_from(input@, 0).1 == spec_faults(errors@) + spec_layout_from(
                input@,
                from as int,
            ).1,
            done ==> spec_layout_from(input@, 0) == (screens@, spec_faults(errors@)),
        decreases
                n - from + (if done {
                    0int
                } else {
                    1int
                }),
    {
        let to: usize = find_plus(input, from);
        let ghost before = screens@;
        let ghost faults = spec_faults(errors@);
        let ghost rest = if to < n {
            spec_layout_from(input@, to + 1)
        } else {
            (Seq::<Screen>::empty(), Seq::<(int, Fault)>::empty())
        };
        match segment(input, from, to) {
            Ok(screen) => {
                screens.push(screen);
                proof {
                    assert(spec_layout_from(input@, from as int) == (seq![screen] + rest.0, rest.1));
                    assert(before + (seq![screen] + rest.0) =~= screens@ + rest.0);
                }
            },
            Err(error) => {
                errors.push(error);
                proof {
                    let fault = (error.at as int, error.fault);
                    assert(spec_layout_from(input@, from as int) == (rest.0, seq![fault] + rest.1));
                    assert(spec_faults(errors@) =~= faults.push(fault));
                    assert(faults + (seq![fault] + rest.1) =~= spec_faults(errors@) + rest.1);
                }
            },
        }
        if to < n {
            from = to + 1;
        } else {
            done = true;
            proof {
                assert(screens@ + rest.0 =~= screens@);
                assert(spec_faults(errors@) + rest.1 =~= spec_faults(errors@));
            }
        }
    }
    if errors.len() == 0 {
        Ok(Layout { screens })
    } else {
        Err(ParseError { errors })
    }
}

/// Reads a layout from its description.
///
/// Gives the screens in the order of the text. If any screen cannot be
/// read, gives no layout but one error for each of those screens.
pub fn parse(text: &str) -> (r: Result<Layout, ParseError>)
    ensures
        parsed_as(r, text@),
        r matches Ok(layout) ==> layout.screens@.len() >= 1,
        r matches Err(error) ==> error.errors@.len() >= 1,
{
    let chars: Vec<char> = chars_of(text);
    layout(chars.as_slice())
}

impl std::str::FromStr for Layout {
    type Err = ParseError;

    fn from_str(s: &str) -> (r: Result<Self, Self::Err>)
        ensures
            parsed_as(r, s@),
            r matches Ok(layout) ==> layout.screens@.len() >= 1,
            r matches Err(error) ==> error.errors@.len() >= 1,
    {
        parse(s)
    }
}

/// What a fault says.
pub open spec fn fault_text(fault: Fault) -> Seq<char> {
    match fault {
        Fault::Connector => "expected the name of a connector"@,
        Fault::Index => "the index of the port is too large"@,
        Fault::Resolution => "expected the name of a resolution, or width and height"@,
        Fault::Scale => "expected a scale"@,
        Fault::Transform => "expected flip or an angle of 0, 90, 180 or 270"@,
        Fault::Position => "expected left, right, top, bottom or center"@,
        Fault::Unexpected => "expected the end of the screen"@,
    }
}

/// What an error says: the place and the fault.
pub open spec fn error_text(error: SyntaxError) -> Seq<char> {
    "at "@ + decimal(error.at as nat) + ": "@ + fault_text(error.fault)
}

/// The first `n` of the errors, each in a line of its own behind its number.
pub open spec fn listed(errors: Seq<SyntaxError>, n: int) -> Seq<char>
    decreases n,
{
    if n <= 0 {
        Seq::empty()
    } else {
        listed(errors, n - 1) + decimal(n as nat) + ": "@ + error_text(errors[n - 1]) + "\n"@
    }
}

/// What the errors say together: a single one in a line, more than one as
/// a list behind their count.
pub open spec fn report(errors: Seq<SyntaxError>) -> Seq<char> {
    if errors.len() == 1 {
        error_text(errors[0]) + "\n"@
    } else {
        decimal(errors.len()) + " errors encountered:\n"@ + listed(errors, errors.len() as int)
    }
}

impl Fault {
    /// What the fault says.
    pub fn message(self) -> (r: &'static str)
        ensures
            r@ == fault_text(self),
    {
        match self {
            Fault::Connector => "expected the name of a connector",
            Fault::Index => "the index of the port is too large",
            Fault::Resolution => "expected the name of a resolution, or width and height",
            Fault::Scale => "expected a scale",
            Fault::Transform => "expected flip or an angle of 0, 90, 180 or 270",
            Fault::Position => "expected left, right, top, bottom or center",
            Fault::Unexpected => "expected the end of the screen",
        }
    }
}

impl SyntaxError {
    /// Writes what the error says behind `out`.
    fn push_text(&self, out: &mut String)
        ensures
            final(out)@ == old(out)@ + error_text(*self),
    {
        out.append("at ");
        push_decimal(out, self.at as u64);
        out.append(": ");
        out.append(self.fault.message());
        assert(out@ =~= old(out)@ + error_text(*self));
    }

    /// What the error says: the place and the fault.
    pub fn to_text(&self) -> (r: String)
        ensures
            r@ == error_text(*self),
    {
        let mut out: String = String::new();
        self.push_text(&mut out);
        assert(out@ =~= error_text(*self));
        out
    }
}

impl ParseError {
    /// What the errors say together.
    pub fn to_text(&self) -> (r: String)
        ensures
            r@ == report(self.errors@),
    {
        let n: usize = self.errors.len();
        let mut out: String = String::new();
        if n == 1 {
            self.errors[0].push_text(&mut out);
            out.append("\n");
            assert(out@ =~= report(self.errors@));
            return out;
        }
        push_decimal(&mut out, n as u64);
        out.append(" errors encountered:\n");
        let ghost head = out@;
        assert(head =~= decimal(n as nat) + " errors encountered:\n"@);
        let mut i: usize = 0;
        while i < n
            invariant
                i <= n,
                n == self.errors@.len(),
                out@ == head + listed(self.errors@, i as int),
            decreases n - i,
        {
            let ghost before = out@;
            push_decimal(&mut out, (i + 1) as u64);
            out.append(": ");
            self.errors[i].push_text(&mut out);
            out.append("\n");
            assert(out@ =~= head + listed(self.errors@, i + 1));
            i = i + 1;
        }
        out
    }
}

} // verus!
