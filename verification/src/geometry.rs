//! Math for working with rectangles and intervals.
//!
//! Everywhere a coordinate system with x+ to the right and y+ downwards is
//! assumed, except for [`Interval`] and [`Pixel`], which live in one dimension.

use vstd::prelude::*;

verus! {

/// Unit of length and position.
pub type Pixel = i32;

/// Specifies one side of a 1D [`Interval`].
#[derive(Clone, Copy, Debug, PartialEq, Eq, Structural)]
pub enum Side {
    Least,
    Most,
}

/// Either one of the two extremes, or the middle between them.
#[derive(Clone, Copy, Debug, PartialEq, Eq)]
pub enum MaybeCenter<T> {
    Extreme(T),
    Center,
}

#[derive(Copy, Clone, Debug, PartialEq, Eq, PartialOrd, Ord, Hash, Structural)]
pub enum Hori {
    Left,
    Right,
}

#[derive(Copy, Clone, Debug, PartialEq, Eq, PartialOrd, Ord, Hash, Structural)]
pub enum Vert {
    Top,
    Bottom,
}

pub type HoriSpec = MaybeCenter<Hori>;

pub type VertSpec = MaybeCenter<Vert>;

/// How far an output is turned, clockwise.
#[derive(Clone, Copy, Debug, PartialEq, Eq, PartialOrd, Ord, Structural)]
pub enum Rotation {
    Zero,
    Quarter,
    Half,
    ThreeQuarter,
}

/// The lesser of two numbers.
pub open spec fn least(a: int, b: int) -> int {
    if a <= b {
        a
    } else {
        b
    }
}

/// The greater of two numbers.
pub open spec fn most(a: int, b: int) -> int {
    if a <= b {
        b
    } else {
        a
    }
}

/// Whether `n` can be held by a [`Pixel`].
pub open spec fn fits(n: int) -> bool {
    i32::MIN <= n <= i32::MAX
}

/// Quotient of `n` by a positive `d`, rounded towards zero.
pub open spec fn quot(n: int, d: int) -> int {
    if n >= 0 {
        n / d
    } else {
        -((-n) / d)
    }
}

/// Quotient of `n` by two, rounded towards zero.
pub open spec fn half(n: int) -> int {
    quot(n, 2)
}

/// `n`, or the nearest number that a [`Pixel`] can hold.
pub open spec fn clamped(n: int) -> int {
    if n < i32::MIN {
        i32::MIN as int
    } else if n > i32::MAX {
        i32::MAX as int
    } else {
        n
    }
}

/// Ten to the power of `e`.
pub open spec fn pow10(e: nat) -> int
    decreases e,
{
    if e == 0 {
        1
    } else {
        10 * pow10((e - 1) as nat)
    }
}

/// Ten to the power of `e`, for the exponents that a [`Scale`] can have.
pub proof fn lemma_pow10_small(e: nat)
    requires
        e <= 9,
    ensures
        1 <= pow10(e) <= 1_000_000_000,
        e == 0 ==> pow10(e) == 1,
        e == 1 ==> pow10(e) == 10,
        e == 2 ==> pow10(e) == 100,
        e == 3 ==> pow10(e) == 1_000,
        e == 4 ==> pow10(e) == 10_000,
        e == 5 ==> pow10(e) == 100_000,
        e == 6 ==> pow10(e) == 1_000_000,
        e == 7 ==> pow10(e) == 10_000_000,
        e == 8 ==> pow10(e) == 100_000_000,
        e == 9 ==> pow10(e) == 1_000_000_000,
{
    reveal_with_fuel(pow10, 11);
}

/// Ten to the power of `e`.
pub fn ten_to(e: u8) -> (r: i64)
    requires
        e <= 9,
    ensures
        r == pow10(e as nat),
        1 <= r <= 1_000_000_000,
{
    proof {
        lemma_pow10_small(e as nat);
    }
    let mut r: i64 = 1;
    let mut i: u8 = 0;
    while i < e
        invariant
            i <= e <= 9,
            r == pow10(i as nat),
            1 <= r <= 1_000_000_000,
        decreases e - i,
    {
        proof {
            lemma_pow10_small(i as nat);
            lemma_pow10_small((i + 1) as nat);
            reveal_with_fuel(pow10, 2);
        }
        r = r * 10;
        i = i + 1;
    }
    r
}

/// Size multiplier of an output: the positive decimal number
/// `mantissa / 10^decimals`, with at most nine digits behind the point.
#[derive(Copy, Clone, Debug, PartialEq, Eq, Hash, Structural)]
pub struct Scale {
    mantissa: u32,
    decimals: u8,
}

impl Scale {
    /// All digits of the number, read without the decimal point.
    pub closed spec fn digits(self) -> int {
        self.mantissa as int
    }

    /// How many of the digits stand behind the decimal point.
    pub closed spec fn places(self) -> nat {
        self.decimals as nat
    }

    /// The number is positive and has at most nine decimal places.
    pub open spec fn wf(self) -> bool {
        0 < self.digits() <= u32::MAX && self.places() <= 9
    }

    /// Whether the number is exactly one.
    pub open spec fn is_one(self) -> bool {
        self.digits() == pow10(self.places())
    }

    /// `length` divided by this scale, rounded towards zero and kept within
    /// what a [`Pixel`] can hold.
    pub open spec fn divide(self, length: int) -> int {
        clamped(quot(length * pow10(self.places()), self.digits()))
    }

    /// The scale `mantissa / 10^decimals`.
    pub closed spec fn of(mantissa: int, decimals: nat) -> Scale {
        Scale { mantissa: mantissa as u32, decimals: decimals as u8 }
    }

    /// The parts of [`Scale::of`], where the scale is a valid one.
    pub proof fn lemma_of(mantissa: int, decimals: nat)
        requires
            0 < mantissa <= u32::MAX,
            decimals <= 9,
        ensures
            Scale::of(mantissa, decimals).wf(),
            Scale::of(mantissa, decimals).digits() == mantissa,
            Scale::of(mantissa, decimals).places() == decimals,
    {
    }

    /// The scale `mantissa / 10^decimals`, if that is positive and `decimals`
    /// is at most nine.
    pub fn new(mantissa: u32, decimals: u8) -> (r: Option<Self>)
        ensures
            r.is_some() <==> (mantissa > 0 && decimals <= 9),
            r matches Some(s) ==> s.wf() && s.digits() == mantissa && s.places() == decimals && s
                == Scale::of(mantissa as int, decimals as nat),
    {
        if mantissa > 0 && decimals <= 9 {
            Some(Self { mantissa, decimals })
        } else {
            None
        }
    }

    /// The scale of a whole number, which is not zero.
    pub fn whole(n: u32) -> (r: Self)
        requires
            n > 0,
        ensures
            r.wf(),
            r.digits() == n,
            r.places() == 0,
            r == Scale::of(n as int, 0),
    {
        Self { mantissa: n, decimals: 0 }
    }

    /// All digits of the number, read without the decimal point.
    pub fn mantissa(&self) -> (r: u32)
        ensures
            r == self.digits(),
    {
        self.mantissa
    }

    /// How many of the digits stand behind the decimal point.
    pub fn decimals(&self) -> (r: u8)
        ensures
            r == self.places(),
    {
        self.decimals
    }

    /// Ten to the power of the number of decimal places.
    pub fn unit(&self) -> (r: i64)
        requires
            self.wf(),
        ensures
            r == pow10(self.places()),
            1 <= r <= 1_000_000_000,
    {
        ten_to(self.decimals)
    }

    /// Divides `length` by this scale, rounding towards zero. A quotient that
    /// no [`Pixel`] can hold becomes the nearest one that can be held.
    pub fn apply(&self, length: Pixel) -> (r: Pixel)
        requires
            self.wf(),
        ensures
            r == self.divide(length as int),
    {
        let unit: i64 = self.unit();
        assert(-2_147_483_648 * 1_000_000_000 <= length * unit <= 2_147_483_647 * 1_000_000_000)
            by (nonlinear_arith)
            requires
                -2_147_483_648 <= length <= 2_147_483_647,
                1 <= unit <= 1_000_000_000,
        ;
        let wide: i64 = length as i64 * unit;
        let q: i64 = wide / (self.mantissa as i64);
        if q < i32::MIN as i64 {
            i32::MIN
        } else if q > i32::MAX as i64 {
            i32::MAX
        } else {
            q as Pixel
        }
    }

    /// `length` multiplied by this scale, rounded towards zero and kept
    /// within what a [`Pixel`] can hold.
    pub open spec fn multiply(self, length: int) -> int {
        clamped(quot(length * self.digits(), pow10(self.places())))
    }

    /// Multiplies `length` by this scale, rounding towards zero. A product
    /// that no [`Pixel`] can hold becomes the nearest one that can be held.
    pub fn times(&self, length: Pixel) -> (r: Pixel)
        requires
            self.wf(),
        ensures
            r == self.multiply(length as int),
    {
        let unit: i64 = self.unit();
        assert(-2_147_483_648 * 4_294_967_295 <= length * self.mantissa <= 2_147_483_647
            * 4_294_967_295) by (nonlinear_arith)
            requires
                -2_147_483_648 <= length <= 2_147_483_647,
                0 <= self.mantissa <= 4_294_967_295,
        ;
        let wide: i64 = length as i64 * (self.mantissa as i64);
        let q: i64 = wide / unit;
        if q < i32::MIN as i64 {
            i32::MIN
        } else if q > i32::MAX as i64 {
            i32::MAX
        } else {
            q as Pixel
        }
    }

    /// Dividing by one changes nothing.
    pub proof fn lemma_divide_by_one(self, length: int)
        requires
            self.wf(),
            self.is_one(),
            fits(length),
        ensures
            self.divide(length) == length,
    {
        let p = pow10(self.places());
        lemma_pow10_small(self.places());
        if length >= 0 {
            assert((length * p) / p == length) by (nonlinear_arith)
                requires
                    p > 0,
            ;
            assert(length * p >= 0) by (nonlinear_arith)
                requires
                    p > 0,
                    length >= 0,
            ;
        } else {
            assert(((-length) * p) / p == -length) by (nonlinear_arith)
                requires
                    p > 0,
            ;
            assert(length * p < 0) by (nonlinear_arith)
                requires
                    p > 0,
                    length < 0,
            ;
            assert(-(length * p) == (-length) * p) by (nonlinear_arith);
        }
    }
}

/// Range thought in pixels, both bounds included.
#[derive(Copy, Clone, Debug, PartialEq, Eq, PartialOrd, Ord, Hash, Structural)]
pub struct Interval {
    start: Pixel,
    end: Pixel,
}

impl Interval {
    /// The lower bound.
    pub closed spec fn lo(self) -> int {
        self.start as int
    }

    /// The upper bound.
    pub closed spec fn hi(self) -> int {
        self.end as int
    }

    /// The bounds are in order.
    pub open spec fn wf(self) -> bool {
        self.lo() <= self.hi()
    }

    /// Distance between the bounds.
    pub open spec fn span(self) -> int {
        self.hi() - self.lo()
    }

    /// The interval between `a` and `b`, whichever of them is greater.
    pub open spec fn between(self, a: int, b: int) -> bool {
        self.lo() == least(a, b) && self.hi() == most(a, b)
    }

    /// Two intervals with the same bounds are the same interval.
    pub proof fn lemma_same_bounds(self, other: Interval)
        requires
            self.lo() == other.lo(),
            self.hi() == other.hi(),
        ensures
            self == other,
    {
    }

    /// Both bounds can be held by a [`Pixel`].
    pub proof fn lemma_bounds_fit(self)
        ensures
            fits(self.lo()),
            fits(self.hi()),
    {
    }

    /// Creates a new [`Interval`] between `a` and `b`.
    /// `b` may be less than `a`.
    #[must_use]
    pub fn new(a: Pixel, b: Pixel) -> (r: Self)
        ensures
            r.wf(),
            r.between(a as int, b as int),
    {
        if b < a {
            Self { start: b, end: a }
        } else {
            Self { start: a, end: b }
        }
    }

    #[must_use]
    pub fn start(&self) -> (r: Pixel)
        ensures
            r == self.lo(),
    {
        self.start
    }

    #[must_use]
    pub fn end(&self) -> (r: Pixel)
        ensures
            r == self.hi(),
    {
        self.end
    }

    /// The point halfway between the bounds. Where no point is exactly
    /// halfway, it is the one nearer to the start.
    #[must_use]
    pub fn mid(&self) -> (r: Pixel)
        ensures
            r == self.center(),
            self.wf() ==> self.lo() <= r <= self.hi(),
            0 <= (self.hi() - r) - (r - self.lo()) <= 1,
    {
        let sum: i64 = self.start as i64 + self.end as i64;
        let mid: i64 = if sum >= 0 {
            sum / 2
        } else {
            (sum - 1) / 2
        };
        mid as Pixel
    }

    #[must_use]
    pub fn len(&self) -> (r: Pixel)
        requires
            fits(self.span()),
        ensures
            r == self.span(),
    {
        self.end - self.start
    }

    /// Whether the length can be held by a [`Pixel`].
    #[must_use]
    pub fn is_measurable(&self) -> (r: bool)
        ensures
            r == fits(self.span()),
    {
        let span: i64 = self.end as i64 - self.start as i64;
        i32::MIN as i64 <= span && span <= i32::MAX as i64
    }

    #[must_use]
    pub fn is_empty(&self) -> (r: bool)
        ensures
            r == (self.lo() == self.hi()),
    {
        self.start == self.end
    }

    #[must_use]
    pub fn contains(&self, subject: Pixel) -> (r: bool)
        ensures
            r == (self.lo() <= subject <= self.hi()),
    {
        self.start <= subject && subject <= self.end
    }

    /// The interval between `a` and `b`, whichever of them is greater.
    pub closed spec fn spanning(a: int, b: int) -> Interval {
        Interval { start: least(a, b) as Pixel, end: most(a, b) as Pixel }
    }

    /// The bounds of [`Interval::spanning`], where a [`Pixel`] can hold both.
    pub proof fn lemma_spanning(a: int, b: int)
        requires
            fits(a),
            fits(b),
        ensures
            Interval::spanning(a, b).wf(),
            Interval::spanning(a, b).between(a, b),
    {
    }

    /// An interval with its bounds in order is the one spanning them.
    pub proof fn lemma_spanning_self(self)
        requires
            self.wf(),
        ensures
            Interval::spanning(self.lo(), self.hi()) == self,
    {
    }

    /// The interval that lies between `a` and `b` is the one spanning them.
    pub proof fn lemma_between_is_spanning(self, a: int, b: int)
        requires
            self.between(a, b),
        ensures
            self == Interval::spanning(a, b),
    {
    }

    /// The interval of the given `length` that touches this one from outside
    /// on the given `side`.
    pub open spec fn outside(self, length: int, side: Side) -> Interval {
        Interval::spanning(self.outside_ends(length, side).0, self.outside_ends(length, side).1)
    }

    /// The interval of the given `length` at the given position in this one.
    pub open spec fn inside(self, length: int, pos: MaybeCenter<Side>) -> Interval {
        Interval::spanning(self.inside_ends(length, pos).0, self.inside_ends(length, pos).1)
    }

    /// Whether [`Interval::place_outside`] stays within what a [`Pixel`] can hold.
    pub open spec fn outside_fits(self, length: int, side: Side) -> bool {
        fits(self.outside_ends(length, side).0) && fits(self.outside_ends(length, side).1)
    }

    /// Whether [`Interval::place_inside`] stays within what a [`Pixel`] can hold.
    pub open spec fn inside_fits(self, length: int, pos: MaybeCenter<Side>) -> bool {
        fits(self.inside_ends(length, pos).0) && fits(self.inside_ends(length, pos).1)
    }

    /// The point halfway between the bounds. Where no point is exactly
    /// halfway, it is the one nearer to the start.
    pub open spec fn center(self) -> int {
        (self.lo() + self.hi()) / 2
    }

    /// The two ends between which [`Interval::set_len`] lays the interval.
    pub open spec fn resized_ends(self, keep: Side, to: int) -> (int, int) {
        match keep {
            Side::Least => (self.lo(), self.lo() + to),
            Side::Most => (self.hi() - to, self.hi()),
        }
    }

    /// The two ends between which [`Interval::place_outside`] lays the new interval.
    pub open spec fn outside_ends(self, length: int, side: Side) -> (int, int) {
        match side {
            Side::Least => (self.lo() - length, self.lo()),
            Side::Most => (self.hi(), self.hi() + length),
        }
    }

    /// The two ends between which [`Interval::place_inside`] lays the new interval.
    pub open spec fn inside_ends(self, length: int, pos: MaybeCenter<Side>) -> (int, int) {
        match pos {
            MaybeCenter::Extreme(Side::Least) => (self.lo(), self.lo() + length),
            MaybeCenter::Center => (self.center() - half(length), self.center() + half(length)),
            MaybeCenter::Extreme(Side::Most) => (self.hi() - length, self.hi()),
        }
    }

    /// Sets the length of this interval, keeping one limit
    /// and overriding the other one. With a negative length the kept limit
    /// becomes the other end.
    pub fn set_len(&mut self, keep: Side, to: Pixel)
        requires
            fits(old(self).resized_ends(keep, to as int).0),
            fits(old(self).resized_ends(keep, to as int).1),
        ensures
            final(self).wf(),
            final(self).between(
                old(self).resized_ends(keep, to as int).0,
                old(self).resized_ends(keep, to as int).1,
            ),
    {
        match keep {
            Side::Least => {
                self.end = self.start + to;
            },
            Side::Most => {
                self.start = self.end - to;
            },
        }
        self.fix_invariants();
    }

    /// If `target` is outside the interval,
    /// move the bound which is nearer to be `target` instead.
    /// Otherwise, it's inside, and do nothing.
    pub fn stretch_to(&mut self, target: Pixel)
        requires
            old(self).wf(),
        ensures
            final(self).wf(),
            final(self).lo() == least(old(self).lo(), target as int),
            final(self).hi() == most(old(self).hi(), target as int),
    {
        if self.contains(target) {
            return ;
        }
        // on which side is `target`, before `start` or after `end`?

        if target < self.start {
            self.start = target;
        } else {
            self.end = target;
        }
    }

    /// Divides the length by the given `divisor`
    /// such that the limit on `side`
    /// stays at the same position.
    pub fn divide_at(&mut self, side: Side, divisor: Scale)
        requires
            divisor.wf(),
            fits(old(self).span()),
            fits(old(self).resized_ends(side, divisor.divide(old(self).span())).0),
            fits(old(self).resized_ends(side, divisor.divide(old(self).span())).1),
        ensures
            final(self).wf(),
            final(self).between(
                old(self).resized_ends(side, divisor.divide(old(self).span())).0,
                old(self).resized_ends(side, divisor.divide(old(self).span())).1,
            ),
            old(self).wf() && divisor.is_one() ==> *final(self) == *old(self),
    {
        let to: Pixel = divisor.apply(self.len());
        proof {
            if self.wf() && divisor.is_one() {
                divisor.lemma_divide_by_one(self.span());
            }
        }
        self.set_len(side, to);
    }

    /// Creates a new [`Interval`] of the given `length` next to this interval,
    /// on the given `side`.
    /// The new interval will touch this one and share one limit.
    #[must_use]
    pub fn place_outside(self, length: Pixel, side: Side) -> (r: Self)
        requires
            fits(self.outside_ends(length as int, side).0),
            fits(self.outside_ends(length as int, side).1),
        ensures
            r.wf(),
            r.between(
                self.outside_ends(length as int, side).0,
                self.outside_ends(length as int, side).1,
            ),
    {
        match side {
            Side::Least => Self::new(self.start - length, self.start),
            Side::Most => Self::new(self.end, self.end + length),
        }
    }

    /// Creates a new [`Interval`] of the given `length` inside of this
    /// interval, at the given position. In the center it reaches half the
    /// length, rounded towards zero, to both sides of [`Interval::mid`].
    #[must_use]
    pub fn place_inside(self, length: Pixel, pos: MaybeCenter<Side>) -> (r: Self)
        requires
            fits(self.inside_ends(length as int, pos).0),
            fits(self.inside_ends(length as int, pos).1),
        ensures
            r.wf(),
            r.between(
                self.inside_ends(length as int, pos).0,
                self.inside_ends(length as int, pos).1,
            ),
    {
        match pos {
            MaybeCenter::Extreme(Side::Least) => Self::new(self.start, self.start + length),
            MaybeCenter::Center => {
                let mid: Pixel = self.mid();
                let half_length: Pixel = length / 2;
                Self::new(mid - half_length, mid + half_length)
            },
            MaybeCenter::Extreme(Side::Most) => Self::new(self.end - length, self.end),
        }
    }

    /// [`Interval::place_outside`], or nothing where a bound of the new
    /// interval would be more than a [`Pixel`] can hold.
    #[must_use]
    pub fn try_place_outside(self, length: Pixel, side: Side) -> (r: Option<Self>)
        ensures
            r is Some <==> self.outside_fits(length as int, side),
            r matches Some(placed) ==> placed.wf() && placed == self.outside(length as int, side),
    {
        let (a, b): (i64, i64) = match side {
            Side::Least => (self.start as i64 - length as i64, self.start as i64),
            Side::Most => (self.end as i64, self.end as i64 + length as i64),
        };
        if a < i32::MIN as i64 || a > i32::MAX as i64 || b < i32::MIN as i64 || b > i32::MAX as i64 {
            return None;
        }
        let placed: Interval = self.place_outside(length, side);
        proof {
            placed.lemma_between_is_spanning(
                self.outside_ends(length as int, side).0,
                self.outside_ends(length as int, side).1,
            );
        }
        Some(placed)
    }

    /// [`Interval::place_inside`], or nothing where a bound of the new
    /// interval would be more than a [`Pixel`] can hold.
    #[must_use]
    pub fn try_place_inside(self, length: Pixel, pos: MaybeCenter<Side>) -> (r: Option<Self>)
        ensures
            r is Some <==> self.inside_fits(length as int, pos),
            r matches Some(placed) ==> placed.wf() && placed == self.inside(length as int, pos),
    {
        let (a, b): (i64, i64) = match pos {
            MaybeCenter::Extreme(Side::Least) => (
                self.start as i64,
                self.start as i64 + length as i64,
            ),
            MaybeCenter::Center => {
                let mid: i64 = self.mid() as i64;
                let half_length: i64 = (length / 2) as i64;
                (mid - half_length, mid + half_length)
            },
            MaybeCenter::Extreme(Side::Most) => (self.end as i64 - length as i64, self.end as i64),
        };
        if a < i32::MIN as i64 || a > i32::MAX as i64 || b < i32::MIN as i64 || b > i32::MAX as i64 {
            return None;
        }
        let placed: Interval = self.place_inside(length, pos);
        proof {
            placed.lemma_between_is_spanning(
                self.inside_ends(length as int, pos).0,
                self.inside_ends(length as int, pos).1,
            );
        }
        Some(placed)
    }

    /// The interval moved by `by`, which may be negative.
    #[must_use]
    pub fn shifted(self, by: Pixel) -> (r: Self)
        requires
            fits(self.lo() + by),
            fits(self.hi() + by),
        ensures
            r.lo() == self.lo() + by,
            r.hi() == self.hi() + by,
            r == self.moved(by as int),
    {
        Self { start: self.start + by, end: self.end + by }
    }

    /// The interval moved back by `by`, which may be negative.
    #[must_use]
    pub fn shifted_back(self, by: Pixel) -> (r: Self)
        requires
            fits(self.lo() - by),
            fits(self.hi() - by),
        ensures
            r.lo() == self.lo() - by,
            r.hi() == self.hi() - by,
            r == self.moved(-(by as int)),
    {
        Self { start: self.start - by, end: self.end - by }
    }

    /// The interval with both bounds moved by `by`.
    pub closed spec fn moved(self, by: int) -> Interval {
        Interval { start: (self.start + by) as Pixel, end: (self.end + by) as Pixel }
    }

    /// The bounds of a moved interval, where a [`Pixel`] can hold them.
    pub proof fn lemma_moved(self, by: int)
        requires
            fits(self.lo() + by),
            fits(self.hi() + by),
        ensures
            self.moved(by).lo() == self.lo() + by,
            self.moved(by).hi() == self.hi() + by,
    {
    }

    /// Sets `start` before `end` if necessary.
    fn fix_invariants(&mut self)
        ensures
            final(self).wf(),
            final(self).between(old(self).lo(), old(self).hi()),
    {
        if self.end < self.start {
            let start: Pixel = self.start;
            self.start = self.end;
            self.end = start;
        }
    }

    /// Dividing the length by one leaves the interval as it is: whatever
    /// [`Interval::divide_at`] may return for a scale of one is the interval
    /// it was called on.
    pub proof fn lemma_divide_by_one(self, side: Side, divisor: Scale, after: Interval)
        requires
            self.wf(),
            fits(self.span()),
            divisor.wf(),
            divisor.is_one(),
            after.between(
                self.resized_ends(side, divisor.divide(self.span())).0,
                self.resized_ends(side, divisor.divide(self.span())).1,
            ),
        ensures
            after == self,
    {
        divisor.lemma_divide_by_one(self.span());
    }

    /// An interval placed outside with a length that is not negative shares
    /// exactly one point with the interval it was placed at: the bound on
    /// the chosen side.
    pub proof fn lemma_outside_touches(self, length: int, side: Side, placed: Interval, p: int)
        requires
            self.wf(),
            length >= 0,
            placed.between(self.outside_ends(length, side).0, self.outside_ends(length, side).1),
        ensures
            (self.lo() <= p <= self.hi() && placed.lo() <= p <= placed.hi()) <==> p == (match side {
                Side::Least => self.lo(),
                Side::Most => self.hi(),
            }),
    {
    }
}

impl Hori {
    /// The side of a horizontal interval that this edge is.
    pub open spec fn spec_side(self) -> Side {
        match self {
            Hori::Left => Side::Least,
            Hori::Right => Side::Most,
        }
    }

    /// The side of a horizontal interval that this edge is.
    #[verifier::when_used_as_spec(spec_side)]
    pub fn side(self) -> (r: Side)
        ensures
            r == self.spec_side(),
    {
        match self {
            Hori::Left => Side::Least,
            Hori::Right => Side::Most,
        }
    }
}

impl Vert {
    /// The side of a vertical interval that this edge is.
    pub open spec fn spec_side(self) -> Side {
        match self {
            Vert::Top => Side::Least,
            Vert::Bottom => Side::Most,
        }
    }

    /// The side of a vertical interval that this edge is.
    #[verifier::when_used_as_spec(spec_side)]
    pub fn side(self) -> (r: Side)
        ensures
            r == self.spec_side(),
    {
        match self {
            Vert::Top => Side::Least,
            Vert::Bottom => Side::Most,
        }
    }
}

impl Default for Hori {
    fn default() -> (r: Self)
        ensures
            r == Hori::Right,
    {
        Hori::Right
    }
}

impl Default for Vert {
    fn default() -> (r: Self)
        ensures
            r == Vert::Top,
    {
        Vert::Top
    }
}

impl Default for Rotation {
    fn default() -> (r: Self)
        ensures
            r == Rotation::Zero,
    {
        Rotation::Zero
    }
}

impl Rotation {
    /// Whether a rectangle turned by this much has width and height swapped.
    pub open spec fn spec_swaps_axes(self) -> bool {
        self == Rotation::Quarter || self == Rotation::ThreeQuarter
    }

    /// Whether a rectangle turned by this much has width and height swapped.
    #[verifier::when_used_as_spec(spec_swaps_axes)]
    pub fn swaps_axes(self) -> (r: bool)
        ensures
            r == self.spec_swaps_axes(),
    {
        match self {
            Rotation::Zero | Rotation::Half => false,
            Rotation::Quarter | Rotation::ThreeQuarter => true,
        }
    }

    /// The rotation in degrees, clockwise.
    pub open spec fn spec_degrees(self) -> u16 {
        match self {
            Rotation::Zero => 0u16,
            Rotation::Quarter => 90u16,
            Rotation::Half => 180u16,
            Rotation::ThreeQuarter => 270u16,
        }
    }

    /// The rotation in degrees, clockwise.
    #[verifier::when_used_as_spec(spec_degrees)]
    pub fn degrees(self) -> (r: u16)
        ensures
            r == self.spec_degrees(),
    {
        match self {
            Rotation::Zero => 0,
            Rotation::Quarter => 90,
            Rotation::Half => 180,
            Rotation::ThreeQuarter => 270,
        }
    }
}

impl<T> MaybeCenter<T> {
    /// Applies `op` to the extreme, if this is one.
    pub fn map<U, F: FnOnce(T) -> U>(self, op: F) -> (r: MaybeCenter<U>)
        requires
            self matches MaybeCenter::Extreme(extreme) ==> op.requires((extreme,)),
        ensures
            self is Center <==> r is Center,
            self matches MaybeCenter::Extreme(extreme) ==> r matches MaybeCenter::Extreme(mapped)
                && op.ensures((extreme,), mapped),
    {
        match self {
            MaybeCenter::Center => MaybeCenter::Center,
            MaybeCenter::Extreme(extreme) => MaybeCenter::Extreme(op(extreme)),
        }
    }
}

impl MaybeCenter<Hori> {
    /// Where on a horizontal interval this position is.
    pub open spec fn spec_side(self) -> MaybeCenter<Side> {
        match self {
            MaybeCenter::Center => MaybeCenter::Center,
            MaybeCenter::Extreme(edge) => MaybeCenter::Extreme(edge.spec_side()),
        }
    }

    /// Where on a horizontal interval this position is.
    #[verifier::when_used_as_spec(spec_side)]
    pub fn side(self) -> (r: MaybeCenter<Side>)
        ensures
            r == self.spec_side(),
    {
        match self {
            MaybeCenter::Center => MaybeCenter::Center,
            MaybeCenter::Extreme(edge) => MaybeCenter::Extreme(edge.side()),
        }
    }
}

impl MaybeCenter<Vert> {
    /// Where on a vertical interval this position is.
    pub open spec fn spec_side(self) -> MaybeCenter<Side> {
        match self {
            MaybeCenter::Center => MaybeCenter::Center,
            MaybeCenter::Extreme(edge) => MaybeCenter::Extreme(edge.spec_side()),
        }
    }

    /// Where on a vertical interval this position is.
    #[verifier::when_used_as_spec(spec_side)]
    pub fn side(self) -> (r: MaybeCenter<Side>)
        ensures
            r == self.spec_side(),
    {
        match self {
            MaybeCenter::Center => MaybeCenter::Center,
            MaybeCenter::Extreme(edge) => MaybeCenter::Extreme(edge.side()),
        }
    }
}

impl Default for MaybeCenter<Hori> {
    fn default() -> (r: Self)
        ensures
            r == MaybeCenter::<Hori>::Center,
    {
        MaybeCenter::Center
    }
}

impl Default for MaybeCenter<Vert> {
    fn default() -> (r: Self)
        ensures
            r == MaybeCenter::Extreme(Vert::Top),
    {
        MaybeCenter::Extreme(Vert::Top)
    }
}

/// One corner of a [`Rect`].
#[derive(Clone, Copy, Debug, PartialEq, Eq, Structural)]
pub struct Corner {
    /// Whether the corner is left or right.
    pub hori: Hori,
    /// Whether the corner is at the top or bottom.
    pub vert: Vert,
}

impl Corner {
    /// The corner with the least coordinates on both axes.
    pub fn upper_left() -> (r: Self)
        ensures
            r == (Corner { hori: Hori::Left, vert: Vert::Top }),
    {
        Corner { hori: Hori::Left, vert: Vert::Top }
    }
}

/// How an output is flipped and rotated.
#[derive(Clone, Copy, Debug, PartialEq, Eq, PartialOrd, Ord, Structural)]
pub struct Transform {
    pub flipped: bool,
    pub rotation: Rotation,
}

impl Default for Transform {
    fn default() -> (r: Self)
        ensures
            r == (Transform { flipped: false, rotation: Rotation::Zero }),
    {
        Transform { flipped: false, rotation: Rotation::Zero }
    }
}

#[derive(Copy, Clone, Debug, PartialEq, Eq, PartialOrd, Ord, Hash, Structural)]
pub struct Point {
    pub x: Pixel,
    pub y: Pixel,
}

#[derive(Copy, Clone, Debug, PartialEq, Eq, PartialOrd, Ord, Hash, Structural)]
pub struct Size {
    pub width: Pixel,
    pub height: Pixel,
}

impl Size {
    /// The size with width and height swapped if `amount` is a quarter or
    /// three quarters of a turn, the size itself otherwise.
    pub open spec fn rotated(self, amount: Rotation) -> Size {
        if amount.spec_swaps_axes() {
            Size { width: self.height, height: self.width }
        } else {
            self
        }
    }

    /// The size with both lengths divided by `divisor`.
    pub open spec fn divided(self, divisor: Scale) -> Size {
        Size {
            width: divisor.divide(self.width as int) as Pixel,
            height: divisor.divide(self.height as int) as Pixel,
        }
    }

    /// The size with both lengths multiplied by `factor`.
    pub open spec fn multiplied(self, factor: Scale) -> Size {
        Size {
            width: factor.multiply(self.width as int) as Pixel,
            height: factor.multiply(self.height as int) as Pixel,
        }
    }

    /// Multiplies both lengths by `factor`, each rounded towards zero.
    #[must_use]
    pub fn multiply(&self, factor: Scale) -> (r: Self)
        requires
            factor.wf(),
        ensures
            r == self.multiplied(factor),
    {
        Size { width: factor.times(self.width), height: factor.times(self.height) }
    }

    /// Flips width and height
    /// if the rotation is [`Rotation::Quarter`] or [`Rotation::ThreeQuarter`].
    #[must_use]
    pub fn rotate(&self, amount: Rotation) -> (r: Self)
        ensures
            r == self.rotated(amount),
    {
        if amount.swaps_axes() {
            Size { width: self.height, height: self.width }
        } else {
            *self
        }
    }

    /// Divides both lengths by `divisor`, each rounded towards zero.
    #[must_use]
    pub fn divide(&self, divisor: Scale) -> (r: Self)
        requires
            divisor.wf(),
        ensures
            r == self.divided(divisor),
    {
        Size { width: divisor.apply(self.width), height: divisor.apply(self.height) }
    }
}

impl Default for Interval {
    fn default() -> (r: Self)
        ensures
            r.lo() == 0,
            r.hi() == 0,
    {
        Interval { start: 0, end: 0 }
    }
}

/// Rectangle in pixels.
#[derive(Copy, Clone, Debug, PartialEq, Eq, PartialOrd, Ord, Hash, Structural)]
pub struct Rect {
    pub x: Interval,
    pub y: Interval,
}

impl Default for Rect {
    fn default() -> (r: Self)
        ensures
            r.x.lo() == 0,
            r.x.hi() == 0,
            r.y.lo() == 0,
            r.y.hi() == 0,
    {
        Rect { x: Interval::default(), y: Interval::default() }
    }
}

impl Rect {
    /// Both intervals have their bounds in order.
    pub open spec fn wf(self) -> bool {
        self.x.wf() && self.y.wf()
    }

    /// Whether width and height can each be held by a [`Pixel`].
    pub open spec fn measurable(self) -> bool {
        fits(self.x.span()) && fits(self.y.span())
    }

    /// Whether the point lies in the rectangle, its border included.
    pub open spec fn covers(self, p: Point) -> bool {
        self.x.lo() <= p.x <= self.x.hi() && self.y.lo() <= p.y <= self.y.hi()
    }

    /// Whether `other` lies in the rectangle as a whole.
    pub open spec fn encloses(self, other: Rect) -> bool {
        &&& self.x.lo() <= other.x.lo()
        &&& other.x.hi() <= self.x.hi()
        &&& self.y.lo() <= other.y.lo()
        &&& other.y.hi() <= self.y.hi()
    }

    /// The smallest rectangle that holds `self` and `other`.
    pub open spec fn is_hull_of(self, a: Rect, b: Rect) -> bool {
        &&& self.x.lo() == least(a.x.lo(), b.x.lo())
        &&& self.x.hi() == most(a.x.hi(), b.x.hi())
        &&& self.y.lo() == least(a.y.lo(), b.y.lo())
        &&& self.y.hi() == most(a.y.hi(), b.y.hi())
    }

    /// The rectangle moved by `dx` to the right and `dy` downwards.
    pub open spec fn is_moved(self, from: Rect, dx: int, dy: int) -> bool {
        &&& self.x.lo() == from.x.lo() + dx
        &&& self.x.hi() == from.x.hi() + dx
        &&& self.y.lo() == from.y.lo() + dy
        &&& self.y.hi() == from.y.hi() + dy
    }

    /// The smallest rectangle that holds `self` and `other`.
    pub open spec fn hull(self, other: Rect) -> Rect {
        Rect {
            x: Interval::spanning(
                least(self.x.lo(), other.x.lo()),
                most(self.x.hi(), other.x.hi()),
            ),
            y: Interval::spanning(
                least(self.y.lo(), other.y.lo()),
                most(self.y.hi(), other.y.hi()),
            ),
        }
    }

    /// The rectangle moved by `dx` to the right and `dy` downwards.
    pub open spec fn moved(self, dx: int, dy: int) -> Rect {
        Rect { x: self.x.moved(dx), y: self.y.moved(dy) }
    }

    /// The hull of two rectangles has the least and the greatest of their
    /// bounds.
    pub proof fn lemma_hull(self, other: Rect)
        requires
            self.wf(),
            other.wf(),
        ensures
            self.hull(other).wf(),
            self.hull(other).is_hull_of(self, other),
    {
        self.x.lemma_bounds_fit();
        self.y.lemma_bounds_fit();
        other.x.lemma_bounds_fit();
        other.y.lemma_bounds_fit();
        Interval::lemma_spanning(least(self.x.lo(), other.x.lo()), most(self.x.hi(), other.x.hi()));
        Interval::lemma_spanning(least(self.y.lo(), other.y.lo()), most(self.y.hi(), other.y.hi()));
    }

    /// A rectangle moved within what a [`Pixel`] can hold has all its bounds
    /// moved by as much.
    pub proof fn lemma_moved(self, dx: int, dy: int)
        requires
            fits(self.x.lo() + dx),
            fits(self.x.hi() + dx),
            fits(self.y.lo() + dy),
            fits(self.y.hi() + dy),
        ensures
            self.moved(dx, dy).is_moved(self, dx, dy),
            self.wf() ==> self.moved(dx, dy).wf(),
    {
        self.x.lemma_moved(dx);
        self.y.lemma_moved(dy);
    }

    /// Two rectangles with the same bounds are the same rectangle.
    pub proof fn lemma_same_bounds(self, other: Rect)
        requires
            self.x.lo() == other.x.lo(),
            self.x.hi() == other.x.hi(),
            self.y.lo() == other.y.lo(),
            self.y.hi() == other.y.hi(),
        ensures
            self == other,
    {
        self.x.lemma_same_bounds(other.x);
        self.y.lemma_same_bounds(other.y);
    }

    /// The four corners: upper left, upper right, lower left, lower right.
    #[must_use]
    pub fn vertices(&self) -> (r: [Point; 4])
        ensures
            r[0] == (Point { x: self.x.lo() as Pixel, y: self.y.lo() as Pixel }),
            r[1] == (Point { x: self.x.hi() as Pixel, y: self.y.lo() as Pixel }),
            r[2] == (Point { x: self.x.lo() as Pixel, y: self.y.hi() as Pixel }),
            r[3] == (Point { x: self.x.hi() as Pixel, y: self.y.hi() as Pixel }),
    {
        [
            Point { x: self.x.start(), y: self.y.start() },
            Point { x: self.x.end(), y: self.y.start() },
            Point { x: self.x.start(), y: self.y.end() },
            Point { x: self.x.end(), y: self.y.end() },
        ]
    }

    /// Width and height of the rectangle.
    pub open spec fn extent(self) -> Size {
        Size { width: self.x.span() as Pixel, height: self.y.span() as Pixel }
    }

    /// Whether width and height can each be held by a [`Pixel`].
    #[must_use]
    pub fn is_measurable(&self) -> (r: bool)
        ensures
            r == self.measurable(),
    {
        self.x.is_measurable() && self.y.is_measurable()
    }

    #[must_use]
    pub fn size(&self) -> (r: Size)
        requires
            self.measurable(),
        ensures
            r.width == self.x.span(),
            r.height == self.y.span(),
            r == self.extent(),
    {
        Size { width: self.x.len(), height: self.y.len() }
    }

    #[must_use]
    pub fn contains(&self, subject: Point) -> (r: bool)
        ensures
            r == self.covers(subject),
    {
        self.x.contains(subject.x) && self.y.contains(subject.y)
    }

    /// If `target` is outside of the rect,
    /// move corners of the rect to exactly include it.
    /// Otherwise, do nothing.
    pub fn stretch_to_point(&mut self, target: Point)
        requires
            old(self).wf(),
        ensures
            final(self).wf(),
            final(self).x.lo() == least(old(self).x.lo(), target.x as int),
            final(self).x.hi() == most(old(self).x.hi(), target.x as int),
            final(self).y.lo() == least(old(self).y.lo(), target.y as int),
            final(self).y.hi() == most(old(self).y.hi(), target.y as int),
    {
        self.x.stretch_to(target.x);
        self.y.stretch_to(target.y);
    }

    /// Stretches the rect so that it includes all of `target`.
    pub fn stretch_to_rect(&mut self, target: Self)
        requires
            old(self).wf(),
            target.wf(),
        ensures
            final(self).wf(),
            final(self).is_hull_of(*old(self), target),
            *final(self) == old(self).hull(target),
    {
        let vertices: [Point; 4] = target.vertices();
        self.stretch_to_point(vertices[0]);
        self.stretch_to_point(vertices[1]);
        self.stretch_to_point(vertices[2]);
        self.stretch_to_point(vertices[3]);
        proof {
            old(self).lemma_hull(target);
            self.lemma_same_bounds(old(self).hull(target));
        }
    }

    /// Divides the size by the given `divisor`,
    /// such that all corners _except_ the given one move
    /// (if `divisor` is not one).
    /// The given corner is not moved.
    pub fn divide_at(&mut self, corner: Corner, divisor: Scale)
        requires
            divisor.wf(),
            old(self).measurable(),
            fits(old(self).x.resized_ends(corner.hori.spec_side(), divisor.divide(old(self).x.span())).0),
            fits(old(self).x.resized_ends(corner.hori.spec_side(), divisor.divide(old(self).x.span())).1),
            fits(old(self).y.resized_ends(corner.vert.spec_side(), divisor.divide(old(self).y.span())).0),
            fits(old(self).y.resized_ends(corner.vert.spec_side(), divisor.divide(old(self).y.span())).1),
        ensures
            final(self).wf(),
            final(self).x.between(
                old(self).x.resized_ends(corner.hori.spec_side(), divisor.divide(old(self).x.span())).0,
                old(self).x.resized_ends(corner.hori.spec_side(), divisor.divide(old(self).x.span())).1,
            ),
            final(self).y.between(
                old(self).y.resized_ends(corner.vert.spec_side(), divisor.divide(old(self).y.span())).0,
                old(self).y.resized_ends(corner.vert.spec_side(), divisor.divide(old(self).y.span())).1,
            ),
            old(self).wf() && divisor.is_one() ==> *final(self) == *old(self),
    {
        self.x.divide_at(corner.hori.side(), divisor);
        self.y.divide_at(corner.vert.side(), divisor);
    }

    /// Swaps width and height
    /// if the rotation is [`Rotation::Quarter`] or [`Rotation::ThreeQuarter`],
    /// keeping `corner` at the same position in any case.
    /// Otherwise, does nothing.
    pub fn rotate_in_place(&mut self, corner: Corner, amount: Rotation)
        requires
            amount.spec_swaps_axes() ==> old(self).transposable(corner),
        ensures
            !amount.spec_swaps_axes() ==> *final(self) == *old(self),
            amount.spec_swaps_axes() ==> final(self).is_transposed(*old(self), corner),
    {
        if !amount.swaps_axes() {
            // no need to "rotate"
            return ;
        }
        self.transpose(corner);
    }

    /// Whether the rectangle can have width and height swapped about
    /// `corner` without leaving the range of [`Pixel`].
    pub open spec fn transposable(self, corner: Corner) -> bool {
        &&& self.measurable()
        &&& fits(self.x.resized_ends(corner.hori.spec_side(), self.y.span()).0)
        &&& fits(self.x.resized_ends(corner.hori.spec_side(), self.y.span()).1)
        &&& fits(self.y.resized_ends(corner.vert.spec_side(), self.x.span()).0)
        &&& fits(self.y.resized_ends(corner.vert.spec_side(), self.x.span()).1)
    }

    /// The rectangle `from` with width and height swapped about `corner`.
    pub open spec fn is_transposed(self, from: Rect, corner: Corner) -> bool {
        &&& self.wf()
        &&& self.x.between(
            from.x.resized_ends(corner.hori.spec_side(), from.y.span()).0,
            from.x.resized_ends(corner.hori.spec_side(), from.y.span()).1,
        )
        &&& self.y.between(
            from.y.resized_ends(corner.vert.spec_side(), from.x.span()).0,
            from.y.resized_ends(corner.vert.spec_side(), from.x.span()).1,
        )
    }

    /// The coordinates of the given corner.
    pub open spec fn corner_at(self, corner: Corner) -> (int, int) {
        (
            match corner.hori {
                Hori::Left => self.x.lo(),
                Hori::Right => self.x.hi(),
            },
            match corner.vert {
                Vert::Top => self.y.lo(),
                Vert::Bottom => self.y.hi(),
            },
        )
    }

    /// Swaps width and height
    /// keeping `corner` at the same position in any case.
    pub fn transpose(&mut self, corner: Corner)
        requires
            old(self).transposable(corner),
        ensures
            final(self).is_transposed(*old(self), corner),
    {
        let prev_x_len: Pixel = self.x.len();
        self.x.set_len(corner.hori.side(), self.y.len());
        self.y.set_len(corner.vert.side(), prev_x_len);
    }

    /// A rectangle turned in place by no or half a turn is unchanged. Turned
    /// by a quarter or three quarters, it has width and height swapped, and
    /// the corner it was turned about is where it was.
    pub proof fn lemma_rotate_in_place(self, corner: Corner, amount: Rotation, after: Rect)
        requires
            self.wf(),
            !amount.spec_swaps_axes() ==> after == self,
            amount.spec_swaps_axes() ==> after.is_transposed(self, corner),
        ensures
            (amount == Rotation::Zero || amount == Rotation::Half) ==> after == self,
            (amount == Rotation::Quarter || amount == Rotation::ThreeQuarter) ==> {
                &&& after.x.span() == self.y.span()
                &&& after.y.span() == self.x.span()
                &&& after.corner_at(corner) == self.corner_at(corner)
            },
    {
    }

    /// The rectangle moved back by `by`.
    #[must_use]
    pub fn shifted_back(self, by: Point) -> (r: Self)
        requires
            fits(self.x.lo() - by.x),
            fits(self.x.hi() - by.x),
            fits(self.y.lo() - by.y),
            fits(self.y.hi() - by.y),
        ensures
            r.is_moved(self, -(by.x as int), -(by.y as int)),
            r == self.moved(-(by.x as int), -(by.y as int)),
            self.wf() ==> r.wf(),
    {
        Rect { x: self.x.shifted_back(by.x), y: self.y.shifted_back(by.y) }
    }

    /// The rectangle moved by `by`.
    #[must_use]
    pub fn shifted(self, by: Point) -> (r: Self)
        requires
            fits(self.x.lo() + by.x),
            fits(self.x.hi() + by.x),
            fits(self.y.lo() + by.y),
            fits(self.y.hi() + by.y),
        ensures
            r.is_moved(self, by.x as int, by.y as int),
            r == self.moved(by.x as int, by.y as int),
            self.wf() ==> r.wf(),
    {
        Rect { x: self.x.shifted(by.x), y: self.y.shifted(by.y) }
    }
}

impl<T> From<T> for MaybeCenter<T> {
    fn from(value: T) -> (r: MaybeCenter<T>) {
        MaybeCenter::Extreme(value)
    }
}

impl<T> vstd::std_specs::convert::FromSpecImpl<T> for MaybeCenter<T> {
    open spec fn obeys_from_spec() -> bool {
        true
    }

    open spec fn from_spec(value: T) -> MaybeCenter<T> {
        MaybeCenter::Extreme(value)
    }
}

impl From<Hori> for Side {
    fn from(value: Hori) -> (r: Side) {
        value.side()
    }
}

impl vstd::std_specs::convert::FromSpecImpl<Hori> for Side {
    open spec fn obeys_from_spec() -> bool {
        true
    }

    open spec fn from_spec(value: Hori) -> Side {
        value.spec_side()
    }
}

impl From<Vert> for Side {
    fn from(value: Vert) -> (r: Side) {
        value.side()
    }
}

impl vstd::std_specs::convert::FromSpecImpl<Vert> for Side {
    open spec fn obeys_from_spec() -> bool {
        true
    }

    open spec fn from_spec(value: Vert) -> Side {
        value.spec_side()
    }
}

impl From<Corner> for Hori {
    fn from(corner: Corner) -> (r: Hori) {
        corner.hori
    }
}

impl vstd::std_specs::convert::FromSpecImpl<Corner> for Hori {
    open spec fn obeys_from_spec() -> bool {
        true
    }

    open spec fn from_spec(corner: Corner) -> Hori {
        corner.hori
    }
}

impl From<Corner> for Vert {
    fn from(corner: Corner) -> (r: Vert) {
        corner.vert
    }
}

impl vstd::std_specs::convert::FromSpecImpl<Corner> for Vert {
    open spec fn obeys_from_spec() -> bool {
        true
    }

    open spec fn from_spec(corner: Corner) -> Vert {
        corner.vert
    }
}

impl core::ops::Add<Pixel> for Interval {
    type Output = Interval;

    /// The interval moved by `rhs`.
    fn add(self, rhs: Pixel) -> (r: Interval) {
        self.shifted(rhs)
    }
}

impl vstd::std_specs::ops::AddSpecImpl<Pixel> for Interval {
    open spec fn obeys_add_spec() -> bool {
        true
    }

    open spec fn add_req(self, rhs: Pixel) -> bool {
        fits(self.lo() + rhs) && fits(self.hi() + rhs)
    }

    open spec fn add_spec(self, rhs: Pixel) -> Interval {
        self.moved(rhs as int)
    }
}

impl core::ops::Sub<Pixel> for Interval {
    type Output = Interval;

    /// The interval moved back by `rhs`.
    fn sub(self, rhs: Pixel) -> (r: Interval) {
        self.shifted_back(rhs)
    }
}

impl vstd::std_specs::ops::SubSpecImpl<Pixel> for Interval {
    open spec fn obeys_sub_spec() -> bool {
        true
    }

    open spec fn sub_req(self, rhs: Pixel) -> bool {
        fits(self.lo() - rhs) && fits(self.hi() - rhs)
    }

    open spec fn sub_spec(self, rhs: Pixel) -> Interval {
        self.moved(-(rhs as int))
    }
}

impl core::ops::Add<Point> for Rect {
    type Output = Rect;

    /// The rectangle moved by `rhs`.
    fn add(self, rhs: Point) -> (r: Rect) {
        self.shifted(rhs)
    }
}

impl vstd::std_specs::ops::AddSpecImpl<Point> for Rect {
    open spec fn obeys_add_spec() -> bool {
        true
    }

    open spec fn add_req(self, rhs: Point) -> bool {
        &&& fits(self.x.lo() + rhs.x)
        &&& fits(self.x.hi() + rhs.x)
        &&& fits(self.y.lo() + rhs.y)
        &&& fits(self.y.hi() + rhs.y)
    }

    open spec fn add_spec(self, rhs: Point) -> Rect {
        self.moved(rhs.x as int, rhs.y as int)
    }
}

impl core::ops::Sub<Point> for Rect {
    type Output = Rect;

    /// The rectangle moved back by `rhs`.
    fn sub(self, rhs: Point) -> (r: Rect) {
        self.shifted_back(rhs)
    }
}

impl vstd::std_specs::ops::SubSpecImpl<Point> for Rect {
    open spec fn obeys_sub_spec() -> bool {
        true
    }

    open spec fn sub_req(self, rhs: Point) -> bool {
        &&& fits(self.x.lo() - rhs.x)
        &&& fits(self.x.hi() - rhs.x)
        &&& fits(self.y.lo() - rhs.y)
        &&& fits(self.y.hi() - rhs.y)
    }

    open spec fn sub_spec(self, rhs: Point) -> Rect {
        self.moved(-(rhs.x as int), -(rhs.y as int))
    }
}

impl core::ops::Neg for Point {
    type Output = Point;

    /// The point on the other side of the origin.
    fn neg(self) -> (r: Point) {
        Point { x: -self.x, y: -self.y }
    }
}

impl vstd::std_specs::ops::NegSpecImpl for Point {
    open spec fn obeys_neg_spec() -> bool {
        true
    }

    open spec fn neg_req(self) -> bool {
        self.x > i32::MIN && self.y > i32::MIN
    }

    open spec fn neg_spec(self) -> Point {
        Point { x: (-self.x) as Pixel, y: (-self.y) as Pixel }
    }
}

impl core::ops::Mul<Scale> for Size {
    type Output = Size;

    /// The size with both lengths multiplied by `rhs`.
    fn mul(self, rhs: Scale) -> (r: Size) {
        self.multiply(rhs)
    }
}

impl vstd::std_specs::ops::MulSpecImpl<Scale> for Size {
    open spec fn obeys_mul_spec() -> bool {
        true
    }

    open spec fn mul_req(self, rhs: Scale) -> bool {
        rhs.wf()
    }

    open spec fn mul_spec(self, rhs: Scale) -> Size {
        self.multiplied(rhs)
    }
}

impl core::ops::Div<Scale> for Size {
    type Output = Size;

    /// The size with both lengths divided by `rhs`.
    fn div(self, rhs: Scale) -> (r: Size) {
        self.divide(rhs)
    }
}

impl vstd::std_specs::ops::DivSpecImpl<Scale> for Size {
    open spec fn obeys_div_spec() -> bool {
        true
    }

    open spec fn div_req(self, rhs: Scale) -> bool {
        rhs.wf()
    }

    open spec fn div_spec(self, rhs: Scale) -> Size {
        self.divided(rhs)
    }
}

} // verus!
