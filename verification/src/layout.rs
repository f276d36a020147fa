//! Layout geometry.
//!
//! Coordinates are single-precision floating-point numbers. Nothing here does
//! arithmetic on them: a number is its bit pattern, which is enough to compare
//! two of them, and a computed coordinate is kept as the expression that says
//! how to compute it. Each constructor of an expression is one operation of the
//! renderer's geometry; whoever consumes the flattened scene evaluates it, in
//! the order in which it is written.
use vstd::prelude::*;

verus! {

/// A single-precision floating-point number, by its IEEE 754 bit pattern.
#[derive(Clone, Copy, Debug)]
pub struct F32 {
    pub bits: u32,
}

impl F32 {
    /// Whether the bit pattern is that of a NaN.
    pub open spec fn nan(self) -> bool {
        self.bits % 0x8000_0000 > 0x7f80_0000
    }

    /// An integer that orders the numbers that are not NaN: both zeros have
    /// rank 0, and a larger number has a larger rank.
    pub open spec fn rank(self) -> int {
        if self.bits >= 0x8000_0000 {
            0x8000_0000 - self.bits
        } else {
            self.bits as int
        }
    }

    /// `self == other` as floating-point numbers.
    pub open spec fn same(self, other: F32) -> bool {
        !self.nan() && !other.nan() && self.rank() == other.rank()
    }

    /// `self > other` as floating-point numbers.
    pub open spec fn above(self, other: F32) -> bool {
        !self.nan() && !other.nan() && self.rank() > other.rank()
    }

    /// The number 0.0.
    pub open spec fn spec_zero() -> F32 {
        F32 { bits: 0 }
    }

    /// The number 1.0.
    pub open spec fn spec_one() -> F32 {
        F32 { bits: 0x3f80_0000 }
    }

    #[verifier::when_used_as_spec(spec_zero)]
    pub fn zero() -> (r: F32)
        ensures
            r == F32::spec_zero(),
    {
        F32 { bits: 0 }
    }

    #[verifier::when_used_as_spec(spec_one)]
    pub fn one() -> (r: F32)
        ensures
            r == F32::spec_one(),
    {
        F32 { bits: 0x3f80_0000 }
    }

    /// Whether this is a NaN.
    pub fn is_nan(self) -> (r: bool)
        ensures
            r == self.nan(),
    {
        self.bits % 0x8000_0000 > 0x7f80_0000
    }

    /// Floating-point equality: the two zeros are equal, a NaN equals nothing.
    pub fn equals(self, other: F32) -> (r: bool)
        ensures
            r == self.same(other),
    {
        !self.is_nan() && !other.is_nan() && self.order() == other.order()
    }

    /// Floating-point `>`: false where either side is a NaN.
    pub fn exceeds(self, other: F32) -> (r: bool)
        ensures
            r == self.above(other),
    {
        !self.is_nan() && !other.is_nan() && self.order() > other.order()
    }

    fn order(self) -> (r: i64)
        ensures
            r == self.rank(),
    {
        if self.bits >= 0x8000_0000 {
            0x8000_0000i64 - self.bits as i64
        } else {
            self.bits as i64
        }
    }
}

/// A point that is given.
#[derive(Clone, Copy, Debug)]
pub struct PointF {
    pub x: F32,
    pub y: F32,
}

/// A vector that is given.
#[derive(Clone, Copy, Debug)]
pub struct VectorF {
    pub x: F32,
    pub y: F32,
}

/// A size that is given.
#[derive(Clone, Copy, Debug)]
pub struct SizeF {
    pub width: F32,
    pub height: F32,
}

/// A rectangle that is given.
#[derive(Clone, Copy, Debug)]
pub struct RectF {
    pub origin: PointF,
    pub size: SizeF,
}

/// A colour, with its alpha.
#[derive(Clone, Copy, Debug)]
pub struct ColorF {
    pub r: F32,
    pub g: F32,
    pub b: F32,
    pub a: F32,
}

/// A computed number.
#[derive(Debug)]
pub enum Scalar {
    Value(F32),
    OfInt(i32),
    WidthOf(Box<LayoutSize>),
    HeightOf(Box<LayoutSize>),
    Product(Box<Scalar>, Box<Scalar>),
    Quotient(Box<Scalar>, Box<Scalar>),
    Difference(Box<Scalar>, Box<Scalar>),
    Floor(Box<Scalar>),
}

/// A computed vector.
#[derive(Debug)]
pub enum LayoutVector2D {
    Zero,
    Value(VectorF),
    OfPoint(Box<LayoutPoint>),
    Sum(Box<LayoutVector2D>, Box<LayoutVector2D>),
    Difference(Box<LayoutVector2D>, Box<LayoutVector2D>),
}

/// A computed point.
#[derive(Debug)]
pub enum LayoutPoint {
    Zero,
    Value(PointF),
    OriginOf(Box<LayoutRect>),
    Minus(Box<LayoutPoint>, Box<LayoutVector2D>),
}

/// A computed size.
#[derive(Debug)]
pub enum LayoutSize {
    Zero,
    Value(SizeF),
    OfRect(Box<LayoutRect>),
    New(Box<Scalar>, Box<Scalar>),
    /// The tile spacing that is left when a repeated primitive is simplified.
    SimplifiedSpacing(Box<Tiling>),
}

/// A computed rectangle.
#[derive(Debug)]
pub enum LayoutRect {
    /// The largest rectangle: clips nothing away.
    Max,
    Value(RectF),
    New(Box<LayoutPoint>, Box<LayoutSize>),
    Translated(Box<LayoutRect>, Box<LayoutVector2D>),
    /// The intersection of two rectangles, or the zero rectangle where they do
    /// not meet.
    IntersectionOrZero(Box<LayoutRect>, Box<LayoutRect>),
    /// The rectangle that is left when a repeated primitive is simplified.
    Simplified(Box<Tiling>),
}

/// What the simplification of a repeated primitive starts from: tiles of
/// `stretch_size`, `tile_spacing` apart, that fill `rect`.
#[derive(Debug)]
pub struct Tiling {
    pub stretch_size: LayoutSize,
    pub tile_spacing: LayoutSize,
    pub rect: LayoutRect,
}

impl Scalar {
    /// The same expression again.
    pub fn copy(&self) -> (r: Scalar)
        ensures
            r == *self,
        decreases self,
    {
        match self {
            Scalar::Value(v) => Scalar::Value(*v),
            Scalar::OfInt(v) => Scalar::OfInt(*v),
            Scalar::WidthOf(s) => Scalar::WidthOf(Box::new(s.copy())),
            Scalar::HeightOf(s) => Scalar::HeightOf(Box::new(s.copy())),
            Scalar::Product(a, b) => Scalar::Product(Box::new(a.copy()), Box::new(b.copy())),
            Scalar::Quotient(a, b) => Scalar::Quotient(Box::new(a.copy()), Box::new(b.copy())),
            Scalar::Difference(a, b) => Scalar::Difference(Box::new(a.copy()), Box::new(b.copy())),
            Scalar::Floor(a) => Scalar::Floor(Box::new(a.copy())),
        }
    }
}

impl LayoutVector2D {
    /// The same expression again.
    pub fn copy(&self) -> (r: LayoutVector2D)
        ensures
            r == *self,
        decreases self,
    {
        match self {
            LayoutVector2D::Zero => LayoutVector2D::Zero,
            LayoutVector2D::Value(v) => LayoutVector2D::Value(*v),
            LayoutVector2D::OfPoint(p) => LayoutVector2D::OfPoint(Box::new(p.copy())),
            LayoutVector2D::Sum(a, b) => LayoutVector2D::Sum(
                Box::new(a.copy()),
                Box::new(b.copy()),
            ),
            LayoutVector2D::Difference(a, b) => LayoutVector2D::Difference(
                Box::new(a.copy()),
                Box::new(b.copy()),
            ),
        }
    }
}

impl LayoutPoint {
    /// The same expression again.
    pub fn copy(&self) -> (r: LayoutPoint)
        ensures
            r == *self,
        decreases self,
    {
        match self {
            LayoutPoint::Zero => LayoutPoint::Zero,
            LayoutPoint::Value(v) => LayoutPoint::Value(*v),
            LayoutPoint::OriginOf(r) => LayoutPoint::OriginOf(Box::new(r.copy())),
            LayoutPoint::Minus(p, v) => LayoutPoint::Minus(Box::new(p.copy()), Box::new(v.copy())),
        }
    }
}

impl LayoutSize {
    /// The same expression again.
    pub fn copy(&self) -> (r: LayoutSize)
        ensures
            r == *self,
        decreases self,
    {
        match self {
            LayoutSize::Zero => LayoutSize::Zero,
            LayoutSize::Value(v) => LayoutSize::Value(*v),
            LayoutSize::OfRect(r) => LayoutSize::OfRect(Box::new(r.copy())),
            LayoutSize::New(a, b) => LayoutSize::New(Box::new(a.copy()), Box::new(b.copy())),
            LayoutSize::SimplifiedSpacing(t) => LayoutSize::SimplifiedSpacing(Box::new(t.copy())),
        }
    }
}

impl LayoutRect {
    /// The same expression again.
    pub fn copy(&self) -> (r: LayoutRect)
        ensures
            r == *self,
        decreases self,
    {
        match self {
            LayoutRect::Max => LayoutRect::Max,
            LayoutRect::Value(v) => LayoutRect::Value(*v),
            LayoutRect::New(p, s) => LayoutRect::New(Box::new(p.copy()), Box::new(s.copy())),
            LayoutRect::Translated(r, v) => LayoutRect::Translated(
                Box::new(r.copy()),
                Box::new(v.copy()),
            ),
            LayoutRect::IntersectionOrZero(a, b) => LayoutRect::IntersectionOrZero(
                Box::new(a.copy()),
                Box::new(b.copy()),
            ),
            LayoutRect::Simplified(t) => LayoutRect::Simplified(Box::new(t.copy())),
        }
    }
}

impl Tiling {
    /// The same tiling again.
    pub fn copy(&self) -> (r: Tiling)
        ensures
            r == *self,
        decreases self,
    {
        Tiling {
            stretch_size: self.stretch_size.copy(),
            tile_spacing: self.tile_spacing.copy(),
            rect: self.rect.copy(),
        }
    }
}

impl LayoutRect {
    /// This rectangle moved by `by`.
    pub open spec fn spec_translate(self, by: LayoutVector2D) -> LayoutRect {
        LayoutRect::Translated(Box::new(self), Box::new(by))
    }

    /// The corner of this rectangle that it is placed by.
    pub open spec fn spec_origin(self) -> LayoutPoint {
        LayoutPoint::OriginOf(Box::new(self))
    }

    /// The size of this rectangle.
    pub open spec fn spec_size(self) -> LayoutSize {
        LayoutSize::OfRect(Box::new(self))
    }

    #[verifier::when_used_as_spec(spec_translate)]
    pub fn translate(self, by: LayoutVector2D) -> (r: LayoutRect)
        ensures
            r == self.spec_translate(by),
    {
        LayoutRect::Translated(Box::new(self), Box::new(by))
    }

    #[verifier::when_used_as_spec(spec_origin)]
    pub fn origin(self) -> (r: LayoutPoint)
        ensures
            r == self.spec_origin(),
    {
        LayoutPoint::OriginOf(Box::new(self))
    }

    #[verifier::when_used_as_spec(spec_size)]
    pub fn size(self) -> (r: LayoutSize)
        ensures
            r == self.spec_size(),
    {
        LayoutSize::OfRect(Box::new(self))
    }
}

impl LayoutVector2D {
    /// `self` plus the vector from the coordinate origin to `point`.
    pub open spec fn spec_plus_point(self, point: PointF) -> LayoutVector2D {
        LayoutVector2D::Sum(
            Box::new(self),
            Box::new(LayoutVector2D::OfPoint(Box::new(LayoutPoint::Value(point)))),
        )
    }

    #[verifier::when_used_as_spec(spec_plus_point)]
    pub fn plus_point(self, point: PointF) -> (r: LayoutVector2D)
        ensures
            r == self.spec_plus_point(point),
    {
        LayoutVector2D::Sum(
            Box::new(self),
            Box::new(LayoutVector2D::OfPoint(Box::new(LayoutPoint::Value(point)))),
        )
    }
}

} // verus!
