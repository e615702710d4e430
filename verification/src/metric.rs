//! The coordinate value: a 2-D position or size in one of three spaces,
//! with an addition/subtraction algebra that promotes mixed-space operands.

use vstd::prelude::*;

verus! {

/// One unit (1.0) in the fixed-point scale used for every scalar coordinate.
pub const FP_ONE: i64 = 65536;

/// A 2-D position or size.  Scalars are fixed-point: [`FP_ONE`] is 1.0.
#[derive(Debug, Clone, Copy)]
pub enum Metric {
    /// Fractions of the screen: top-left is (0,0), bottom-right (1,1).
    Native(i64, i64),
    /// Absolute pixel offsets from the top-left corner of the screen.
    Pixel(i64, i64),
    /// The sum of a native part and a pixel part.
    Mixed((i64, i64), (i64, i64)),
}

impl Default for Metric {
    fn default() -> (r: Metric)
        ensures
            r == Metric::Native(0i64, 0i64),
    {
        Metric::Native(0, 0)
    }
}

/// Whether every scalar addition performed by `spec_add(a, b)` stays in `i64`.
pub open spec fn add_in_range(a: Metric, b: Metric) -> bool {
    match (a, b) {
        (Metric::Native(x, y), Metric::Native(ox, oy)) => {
            i64::MIN <= x + ox <= i64::MAX && i64::MIN <= y + oy <= i64::MAX
        },
        (Metric::Native(x, y), Metric::Pixel(ox, oy)) => true,
        (Metric::Native(x, y), Metric::Mixed((oax, oay), b2)) => {
            i64::MIN <= x + oax <= i64::MAX && i64::MIN <= y + oay <= i64::MAX
        },
        (Metric::Pixel(x, y), Metric::Native(ox, oy)) => true,
        (Metric::Pixel(x, y), Metric::Pixel(ox, oy)) => {
            i64::MIN <= x + ox <= i64::MAX && i64::MIN <= y + oy <= i64::MAX
        },
        (Metric::Pixel(x, y), Metric::Mixed(a2, (obx, oby))) => {
            i64::MIN <= x + obx <= i64::MAX && i64::MIN <= y + oby <= i64::MAX
        },
        (Metric::Mixed((ax, ay), (bx, by)), Metric::Native(ox, oy)) => {
            i64::MIN <= ax + ox <= i64::MAX && i64::MIN <= ay + oy <= i64::MAX
        },
        (Metric::Mixed((ax, ay), (bx, by)), Metric::Pixel(ox, oy)) => {
            i64::MIN <= bx + ox <= i64::MAX && i64::MIN <= by + oy <= i64::MAX
        },
        (Metric::Mixed((ax, ay), (bx, by)), Metric::Mixed((oax, oay), (obx, oby))) => {
            i64::MIN <= ax + oax <= i64::MAX && i64::MIN <= ay + oay <= i64::MAX
                && i64::MIN <= bx + obx <= i64::MAX && i64::MIN <= by + oby <= i64::MAX
        },
    }
}

/// The sum of two coordinate values: same-kind parts add component-wise,
/// unlike kinds promote to `Mixed`, and a `Mixed` operand absorbs the other
/// operand into the matching part.
pub open spec fn spec_add(a: Metric, b: Metric) -> Metric {
    match (a, b) {
        (Metric::Native(x, y), Metric::Native(ox, oy)) => Metric::Native(
            (x + ox) as i64,
            (y + oy) as i64,
        ),
        (Metric::Native(x, y), Metric::Pixel(ox, oy)) => Metric::Mixed((x, y), (ox, oy)),
        (Metric::Native(x, y), Metric::Mixed((oax, oay), b2)) => Metric::Mixed(
            ((oax + x) as i64, (oay + y) as i64),
            b2,
        ),
        (Metric::Pixel(x, y), Metric::Native(ox, oy)) => Metric::Mixed((ox, oy), (x, y)),
        (Metric::Pixel(x, y), Metric::Pixel(ox, oy)) => Metric::Pixel(
            (x + ox) as i64,
            (y + oy) as i64,
        ),
        (Metric::Pixel(x, y), Metric::Mixed(a2, (obx, oby))) => Metric::Mixed(
            a2,
            ((obx + x) as i64, (oby + y) as i64),
        ),
        (Metric::Mixed((ax, ay), (bx, by)), Metric::Native(ox, oy)) => Metric::Mixed(
            ((ax + ox) as i64, (ay + oy) as i64),
            (bx, by),
        ),
        (Metric::Mixed((ax, ay), (bx, by)), Metric::Pixel(ox, oy)) => Metric::Mixed(
            (ax, ay),
            ((bx + ox) as i64, (by + oy) as i64),
        ),
        (Metric::Mixed((ax, ay), (bx, by)), Metric::Mixed((oax, oay), (obx, oby))) => Metric::Mixed(
            ((ax + oax) as i64, (ay + oay) as i64),
            ((bx + obx) as i64, (by + oby) as i64),
        ),
    }
}

/// Component-wise negation, defined where no component is `i64::MIN`.
pub open spec fn neg_in_range(m: Metric) -> bool {
    match m {
        Metric::Native(x, y) => x != i64::MIN && y != i64::MIN,
        Metric::Pixel(x, y) => x != i64::MIN && y != i64::MIN,
        Metric::Mixed((ax, ay), (bx, by)) => ax != i64::MIN && ay != i64::MIN && bx != i64::MIN
            && by != i64::MIN,
    }
}

/// Component-wise negation of a coordinate value.
pub open spec fn spec_neg(m: Metric) -> Metric {
    match m {
        Metric::Native(x, y) => Metric::Native((-x) as i64, (-y) as i64),
        Metric::Pixel(x, y) => Metric::Pixel((-x) as i64, (-y) as i64),
        Metric::Mixed((ax, ay), (bx, by)) => Metric::Mixed(
            ((-ax) as i64, (-ay) as i64),
            ((-bx) as i64, (-by) as i64),
        ),
    }
}

/// Whether `spec_sub(a, b)` stays in `i64` throughout.
pub open spec fn sub_in_range(a: Metric, b: Metric) -> bool {
    neg_in_range(b) && add_in_range(a, spec_neg(b))
}

/// The difference of two coordinate values: the negation of `b` added to `a`.
pub open spec fn spec_sub(a: Metric, b: Metric) -> Metric {
    spec_add(a, spec_neg(b))
}

impl Metric {
    /// Adds two coordinate values under the promotion rule.
    pub fn add(self, other: Metric) -> (r: Metric)
        requires
            add_in_range(self, other),
        ensures
            r == spec_add(self, other),
    {
        match self {
            Metric::Native(x, y) => match other {
                Metric::Native(ox, oy) => Metric::Native(x + ox, y + oy),
                Metric::Pixel(ox, oy) => Metric::Mixed((x, y), (ox, oy)),
                Metric::Mixed((oax, oay), b) => Metric::Mixed((oax + x, oay + y), b),
            },
            Metric::Pixel(x, y) => match other {
                Metric::Native(ox, oy) => Metric::Mixed((ox, oy), (x, y)),
                Metric::Pixel(ox, oy) => Metric::Pixel(x + ox, y + oy),
                Metric::Mixed(a, (obx, oby)) => Metric::Mixed(a, (obx + x, oby + y)),
            },
            Metric::Mixed((ax, ay), (bx, by)) => match other {
                Metric::Native(ox, oy) => Metric::Mixed((ax + ox, ay + oy), (bx, by)),
                Metric::Pixel(ox, oy) => Metric::Mixed((ax, ay), (bx + ox, by + oy)),
                Metric::Mixed((oax, oay), (obx, oby)) => Metric::Mixed(
                    (ax + oax, ay + oay),
                    (bx + obx, by + oby),
                ),
            },
        }
    }

    /// Subtracts `other` from `self`: adds the component-wise negation.
    pub fn sub(self, other: Metric) -> (r: Metric)
        requires
            sub_in_range(self, other),
        ensures
            r == spec_sub(self, other),
    {
        match other {
            Metric::Native(px, py) => self.add(Metric::Native(-px, -py)),
            Metric::Pixel(px, py) => self.add(Metric::Pixel(-px, -py)),
            Metric::Mixed((ax, ay), (bx, by)) => self.add(
                Metric::Mixed((-ax, -ay), (-bx, -by)),
            ),
        }
    }
}

impl PartialEq for Metric {
    fn eq(&self, other: &Metric) -> (r: bool) {
        match (self, other) {
            (Metric::Native(x, y), Metric::Native(ox, oy)) => x == ox && y == oy,
            (Metric::Pixel(x, y), Metric::Pixel(ox, oy)) => x == ox && y == oy,
            (Metric::Mixed((ax, ay), (bx, by)), Metric::Mixed((oax, oay), (obx, oby))) => {
                ax == oax && ay == oay && bx == obx && by == oby
            },
            _ => false,
        }
    }
}

impl Eq for Metric {

}

impl vstd::std_specs::cmp::PartialEqSpecImpl for Metric {
    open spec fn obeys_eq_spec() -> bool {
        true
    }

    open spec fn eq_spec(&self, other: &Metric) -> bool {
        *self == *other
    }
}

impl From<(i64, i64)> for Metric {
    /// A bare scalar pair is read as a native (screen-fraction) coordinate.
    fn from(p: (i64, i64)) -> (r: Metric) {
        Metric::Native(p.0, p.1)
    }
}

impl vstd::std_specs::convert::FromSpecImpl<(i64, i64)> for Metric {
    open spec fn obeys_from_spec() -> bool {
        true
    }

    open spec fn from_spec(p: (i64, i64)) -> Metric {
        Metric::Native(p.0, p.1)
    }
}

} // verus!
