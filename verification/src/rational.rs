use vstd::prelude::*;

verus! {

/// An exact rational number `num / den` with a positive denominator.
///
/// All layout geometry in this crate is carried in `Frac` values, so that
/// splitter positions, clamp bounds and pixel snapping can be stated and
/// proved exactly.  Values are not kept in lowest terms; equality and order
/// of the represented numbers are the cross-multiplied relations `eqv`,
/// `le` and `lt` below.
#[derive(Clone, Copy, Debug, PartialEq, Eq, Structural)]
pub struct Frac {
    pub num: i128,
    pub den: i128,
}

/// Magnitude bound under which all intermediate products of the geometry
/// computations stay clear of `i128` overflow.
pub open spec fn fits(x: int) -> bool {
    -0x2000_0000_0000_0000_0000_0000_0000_0000 <= x
        <= 0x2000_0000_0000_0000_0000_0000_0000_0000
}

/// Mathematical rationals as `(numerator, denominator)` pairs of unbounded
/// integers.  The executable operations on `Frac` are each proved to compute
/// exactly one of these functions, so whole computations can be described by
/// composing them.
pub open spec fn rwf(a: (int, int)) -> bool {
    0 < a.1
}

pub open spec fn rle(a: (int, int), b: (int, int)) -> bool {
    a.0 * b.1 <= b.0 * a.1
}

pub open spec fn rlt(a: (int, int), b: (int, int)) -> bool {
    a.0 * b.1 < b.0 * a.1
}

pub open spec fn reqv(a: (int, int), b: (int, int)) -> bool {
    a.0 * b.1 == b.0 * a.1
}

pub open spec fn radd(a: (int, int), b: (int, int)) -> (int, int) {
    (a.0 * b.1 + b.0 * a.1, a.1 * b.1)
}

pub open spec fn rsub(a: (int, int), b: (int, int)) -> (int, int) {
    (a.0 * b.1 - b.0 * a.1, a.1 * b.1)
}

pub open spec fn rmul(a: (int, int), b: (int, int)) -> (int, int) {
    (a.0 * b.0, a.1 * b.1)
}

pub open spec fn rdiv(a: (int, int), b: (int, int)) -> (int, int)
    recommends
        b.0 != 0,
{
    if b.0 > 0 {
        (a.0 * b.1, a.1 * b.0)
    } else {
        (-(a.0 * b.1), a.1 * (-b.0))
    }
}

pub open spec fn rhalf(a: (int, int)) -> (int, int) {
    (a.0, a.1 * 2)
}

pub open spec fn rmin(a: (int, int), b: (int, int)) -> (int, int) {
    if rle(a, b) {
        a
    } else {
        b
    }
}

pub open spec fn rmax(a: (int, int), b: (int, int)) -> (int, int) {
    if rle(a, b) {
        b
    } else {
        a
    }
}

pub open spec fn rclamp(x: (int, int), lo: (int, int), hi: (int, int)) -> (int, int) {
    if rlt(x, lo) {
        lo
    } else if rlt(hi, x) {
        hi
    } else {
        x
    }
}

/// Snap to the nearest device pixel: `round(x * ppp) / ppp`.
pub open spec fn rsnap(x: (int, int), ppp: (int, int)) -> (int, int)
    recommends
        rwf(x),
        0 < ppp.0,
        0 < ppp.1,
{
    (round_div_spec(x.0 * ppp.0, x.1 * ppp.1) * ppp.1, ppp.0)
}

impl Frac {
    /// A `Frac` is well formed when its denominator is positive.
    pub open spec fn wf(self) -> bool {
        0 < self.den
    }

    /// The represented rational, as a pair of unbounded integers.
    pub open spec fn v(self) -> (int, int) {
        (self.num as int, self.den as int)
    }

    /// The number `self` is at most the number `other`.
    pub open spec fn le(self, other: Frac) -> bool {
        self.num * other.den <= other.num * self.den
    }

    /// The number `self` is strictly below the number `other`.
    pub open spec fn lt(self, other: Frac) -> bool {
        self.num * other.den < other.num * self.den
    }

    /// `self` and `other` represent the same number.
    pub open spec fn eqv(self, other: Frac) -> bool {
        self.num * other.den == other.num * self.den
    }

    pub fn new(num: i128, den: i128) -> (r: Frac)
        requires
            0 < den,
        ensures
            r.num == num,
            r.den == den,
            r.wf(),
    {
        Frac { num, den }
    }

    pub fn from_int(n: i128) -> (r: Frac)
        ensures
            r.num == n,
            r.den == 1,
            r.wf(),
    {
        Frac { num: n, den: 1 }
    }

    pub fn is_le(self, other: Frac) -> (r: bool)
        requires
            self.wf(),
            other.wf(),
            fits(self.num * other.den),
            fits(other.num * self.den),
        ensures
            r == self.le(other),
    {
        self.num * other.den <= other.num * self.den
    }

    pub fn is_lt(self, other: Frac) -> (r: bool)
        requires
            self.wf(),
            other.wf(),
            fits(self.num * other.den),
            fits(other.num * self.den),
        ensures
            r == self.lt(other),
    {
        self.num * other.den < other.num * self.den
    }

    pub fn add(self, other: Frac) -> (r: Frac)
        requires
            self.wf(),
            other.wf(),
            fits(self.num * other.den),
            fits(other.num * self.den),
            fits(self.den * other.den),
        ensures
            r.v() == radd(self.v(), other.v()),
            r.wf(),
    {
        proof {
            lemma_pos_mul_pos(self.den as int, other.den as int);
        }
        Frac { num: self.num * other.den + other.num * self.den, den: self.den * other.den }
    }

    pub fn sub(self, other: Frac) -> (r: Frac)
        requires
            self.wf(),
            other.wf(),
            fits(self.num * other.den),
            fits(other.num * self.den),
            fits(self.den * other.den),
        ensures
            r.v() == rsub(self.v(), other.v()),
            r.wf(),
    {
        proof {
            lemma_pos_mul_pos(self.den as int, other.den as int);
        }
        Frac { num: self.num * other.den - other.num * self.den, den: self.den * other.den }
    }

    pub fn mul(self, other: Frac) -> (r: Frac)
        requires
            self.wf(),
            other.wf(),
            fits(self.num * other.num),
            fits(self.den * other.den),
        ensures
            r.v() == rmul(self.v(), other.v()),
            r.wf(),
    {
        proof {
            lemma_pos_mul_pos(self.den as int, other.den as int);
        }
        Frac { num: self.num * other.num, den: self.den * other.den }
    }

    /// Exact division; the divisor must not represent zero.
    pub fn div(self, other: Frac) -> (r: Frac)
        requires
            self.wf(),
            other.wf(),
            other.num != 0,
            fits(self.num * other.den),
            fits(self.den * other.num),
        ensures
            r.v() == rdiv(self.v(), other.v()),
            r.wf(),
    {
        if other.num > 0 {
            proof {
                lemma_pos_mul_pos(self.den as int, other.num as int);
            }
            Frac { num: self.num * other.den, den: self.den * other.num }
        } else {
            proof {
                assert(self.den * other.num <= other.num) by (nonlinear_arith)
                    requires
                        1 <= self.den,
                        other.num < 0,
                ;
                assert(self.den * (-other.num) == -(self.den * other.num)) by (nonlinear_arith);
                lemma_pos_mul_pos(self.den as int, -other.num as int);
            }
            Frac { num: -(self.num * other.den), den: self.den * (-other.num) }
        }
    }

    /// The reciprocal of a positive value.
    pub fn recip(self) -> (r: Frac)
        requires
            self.wf(),
            0 < self.num,
        ensures
            r.num == self.den,
            r.den == self.num,
            r.wf(),
    {
        Frac { num: self.den, den: self.num }
    }

    /// Halve the value by doubling the denominator.
    pub fn half(self) -> (r: Frac)
        requires
            self.wf(),
            fits(self.den * 2),
        ensures
            r.v() == rhalf(self.v()),
            r.wf(),
    {
        Frac { num: self.num, den: self.den * 2 }
    }

    /// The smaller of two values; on equal values the left operand.
    pub fn min_of(self, other: Frac) -> (r: Frac)
        requires
            self.wf(),
            other.wf(),
            fits(self.num * other.den),
            fits(other.num * self.den),
        ensures
            r == (if self.le(other) { self } else { other }),
            r.v() == rmin(self.v(), other.v()),
            r.le(self) && r.le(other),
            r.wf(),
    {
        if self.is_le(other) {
            self
        } else {
            other
        }
    }

    /// The larger of two values; on equal values the right operand.
    pub fn max_of(self, other: Frac) -> (r: Frac)
        requires
            self.wf(),
            other.wf(),
            fits(self.num * other.den),
            fits(other.num * self.den),
        ensures
            r == (if self.le(other) { other } else { self }),
            r.v() == rmax(self.v(), other.v()),
            self.le(r) && other.le(r),
            r.wf(),
    {
        if self.is_le(other) {
            other
        } else {
            self
        }
    }

    /// Clamp the value into `[lo, hi]`, the bounds being already ordered.
    pub fn clamp(self, lo: Frac, hi: Frac) -> (r: Frac)
        requires
            self.wf(),
            lo.wf(),
            hi.wf(),
            lo.le(hi),
            fits(self.num * lo.den),
            fits(lo.num * self.den),
            fits(self.num * hi.den),
            fits(hi.num * self.den),
        ensures
            r == (if self.lt(lo) { lo } else if hi.lt(self) { hi } else { self }),
            r.v() == rclamp(self.v(), lo.v(), hi.v()),
            lo.le(r) && r.le(hi),
            r.wf(),
    {
        if self.is_lt(lo) {
            lo
        } else if hi.is_lt(self) {
            hi
        } else {
            self
        }
    }
}

/// Integer division of `n` by positive `d`, rounded to the nearest integer
/// with ties away from zero.
pub open spec fn round_div_spec(n: int, d: int) -> int
    recommends
        0 < d,
{
    if n >= 0 {
        (2 * n + d) / (2 * d)
    } else {
        -((2 * (-n) + d) / (2 * d))
    }
}

/// Rounding to the nearest integer is off by at most a half:
/// `|n - round_div_spec(n, d) * d| <= d / 2`.
pub proof fn lemma_round_div_bound(n: int, d: int)
    requires
        0 < d,
    ensures
        -d <= 2 * (n - round_div_spec(n, d) * d) <= d,
{
    if n >= 0 {
        let q = (2 * n + d) / (2 * d);
        let r = (2 * n + d) % (2 * d);
        vstd::arithmetic::div_mod::lemma_fundamental_div_mod(2 * n + d, 2 * d);
        vstd::arithmetic::div_mod::lemma_mod_bound(2 * n + d, 2 * d);
        assert(2 * (n - q * d) == r - d) by (nonlinear_arith)
            requires
                2 * n + d == (2 * d) * q + r,
        ;
    } else {
        let m = -n;
        let q0 = (2 * m + d) / (2 * d);
        let r = (2 * m + d) % (2 * d);
        vstd::arithmetic::div_mod::lemma_fundamental_div_mod(2 * m + d, 2 * d);
        vstd::arithmetic::div_mod::lemma_mod_bound(2 * m + d, 2 * d);
        assert(2 * (m - q0 * d) == r - d) by (nonlinear_arith)
            requires
                2 * m + d == (2 * d) * q0 + r,
        ;
        assert(2 * (n - (-q0) * d) == -(2 * (m - q0 * d))) by (nonlinear_arith)
            requires
                n == -m,
        ;
    }
}

/// Rounded division, matching `round_div_spec`.
fn round_div(n: i128, d: i128) -> (q: i128)
    requires
        0 < d <= 0x1000_0000_0000_0000_0000_0000_0000_0000,
        -0x1000_0000_0000_0000_0000_0000_0000_0000 <= n
            <= 0x1000_0000_0000_0000_0000_0000_0000_0000,
    ensures
        q == round_div_spec(n as int, d as int),
{
    let m: u128 = if n >= 0 {
        n as u128
    } else {
        (-n) as u128
    };
    let du: u128 = d as u128;
    let q0: u128 = (2 * m + du) / (2 * du);
    proof {
        vstd::arithmetic::div_mod::lemma_fundamental_div_mod(2 * m + du, 2 * du);
        vstd::arithmetic::div_mod::lemma_mod_bound(2 * m + du, 2 * du);
        assert(q0 <= 2 * m + du) by (nonlinear_arith)
            requires
                2 * m + du == (2 * du) * q0 + ((2 * m + du) % (2 * du)),
                0 <= ((2 * m + du) % (2 * du)),
                1 <= du,
                0 <= q0,
        ;
    }
    let qi: i128 = q0 as i128;
    if n >= 0 {
        qi
    } else {
        -qi
    }
}

/// Snap `value` to the nearest device pixel: `round(value * ppp) / ppp`,
/// where `ppp` is the display's pixels-per-logical-unit ratio.
pub fn map_to_pixel(value: Frac, ppp: Frac) -> (r: Frac)
    requires
        value.wf(),
        ppp.wf(),
        0 < ppp.num,
        -0x400_0000_0000_0000_0000_0000_0000_0000 <= value.num * ppp.num
            <= 0x400_0000_0000_0000_0000_0000_0000_0000,
        value.den * ppp.den <= 0x400_0000_0000_0000_0000_0000_0000_0000,
    ensures
        r.v() == rsnap(value.v(), ppp.v()),
        r.wf(),
{
    let n: i128 = value.num * ppp.num;
    proof {
        lemma_pos_mul_pos(value.den as int, ppp.den as int);
    }
    let d: i128 = value.den * ppp.den;
    let q: i128 = round_div(n, d);
    proof {
        lemma_round_div_bound(n as int, d as int);
        assert(ppp.den <= d) by (nonlinear_arith)
            requires
                d == value.den * ppp.den,
                1 <= value.den,
                0 < ppp.den,
        ;
        assert(-0x800_0000_0000_0000_0000_0000_0000_0000 <= q * ppp.den
            <= 0x800_0000_0000_0000_0000_0000_0000_0000) by (nonlinear_arith)
            requires
                -d <= 2 * (n - q * d) <= d,
                0 < ppp.den <= d,
                -0x400_0000_0000_0000_0000_0000_0000_0000 <= n
                    <= 0x400_0000_0000_0000_0000_0000_0000_0000,
                d <= 0x400_0000_0000_0000_0000_0000_0000_0000,
        ;
    }
    Frac { num: q * ppp.den, den: ppp.num }
}

/// Discharge the overflow preconditions of one arithmetic step on two
/// `Frac`s whose numerators are bounded by `na`/`nb` and denominators by
/// `da`/`db`, and bound the step's products.
pub proof fn lemma_op_fits(a: Frac, b: Frac, na: int, da: int, nb: int, db: int)
    requires
        -na <= a.num <= na,
        0 < a.den <= da,
        -nb <= b.num <= nb,
        0 < b.den <= db,
        na * db <= 0x2000_0000_0000_0000_0000_0000_0000_0000,
        nb * da <= 0x2000_0000_0000_0000_0000_0000_0000_0000,
        da * db <= 0x2000_0000_0000_0000_0000_0000_0000_0000,
        na * nb <= 0x2000_0000_0000_0000_0000_0000_0000_0000,
    ensures
        fits(a.num * b.den),
        fits(b.num * a.den),
        fits(a.den * b.den),
        fits(a.num * b.num),
        -(na * db) <= a.num * b.den <= na * db,
        -(nb * da) <= b.num * a.den <= nb * da,
        0 < a.den * b.den <= da * db,
        -(na * nb) <= a.num * b.num <= na * nb,
{
    lemma_mul_bound(a.num as int, b.den as int, na, db);
    lemma_mul_bound(b.num as int, a.den as int, nb, da);
    lemma_mul_bound(a.den as int, b.den as int, da, db);
    lemma_mul_bound(a.num as int, b.num as int, na, nb);
    lemma_pos_mul_pos(a.den as int, b.den as int);
}

/// The product of two positive numbers is positive.
pub proof fn lemma_pos_mul_pos(a: int, b: int)
    by (nonlinear_arith)
    requires
        0 < a,
        0 < b,
    ensures
        0 < a * b,
{
}

/// A product is bounded by the product of the operands' bounds.
pub proof fn lemma_mul_bound(a: int, b: int, aa: int, bb: int)
    by (nonlinear_arith)
    requires
        -aa <= a <= aa,
        -bb <= b <= bb,
    ensures
        -(aa * bb) <= a * b <= aa * bb,
{
}

} // verus!
