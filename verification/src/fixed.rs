//! Q16.16 fixed-point numbers: an `i32` whose low 16 bits are the fraction.

use vstd::prelude::*;

verus! {

/// Number of raw units in one whole unit of a Q16.16 number.
pub open spec fn scale() -> int {
    65536
}

/// `|x|`.
pub open spec fn abs_int(x: int) -> int {
    if x < 0 {
        -x
    } else {
        x
    }
}

/// Division rounded toward zero, as integer division of `i64` does it.
pub open spec fn trunc_div(x: int, y: int) -> int {
    let q = abs_int(x) / abs_int(y);
    if (x < 0) == (y < 0) {
        q
    } else {
        -q
    }
}

/// Raw result of a fixed-point product: the exact product of the raw parts,
/// divided by the scale with rounding toward minus infinity, then wrapped to `i32`.
pub open spec fn fx_mul(a: int, b: int) -> int {
    ((a * b) / scale()) as i32 as int
}

/// Raw result of a fixed-point quotient: the dividend scaled up, divided by the
/// divisor with rounding toward zero, then wrapped to `i32`.
pub open spec fn fx_div(a: int, b: int) -> int {
    trunc_div(a * scale(), b) as i32 as int
}

/// Whether `x` fits in an `i32`.
pub open spec fn fits_i32(x: int) -> bool {
    i32::MIN <= x <= i32::MAX
}

/// Fixed-point number using i32 with 16 fractional bits (Q16.16).
#[derive(Clone, Copy, Debug, PartialEq, Eq, Structural)]
pub struct FixedPoint(i32);

impl View for FixedPoint {
    type V = int;

    /// The raw `i32`; the number it stands for is this divided by `scale()`.
    closed spec fn view(&self) -> int {
        self.0 as int
    }
}

impl FixedPoint {
    /// Raw units per whole unit.
    pub const SCALE: i32 = 65536;

    /// The fixed-point number whose raw representation is `raw`.
    pub fn from_raw(raw: i32) -> (r: Self)
        ensures
            r@ == raw,
    {
        FixedPoint(raw)
    }

    /// The raw representation.
    pub fn raw(self) -> (r: i32)
        ensures
            r == self@,
    {
        self.0
    }

    /// The whole number `v`.
    pub fn from_i32(v: i32) -> (r: Self)
        requires
            fits_i32(v * scale()),
        ensures
            r@ == v * scale(),
    {
        FixedPoint(v * Self::SCALE)
    }

    /// Zero.
    pub fn zero() -> (r: Self)
        ensures
            r@ == 0,
    {
        FixedPoint(0)
    }

    /// One.
    pub fn one() -> (r: Self)
        ensures
            r@ == scale(),
    {
        FixedPoint(Self::SCALE)
    }

    /// Sum.
    pub fn add(self, other: Self) -> (r: Self)
        requires
            fits_i32(self@ + other@),
        ensures
            r@ == self@ + other@,
    {
        FixedPoint(self.0 + other.0)
    }

    /// Difference.
    pub fn sub(self, other: Self) -> (r: Self)
        requires
            fits_i32(self@ - other@),
        ensures
            r@ == self@ - other@,
    {
        FixedPoint(self.0 - other.0)
    }

    /// Product, rounded toward minus infinity and wrapped to `i32`.
    pub fn mul(self, other: Self) -> (r: Self)
        ensures
            r@ == fx_mul(self@, other@),
            // where the exact product rounded down fits in an `i32`, `r` is that
            // product: below the exact raw product by less than one raw unit
            -0x8000_0000 * 65536 <= self@ * other@ < 0x8000_0000 * 65536 ==> r@ * 65536
                <= self@ * other@ < r@ * 65536 + 65536,
    {
        let a: i64 = self.0 as i64;
        let b: i64 = other.0 as i64;
        assert(-0x4000_0000_0000_0000 <= a * b <= 0x4000_0000_0000_0000) by (nonlinear_arith)
            requires
                -0x8000_0000 <= a <= 0x8000_0000,
                -0x8000_0000 <= b <= 0x8000_0000,
        ;
        let p: i64 = a * b;
        assert(p >> 16 == p / 65536) by (bit_vector);
        let r = FixedPoint(#[verifier::truncate] ((p >> 16) as i32));
        proof {
            let e = self@ * other@;
            if -0x8000_0000 * 65536 <= e < 0x8000_0000 * 65536 {
                assert(fits_i32(e / 65536)) by (nonlinear_arith)
                    requires
                        -0x8000_0000 * 65536 <= e < 0x8000_0000 * 65536,
                ;
                lemma_mul_rounds_down(self, other);
            }
        }
        r
    }

    /// Quotient, rounded toward zero and wrapped to `i32`.
    pub fn div(self, other: Self) -> (r: Self)
        requires
            other@ != 0,
        ensures
            r@ == fx_div(self@, other@),
            // where the exact quotient rounded toward zero fits in an `i32`,
            // `r` is that quotient: `r * other` lies between 0 and the scaled
            // dividend, and falls short of it by less than `|other|`
            ({
                let x = self@ * 65536;
                let y = other@;
                let ay = if y < 0 { -y } else { y };
                let ax = if x < 0 { -x } else { x };
                (x * y >= 0 ==> ax < 0x8000_0000 * ay) && (x * y < 0 ==> ax < 0x8000_0001 * ay)
                    ==> {
                    &&& x >= 0 ==> 0 <= r@ * y <= x
                    &&& x < 0 ==> x <= r@ * y <= 0
                    &&& x >= 0 ==> x - r@ * y < ay
                    &&& x < 0 ==> r@ * y - x < ay
                }
            }),
    {
        let x: i64 = self.0 as i64 * 65536i64;
        let d: i64 = other.0 as i64;
        let q: i64 = if d < 0 {
            -(x / (-d))
        } else {
            x / d
        };
        assert(q == trunc_div(x as int, d as int));
        let r = FixedPoint(#[verifier::truncate] (q as i32));
        proof {
            let xs = self@ * 65536;
            let ay = if other@ < 0 { -other@ } else { other@ };
            let ax = if xs < 0 { -xs } else { xs };
            if (xs * other@ >= 0 ==> ax < 0x8000_0000 * ay) && (xs * other@ < 0 ==> ax < 0x8000_0001 * ay) {
                lemma_div_truncates(self, other);
            }
        }
        r
    }
}

impl Default for FixedPoint {
    /// Zero.
    fn default() -> (r: Self)
        ensures
            r@ == 0,
    {
        FixedPoint(0)
    }
}

/// Multiplying by one gives the number back.
pub proof fn lemma_mul_one(a: FixedPoint)
    ensures
        fx_mul(a@, scale()) == a@,
        fx_mul(scale(), a@) == a@,
{
    assert(fits_i32(a@)) by { a.lemma_view_fits(); }
}

/// Dividing by one gives the number back.
pub proof fn lemma_div_one(a: FixedPoint)
    ensures
        fx_div(a@, scale()) == a@,
{
    a.lemma_view_fits();
    assert(abs_int(a@ * scale()) / scale() == abs_int(a@)) by (nonlinear_arith);
}

/// Multiplication does not depend on the order of its operands.
pub proof fn lemma_mul_commutative(a: FixedPoint, b: FixedPoint)
    ensures
        fx_mul(a@, b@) == fx_mul(b@, a@),
{
    assert(a@ * b@ == b@ * a@) by (nonlinear_arith);
}

/// Multiplying by zero gives zero.
pub proof fn lemma_mul_zero(a: FixedPoint)
    ensures
        fx_mul(a@, 0) == 0,
        fx_mul(0, a@) == 0,
{
}

/// Where the exact product fits, the computed product is the exact one
/// rounded down to a whole raw unit: it is below the exact value by less
/// than one raw unit.
pub proof fn lemma_mul_rounds_down(a: FixedPoint, b: FixedPoint)
    requires
        fits_i32((a@ * b@) / scale()),
    ensures
        fx_mul(a@, b@) * scale() <= a@ * b@ < fx_mul(a@, b@) * scale() + scale(),
{
    let p = a@ * b@;
    assert(p == scale() * (p / scale()) + p % scale()) by (nonlinear_arith);
    assert(0 <= p % scale() < scale()) by (nonlinear_arith);
}

/// Where the exact quotient fits, the computed quotient is the exact one
/// rounded toward zero: it never overshoots the dividend, and what is left
/// over is smaller than the divisor.
pub proof fn lemma_div_rounds_toward_zero(a: FixedPoint, b: FixedPoint)
    requires
        b@ != 0,
        fits_i32(trunc_div(a@ * scale(), b@)),
    ensures
        abs_int(fx_div(a@, b@) * b@) <= abs_int(a@ * scale()),
        abs_int(a@ * scale() - fx_div(a@, b@) * b@) < abs_int(b@),
{
    let x = a@ * scale();
    let y = b@;
    let ax = abs_int(x);
    let ay = abs_int(y);
    let m = ax / ay;
    assert(ax == ay * m + ax % ay && 0 <= ax % ay < ay) by (nonlinear_arith)
        requires
            ay > 0,
            ax >= 0,
            m == ax / ay,
    ;
    assert(m >= 0) by (nonlinear_arith)
        requires
            ay > 0,
            ax >= 0,
            m == ax / ay,
    ;
    let q = trunc_div(x, y);
    assert(abs_int(q * y) == m * ay) by (nonlinear_arith)
        requires
            m >= 0,
            ay == abs_int(y),
            q == (if (x < 0) == (y < 0) { m } else { -m }),
    ;
    assert(abs_int(x - q * y) == ax - m * ay) by (nonlinear_arith)
        requires
            m >= 0,
            ay == abs_int(y),
            ax == abs_int(x),
            ax >= m * ay,
            q == (if (x < 0) == (y < 0) { m } else { -m }),
    ;
}

/// Division rounds toward zero. Write `x` for the dividend's raw value
/// times 65536, `y` for the divisor's raw value and `r` for the raw quotient.
/// Whenever the exact quotient rounded toward zero lies in the `i32` range,
/// `r * y` lies between 0 and `x` (so `r` has the sign of `x * y`, or is 0),
/// and what is left over, `x - r * y`, is smaller in magnitude than `y`.
pub proof fn lemma_div_truncates(a: FixedPoint, b: FixedPoint)
    requires
        b@ != 0,
        (a@ * 65536) * b@ >= 0 ==> (if a@ < 0 { -(a@ * 65536) } else { a@ * 65536 })
            < 0x8000_0000 * (if b@ < 0 { -b@ } else { b@ }),
        (a@ * 65536) * b@ < 0 ==> (if a@ < 0 { -(a@ * 65536) } else { a@ * 65536 })
            < 0x8000_0001 * (if b@ < 0 { -b@ } else { b@ }),
    ensures
        ({
            let x = a@ * 65536;
            let y = b@;
            let r = fx_div(a@, b@);
            let ay = if y < 0 { -y } else { y };
            &&& x >= 0 ==> 0 <= r * y <= x
            &&& x < 0 ==> x <= r * y <= 0
            &&& x >= 0 ==> x - r * y < ay
            &&& x < 0 ==> r * y - x < ay
        }),
{
    let x = a@ * scale();
    let y = b@;
    let ax = abs_int(x);
    let ay = abs_int(y);
    let m = ax / ay;
    assert(ax == ay * m + ax % ay && 0 <= ax % ay < ay && m >= 0) by (nonlinear_arith)
        requires
            ay > 0,
            ax >= 0,
            m == ax / ay,
    ;
    assert(x * y >= 0 ==> m < 0x8000_0000) by (nonlinear_arith)
        requires
            ay > 0,
            m >= 0,
            ax >= ay * m,
            x * y >= 0 ==> ax < 0x8000_0000 * ay,
    ;
    assert(x * y < 0 ==> m < 0x8000_0001) by (nonlinear_arith)
        requires
            ay > 0,
            m >= 0,
            ax >= ay * m,
            x * y < 0 ==> ax < 0x8000_0001 * ay,
    ;
    let q = trunc_div(x, y);
    assert((x < 0) == (y < 0) ==> x * y >= 0 || x == 0) by (nonlinear_arith);
    assert(!((x < 0) == (y < 0)) ==> x * y <= 0) by (nonlinear_arith);
    assert(x == 0 ==> m == 0) by (nonlinear_arith)
        requires
            ay > 0,
            ax == abs_int(x),
            m == ax / ay,
    ;
    assert(fits_i32(q));
    assert(fx_div(a@, b@) == q);
    assert(q * y == (if x < 0 { -(m * ay) } else { m * ay })) by (nonlinear_arith)
        requires
            m >= 0,
            ay == abs_int(y),
            x == 0 ==> m == 0,
            q == (if (x < 0) == (y < 0) { m } else { -m }),
    ;
    assert(m * ay >= 0) by (nonlinear_arith)
        requires
            m >= 0,
            ay > 0,
    ;
    assert(ax - m * ay == ax % ay);
}

/// The whole numbers multiply as integers do, while the product fits.
pub proof fn lemma_from_i32_mul(x: int, y: int)
    requires
        fits_i32(x * scale()),
        fits_i32(y * scale()),
        fits_i32(x * y * scale()),
    ensures
        fx_mul(x * scale(), y * scale()) == x * y * scale(),
{
    assert((x * scale()) * (y * scale()) == (x * y * scale()) * scale()) by (nonlinear_arith);
    assert(((x * y * scale()) * scale()) / scale() == x * y * scale()) by (nonlinear_arith);
}

/// Integer identity: scaling distributes over a sum, `x * scale() + y * scale()`
/// equals `(x + y) * scale()`.
pub proof fn lemma_from_i32_add(x: int, y: int)
    ensures
        x * scale() + y * scale() == (x + y) * scale(),
{
    assert(x * scale() + y * scale() == (x + y) * scale()) by (nonlinear_arith);
}

/// A whole number divided by a whole divisor of it gives the whole quotient.
pub proof fn lemma_from_i32_div_exact(k: int, y: int)
    requires
        y != 0,
        fits_i32(k * y * scale()),
        fits_i32(y * scale()),
        fits_i32(k * scale()),
    ensures
        fx_div(k * y * scale(), y * scale()) == k * scale(),
{
    let x = k * y * scale();
    let d = y * scale();
    assert(x * scale() == (k * scale()) * d) by (nonlinear_arith)
        requires
            x == k * y * scale(),
            d == y * scale(),
    ;
    assert(abs_int((k * scale()) * d) == abs_int(k * scale()) * abs_int(d)) by (nonlinear_arith);
    assert(abs_int(d) > 0);
    assert((abs_int(k * scale()) * abs_int(d)) / abs_int(d) == abs_int(k * scale())) by (nonlinear_arith)
        requires
            abs_int(d) > 0,
    ;
    assert((x * scale() < 0) == (d < 0) ==> k * scale() >= 0) by (nonlinear_arith)
        requires
            x * scale() == (k * scale()) * d,
            d != 0,
    ;
    assert(!((x * scale() < 0) == (d < 0)) ==> k * scale() <= 0) by (nonlinear_arith)
        requires
            x * scale() == (k * scale()) * d,
            d != 0,
    ;
}

/// Integer identities on the raw values of two fixed-point numbers: their sum
/// is commutative, adding 0 changes nothing, and subtracting the second from
/// the sum gives the first back.
pub proof fn lemma_add_sub(a: FixedPoint, b: FixedPoint)
    ensures
        a@ + b@ == b@ + a@,
        a@ + 0 == a@,
        (a@ + b@) - b@ == a@,
{
}

impl FixedPoint {
    /// Every raw representation fits in an `i32`.
    pub proof fn lemma_view_fits(self)
        ensures
            fits_i32(self@),
    {
    }

    /// Two fixed-point numbers with the same raw representation are equal.
    pub proof fn lemma_view_injective(self, other: Self)
        ensures
            self@ == other@ <==> self == other,
    {
    }
}

} // verus!
