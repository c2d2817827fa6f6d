use vstd::prelude::*;

verus! {

/// An exact fraction `n / d` with a positive denominator.
///
/// `Scalar` is the boundary form in which callers supply and read back
/// single rational quantities (pixel coordinates, intrinsic parameters,
/// distortion coefficients, plane offsets).  Two scalars denote the same
/// number when they cross-multiply equally; see [`Scalar::eqv`].
#[derive(Clone, Copy, Debug)]
pub struct Scalar {
    pub n: i128,
    pub d: i128,
}

impl Scalar {
    /// Well-formed: the denominator is positive.
    pub open spec fn wf(&self) -> bool {
        self.d > 0
    }

    /// Both components are at most `b` in magnitude.
    pub open spec fn bounded(&self, b: int) -> bool {
        -b <= self.n && self.n <= b && 0 < self.d && self.d <= b
    }

    /// `self` and `other` denote the same rational number.
    pub open spec fn eqv_spec(&self, other: &Scalar) -> bool {
        self.n * other.d == other.n * self.d
    }

    /// The fraction `n / d`, brought to a positive denominator.
    pub fn new(n: i64, d: i64) -> (r: Scalar)
        requires
            d != 0,
        ensures
            r.wf(),
            r.n * d == n * r.d,
            r.bounded(0x1_0000_0000_0000_0000),
    {
        if d < 0 {
            proof {
                assert((-(n as int)) * d == n * (-(d as int))) by (nonlinear_arith);
            }
            Scalar { n: -(n as i128), d: -(d as i128) }
        } else {
            Scalar { n: n as i128, d: d as i128 }
        }
    }

    /// The integer `n` as a fraction over 1.
    pub fn from_int(n: i64) -> (r: Scalar)
        ensures
            r.wf(),
            r.n == n,
            r.d == 1,
    {
        Scalar { n: n as i128, d: 1 }
    }

    /// Exact equality of the denoted numbers, by cross-multiplication.
    pub fn eqv(&self, other: &Scalar) -> (r: bool)
        requires
            self.wf(),
            other.wf(),
            self.bounded(0x8000_0000_0000_0000),
            other.bounded(0x8000_0000_0000_0000),
        ensures
            r == self.eqv_spec(other),
    {
        proof {
            lemma_abs_mul_le(self.n as int, other.d as int,
                0x8000_0000_0000_0000, 0x8000_0000_0000_0000);
            lemma_abs_mul_le(other.n as int, self.d as int,
                0x8000_0000_0000_0000, 0x8000_0000_0000_0000);
        }
        self.n * other.d == other.n * self.d
    }
}

/// Magnitude bound for a product, from magnitude bounds on the factors.
pub proof fn lemma_abs_mul_le(a: int, b: int, ab: int, bb: int)
    by (nonlinear_arith)
    requires
        -ab <= a <= ab,
        -bb <= b <= bb,
        0 <= ab,
        0 <= bb,
    ensures
        -(ab * bb) <= a * b <= ab * bb,
{
}

} // verus!
