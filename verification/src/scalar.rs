//! The number type over which the library is written.

use vstd::prelude::*;

verus! {

/// A number type with the field arithmetic and the comparisons that the
/// network is built from.
///
/// Each operation comes with a specification function of the same name and
/// the suffix `_spec`. An implementation promises that the operation is a
/// function of its operands: the same operands always give the same result.
/// Nothing else is assumed of the arithmetic, no associativity and no exactness,
/// so every contract of this library holds for rounded arithmetic as it does
/// for exact arithmetic. What needs exactness is stated apart, in the module
/// `exact`.
///
/// The specification functions have bodies only so that an implementation
/// written in ordinary Rust need not mention them; verified code never learns
/// anything from those bodies about a generic `S`.
pub trait Scalar: Copy + Send + Sync + 'static {
    /// The additive identity.
    open spec fn zero_spec() -> Self {
        arbitrary()
    }

    /// The multiplicative identity.
    open spec fn one_spec() -> Self {
        arbitrary()
    }

    /// The number nearest to the integer `n`.
    open spec fn from_usize_spec(n: usize) -> Self {
        arbitrary()
    }

    /// The sum `self + rhs`.
    open spec fn add_spec(self, rhs: Self) -> Self {
        arbitrary()
    }

    /// The difference `self - rhs`.
    open spec fn sub_spec(self, rhs: Self) -> Self {
        arbitrary()
    }

    /// The product `self * rhs`.
    open spec fn mul_spec(self, rhs: Self) -> Self {
        arbitrary()
    }

    /// The quotient `self / rhs`.
    open spec fn div_spec(self, rhs: Self) -> Self {
        arbitrary()
    }

    /// The negation `-self`.
    open spec fn neg_spec(self) -> Self {
        arbitrary()
    }

    /// Whether `self` equals zero as a number.
    open spec fn is_zero_spec(self) -> bool {
        arbitrary()
    }

    /// Whether `self >= rhs` as numbers.
    open spec fn ge_spec(self, rhs: Self) -> bool {
        arbitrary()
    }

    /// Zero.
    fn zero() -> (r: Self)
        ensures
            r == Self::zero_spec(),
    ;

    /// One.
    fn one() -> (r: Self)
        ensures
            r == Self::one_spec(),
    ;

    /// The number nearest to the integer `n`.
    fn from_usize(n: usize) -> (r: Self)
        ensures
            r == Self::from_usize_spec(n),
    ;

    /// The sum `self + rhs`.
    fn add(self, rhs: Self) -> (r: Self)
        ensures
            r == self.add_spec(rhs),
    ;

    /// The difference `self - rhs`.
    fn sub(self, rhs: Self) -> (r: Self)
        ensures
            r == self.sub_spec(rhs),
    ;

    /// The product `self * rhs`.
    fn mul(self, rhs: Self) -> (r: Self)
        ensures
            r == self.mul_spec(rhs),
    ;

    /// The quotient `self / rhs`.
    fn div(self, rhs: Self) -> (r: Self)
        ensures
            r == self.div_spec(rhs),
    ;

    /// The negation `-self`.
    fn neg(self) -> (r: Self)
        ensures
            r == self.neg_spec(),
    ;

    /// Whether `self` equals zero as a number.
    fn is_zero(self) -> (r: bool)
        ensures
            r == self.is_zero_spec(),
    ;

    /// Whether `self >= rhs` as numbers.
    fn ge(self, rhs: Self) -> (r: bool)
        ensures
            r == self.ge_spec(rhs),
    ;
}

/// A [`Scalar`] that also has the functions of real numbers that the
/// reservoir, the metrics and the data generators use, and seeded streams of
/// pseudorandom draws.
pub trait RealScalar: Scalar {
    /// The absolute value of `self`.
    open spec fn abs_spec(self) -> Self {
        arbitrary()
    }

    /// The larger of `self` and `rhs`.
    open spec fn max_spec(self, rhs: Self) -> Self {
        arbitrary()
    }

    /// The smaller of `self` and `rhs`.
    open spec fn min_spec(self, rhs: Self) -> Self {
        arbitrary()
    }

    /// The largest finite number of the type.
    open spec fn max_value_spec() -> Self {
        arbitrary()
    }

    /// The smallest finite number of the type.
    open spec fn min_value_spec() -> Self {
        arbitrary()
    }

    /// The hyperbolic tangent of `self`.
    open spec fn tanh_spec(self) -> Self {
        arbitrary()
    }

    /// The square root of `self`.
    open spec fn sqrt_spec(self) -> Self {
        arbitrary()
    }

    /// The power `self` to the `n`.
    open spec fn powi_spec(self, n: i32) -> Self {
        arbitrary()
    }

    /// The least integer that is not below `self`, as far as `usize` holds
    /// it.
    open spec fn ceil_to_usize_spec(self) -> usize {
        arbitrary()
    }

    /// The first `count` draws of the unit stream that `seed` selects.
    open spec fn unit_stream_spec(seed: u64, count: nat) -> Seq<Self> {
        arbitrary()
    }

    /// The first `count` draws of the pseudorandom stream that `seed`
    /// selects.
    open spec fn uniform_stream_spec(seed: u64, count: nat) -> Seq<Self> {
        arbitrary()
    }

    /// The absolute value of `self`.
    fn abs(self) -> (r: Self)
        ensures
            r == self.abs_spec(),
    ;

    /// The larger of `self` and `rhs`.
    fn max(self, rhs: Self) -> (r: Self)
        ensures
            r == self.max_spec(rhs),
    ;

    /// The smaller of `self` and `rhs`.
    fn min(self, rhs: Self) -> (r: Self)
        ensures
            r == self.min_spec(rhs),
    ;

    /// The largest finite number of the type.
    fn max_value() -> (r: Self)
        ensures
            r == Self::max_value_spec(),
    ;

    /// The smallest finite number of the type.
    fn min_value() -> (r: Self)
        ensures
            r == Self::min_value_spec(),
    ;

    /// The hyperbolic tangent of `self`.
    fn tanh(self) -> (r: Self)
        ensures
            r == self.tanh_spec(),
    ;

    /// The square root of `self`.
    fn sqrt(self) -> (r: Self)
        ensures
            r == self.sqrt_spec(),
    ;

    /// The power `self` to the `n`.
    fn powi(self, n: i32) -> (r: Self)
        ensures
            r == self.powi_spec(n),
    ;

    /// The least integer that is not below `self`; zero where `self` is
    /// negative or no number, the largest `usize` where it is too large.
    fn ceil_to_usize(self) -> (r: usize)
        ensures
            r == self.ceil_to_usize_spec(),
    ;

    /// Draws `count` numbers, independent and uniform on `[-0.5, 0.5)`, from
    /// the pseudorandom stream that `seed` selects. The stream depends on the
    /// seed alone, never on ambient state.
    fn uniform_stream(seed: u64, count: usize) -> (r: Vec<Self>)
        ensures
            r@ == Self::uniform_stream_spec(seed, count as nat),
            r@.len() == count,
    ;

    /// Draws `count` numbers, independent and uniform on `[0, 1)`, from the
    /// pseudorandom stream that `seed` selects.
    fn unit_stream(seed: u64, count: usize) -> (r: Vec<Self>)
        ensures
            r@ == Self::unit_stream_spec(seed, count as nat),
            r@.len() == count,
    ;
}

} // verus!
