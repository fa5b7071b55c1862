use vstd::prelude::*;

verus! {

/// Bit pattern of the quiet not-a-number value that division by zero yields.
pub const NAN_BITS: u64 = 0x7ff8_0000_0000_0000;

/// The sign bit of a binary64 value.
pub const SIGN_BIT: u64 = 0x8000_0000_0000_0000;

/// Mask that clears the sign bit of a binary64 value.
pub const MAGNITUDE_MASK: u64 = 0x7fff_ffff_ffff_ffff;

/// Bit pattern of positive infinity; larger magnitudes are not-a-number.
pub const INFINITY_BITS: u64 = 0x7ff0_0000_0000_0000;

/// Bit pattern of the comparison tolerance, one thousand machine epsilons
/// (about 2.22e-13). For non-negative binary64 values the order of the bit
/// patterns is the order of the values.
pub const TOLERANCE_BITS: u64 = 0x3d4f_4000_0000_0000;

/// A number: an exact 128-bit integer or a binary64 float, the latter held
/// as its IEEE-754 bit pattern.
///
/// `==` compares representations exactly; [`Number::equals`] and
/// [`Number::compare`] are the arithmetic comparisons, tolerant for floats.
#[derive(Debug, Clone, Copy, PartialEq, Eq, Structural)]
pub enum Number {
    Int(i128),
    Flt(u64),
}

/// A request for binary64 arithmetic, on bit patterns.
///
/// The library decides when an operation leaves the integers; the caller
/// answers the request with native `f64` semantics through a function of
/// type `Fn(FloatOp) -> u64`, and the contracts here state which request was
/// made and that its answer is what comes back.
#[derive(Debug, Clone, Copy, PartialEq, Eq, Structural)]
pub enum FloatOp {
    /// The integer converted to the nearest binary64 value.
    OfInt(i128),
    /// `a + b`, `a - b`, `a * b`, `a / b` or `a.powf(b)`, by the action.
    Binary(crate::ast::BinaryAction, u64, u64),
    /// The named function applied to the operand.
    Function(crate::ast::Function, u64),
}

/// Whether `f` accepts every request.
pub open spec fn total<F: Fn(FloatOp) -> u64>(f: &F) -> bool {
    forall|op: FloatOp| #[trigger] f.requires((op,))
}

/// Whether `x` is the binary64 form of `n` under `f`: a float's own bits, or
/// what `f` answered for converting the integer.
pub open spec fn float_of<F: Fn(FloatOp) -> u64>(f: &F, n: Number, x: u64) -> bool {
    match n {
        Number::Int(a) => f.ensures((FloatOp::OfInt(a),), x),
        Number::Flt(b) => x == b,
    }
}

/// Whether a binary relation `g` on bit patterns accepts every pair.
pub open spec fn total_relation<G: Fn(u64, u64) -> bool>(g: &G) -> bool {
    forall|a: u64, b: u64| #[trigger] g.requires((a, b))
}

/// Whether `r` is the ordering of `a` and `b` that some answers of `close`
/// and `less` decide: equal when close; otherwise less when `a < b`, greater
/// when `b < a`, and equal when neither.
pub open spec fn ordered_by<C: Fn(u64, u64) -> bool, L: Fn(u64, u64) -> bool>(
    close: &C,
    less: &L,
    a: u64,
    b: u64,
    r: Option<core::cmp::Ordering>,
) -> bool {
    ||| close.ensures((a, b), true) && r == Some(core::cmp::Ordering::Equal)
    ||| close.ensures((a, b), false) && less.ensures((a, b), true) && r == Some(
        core::cmp::Ordering::Less,
    )
    ||| close.ensures((a, b), false) && less.ensures((a, b), false) && less.ensures((b, a), true)
        && r == Some(core::cmp::Ordering::Greater)
    ||| close.ensures((a, b), false) && less.ensures((a, b), false) && less.ensures((b, a), false)
        && r == Some(core::cmp::Ordering::Equal)
}

/// Whether a float, given by its bits, lies strictly within the tolerance of zero.
pub open spec fn flt_is_zero(bits: u64) -> bool {
    bits & MAGNITUDE_MASK < TOLERANCE_BITS
}

/// Whether `n` compares equal to zero: exactly for an integer, within the
/// tolerance for a float.
pub open spec fn is_zero(n: Number) -> bool {
    match n {
        Number::Int(a) => a == 0,
        Number::Flt(b) => flt_is_zero(b),
    }
}

/// Whether a float, given by its bits, is not-a-number.
pub open spec fn flt_is_nan(bits: u64) -> bool {
    bits & MAGNITUDE_MASK > INFINITY_BITS
}

/// Whether `n` is the float not-a-number (any payload).
pub open spec fn is_nan(n: Number) -> bool {
    match n {
        Number::Int(_) => false,
        Number::Flt(b) => flt_is_nan(b),
    }
}

/// `-n`, keeping the representation: integers wrap, floats flip their sign bit.
pub open spec fn neg_spec(n: Number) -> Number {
    match n {
        Number::Int(a) => Number::Int(vstd::wrapping::i128_specs::wrapping_sub(0, a)),
        Number::Flt(b) => Number::Flt(b ^ SIGN_BIT),
    }
}

/// The integer `x` reduced into the range of `i128`, two's complement.
pub open spec fn wrap(x: int) -> i128 {
    vstd::wrapping::i128_specs::signed_crop(x)
}

/// `a` divided by `b`, truncated toward zero, for `b != 0`, wrapped into `i128`.
pub open spec fn trunc_div(a: i128, b: i128) -> i128 {
    match a.checked_div(b) {
        Some(q) => q,
        None => i128::MIN,
    }
}

/// `base` raised to `exp`, wrapped into `i128`.
pub open spec fn wrapping_pow(base: i128, exp: u32) -> i128 {
    wrap(vstd::arithmetic::power::pow(base as int, exp as nat))
}

/// The modulus of two's complement arithmetic on `i128`.
pub open spec fn modulus() -> int {
    u128::MAX as int + 1
}

proof fn lemma_wrap_mod(x: int)
    ensures
        wrap(x) as int % modulus() == x % modulus(),
{
    let r = modulus();
    vstd::arithmetic::div_mod::lemma_mod_twice(x, r);
    vstd::arithmetic::div_mod::lemma_mod_sub_multiples_vanish(x % r, r);
}

proof fn lemma_wrap_congruent(x: int, y: int)
    requires
        x % modulus() == y % modulus(),
    ensures
        wrap(x) == wrap(y),
{
}

proof fn lemma_wrap_mul(x: int, y: int, z: int)
    requires
        x % modulus() == y % modulus(),
    ensures
        (x * z) % modulus() == (y * z) % modulus(),
{
    vstd::arithmetic::div_mod::lemma_mul_mod_noop_left(x, z, modulus());
    vstd::arithmetic::div_mod::lemma_mul_mod_noop_left(y, z, modulus());
}

/// One halving step of square-and-multiply keeps the wrapped product.
proof fn lemma_pow_step(acc: int, sq: int, e: nat)
    requires
        e > 0,
    ensures
        e % 2 == 1 ==> wrap(wrap(acc * sq) * vstd::arithmetic::power::pow(wrap(sq * sq) as int, e / 2))
            == wrap(acc * vstd::arithmetic::power::pow(sq, e)),
        e % 2 == 0 ==> wrap(acc * vstd::arithmetic::power::pow(wrap(sq * sq) as int, e / 2))
            == wrap(acc * vstd::arithmetic::power::pow(sq, e)),
{
    let r = modulus();
    let h = e / 2;
    let s2 = wrap(sq * sq) as int;
    let p = vstd::arithmetic::power::pow(sq * sq, h);
    let q = vstd::arithmetic::power::pow(s2, h);
    // pow(sq, e) in terms of pow(sq * sq, h)
    vstd::arithmetic::power::lemma_square_is_pow2(sq);
    vstd::arithmetic::power::lemma_pow_multiplies(sq, 2, h);
    vstd::arithmetic::power::lemma_pow1(sq);
    vstd::arithmetic::power::lemma_pow_adds(sq, 1, 2 * h);
    // q and p agree modulo r
    lemma_wrap_mod(sq * sq);
    vstd::arithmetic::power::lemma_pow_mod_noop(s2, h, r);
    vstd::arithmetic::power::lemma_pow_mod_noop(sq * sq, h, r);
    assert(q % r == p % r);
    if e % 2 == 1 {
        assert(e == 1 + 2 * h);
        assert(vstd::arithmetic::power::pow(sq, e) == sq * p);
        lemma_wrap_mod(acc * sq);
        lemma_wrap_mul(wrap(acc * sq) as int, acc * sq, q);
        vstd::arithmetic::div_mod::lemma_mul_mod_noop_right(acc * sq, q, r);
        vstd::arithmetic::div_mod::lemma_mul_mod_noop_right(acc * sq, p, r);
        assert((acc * sq) * p == acc * (sq * p)) by (nonlinear_arith);
        lemma_wrap_congruent(wrap(acc * sq) * q, acc * vstd::arithmetic::power::pow(sq, e));
    } else {
        assert(e == 2 * h);
        assert(vstd::arithmetic::power::pow(sq, e) == p);
        vstd::arithmetic::div_mod::lemma_mul_mod_noop_right(acc, q, r);
        vstd::arithmetic::div_mod::lemma_mul_mod_noop_right(acc, p, r);
        lemma_wrap_congruent(acc * q, acc * p);
    }
}

impl Number {
    /// Whether this number compares equal to zero (the divisor test of division).
    pub fn is_zero(&self) -> (r: bool)
        ensures
            r == is_zero(*self),
    {
        match self {
            Number::Int(a) => *a == 0,
            Number::Flt(b) => *b & MAGNITUDE_MASK < TOLERANCE_BITS,
        }
    }

    /// Negation; an integer stays an integer and a float stays a float.
    pub fn neg(self) -> (r: Number)
        ensures
            r == neg_spec(self),
    {
        match self {
            Number::Int(a) => Number::Int(0i128.wrapping_sub(a)),
            Number::Flt(b) => Number::Flt(b ^ SIGN_BIT),
        }
    }

    /// Whether this number is the float not-a-number.
    pub fn is_nan(&self) -> (r: bool)
        ensures
            r == is_nan(*self),
    {
        match self {
            Number::Int(_) => false,
            Number::Flt(b) => *b & MAGNITUDE_MASK > INFINITY_BITS,
        }
    }

    /// This number as a binary64 bit pattern, converting an integer by a request to `f`.
    pub fn to_float<F: Fn(FloatOp) -> u64>(&self, f: &F) -> (r: u64)
        requires
            total(f),
        ensures
            float_of(f, *self, r),
    {
        match self {
            Number::Int(a) => f(FloatOp::OfInt(*a)),
            Number::Flt(b) => *b,
        }
    }

    /// Equality: exact between two integers; otherwise both are compared as
    /// binary64 values by `close`, which tells whether they differ by less
    /// than the tolerance, and not-a-number equals nothing.
    pub fn equals<F: Fn(FloatOp) -> u64, C: Fn(u64, u64) -> bool>(
        &self,
        other: &Number,
        f: &F,
        close: &C,
    ) -> (r: bool)
        requires
            total(f),
            total_relation(close),
        ensures
            (*self is Int && *other is Int) ==> (r == (self->Int_0 == other->Int_0)),
            (is_nan(*self) || is_nan(*other)) ==> !r,
            !(*self is Int && *other is Int) && !is_nan(*self) && !is_nan(*other) ==> exists|
                a: u64,
                b: u64,
            |
                float_of(f, *self, a) && float_of(f, *other, b) && close.ensures((a, b), r),
    {
        if let (Number::Int(a), Number::Int(b)) = (self, other) {
            return *a == *b;
        }
        if self.is_nan() || other.is_nan() {
            return false;
        }
        let a = self.to_float(f);
        let b = other.to_float(f);
        close(a, b)
    }

    /// Ordering: exact between two integers; otherwise as binary64 values,
    /// equal when `close` holds, less or greater by `less`, and equal when
    /// neither is less than the other. Not-a-number is unordered.
    pub fn compare<F: Fn(FloatOp) -> u64, C: Fn(u64, u64) -> bool, L: Fn(u64, u64) -> bool>(
        &self,
        other: &Number,
        f: &F,
        close: &C,
        less: &L,
    ) -> (r: Option<core::cmp::Ordering>)
        requires
            total(f),
            total_relation(close),
            total_relation(less),
        ensures
            (*self is Int && *other is Int) ==> r == Some(
                if self->Int_0 < other->Int_0 {
                    core::cmp::Ordering::Less
                } else if self->Int_0 > other->Int_0 {
                    core::cmp::Ordering::Greater
                } else {
                    core::cmp::Ordering::Equal
                },
            ),
            (is_nan(*self) || is_nan(*other)) ==> r is None,
            (!is_nan(*self) && *self == *other) ==> r == Some(core::cmp::Ordering::Equal),
            !(*self is Int && *other is Int) && !is_nan(*self) && !is_nan(*other) && *self
                != *other ==> exists|a: u64, b: u64|
                float_of(f, *self, a) && float_of(f, *other, b) && ordered_by(
                    close,
                    less,
                    a,
                    b,
                    r,
                ),
    {
        if let (Number::Int(a), Number::Int(b)) = (self, other) {
            return if *a < *b {
                Some(core::cmp::Ordering::Less)
            } else if *a > *b {
                Some(core::cmp::Ordering::Greater)
            } else {
                Some(core::cmp::Ordering::Equal)
            };
        }
        if self.is_nan() || other.is_nan() {
            return None;
        }
        if *self == *other {
            return Some(core::cmp::Ordering::Equal);
        }
        let a = self.to_float(f);
        let b = other.to_float(f);
        let r = if close(a, b) {
            Some(core::cmp::Ordering::Equal)
        } else if less(a, b) {
            Some(core::cmp::Ordering::Less)
        } else if less(b, a) {
            Some(core::cmp::Ordering::Greater)
        } else {
            Some(core::cmp::Ordering::Equal)
        };
        proof {
            assert(float_of(f, *self, a) && float_of(f, *other, b) && ordered_by(close, less, a, b, r));
        }
        r
    }

    /// The float not-a-number value.
    pub fn nan() -> (r: Number)
        ensures
            r == Number::Flt(NAN_BITS),
    {
        Number::Flt(NAN_BITS)
    }
}

impl From<u8> for Number {
    fn from(n: u8) -> (r: Number) {
        Number::Int(n as i128)
    }
}

impl vstd::std_specs::convert::FromSpecImpl<u8> for Number {
    open spec fn obeys_from_spec() -> bool {
        true
    }

    open spec fn from_spec(n: u8) -> Number {
        Number::Int(n as i128)
    }
}

impl From<u16> for Number {
    fn from(n: u16) -> (r: Number) {
        Number::Int(n as i128)
    }
}

impl vstd::std_specs::convert::FromSpecImpl<u16> for Number {
    open spec fn obeys_from_spec() -> bool {
        true
    }

    open spec fn from_spec(n: u16) -> Number {
        Number::Int(n as i128)
    }
}

impl From<u32> for Number {
    fn from(n: u32) -> (r: Number) {
        Number::Int(n as i128)
    }
}

impl vstd::std_specs::convert::FromSpecImpl<u32> for Number {
    open spec fn obeys_from_spec() -> bool {
        true
    }

    open spec fn from_spec(n: u32) -> Number {
        Number::Int(n as i128)
    }
}

impl From<u64> for Number {
    fn from(n: u64) -> (r: Number) {
        Number::Int(n as i128)
    }
}

impl vstd::std_specs::convert::FromSpecImpl<u64> for Number {
    open spec fn obeys_from_spec() -> bool {
        true
    }

    open spec fn from_spec(n: u64) -> Number {
        Number::Int(n as i128)
    }
}

impl From<i8> for Number {
    fn from(n: i8) -> (r: Number) {
        Number::Int(n as i128)
    }
}

impl vstd::std_specs::convert::FromSpecImpl<i8> for Number {
    open spec fn obeys_from_spec() -> bool {
        true
    }

    open spec fn from_spec(n: i8) -> Number {
        Number::Int(n as i128)
    }
}

impl From<i16> for Number {
    fn from(n: i16) -> (r: Number) {
        Number::Int(n as i128)
    }
}

impl vstd::std_specs::convert::FromSpecImpl<i16> for Number {
    open spec fn obeys_from_spec() -> bool {
        true
    }

    open spec fn from_spec(n: i16) -> Number {
        Number::Int(n as i128)
    }
}

impl From<i32> for Number {
    fn from(n: i32) -> (r: Number) {
        Number::Int(n as i128)
    }
}

impl vstd::std_specs::convert::FromSpecImpl<i32> for Number {
    open spec fn obeys_from_spec() -> bool {
        true
    }

    open spec fn from_spec(n: i32) -> Number {
        Number::Int(n as i128)
    }
}

impl From<i64> for Number {
    fn from(n: i64) -> (r: Number) {
        Number::Int(n as i128)
    }
}

impl vstd::std_specs::convert::FromSpecImpl<i64> for Number {
    open spec fn obeys_from_spec() -> bool {
        true
    }

    open spec fn from_spec(n: i64) -> Number {
        Number::Int(n as i128)
    }
}

impl From<i128> for Number {
    fn from(n: i128) -> (r: Number) {
        Number::Int(n)
    }
}

impl vstd::std_specs::convert::FromSpecImpl<i128> for Number {
    open spec fn obeys_from_spec() -> bool {
        true
    }

    open spec fn from_spec(n: i128) -> Number {
        Number::Int(n as i128)
    }
}

/// Truncating integer division of `a` by a non-zero `b`, wrapping on overflow.
pub fn int_div(a: i128, b: i128) -> (r: i128)
    requires
        b != 0,
    ensures
        r == trunc_div(a, b),
{
    match a.checked_div(b) {
        Some(q) => q,
        None => i128::MIN,
    }
}

/// `base` raised to `exp` by square-and-multiply, wrapping on overflow.
pub fn int_pow(base: i128, exp: u32) -> (r: i128)
    ensures
        r == wrapping_pow(base, exp),
{
    let mut acc: i128 = 1;
    let mut sq: i128 = base;
    let mut e: u32 = exp;
    assert(1 * vstd::arithmetic::power::pow(base as int, exp as nat)
        == vstd::arithmetic::power::pow(base as int, exp as nat));
    while e > 0
        invariant
            wrap(acc * vstd::arithmetic::power::pow(sq as int, e as nat)) == wrapping_pow(base, exp),
        decreases e,
    {
        proof {
            lemma_pow_step(acc as int, sq as int, e as nat);
        }
        if e % 2 == 1 {
            acc = acc.wrapping_mul(sq);
        }
        sq = sq.wrapping_mul(sq);
        e = e / 2;
    }
    proof {
        vstd::arithmetic::power::lemma_pow0(sq as int);
        lemma_wrap_mod(acc as int);
        assert(acc as int % modulus() == wrap(acc as int) as int % modulus());
    }
    acc
}

} // verus!
