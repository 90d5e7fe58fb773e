//! Arbitrary-precision decimals.
//!
//! A [`Decimal`] keeps an unscaled integer of any size and a scale; its value is
//! `unscaled * 10^(-scale)`. Arithmetic, comparison, parsing and printing are
//! done by the `bigdecimal` crate; this module states what the rest of the
//! library may rely on and proves that the numeric order is a total order.

use bigdecimal::num_bigint::BigInt;
use bigdecimal::BigDecimal;
use bigdecimal::Zero;
use std::str::FromStr;
use vstd::arithmetic::mul::*;
use vstd::arithmetic::power::*;
use vstd::prelude::*;

verus! {

/// The mathematical reading of a decimal: the number `unscaled * 10^(-scale)`.
///
/// Two readings with different scales can denote the same number
/// (`10 * 10^-1` and `1 * 10^0`); [`Dec::same_value`] is numeric equality.
pub struct Dec {
    pub unscaled: int,
    pub scale: int,
}

impl Dec {
    /// The integer `self * 10^s`, for a scale `s` no smaller than `self.scale`.
    pub open spec fn raised(self, s: int) -> int
        recommends
            s >= self.scale,
    {
        self.unscaled * pow(10, (s - self.scale) as nat)
    }

    /// The larger of the two scales: the smallest at which both are integers.
    pub open spec fn joint_scale(self, other: Dec) -> int {
        if self.scale >= other.scale {
            self.scale
        } else {
            other.scale
        }
    }

    /// Numeric `<`.
    pub open spec fn less_than(self, other: Dec) -> bool {
        self.raised(self.joint_scale(other)) < other.raised(self.joint_scale(other))
    }

    /// Numeric `==`.
    pub open spec fn same_value(self, other: Dec) -> bool {
        self.raised(self.joint_scale(other)) == other.raised(self.joint_scale(other))
    }

    pub open spec fn is_zero(self) -> bool {
        self.unscaled == 0
    }

    pub open spec fn zero() -> Dec {
        Dec { unscaled: 0, scale: 0 }
    }

    /// The largest of three scales.
    pub open spec fn joint_of_three(a: Dec, b: Dec, c: Dec) -> int {
        if a.joint_scale(b) >= c.scale {
            a.joint_scale(b)
        } else {
            c.scale
        }
    }
}

/// Raising a decimal to a finer scale multiplies by the matching power of ten.
pub proof fn lemma_raised_further(d: Dec, s: int, t: int)
    requires
        d.scale <= s <= t,
    ensures
        d.raised(t) == d.raised(s) * pow(10, (t - s) as nat),
{
    lemma_pow_adds(10, (s - d.scale) as nat, (t - s) as nat);
    lemma_mul_is_associative(
        d.unscaled,
        pow(10, (s - d.scale) as nat),
        pow(10, (t - s) as nat),
    );
    assert((s - d.scale) as nat + (t - s) as nat == (t - d.scale) as nat);
}

/// The order of two decimals can be read off at any scale that fits both.
pub proof fn lemma_order_at(a: Dec, b: Dec, s: int)
    requires
        a.scale <= s,
        b.scale <= s,
    ensures
        a.less_than(b) <==> a.raised(s) < b.raised(s),
        a.same_value(b) <==> a.raised(s) == b.raised(s),
{
    let j = a.joint_scale(b);
    let p = pow(10, (s - j) as nat);
    lemma_pow_positive(10, (s - j) as nat);
    lemma_raised_further(a, j, s);
    lemma_raised_further(b, j, s);
    let x = a.raised(j);
    let y = b.raised(j);
    if x < y {
        lemma_mul_strict_inequality(x, y, p);
    } else if x > y {
        lemma_mul_strict_inequality(y, x, p);
    }
}

pub proof fn lemma_less_than_irreflexive(a: Dec)
    ensures
        !a.less_than(a),
        a.same_value(a),
{
}

pub proof fn lemma_less_than_transitive(a: Dec, b: Dec, c: Dec)
    requires
        a.less_than(b),
        b.less_than(c),
    ensures
        a.less_than(c),
{
    let s = Dec::joint_of_three(a, b, c);
    lemma_order_at(a, b, s);
    lemma_order_at(b, c, s);
    lemma_order_at(a, c, s);
}

/// Exactly one of `a < b`, `a == b`, `b < a` holds.
pub proof fn lemma_trichotomy(a: Dec, b: Dec)
    ensures
        a.less_than(b) || a.same_value(b) || b.less_than(a),
        !(a.less_than(b) && a.same_value(b)),
        !(a.less_than(b) && b.less_than(a)),
        !(a.same_value(b) && b.less_than(a)),
        a.same_value(b) == b.same_value(a),
{
    assert(a.joint_scale(b) == b.joint_scale(a));
}

/// Numerically equal decimals stand in the same order to every third one.
pub proof fn lemma_same_value_orders_alike(a: Dec, b: Dec, c: Dec)
    requires
        a.same_value(b),
    ensures
        a.less_than(c) == b.less_than(c),
        c.less_than(a) == c.less_than(b),
        a.same_value(c) == b.same_value(c),
{
    let s = Dec::joint_of_three(a, b, c);
    lemma_order_at(a, b, s);
    lemma_order_at(a, c, s);
    lemma_order_at(b, c, s);
    lemma_order_at(c, a, s);
    lemma_order_at(c, b, s);
}

/// A decimal that is zero does not lie above zero.
pub proof fn lemma_zero_is_not_positive(a: Dec)
    requires
        a.is_zero(),
    ensures
        !a.is_positive(),
{
    let s = Dec::zero().joint_scale(a);
    assert(Dec::zero().raised(s) == 0 * pow(10, s as nat));
    assert(a.raised(s) == 0 * pow(10, (s - a.scale) as nat));
    assert(0 * pow(10, s as nat) == 0) by (nonlinear_arith);
    assert(0 * pow(10, (s - a.scale) as nat) == 0) by (nonlinear_arith);
}

/// The unsigned integer that big-endian base-256 digits spell.
pub open spec fn unsigned_be(bytes: Seq<u8>) -> nat
    decreases bytes.len(),
{
    if bytes.len() == 0 {
        0
    } else {
        unsigned_be(bytes.drop_last()) * 256 + bytes.last() as nat
    }
}

/// The integer that big-endian two's-complement bytes spell; no bytes spell 0.
pub open spec fn signed_be(bytes: Seq<u8>) -> int {
    if bytes.len() > 0 && bytes[0] >= 128 {
        unsigned_be(bytes) - pow(256, bytes.len())
    } else {
        unsigned_be(bytes) as int
    }
}

/// The most decimal places, and the most trailing zeros left out, that a
/// [`Decimal`] can have. Two decimals can then always be brought to a common
/// scale, as sums, differences and comparisons need it, within what a
/// machine holds.
pub const MAX_SCALE: i64 = 65_536;

impl Dec {
    /// Whether the scale lies within [`MAX_SCALE`] of zero.
    pub open spec fn in_range(self) -> bool {
        -MAX_SCALE <= self.scale <= MAX_SCALE
    }

    /// Whether `self` lies above zero.
    pub open spec fn is_positive(self) -> bool {
        Dec::zero().less_than(self)
    }

    /// Whether `self` is `a + b`, as a number.
    pub open spec fn is_sum_of(self, a: Dec, b: Dec) -> bool {
        self.raised(Dec::joint_of_three(a, b, self)) == a.raised(Dec::joint_of_three(a, b, self))
            + b.raised(Dec::joint_of_three(a, b, self))
    }
}

/// An exact decimal number. The integer can be of any size; the scale lies
/// within [`MAX_SCALE`] of zero.
///
/// `==` on decimals is numeric: `1.0 == 1.00`. The scale is kept, so the two
/// print differently.
#[derive(Debug)]
pub struct Decimal {
    /// The unscaled integer, as big-endian two's-complement bytes.
    mantissa: Vec<u8>,
    /// The number of decimal places; negative for trailing zeros left out.
    scale: i64,
}

impl View for Decimal {
    type V = Dec;

    closed spec fn view(&self) -> Dec {
        Dec { unscaled: signed_be(self.mantissa@), scale: self.scale as int }
    }
}

/// An integer and a scale as `bigdecimal` hands them out: the scale is not
/// yet held to any range.
struct Parts {
    mantissa: Vec<u8>,
    scale: i64,
}

impl View for Parts {
    type V = Dec;

    closed spec fn view(&self) -> Dec {
        Dec { unscaled: signed_be(self.mantissa@), scale: self.scale as int }
    }
}

/// What `bigdecimal` reads a text as: `None` where it rejects the text.
pub uninterp spec fn decimal_of_text(text: Seq<char>) -> Option<Dec>;

/// How `bigdecimal` prints the decimal `unscaled * 10^(-scale)`.
pub uninterp spec fn decimal_text(unscaled: int, scale: int) -> Seq<char>;

/// The decimal `a - b`, at the larger of the two scales.
pub open spec fn decimal_difference(a: Dec, b: Dec) -> Dec {
    Dec {
        unscaled: a.raised(a.joint_scale(b)) - b.raised(a.joint_scale(b)),
        scale: a.joint_scale(b),
    }
}

/// The decimal, scale included, that `bigdecimal` gives for `a + b`.
pub uninterp spec fn decimal_sum(a: Dec, b: Dec) -> Dec;

/// The decimal that a text spells: what `bigdecimal` reads it as, unless
/// the scale of that lies beyond [`MAX_SCALE`].
pub open spec fn decimal_read(text: Seq<char>) -> Option<Dec> {
    match decimal_of_text(text) {
        Some(d) => if d.in_range() {
            Some(d)
        } else {
            None
        },
        None => None,
    }
}

/// The reading of a decimal that may be missing.
pub open spec fn view_of(d: Option<Decimal>) -> Option<Dec> {
    match d {
        Some(d) => Some(d@),
        None => None,
    }
}

/// The reading of parts that may be missing.
spec fn parts_of(p: Option<Parts>) -> Option<Dec> {
    match p {
        Some(p) => Some(p@),
        None => None,
    }
}

/// `BigDecimal::from_str`: the result, taken apart into its integer and scale,
/// is what [`decimal_of_text`] names; a rejected text gives `None`.
#[verifier::external_body]
fn text_to_parts(text: &str) -> (r: Option<Parts>)
    ensures
        parts_of(r) == decimal_of_text(text@),
{
    match BigDecimal::from_str(text) {
        Ok(d) => {
            let (digits, scale) = d.into_bigint_and_exponent();
            Some(Parts { mantissa: digits.to_signed_bytes_be(), scale })
        },
        Err(_) => None,
    }
}

/// `BigDecimal`'s `Display`: the text is what [`decimal_text`] names for the
/// decimal's integer and scale.
#[verifier::external_body]
fn decimal_to_text(d: &Decimal) -> (r: String)
    requires
        d@.in_range(),
    ensures
        r@ == decimal_text(d@.unscaled, d@.scale),
{
    BigDecimal::new(BigInt::from_signed_bytes_be(&d.mantissa), d.scale).to_string()
}

/// `BigDecimal`'s `<`: the numeric order, whatever the two scales are.
#[verifier::external_body]
fn decimal_less_than(a: &Decimal, b: &Decimal) -> (r: bool)
    requires
        a@.in_range(),
        b@.in_range(),
    ensures
        r == a@.less_than(b@),
{
    BigDecimal::new(BigInt::from_signed_bytes_be(&a.mantissa), a.scale) < BigDecimal::new(
        BigInt::from_signed_bytes_be(&b.mantissa),
        b.scale,
    )
}

/// `BigDecimal::is_zero`: whether the unscaled integer is 0.
#[verifier::external_body]
fn decimal_is_zero(d: &Decimal) -> (r: bool)
    ensures
        r == d@.is_zero(),
{
    BigDecimal::new(BigInt::from_signed_bytes_be(&d.mantissa), d.scale).is_zero()
}

/// `BigDecimal`'s `-` on two references: the exact difference, at the
/// larger of the two scales.
#[verifier::external_body]
fn decimal_minus(a: &Decimal, b: &Decimal) -> (r: Parts)
    requires
        a@.in_range(),
        b@.in_range(),
    ensures
        r@ == decimal_difference(a@, b@),
{
    let x = BigDecimal::new(BigInt::from_signed_bytes_be(&a.mantissa), a.scale);
    let y = BigDecimal::new(BigInt::from_signed_bytes_be(&b.mantissa), b.scale);
    let (digits, scale) = (&x - &y).into_bigint_and_exponent();
    Parts { mantissa: digits.to_signed_bytes_be(), scale }
}

/// `BigDecimal`'s `+` on two references: the result is what [`decimal_sum`]
/// names. It is the exact sum, and its scale lies between the scales of the
/// two.
#[verifier::external_body]
fn decimal_plus(a: &Decimal, b: &Decimal) -> (r: Parts)
    requires
        a@.in_range(),
        b@.in_range(),
    ensures
        r@ == decimal_sum(a@, b@),
        r@.is_sum_of(a@, b@),
        a@.scale <= r@.scale <= b@.scale || b@.scale <= r@.scale <= a@.scale,
{
    let x = BigDecimal::new(BigInt::from_signed_bytes_be(&a.mantissa), a.scale);
    let y = BigDecimal::new(BigInt::from_signed_bytes_be(&b.mantissa), b.scale);
    let (digits, scale) = (&x + &y).into_bigint_and_exponent();
    Parts { mantissa: digits.to_signed_bytes_be(), scale }
}

impl Decimal {
    /// Holds of every decimal: the scale lies within [`MAX_SCALE`] of zero.
    #[verifier::type_invariant]
    pub closed spec fn wf(&self) -> bool {
        self@.in_range()
    }

    /// Reads a decimal from text; `None` where the text is no decimal or
    /// spells one whose scale lies beyond [`MAX_SCALE`].
    pub fn parse(text: &str) -> (r: Option<Decimal>)
        ensures
            view_of(r) == decimal_read(text@),
    {
        match text_to_parts(text) {
            Some(parts) => {
                if -MAX_SCALE <= parts.scale && parts.scale <= MAX_SCALE {
                    Some(Decimal { mantissa: parts.mantissa, scale: parts.scale })
                } else {
                    None
                }
            },
            None => None,
        }
    }

    /// The decimal `0`, with scale 0.
    pub fn zero() -> (r: Decimal)
        ensures
            r@ == Dec::zero(),
    {
        let mantissa: Vec<u8> = vec![0u8];
        assert(mantissa@.drop_last() =~= Seq::<u8>::empty());
        assert(unsigned_be(mantissa@) == 0) by {
            reveal_with_fuel(unsigned_be, 2);
        }
        Decimal { mantissa, scale: 0 }
    }

    pub fn is_zero(&self) -> (r: bool)
        ensures
            r == self@.is_zero(),
    {
        decimal_is_zero(self)
    }

    /// Numeric `<`.
    pub fn less_than(&self, other: &Decimal) -> (r: bool)
        ensures
            r == self@.less_than(other@),
    {
        proof {
            use_type_invariant(self);
            use_type_invariant(other);
        }
        decimal_less_than(self, other)
    }

    /// Numeric `==`: neither is below the other.
    pub fn same_value(&self, other: &Decimal) -> (r: bool)
        ensures
            r == self@.same_value(other@),
    {
        proof {
            lemma_trichotomy(self@, other@);
        }
        !self.less_than(other) && !other.less_than(self)
    }

    /// Whether the decimal lies above zero.
    pub fn is_positive(&self) -> (r: bool)
        ensures
            r == self@.is_positive(),
    {
        let zero = Decimal::zero();
        zero.less_than(self)
    }

    /// The decimal in text, scale included.
    pub fn to_string(&self) -> (r: String)
        ensures
            r@ == decimal_text(self@.unscaled, self@.scale),
    {
        proof {
            use_type_invariant(self);
        }
        decimal_to_text(self)
    }

    /// `self - other`, exactly, at the larger of the two scales.
    pub fn minus(&self, other: &Decimal) -> (r: Decimal)
        ensures
            r@ == decimal_difference(self@, other@),
    {
        proof {
            use_type_invariant(self);
            use_type_invariant(other);
        }
        let parts = decimal_minus(self, other);
        Decimal { mantissa: parts.mantissa, scale: parts.scale }
    }

    /// `self + other`, exactly.
    pub fn plus(&self, other: &Decimal) -> (r: Decimal)
        ensures
            r@ == decimal_sum(self@, other@),
            r@.is_sum_of(self@, other@),
    {
        proof {
            use_type_invariant(self);
            use_type_invariant(other);
        }
        let parts = decimal_plus(self, other);
        Decimal { mantissa: parts.mantissa, scale: parts.scale }
    }
}

impl Clone for Decimal {
    fn clone(&self) -> (r: Decimal)
        ensures
            r@ == self@,
    {
        proof {
            use_type_invariant(self);
        }
        Decimal { mantissa: self.mantissa.clone(), scale: self.scale }
    }
}

impl FromStr for Decimal {
    type Err = crate::error::FeedError;

    /// Reads a decimal from text, as [`Decimal::parse`] does; a text that
    /// spells none is an error.
    fn from_str(text: &str) -> (r: Result<Decimal, crate::error::FeedError>)
        ensures
            r is Ok == decimal_read(text@) is Some,
            r matches Ok(d) ==> decimal_read(text@) == Some(d@),
            r matches Err(e) ==> e == crate::error::FeedError::BadDecimal,
    {
        match Decimal::parse(text) {
            Some(d) => Ok(d),
            None => Err(crate::error::FeedError::BadDecimal),
        }
    }
}

impl PartialEq for Decimal {
    fn eq(&self, other: &Decimal) -> (r: bool) {
        self.same_value(other)
    }
}

impl vstd::std_specs::cmp::PartialEqSpecImpl for Decimal {
    open spec fn obeys_eq_spec() -> bool {
        true
    }

    open spec fn eq_spec(&self, other: &Decimal) -> bool {
        self@.same_value(other@)
    }
}

} // verus!
