//! Exact decimal amounts.
//!
//! An [`Amount`] is a decimal number `mantissa / 10^scale` with a mantissa of
//! at most 96 bits and a scale of at most 28, the numbers that
//! `rust_decimal::Decimal` can hold. Its view is the number itself, counted in
//! units of `10^-28`, so that every amount is an integer in contracts.
//!
//! The arithmetic is that of `rust_decimal`, reached through the functions
//! named `decimal_*` at the end of this file. Their contracts are taken from
//! the source of that crate and are not proved here. Each of them rebuilds its
//! operands with `Decimal::from_i128_with_scale`, which accepts every mantissa
//! and scale that an amount can have, and reads the result back with
//! `Decimal::mantissa` and `Decimal::scale`.
//!
//! `rust_decimal` computes a sum at the larger of the two scales, and keeps it
//! exact as long as the mantissa of that sum has at most 96 bits; beyond that
//! it rounds to a smaller scale or overflows. The library adds and subtracts
//! only where the result is exact ([`sum_fits`], [`difference_fits`]), and
//! decides that range itself.
//!
//! Contracts speak of an amount through its parts, the pair of mantissa and
//! scale, on which the sum, the difference and the number itself are spec
//! functions.

use crate::text::{decimal_digits, digit};
use rust_decimal::Decimal;
use vstd::prelude::*;
use vstd::std_specs::cmp::PartialEqSpecImpl;

verus! {

/// The largest scale of an amount.
pub const MAX_SCALE: u32 = 28;

/// The largest magnitude of a mantissa, `2^96 - 1`.
pub const MAX_MANTISSA: i128 = 79_228_162_514_264_337_593_543_950_335;

/// `10^e`.
pub open spec fn pow10(e: nat) -> int
    decreases e,
{
    if e == 0 {
        1
    } else {
        10 * pow10((e - 1) as nat)
    }
}

/// A power of ten is at least one.
pub proof fn lemma_pow10_positive(e: nat)
    ensures
        pow10(e) >= 1,
    decreases e,
{
    if e > 0 {
        lemma_pow10_positive((e - 1) as nat);
    }
}

/// A larger exponent gives no smaller power.
pub proof fn lemma_pow10_increases(e: nat, f: nat)
    requires
        e <= f,
    ensures
        pow10(e) <= pow10(f),
    decreases f,
{
    if e < f {
        lemma_pow10_increases(e, (f - 1) as nat);
        lemma_pow10_positive((f - 1) as nat);
    }
}

/// The power of a sum is the product of the powers.
pub proof fn lemma_pow10_adds(e: nat, f: nat)
    ensures
        pow10(e + f) == pow10(e) * pow10(f),
    decreases f,
{
    if f == 0 {
        assert(pow10(e) * 1 == pow10(e));
    } else {
        lemma_pow10_adds(e, (f - 1) as nat);
        assert(pow10(e + f) == 10 * pow10((e + f - 1) as nat));
        assert(10 * (pow10(e) * pow10((f - 1) as nat)) == pow10(e) * (10 * pow10((f - 1) as nat)))
            by (nonlinear_arith);
    }
}

proof fn lemma_pow10_of_28()
    ensures
        pow10(28) == 10_000_000_000_000_000_000_000_000_000int,
{
    reveal_with_fuel(pow10, 29);
}

/// `10^e` for an exponent that a scale can take.
fn ten_to(e: u32) -> (r: i128)
    requires
        e <= MAX_SCALE,
    ensures
        r == pow10(e as nat),
{
    let mut r: i128 = 1;
    let mut i: u32 = 0;
    while i < e
        invariant
            i <= e <= MAX_SCALE,
            r == pow10(i as nat),
        decreases e - i,
    {
        assert(1 <= r * 10 == pow10((i + 1) as nat) <= 10_000_000_000_000_000_000_000_000_000int) by {
            lemma_pow10_positive((i + 1) as nat);
            lemma_pow10_increases((i + 1) as nat, 28);
            lemma_pow10_of_28();
        }
        r = r * 10;
        i = i + 1;
    }
    r
}

/// The number `mantissa / 10^scale` in units of `10^-28`.
pub open spec fn value_of(parts: (int, nat)) -> int {
    parts.0 * pow10((MAX_SCALE - parts.1) as nat)
}

/// Whether the scale is one that a decimal can have.
pub open spec fn scale_is_valid(parts: (int, nat)) -> bool {
    parts.1 <= MAX_SCALE
}

/// Whether a decimal can hold mantissa and scale.
pub open spec fn is_decimal(parts: (int, nat)) -> bool {
    scale_is_valid(parts) && -MAX_MANTISSA <= parts.0 <= MAX_MANTISSA
}

/// The larger of the two scales.
pub open spec fn wider_scale(a: (int, nat), b: (int, nat)) -> nat {
    if a.1 < b.1 {
        b.1
    } else {
        a.1
    }
}

/// The mantissa of `a` once it is brought to the larger of the two scales.
pub open spec fn aligned(a: (int, nat), b: (int, nat)) -> int {
    if a.1 < b.1 {
        a.0 * pow10((b.1 - a.1) as nat)
    } else {
        a.0
    }
}

/// Mantissa and scale of `a + b`: the other operand where one is zero, else
/// the sum of the mantissas at the larger scale.
pub open spec fn sum_of(a: (int, nat), b: (int, nat)) -> (int, nat) {
    if a.0 == 0 {
        b
    } else if b.0 == 0 {
        a
    } else {
        (aligned(a, b) + aligned(b, a), wider_scale(a, b))
    }
}

/// Mantissa and scale of `a - b`: `-b` or `a` where one is zero, else the
/// difference of the mantissas at the larger scale.
pub open spec fn difference_of(a: (int, nat), b: (int, nat)) -> (int, nat) {
    if a.0 == 0 {
        (-b.0, b.1)
    } else if b.0 == 0 {
        a
    } else {
        (aligned(a, b) - aligned(b, a), wider_scale(a, b))
    }
}

/// Whether a decimal holds `a + b` exactly: one of the two is zero, or the
/// sum of the mantissas at the larger scale has at most 96 bits.
pub open spec fn sum_fits(a: (int, nat), b: (int, nat)) -> bool {
    ||| a.0 == 0
    ||| b.0 == 0
    ||| -MAX_MANTISSA <= aligned(a, b) + aligned(b, a) <= MAX_MANTISSA
}

/// Whether a decimal holds `a - b` exactly: one of the two is zero, or the
/// difference of the mantissas at the larger scale has at most 96 bits.
pub open spec fn difference_fits(a: (int, nat), b: (int, nat)) -> bool {
    ||| a.0 == 0
    ||| b.0 == 0
    ||| -MAX_MANTISSA <= aligned(a, b) - aligned(b, a) <= MAX_MANTISSA
}

/// The mantissa at the larger scale stands for the same number.
pub proof fn lemma_aligned_value(a: (int, nat), b: (int, nat))
    requires
        scale_is_valid(a),
        scale_is_valid(b),
    ensures
        aligned(a, b) * pow10((MAX_SCALE - wider_scale(a, b)) as nat) == value_of(a),
{
    if a.1 < b.1 {
        let up = (b.1 - a.1) as nat;
        let rest = (MAX_SCALE - b.1) as nat;
        lemma_pow10_adds(up, rest);
        assert((a.0 * pow10(up)) * pow10(rest) == a.0 * (pow10(up) * pow10(rest)))
            by (nonlinear_arith);
    }
}

/// The parts of a sum and of a difference stand for the sum and the
/// difference of the numbers, and their scale is that of one of the operands.
pub proof fn lemma_parts_are_exact(a: (int, nat), b: (int, nat))
    requires
        scale_is_valid(a),
        scale_is_valid(b),
    ensures
        value_of(sum_of(a, b)) == value_of(a) + value_of(b),
        value_of(difference_of(a, b)) == value_of(a) - value_of(b),
        scale_is_valid(sum_of(a, b)),
        scale_is_valid(difference_of(a, b)),
{
    lemma_aligned_value(a, b);
    lemma_aligned_value(b, a);
    let unit = pow10((MAX_SCALE - wider_scale(a, b)) as nat);
    assert((aligned(a, b) + aligned(b, a)) * unit == aligned(a, b) * unit + aligned(b, a) * unit)
        by (nonlinear_arith);
    assert((aligned(a, b) - aligned(b, a)) * unit == aligned(a, b) * unit - aligned(b, a) * unit)
        by (nonlinear_arith);
    let unit_b = pow10((MAX_SCALE - b.1) as nat);
    assert((-b.0) * unit_b == -(b.0 * unit_b)) by (nonlinear_arith);
}

/// Within the range that is computed exactly, a decimal holds the result.
pub proof fn lemma_results_are_decimals(a: (int, nat), b: (int, nat))
    requires
        is_decimal(a),
        is_decimal(b),
    ensures
        sum_fits(a, b) ==> is_decimal(sum_of(a, b)),
        difference_fits(a, b) ==> is_decimal(difference_of(a, b)),
{
}

/// An exact decimal number, `mantissa / 10^scale`.
#[derive(Clone, Copy, Debug)]
pub struct Amount {
    mantissa: i128,
    scale: u32,
}

impl View for Amount {
    type V = int;

    /// The amount in units of `10^-28`.
    open spec fn view(&self) -> int {
        value_of(self.parts())
    }
}

impl Amount {
    /// Every amount is one that a decimal can hold.
    #[verifier::type_invariant]
    pub open spec fn is_representable(self) -> bool {
        is_decimal(self.parts())
    }

    pub closed spec fn spec_mantissa(&self) -> i128 {
        self.mantissa
    }

    pub closed spec fn spec_scale(&self) -> u32 {
        self.scale
    }

    /// The amount `mantissa / 10^scale`, if a mantissa of 96 bits and a scale
    /// of at most 28 can hold it.
    pub fn new(mantissa: i128, scale: u32) -> (r: Option<Amount>)
        ensures
            r is Some <==> scale <= MAX_SCALE && -MAX_MANTISSA <= mantissa <= MAX_MANTISSA,
            r matches Some(a) ==> a.mantissa() == mantissa && a.scale() == scale,
    {
        if scale <= MAX_SCALE && -MAX_MANTISSA <= mantissa && mantissa <= MAX_MANTISSA {
            Some(Amount { mantissa, scale })
        } else {
            None
        }
    }

    /// Mantissa and scale.
    pub open spec fn parts(self) -> (int, nat) {
        (self.mantissa() as int, self.scale() as nat)
    }

    #[verifier::when_used_as_spec(spec_mantissa)]
    pub fn mantissa(&self) -> (m: i128)
        ensures
            m == self.mantissa(),
            -MAX_MANTISSA <= m <= MAX_MANTISSA,
            is_decimal(self.parts()),
    {
        proof {
            use_type_invariant(self);
        }
        self.mantissa
    }

    #[verifier::when_used_as_spec(spec_scale)]
    pub fn scale(&self) -> (s: u32)
        ensures
            s == self.scale(),
            s <= MAX_SCALE,
            is_decimal(self.parts()),
    {
        proof {
            use_type_invariant(self);
        }
        self.scale
    }

    /// Whether `self + other` is computed exactly.
    pub fn can_add(&self, other: &Amount) -> (ok: bool)
        ensures
            ok == sum_fits(self.parts(), other.parts()),
    {
        in_exact_range(self, other, false)
    }

    /// Whether `self - other` is computed exactly.
    pub fn can_sub(&self, other: &Amount) -> (ok: bool)
        ensures
            ok == difference_fits(self.parts(), other.parts()),
    {
        in_exact_range(self, other, true)
    }

    /// `self + other`, in the range where it is computed exactly.
    pub(crate) fn plus(&self, other: &Amount) -> (sum: Amount)
        requires
            sum_fits(self.parts(), other.parts()),
        ensures
            sum.parts() == sum_of(self.parts(), other.parts()),
            sum@ == self@ + other@,
    {
        let sum = decimal_add(*self, *other);
        proof {
            use_type_invariant(self);
            use_type_invariant(other);
            lemma_parts_are_exact(self.parts(), other.parts());
        }
        sum
    }

    /// `self - other`, in the range where it is computed exactly.
    pub(crate) fn minus(&self, other: &Amount) -> (difference: Amount)
        requires
            difference_fits(self.parts(), other.parts()),
        ensures
            difference.parts() == difference_of(self.parts(), other.parts()),
            difference@ == self@ - other@,
    {
        let difference = decimal_sub(*self, *other);
        proof {
            use_type_invariant(self);
            use_type_invariant(other);
            lemma_parts_are_exact(self.parts(), other.parts());
        }
        difference
    }

    /// `self + other`, or `None` where it is not computed exactly.
    pub fn checked_add(&self, other: &Amount) -> (r: Option<Amount>)
        ensures
            r is Some <==> sum_fits(self.parts(), other.parts()),
            r matches Some(sum) ==> sum.parts() == sum_of(self.parts(), other.parts()) && sum@
                == self@ + other@,
    {
        if self.can_add(other) {
            Some(self.plus(other))
        } else {
            None
        }
    }

    /// `self - other`, or `None` where it is not computed exactly.
    pub fn checked_sub(&self, other: &Amount) -> (r: Option<Amount>)
        ensures
            r is Some <==> difference_fits(self.parts(), other.parts()),
            r matches Some(difference) ==> difference.parts() == difference_of(
                self.parts(),
                other.parts(),
            ) && difference@ == self@ - other@,
    {
        if self.can_sub(other) {
            Some(self.minus(other))
        } else {
            None
        }
    }

    /// The amount rounded to `places` fractional digits, half to even; an
    /// amount with no more digits than that is returned as it is.
    pub fn round_dp(&self, places: u32) -> (r: Amount)
        ensures
            r.parts() == rounded(self.parts(), places as nat),
    {
        decimal_round_dp(*self, places)
    }

    /// The amount in decimal notation, with as many fractional digits as its scale.
    pub fn to_text(&self) -> (text: String)
        ensures
            text@ == decimal_text(self.parts()),
    {
        decimal_to_string(*self)
    }

    /// Whether `self` is the smaller number.
    pub fn is_less_than(&self, other: &Amount) -> (r: bool)
        ensures
            r == (self@ < other@),
    {
        decimal_lt(*self, *other)
    }
}

impl PartialEq for Amount {
    /// Two amounts are equal when they are the same number, whatever their scales.
    fn eq(&self, other: &Amount) -> (r: bool) {
        decimal_eq(*self, *other)
    }
}

impl PartialEqSpecImpl for Amount {
    open spec fn obeys_eq_spec() -> bool {
        true
    }

    open spec fn eq_spec(&self, other: &Amount) -> bool {
        self@ == other@
    }
}

/// Decides `sum_fits` or, with `subtract`, `difference_fits`.
fn in_exact_range(a: &Amount, b: &Amount, subtract: bool) -> (ok: bool)
    ensures
        ok == if subtract {
            difference_fits(a.parts(), b.parts())
        } else {
            sum_fits(a.parts(), b.parts())
        },
{
    let ma = a.mantissa();
    let mb = b.mantissa();
    let sa = a.scale();
    let sb = b.scale();
    if ma == 0 || mb == 0 {
        return true;
    }
    let gap: u32 = if sa < sb {
        sb - sa
    } else {
        sa - sb
    };
    // a product or a sum beyond 128 bits is beyond 96 bits
    let power = ten_to(gap);
    let left: Option<i128> = if sa < sb {
        ma.checked_mul(power)
    } else {
        Some(ma)
    };
    let right: Option<i128> = if sb < sa {
        mb.checked_mul(power)
    } else {
        Some(mb)
    };
    match (left, right) {
        (Some(x), Some(y)) => {
            let total: Option<i128> = if subtract {
                x.checked_sub(y)
            } else {
                x.checked_add(y)
            };
            match total {
                Some(t) => -MAX_MANTISSA <= t && t <= MAX_MANTISSA,
                None => false,
            }
        },
        _ => false,
    }
}

/// `Decimal`'s `+` on the two numbers (`impl Add for Decimal`).
///
/// The crate hands back the other operand where one is zero. Else it brings
/// the operand of the smaller scale to the larger one and adds the mantissas;
/// it lowers the scale, rounding, or overflows only where that sum needs more
/// than 96 bits, which `sum_fits` leaves out.
#[verifier::external_body]
fn decimal_add(a: Amount, b: Amount) -> (r: Amount)
    requires
        sum_fits(a.parts(), b.parts()),
    ensures
        r.parts() == sum_of(a.parts(), b.parts()),
{
    let x = Decimal::from_i128_with_scale(a.mantissa, a.scale);
    let y = Decimal::from_i128_with_scale(b.mantissa, b.scale);
    let z = x + y;
    Amount { mantissa: z.mantissa(), scale: z.scale() }
}

/// `Decimal`'s `-` on the two numbers (`impl Sub for Decimal`).
///
/// The crate hands back `-b` where `a` is zero and `a` where `b` is zero. Else
/// it brings the operand of the smaller scale to the larger one and subtracts
/// the mantissas; it lowers the scale, rounding, or overflows only where that
/// difference needs more than 96 bits, which `difference_fits` leaves out.
#[verifier::external_body]
fn decimal_sub(a: Amount, b: Amount) -> (r: Amount)
    requires
        difference_fits(a.parts(), b.parts()),
    ensures
        r.parts() == difference_of(a.parts(), b.parts()),
{
    let x = Decimal::from_i128_with_scale(a.mantissa, a.scale);
    let y = Decimal::from_i128_with_scale(b.mantissa, b.scale);
    let z = x - y;
    Amount { mantissa: z.mantissa(), scale: z.scale() }
}

/// `Decimal`'s `<` (`impl PartialOrd for Decimal`), which orders decimals as numbers.
#[verifier::external_body]
fn decimal_lt(a: Amount, b: Amount) -> (r: bool)
    ensures
        r == (a@ < b@),
{
    let x = Decimal::from_i128_with_scale(a.mantissa, a.scale);
    let y = Decimal::from_i128_with_scale(b.mantissa, b.scale);
    x < y
}

/// `Decimal`'s `==` (`impl PartialEq for Decimal`), which holds of two decimals
/// that are the same number, whatever their scales.
#[verifier::external_body]
fn decimal_eq(a: Amount, b: Amount) -> (r: bool)
    ensures
        r == (a@ == b@),
{
    let x = Decimal::from_i128_with_scale(a.mantissa, a.scale);
    let y = Decimal::from_i128_with_scale(b.mantissa, b.scale);
    x == y
}

/// `magnitude / divisor` rounded to the nearest integer, a half to the even one.
pub open spec fn round_half_even(magnitude: nat, divisor: nat) -> nat {
    let quotient = magnitude / divisor;
    let rest = magnitude % divisor;
    if 2 * rest > divisor || (2 * rest == divisor && quotient % 2 == 1) {
        quotient + 1
    } else {
        quotient
    }
}

/// The magnitude of an integer.
pub open spec fn magnitude_of(mantissa: int) -> nat {
    if mantissa < 0 {
        (-mantissa) as nat
    } else {
        mantissa as nat
    }
}

/// Mantissa and scale of the number rounded to `places` fractional digits.
pub open spec fn rounded(parts: (int, nat), places: nat) -> (int, nat) {
    if parts.1 <= places {
        parts
    } else {
        let kept = round_half_even(magnitude_of(parts.0), pow10((parts.1 - places) as nat) as nat);
        (if parts.0 < 0 {
            -kept
        } else {
            kept as int
        }, places)
    }
}

/// The last `width` decimal digits of `n`, with leading zeros.
pub open spec fn zero_padded(n: nat, width: nat) -> Seq<char>
    decreases width,
{
    if width == 0 {
        Seq::empty()
    } else {
        zero_padded(n / 10, (width - 1) as nat).push(digit(n % 10))
    }
}

/// The number in decimal notation: a minus sign where it is
/// negative, the whole part, and for a scale above zero a point and `scale`
/// fractional digits.
pub open spec fn decimal_text(parts: (int, nat)) -> Seq<char> {
    let mantissa = parts.0;
    let scale = parts.1;
    let sign = if mantissa < 0 {
        seq!['-']
    } else {
        Seq::empty()
    };
    let whole = decimal_digits(magnitude_of(mantissa) / (pow10(scale) as nat));
    if scale == 0 {
        sign + whole
    } else {
        sign + whole + seq!['.'] + zero_padded(magnitude_of(mantissa) % (pow10(scale) as nat), scale)
    }
}

/// `Decimal::round_dp`, which rounds the magnitude to `places` fractional
/// digits, a half to the even neighbour, keeps the sign, and hands back a
/// decimal whose scale is `places` already or less as it is.
#[verifier::external_body]
fn decimal_round_dp(a: Amount, places: u32) -> (r: Amount)
    ensures
        r.parts() == rounded(a.parts(), places as nat),
{
    let x = Decimal::from_i128_with_scale(a.mantissa, a.scale).round_dp(places);
    Amount { mantissa: x.mantissa(), scale: x.scale() }
}

/// `Decimal`'s `to_string` (`impl Display for Decimal`): sign, whole part, and
/// as many fractional digits as the scale.
#[verifier::external_body]
fn decimal_to_string(a: Amount) -> (text: String)
    ensures
        text@ == decimal_text(a.parts()),
{
    Decimal::from_i128_with_scale(a.mantissa, a.scale).to_string()
}

} // verus!
