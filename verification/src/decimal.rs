//! Exact decimal amounts: a signed integer mantissa and a power-of-ten scale.
use rust_decimal::Decimal;
use vstd::prelude::*;

verus! {

/// Largest magnitude of a mantissa: 2^96 - 1.
pub const MAX_MANTISSA: i128 = 0xFFFF_FFFF_FFFF_FFFF_FFFF_FFFF;

/// Largest scale: an amount has at most this many digits after the point.
pub const MAX_SCALE: u32 = 28;

/// Ten to the power `e`.
pub open spec fn pow10(e: nat) -> int
    decreases e,
{
    if e == 0 {
        1
    } else {
        10 * pow10((e - 1) as nat)
    }
}

/// The mathematical content of an [`ExactDecimal`]: the number
/// `mantissa / 10^scale`.
pub ghost struct DecimalView {
    pub mantissa: int,
    pub scale: nat,
}

impl DecimalView {
    /// True when the pair is one that an [`ExactDecimal`] can hold.
    pub open spec fn in_range(self) -> bool {
        &&& self.scale <= MAX_SCALE
        &&& -MAX_MANTISSA <= self.mantissa <= MAX_MANTISSA
    }

    /// The amount as a whole number of units of 10^-28. Two amounts denote
    /// the same number exactly when their units agree, and one is smaller
    /// than the other exactly when its units are.
    pub open spec fn units(self) -> int {
        self.mantissa * pow10((MAX_SCALE - self.scale) as nat)
    }
}

/// An exact decimal number `mantissa / 10^scale` with a 96-bit mantissa and a
/// scale of at most 28.
///
/// `==` on this type compares representations, so `1.0` and `1.00` are
/// different values of it although they denote the same number; the numeric
/// order is the one of [`DecimalView::units`].
#[derive(Clone, Copy, Debug, PartialEq, Eq, Structural)]
pub struct ExactDecimal {
    mantissa: i128,
    scale: u32,
}

impl View for ExactDecimal {
    type V = DecimalView;

    closed spec fn view(&self) -> DecimalView {
        DecimalView { mantissa: self.mantissa as int, scale: self.scale as nat }
    }
}

impl ExactDecimal {
    /// Every value of the type is in range.
    #[verifier::type_invariant]
    pub closed spec fn wf(self) -> bool {
        self@.in_range()
    }

    /// The amount `mantissa / 10^scale`, or `None` when the mantissa needs
    /// more than 96 bits or the scale exceeds 28.
    pub fn new(mantissa: i128, scale: u32) -> (r: Option<ExactDecimal>)
        ensures
            r.is_some() == (DecimalView { mantissa: mantissa as int, scale: scale as nat }).in_range(),
            r.is_some() ==> r.unwrap()@ == (DecimalView {
                mantissa: mantissa as int,
                scale: scale as nat,
            }),
    {
        if scale <= MAX_SCALE && -MAX_MANTISSA <= mantissa && mantissa <= MAX_MANTISSA {
            Some(ExactDecimal { mantissa, scale })
        } else {
            None
        }
    }

    /// Two amounts with the same view are the same amount.
    pub proof fn lemma_view_is_injective(self, other: ExactDecimal)
        requires
            self@ == other@,
        ensures
            self == other,
    {
    }

    /// The integer that, divided by `10^scale`, gives the amount.
    pub fn mantissa(&self) -> (r: i128)
        ensures
            r == self@.mantissa,
            -MAX_MANTISSA <= r <= MAX_MANTISSA,
    {
        proof {
            use_type_invariant(self);
        }
        self.mantissa
    }

    /// The number of digits after the decimal point.
    pub fn scale(&self) -> (r: u32)
        ensures
            r == self@.scale,
            r <= MAX_SCALE,
    {
        proof {
            use_type_invariant(self);
        }
        self.scale
    }

    /// True when `self` denotes a strictly smaller number than `other`.
    pub fn less_than(&self, other: &ExactDecimal) -> (r: bool)
        ensures
            r == (self@.units() < other@.units()),
    {
        proof {
            use_type_invariant(self);
            use_type_invariant(other);
        }
        decimal_lt(self, other)
    }
}

/// Calls `<` of `rust_decimal::Decimal` (its `PartialOrd::partial_cmp`) on
/// the two amounts rebuilt with `Decimal::from_i128_with_scale`.
///
/// Trusted: that constructor keeps mantissa and scale as given and does not
/// panic on values in range, and the crate's comparison is by numerical
/// value, exact at every pair of scales. Hence the result says whether `a`
/// is the smaller number.
#[verifier::external_body]
fn decimal_lt(a: &ExactDecimal, b: &ExactDecimal) -> (r: bool)
    requires
        a@.in_range(),
        b@.in_range(),
    ensures
        r == (a@.units() < b@.units()),
{
    let x = Decimal::from_i128_with_scale(a.mantissa, a.scale);
    let y = Decimal::from_i128_with_scale(b.mantissa, b.scale);
    x < y
}

} // verus!
