//! Arithmetic on amounts. Each operator asks of its caller that the result
//! fits the signed 64-bit range; a caller that was not verified and breaks
//! this gets a panic, never a wrapped value. The `checked_` methods ask
//! nothing and report the failure instead.

use crate::error::Error;
use crate::money::Money;
use vstd::pervasive::unreached;
use vstd::prelude::*;
use vstd::std_specs::ops::{AddSpec, DivSpec, MulSpec, SubSpec};

verus! {

/// `x` fits the signed 64-bit range.
pub open spec fn in_range(x: int) -> bool {
    i64::MIN <= x <= i64::MAX
}

/// The quotient of `x` by `d` rounded toward zero: the quotient of the
/// magnitudes, negative where the signs differ.
pub open spec fn trunc_div(x: int, d: int) -> int
    recommends
        d != 0,
{
    if x >= 0 && d > 0 {
        x / d
    } else if x >= 0 {
        -(x / (-d))
    } else if d > 0 {
        -((-x) / d)
    } else {
        (-x) / (-d)
    }
}

/// Rounding toward zero leaves a remainder smaller in magnitude than the
/// divisor and never of the opposite sign to the dividend.
pub proof fn lemma_trunc_div_remainder(x: int, d: int)
    requires
        d != 0,
    ensures
        x >= 0 ==> 0 <= x - trunc_div(x, d) * d,
        x <= 0 ==> x - trunc_div(x, d) * d <= 0,
        d > 0 ==> -d < x - trunc_div(x, d) * d < d,
        d < 0 ==> d < x - trunc_div(x, d) * d < -d,
{
    let ax = if x >= 0 { x } else { -x };
    let ad = if d > 0 { d } else { -d };
    let q = ax / ad;
    vstd::arithmetic::div_mod::lemma_fundamental_div_mod(ax, ad);
    vstd::arithmetic::div_mod::lemma_mod_bound(ax, ad);
    assert(ax == ad * q + ax % ad);
    assert(0 <= ax % ad < ad);
    if x >= 0 && d > 0 {
        assert(trunc_div(x, d) * d == ad * q) by (nonlinear_arith)
            requires trunc_div(x, d) == q, d == ad;
    } else if x >= 0 {
        assert(trunc_div(x, d) * d == ad * q) by (nonlinear_arith)
            requires trunc_div(x, d) == -q, d == -ad;
    } else if d > 0 {
        assert(trunc_div(x, d) * d == -(ad * q)) by (nonlinear_arith)
            requires trunc_div(x, d) == -q, d == ad;
    } else {
        assert(trunc_div(x, d) * d == -(ad * q)) by (nonlinear_arith)
            requires trunc_div(x, d) == q, d == -ad;
    }
}

impl Money {
    /// The sum of two amounts, or `Overflow` where it does not fit the signed
    /// 64-bit range.
    pub fn checked_add(self, rhs: Money) -> (r: Result<Money, Error>)
        ensures
            match r {
                Ok(sum) => in_range(self@ + rhs@) && sum@ == self@ + rhs@,
                Err(e) => !in_range(self@ + rhs@) && e == Error::Overflow,
            },
    {
        match self.inner().checked_add(rhs.inner()) {
            Some(v) => Ok(Money::from(v)),
            None => Err(Error::Overflow),
        }
    }

    /// The difference of two amounts, or `Overflow` where it does not fit the
    /// signed 64-bit range.
    pub fn checked_sub(self, rhs: Money) -> (r: Result<Money, Error>)
        ensures
            match r {
                Ok(difference) => in_range(self@ - rhs@) && difference@ == self@ - rhs@,
                Err(e) => !in_range(self@ - rhs@) && e == Error::Overflow,
            },
    {
        match self.inner().checked_sub(rhs.inner()) {
            Some(v) => Ok(Money::from(v)),
            None => Err(Error::Overflow),
        }
    }

    /// The amount times a whole factor, or `Overflow` where the product does
    /// not fit the signed 64-bit range.
    pub fn checked_mul(self, k: i64) -> (r: Result<Money, Error>)
        ensures
            match r {
                Ok(product) => in_range(self@ * k) && product@ == self@ * k,
                Err(e) => !in_range(self@ * k) && e == Error::Overflow,
            },
    {
        match self.inner().checked_mul(k) {
            Some(v) => Ok(Money::from(v)),
            None => Err(Error::Overflow),
        }
    }

    /// The amount divided by a whole divisor, rounded toward zero;
    /// `DivideByZero` for the divisor zero, `Overflow` where the quotient does
    /// not fit the signed 64-bit range.
    pub fn checked_div(self, k: i64) -> (r: Result<Money, Error>)
        ensures
            match r {
                Ok(quotient) => {
                    &&& k != 0
                    &&& in_range(trunc_div(self@, k as int))
                    &&& quotient@ == trunc_div(self@, k as int)
                },
                Err(e) => if k == 0 {
                    e == Error::DivideByZero
                } else {
                    !in_range(trunc_div(self@, k as int)) && e == Error::Overflow
                },
            },
    {
        if k == 0 {
            return Err(Error::DivideByZero);
        }
        match self.inner().checked_div(k) {
            Some(v) => Ok(Money::from(v)),
            None => Err(Error::Overflow),
        }
    }
}

impl core::ops::Add for Money {
    type Output = Money;

    /// The sum of two amounts, which must fit the signed 64-bit range.
    fn add(self, rhs: Money) -> (sum: Money)
        ensures
            sum@ == self@ + rhs@,
    {
        match self.checked_add(rhs) {
            Ok(m) => {
                proof {
                    m.lemma_view();
                }
                m
            },
            Err(_) => unreached(),
        }
    }
}

impl vstd::std_specs::ops::AddSpecImpl for Money {
    open spec fn obeys_add_spec() -> bool {
        true
    }

    open spec fn add_req(self, rhs: Money) -> bool {
        in_range(self@ + rhs@)
    }

    open spec fn add_spec(self, rhs: Money) -> Money {
        Money::of(self@ + rhs@)
    }
}

impl core::ops::Sub for Money {
    type Output = Money;

    /// The difference of two amounts, which must fit the signed 64-bit range.
    fn sub(self, rhs: Money) -> (difference: Money)
        ensures
            difference@ == self@ - rhs@,
    {
        match self.checked_sub(rhs) {
            Ok(m) => {
                proof {
                    m.lemma_view();
                }
                m
            },
            Err(_) => unreached(),
        }
    }
}

impl vstd::std_specs::ops::SubSpecImpl for Money {
    open spec fn obeys_sub_spec() -> bool {
        true
    }

    open spec fn sub_req(self, rhs: Money) -> bool {
        in_range(self@ - rhs@)
    }

    open spec fn sub_spec(self, rhs: Money) -> Money {
        Money::of(self@ - rhs@)
    }
}

impl core::ops::Mul<i64> for Money {
    type Output = Money;

    /// The amount times an `i64` factor; the product must fit the signed
    /// 64-bit range.
    fn mul(self, rhs: i64) -> (product: Money)
        ensures
            product@ == self@ * rhs,
    {
        match self.checked_mul(rhs) {
            Ok(m) => {
                proof {
                    m.lemma_view();
                }
                m
            },
            Err(_) => unreached(),
        }
    }
}

impl vstd::std_specs::ops::MulSpecImpl<i64> for Money {
    open spec fn obeys_mul_spec() -> bool {
        true
    }

    open spec fn mul_req(self, rhs: i64) -> bool {
        in_range(self@ * rhs)
    }

    open spec fn mul_spec(self, rhs: i64) -> Money {
        Money::of(self@ * rhs)
    }
}

impl core::ops::Mul<Money> for i64 {
    type Output = Money;

    /// An `i64` factor times the amount; the product must fit the signed
    /// 64-bit range.
    fn mul(self, rhs: Money) -> (product: Money)
        ensures
            product@ == self * rhs@,
    {
        proof {
            vstd::arithmetic::mul::lemma_mul_is_commutative(self as int, rhs@);
        }
        match rhs.checked_mul(self) {
            Ok(m) => {
                proof {
                    m.lemma_view();
                }
                m
            },
            Err(_) => unreached(),
        }
    }
}

impl vstd::std_specs::ops::MulSpecImpl<Money> for i64 {
    open spec fn obeys_mul_spec() -> bool {
        true
    }

    open spec fn mul_req(self, rhs: Money) -> bool {
        in_range(self * rhs@)
    }

    open spec fn mul_spec(self, rhs: Money) -> Money {
        Money::of(self * rhs@)
    }
}

impl core::ops::Div<i64> for Money {
    type Output = Money;

    /// The amount divided by an `i64` divisor, rounded toward zero. The
    /// divisor must not be zero and the quotient must fit the signed 64-bit
    /// range.
    fn div(self, rhs: i64) -> (quotient: Money)
        ensures
            quotient@ == trunc_div(self@, rhs as int),
    {
        match self.checked_div(rhs) {
            Ok(m) => {
                proof {
                    m.lemma_view();
                }
                m
            },
            Err(_) => unreached(),
        }
    }
}

impl vstd::std_specs::ops::DivSpecImpl<i64> for Money {
    open spec fn obeys_div_spec() -> bool {
        true
    }

    open spec fn div_req(self, rhs: i64) -> bool {
        rhs != 0 && in_range(trunc_div(self@, rhs as int))
    }

    open spec fn div_spec(self, rhs: i64) -> Money {
        Money::of(trunc_div(self@, rhs as int))
    }
}

impl core::ops::Mul<i32> for Money {
    type Output = Money;

    /// The amount times an `i32` factor; the product must fit the signed
    /// 64-bit range.
    fn mul(self, rhs: i32) -> (product: Money)
        ensures
            product@ == self@ * rhs,
    {
        match self.checked_mul(rhs as i64) {
            Ok(m) => {
                proof {
                    m.lemma_view();
                }
                m
            },
            Err(_) => unreached(),
        }
    }
}

impl vstd::std_specs::ops::MulSpecImpl<i32> for Money {
    open spec fn obeys_mul_spec() -> bool {
        true
    }

    open spec fn mul_req(self, rhs: i32) -> bool {
        in_range(self@ * rhs)
    }

    open spec fn mul_spec(self, rhs: i32) -> Money {
        Money::of(self@ * rhs)
    }
}

impl core::ops::Mul<Money> for i32 {
    type Output = Money;

    /// An `i32` factor times the amount; the product must fit the signed
    /// 64-bit range.
    fn mul(self, rhs: Money) -> (product: Money)
        ensures
            product@ == self * rhs@,
    {
        proof {
            vstd::arithmetic::mul::lemma_mul_is_commutative(self as int, rhs@);
        }
        match rhs.checked_mul(self as i64) {
            Ok(m) => {
                proof {
                    m.lemma_view();
                }
                m
            },
            Err(_) => unreached(),
        }
    }
}

impl vstd::std_specs::ops::MulSpecImpl<Money> for i32 {
    open spec fn obeys_mul_spec() -> bool {
        true
    }

    open spec fn mul_req(self, rhs: Money) -> bool {
        in_range(self * rhs@)
    }

    open spec fn mul_spec(self, rhs: Money) -> Money {
        Money::of(self * rhs@)
    }
}

impl core::ops::Div<i32> for Money {
    type Output = Money;

    /// The amount divided by an `i32` divisor, rounded toward zero. The
    /// divisor must not be zero and the quotient must fit the signed 64-bit
    /// range.
    fn div(self, rhs: i32) -> (quotient: Money)
        ensures
            quotient@ == trunc_div(self@, rhs as int),
    {
        match self.checked_div(rhs as i64) {
            Ok(m) => {
                proof {
                    m.lemma_view();
                }
                m
            },
            Err(_) => unreached(),
        }
    }
}

impl vstd::std_specs::ops::DivSpecImpl<i32> for Money {
    open spec fn obeys_div_spec() -> bool {
        true
    }

    open spec fn div_req(self, rhs: i32) -> bool {
        rhs != 0 && in_range(trunc_div(self@, rhs as int))
    }

    open spec fn div_spec(self, rhs: i32) -> Money {
        Money::of(trunc_div(self@, rhs as int))
    }
}

impl core::ops::Mul<i16> for Money {
    type Output = Money;

    /// The amount times an `i16` factor; the product must fit the signed
    /// 64-bit range.
    fn mul(self, rhs: i16) -> (product: Money)
        ensures
            product@ == self@ * rhs,
    {
        match self.checked_mul(rhs as i64) {
            Ok(m) => {
                proof {
                    m.lemma_view();
                }
                m
            },
            Err(_) => unreached(),
        }
    }
}

impl vstd::std_specs::ops::MulSpecImpl<i16> for Money {
    open spec fn obeys_mul_spec() -> bool {
        true
    }

    open spec fn mul_req(self, rhs: i16) -> bool {
        in_range(self@ * rhs)
    }

    open spec fn mul_spec(self, rhs: i16) -> Money {
        Money::of(self@ * rhs)
    }
}

impl core::ops::Mul<Money> for i16 {
    type Output = Money;

    /// An `i16` factor times the amount; the product must fit the signed
    /// 64-bit range.
    fn mul(self, rhs: Money) -> (product: Money)
        ensures
            product@ == self * rhs@,
    {
        proof {
            vstd::arithmetic::mul::lemma_mul_is_commutative(self as int, rhs@);
        }
        match rhs.checked_mul(self as i64) {
            Ok(m) => {
                proof {
                    m.lemma_view();
                }
                m
            },
            Err(_) => unreached(),
        }
    }
}

impl vstd::std_specs::ops::MulSpecImpl<Money> for i16 {
    open spec fn obeys_mul_spec() -> bool {
        true
    }

    open spec fn mul_req(self, rhs: Money) -> bool {
        in_range(self * rhs@)
    }

    open spec fn mul_spec(self, rhs: Money) -> Money {
        Money::of(self * rhs@)
    }
}

impl core::ops::Div<i16> for Money {
    type Output = Money;

    /// The amount divided by an `i16` divisor, rounded toward zero. The
    /// divisor must not be zero and the quotient must fit the signed 64-bit
    /// range.
    fn div(self, rhs: i16) -> (quotient: Money)
        ensures
            quotient@ == trunc_div(self@, rhs as int),
    {
        match self.checked_div(rhs as i64) {
            Ok(m) => {
                proof {
                    m.lemma_view();
                }
                m
            },
            Err(_) => unreached(),
        }
    }
}

impl vstd::std_specs::ops::DivSpecImpl<i16> for Money {
    open spec fn obeys_div_spec() -> bool {
        true
    }

    open spec fn div_req(self, rhs: i16) -> bool {
        rhs != 0 && in_range(trunc_div(self@, rhs as int))
    }

    open spec fn div_spec(self, rhs: i16) -> Money {
        Money::of(trunc_div(self@, rhs as int))
    }
}

impl core::ops::Mul<i8> for Money {
    type Output = Money;

    /// The amount times an `i8` factor; the product must fit the signed
    /// 64-bit range.
    fn mul(self, rhs: i8) -> (product: Money)
        ensures
            product@ == self@ * rhs,
    {
        match self.checked_mul(rhs as i64) {
            Ok(m) => {
                proof {
                    m.lemma_view();
                }
                m
            },
            Err(_) => unreached(),
        }
    }
}

impl vstd::std_specs::ops::MulSpecImpl<i8> for Money {
    open spec fn obeys_mul_spec() -> bool {
        true
    }

    open spec fn mul_req(self, rhs: i8) -> bool {
        in_range(self@ * rhs)
    }

    open spec fn mul_spec(self, rhs: i8) -> Money {
        Money::of(self@ * rhs)
    }
}

impl core::ops::Mul<Money> for i8 {
    type Output = Money;

    /// An `i8` factor times the amount; the product must fit the signed
    /// 64-bit range.
    fn mul(self, rhs: Money) -> (product: Money)
        ensures
            product@ == self * rhs@,
    {
        proof {
            vstd::arithmetic::mul::lemma_mul_is_commutative(self as int, rhs@);
        }
        match rhs.checked_mul(self as i64) {
            Ok(m) => {
                proof {
                    m.lemma_view();
                }
                m
            },
            Err(_) => unreached(),
        }
    }
}

impl vstd::std_specs::ops::MulSpecImpl<Money> for i8 {
    open spec fn obeys_mul_spec() -> bool {
        true
    }

    open spec fn mul_req(self, rhs: Money) -> bool {
        in_range(self * rhs@)
    }

    open spec fn mul_spec(self, rhs: Money) -> Money {
        Money::of(self * rhs@)
    }
}

impl core::ops::Div<i8> for Money {
    type Output = Money;

    /// The amount divided by an `i8` divisor, rounded toward zero. The
    /// divisor must not be zero and the quotient must fit the signed 64-bit
    /// range.
    fn div(self, rhs: i8) -> (quotient: Money)
        ensures
            quotient@ == trunc_div(self@, rhs as int),
    {
        match self.checked_div(rhs as i64) {
            Ok(m) => {
                proof {
                    m.lemma_view();
                }
                m
            },
            Err(_) => unreached(),
        }
    }
}

impl vstd::std_specs::ops::DivSpecImpl<i8> for Money {
    open spec fn obeys_div_spec() -> bool {
        true
    }

    open spec fn div_req(self, rhs: i8) -> bool {
        rhs != 0 && in_range(trunc_div(self@, rhs as int))
    }

    open spec fn div_spec(self, rhs: i8) -> Money {
        Money::of(trunc_div(self@, rhs as int))
    }
}

impl core::ops::Mul<u32> for Money {
    type Output = Money;

    /// The amount times an `u32` factor; the product must fit the signed
    /// 64-bit range.
    fn mul(self, rhs: u32) -> (product: Money)
        ensures
            product@ == self@ * rhs,
    {
        match self.checked_mul(rhs as i64) {
            Ok(m) => {
                proof {
                    m.lemma_view();
                }
                m
            },
            Err(_) => unreached(),
        }
    }
}

impl vstd::std_specs::ops::MulSpecImpl<u32> for Money {
    open spec fn obeys_mul_spec() -> bool {
        true
    }

    open spec fn mul_req(self, rhs: u32) -> bool {
        in_range(self@ * rhs)
    }

    open spec fn mul_spec(self, rhs: u32) -> Money {
        Money::of(self@ * rhs)
    }
}

impl core::ops::Mul<Money> for u32 {
    type Output = Money;

    /// An `u32` factor times the amount; the product must fit the signed
    /// 64-bit range.
    fn mul(self, rhs: Money) -> (product: Money)
        ensures
            product@ == self * rhs@,
    {
        proof {
            vstd::arithmetic::mul::lemma_mul_is_commutative(self as int, rhs@);
        }
        match rhs.checked_mul(self as i64) {
            Ok(m) => {
                proof {
                    m.lemma_view();
                }
                m
            },
            Err(_) => unreached(),
        }
    }
}

impl vstd::std_specs::ops::MulSpecImpl<Money> for u32 {
    open spec fn obeys_mul_spec() -> bool {
        true
    }

    open spec fn mul_req(self, rhs: Money) -> bool {
        in_range(self * rhs@)
    }

    open spec fn mul_spec(self, rhs: Money) -> Money {
        Money::of(self * rhs@)
    }
}

impl core::ops::Div<u32> for Money {
    type Output = Money;

    /// The amount divided by an `u32` divisor, rounded toward zero. The
    /// divisor must not be zero and the quotient must fit the signed 64-bit
    /// range.
    fn div(self, rhs: u32) -> (quotient: Money)
        ensures
            quotient@ == trunc_div(self@, rhs as int),
    {
        match self.checked_div(rhs as i64) {
            Ok(m) => {
                proof {
                    m.lemma_view();
                }
                m
            },
            Err(_) => unreached(),
        }
    }
}

impl vstd::std_specs::ops::DivSpecImpl<u32> for Money {
    open spec fn obeys_div_spec() -> bool {
        true
    }

    open spec fn div_req(self, rhs: u32) -> bool {
        rhs != 0 && in_range(trunc_div(self@, rhs as int))
    }

    open spec fn div_spec(self, rhs: u32) -> Money {
        Money::of(trunc_div(self@, rhs as int))
    }
}

impl core::ops::Mul<u16> for Money {
    type Output = Money;

    /// The amount times an `u16` factor; the product must fit the signed
    /// 64-bit range.
    fn mul(self, rhs: u16) -> (product: Money)
        ensures
            product@ == self@ * rhs,
    {
        match self.checked_mul(rhs as i64) {
            Ok(m) => {
                proof {
                    m.lemma_view();
                }
                m
            },
            Err(_) => unreached(),
        }
    }
}

impl vstd::std_specs::ops::MulSpecImpl<u16> for Money {
    open spec fn obeys_mul_spec() -> bool {
        true
    }

    open spec fn mul_req(self, rhs: u16) -> bool {
        in_range(self@ * rhs)
    }

    open spec fn mul_spec(self, rhs: u16) -> Money {
        Money::of(self@ * rhs)
    }
}

impl core::ops::Mul<Money> for u16 {
    type Output = Money;

    /// An `u16` factor times the amount; the product must fit the signed
    /// 64-bit range.
    fn mul(self, rhs: Money) -> (product: Money)
        ensures
            product@ == self * rhs@,
    {
        proof {
            vstd::arithmetic::mul::lemma_mul_is_commutative(self as int, rhs@);
        }
        match rhs.checked_mul(self as i64) {
            Ok(m) => {
                proof {
                    m.lemma_view();
                }
                m
            },
            Err(_) => unreached(),
        }
    }
}

impl vstd::std_specs::ops::MulSpecImpl<Money> for u16 {
    open spec fn obeys_mul_spec() -> bool {
        true
    }

    open spec fn mul_req(self, rhs: Money) -> bool {
        in_range(self * rhs@)
    }

    open spec fn mul_spec(self, rhs: Money) -> Money {
        Money::of(self * rhs@)
    }
}

impl core::ops::Div<u16> for Money {
    type Output = Money;

    /// The amount divided by an `u16` divisor, rounded toward zero. The
    /// divisor must not be zero and the quotient must fit the signed 64-bit
    /// range.
    fn div(self, rhs: u16) -> (quotient: Money)
        ensures
            quotient@ == trunc_div(self@, rhs as int),
    {
        match self.checked_div(rhs as i64) {
            Ok(m) => {
                proof {
                    m.lemma_view();
                }
                m
            },
            Err(_) => unreached(),
        }
    }
}

impl vstd::std_specs::ops::DivSpecImpl<u16> for Money {
    open spec fn obeys_div_spec() -> bool {
        true
    }

    open spec fn div_req(self, rhs: u16) -> bool {
        rhs != 0 && in_range(trunc_div(self@, rhs as int))
    }

    open spec fn div_spec(self, rhs: u16) -> Money {
        Money::of(trunc_div(self@, rhs as int))
    }
}

impl core::ops::Mul<u8> for Money {
    type Output = Money;

    /// The amount times an `u8` factor; the product must fit the signed
    /// 64-bit range.
    fn mul(self, rhs: u8) -> (product: Money)
        ensures
            product@ == self@ * rhs,
    {
        match self.checked_mul(rhs as i64) {
            Ok(m) => {
                proof {
                    m.lemma_view();
                }
                m
            },
            Err(_) => unreached(),
        }
    }
}

impl vstd::std_specs::ops::MulSpecImpl<u8> for Money {
    open spec fn obeys_mul_spec() -> bool {
        true
    }

    open spec fn mul_req(self, rhs: u8) -> bool {
        in_range(self@ * rhs)
    }

    open spec fn mul_spec(self, rhs: u8) -> Money {
        Money::of(self@ * rhs)
    }
}

impl core::ops::Mul<Money> for u8 {
    type Output = Money;

    /// An `u8` factor times the amount; the product must fit the signed
    /// 64-bit range.
    fn mul(self, rhs: Money) -> (product: Money)
        ensures
            product@ == self * rhs@,
    {
        proof {
            vstd::arithmetic::mul::lemma_mul_is_commutative(self as int, rhs@);
        }
        match rhs.checked_mul(self as i64) {
            Ok(m) => {
                proof {
                    m.lemma_view();
                }
                m
            },
            Err(_) => unreached(),
        }
    }
}

impl vstd::std_specs::ops::MulSpecImpl<Money> for u8 {
    open spec fn obeys_mul_spec() -> bool {
        true
    }

    open spec fn mul_req(self, rhs: Money) -> bool {
        in_range(self * rhs@)
    }

    open spec fn mul_spec(self, rhs: Money) -> Money {
        Money::of(self * rhs@)
    }
}

impl core::ops::Div<u8> for Money {
    type Output = Money;

    /// The amount divided by an `u8` divisor, rounded toward zero. The
    /// divisor must not be zero and the quotient must fit the signed 64-bit
    /// range.
    fn div(self, rhs: u8) -> (quotient: Money)
        ensures
            quotient@ == trunc_div(self@, rhs as int),
    {
        match self.checked_div(rhs as i64) {
            Ok(m) => {
                proof {
                    m.lemma_view();
                }
                m
            },
            Err(_) => unreached(),
        }
    }
}

impl vstd::std_specs::ops::DivSpecImpl<u8> for Money {
    open spec fn obeys_div_spec() -> bool {
        true
    }

    open spec fn div_req(self, rhs: u8) -> bool {
        rhs != 0 && in_range(trunc_div(self@, rhs as int))
    }

    open spec fn div_spec(self, rhs: u8) -> Money {
        Money::of(trunc_div(self@, rhs as int))
    }
}

/// Addition does not depend on the order of its operands: where one order is
/// allowed so is the other, and both give the same amount.
pub proof fn lemma_add_commutative(a: Money, b: Money)
    requires
        a.add_req(b),
    ensures
        b.add_req(a),
        a.add_spec(b) == b.add_spec(a),
{
}

/// Taking away what was added gives the first amount back.
pub proof fn lemma_sub_undoes_add(a: Money, b: Money)
    requires
        a.add_req(b),
    ensures
        a.add_spec(b).sub_req(b),
        a.add_spec(b).sub_spec(b) == a,
{
    Money::lemma_of(a@ + b@);
    a.lemma_view();
}

/// An `i64` factor may stand on either side of the amount: where one order
/// is allowed so is the other, and both give the same amount.
pub proof fn lemma_mul_commutative_i64(v: Money, k: i64)
    ensures
        v.mul_req(k) == k.mul_req(v),
        v.mul_spec(k) == k.mul_spec(v),
{
    vstd::arithmetic::mul::lemma_mul_is_commutative(v@, k as int);
}

/// An `i32` factor may stand on either side of the amount: where one order
/// is allowed so is the other, and both give the same amount.
pub proof fn lemma_mul_commutative_i32(v: Money, k: i32)
    ensures
        v.mul_req(k) == k.mul_req(v),
        v.mul_spec(k) == k.mul_spec(v),
{
    vstd::arithmetic::mul::lemma_mul_is_commutative(v@, k as int);
}

/// An `i16` factor may stand on either side of the amount: where one order
/// is allowed so is the other, and both give the same amount.
pub proof fn lemma_mul_commutative_i16(v: Money, k: i16)
    ensures
        v.mul_req(k) == k.mul_req(v),
        v.mul_spec(k) == k.mul_spec(v),
{
    vstd::arithmetic::mul::lemma_mul_is_commutative(v@, k as int);
}

/// An `i8` factor may stand on either side of the amount: where one order
/// is allowed so is the other, and both give the same amount.
pub proof fn lemma_mul_commutative_i8(v: Money, k: i8)
    ensures
        v.mul_req(k) == k.mul_req(v),
        v.mul_spec(k) == k.mul_spec(v),
{
    vstd::arithmetic::mul::lemma_mul_is_commutative(v@, k as int);
}

/// An `u32` factor may stand on either side of the amount: where one order
/// is allowed so is the other, and both give the same amount.
pub proof fn lemma_mul_commutative_u32(v: Money, k: u32)
    ensures
        v.mul_req(k) == k.mul_req(v),
        v.mul_spec(k) == k.mul_spec(v),
{
    vstd::arithmetic::mul::lemma_mul_is_commutative(v@, k as int);
}

/// An `u16` factor may stand on either side of the amount: where one order
/// is allowed so is the other, and both give the same amount.
pub proof fn lemma_mul_commutative_u16(v: Money, k: u16)
    ensures
        v.mul_req(k) == k.mul_req(v),
        v.mul_spec(k) == k.mul_spec(v),
{
    vstd::arithmetic::mul::lemma_mul_is_commutative(v@, k as int);
}

/// An `u8` factor may stand on either side of the amount: where one order
/// is allowed so is the other, and both give the same amount.
pub proof fn lemma_mul_commutative_u8(v: Money, k: u8)
    ensures
        v.mul_req(k) == k.mul_req(v),
        v.mul_spec(k) == k.mul_spec(v),
{
    vstd::arithmetic::mul::lemma_mul_is_commutative(v@, k as int);
}

/// Division by a whole divisor rounds toward zero: the quotient times the
/// divisor differs from the amount by less than the divisor, and never
/// overshoots the amount.
pub proof fn lemma_div_truncates(v: Money, k: i64)
    requires
        v.div_req(k),
    ensures
        v@ >= 0 ==> 0 <= v@ - v.div_spec(k)@ * k,
        v@ <= 0 ==> v@ - v.div_spec(k)@ * k <= 0,
        k > 0 ==> -k < v@ - v.div_spec(k)@ * k < k,
        k < 0 ==> k < v@ - v.div_spec(k)@ * k < -k,
{
    Money::lemma_of(trunc_div(v@, k as int));
    lemma_trunc_div_remainder(v@, k as int);
}

} // verus!
