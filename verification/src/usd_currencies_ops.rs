//! The operators on [`USDCurrencies`]: each field of the result is held to the bounds of
//! [`Currency`]. Every operator takes its operands by value or by reference.

use crate::arith::{saturating_add, saturating_div, saturating_mul, saturating_sub};
use crate::usd_currencies::USDCurrencies;
use crate::types::Currency;
use vstd::prelude::*;
use vstd::std_specs::ops::{AddSpecImpl, DivSpecImpl, MulSpecImpl, SubSpecImpl};

verus! {

impl core::ops::Add<USDCurrencies> for USDCurrencies {
    type Output = USDCurrencies;

    fn add(self, rhs: USDCurrencies) -> (sum: USDCurrencies) {
        USDCurrencies { usd: saturating_add(self.usd, rhs.usd) }
    }
}

impl AddSpecImpl<USDCurrencies> for USDCurrencies {
    open spec fn obeys_add_spec() -> bool {
        true
    }

    open spec fn add_req(self, rhs: USDCurrencies) -> bool {
        true
    }

    open spec fn add_spec(self, rhs: USDCurrencies) -> USDCurrencies {
        self.saturating_sum(rhs)
    }
}

impl<'b> core::ops::Add<&'b USDCurrencies> for USDCurrencies {
    type Output = USDCurrencies;

    fn add(self, rhs: &'b USDCurrencies) -> (sum: USDCurrencies) {
        self + *rhs
    }
}

impl<'b> AddSpecImpl<&'b USDCurrencies> for USDCurrencies {
    open spec fn obeys_add_spec() -> bool {
        true
    }

    open spec fn add_req(self, rhs: &'b USDCurrencies) -> bool {
        true
    }

    open spec fn add_spec(self, rhs: &'b USDCurrencies) -> USDCurrencies {
        self.saturating_sum(*rhs)
    }
}

impl<'a> core::ops::Add<USDCurrencies> for &'a USDCurrencies {
    type Output = USDCurrencies;

    fn add(self, rhs: USDCurrencies) -> (sum: USDCurrencies) {
        *self + rhs
    }
}

impl<'a> AddSpecImpl<USDCurrencies> for &'a USDCurrencies {
    open spec fn obeys_add_spec() -> bool {
        true
    }

    open spec fn add_req(self, rhs: USDCurrencies) -> bool {
        true
    }

    open spec fn add_spec(self, rhs: USDCurrencies) -> USDCurrencies {
        self.saturating_sum(rhs)
    }
}

impl<'a, 'b> core::ops::Add<&'b USDCurrencies> for &'a USDCurrencies {
    type Output = USDCurrencies;

    fn add(self, rhs: &'b USDCurrencies) -> (sum: USDCurrencies) {
        *self + *rhs
    }
}

impl<'a, 'b> AddSpecImpl<&'b USDCurrencies> for &'a USDCurrencies {
    open spec fn obeys_add_spec() -> bool {
        true
    }

    open spec fn add_req(self, rhs: &'b USDCurrencies) -> bool {
        true
    }

    open spec fn add_spec(self, rhs: &'b USDCurrencies) -> USDCurrencies {
        self.saturating_sum(*rhs)
    }
}

impl core::ops::Sub<USDCurrencies> for USDCurrencies {
    type Output = USDCurrencies;

    fn sub(self, rhs: USDCurrencies) -> (difference: USDCurrencies) {
        USDCurrencies { usd: saturating_sub(self.usd, rhs.usd) }
    }
}

impl SubSpecImpl<USDCurrencies> for USDCurrencies {
    open spec fn obeys_sub_spec() -> bool {
        true
    }

    open spec fn sub_req(self, rhs: USDCurrencies) -> bool {
        true
    }

    open spec fn sub_spec(self, rhs: USDCurrencies) -> USDCurrencies {
        self.saturating_difference(rhs)
    }
}

impl<'b> core::ops::Sub<&'b USDCurrencies> for USDCurrencies {
    type Output = USDCurrencies;

    fn sub(self, rhs: &'b USDCurrencies) -> (difference: USDCurrencies) {
        self - *rhs
    }
}

impl<'b> SubSpecImpl<&'b USDCurrencies> for USDCurrencies {
    open spec fn obeys_sub_spec() -> bool {
        true
    }

    open spec fn sub_req(self, rhs: &'b USDCurrencies) -> bool {
        true
    }

    open spec fn sub_spec(self, rhs: &'b USDCurrencies) -> USDCurrencies {
        self.saturating_difference(*rhs)
    }
}

impl<'a> core::ops::Sub<USDCurrencies> for &'a USDCurrencies {
    type Output = USDCurrencies;

    fn sub(self, rhs: USDCurrencies) -> (difference: USDCurrencies) {
        *self - rhs
    }
}

impl<'a> SubSpecImpl<USDCurrencies> for &'a USDCurrencies {
    open spec fn obeys_sub_spec() -> bool {
        true
    }

    open spec fn sub_req(self, rhs: USDCurrencies) -> bool {
        true
    }

    open spec fn sub_spec(self, rhs: USDCurrencies) -> USDCurrencies {
        self.saturating_difference(rhs)
    }
}

impl<'a, 'b> core::ops::Sub<&'b USDCurrencies> for &'a USDCurrencies {
    type Output = USDCurrencies;

    fn sub(self, rhs: &'b USDCurrencies) -> (difference: USDCurrencies) {
        *self - *rhs
    }
}

impl<'a, 'b> SubSpecImpl<&'b USDCurrencies> for &'a USDCurrencies {
    open spec fn obeys_sub_spec() -> bool {
        true
    }

    open spec fn sub_req(self, rhs: &'b USDCurrencies) -> bool {
        true
    }

    open spec fn sub_spec(self, rhs: &'b USDCurrencies) -> USDCurrencies {
        self.saturating_difference(*rhs)
    }
}

impl core::ops::Mul<Currency> for USDCurrencies {
    type Output = USDCurrencies;

    fn mul(self, rhs: Currency) -> (product: USDCurrencies) {
        USDCurrencies { usd: saturating_mul(self.usd, rhs) }
    }
}

impl MulSpecImpl<Currency> for USDCurrencies {
    open spec fn obeys_mul_spec() -> bool {
        true
    }

    open spec fn mul_req(self, rhs: Currency) -> bool {
        true
    }

    open spec fn mul_spec(self, rhs: Currency) -> USDCurrencies {
        self.saturating_product(rhs)
    }
}

impl<'a> core::ops::Mul<Currency> for &'a USDCurrencies {
    type Output = USDCurrencies;

    fn mul(self, rhs: Currency) -> (product: USDCurrencies) {
        *self * rhs
    }
}

impl<'a> MulSpecImpl<Currency> for &'a USDCurrencies {
    open spec fn obeys_mul_spec() -> bool {
        true
    }

    open spec fn mul_req(self, rhs: Currency) -> bool {
        true
    }

    open spec fn mul_spec(self, rhs: Currency) -> USDCurrencies {
        self.saturating_product(rhs)
    }
}

impl core::ops::Div<Currency> for USDCurrencies {
    type Output = USDCurrencies;

    fn div(self, rhs: Currency) -> (quotient: USDCurrencies) {
        USDCurrencies { usd: saturating_div(self.usd, rhs) }
    }
}

impl DivSpecImpl<Currency> for USDCurrencies {
    open spec fn obeys_div_spec() -> bool {
        true
    }

    open spec fn div_req(self, rhs: Currency) -> bool {
        rhs != 0
    }

    open spec fn div_spec(self, rhs: Currency) -> USDCurrencies {
        self.saturating_quotient(rhs)
    }
}

impl<'a> core::ops::Div<Currency> for &'a USDCurrencies {
    type Output = USDCurrencies;

    fn div(self, rhs: Currency) -> (quotient: USDCurrencies) {
        *self / rhs
    }
}

impl<'a> DivSpecImpl<Currency> for &'a USDCurrencies {
    open spec fn obeys_div_spec() -> bool {
        true
    }

    open spec fn div_req(self, rhs: Currency) -> bool {
        rhs != 0
    }

    open spec fn div_spec(self, rhs: Currency) -> USDCurrencies {
        self.saturating_quotient(rhs)
    }
}

} // verus!
