//! The operators on [`Currencies`]: each field of the result is held to the bounds of
//! [`Currency`]. Every operator takes its operands by value or by reference.

use crate::arith::{saturating_add, saturating_div, saturating_mul, saturating_sub};
use crate::currencies::Currencies;
use crate::types::Currency;
use vstd::prelude::*;
use vstd::std_specs::ops::{AddSpecImpl, DivSpecImpl, MulSpecImpl, SubSpecImpl};

verus! {

impl core::ops::Add<Currencies> for Currencies {
    type Output = Currencies;

    fn add(self, rhs: Currencies) -> (sum: Currencies) {
        Currencies {
            keys: saturating_add(self.keys, rhs.keys),
            weapons: saturating_add(self.weapons, rhs.weapons),
        }
    }
}

impl AddSpecImpl<Currencies> for Currencies {
    open spec fn obeys_add_spec() -> bool {
        true
    }

    open spec fn add_req(self, rhs: Currencies) -> bool {
        true
    }

    open spec fn add_spec(self, rhs: Currencies) -> Currencies {
        self.saturating_sum(rhs)
    }
}

impl<'b> core::ops::Add<&'b Currencies> for Currencies {
    type Output = Currencies;

    fn add(self, rhs: &'b Currencies) -> (sum: Currencies) {
        self + *rhs
    }
}

impl<'b> AddSpecImpl<&'b Currencies> for Currencies {
    open spec fn obeys_add_spec() -> bool {
        true
    }

    open spec fn add_req(self, rhs: &'b Currencies) -> bool {
        true
    }

    open spec fn add_spec(self, rhs: &'b Currencies) -> Currencies {
        self.saturating_sum(*rhs)
    }
}

impl<'a> core::ops::Add<Currencies> for &'a Currencies {
    type Output = Currencies;

    fn add(self, rhs: Currencies) -> (sum: Currencies) {
        *self + rhs
    }
}

impl<'a> AddSpecImpl<Currencies> for &'a Currencies {
    open spec fn obeys_add_spec() -> bool {
        true
    }

    open spec fn add_req(self, rhs: Currencies) -> bool {
        true
    }

    open spec fn add_spec(self, rhs: Currencies) -> Currencies {
        self.saturating_sum(rhs)
    }
}

impl<'a, 'b> core::ops::Add<&'b Currencies> for &'a Currencies {
    type Output = Currencies;

    fn add(self, rhs: &'b Currencies) -> (sum: Currencies) {
        *self + *rhs
    }
}

impl<'a, 'b> AddSpecImpl<&'b Currencies> for &'a Currencies {
    open spec fn obeys_add_spec() -> bool {
        true
    }

    open spec fn add_req(self, rhs: &'b Currencies) -> bool {
        true
    }

    open spec fn add_spec(self, rhs: &'b Currencies) -> Currencies {
        self.saturating_sum(*rhs)
    }
}

impl core::ops::Sub<Currencies> for Currencies {
    type Output = Currencies;

    fn sub(self, rhs: Currencies) -> (difference: Currencies) {
        Currencies {
            keys: saturating_sub(self.keys, rhs.keys),
            weapons: saturating_sub(self.weapons, rhs.weapons),
        }
    }
}

impl SubSpecImpl<Currencies> for Currencies {
    open spec fn obeys_sub_spec() -> bool {
        true
    }

    open spec fn sub_req(self, rhs: Currencies) -> bool {
        true
    }

    open spec fn sub_spec(self, rhs: Currencies) -> Currencies {
        self.saturating_difference(rhs)
    }
}

impl<'b> core::ops::Sub<&'b Currencies> for Currencies {
    type Output = Currencies;

    fn sub(self, rhs: &'b Currencies) -> (difference: Currencies) {
        self - *rhs
    }
}

impl<'b> SubSpecImpl<&'b Currencies> for Currencies {
    open spec fn obeys_sub_spec() -> bool {
        true
    }

    open spec fn sub_req(self, rhs: &'b Currencies) -> bool {
        true
    }

    open spec fn sub_spec(self, rhs: &'b Currencies) -> Currencies {
        self.saturating_difference(*rhs)
    }
}

impl<'a> core::ops::Sub<Currencies> for &'a Currencies {
    type Output = Currencies;

    fn sub(self, rhs: Currencies) -> (difference: Currencies) {
        *self - rhs
    }
}

impl<'a> SubSpecImpl<Currencies> for &'a Currencies {
    open spec fn obeys_sub_spec() -> bool {
        true
    }

    open spec fn sub_req(self, rhs: Currencies) -> bool {
        true
    }

    open spec fn sub_spec(self, rhs: Currencies) -> Currencies {
        self.saturating_difference(rhs)
    }
}

impl<'a, 'b> core::ops::Sub<&'b Currencies> for &'a Currencies {
    type Output = Currencies;

    fn sub(self, rhs: &'b Currencies) -> (difference: Currencies) {
        *self - *rhs
    }
}

impl<'a, 'b> SubSpecImpl<&'b Currencies> for &'a Currencies {
    open spec fn obeys_sub_spec() -> bool {
        true
    }

    open spec fn sub_req(self, rhs: &'b Currencies) -> bool {
        true
    }

    open spec fn sub_spec(self, rhs: &'b Currencies) -> Currencies {
        self.saturating_difference(*rhs)
    }
}

impl core::ops::Mul<Currency> for Currencies {
    type Output = Currencies;

    fn mul(self, rhs: Currency) -> (product: Currencies) {
        Currencies {
            keys: saturating_mul(self.keys, rhs),
            weapons: saturating_mul(self.weapons, rhs),
        }
    }
}

impl MulSpecImpl<Currency> for Currencies {
    open spec fn obeys_mul_spec() -> bool {
        true
    }

    open spec fn mul_req(self, rhs: Currency) -> bool {
        true
    }

    open spec fn mul_spec(self, rhs: Currency) -> Currencies {
        self.saturating_product(rhs)
    }
}

impl<'a> core::ops::Mul<Currency> for &'a Currencies {
    type Output = Currencies;

    fn mul(self, rhs: Currency) -> (product: Currencies) {
        *self * rhs
    }
}

impl<'a> MulSpecImpl<Currency> for &'a Currencies {
    open spec fn obeys_mul_spec() -> bool {
        true
    }

    open spec fn mul_req(self, rhs: Currency) -> bool {
        true
    }

    open spec fn mul_spec(self, rhs: Currency) -> Currencies {
        self.saturating_product(rhs)
    }
}

impl core::ops::Div<Currency> for Currencies {
    type Output = Currencies;

    fn div(self, rhs: Currency) -> (quotient: Currencies) {
        Currencies {
            keys: saturating_div(self.keys, rhs),
            weapons: saturating_div(self.weapons, rhs),
        }
    }
}

impl DivSpecImpl<Currency> for Currencies {
    open spec fn obeys_div_spec() -> bool {
        true
    }

    open spec fn div_req(self, rhs: Currency) -> bool {
        rhs != 0
    }

    open spec fn div_spec(self, rhs: Currency) -> Currencies {
        self.saturating_quotient(rhs)
    }
}

impl<'a> core::ops::Div<Currency> for &'a Currencies {
    type Output = Currencies;

    fn div(self, rhs: Currency) -> (quotient: Currencies) {
        *self / rhs
    }
}

impl<'a> DivSpecImpl<Currency> for &'a Currencies {
    open spec fn obeys_div_spec() -> bool {
        true
    }

    open spec fn div_req(self, rhs: Currency) -> bool {
        rhs != 0
    }

    open spec fn div_spec(self, rhs: Currency) -> Currencies {
        self.saturating_quotient(rhs)
    }
}

} // verus!
