use crate::types::Currency;
use vstd::prelude::*;

verus! {

/// Value for one weapon.
pub const ONE_WEAPON: Currency = 1;

/// Value for one scrap metal.
pub const ONE_SCRAP: Currency = 2;

/// Value for one reclaimed metal.
pub const ONE_REC: Currency = 6;

/// Value for one refined metal.
pub const ONE_REF: Currency = 18;

/// Symbol for one key.
pub const KEY_SYMBOL: &'static str = "key";

/// Symbol for multiple keys.
pub const KEYS_SYMBOL: &'static str = "keys";

/// Symbol for metal.
pub const METAL_SYMBOL: &'static str = "ref";

/// The value in weapons of `count` refined metal.
pub fn refined(count: Currency) -> (weapons: Currency)
    requires
        Currency::MIN <= count * 18 <= Currency::MAX,
    ensures
        weapons == count * 18,
{
    count * ONE_REF
}

/// The value in weapons of `count` reclaimed metal.
pub fn reclaimed(count: Currency) -> (weapons: Currency)
    requires
        Currency::MIN <= count * 6 <= Currency::MAX,
    ensures
        weapons == count * 6,
{
    count * ONE_REC
}

/// The value in weapons of `count` scrap metal.
pub fn scrap(count: Currency) -> (weapons: Currency)
    requires
        Currency::MIN <= count * 2 <= Currency::MAX,
    ensures
        weapons == count * 2,
{
    count * ONE_SCRAP
}

} // verus!
