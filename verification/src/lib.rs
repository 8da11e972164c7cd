//! Values of the two trading currencies, keys and metal, and of cash.
//!
//! Metal is counted in weapons, the smallest unit: two weapons make a scrap, three scrap a
//! reclaimed and three reclaimed a refined. [`Currencies`] holds a number of keys and a number
//! of weapons, [`USDCurrencies`] a number of cents. The price of a key is never stored: every
//! conversion between keys and metal takes it as an argument, counted in weapons.
//!
//! The operators saturate at the bounds of [`Currency`]; the `checked_` methods give `None`
//! where a result would leave them. Text is read and written in exact decimal arithmetic.

pub mod arith;
pub mod constants;
pub mod currencies;
pub mod currencies_ops;
pub mod error;
pub mod grammar;
pub mod helpers;
pub mod laws;
pub mod numeral;
pub mod numeral_lemmas;
pub mod rounding;
pub mod scan;
pub mod types;
pub mod usd_currencies;
pub mod usd_currencies_ops;

pub use constants::{reclaimed, refined, scrap, ONE_REC, ONE_REF, ONE_SCRAP, ONE_WEAPON};
pub use currencies::Currencies;
pub use rounding::Rounding;
pub use types::Currency;
pub use usd_currencies::USDCurrencies;
