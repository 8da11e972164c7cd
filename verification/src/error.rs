use vstd::prelude::*;

verus! {

/// Why a numeral could not be read.
#[derive(Debug, PartialEq, Eq, Clone, Copy, Structural)]
pub enum NumberError {
    /// The numeral is the empty text.
    Empty,
    /// The numeral has no digit, or holds a character that cannot stand where it does.
    InvalidDigit,
    /// The number is above the greatest value of [`Currency`](crate::types::Currency).
    PosOverflow,
    /// The number is below the least value of [`Currency`](crate::types::Currency).
    NegOverflow,
}

/// An error occurred parsing a string into a currency.
#[derive(Debug, PartialEq, Eq, Clone, Copy, Structural)]
pub enum ParseError {
    /// String was invalid.
    NoCurrenciesDetected,
    /// A number was expected, but none was found.
    MissingCount,
    /// A currency name was expected, but none was found.
    MissingCurrencyName,
    /// An unexpected element was found.
    UnexpectedToken,
    /// An invalid currency name was found.
    InvalidCurrencyName,
    /// A count of keys is no integer numeral.
    ParseInt(NumberError),
    /// A count of metal is no decimal numeral.
    ParseFloat(NumberError),
}

} // verus!
