use tf2_price::error::{NumberError, ParseError};
use tf2_price::helpers::{
    parse_currencies, parse_currency_from_string, print_amounts, thousands,
};
use tf2_price::numeral::{
    chars_of, is_digit_char, magnitude, parse_int, parse_metal, push_cents, push_int, push_metal,
    push_nat, push_sign,
};
use tf2_price::scan::{is_space_char, lower_char};
use tf2_price::{refined, Currencies, Currency, USDCurrencies};

fn metal_numeral(weapons: Currency) -> String {
    let mut numeral = String::new();
    push_metal(&mut numeral, weapons);
    numeral
}

#[test]
fn writes_integers() {
    let mut text = String::from("n=");

    push_int(&mut text, 0);
    push_int(&mut text, -7);
    push_int(&mut text, 1203);
    assert_eq!(text, "n=0-71203");

    let mut least = String::new();
    push_int(&mut least, Currency::MIN);
    assert_eq!(least, "-9223372036854775808");

    let mut greatest = String::new();
    push_int(&mut greatest, Currency::MAX);
    assert_eq!(greatest, "9223372036854775807");
}

#[test]
fn reads_integers() {
    assert_eq!(parse_int("0"), Ok(0));
    assert_eq!(parse_int("+5"), Ok(5));
    assert_eq!(parse_int("-5"), Ok(-5));
    assert_eq!(parse_int("0007"), Ok(7));
    assert_eq!(parse_int("9223372036854775807"), Ok(Currency::MAX));
    assert_eq!(parse_int("-9223372036854775808"), Ok(Currency::MIN));
    assert_eq!(parse_int("000000000000000000000000000000000000042"), Ok(42));
}

#[test]
fn refuses_what_is_no_integer() {
    assert_eq!(parse_int(""), Err(NumberError::Empty));
    assert_eq!(parse_int("-"), Err(NumberError::InvalidDigit));
    assert_eq!(parse_int("+"), Err(NumberError::InvalidDigit));
    assert_eq!(parse_int("--5"), Err(NumberError::InvalidDigit));
    assert_eq!(parse_int("12a"), Err(NumberError::InvalidDigit));
    assert_eq!(parse_int("1.5"), Err(NumberError::InvalidDigit));
    assert_eq!(parse_int(" 1"), Err(NumberError::InvalidDigit));
    assert_eq!(parse_int("1_000"), Err(NumberError::InvalidDigit));
    assert_eq!(parse_int("٣"), Err(NumberError::InvalidDigit));
    assert_eq!(parse_int("9223372036854775808"), Err(NumberError::PosOverflow));
    assert_eq!(parse_int("-9223372036854775809"), Err(NumberError::NegOverflow));
    assert_eq!(parse_int("99999999999999999999999999x"), Err(NumberError::PosOverflow));
    assert_eq!(parse_int("-99999999999999999999999999x"), Err(NumberError::NegOverflow));
}

#[test]
fn writes_metal_in_refined_cut_off_to_two_places() {
    assert_eq!(metal_numeral(0), "0");
    assert_eq!(metal_numeral(1), "0.05");
    assert_eq!(metal_numeral(2), "0.11");
    assert_eq!(metal_numeral(6), "0.33");
    assert_eq!(metal_numeral(9), "0.50");
    assert_eq!(metal_numeral(17), "0.94");
    assert_eq!(metal_numeral(18), "1");
    assert_eq!(metal_numeral(422), "23.44");
    assert_eq!(metal_numeral(-6), "-0.33");
    assert_eq!(metal_numeral(-refined(3)), "-3");
    assert_eq!(metal_numeral(Currency::MAX), "512409557603043100.38");
    assert_eq!(metal_numeral(Currency::MIN), "-512409557603043100.44");
}

#[test]
fn reads_metal_and_rounds_to_the_nearest_weapon() {
    assert_eq!(parse_metal("23.44"), Ok(422));
    assert_eq!(parse_metal("0.33"), Ok(6));
    assert_eq!(parse_metal("-0.33"), Ok(-6));
    assert_eq!(parse_metal("+0.33"), Ok(6));
    assert_eq!(parse_metal("2"), Ok(36));
    assert_eq!(parse_metal("2."), Ok(36));
    assert_eq!(parse_metal(".5"), Ok(9));
    assert_eq!(parse_metal("-.5"), Ok(-9));
    assert_eq!(parse_metal("23.16"), Ok(417));
    assert_eq!(parse_metal("0"), Ok(0));
    assert_eq!(parse_metal("-0.001"), Ok(0));
    assert_eq!(parse_metal("0000.0500000"), Ok(1));
}

#[test]
fn half_a_weapon_goes_away_from_zero() {
    assert_eq!(parse_metal("0.25"), Ok(5));
    assert_eq!(parse_metal("-0.25"), Ok(-5));
    assert_eq!(parse_metal("0.75"), Ok(14));
    assert_eq!(parse_metal("0.0277"), Ok(0));
    assert_eq!(parse_metal("0.02777777777777777777777777777777777777"), Ok(0));
    assert_eq!(parse_metal("0.02777777777777777777777777777777777778"), Ok(1));
    assert_eq!(parse_metal("-0.02777777777777777777777777777777777778"), Ok(-1));
    assert_eq!(parse_metal("0.08333333333333333333333333333333333333"), Ok(1));
    assert_eq!(parse_metal("0.08333333333333333333333333333333333334"), Ok(2));
}

#[test]
fn metal_saturates_at_the_bounds() {
    assert_eq!(parse_metal("512409557603043100.38"), Ok(Currency::MAX));
    assert_eq!(parse_metal("512409557603043100.41"), Ok(Currency::MAX));
    assert_eq!(parse_metal("512409557603043100.36"), Ok(Currency::MAX - 1));
    assert_eq!(parse_metal("-512409557603043100.44"), Ok(Currency::MIN));
    assert_eq!(parse_metal("-512409557603043100.42"), Ok(Currency::MIN));
    assert_eq!(parse_metal("-512409557603043100.39"), Ok(Currency::MIN + 1));
    assert_eq!(parse_metal("600000000000000000"), Ok(Currency::MAX));
    assert_eq!(parse_metal("99999999999999999999999999999999999999999"), Ok(Currency::MAX));
    assert_eq!(parse_metal("-99999999999999999999999999999999999999999.5"), Ok(Currency::MIN));
}

#[test]
fn refuses_what_is_no_decimal_numeral() {
    assert_eq!(parse_metal(""), Err(NumberError::Empty));
    assert_eq!(parse_metal("."), Err(NumberError::InvalidDigit));
    assert_eq!(parse_metal("-"), Err(NumberError::InvalidDigit));
    assert_eq!(parse_metal("-."), Err(NumberError::InvalidDigit));
    assert_eq!(parse_metal("1.2.3"), Err(NumberError::InvalidDigit));
    assert_eq!(parse_metal("1,5"), Err(NumberError::InvalidDigit));
    assert_eq!(parse_metal("1e3"), Err(NumberError::InvalidDigit));
    assert_eq!(parse_metal("inf"), Err(NumberError::InvalidDigit));
    assert_eq!(parse_metal("NaN"), Err(NumberError::InvalidDigit));
    assert_eq!(parse_metal("1.5x"), Err(NumberError::InvalidDigit));
    assert_eq!(parse_metal("x"), Err(NumberError::InvalidDigit));
    assert_eq!(parse_metal("1 "), Err(NumberError::InvalidDigit));
    assert_eq!(
        parse_metal("99999999999999999999999999999999999999999x"),
        Err(NumberError::InvalidDigit),
    );
}

#[test]
fn metal_is_read_back_as_written() {
    for weapons in -2000..2000 {
        assert_eq!(parse_metal(&metal_numeral(weapons)), Ok(weapons));
    }
    for &weapons in [Currency::MIN, Currency::MIN + 1, Currency::MAX - 1, Currency::MAX].iter() {
        assert_eq!(parse_metal(&metal_numeral(weapons)), Ok(weapons));
    }
}

#[test]
fn formats_then_parses_back() {
    let currencies = Currencies { keys: 2, weapons: 422 };

    assert_eq!(currencies.to_string(), "2 keys, 23.44 ref");
    assert_eq!(Currencies::try_from("2 keys, 23.44 ref"), Ok(currencies));

    let amounts = [Currency::MIN, -423, -18, -1, 0, 1, 9, 18, 422, Currency::MAX];
    for &keys in amounts.iter() {
        for &weapons in amounts.iter() {
            let currencies = Currencies { keys, weapons };

            assert_eq!(Currencies::try_from(currencies.to_string()), Ok(currencies));
        }
    }
}

#[test]
fn formats_by_what_is_there() {
    assert_eq!(Currencies { keys: 0, weapons: 9 }.to_string(), "0.50 ref");
    assert_eq!(Currencies { keys: 0, weapons: -6 }.to_string(), "-0.33 ref");
    assert_eq!(Currencies { keys: -1, weapons: 0 }.to_string(), "-1 keys");
    assert_eq!(Currencies { keys: 1, weapons: 0 }.to_string(), "1 key");
    assert_eq!(Currencies { keys: -2, weapons: -refined(3) }.to_string(), "-2 keys, -3 ref");
    assert_eq!(
        Currencies { keys: Currency::MIN, weapons: Currency::MAX }.to_string(),
        "-9223372036854775808 keys, 512409557603043100.38 ref",
    );
}

#[test]
fn prints_amounts_from_their_numerals() {
    assert_eq!(print_amounts("2.26", "keys", "23", true, true), "2.26 keys, 23 ref");
    assert_eq!(print_amounts("0", "keys", "0", false, false), "0 keys, 0 ref");
    assert_eq!(print_amounts("1", "key", "0", true, false), "1 key");
    assert_eq!(print_amounts("0", "keys", "1.33", false, true), "1.33 ref");
}

#[test]
fn parses_clauses_in_any_order_and_case() {
    assert_eq!(
        Currencies::try_from("23.44 ref, 2 keys"),
        Ok(Currencies { keys: 2, weapons: 422 }),
    );
    assert_eq!(
        Currencies::try_from("2 KEYS, 23.44 Ref"),
        Ok(Currencies { keys: 2, weapons: 422 }),
    );
    assert_eq!(Currencies::try_from("1 Key"), Ok(Currencies { keys: 1, weapons: 0 }));
    assert_eq!(Currencies::try_from("5 key"), Ok(Currencies { keys: 5, weapons: 0 }));
    assert_eq!(Currencies::try_from("1 keys"), Ok(Currencies { keys: 1, weapons: 0 }));
    assert_eq!(
        Currencies::try_from("  -2 keys  ,\t1.5 ref \n"),
        Ok(Currencies { keys: -2, weapons: 27 }),
    );
}

#[test]
fn parses_zero_amounts() {
    assert_eq!(Currencies::try_from("0 keys, 0 ref"), Ok(Currencies::new()));
    assert_eq!(Currencies::try_from("0 ref"), Ok(Currencies::new()));
    assert_eq!(Currencies::try_from("0 keys"), Ok(Currencies::new()));
}

#[test]
fn a_later_clause_takes_the_place_of_an_earlier_one() {
    assert_eq!(
        Currencies::try_from("1 key, 2 ref, 3 keys"),
        Ok(Currencies { keys: 3, weapons: 36 }),
    );
    assert_eq!(Currencies::try_from("x keys, 3 keys"), Ok(Currencies { keys: 3, weapons: 0 }));
}

#[test]
fn parses_from_every_kind_of_string() {
    let expected = Ok(Currencies { keys: 2, weapons: 422 });
    let owned = String::from("2 keys, 23.44 ref");

    assert_eq!(Currencies::try_from(&owned), expected);
    assert_eq!("2 keys, 23.44 ref".parse::<Currencies>(), expected);
    assert_eq!(Currencies::try_from(owned), expected);
    assert_eq!(parse_currency_from_string("2 keys, 23.44 ref"), Ok((2, 422)));
}

#[test]
fn hands_out_the_counts_as_written() {
    assert_eq!(parse_currencies("2 keys, 23.44 ref"), Ok((Some("2"), Some("23.44"))));
    assert_eq!(parse_currencies(" what ref "), Ok((None, Some("what"))));
    assert_eq!(parse_currencies("1.5 KEY"), Ok((Some("1.5"), None)));
    assert_eq!(parse_currencies("ü keys"), Ok((Some("ü"), None)));
}

#[test]
fn a_blank_text_holds_no_currencies() {
    assert_eq!(Currencies::try_from(""), Err(ParseError::NoCurrenciesDetected));
    assert_eq!(Currencies::try_from("  \t "), Err(ParseError::NoCurrenciesDetected));
    assert_eq!(parse_currencies("\u{3000}"), Err(ParseError::NoCurrenciesDetected));
}

#[test]
fn a_blank_clause_misses_its_count() {
    assert_eq!(Currencies::try_from("1 key,"), Err(ParseError::MissingCount));
    assert_eq!(Currencies::try_from(", 1 key"), Err(ParseError::MissingCount));
    assert_eq!(Currencies::try_from("1 key, , 2 ref"), Err(ParseError::MissingCount));
    assert_eq!(Currencies::try_from(","), Err(ParseError::MissingCount));
}

#[test]
fn a_clause_of_one_word_misses_its_name() {
    assert_eq!(Currencies::try_from("what"), Err(ParseError::MissingCurrencyName));
    assert_eq!(Currencies::try_from("5"), Err(ParseError::MissingCurrencyName));
    assert_eq!(Currencies::try_from("keys"), Err(ParseError::MissingCurrencyName));
    assert_eq!(Currencies::try_from("2 keys, 3"), Err(ParseError::MissingCurrencyName));
    assert_eq!(Currencies::try_from("2\tkeys"), Err(ParseError::MissingCurrencyName));
}

#[test]
fn a_third_word_is_unexpected() {
    assert_eq!(Currencies::try_from("2 keys now"), Err(ParseError::UnexpectedToken));
    assert_eq!(Currencies::try_from("2  keys"), Err(ParseError::UnexpectedToken));
    assert_eq!(Currencies::try_from("2 what now"), Err(ParseError::UnexpectedToken));
    assert_eq!(Currencies::try_from("1 key, 2 ref ref"), Err(ParseError::UnexpectedToken));
}

#[test]
fn an_unknown_name_is_invalid() {
    assert_eq!(Currencies::try_from("2 keys, 3 what"), Err(ParseError::InvalidCurrencyName));
    assert_eq!(Currencies::try_from("3 refs"), Err(ParseError::InvalidCurrencyName));
    assert_eq!(Currencies::try_from("3 ke"), Err(ParseError::InvalidCurrencyName));
    assert_eq!(Currencies::try_from("3 metal"), Err(ParseError::InvalidCurrencyName));
    assert_eq!(Currencies::try_from("3 ref."), Err(ParseError::InvalidCurrencyName));
}

#[test]
fn the_first_wrong_clause_gives_the_error() {
    assert_eq!(Currencies::try_from("what, 2 keys now"), Err(ParseError::MissingCurrencyName));
    assert_eq!(Currencies::try_from("2 keys now, what"), Err(ParseError::UnexpectedToken));
    assert_eq!(Currencies::try_from("x keys, 3 what"), Err(ParseError::InvalidCurrencyName));
}

#[test]
fn a_count_of_keys_is_an_integer() {
    assert_eq!(
        Currencies::try_from("x keys"),
        Err(ParseError::ParseInt(NumberError::InvalidDigit)),
    );
    assert_eq!(
        Currencies::try_from("1.5 keys"),
        Err(ParseError::ParseInt(NumberError::InvalidDigit)),
    );
    assert_eq!(
        Currencies::try_from("9223372036854775808 keys"),
        Err(ParseError::ParseInt(NumberError::PosOverflow)),
    );
    assert_eq!(
        Currencies::try_from("-9223372036854775809 keys"),
        Err(ParseError::ParseInt(NumberError::NegOverflow)),
    );
    assert_eq!(
        Currencies::try_from("x keys, y ref"),
        Err(ParseError::ParseInt(NumberError::InvalidDigit)),
    );
}

#[test]
fn a_count_of_metal_is_a_decimal_number() {
    assert_eq!(
        Currencies::try_from("x ref"),
        Err(ParseError::ParseFloat(NumberError::InvalidDigit)),
    );
    assert_eq!(
        Currencies::try_from("2 keys, 1e3 ref"),
        Err(ParseError::ParseFloat(NumberError::InvalidDigit)),
    );
    assert_eq!(
        Currencies::try_from("99999999999999999999999 ref"),
        Ok(Currencies { keys: 0, weapons: Currency::MAX }),
    );
}

#[test]
fn adds_thousands_places() {
    assert_eq!(thousands(String::from("1000")), "1,000");
    assert_eq!(thousands(String::from("")), "");
    assert_eq!(thousands(String::from("1")), "1");
    assert_eq!(thousands(String::from("12")), "12");
    assert_eq!(thousands(String::from("123")), "123");
    assert_eq!(thousands(String::from("1234")), "1,234");
    assert_eq!(thousands(String::from("123456")), "123,456");
    assert_eq!(thousands(String::from("1234567")), "1,234,567");
    assert_eq!(thousands(String::from("1234567.891")), "1,234,567.891");
    assert_eq!(thousands(String::from("1234.5678.9012")), "1,234.5678.9012");
    assert_eq!(thousands(String::from(".5")), ".5");
}

#[test]
fn keeps_the_sign_before_the_groups() {
    assert_eq!(thousands(String::from("-1000")), "-1,000");
    assert_eq!(thousands(String::from("-100")), "-100");
    assert_eq!(thousands(String::from("-123456.78")), "-123,456.78");
    assert_eq!(thousands(String::from("-")), "-");
    assert_eq!(thousands(String::from("-.5")), "-.5");
    assert_eq!(thousands(String::from("--1000")), "--1,000");
    assert_eq!(thousands(String::from("+1000")), "+1,000");
}

#[test]
fn writes_cents_as_dollars() {
    let mut text = String::new();

    push_cents(&mut text, 5);
    assert_eq!(text, "0.05");
    assert_eq!(USDCurrencies { usd: 0 }.to_string(), "$0.00");
    assert_eq!(USDCurrencies { usd: 99 }.to_string(), "$0.99");
    assert_eq!(USDCurrencies { usd: -5 }.to_string(), "$-0.05");
    assert_eq!(USDCurrencies { usd: -123456 }.to_string(), "$-1,234.56");
    assert_eq!(USDCurrencies { usd: 100000000 }.to_string(), "$1,000,000.00");
    assert_eq!(USDCurrencies { usd: Currency::MAX }.to_string(), "$92,233,720,368,547,758.07");
    assert_eq!(USDCurrencies { usd: Currency::MIN }.to_string(), "$-92,233,720,368,547,758.08");
}

#[test]
fn tells_white_space_and_digits() {
    let spaces =
        [' ', '\t', '\n', '\u{0b}', '\u{0c}', '\r', '\u{85}', '\u{a0}', '\u{2003}', '\u{3000}'];
    for c in spaces {
        assert!(is_space_char(c));
    }
    for c in ['a', '0', ',', '.', '-', '\u{200b}', '\u{1c}', '_'] {
        assert!(!is_space_char(c));
    }
    for c in ('\0'..='\u{3100}').chain(['\u{10ffff}']) {
        assert_eq!(is_space_char(c), c.is_whitespace());
        assert_eq!(lower_char(c), c.to_ascii_lowercase());
        assert_eq!(is_digit_char(c), c.is_ascii_digit());
    }
}

#[test]
fn takes_a_text_apart() {
    assert_eq!(chars_of(""), Vec::<char>::new());
    assert_eq!(chars_of("1 ü,"), vec!['1', ' ', 'ü', ',']);
    assert_eq!(magnitude(Currency::MIN), 9223372036854775808);
    assert_eq!(magnitude(-5), 5);
    assert_eq!(magnitude(5), 5);

    let mut text = String::new();
    push_sign(&mut text, -1);
    push_sign(&mut text, 0);
    push_sign(&mut text, 1);
    push_nat(&mut text, u64::MAX);
    push_nat(&mut text, 0);
    assert_eq!(text, "-184467440737095516150");
}
