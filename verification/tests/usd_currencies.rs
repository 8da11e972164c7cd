use tf2_price::USDCurrencies;

/// A decimal factor as a ratio of integers.
fn ratio(factor: f32) -> (i64, i64) {
    ((factor * 10.0).round() as i64, 10)
}

#[test]
fn usd_currencies_currencies_equal() {
    assert_eq!(
        USDCurrencies {
            usd: 10,
        },
        USDCurrencies {
            usd: 10,
        },
    );
}

#[test]
fn usd_currencies_currencies_not_equal() {
    assert_ne!(
        USDCurrencies {
            usd: 10,
        },
        USDCurrencies {
            usd: 2,
        },
    );
}

#[test]
fn usd_currencies_currencies_added() {
    assert_eq!(
        USDCurrencies {
            usd: 10,
        } + USDCurrencies {
            usd: 5,
        },
        USDCurrencies {
            usd: 15,
        },
    );
}

#[test]
fn usd_currencies_currencies_subtracted() {
    assert_eq!(
        USDCurrencies {
            usd: 10,
        } - USDCurrencies {
            usd: 5,
        },
        USDCurrencies {
            usd: 5,
        },
    );
}

#[test]
fn usd_currencies_currencies_multiplied_by_metal() {
    assert_eq!(
        USDCurrencies {
            usd: 10,
        } * 5,
        USDCurrencies {
            usd: 50,
        },
    );
}

#[test]
fn usd_currencies_currencies_divided_by_metal() {
    assert_eq!(
        USDCurrencies {
            usd: 10,
        } / 5,
        USDCurrencies {
            usd: 2,
        },
    );
}

#[test]
fn usd_currencies_currencies_divided_by_f32() {
    let (numerator, denominator) = ratio(2.5);

    assert_eq!(
        USDCurrencies {
            usd: 10,
        }.scale(denominator, numerator),
        USDCurrencies {
            usd: 4,
        },
    );
}

#[test]
fn usd_currencies_currencies_multiplied_by_f32() {
    let (numerator, denominator) = ratio(2.5);

    assert_eq!(
        USDCurrencies {
            usd: 10,
        }.scale(numerator, denominator),
        USDCurrencies {
            usd: 25,
        },
    );
}

#[test]
fn usd_currencies_currencies_mul_assign_f32() {
    let (numerator, denominator) = ratio(2.5);
    let mut currencies = USDCurrencies {
        usd: 10,
    };

    currencies = currencies.scale(numerator, denominator);

    assert_eq!(
        currencies,
        USDCurrencies {
            usd: 25,
        },
    );
}

#[test]
fn usd_currencies_currencies_div_assign_f32() {
    let (numerator, denominator) = ratio(2.5);
    let mut currencies = USDCurrencies {
        usd: 10,
    };

    currencies = currencies.scale(denominator, numerator);

    assert_eq!(
        currencies,
        USDCurrencies {
            usd: 4,
        },
    );
}

#[test]
fn usd_currencies_currencies_mul_assign_metal() {
    let mut currencies = USDCurrencies {
        usd: 10,
    };

    currencies.mul_assign(2);

    assert_eq!(
        currencies,
        USDCurrencies {
            usd: 20,
        },
    );
}

#[test]
fn usd_currencies_currencies_div_assign_metal() {
    let mut currencies = USDCurrencies {
        usd: 10,
    };

    currencies.div_assign(2);

    assert_eq!(
        currencies,
        USDCurrencies {
            usd: 5,
        },
    );
}

#[test]
fn to_string() {
    let currencies = USDCurrencies {
        usd: 320,
    };

    assert_eq!(currencies.to_string(), "$3.20");
}

#[test]
fn to_string_with_thosands() {
    let currencies = USDCurrencies {
        usd: 123456,
    };

    assert_eq!(currencies.to_string(), "$1,234.56");
}

#[test]
fn cash_is_empty_at_zero() {
    assert_eq!(USDCurrencies::new(), USDCurrencies { usd: 0 });
    assert_eq!(USDCurrencies::default(), USDCurrencies::new());
    assert!(USDCurrencies::new().is_empty());
    assert!(!USDCurrencies { usd: -1 }.is_empty());
}

#[test]
fn cash_to_weapons_rounds_to_the_nearest_weapon() {
    assert_eq!(USDCurrencies { usd: 100 }.to_weapons(100, 10), 10);
    assert_eq!(USDCurrencies { usd: 1 }.to_weapons(3, 1), 0);
    assert_eq!(USDCurrencies { usd: 1 }.to_weapons(2, 1), 1);
    assert_eq!(USDCurrencies { usd: -1 }.to_weapons(2, 1), -1);
    assert_eq!(USDCurrencies { usd: 1 }.to_weapons(-2, 1), -1);
    assert_eq!(USDCurrencies { usd: -3 }.to_weapons(-2, 1), 2);
    assert_eq!(USDCurrencies { usd: 250 }.to_weapons(175, 1188), 1697);
    assert_eq!(USDCurrencies { usd: 0 }.to_weapons(175, 1188), 0);
}

#[test]
fn cash_to_weapons_saturates() {
    assert_eq!(USDCurrencies { usd: i64::MAX }.to_weapons(1, 2), i64::MAX);
    assert_eq!(USDCurrencies { usd: i64::MAX }.to_weapons(-1, 2), i64::MIN);
    assert_eq!(USDCurrencies { usd: i64::MIN }.to_weapons(1, 1), i64::MIN);
    assert_eq!(USDCurrencies { usd: i64::MIN }.to_weapons(-1, 1), i64::MAX);
    assert_eq!(USDCurrencies { usd: i64::MIN }.to_weapons(i64::MIN, i64::MIN), i64::MIN);
    assert_eq!(USDCurrencies { usd: i64::MAX }.to_weapons(i64::MAX, i64::MAX), i64::MAX);
    assert_eq!(USDCurrencies { usd: 5 }.to_weapons(0, 3), i64::MAX);
    assert_eq!(USDCurrencies { usd: -5 }.to_weapons(0, 3), i64::MIN);
    assert_eq!(USDCurrencies { usd: 0 }.to_weapons(0, 3), 0);
    assert_eq!(USDCurrencies { usd: 5 }.to_weapons(0, 0), 0);
}

#[test]
fn cash_checked_arithmetic() {
    let cash = USDCurrencies { usd: 10 };

    assert_eq!(cash.checked_add(&USDCurrencies { usd: 5 }), Some(USDCurrencies { usd: 15 }));
    assert_eq!(cash.checked_add(&USDCurrencies { usd: i64::MAX }), None);
    assert_eq!(cash.checked_sub(&USDCurrencies { usd: 15 }), Some(USDCurrencies { usd: -5 }));
    assert_eq!(cash.checked_sub(&USDCurrencies { usd: i64::MIN }), None);
    assert_eq!(cash.checked_mul(-3), Some(USDCurrencies { usd: -30 }));
    assert_eq!(cash.checked_mul(i64::MAX), None);
    assert_eq!(cash.checked_div(-3), Some(USDCurrencies { usd: -3 }));
    assert_eq!(cash.checked_div(0), None);
    assert_eq!(USDCurrencies { usd: i64::MIN }.checked_div(-1), None);
}

#[test]
fn cash_operators_saturate() {
    let most = USDCurrencies { usd: i64::MAX };
    let least = USDCurrencies { usd: i64::MIN };
    let one = USDCurrencies { usd: 1 };

    assert_eq!(most + one, most);
    assert_eq!(least - one, least);
    assert_eq!(most * 2, most);
    assert_eq!(most * -2, least);
    assert_eq!(least / -1, most);
    assert_eq!(&most + &one, most);
    assert_eq!(most - &most, USDCurrencies { usd: 0 });
    assert_eq!(&one - most, USDCurrencies { usd: i64::MIN + 2 });
    assert_eq!(&one * 7, USDCurrencies { usd: 7 });
    assert_eq!(&most / 2, USDCurrencies { usd: i64::MAX / 2 });
}

#[test]
fn cash_assignments_saturate() {
    let mut cash = USDCurrencies { usd: 10 };

    cash.add_assign(USDCurrencies { usd: 5 });
    assert_eq!(cash, USDCurrencies { usd: 15 });
    cash.sub_assign(USDCurrencies { usd: 20 });
    assert_eq!(cash, USDCurrencies { usd: -5 });
    cash.mul_assign(i64::MAX);
    assert_eq!(cash, USDCurrencies { usd: i64::MIN });
    cash.div_assign(-1);
    assert_eq!(cash, USDCurrencies { usd: i64::MAX });
}

#[test]
fn cash_is_ordered_by_its_cents() {
    assert!(USDCurrencies { usd: -1 } < USDCurrencies { usd: 0 });
    assert!(USDCurrencies { usd: 2 } > USDCurrencies { usd: 1 });
    assert_eq!(
        USDCurrencies { usd: 2 }.partial_cmp(&USDCurrencies { usd: 2 }),
        Some(std::cmp::Ordering::Equal),
    );
    assert_eq!(USDCurrencies { usd: 1 }.cmp(&USDCurrencies { usd: 2 }), std::cmp::Ordering::Less);
}

#[test]
fn cash_scales_by_a_ratio() {
    assert_eq!(USDCurrencies { usd: 10 }.scale(1, 3), USDCurrencies { usd: 3 });
    assert_eq!(USDCurrencies { usd: 10 }.scale(1, 4), USDCurrencies { usd: 3 });
    assert_eq!(USDCurrencies { usd: -10 }.scale(1, 4), USDCurrencies { usd: -3 });
    assert_eq!(USDCurrencies { usd: 10 }.scale(-1, 4), USDCurrencies { usd: -3 });
    assert_eq!(USDCurrencies { usd: 9 }.scale(1, 4), USDCurrencies { usd: 2 });
    assert_eq!(USDCurrencies { usd: i64::MAX }.scale(3, 2), USDCurrencies { usd: i64::MAX });
    assert_eq!(
        USDCurrencies { usd: i64::MAX }.scale(i64::MAX, i64::MAX),
        USDCurrencies { usd: i64::MAX },
    );
    assert_eq!(
        USDCurrencies { usd: i64::MIN }.scale(i64::MIN, i64::MIN),
        USDCurrencies { usd: i64::MIN },
    );
    assert_eq!(USDCurrencies { usd: i64::MIN }.scale(3, -2), USDCurrencies { usd: i64::MAX });
}
