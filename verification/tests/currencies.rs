use std::collections::HashMap;
use tf2_price::{refined, scrap, Currencies, Currency, Rounding};

/// A decimal factor as a ratio of integers.
fn ratio(factor: f32) -> (Currency, Currency) {
    ((factor * 10.0).round() as Currency, 10)
}

#[test]
fn currencies_currencies_equal() {
    assert_eq!(
        Currencies {
            keys: 2,
            weapons: refined(23) + scrap(4),
        },
        Currencies {
            keys: 2,
            weapons: refined(23) + scrap(4),
        },
    );
}

#[test]
fn currencies_currencies_not_equal() {
    assert_ne!(
        Currencies {
            keys: 2,
            weapons: refined(23) + scrap(4),
        },
        Currencies {
            keys: 2,
            weapons: refined(23),
        },
    );
}

#[test]
fn currencies_currencies_added() {
    assert_eq!(
        Currencies {
            keys: 10,
            weapons: refined(10),
        } + Currencies {
            keys: 5,
            weapons: refined(5),
        },
        Currencies {
            keys: 15,
            weapons: refined(15),
        },
    );
}

#[test]
fn currencies_currencies_subtracted() {
    assert_eq!(
        Currencies {
            keys: 10,
            weapons: refined(10),
        } - Currencies {
            keys: 5,
            weapons: refined(5),
        },
        Currencies {
            keys: 5,
            weapons: refined(5),
        },
    );
}

#[test]
fn currencies_currencies_multiplied_by_metal() {
    assert_eq!(
        Currencies {
            keys: 10,
            weapons: refined(10),
        } * 5,
        Currencies {
            keys: 50,
            weapons: refined(50),
        },
    );
}

#[test]
fn currencies_currencies_divided_by_metal() {
    assert_eq!(
        Currencies {
            keys: 10,
            weapons: refined(10),
        } / 5,
        Currencies {
            keys: 2,
            weapons: refined(2),
        },
    );
}

#[test]
fn currencies_currencies_divided_by_f32() {
    let (numerator, denominator) = ratio(2.5);

    assert_eq!(
        Currencies {
            keys: 10,
            weapons: refined(10),
        }.scale(denominator, numerator),
        Currencies {
            keys: 4,
            weapons: refined(4),
        },
    );
}

#[test]
fn currencies_currencies_multiplied_by_f32() {
    let (numerator, denominator) = ratio(2.5);

    assert_eq!(
        Currencies {
            keys: 10,
            weapons: refined(10),
        }.scale(numerator, denominator),
        Currencies {
            keys: 25,
            weapons: refined(25),
        },
    );
}

#[test]
fn currencies_currencies_mul_assign_f32() {
    let (numerator, denominator) = ratio(2.5);
    let mut currencies = Currencies {
        keys: 10,
        weapons: refined(10),
    };

    currencies = currencies.scale(numerator, denominator);

    assert_eq!(
        currencies,
        Currencies {
            keys: 25,
            weapons: refined(25),
        },
    );
}

#[test]
fn currencies_currencies_div_assign_f32() {
    let (numerator, denominator) = ratio(2.5);
    let mut currencies = Currencies {
        keys: 10,
        weapons: refined(10),
    };

    currencies = currencies.scale(denominator, numerator);

    assert_eq!(
        currencies,
        Currencies {
            keys: 4,
            weapons: refined(4),
        },
    );
}

#[test]
fn currencies_currencies_mul_assign_metal() {
    let mut currencies = Currencies {
        keys: 10,
        weapons: refined(10),
    };

    currencies.mul_assign(2);

    assert_eq!(
        currencies,
        Currencies {
            keys: 20,
            weapons: refined(20),
        },
    );
}

#[test]
fn currencies_currencies_div_assign_metal() {
    let mut currencies = Currencies {
        keys: 10,
        weapons: refined(10),
    };

    currencies.div_assign(2);

    assert_eq!(
        currencies,
        Currencies {
            keys: 5,
            weapons: refined(5),
        },
    );
}

#[test]
fn parses_currencies_from_string() {
    let currencies = Currencies::try_from("2 keys, 23.44 ref").unwrap();

    assert_eq!(currencies.keys, 2);
    assert_eq!(currencies.weapons, 422);
}

#[test]
fn parses_currencies_from_string_only_keys() {
    let currencies = Currencies::try_from("1 key").unwrap();

    assert_eq!(currencies.keys, 1);
    assert_eq!(currencies.weapons, 0);
}

#[test]
fn parses_currencies_from_string_only_metal() {
    let currencies = Currencies::try_from("2 ref").unwrap();

    assert_eq!(currencies.keys, 0);
    assert_eq!(currencies.weapons, refined(2));
}

#[test]
fn parses_currencies_from_string_invalid_currencies() {
    assert!(Currencies::try_from("what").is_err());
}

#[test]
fn parses_currencies_from_string_invalid_currencies_extra() {
    assert!(Currencies::try_from("2 keys, 3 what").is_err());
}

#[test]
fn currencies_prints_empty_currencies() {
    assert_eq!(Currencies::default().to_string(), "0 keys, 0 ref");
}

#[test]
fn gets_correct_value_from_metal() {
    assert_eq!(
        Currencies::from_weapons(9, 10),
        Currencies {
            keys: 0,
            weapons: 9,
        },
    );
}

#[test]
fn gets_correct_value_from_metal_with_keys() {
    assert_eq!(
        Currencies::from_weapons(10, 10),
        Currencies {
            keys: 1,
            weapons: 0,
        },
    );
}

#[test]
fn gets_correct_value_from_metal_with_keys_and_metal() {
    assert_eq!(
        Currencies::from_weapons(11, 10),
        Currencies {
            keys: 1,
            weapons: 1,
        },
    );
}

#[test]
fn currencies_formats_currencies() {
    let currencies = Currencies {
        keys: 2,
        weapons: refined(23) + scrap(4),
    };

    assert_eq!(currencies.to_string(), "2 keys, 23.44 ref");
}

#[test]
fn formats_currencies_singular() {
    let currencies = Currencies {
        keys: 1,
        weapons: refined(23) + scrap(4),
    };

    assert_eq!(currencies.to_string(), "1 key, 23.44 ref");
}

#[test]
fn formats_currencies_with_no_trailing_decimal_places() {
    let currencies = Currencies {
        keys: 2,
        weapons: refined(23),
    };

    assert_eq!(currencies.to_string(), "2 keys, 23 ref");
}

#[test]
fn formats_currencies_with_no_metal() {
    let currencies = Currencies {
        keys: 2,
        weapons: 0,
    };

    assert_eq!(currencies.to_string(), "2 keys");
}

#[test]
fn converts_to_metal() {
    let currencies = Currencies {
        keys: 1,
        weapons: refined(23) + scrap(4),
    };
    let value = currencies.to_weapons(422);

    assert_eq!(value, 844);
}

#[test]
fn rounds_metal_down() {
    let currencies = Currencies {
        keys: 1,
        weapons: refined(23) + scrap(4) + 1,
    };

    assert_eq!(currencies.round(&Rounding::DownScrap).weapons, 422);
}

#[test]
fn rounds_metal_down_refined() {
    let currencies = Currencies {
        keys: 1,
        weapons: refined(23) + scrap(4),
    };

    assert_eq!(currencies.round(&Rounding::DownRefined).weapons, refined(23));
}

#[test]
fn rounds_metal_up_refined_negative() {
    let currencies = Currencies {
        keys: 1,
        weapons: -refined(23) + scrap(1),
    };

    assert_eq!(currencies.round(&Rounding::UpRefined).weapons, -refined(22));
}

#[test]
fn rounds_metal_up_refined_negative_whole_value() {
    let currencies = Currencies {
        keys: 1,
        weapons: -refined(23),
    };

    assert_eq!(currencies.round(&Rounding::UpRefined).weapons, -refined(23));
}

#[test]
fn rounds_metal_down_refined_negative() {
    let currencies = Currencies {
        keys: 1,
        weapons: -refined(23) + scrap(8),
    };

    assert_eq!(currencies.round(&Rounding::DownRefined).weapons, -refined(23));
}

#[test]
fn rounds_metal_down_refined_negative_whole_value() {
    let currencies = Currencies {
        keys: 1,
        weapons: -refined(23),
    };

    assert_eq!(currencies.round(&Rounding::DownRefined).weapons, -refined(23));
}

#[test]
fn rounds_metal_down_refined_whole_value() {
    let currencies = Currencies {
        keys: 1,
        weapons: refined(23),
    };

    assert_eq!(currencies.round(&Rounding::DownRefined).weapons, refined(23));
}

#[test]
fn rounds_metal_up_refined() {
    let currencies = Currencies {
        keys: 1,
        weapons: refined(23) + scrap(4),
    };

    assert_eq!(currencies.round(&Rounding::UpRefined).weapons, refined(24));
}

#[test]
fn rounds_metal_up_refined_whole_value() {
    let currencies = Currencies {
        keys: 1,
        weapons: refined(23),
    };

    assert_eq!(currencies.round(&Rounding::UpRefined).weapons, refined(23));
}

#[test]
fn rounds_metal_refined_down_correctly() {
    let currencies = Currencies {
        keys: 1,
        weapons: refined(23) + scrap(3),
    };

    assert_eq!(currencies.round(&Rounding::Refined).weapons, refined(23));
}

#[test]
fn rounds_metal_refined_down_correctly_whole_value() {
    let currencies = Currencies {
        keys: 1,
        weapons: refined(23),
    };

    assert_eq!(currencies.round(&Rounding::Refined).weapons, refined(23));
}

#[test]
fn rounds_metal_refined_up_correctly() {
    let currencies = Currencies {
        keys: 1,
        weapons: refined(23) + scrap(5),
    };

    assert_eq!(currencies.round(&Rounding::Refined).weapons, refined(24));
}

#[test]
fn rounds_metal_up() {
    let currencies = Currencies {
        keys: 1,
        weapons: refined(23) + scrap(4) + 1,
    };

    assert_eq!(currencies.round(&Rounding::UpScrap).weapons, 424);
}

#[test]
fn neatens() {
    let currenices = Currencies {
        keys: 1,
        weapons: refined(110),
    };

    assert_eq!(
        currenices.neaten(refined(50)),
        Currencies {
            keys: 3,
            weapons: refined(10),
        },
    );
}

#[test]
fn neatens_negative() {
    let currencies = Currencies {
        keys: 1,
        weapons: -refined(110),
    };

    assert_eq!(
        currencies.neaten(refined(50)),
        Currencies {
            keys: -1,
            weapons: -refined(10),
        },
    );
}

#[test]
fn neatens_negative_result_should_be_positive() {
    let currencies = Currencies {
        keys: 2,
        weapons: -refined(60),
    };

    assert_eq!(
        currencies.neaten(refined(50)),
        Currencies {
            keys: 0,
            weapons: refined(40),
        },
    );
}

#[test]
fn to_metal_with_negative_keys() {
    let key_price_weapons = refined(10);
    let currencies = Currencies {
        keys: -10,
        // 2 keys of metal, so the total should be -8 keys
        weapons: key_price_weapons * 2,
    };

    assert_eq!(currencies.to_weapons(key_price_weapons), -(key_price_weapons * 8));
}

#[test]
fn currencies_greater_than() {
    let a = Currencies { keys: 1, weapons: 5 };
    let b = Currencies { keys: 0, weapons: 10 };

    assert!(a > b);
}

#[test]
fn currencies_less_than() {
    let a = Currencies { keys: 0, weapons: 1 };
    let b = Currencies { keys: 0, weapons: 4 };

    assert!(a < b);
}

#[test]
fn currencies_sorts() {
    let mut currencies = vec![
        Currencies { keys: 2, weapons: 4 },
        Currencies { keys: 0, weapons: 2 },
        Currencies { keys: 10, weapons: 4 },
    ];

    // lowest to highest
    currencies.sort();

    assert_eq!(
        *currencies.iter().rev().next().unwrap(),
        Currencies { keys: 10, weapons: 4 },
    );
}

#[test]
fn to_metal_saturating_integer_bounds() {
    let key_price_weapons = refined(50);

    assert_eq!(
        Currencies {
            keys: Currency::MAX - 100,
            weapons: 0,
        }.to_weapons(key_price_weapons),
        Currency::MAX,
    );
    assert_eq!(
        Currencies {
            keys: Currency::MAX - 100,
            weapons: 0,
        }.to_weapons(-key_price_weapons),
        Currency::MIN,
    );
    assert_eq!(
        Currencies {
            keys: 1,
            weapons: Currency::MAX,
        }.to_weapons(key_price_weapons),
        Currency::MAX,
    );
    assert_eq!(
        Currencies {
            keys: -1,
            weapons: Currency::MIN,
        }.to_weapons(key_price_weapons),
        Currency::MIN,
    );
    assert_eq!(
        Currencies {
            keys: 1,
            weapons: Currency::MIN,
        }.to_weapons(key_price_weapons),
        Currency::MIN + key_price_weapons,
    );
}

#[test]
fn checked_mul() {
    assert_eq!(
        Currencies {
            keys: 2,
            weapons: 0,
        }.checked_mul(Currency::MAX),
        None,
    );
}

#[test]
fn checked_add() {
    assert_eq!(
        Currencies {
            keys: 2,
            weapons: 0,
        }.checked_add(Currencies {
            keys: Currency::MAX,
            weapons: 0,
        }),
        None,
    );
}

#[test]
fn currencies_checked_to_metal() {
    assert_eq!(
        Currencies {
            keys: Currency::MAX,
            weapons: 0,
        }.checked_to_weapons(Currency::MAX),
        None,
    );
}

#[test]
fn currencies_checked_to_metal_correct_value() {
    assert_eq!(
        Currencies {
            keys: 10,
            weapons: 5,
        }.checked_to_weapons(10),
        Some(105),
    );
}

#[test]
fn can_hash() {
    let mut hash = HashMap::<Currencies, i32>::new();

    hash.insert(Currencies {
        keys: 1,
        weapons: 1,
    }, 1);
    hash.insert(Currencies {
        keys: 1,
        weapons: 2,
    }, 1);

    if let Some(value) = hash.get_mut(&Currencies {
        keys: 1,
        weapons: 1,
    }) {
        *value += 1;
    }

    assert_eq!(
        hash.get(&Currencies {
            keys: 1,
            weapons: 1,
        }),
        Some(&2),
    );
    assert_eq!(
        hash.get(&Currencies {
            keys: 1,
            weapons: 2,
        }),
        Some(&1),
    );
}
