use brew_tray::quantity::is_positive_quantity;

#[test]
fn whole_numbers_above_zero_are_positive() {
    for text in ["250", "1", "007", "18446744073709551616", "99999999999999999999999999"] {
        assert!(is_positive_quantity(text), "{text:?}");
    }
}

#[test]
fn decimals_above_zero_are_positive() {
    for text in ["12.5", "0.25", "3.14159", "0.0004", "0.000000000000000000000000000001"] {
        assert!(is_positive_quantity(text), "{text:?}");
    }
}

#[test]
fn point_may_stand_first_or_last() {
    assert!(is_positive_quantity(".5"));
    assert!(is_positive_quantity("5."));
    assert!(is_positive_quantity("+.5"));
}

#[test]
fn plus_sign_is_accepted() {
    assert!(is_positive_quantity("+3"));
    assert!(is_positive_quantity("+0.1"));
}

#[test]
fn exponent_is_accepted() {
    for text in ["1e3", "1E3", "2.5e2", "2.5e+2", "25e-1", ".5e1", "5.e1", "+1e0", "1e-7", "1e000"] {
        assert!(is_positive_quantity(text), "{text:?}");
    }
}

#[test]
fn zero_is_not_positive() {
    for text in ["0", "0.0", "000.000", "+0", "0.", ".0", "0e5", "0.0e-3", "0E0"] {
        assert!(!is_positive_quantity(text), "{text:?}");
    }
}

#[test]
fn negative_number_is_not_positive() {
    for text in ["-3", "-0.5", "-0", "-.5", "-1e3"] {
        assert!(!is_positive_quantity(text), "{text:?}");
    }
}

#[test]
fn malformed_text_is_not_a_quantity() {
    for text in [
        "", ".", "+", "-", "+.", "abc", "12g", "1.2.3", "1,5", " 5", "5 ", "--1", "+-1", "1-",
        "１２", "1_000", "0x10",
    ] {
        assert!(!is_positive_quantity(text), "{text:?}");
    }
}

#[test]
fn malformed_exponent_is_not_a_quantity() {
    for text in ["1e", "1e+", "1e-", "e5", ".e5", "1e5.0", "1e 5", "1ee5", "1e5e5", "1e++5", "1e5x", "+e1"] {
        assert!(!is_positive_quantity(text), "{text:?}");
    }
}

#[test]
fn words_are_not_quantities() {
    for text in ["inf", "+inf", "infinity", "NaN", "nan", "Infinity"] {
        assert!(!is_positive_quantity(text), "{text:?}");
    }
}

#[test]
fn every_positive_quantity_is_a_number_above_zero() {
    // What counts as a positive quantity is read as one by the number type
    // that reckons with it, unless the number is too small for it.
    for text in ["250", "12.5", ".5", "5.", "+3", "1e3", "2.5E-2", "0.0004", "1e-7"] {
        assert!(is_positive_quantity(text), "{text:?}");
        assert!(text.parse::<f64>().unwrap() > 0.0, "{text:?}");
    }
    for text in ["0", "-1", "0e9", "-2.5e3", "", "x", "1e", "."] {
        assert!(!is_positive_quantity(text), "{text:?}");
        assert!(!(text.parse::<f64>().unwrap_or(0.0) > 0.0), "{text:?}");
    }
}
