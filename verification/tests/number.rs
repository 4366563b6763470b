use pgfplots::number::Number;
use pgfplots::text::Render;

#[test]
fn from_scientific_reads_what_floats_print() {
    assert_eq!(Number::from_scientific("1e0"), Some(Number::new(false, 1, 0)));
    assert_eq!(Number::from_scientific("-1e0"), Some(Number::new(true, 1, 0)));
    assert_eq!(Number::from_scientific("5e-1"), Some(Number::new(false, 5, -1)));
    assert_eq!(
        Number::from_scientific("-1.25e-3"),
        Some(Number::new(true, 125, -5))
    );
    assert_eq!(
        Number::from_scientific("1.7976931348623157e308"),
        Some(Number::new(false, 17976931348623157, 292))
    );
    assert_eq!(Number::from_scientific("5e-324"), Some(Number::new(false, 5, -324)));
    assert_eq!(Number::from_scientific("0e0"), Some(Number::new(false, 0, 0)));
    assert_eq!(Number::from_scientific("-0e0"), Some(Number::new(true, 0, 0)));
    assert_eq!(Number::from_scientific("NaN"), Some(Number::nan()));
    assert_eq!(Number::from_scientific("inf"), Some(Number::infinity(false)));
    assert_eq!(Number::from_scientific("-inf"), Some(Number::infinity(true)));
}

#[test]
fn from_scientific_brings_to_lowest_terms() {
    assert_eq!(Number::from_scientific("1.50e0").unwrap().to_string(), "1.5");
    assert_eq!(Number::from_scientific("00012e0").unwrap().to_string(), "12");
    assert_eq!(Number::from_scientific("1200e-2").unwrap().to_string(), "12");
    assert_eq!(Number::from_scientific("0.000e7").unwrap().to_string(), "0");
    assert_eq!(Number::from_scientific("12e003").unwrap().to_string(), "12000");
    assert_eq!(Number::from_scientific("12e-0").unwrap().to_string(), "12");
}

#[test]
fn from_scientific_refuses_other_text() {
    for text in [
        "", "-", "e", "1", "1e", "e5", "1.e0", ".5e0", "1.5", "1e+5", "1E5", "+1e0", "--1e0",
        "1e--5", "1e5 ", " 1e5", "1e5e5", "1.2.3e0", "1,5e0", "nan", "Inf", "+inf", "infinity",
        "-NaN", "1e0x", "١e0",
    ] {
        assert_eq!(Number::from_scientific(text), None, "{:?}", text);
    }
}

#[test]
fn from_scientific_holds_64_bits_of_digits_and_16_of_power() {
    assert_eq!(
        Number::from_scientific("18446744073709551615e0"),
        Some(Number::new(false, u64::MAX, 0))
    );
    assert_eq!(Number::from_scientific("18446744073709551616e0"), None);
    assert_eq!(Number::from_scientific("1.8446744073709551616e19"), None);
    assert_eq!(
        Number::from_scientific("100000000000000000000000000000000000000000e0"),
        None
    );
    assert_eq!(
        Number::from_scientific("1e32767"),
        Some(Number::new(false, 1, i16::MAX))
    );
    assert_eq!(Number::from_scientific("1e32768"), None);
    assert_eq!(
        Number::from_scientific("1e-32768"),
        Some(Number::new(false, 1, i16::MIN))
    );
    assert_eq!(Number::from_scientific("1e-32769"), None);
    assert_eq!(
        Number::from_scientific("1.5e32768"),
        Some(Number::new(false, 15, i16::MAX))
    );
    assert_eq!(Number::from_scientific("1.5e-32768"), None);
    assert_eq!(
        Number::from_scientific("1e99999999999999999999999999999999999999999999"),
        None
    );
    assert_eq!(
        Number::from_scientific("1e-99999999999999999999999999999999999999999999"),
        None
    );
}
