use pg_replicate::numeric::{ParseDecimalError, PgDecimal, PgNumeric};

fn numeric_bytes(n_digits: u16, weight: i16, sign: u16, scale: u16, digits: &[u16]) -> Vec<u8> {
    let mut v = Vec::new();
    v.extend_from_slice(&n_digits.to_be_bytes());
    v.extend_from_slice(&weight.to_be_bytes());
    v.extend_from_slice(&sign.to_be_bytes());
    v.extend_from_slice(&scale.to_be_bytes());
    for d in digits {
        v.extend_from_slice(&d.to_be_bytes());
    }
    v
}

fn value(negative: bool, mantissa: u128, scale: u32) -> PgNumeric {
    PgNumeric::Value(PgDecimal { negative, mantissa, scale })
}

#[test]
fn numeric_one() {
    let raw = numeric_bytes(1, 0, 0x0000, 0, &[1]);
    assert_eq!(PgNumeric::from_sql(&raw), Ok(value(false, 1, 0)));
}

#[test]
fn numeric_negative_fraction() {
    let raw = numeric_bytes(2, 0, 0x4000, 2, &[1, 2300]);
    assert_eq!(PgNumeric::from_sql(&raw), Ok(value(true, 123, 2)));
}

#[test]
fn numeric_special_values() {
    assert_eq!(PgNumeric::from_sql(&numeric_bytes(0, 0, 0xC000, 0, &[])), Ok(PgNumeric::NaN));
    assert_eq!(PgNumeric::from_sql(&numeric_bytes(0, 0, 0xD000, 0, &[])), Ok(PgNumeric::PositiveInf));
    assert_eq!(PgNumeric::from_sql(&numeric_bytes(0, 0, 0xF000, 0, &[])), Ok(PgNumeric::NegativeInf));
    assert_eq!(
        PgNumeric::from_sql(&numeric_bytes(0, 0, 0x1234, 0, &[])),
        Err(ParseDecimalError::InvalidSign(0x1234))
    );
}

#[test]
fn numeric_large_weight_and_padding() {
    // 12345678.9 : digits [1234, 5678, 9000], weight 1, scale 1
    let raw = numeric_bytes(3, 1, 0x0000, 1, &[1234, 5678, 9000]);
    assert_eq!(PgNumeric::from_sql(&raw), Ok(value(false, 123456789, 1)));
    // 20000 with scale 0 : digits [2], weight 1
    let raw = numeric_bytes(1, 1, 0x0000, 0, &[2]);
    assert_eq!(PgNumeric::from_sql(&raw), Ok(value(false, 20000, 0)));
}

#[test]
fn numeric_small_fraction() {
    // 0.0005 : digits [5], weight -1, scale 4
    let raw = numeric_bytes(1, -1, 0x0000, 4, &[5]);
    assert_eq!(PgNumeric::from_sql(&raw), Ok(value(false, 5, 4)));
}

#[test]
fn numeric_rounds_to_scale() {
    // 1.2350 at scale 2 rounds half away from zero to 1.24
    let raw = numeric_bytes(2, 0, 0x0000, 2, &[1, 2350]);
    assert_eq!(PgNumeric::from_sql(&raw), Ok(value(false, 124, 2)));
}

#[test]
fn numeric_scale_is_capped() {
    let raw = numeric_bytes(1, 0, 0x0000, 40, &[7]);
    assert_eq!(PgNumeric::from_sql(&raw), Ok(value(false, 7 * 10u128.pow(28), 28)));
}

#[test]
fn numeric_zero_is_not_negative() {
    let raw = numeric_bytes(0, 0, 0x4000, 0, &[]);
    assert_eq!(PgNumeric::from_sql(&raw), Ok(value(false, 0, 0)));
}

#[test]
fn numeric_errors() {
    assert_eq!(PgNumeric::from_sql(&[0, 1, 0]), Err(ParseDecimalError::UnexpectedEnd));
    let mut raw = numeric_bytes(2, 0, 0x0000, 0, &[1, 2]);
    raw.truncate(raw.len() - 1);
    assert_eq!(PgNumeric::from_sql(&raw), Err(ParseDecimalError::UnexpectedEnd));
    let raw = numeric_bytes(1, 0, 0x0000, 0, &[10000]);
    assert_eq!(PgNumeric::from_sql(&raw), Err(ParseDecimalError::InvalidDigit));
    let raw = numeric_bytes(1, 20, 0x0000, 0, &[1]);
    assert_eq!(PgNumeric::from_sql(&raw), Err(ParseDecimalError::InvalidDecimalValue));
}

#[test]
fn numeric_round_trip_of_encoded_value() {
    // 98765.4321 encoded as Postgres does: [9, 8765, 4321], weight 1, scale 4
    let raw = numeric_bytes(3, 1, 0x4000, 4, &[9, 8765, 4321]);
    assert_eq!(PgNumeric::from_sql(&raw), Ok(value(true, 987654321, 4)));
}

#[test]
fn numeric_from_text() {
    assert_eq!(PgNumeric::from_str("1.23"), Ok(value(false, 123, 2)));
    assert_eq!(PgNumeric::from_str("-0.5"), Ok(value(true, 5, 1)));
    assert_eq!(PgNumeric::from_str("Infinity"), Ok(PgNumeric::PositiveInf));
    assert_eq!(PgNumeric::from_str("-INFINITY"), Ok(PgNumeric::NegativeInf));
    assert_eq!(PgNumeric::from_str("NaN"), Ok(PgNumeric::NaN));
    assert_eq!(PgNumeric::from_str("abc"), Err(ParseDecimalError::InvalidText));
}

#[test]
fn numeric_display_text() {
    assert_eq!(value(true, 123, 2).to_text(), "-1.23");
    assert_eq!(value(false, 5, 4).to_text(), "0.0005");
    assert_eq!(value(false, 0, 2).to_text(), "0.00");
    assert_eq!(value(false, 1200, 0).to_text(), "1200");
    assert_eq!(PgNumeric::NaN.to_text(), "NaN");
    assert_eq!(PgNumeric::PositiveInf.to_text(), "Infinity");
    assert_eq!(PgNumeric::NegativeInf.to_text(), "-Infinity");
}

#[test]
fn numeric_display_matches_rust_decimal() {
    let d = PgDecimal { negative: true, mantissa: 987654321, scale: 4 };
    let r = rust_decimal::Decimal::from_i128_with_scale(-987654321, 4);
    assert_eq!(d.to_text(), r.to_string());
}

#[test]
fn numeric_default_and_accepts() {
    assert_eq!(PgNumeric::default(), value(false, 0, 0));
    assert!(PgNumeric::accepts(1700));
    assert!(!PgNumeric::accepts(23));
}

#[test]
fn numeric_from_parsed_parts() {
    assert_eq!(PgNumeric::from_parsed(Some((true, 5, 1)), "-0.5"), Ok(value(true, 5, 1)));
    assert_eq!(PgNumeric::from_parsed(Some((true, 0, 0)), "-0"), Ok(value(false, 0, 0)));
    assert_eq!(PgNumeric::from_parsed(None, "infinity"), Ok(PgNumeric::PositiveInf));
    assert_eq!(PgNumeric::from_parsed(None, "-infinity"), Ok(PgNumeric::NegativeInf));
    assert_eq!(PgNumeric::from_parsed(None, "nan"), Ok(PgNumeric::NaN));
    assert_eq!(PgNumeric::from_parsed(None, "NaN"), Err(ParseDecimalError::InvalidText));
}

#[test]
fn numeric_postgres_form_strips_trailing_zero_digits() {
    // 10000 is sent as the single digit 1 with weight 1
    let raw = numeric_bytes(1, 1, 0x0000, 0, &[1]);
    assert_eq!(PgNumeric::from_sql(&raw), Ok(value(false, 10000, 0)));
    // 1.50 with scale 2 is sent as [1, 5000], weight 0
    let raw = numeric_bytes(2, 0, 0x0000, 2, &[1, 5000]);
    assert_eq!(PgNumeric::from_sql(&raw), Ok(value(false, 150, 2)));
    // zero with scale 3: no digits, weight 0
    let raw = numeric_bytes(0, 0, 0x0000, 3, &[]);
    assert_eq!(PgNumeric::from_sql(&raw), Ok(value(false, 0, 3)));
}
