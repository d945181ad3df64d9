use backlight_control_rs::AdjustmentSpec;
use backlight_control_rs::BacklightError;
use backlight_control_rs::parse_adjustment;
use backlight_control_rs::parse_brightness_text;
use backlight_control_rs::value_validator;

#[test]
fn validator_accepts_the_documented_forms() {
    assert_eq!(value_validator("+50"), Ok("+50".to_string()));
    assert_eq!(value_validator("-10"), Ok("-10".to_string()));
    assert_eq!(value_validator("200"), Ok("200".to_string()));
    assert_eq!(value_validator("50%"), Ok("50%".to_string()));
    assert_eq!(value_validator("+10%"), Ok("+10%".to_string()));
}

#[test]
fn validator_accepts_the_empty_string() {
    assert_eq!(value_validator(""), Ok("".to_string()));
}

#[test]
fn validator_rejects_malformed_values() {
    let msg = "Value provided does not match proper form.".to_string();
    assert_eq!(value_validator("abc"), Err(msg.clone()));
    assert_eq!(value_validator("%50"), Err(msg.clone()));
    assert_eq!(value_validator("++5"), Err(msg.clone()));
    assert_eq!(value_validator("5-"), Err(msg.clone()));
    assert_eq!(value_validator("%"), Err(msg.clone()));
    assert_eq!(value_validator("+"), Err(msg.clone()));
    assert_eq!(value_validator("+%"), Err(msg));
}

#[test]
fn adjustment_of_each_form() {
    assert_eq!(parse_adjustment("+50"), Ok(AdjustmentSpec::RelativeRaw(50)));
    assert_eq!(parse_adjustment("-10"), Ok(AdjustmentSpec::RelativeRaw(-10)));
    assert_eq!(parse_adjustment("200"), Ok(AdjustmentSpec::AbsoluteRaw(200)));
    assert_eq!(parse_adjustment("50%"), Ok(AdjustmentSpec::AbsolutePercent(50)));
    assert_eq!(parse_adjustment("+10%"), Ok(AdjustmentSpec::RelativePercent(10)));
    assert_eq!(parse_adjustment("-5%"), Ok(AdjustmentSpec::RelativePercent(-5)));
}

#[test]
fn adjustment_rejects_malformed_values() {
    assert_eq!(parse_adjustment("abc"), Err(BacklightError::InvalidArgument));
    assert_eq!(parse_adjustment(""), Err(BacklightError::InvalidArgument));
    assert_eq!(parse_adjustment("%50"), Err(BacklightError::InvalidArgument));
}

#[test]
fn adjustment_rejects_oversized_magnitudes() {
    assert_eq!(parse_adjustment("4294967296"), Err(BacklightError::InvalidArgument));
    assert_eq!(parse_adjustment("4294967295"), Ok(AdjustmentSpec::AbsoluteRaw(u32::MAX)));
    assert_eq!(parse_adjustment("+2147483648"), Err(BacklightError::InvalidArgument));
    assert_eq!(parse_adjustment("-2147483647"), Ok(AdjustmentSpec::RelativeRaw(i32::MIN + 1)));
}

#[test]
fn reader_parses_plain_integers() {
    assert_eq!(parse_brightness_text("1234"), Ok(1234));
    assert_eq!(parse_brightness_text("0"), Ok(0));
    assert_eq!(parse_brightness_text("4294967295"), Ok(u32::MAX));
}

#[test]
fn reader_trims_surrounding_whitespace() {
    assert_eq!(parse_brightness_text("1234\n"), Ok(1234));
    assert_eq!(parse_brightness_text("  42 \t\r\n"), Ok(42));
}

#[test]
fn reader_rejects_non_integers() {
    assert_eq!(parse_brightness_text(""), Err(BacklightError::ParseError));
    assert_eq!(parse_brightness_text("   \n"), Err(BacklightError::ParseError));
    assert_eq!(parse_brightness_text("12a"), Err(BacklightError::ParseError));
    assert_eq!(parse_brightness_text("-5"), Err(BacklightError::ParseError));
    assert_eq!(parse_brightness_text("12 34"), Err(BacklightError::ParseError));
}

#[test]
fn reader_rejects_values_beyond_u32() {
    assert_eq!(parse_brightness_text("4294967296"), Err(BacklightError::ParseError));
    assert_eq!(parse_brightness_text("99999999999999999999"), Err(BacklightError::ParseError));
}
