use backlight_control_rs::Action;
use backlight_control_rs::AdjustmentSpec;
use backlight_control_rs::BacklightError;
use backlight_control_rs::compute_target;
use backlight_control_rs::decide_action;
use backlight_control_rs::format_brightness;
use backlight_control_rs::parse_adjustment;
use backlight_control_rs::stats_exit_success;
use backlight_control_rs::validate_brightness;

#[test]
fn stats_flag_wins_over_value() {
    assert_eq!(decide_action(true, Some("+10%")), Ok(Action::ShowStats));
    assert_eq!(decide_action(true, None), Ok(Action::ShowStats));
}

#[test]
fn no_arguments_means_usage_help() {
    assert_eq!(decide_action(false, None), Ok(Action::ShowUsage));
}

#[test]
fn empty_value_means_usage_help() {
    assert_eq!(decide_action(false, Some("")), Ok(Action::ShowUsage));
}

#[test]
fn a_value_selects_set_mode() {
    assert_eq!(
        decide_action(false, Some("+10%")),
        Ok(Action::SetValue(AdjustmentSpec::RelativePercent(10)))
    );
}

#[test]
fn a_malformed_value_is_rejected_before_any_work() {
    assert_eq!(decide_action(false, Some("abc")), Err(BacklightError::InvalidArgument));
}

#[test]
fn stats_exit_requires_both_reads() {
    assert!(stats_exit_success(true, true));
    assert!(!stats_exit_success(true, false));
    assert!(!stats_exit_success(false, true));
    assert!(!stats_exit_success(false, false));
}

#[test]
fn writer_check_accepts_in_range_values() {
    assert_eq!(validate_brightness(50, 100), Ok(()));
    assert_eq!(validate_brightness(100, 100), Ok(()));
    assert_eq!(validate_brightness(0, 0), Ok(()));
}

#[test]
fn writer_check_rejects_values_above_max() {
    assert_eq!(validate_brightness(101, 100), Err(BacklightError::InvalidValue));
    assert_eq!(validate_brightness(1, 0), Err(BacklightError::InvalidValue));
}

#[test]
fn formats_decimal_text() {
    assert_eq!(format_brightness(0), "0");
    assert_eq!(format_brightness(60), "60");
    assert_eq!(format_brightness(100), "100");
    assert_eq!(format_brightness(4294967295), "4294967295");
}

#[test]
fn set_mode_pipeline_for_plus_ten_percent() {
    let spec = parse_adjustment("+10%").unwrap();
    assert_eq!(spec, AdjustmentSpec::RelativePercent(10));
    let target = compute_target(50, 100, spec);
    assert_eq!(target, 60);
    assert_eq!(validate_brightness(target, 100), Ok(()));
    assert_eq!(format_brightness(target), "60");
}
