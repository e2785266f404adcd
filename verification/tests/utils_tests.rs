use qwen_engine::utils::{decimal_string, format_timestamp_seconds, system_settings_url};

#[test]
fn timestamp_formats_hours_minutes_seconds() {
    assert_eq!(format_timestamp_seconds(0), "00:00:00");
    assert_eq!(format_timestamp_seconds(3725), "01:02:05");
    assert_eq!(format_timestamp_seconds(59), "00:00:59");
    assert_eq!(format_timestamp_seconds(86399), "23:59:59");
    assert_eq!(format_timestamp_seconds(360000), "100:00:00");
}

#[test]
fn decimal_numbers() {
    assert_eq!(decimal_string(0), "0");
    assert_eq!(decimal_string(7), "7");
    assert_eq!(decimal_string(1600), "1600");
    assert_eq!(decimal_string(u64::MAX), u64::MAX.to_string());
}

#[test]
fn settings_url() {
    assert_eq!(
        system_settings_url("Privacy_Microphone"),
        "x-apple.systempreferences:com.apple.preference.security?Privacy_Microphone"
    );
}
