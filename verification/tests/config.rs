use saki_home_bot::config::{Config, ConfigError, Setting, Settings};
use saki_home_bot::integer::{parse_below, parse_i64};

fn settings(
    tenant: Option<&str>,
    hour: Option<&str>,
    chat: Option<&str>,
    threshold: Option<&str>,
) -> Settings {
    Settings {
        tenant_id: tenant.map(|s| s.to_string()),
        report_hour: hour.map(|s| s.to_string()),
        target_chat_id: chat.map(|s| s.to_string()),
        warning_threshold: threshold.map(|s| s.to_string()),
    }
}

fn error_of(settings: Settings) -> ConfigError {
    match Config::from_settings(&settings) {
        Ok(_) => panic!("a configuration was made"),
        Err(error) => error,
    }
}

fn config_of(settings: Settings) -> Config {
    match Config::from_settings(&settings) {
        Ok(config) => config,
        Err(error) => panic!("no configuration: {}", error.describe()),
    }
}

#[test]
fn all_four_settings_are_taken() {
    let config = config_of(settings(Some("T-1"), Some("23"), Some("-1001234"), Some("12.5")));
    assert_eq!(config.tenant_id(), "T-1");
    assert_eq!(config.report_hour(), 23);
    assert_eq!(config.target_chat_id(), -1001234);
    assert_eq!(config.warning_threshold().to_text(), "12.5");
    assert_eq!(config.monitor_interval(), 300);
}

#[test]
fn hour_and_threshold_have_defaults() {
    let config = config_of(settings(Some("T"), None, Some("555"), None));
    assert_eq!(config.report_hour(), 7);
    assert_eq!(config.warning_threshold().to_text(), "30");
    assert_eq!(config.target_chat_id(), 555);
}

#[test]
fn an_empty_tenant_is_taken_as_it_is() {
    let config = config_of(settings(Some(""), None, Some("1"), None));
    assert_eq!(config.tenant_id(), "");
}

#[test]
fn a_missing_tenant_is_named() {
    let error = error_of(settings(None, Some("7"), Some("555"), Some("30")));
    assert_eq!(error, ConfigError::Missing(Setting::TenantId));
    assert_eq!(error.describe(), "missing setting TENID");
}

#[test]
fn a_missing_chat_is_named() {
    let error = error_of(settings(Some("T"), Some("7"), None, Some("30")));
    assert_eq!(error, ConfigError::Missing(Setting::TargetChatId));
    assert_eq!(error.setting(), Setting::TargetChatId);
    assert_eq!(error.describe(), "missing setting CHAT_ID");
}

#[test]
fn an_hour_that_is_none_is_refused() {
    for hour in ["24", "99", "-1", "-0", "", "7.0", "seven", " 7", "7 ", "0x7", "1e1", "+"] {
        let error = error_of(settings(Some("T"), Some(hour), Some("555"), None));
        assert_eq!(error, ConfigError::Invalid(Setting::ReportHour), "hour {:?}", hour);
        assert_eq!(error.describe(), "invalid value for setting HOUR");
    }
}

#[test]
fn an_hour_may_be_written_in_more_than_one_way() {
    for (text, hour) in [("0", 0u8), ("7", 7), ("+7", 7), ("007", 7), ("23", 23), ("+023", 23)] {
        let config = config_of(settings(Some("T"), Some(text), Some("555"), None));
        assert_eq!(config.report_hour(), hour, "hour {:?}", text);
    }
}

#[test]
fn a_chat_that_is_no_number_is_refused() {
    for chat in ["", "abc", "12a", "1.5", "-", "+", " 5", "9223372036854775808", "-9223372036854775809"] {
        let error = error_of(settings(Some("T"), None, Some(chat), None));
        assert_eq!(error, ConfigError::Invalid(Setting::TargetChatId), "chat {:?}", chat);
        assert_eq!(error.describe(), "invalid value for setting CHAT_ID");
    }
}

#[test]
fn a_threshold_that_is_no_number_is_refused() {
    for threshold in ["", "thirty", "3e1", "30.", ".5", "+30", "nan", "inf"] {
        let error = error_of(settings(Some("T"), None, Some("555"), Some(threshold)));
        assert_eq!(error, ConfigError::Invalid(Setting::WarningThreshold), "{:?}", threshold);
        assert_eq!(error.describe(), "invalid value for setting WARN_DIANFEI");
    }
}

#[test]
fn the_first_fault_is_the_one_reported() {
    assert_eq!(
        error_of(settings(None, Some("99"), None, Some("x"))),
        ConfigError::Missing(Setting::TenantId)
    );
    assert_eq!(
        error_of(settings(Some("T"), Some("99"), None, Some("x"))),
        ConfigError::Invalid(Setting::ReportHour)
    );
    assert_eq!(
        error_of(settings(Some("T"), Some("9"), None, Some("x"))),
        ConfigError::Missing(Setting::TargetChatId)
    );
    assert_eq!(
        error_of(settings(Some("T"), Some("9"), Some("y"), Some("x"))),
        ConfigError::Invalid(Setting::TargetChatId)
    );
    assert_eq!(
        error_of(settings(Some("T"), Some("9"), Some("1"), Some("x"))),
        ConfigError::Invalid(Setting::WarningThreshold)
    );
}

#[test]
fn each_setting_has_its_key() {
    assert_eq!(Setting::TenantId.key(), "TENID");
    assert_eq!(Setting::ReportHour.key(), "HOUR");
    assert_eq!(Setting::TargetChatId.key(), "CHAT_ID");
    assert_eq!(Setting::WarningThreshold.key(), "WARN_DIANFEI");
}

#[test]
fn the_pace_of_the_monitor_can_be_changed() {
    let config = config_of(settings(Some("T"), None, Some("555"), None)).with_monitor_interval(60);
    assert_eq!(config.monitor_interval(), 60);
    assert_eq!(config.target_chat_id(), 555);
    assert_eq!(config.report_hour(), 7);
    assert_eq!(config.tenant_id(), "T");
    assert_eq!(config.warning_threshold().to_text(), "30");
}

#[test]
fn whole_numbers_are_read_to_the_ends_of_their_range() {
    assert_eq!(parse_i64("0"), Some(0));
    assert_eq!(parse_i64("-0"), Some(0));
    assert_eq!(parse_i64("+0"), Some(0));
    assert_eq!(parse_i64("555"), Some(555));
    assert_eq!(parse_i64("+555"), Some(555));
    assert_eq!(parse_i64("-1001234567890"), Some(-1001234567890));
    assert_eq!(parse_i64("9223372036854775807"), Some(i64::MAX));
    assert_eq!(parse_i64("-9223372036854775808"), Some(i64::MIN));
    assert_eq!(parse_i64("0000000000000000000000009223372036854775807"), Some(i64::MAX));
    assert_eq!(parse_i64("9223372036854775808"), None);
    assert_eq!(parse_i64("-9223372036854775809"), None);
    assert_eq!(parse_i64("99999999999999999999999999999999999999999"), None);
}

#[test]
fn what_is_no_whole_number_is_refused() {
    for text in ["", "+", "-", "+-1", "--1", "1-", "1+1", "１", "1 ", " 1", "1.0", "1_000", "a"] {
        assert_eq!(parse_i64(text), None, "{:?}", text);
    }
}

#[test]
fn natural_numbers_are_read_below_a_bound() {
    assert_eq!(parse_below("0", 24), Some(0));
    assert_eq!(parse_below("23", 24), Some(23));
    assert_eq!(parse_below("+23", 24), Some(23));
    assert_eq!(parse_below("24", 24), None);
    assert_eq!(parse_below("-1", 24), None);
    assert_eq!(parse_below("-0", 24), None);
    assert_eq!(parse_below("0", 0), None);
    assert_eq!(parse_below("18446744073709551614", u64::MAX), Some(u64::MAX - 1));
    assert_eq!(parse_below("18446744073709551615", u64::MAX), None);
    assert_eq!(parse_below("", 24), None);
    assert_eq!(parse_below("+", 24), None);
}
