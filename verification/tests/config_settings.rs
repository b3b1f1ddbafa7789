use chrono_tz::Tz;
use scheduler_rs::config::{checked_config_from_settings, config_from_settings, keep_non_empty, ConfigError};
use std::time::Duration;

fn s(v: &str) -> Option<String> {
    Some(v.to_string())
}

fn refusal(message: &str, cause: Option<&str>) -> ConfigError {
    ConfigError { message: message.to_string(), cause: cause.map(String::from) }
}

#[test]
fn defaults_apply_when_nothing_is_set() {
    let c = config_from_settings(None, None, None, None, None).unwrap();
    assert_eq!(c.scheduler_timezone, Tz::UTC);
    assert_eq!(c.schedule_interval, Duration::from_secs(60));
    assert_eq!(c.command_timeout, Duration::from_secs(600));
    assert_eq!(c.compose_project_name, None);
    assert_eq!(c.docker_context, None);
}

#[test]
fn settings_are_read() {
    let c = config_from_settings(s("Europe/Paris"), s("5"), s("30"), s("shop"), s("remote")).unwrap();
    assert_eq!(c.scheduler_timezone, Tz::Europe__Paris);
    assert_eq!(c.schedule_interval, Duration::from_secs(300));
    assert_eq!(c.command_timeout, Duration::from_secs(30));
    assert_eq!(c.compose_project_name, s("shop"));
    assert_eq!(c.docker_context, s("remote"));
}

#[test]
fn config_debug_shows_durations() {
    let c = config_from_settings(None, None, None, None, None).unwrap();
    let text = format!("{:?}", c);
    assert!(text.contains("schedule_interval: 60s"), "{}", text);
    assert!(text.contains("command_timeout: 600s"), "{}", text);
}

#[test]
fn empty_names_count_as_unset() {
    let c = config_from_settings(None, None, None, s(""), s("")).unwrap();
    assert_eq!(c.compose_project_name, None);
    assert_eq!(c.docker_context, None);
    assert_eq!(keep_non_empty(s("x")), s("x"));
    assert_eq!(keep_non_empty(None), None);
}

#[test]
fn unknown_time_zone_is_refused() {
    let e = config_from_settings(s("Mars/Olympus"), s("bad"), None, None, None).unwrap_err();
    assert_eq!(e, refusal("Invalid SCHEDULER_TIMEZONE 'Mars/Olympus': failed to parse timezone", None));
    let e = config_from_settings(s(""), None, None, None, None).unwrap_err();
    assert_eq!(e, refusal("Invalid SCHEDULER_TIMEZONE '': failed to parse timezone", None));
}

#[test]
fn bad_interval_is_refused_with_its_cause() {
    let e = config_from_settings(None, s("ten"), s("bad"), None, None).unwrap_err();
    assert_eq!(
        e,
        refusal("Failed to parse SCHEDULE_INTERVAL_MINUTES as an integer", Some("invalid digit found in string"))
    );
    let e = config_from_settings(None, s(""), None, None, None).unwrap_err();
    assert_eq!(
        e,
        refusal("Failed to parse SCHEDULE_INTERVAL_MINUTES as an integer", Some("cannot parse integer from empty string"))
    );
    let e = config_from_settings(None, s("99999999999999999999"), None, None, None).unwrap_err();
    assert_eq!(
        e,
        refusal("Failed to parse SCHEDULE_INTERVAL_MINUTES as an integer", Some("number too large to fit in target type"))
    );
}

#[test]
fn bad_timeout_is_refused_with_its_cause() {
    let e = config_from_settings(None, None, s("-5"), None, None).unwrap_err();
    assert_eq!(
        e,
        refusal("Failed to parse COMMAND_TIMEOUT_SECONDS as an integer", Some("invalid digit found in string"))
    );
}

#[test]
fn refusal_causes_match_std_messages() {
    for text in ["", "+", "-", "x1", "1x", "18446744073709551616", "99999999999999999999x", "١"] {
        let ours = config_from_settings(None, None, s(text), None, None).unwrap_err();
        let std_cause = text.parse::<u64>().unwrap_err().to_string();
        assert_eq!(ours.cause, Some(std_cause), "input {:?}", text);
    }
}

#[test]
fn checked_settings_refuse_an_interval_that_overflows() {
    let huge = (u64::MAX / 60 + 1).to_string();
    assert!(checked_config_from_settings(None, Some(huge.clone()), None, None, None).is_none());
    let largest = (u64::MAX / 60).to_string();
    let c = checked_config_from_settings(None, Some(largest), None, None, None).unwrap().unwrap();
    assert_eq!(c.schedule_interval, Duration::from_secs((u64::MAX / 60) * 60));
    // The time zone is checked first, so the conversion is never reached.
    let e = checked_config_from_settings(s("Nowhere"), Some(huge), None, None, None).unwrap().unwrap_err();
    assert_eq!(e, refusal("Invalid SCHEDULER_TIMEZONE 'Nowhere': failed to parse timezone", None));
}

#[test]
fn config_clones_keep_every_setting() {
    let c = config_from_settings(s("Asia/Tokyo"), s("2"), s("9"), s("p"), None).unwrap();
    let d = c.clone();
    assert_eq!(d.scheduler_timezone, Tz::Asia__Tokyo);
    assert_eq!(d.schedule_interval, Duration::from_secs(120));
    assert_eq!(d.command_timeout, Duration::from_secs(9));
    assert_eq!(d.compose_project_name, s("p"));
    assert_eq!(d.docker_context, None);
}
