use crate::text::{
    int_error_message, int_error_text, parse_u64, parse_u64_checked, parse_u64_outcome,
    spec_parse_u64,
};
use chrono_tz::Tz;
use std::time::Duration;
use vstd::prelude::*;

verus! {

#[verifier::external_type_specification]
#[verifier::external_body]
pub struct ExTz(Tz);

/// `<chrono_tz::Tz as Clone>::clone`, which the crate derives for its
/// field-less zone enum: the copy is the same zone.
pub assume_specification[ <Tz as Clone>::clone ](tz: &Tz) -> (r: Tz)
    ensures
        r == *tz,
;

/// The span of `secs` whole seconds, as `Duration::from_secs` makes it.
pub uninterp spec fn seconds(secs: u64) -> Duration;

/// `Duration::from_secs`: the result depends on `secs` alone.
pub assume_specification[ Duration::from_secs ](secs: u64) -> (d: Duration)
    ensures
        d == seconds(secs),
;

/// `<Duration as Clone>::clone`: std derives `Clone` and `Copy` for
/// `Duration`, so the copy is the same span.
pub assume_specification[ <Duration as Clone>::clone ](d: &Duration) -> (r: Duration)
    ensures
        r == *d,
;

/// The scheduler's settings.
#[derive(Debug, Clone)]
pub struct Config {
    /// The time zone in which cron schedules are read.
    pub scheduler_timezone: Tz,
    /// How often containers are scanned again.
    pub schedule_interval: Duration,
    /// How long one command may run.
    pub command_timeout: Duration,
    /// The Compose project whose containers are scanned and commanded.
    pub compose_project_name: Option<String>,
    /// The Docker context that commands use.
    pub docker_context: Option<String>,
}

/// The zone that `chrono_tz::Tz` has under the name `name`, if it has one.
pub uninterp spec fn zone_named(name: Seq<char>) -> Option<Tz>;

/// Whether `name` is a time zone name that `chrono_tz::Tz` knows.
pub open spec fn is_timezone_name(name: Seq<char>) -> bool {
    zone_named(name) is Some
}

/// `<chrono_tz::Tz as FromStr>::from_str`, which looks `name` up in the
/// crate's fixed table of zone names: it gives the zone listed under `name`,
/// and fails, with the message `failed to parse timezone`, exactly for the
/// names not in the table.
#[verifier::external_body]
fn parse_timezone(name: &str) -> (r: Result<Tz, String>)
    ensures
        r is Ok <==> is_timezone_name(name@),
        r matches Ok(tz) ==> zone_named(name@) == Some(tz),
        r matches Err(m) ==> m@ == "failed to parse timezone"@,
{
    match name.parse::<Tz>() {
        Ok(tz) => Ok(tz),
        Err(e) => Err(e.to_string()),
    }
}

/// The setting `value`, or `default` when it is not set.
pub open spec fn setting_or(value: Option<Seq<char>>, default: Seq<char>) -> Seq<char> {
    match value {
        Some(v) => v,
        None => default,
    }
}

/// The setting `value` when it is set and not empty.
pub open spec fn non_empty_setting(value: Option<Seq<char>>) -> Option<Seq<char>> {
    match value {
        Some(v) => if v.len() > 0 {
            Some(v)
        } else {
            None
        },
        None => None,
    }
}

/// The time zone text that the settings select (`UTC` by default).
pub open spec fn timezone_text(timezone: Option<Seq<char>>) -> Seq<char> {
    setting_or(timezone, "UTC"@)
}

/// The interval text that the settings select (one minute by default).
pub open spec fn interval_text(interval_minutes: Option<Seq<char>>) -> Seq<char> {
    setting_or(interval_minutes, "1"@)
}

/// The timeout text that the settings select (600 seconds by default).
pub open spec fn timeout_text(timeout_seconds: Option<Seq<char>>) -> Seq<char> {
    setting_or(timeout_seconds, "600"@)
}

/// Why settings are refused: the message, and the message of the error that
/// caused it, if there is one.
#[derive(Debug, Clone, PartialEq, Eq)]
pub struct ConfigError {
    pub message: String,
    pub cause: Option<String>,
}

/// The message, and the cause's message, with which a number setting is
/// refused when its text does not read as a `u64`.
pub open spec fn number_error(name: Seq<char>, text: Seq<char>) -> Option<
    (Seq<char>, Option<Seq<char>>),
> {
    match parse_u64_outcome(text) {
        Ok(_) => None,
        Err(e) => Some(("Failed to parse "@ + name + " as an integer"@, Some(int_error_message(e)))),
    }
}

/// Why the settings are refused, if they are: the time zone is checked first,
/// then the interval, then the timeout.
pub open spec fn config_error(
    timezone: Option<Seq<char>>,
    interval_minutes: Option<Seq<char>>,
    timeout_seconds: Option<Seq<char>>,
) -> Option<(Seq<char>, Option<Seq<char>>)> {
    let tz = timezone_text(timezone);
    if !is_timezone_name(tz) {
        Some(("Invalid SCHEDULER_TIMEZONE '"@ + tz + "': "@ + "failed to parse timezone"@, None))
    } else if spec_parse_u64(interval_text(interval_minutes)) is None {
        number_error("SCHEDULE_INTERVAL_MINUTES"@, interval_text(interval_minutes))
    } else if spec_parse_u64(timeout_text(timeout_seconds)) is None {
        number_error("COMMAND_TIMEOUT_SECONDS"@, timeout_text(timeout_seconds))
    } else {
        None
    }
}

/// `e` is the refusal `(message, cause)`.
pub open spec fn is_config_error(e: ConfigError, refusal: (Seq<char>, Option<Seq<char>>)) -> bool {
    e.message@ == refusal.0 && e.cause.deep_view() == refusal.1
}

/// The interval in minutes fits in 64 bits once converted to seconds, or it
/// is never converted because the settings are refused before.
pub open spec fn interval_fits(
    timezone: Option<Seq<char>>,
    interval_minutes: Option<Seq<char>>,
) -> bool {
    is_timezone_name(timezone_text(timezone)) ==> match spec_parse_u64(
        interval_text(interval_minutes),
    ) {
        Some(m) => m * 60 <= u64::MAX,
        None => true,
    }
}

/// Reads the number setting called `name` from `text`, or refuses it with
/// the parse error as its cause.
fn number_setting(name: &str, text: &str) -> (r: Result<u64, ConfigError>)
    ensures
        match parse_u64_outcome(text@) {
            Ok(v) => r == Ok::<u64, ConfigError>(v),
            Err(_) => r matches Err(e) && number_error(name@, text@) matches Some(refusal)
                && is_config_error(e, refusal),
        },
{
    match parse_u64_checked(text) {
        Ok(v) => Ok(v),
        Err(kind) => Err(
            ConfigError {
                message: "Failed to parse ".to_owned().concat(name).concat(" as an integer"),
                cause: Some(int_error_text(kind)),
            },
        ),
    }
}

/// The configuration that the settings give, or why they are refused. Each
/// setting is the raw value of its variable, `None` when unset:
/// `SCHEDULER_TIMEZONE` (default `UTC`), `SCHEDULE_INTERVAL_MINUTES` (default
/// 1), `COMMAND_TIMEOUT_SECONDS` (default 600), `COMPOSE_PROJECT_NAME` and
/// `DOCKER_CONTEXT` (empty means unset).
pub fn config_from_settings(
    timezone: Option<String>,
    interval_minutes: Option<String>,
    timeout_seconds: Option<String>,
    compose_project_name: Option<String>,
    docker_context: Option<String>,
) -> (r: Result<Config, ConfigError>)
    requires
        interval_fits(timezone.deep_view(), interval_minutes.deep_view()),
    ensures
        r is Err <==> config_error(
            timezone.deep_view(),
            interval_minutes.deep_view(),
            timeout_seconds.deep_view(),
        ) is Some,
        r matches Err(e) ==> config_error(
            timezone.deep_view(),
            interval_minutes.deep_view(),
            timeout_seconds.deep_view(),
        ) matches Some(refusal) && is_config_error(e, refusal),
        r matches Ok(c) ==> {
            &&& zone_named(timezone_text(timezone.deep_view())) == Some(c.scheduler_timezone)
            &&& spec_parse_u64(interval_text(interval_minutes.deep_view())) matches Some(m)
                && c.schedule_interval == seconds((m * 60) as u64)
            &&& spec_parse_u64(timeout_text(timeout_seconds.deep_view())) matches Some(t)
                && c.command_timeout == seconds(t)
            &&& c.compose_project_name.deep_view() == non_empty_setting(
                compose_project_name.deep_view(),
            )
            &&& c.docker_context.deep_view() == non_empty_setting(docker_context.deep_view())
        },
{
    proof {
        crate::text::lemma_parse_outcome_agrees(interval_text(interval_minutes.deep_view()));
        crate::text::lemma_parse_outcome_agrees(timeout_text(timeout_seconds.deep_view()));
    }
    let tz_text: &str = match &timezone {
        Some(t) => t.as_str(),
        None => "UTC",
    };
    let scheduler_timezone = match parse_timezone(tz_text) {
        Ok(tz) => tz,
        Err(e) => {
            return Err(
                ConfigError {
                    message: "Invalid SCHEDULER_TIMEZONE '".to_owned().concat(tz_text).concat(
                        "': ",
                    ).concat(e.as_str()),
                    cause: None,
                },
            );
        },
    };
    let interval_text: &str = match &interval_minutes {
        Some(t) => t.as_str(),
        None => "1",
    };
    let minutes = number_setting("SCHEDULE_INTERVAL_MINUTES", interval_text)?;
    let schedule_interval = Duration::from_secs(minutes * 60);
    let timeout_text: &str = match &timeout_seconds {
        Some(t) => t.as_str(),
        None => "600",
    };
    let timeout = number_setting("COMMAND_TIMEOUT_SECONDS", timeout_text)?;
    let command_timeout = Duration::from_secs(timeout);
    Ok(
        Config {
            scheduler_timezone,
            schedule_interval,
            command_timeout,
            compose_project_name: keep_non_empty(compose_project_name),
            docker_context: keep_non_empty(docker_context),
        },
    )
}

/// The setting when it is set and not empty.
pub fn keep_non_empty(value: Option<String>) -> (r: Option<String>)
    ensures
        r.deep_view() == non_empty_setting(value.deep_view()),
{
    match value {
        Some(v) => if v.as_str().unicode_len() > 0 {
            Some(v)
        } else {
            None
        },
        None => None,
    }
}

/// As [`config_from_settings`], on every input: `None` when the interval,
/// converted to seconds, would not fit in 64 bits (where the conversion
/// overflows).
pub fn checked_config_from_settings(
    timezone: Option<String>,
    interval_minutes: Option<String>,
    timeout_seconds: Option<String>,
    compose_project_name: Option<String>,
    docker_context: Option<String>,
) -> (r: Option<Result<Config, ConfigError>>)
    ensures
        r is None <==> !interval_fits(timezone.deep_view(), interval_minutes.deep_view()),
        r matches Some(res) ==> (res is Err <==> config_error(
            timezone.deep_view(),
            interval_minutes.deep_view(),
            timeout_seconds.deep_view(),
        ) is Some),
        r matches Some(Err(e)) ==> config_error(
            timezone.deep_view(),
            interval_minutes.deep_view(),
            timeout_seconds.deep_view(),
        ) matches Some(refusal) && is_config_error(e, refusal),
        r matches Some(Ok(c)) ==> {
            &&& zone_named(timezone_text(timezone.deep_view())) == Some(c.scheduler_timezone)
            &&& spec_parse_u64(interval_text(interval_minutes.deep_view())) matches Some(m)
                && c.schedule_interval == seconds((m * 60) as u64)
            &&& spec_parse_u64(timeout_text(timeout_seconds.deep_view())) matches Some(t)
                && c.command_timeout == seconds(t)
            &&& c.compose_project_name.deep_view() == non_empty_setting(
                compose_project_name.deep_view(),
            )
            &&& c.docker_context.deep_view() == non_empty_setting(docker_context.deep_view())
        },
{
    let tz_text: &str = match &timezone {
        Some(t) => t.as_str(),
        None => "UTC",
    };
    let interval_text: &str = match &interval_minutes {
        Some(t) => t.as_str(),
        None => "1",
    };
    let known_zone = parse_timezone(tz_text).is_ok();
    if known_zone {
        if let Some(m) = parse_u64(interval_text) {
            if m > u64::MAX / 60 {
                return None;
            }
        }
    }
    Some(
        config_from_settings(
            timezone,
            interval_minutes,
            timeout_seconds,
            compose_project_name,
            docker_context,
        ),
    )
}

} // verus!
