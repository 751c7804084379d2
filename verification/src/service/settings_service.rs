//! Validation and merging of settings updates.

use vstd::prelude::*;
use crate::text::{opt_str_view, opt_string_view, opt_as_str, copy_opt_string};

use crate::config::Settings;
use crate::error::AppError;
use crate::utils::time::{parse_hhmm, parsed_hhmm};

verus! {

broadcast use vstd::string::group_string_axioms;

/// The error message for a monitoring window, or `None` when it is accepted:
/// both ends absent, or both present, each a valid `HH:MM`, and different.
pub open spec fn window_error(start: Option<Seq<char>>, end: Option<Seq<char>>) -> Option<
    Seq<char>,
> {
    match (start, end) {
        (None, None) => None,
        (Some(s), Some(e)) => if parsed_hhmm(s) is None {
            Some("监控开始时间格式必须为 HH:mm"@)
        } else if parsed_hhmm(e) is None {
            Some("监控结束时间格式必须为 HH:mm"@)
        } else if parsed_hhmm(s) == parsed_hhmm(e) {
            Some("监控开始时间与结束时间不能相同"@)
        } else {
            None
        },
        _ => Some("监控时间范围必须同时设置开始和结束时间"@),
    }
}

/// The error message for settings, or `None` when they are accepted: the port
/// must not be 0 and the monitoring window must be accepted.
pub open spec fn settings_error(s: Settings) -> Option<Seq<char>> {
    if s.port == 0 {
        Some("端口必须大于 0"@)
    } else {
        window_error(opt_string_view(s.monitoring_start_time), opt_string_view(s.monitoring_end_time))
    }
}

/// Checks a monitoring window.
pub fn validate_monitoring_window(start: Option<&str>, end: Option<&str>) -> (r: Result<(), String>)
    ensures
        r is Ok <==> window_error(opt_str_view(start), opt_str_view(end)) is None,
        r matches Err(m) ==> window_error(opt_str_view(start), opt_str_view(end)) == Some(m@),
{
    match (start, end) {
        (None, None) => Ok(()),
        (Some(s), Some(e)) => {
            let ps = parse_hhmm(s);
            if ps.is_none() {
                return Err("监控开始时间格式必须为 HH:mm".to_string());
            }
            let pe = parse_hhmm(e);
            if pe.is_none() {
                return Err("监控结束时间格式必须为 HH:mm".to_string());
            }
            if ps == pe {
                return Err("监控开始时间与结束时间不能相同".to_string());
            }
            Ok(())
        },
        _ => Err("监控时间范围必须同时设置开始和结束时间".to_string()),
    }
}

/// Checks settings before they are saved.
pub fn validate(settings: &Settings) -> (r: Result<(), String>)
    ensures
        r is Ok <==> settings_error(*settings) is None,
        r matches Err(m) ==> settings_error(*settings) == Some(m@),
{
    if settings.port == 0 {
        return Err("端口必须大于 0".to_string());
    }
    validate_monitoring_window(
        opt_as_str(&settings.monitoring_start_time),
        opt_as_str(&settings.monitoring_end_time),
    )
}

/// `next` with the monitoring switch and window of `current`.
pub open spec fn updated_settings(current: Settings, next: Settings) -> Settings {
    Settings {
        monitoring_enabled: current.monitoring_enabled,
        monitoring_start_time: current.monitoring_start_time,
        monitoring_end_time: current.monitoring_end_time,
        ..next
    }
}

/// `current` with the monitoring switch and window replaced.
pub open spec fn monitoring_updated(
    current: Settings,
    enabled: bool,
    start: Option<String>,
    end: Option<String>,
) -> Settings {
    Settings {
        monitoring_enabled: enabled,
        monitoring_start_time: start,
        monitoring_end_time: end,
        ..current
    }
}

/// Only a monitoring update moves the monitoring switch and window: after
/// one, a settings update keeps what it set, and takes everything else from
/// the new settings.
pub proof fn lemma_settings_update_keeps_monitoring(
    current: Settings,
    enabled: bool,
    start: Option<String>,
    end: Option<String>,
    next: Settings,
)
    ensures
        ({
            let saved = updated_settings(monitoring_updated(current, enabled, start, end), next);
            &&& saved.monitoring_enabled == enabled
            &&& saved.monitoring_start_time == start
            &&& saved.monitoring_end_time == end
            &&& saved.port == next.port
            &&& saved.host == next.host
            &&& saved.local_token == next.local_token
        }),
{
}

/// The settings that an update stores: `next`, checked, keeping the current
/// monitoring switch and window (those change only through
/// `update_monitoring`).
pub fn update(current: &Settings, next: Settings) -> (r: Result<Settings, AppError>)
    ensures
        r is Ok <==> settings_error(next) is None,
        r matches Err(e) ==> (e matches AppError::BadRequest(m) && settings_error(next) == Some(
            m@,
        )),
        r matches Ok(s) ==> s == updated_settings(*current, next),
{
    match validate(&next) {
        Err(m) => Err(AppError::BadRequest(m)),
        Ok(()) => {
            let mut next = next;
            next.monitoring_enabled = current.monitoring_enabled;
            next.monitoring_start_time = copy_opt_string(&current.monitoring_start_time);
            next.monitoring_end_time = copy_opt_string(&current.monitoring_end_time);
            Ok(next)
        },
    }
}

/// The settings that a monitoring update stores: the current settings with
/// the monitoring switch and window replaced, once the window is checked.
pub fn update_monitoring(
    current: &Settings,
    monitoring_enabled: bool,
    monitoring_start_time: Option<String>,
    monitoring_end_time: Option<String>,
) -> (r: Result<Settings, AppError>)
    ensures
        r is Ok <==> window_error(
            opt_string_view(monitoring_start_time),
            opt_string_view(monitoring_end_time),
        ) is None,
        r matches Err(e) ==> (e matches AppError::BadRequest(m) && window_error(
            opt_string_view(monitoring_start_time),
            opt_string_view(monitoring_end_time),
        ) == Some(m@)),
        r matches Ok(s) ==> s == monitoring_updated(
            *current,
            monitoring_enabled,
            monitoring_start_time,
            monitoring_end_time,
        ),
{
    match validate_monitoring_window(
        opt_as_str(&monitoring_start_time),
        opt_as_str(&monitoring_end_time),
    ) {
        Err(m) => Err(AppError::BadRequest(m)),
        Ok(()) => {
            Ok(
                Settings {
                    host: current.host.clone(),
                    port: current.port,
                    upstream_timeout_seconds: current.upstream_timeout_seconds,
                    first_token_timeout_seconds: current.first_token_timeout_seconds,
                    request_retry_attempts: current.request_retry_attempts,
                    upstream_proxy_enabled: current.upstream_proxy_enabled,
                    upstream_proxy_url: current.upstream_proxy_url.clone(),
                    monitoring_enabled,
                    monitoring_start_time,
                    monitoring_end_time,
                    local_token: current.local_token.clone(),
                    launch_at_login: current.launch_at_login,
                },
            )
        },
    }
}

} // verus!
