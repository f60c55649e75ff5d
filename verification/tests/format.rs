use codex_gateway_core::api::ReasoningEffort;
use codex_gateway_core::format::{
    check_rate_limits, fmt_ts, format_goal, format_models, format_rate_limits, format_session,
    format_status, format_threads, relative_ts, remaining_percent, time_or_unknown, FIRST_SECOND,
    LAST_SECOND,
};
use codex_gateway_core::protocol::{
    AccountRateLimits, Model, ModelListResponse, RateLimitSnapshot, RateLimitWindow, Thread,
    ThreadGoal,
};
use codex_gateway_core::state::SessionState;

const FIRST_OF_YEAR_1: i64 = -62_135_596_800;
const LAST_OF_YEAR_9999: i64 = 253_402_300_799;

fn window(used_percent: i32, resets_at: Option<i64>) -> Option<RateLimitWindow> {
    Some(RateLimitWindow { used_percent, resets_at })
}

fn snapshot(
    name: Option<&str>,
    id: Option<&str>,
    primary: Option<RateLimitWindow>,
    secondary: Option<RateLimitWindow>,
) -> RateLimitSnapshot {
    RateLimitSnapshot {
        limit_id: id.map(str::to_string),
        limit_name: name.map(str::to_string),
        primary,
        secondary,
    }
}

#[test]
fn no_goal() {
    assert_eq!(format_goal(None), "No goal set.");
}

#[test]
fn goal_with_and_without_budget() {
    let mut goal = ThreadGoal {
        objective: "ship it".to_string(),
        status: "active".to_string(),
        tokens_used: 1200,
        token_budget: Some(5000),
        time_used_seconds: 61,
    };
    assert_eq!(
        format_goal(Some(&goal)),
        "Goal: ship it\nStatus: `active`\nTokens: 1200 / 5000\nTime used: 61s"
    );
    goal.token_budget = None;
    assert_eq!(
        format_goal(Some(&goal)),
        "Goal: ship it\nStatus: `active`\nTokens: 1200\nTime used: 61s"
    );
}

#[test]
fn remaining_percent_is_clamped() {
    assert_eq!(remaining_percent(37), "63%");
    assert_eq!(remaining_percent(0), "100%");
    assert_eq!(remaining_percent(100), "0%");
    assert_eq!(remaining_percent(101), "0%");
    assert_eq!(remaining_percent(-5), "100%");
    assert_eq!(remaining_percent(i32::MAX), "0%");
    assert_eq!(remaining_percent(100 - i32::MAX), "100%");
}

#[test]
fn relative_times() {
    assert_eq!(relative_ts(Some(1700000000)), "<t:1700000000:R>");
    assert_eq!(relative_ts(Some(-3)), "<t:-3:R>");
    assert_eq!(relative_ts(None), "unknown");
}

#[test]
fn rate_limits_one_by_one() {
    let limits = AccountRateLimits {
        rate_limits: snapshot(Some("unused"), None, None, None),
        rate_limits_by_limit_id: Some(vec![
            snapshot(Some("Codex"), Some("codex"), window(25, Some(10)), window(140, None)),
            snapshot(None, Some("spark"), window(-1, None), None),
            snapshot(None, None, None, window(50, Some(0))),
            snapshot(None, None, None, None),
        ]),
    };
    assert!(check_rate_limits(&limits));
    assert_eq!(
        format_rate_limits(&limits),
        "Rate limits\n\
         - **Codex**: primary 75% remaining, resets <t:10:R>; secondary 0% remaining, resets unknown\n\
         - **spark**: primary 100% remaining, resets unknown\n\
         - **default**; secondary 50% remaining, resets <t:0:R>\n\
         - **default** no window data\n"
    );
}

#[test]
fn rate_limits_as_a_whole() {
    let limits = AccountRateLimits {
        rate_limits: snapshot(None, Some("codex"), window(1, None), None),
        rate_limits_by_limit_id: None,
    };
    assert_eq!(
        format_rate_limits(&limits),
        "Rate limits\n- **codex**: primary 99% remaining, resets unknown\n"
    );
    let none = AccountRateLimits {
        rate_limits: snapshot(None, Some("codex"), None, None),
        rate_limits_by_limit_id: Some(Vec::new()),
    };
    assert_eq!(format_rate_limits(&none), "Rate limits\n");
}

#[test]
fn percentages_out_of_range_are_noticed() {
    let whole = AccountRateLimits {
        rate_limits: snapshot(None, None, window(i32::MIN, None), None),
        rate_limits_by_limit_id: None,
    };
    assert!(!check_rate_limits(&whole));
    let listed = AccountRateLimits {
        rate_limits: snapshot(None, None, window(i32::MIN, None), None),
        rate_limits_by_limit_id: Some(vec![
            snapshot(None, None, window(3, None), None),
            snapshot(None, None, None, window(99 - i32::MAX, None)),
        ]),
    };
    assert!(!check_rate_limits(&listed));
    let shown = AccountRateLimits {
        rate_limits: snapshot(None, None, window(i32::MIN, None), None),
        rate_limits_by_limit_id: Some(vec![snapshot(None, None, window(100 - i32::MAX, None), None)]),
    };
    assert!(check_rate_limits(&shown));
}

#[test]
fn times_in_rfc_3339() {
    assert_eq!(fmt_ts(0), "1970-01-01T00:00:00+00:00");
    assert_eq!(fmt_ts(1431648000), "2015-05-15T00:00:00+00:00");
    assert_eq!(fmt_ts(-1), "1969-12-31T23:59:59+00:00");
}

#[test]
fn times_are_read_back() {
    assert_eq!(fmt_ts(FIRST_OF_YEAR_1), "0001-01-01T00:00:00+00:00");
    assert_eq!(fmt_ts(LAST_OF_YEAR_9999), "9999-12-31T23:59:59+00:00");
    assert_eq!(fmt_ts(951_782_400), "2000-02-29T00:00:00+00:00");
    assert_eq!(fmt_ts(4_107_542_399), "2100-02-28T23:59:59+00:00");
    assert_eq!(fmt_ts(4_107_542_400), "2100-03-01T00:00:00+00:00");
    let mut ts = FIRST_OF_YEAR_1;
    while ts <= LAST_OF_YEAR_9999 {
        let text = fmt_ts(ts);
        assert_eq!(text.len(), 25);
        assert!(text.ends_with("+00:00"));
        let read = chrono::DateTime::parse_from_rfc3339(&text).map(|time| time.timestamp());
        assert_eq!(read, Ok(ts));
        ts += 9_999_991;
    }
}

#[test]
fn every_text_of_a_time_ends_with_the_offset() {
    for ts in [FIRST_SECOND, FIRST_OF_YEAR_1 - 1, 0, LAST_OF_YEAR_9999 + 1, LAST_SECOND] {
        assert!(fmt_ts(ts).ends_with("+00:00"), "{}", fmt_ts(ts));
    }
    assert_eq!(fmt_ts(LAST_OF_YEAR_9999 + 1), "+10000-01-01T00:00:00+00:00");
    assert_eq!(fmt_ts(FIRST_OF_YEAR_1 - 1), "0000-12-31T23:59:59+00:00");
    assert_eq!(fmt_ts(-62_167_219_200), "0000-01-01T00:00:00+00:00");
    assert_eq!(fmt_ts(-62_167_219_201), "-0001-12-31T23:59:59+00:00");
    assert_eq!(fmt_ts(951_782_400 + 12_622_780_800 * 25), "+12000-02-29T00:00:00+00:00");
    assert_eq!(fmt_ts(951_782_400 - 12_622_780_800 * 30), "-10000-02-29T00:00:00+00:00");
    assert_eq!(fmt_ts(951_782_400 - 12_622_780_800 * 6), "-0400-02-29T00:00:00+00:00");
}

#[test]
fn times_out_of_range_are_unknown() {
    assert_eq!(fmt_ts(FIRST_SECOND), "-262143-01-01T00:00:00+00:00");
    assert_eq!(fmt_ts(LAST_SECOND), "+262142-12-31T23:59:59+00:00");
    assert_eq!(fmt_ts(FIRST_SECOND - 1), "unknown");
    assert_eq!(fmt_ts(LAST_SECOND + 1), "unknown");
    assert_eq!(fmt_ts(i64::MIN), "unknown");
    assert_eq!(fmt_ts(i64::MAX), "unknown");
    assert_eq!(time_or_unknown(None), "unknown");
    assert_eq!(time_or_unknown(Some("noon".to_string())), "noon");
}

#[test]
fn sessions_are_shown() {
    let mut session = SessionState::new("gpt-5".to_string());
    assert_eq!(
        format_session(&session),
        "Thread: `none`\nModel: `gpt-5`\nEffort: `Codex default`"
    );
    session.thread_id = Some("t-1".to_string());
    session.effort = Some(ReasoningEffort::High);
    assert_eq!(
        format_session(&session),
        "Thread: `t-1`\nModel: `gpt-5`\nEffort: `high`"
    );
    let limits = AccountRateLimits {
        rate_limits: snapshot(None, None, None, None),
        rate_limits_by_limit_id: None,
    };
    assert_eq!(
        format_status(&session, &limits),
        "Thread: `t-1`\nModel: `gpt-5`\nEffort: `high`\nRate limits\n- **default** no window data\n"
    );
}

fn model(number: usize, is_default: bool) -> Model {
    Model {
        model: format!("m{}", number),
        display_name: format!("Model {}", number),
        is_default,
    }
}

#[test]
fn models_are_listed() {
    let mut response = ModelListResponse { data: vec![model(1, true), model(2, false)], next_cursor: None };
    assert_eq!(
        format_models(&response),
        "Available models:\n- `m1` (Model 1) default\n- `m2` (Model 2)\n"
    );
    response.next_cursor = Some("more".to_string());
    assert_eq!(
        format_models(&response),
        "Available models:\n- `m1` (Model 1) default\n- `m2` (Model 2)\n\
         \nMore models exist; increase this command if needed."
    );
}

#[test]
fn no_more_than_the_first_models_are_listed() {
    let response = ModelListResponse {
        data: (0..30).map(|n| model(n, false)).collect(),
        next_cursor: None,
    };
    let text = format_models(&response);
    assert_eq!(text.lines().count(), 26);
    assert!(text.ends_with("- `m24` (Model 24)\n"));
}

#[test]
fn threads_are_listed() {
    let threads = vec![
        Thread {
            id: "a".to_string(),
            name: Some("First".to_string()),
            preview: "hello".to_string(),
            updated_at: 0,
        },
        Thread {
            id: "b".to_string(),
            name: None,
            preview: "hi there".to_string(),
            updated_at: i64::MAX,
        },
    ];
    assert_eq!(
        format_threads(&threads),
        "Recent threads:\n- `a` First (1970-01-01T00:00:00+00:00)\n- `b` hi there (unknown)\n"
    );
    assert_eq!(format_threads(&Vec::new()), "Recent threads:\n");
}
