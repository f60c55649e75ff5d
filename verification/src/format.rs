//! The texts with which the gateway answers.

use vstd::prelude::*;

use crate::api::ReasoningEffort;
use crate::calendar::{
    a_text_tells_one_time, a_time_is_written_in_one_way, every_second_has_a_text, tells, utc_text_of,
};
use crate::protocol::{
    AccountRateLimits, Model, ModelListResponse, RateLimitSnapshot, RateLimitWindow, Thread,
    ThreadGoal,
};
use crate::state::{SessionState, SessionView};
use crate::text::{decimal, opt_text, signed_decimal};

verus! {

/// What follows the tokens that a goal used: those that it may use, if they are limited.
pub open spec fn budget_text(budget: Option<i64>) -> Seq<char> {
    match budget {
        Some(tokens) => " / "@ + decimal(tokens as int),
        None => Seq::empty(),
    }
}

/// How a goal is shown.
pub open spec fn goal_text(goal: Option<&ThreadGoal>) -> Seq<char> {
    match goal {
        Some(goal) => "Goal: "@ + goal.objective@ + "\nStatus: `"@ + goal.status@ + "`\nTokens: "@
            + decimal(goal.tokens_used as int) + budget_text(goal.token_budget) + "\nTime used: "@
            + decimal(goal.time_used_seconds as int) + "s"@,
        None => "No goal set."@,
    }
}

/// Shows a goal.
pub fn format_goal(goal: Option<&ThreadGoal>) -> (text: String)
    ensures
        text@ == goal_text(goal),
{
    match goal {
        Some(goal) => {
            let mut text = "Goal: ".to_owned();
            text.append(goal.objective.as_str());
            text.append("\nStatus: `");
            text.append(goal.status.as_str());
            text.append("`\nTokens: ");
            text.append(signed_decimal(goal.tokens_used).as_str());
            let budget = match goal.token_budget {
                Some(tokens) => " / ".to_owned().concat(signed_decimal(tokens).as_str()),
                None => String::new(),
            };
            text.append(budget.as_str());
            text.append("\nTime used: ");
            text.append(signed_decimal(goal.time_used_seconds).as_str());
            text.append("s");
            text
        },
        None => "No goal set.".to_owned(),
    }
}

/// The percentages of which `100 - used_percent` is an `i32`.
pub open spec fn percent_fits(used_percent: i32) -> bool {
    100 - used_percent <= i32::MAX
}

/// How much is left, within the bounds of a percentage.
pub open spec fn percent_left(used_percent: int) -> int {
    if used_percent < 0 {
        100
    } else if used_percent > 100 {
        0
    } else {
        100 - used_percent
    }
}

/// How the rest of a limit is shown.
pub open spec fn remaining_text(used_percent: i32) -> Seq<char> {
    decimal(percent_left(used_percent as int)) + "%"@
}

/// Shows how much of a limit is left.
pub fn remaining_percent(used_percent: i32) -> (text: String)
    requires
        percent_fits(used_percent),
    ensures
        text@ == remaining_text(used_percent),
{
    let difference: i32 = 100 - used_percent;
    let left: i32 = if difference < 0 {
        0
    } else if difference > 100 {
        100
    } else {
        difference
    };
    signed_decimal(left as i64).concat("%")
}

/// How a point in time is shown in relation to now.
pub open spec fn relative_text(ts: Option<i64>) -> Seq<char> {
    match ts {
        Some(seconds) => "<t:"@ + decimal(seconds as int) + ":R>"@,
        None => "unknown"@,
    }
}

/// Shows a point in time in relation to now.
pub fn relative_ts(ts: Option<i64>) -> (text: String)
    ensures
        text@ == relative_text(ts),
{
    match ts {
        Some(seconds) => "<t:".to_owned().concat(signed_decimal(seconds).as_str()).concat(":R>"),
        None => "unknown".to_owned(),
    }
}

/// How a window of a rate limit is shown.
pub open spec fn window_text(window: RateLimitWindow) -> Seq<char> {
    remaining_text(window.used_percent) + " remaining, resets "@ + relative_text(window.resets_at)
}

/// The name of a rate limit, or else its id.
pub open spec fn limit_name(snapshot: RateLimitSnapshot) -> Seq<char> {
    match (snapshot.limit_name, snapshot.limit_id) {
        (Some(name), _) => name@,
        (None, Some(id)) => id@,
        (None, None) => "default"@,
    }
}

/// What is shown of a rate limit behind its name.
pub open spec fn windows_text(snapshot: RateLimitSnapshot) -> Seq<char> {
    match (snapshot.primary, snapshot.secondary) {
        (Some(primary), Some(secondary)) => ": primary "@ + window_text(primary) + "; secondary "@
            + window_text(secondary),
        (Some(primary), None) => ": primary "@ + window_text(primary),
        (None, Some(secondary)) => "; secondary "@ + window_text(secondary),
        (None, None) => " no window data"@,
    }
}

/// The line of a rate limit.
pub open spec fn snapshot_text(snapshot: RateLimitSnapshot) -> Seq<char> {
    "- **"@ + limit_name(snapshot) + "**"@ + windows_text(snapshot) + "\n"@
}

/// The lines of rate limits.
pub open spec fn snapshot_lines(snapshots: Seq<RateLimitSnapshot>) -> Seq<char>
    decreases snapshots.len(),
{
    if snapshots.len() == 0 {
        Seq::empty()
    } else {
        snapshot_lines(snapshots.drop_last()) + snapshot_text(snapshots.last())
    }
}

/// The rate limits that are shown.
pub open spec fn shown_limits(response: AccountRateLimits) -> Seq<RateLimitSnapshot> {
    match response.rate_limits_by_limit_id {
        Some(snapshots) => snapshots@,
        None => seq![response.rate_limits],
    }
}

/// How the rate limits are shown.
pub open spec fn rate_limits_text(response: AccountRateLimits) -> Seq<char> {
    "Rate limits\n"@ + snapshot_lines(shown_limits(response))
}

/// The percentages of a rate limit can be subtracted from a hundred.
pub open spec fn snapshot_fits(snapshot: RateLimitSnapshot) -> bool {
    &&& snapshot.primary matches Some(window) ==> percent_fits(window.used_percent)
    &&& snapshot.secondary matches Some(window) ==> percent_fits(window.used_percent)
}

/// The percentages of all rate limits that are shown can be subtracted from a hundred.
pub open spec fn limits_fit(response: AccountRateLimits) -> bool {
    forall|i: int|
        0 <= i < shown_limits(response).len() ==> snapshot_fits(
            #[trigger] shown_limits(response)[i],
        )
}

/// Whether the percentage of a window can be subtracted from a hundred.
fn check_window(window: &Option<RateLimitWindow>) -> (fits: bool)
    ensures
        fits == (window matches Some(w) ==> percent_fits(w.used_percent)),
{
    match window {
        Some(w) => w.used_percent >= 100 - i32::MAX,
        None => true,
    }
}

/// Whether the percentages of all rate limits that are shown can be subtracted from a hundred.
pub fn check_rate_limits(response: &AccountRateLimits) -> (fit: bool)
    ensures
        fit == limits_fit(*response),
{
    match &response.rate_limits_by_limit_id {
        Some(snapshots) => {
            for i in 0..snapshots.len()
                invariant
                    shown_limits(*response) == snapshots@,
                    forall|j: int| 0 <= j < i ==> snapshot_fits(#[trigger] snapshots@[j]),
            {
                if !(check_window(&snapshots[i].primary) && check_window(&snapshots[i].secondary)) {
                    assert(!snapshot_fits(shown_limits(*response)[i as int]));
                    return false;
                }
            }
            true
        },
        None => {
            assert(shown_limits(*response)[0] == response.rate_limits);
            check_window(&response.rate_limits.primary) && check_window(
                &response.rate_limits.secondary,
            )
        },
    }
}

/// Shows a window of a rate limit.
fn format_window(window: &RateLimitWindow) -> (text: String)
    requires
        percent_fits(window.used_percent),
    ensures
        text@ == window_text(*window),
{
    remaining_percent(window.used_percent).concat(" remaining, resets ").concat(
        relative_ts(window.resets_at).as_str(),
    )
}

/// Shows a rate limit as a line.
fn format_snapshot(snapshot: &RateLimitSnapshot) -> (text: String)
    requires
        snapshot_fits(*snapshot),
    ensures
        text@ == snapshot_text(*snapshot),
{
    let name: &str = match &snapshot.limit_name {
        Some(name) => name.as_str(),
        None => match &snapshot.limit_id {
            Some(id) => id.as_str(),
            None => "default",
        },
    };
    let mut windows = String::new();
    if let Some(primary) = &snapshot.primary {
        windows.append(": primary ");
        windows.append(format_window(primary).as_str());
    }
    if let Some(secondary) = &snapshot.secondary {
        windows.append("; secondary ");
        windows.append(format_window(secondary).as_str());
    }
    if snapshot.primary.is_none() && snapshot.secondary.is_none() {
        windows.append(" no window data");
    }
    assert(windows@ =~= windows_text(*snapshot));
    let mut text = "- **".to_owned();
    text.append(name);
    text.append("**");
    text.append(windows.as_str());
    text.append("\n");
    text
}

/// Shows the rate limits of the account.
pub fn format_rate_limits(response: &AccountRateLimits) -> (text: String)
    requires
        limits_fit(*response),
    ensures
        text@ == rate_limits_text(*response),
{
    let mut out = "Rate limits\n".to_owned();
    match &response.rate_limits_by_limit_id {
        Some(snapshots) => {
            let ghost shown = snapshots@;
            assert(out@ =~= "Rate limits\n"@ + snapshot_lines(shown.take(0)));
            for i in 0..snapshots.len()
                invariant
                    limits_fit(*response),
                    shown == snapshots@,
                    shown_limits(*response) == shown,
                    out@ == "Rate limits\n"@ + snapshot_lines(shown.take(i as int)),
            {
                assert(shown.take(i + 1).drop_last() =~= shown.take(i as int));
                assert(snapshot_fits(shown_limits(*response)[i as int]));
                let line = format_snapshot(&snapshots[i]);
                out.append(line.as_str());
                assert(out@ =~= "Rate limits\n"@ + snapshot_lines(shown.take(i + 1)));
            }
            assert(shown.take(shown.len() as int) =~= shown);
        },
        None => {
            assert(snapshot_fits(shown_limits(*response)[0]));
            let line = format_snapshot(&response.rate_limits);
            out.append(line.as_str());
            let ghost shown = shown_limits(*response);
            assert(shown.drop_last() =~= Seq::empty());
            reveal_with_fuel(snapshot_lines, 2);
            assert(snapshot_lines(shown) =~= snapshot_text(response.rate_limits));
        },
    }
    out
}

/// The first second that has an RFC 3339 text: the year -262143 begins with it.
pub const FIRST_SECOND: i64 = -8_334_601_228_800;

/// The last second that has an RFC 3339 text: the year 262142 ends with it.
pub const LAST_SECOND: i64 = 8_210_266_876_799;

/// The RFC 3339 text of `ts` seconds after the start of 1970, UTC, if there is one.
pub open spec fn rfc3339_utc(ts: i64) -> Option<Seq<char>> {
    if FIRST_SECOND <= ts <= LAST_SECOND {
        Some(utc_text_of(ts as int))
    } else {
        None
    }
}

/// Calls `chrono::DateTime::<Utc>::from_timestamp` and, where it gives a time,
/// `DateTime::to_rfc3339`. Trusted: there is a text exactly for the seconds of the years that chrono
/// knows, and it is that of the point in time `ts` seconds after the start of 1970: the date by the
/// Gregorian calendar, the time without a fraction, and the offset of UTC.
#[verifier::external_body]
fn utc_text(ts: i64) -> (text: Option<String>)
    ensures
        text is Some <==> FIRST_SECOND <= ts <= LAST_SECOND,
        text matches Some(t) ==> tells(t@, ts as int),
{
    chrono::DateTime::<chrono::Utc>::from_timestamp(ts, 0).map(|time| time.to_rfc3339())
}

/// How a point in time is shown, given its RFC 3339 text.
pub open spec fn time_text(text: Option<Seq<char>>) -> Seq<char> {
    match text {
        Some(t) => t,
        None => "unknown"@,
    }
}

/// Shows a point in time, given its RFC 3339 text.
pub fn time_or_unknown(text: Option<String>) -> (shown: String)
    ensures
        shown@ == time_text(opt_text(text)),
{
    match text {
        Some(t) => t,
        None => "unknown".to_owned(),
    }
}

/// Shows a point in time. Read back, the text gives the seconds that went in.
pub fn fmt_ts(ts: i64) -> (text: String)
    ensures
        text@ == time_text(rfc3339_utc(ts)),
        text@ == "unknown"@ <==> !(FIRST_SECOND <= ts <= LAST_SECOND),
        FIRST_SECOND <= ts <= LAST_SECOND ==> tells(text@, ts as int),
        FIRST_SECOND <= ts <= LAST_SECOND ==> "+00:00"@.is_suffix_of(text@),
{
    let text = utc_text(ts);
    proof {
        if text is Some {
            every_second_has_a_text(ts as int);
            a_time_is_written_in_one_way(text->0@, utc_text_of(ts as int), ts as int);
            a_text_tells_one_time(text->0@, ts as int, ts as int);
            reveal_strlit("unknown");
        }
    }
    time_or_unknown(text)
}

/// The effort of a session as it is shown.
pub open spec fn effort_name(effort: Option<ReasoningEffort>) -> Seq<char> {
    match effort {
        Some(effort) => effort.name(),
        None => "Codex default"@,
    }
}

/// How a session is shown.
pub open spec fn session_text(session: SessionView) -> Seq<char> {
    "Thread: `"@ + (match session.thread_id {
        Some(thread_id) => thread_id,
        None => "none"@,
    }) + "`\nModel: `"@ + session.model + "`\nEffort: `"@ + effort_name(session.effort) + "`"@
}

/// Shows a session.
pub fn format_session(session: &SessionState) -> (text: String)
    ensures
        text@ == session_text(session@),
{
    let mut text = "Thread: `".to_owned();
    match &session.thread_id {
        Some(thread_id) => text.append(thread_id.as_str()),
        None => text.append("none"),
    }
    text.append("`\nModel: `");
    text.append(session.model.as_str());
    text.append("`\nEffort: `");
    match session.effort {
        Some(effort) => text.append(effort.as_str()),
        None => text.append("Codex default"),
    }
    text.append("`");
    text
}

/// How a session is shown together with the rate limits.
pub open spec fn status_text(session: SessionView, limits: AccountRateLimits) -> Seq<char> {
    session_text(session) + "\n"@ + rate_limits_text(limits)
}

/// Shows a session together with the rate limits.
pub fn format_status(session: &SessionState, limits: &AccountRateLimits) -> (text: String)
    requires
        limits_fit(*limits),
    ensures
        text@ == status_text(session@, *limits),
{
    format_session(session).concat("\n").concat(format_rate_limits(limits).as_str())
}

/// How many models are shown at most.
pub const SHOWN_MODELS: usize = 25;

/// The line of a model.
pub open spec fn model_text(model: Model) -> Seq<char> {
    "- `"@ + model.model@ + "` ("@ + model.display_name@ + ")"@ + (if model.is_default {
        " default"@
    } else {
        Seq::empty()
    }) + "\n"@
}

/// The lines of models.
pub open spec fn model_lines(models: Seq<Model>) -> Seq<char>
    decreases models.len(),
{
    if models.len() == 0 {
        Seq::empty()
    } else {
        model_lines(models.drop_last()) + model_text(models.last())
    }
}

/// The models of a page that are shown.
pub open spec fn shown_models(models: Seq<Model>) -> Seq<Model> {
    if models.len() <= SHOWN_MODELS {
        models
    } else {
        models.take(SHOWN_MODELS as int)
    }
}

/// How a page of models is shown.
pub open spec fn models_text(response: ModelListResponse) -> Seq<char> {
    "Available models:\n"@ + model_lines(shown_models(response.data@)) + (
    if response.next_cursor is Some {
        "\nMore models exist; increase this command if needed."@
    } else {
        Seq::empty()
    })
}

/// Shows a page of models.
pub fn format_models(response: &ModelListResponse) -> (text: String)
    ensures
        text@ == models_text(*response),
{
    let count: usize = if response.data.len() <= SHOWN_MODELS {
        response.data.len()
    } else {
        SHOWN_MODELS
    };
    let ghost shown = shown_models(response.data@);
    let mut out = "Available models:\n".to_owned();
    assert(out@ =~= "Available models:\n"@ + model_lines(shown.take(0)));
    for i in 0..count
        invariant
            shown == shown_models(response.data@),
            count == shown.len(),
            count <= response.data@.len(),
            out@ == "Available models:\n"@ + model_lines(shown.take(i as int)),
    {
        let model = &response.data[i];
        let mut line = "- `".to_owned();
        line.append(model.model.as_str());
        line.append("` (");
        line.append(model.display_name.as_str());
        line.append(")");
        if model.is_default {
            line.append(" default");
        } else {
            assert(line@ + Seq::<char>::empty() =~= line@);
        }
        line.append("\n");
        assert(shown.take(i + 1).drop_last() =~= shown.take(i as int));
        assert(shown.take(i + 1).last() == *model);
        assert(line@ == model_text(*model));
        out.append(line.as_str());
        assert(out@ =~= "Available models:\n"@ + model_lines(shown.take(i + 1)));
    }
    assert(shown.take(count as int) =~= shown);
    if response.next_cursor.is_some() {
        out.append("\nMore models exist; increase this command if needed.");
    } else {
        assert(out@ + Seq::<char>::empty() =~= out@);
    }
    out
}

/// The line of a thread: its id, its name or else its preview, and when it last changed.
pub open spec fn thread_text(thread: Thread) -> Seq<char> {
    "- `"@ + thread.id@ + "` "@ + (match thread.name {
        Some(name) => name@,
        None => thread.preview@,
    }) + " ("@ + time_text(rfc3339_utc(thread.updated_at)) + ")\n"@
}

/// The lines of threads.
pub open spec fn thread_lines(threads: Seq<Thread>) -> Seq<char>
    decreases threads.len(),
{
    if threads.len() == 0 {
        Seq::empty()
    } else {
        thread_lines(threads.drop_last()) + thread_text(threads.last())
    }
}

/// How a list of threads is shown.
pub open spec fn threads_text(threads: Seq<Thread>) -> Seq<char> {
    "Recent threads:\n"@ + thread_lines(threads)
}

/// Shows a list of threads.
pub fn format_threads(threads: &Vec<Thread>) -> (text: String)
    ensures
        text@ == threads_text(threads@),
{
    let ghost all = threads@;
    let mut out = "Recent threads:\n".to_owned();
    assert(out@ =~= "Recent threads:\n"@ + thread_lines(all.take(0)));
    for i in 0..threads.len()
        invariant
            all == threads@,
            out@ == "Recent threads:\n"@ + thread_lines(all.take(i as int)),
    {
        let thread = &threads[i];
        let mut line = "- `".to_owned();
        line.append(thread.id.as_str());
        line.append("` ");
        match &thread.name {
            Some(name) => line.append(name.as_str()),
            None => line.append(thread.preview.as_str()),
        }
        line.append(" (");
        line.append(fmt_ts(thread.updated_at).as_str());
        line.append(")\n");
        assert(all.take(i + 1).drop_last() =~= all.take(i as int));
        assert(all.take(i + 1).last() == *thread);
        assert(line@ == thread_text(*thread));
        out.append(line.as_str());
        assert(out@ =~= "Recent threads:\n"@ + thread_lines(all.take(i + 1)));
    }
    assert(all.take(all.len() as int) =~= all);
    out
}

} // verus!
