//! What the texts of the replies say of what they show.

use vstd::prelude::*;

use crate::api::ReasoningEffort;
use crate::calendar::{every_second_has_a_text, tells};
use crate::format::{
    budget_text, effort_name, goal_text, limit_name, limits_fit, model_lines, model_text,
    models_text, percent_fits, percent_left, rate_limits_text, relative_text, remaining_text,
    rfc3339_utc, session_text, shown_limits, shown_models, snapshot_fits, snapshot_lines,
    snapshot_text, status_text, thread_lines, thread_text, threads_text, time_text, window_text,
    FIRST_SECOND, LAST_SECOND,
};
use crate::protocol::{
    AccountRateLimits, Model, ModelListResponse, RateLimitSnapshot, RateLimitWindow, Thread,
    ThreadGoal,
};
use crate::state::SessionView;
use crate::text::{decimal, digit_char, digits, opt_text};

verus! {

/// Lines, with a newline between each two of them.
pub open spec fn unlines(lines: Seq<Seq<char>>) -> Seq<char>
    decreases lines.len(),
{
    if lines.len() == 0 {
        Seq::empty()
    } else if lines.len() == 1 {
        lines[0]
    } else {
        unlines(lines.drop_last()) + seq!['\n'] + lines.last()
    }
}

/// The number that decimal digits write.
pub open spec fn number(text: Seq<char>) -> int
    decreases text.len(),
{
    if text.len() == 0 {
        0
    } else {
        10 * number(text.drop_last()) + (text.last() as int - '0' as int)
    }
}

/// A text of decimal digits without a leading zero.
pub open spec fn numeral(text: Seq<char>) -> bool {
    &&& text.len() > 0
    &&& forall|i: int| 0 <= i < text.len() ==> '0' <= #[trigger] text[i] <= '9'
    &&& text.len() > 1 ==> text[0] != '0'
}

proof fn lemma_digits(n: nat)
    ensures
        number(digits(n)) == n,
        numeral(digits(n)),
        n > 0 ==> digits(n)[0] != '0',
    decreases n,
{
    if n < 10 {
        reveal_with_fuel(number, 2);
        assert(seq![digit_char(n)].drop_last() =~= Seq::empty());
    } else {
        lemma_digits(n / 10);
        assert(digits(n).drop_last() =~= digits(n / 10));
        assert(digits(n)[0] == digits(n / 10)[0]);
    }
}

/// A decimal numeral tells the number: the digits of its size, without leading zeros, and a minus
/// sign in front exactly where it is negative.
pub proof fn a_numeral_tells_its_number(n: int)
    ensures
        n >= 0 ==> numeral(decimal(n)) && number(decimal(n)) == n,
        n < 0 ==> decimal(n)[0] == '-' && numeral(decimal(n).skip(1)) && number(
            decimal(n).skip(1),
        ) == -n,
{
    reveal_strlit("-");
    if n < 0 {
        lemma_digits((-n) as nat);
        assert(decimal(n).skip(1) =~= digits((-n) as nat));
    } else {
        lemma_digits(n as nat);
    }
}

/// A goal is shown in four lines: its objective, its state, the tokens that it used, with its budget
/// behind them if it has one, and the time.
pub proof fn a_goal_is_shown_in_four_lines(goal: &ThreadGoal)
    ensures
        ({
            let budget = match goal.token_budget {
                Some(tokens) => seq![' ', '/', ' '] + decimal(tokens as int),
                None => Seq::empty(),
            };
            goal_text(Some(goal)) == unlines(
                seq![
                    "Goal: "@ + goal.objective@,
                    "Status: `"@ + goal.status@ + "`"@,
                    "Tokens: "@ + decimal(goal.tokens_used as int) + budget,
                    "Time used: "@ + decimal(goal.time_used_seconds as int) + "s"@,
                ],
            )
        }),
        goal_text(None) == "No goal set."@,
{
    reveal_strlit("\nStatus: `");
    reveal_strlit("Status: `");
    reveal_strlit("`\nTokens: ");
    reveal_strlit("Tokens: ");
    reveal_strlit("`");
    reveal_strlit("\nTime used: ");
    reveal_strlit("Time used: ");
    reveal_strlit(" / ");
    reveal_with_fuel(unlines, 4);
    let budget = match goal.token_budget {
        Some(tokens) => seq![' ', '/', ' '] + decimal(tokens as int),
        None => Seq::empty(),
    };
    assert(budget =~= budget_text(goal.token_budget));
    let a = "Goal: "@ + goal.objective@;
    let b = "Status: `"@ + goal.status@ + "`"@;
    let c = "Tokens: "@ + decimal(goal.tokens_used as int) + budget;
    let d = "Time used: "@ + decimal(goal.time_used_seconds as int) + "s"@;
    lemma_four_lines(a, b, c, d);
    assert("\nStatus: `"@ =~= seq!['\n'] + "Status: `"@);
    assert("`\nTokens: "@ =~= "`"@ + seq!['\n'] + "Tokens: "@);
    assert("\nTime used: "@ =~= seq!['\n'] + "Time used: "@);
    assert(goal_text(Some(goal)) =~= a + seq!['\n'] + b + seq!['\n'] + c + seq!['\n'] + d);
}

proof fn lemma_four_lines(a: Seq<char>, b: Seq<char>, c: Seq<char>, d: Seq<char>)
    ensures
        unlines(seq![a, b, c, d]) == a + seq!['\n'] + b + seq!['\n'] + c + seq!['\n'] + d,
        unlines(seq![a, b, c]) == a + seq!['\n'] + b + seq!['\n'] + c,
{
    reveal_with_fuel(unlines, 5);
    assert(seq![a, b, c, d].drop_last() =~= seq![a, b, c]);
    assert(seq![a, b, c].drop_last() =~= seq![a, b]);
    assert(seq![a, b].drop_last() =~= seq![a]);
}

/// Exactly the percentages that can be subtracted from a hundred are taken.
pub proof fn percentages_that_can_be_shown(response: AccountRateLimits, used_percent: i32)
    ensures
        percent_fits(used_percent) <==> -2_147_483_547 <= used_percent,
        limits_fit(response) <==> forall|i: int|
            0 <= i < shown_limits(response).len() ==> {
                let limit = #[trigger] shown_limits(response)[i];
                &&& limit.primary matches Some(w) ==> -2_147_483_547 <= w.used_percent
                &&& limit.secondary matches Some(w) ==> -2_147_483_547 <= w.used_percent
            },
{
    if limits_fit(response) {
        assert forall|i: int| 0 <= i < shown_limits(response).len() implies {
            let limit = #[trigger] shown_limits(response)[i];
            &&& limit.primary matches Some(w) ==> -2_147_483_547 <= w.used_percent
            &&& limit.secondary matches Some(w) ==> -2_147_483_547 <= w.used_percent
        } by {
            assert(snapshot_fits(shown_limits(response)[i]));
        }
    }
}

/// Each window of a rate limit is shown with its own figures, whatever the other one is: first the
/// name of the limit, or else its id, then the primary window, then the secondary one; and where
/// there is neither, that is said.
pub proof fn each_window_is_shown_with_its_own_figures(snapshot: RateLimitSnapshot)
    ensures
        ({
            let name = if snapshot.limit_name is Some {
                snapshot.limit_name->0@
            } else if snapshot.limit_id is Some {
                snapshot.limit_id->0@
            } else {
                "default"@
            };
            let head = "- **"@ + name + "**"@;
            let left = |window: RateLimitWindow| decimal(percent_left(window.used_percent as int));
            let resets = |window: RateLimitWindow|
                if window.resets_at is Some {
                    "<t:"@ + decimal(window.resets_at->0 as int) + ":R>"@
                } else {
                    "unknown"@
                };
            let figures = |window: RateLimitWindow|
                left(window) + "% remaining, resets "@ + resets(window);
            let text = snapshot_text(snapshot);
            &&& snapshot.primary is None && snapshot.secondary is None ==> text == head
                + " no window data\n"@
            &&& snapshot.primary is Some && snapshot.secondary is None ==> text == head
                + ": primary "@ + figures(snapshot.primary->0) + "\n"@
            &&& snapshot.primary is None && snapshot.secondary is Some ==> text == head
                + "; secondary "@ + figures(snapshot.secondary->0) + "\n"@
            &&& snapshot.primary is Some && snapshot.secondary is Some ==> text == head
                + ": primary "@ + figures(snapshot.primary->0) + "; secondary "@ + figures(
                snapshot.secondary->0,
            ) + "\n"@
            &&& snapshot.secondary is Some ==> ("; secondary "@ + figures(snapshot.secondary->0)
                + "\n"@).is_suffix_of(text)
        }),
{
    reveal_strlit("\n");
    reveal_strlit(" no window data");
    reveal_strlit(" no window data\n");
    assert(" no window data\n"@ =~= " no window data"@ + "\n"@);
    let head = "- **"@ + limit_name(snapshot) + "**"@;
    let text = snapshot_text(snapshot);
    if let Some(w) = snapshot.primary {
        lemma_figures(w);
    }
    if let Some(w) = snapshot.secondary {
        lemma_figures(w);
    }
    if snapshot.primary is None && snapshot.secondary is None {
        assert(text =~= head + " no window data\n"@);
    } else if snapshot.secondary is None {
        assert(text =~= head + ": primary "@ + window_text(snapshot.primary->0) + "\n"@);
    } else {
        let tail = "; secondary "@ + window_text(snapshot.secondary->0) + "\n"@;
        let front = if snapshot.primary is Some {
            head + ": primary "@ + window_text(snapshot.primary->0)
        } else {
            head
        };
        assert(text =~= front + tail);
        assert(text =~= front + "; secondary "@ + window_text(snapshot.secondary->0) + "\n"@);
        assert(text.skip(text.len() - tail.len()) =~= tail);
    }
}

proof fn lemma_figures(window: RateLimitWindow)
    ensures
        window_text(window) == decimal(percent_left(window.used_percent as int))
            + "% remaining, resets "@ + (if window.resets_at is Some {
            "<t:"@ + decimal(window.resets_at->0 as int) + ":R>"@
        } else {
            "unknown"@
        }),
{
    reveal_strlit("% remaining, resets ");
    reveal_strlit(" remaining, resets ");
    reveal_strlit("%");
    assert("% remaining, resets "@ =~= "%"@ + " remaining, resets "@);
    let left = decimal(percent_left(window.used_percent as int));
    let resets = relative_text(window.resets_at);
    assert(window_text(window) =~= left + "% remaining, resets "@ + resets);
}

/// What is left of a limit and when it begins anew are shown by themselves in the same way.
pub proof fn figures_of_a_window(used_percent: i32, ts: Option<i64>)
    ensures
        remaining_text(used_percent).drop_last() == decimal(percent_left(used_percent as int)),
        remaining_text(used_percent).last() == '%',
        ts is None ==> relative_text(ts) == "unknown"@,
        ts matches Some(seconds) ==> {
            let text = relative_text(ts);
            &&& text.len() >= 6
            &&& text.take(3) == seq!['<', 't', ':']
            &&& text.subrange(3, text.len() - 3) == decimal(seconds as int)
            &&& text.skip(text.len() - 3) == seq![':', 'R', '>']
        },
{
    reveal_strlit("%");
    reveal_strlit("<t:");
    reveal_strlit(":R>");
    assert(remaining_text(used_percent).drop_last() =~= decimal(
        percent_left(used_percent as int),
    ));
    if let Some(seconds) = ts {
        let text = relative_text(ts);
        assert(text.take(3) =~= seq!['<', 't', ':']);
        assert(text.subrange(3, text.len() - 3) =~= decimal(seconds as int));
        assert(text.skip(text.len() - 3) =~= seq![':', 'R', '>']);
    }
}

proof fn lemma_snapshot_lines(a: Seq<RateLimitSnapshot>, b: Seq<RateLimitSnapshot>)
    ensures
        snapshot_lines(a + b) == snapshot_lines(a) + snapshot_lines(b),
    decreases b.len(),
{
    if b.len() == 0 {
        assert(a + b =~= a);
        assert(snapshot_lines(a) + snapshot_lines(b) =~= snapshot_lines(a));
    } else {
        assert((a + b).drop_last() =~= a + b.drop_last());
        lemma_snapshot_lines(a, b.drop_last());
        assert(snapshot_lines(a + b) =~= snapshot_lines(a) + snapshot_lines(b));
    }
}

/// All rate limits are shown, each in its line and in their order, behind the header: those told one
/// by one where there are such, else the one for all.
pub proof fn every_limit_has_its_line(
    response: AccountRateLimits,
    a: Seq<RateLimitSnapshot>,
    one: RateLimitSnapshot,
    b: Seq<RateLimitSnapshot>,
)
    ensures
        snapshot_lines(a + seq![one] + b) == snapshot_lines(a) + snapshot_text(one)
            + snapshot_lines(b),
        snapshot_lines(Seq::empty()) == Seq::<char>::empty(),
        response.rate_limits_by_limit_id matches Some(list) ==> rate_limits_text(response)
            == "Rate limits\n"@ + snapshot_lines(list@),
        response.rate_limits_by_limit_id is None ==> rate_limits_text(response)
            == "Rate limits\n"@ + snapshot_text(response.rate_limits),
        response.rate_limits_by_limit_id is None ==> shown_limits(response)
            == seq![response.rate_limits],
{
    lemma_snapshot_lines(a + seq![one], b);
    lemma_snapshot_lines(a, seq![one]);
    lemma_one_line(one);
    lemma_one_line(response.rate_limits);
}

proof fn lemma_one_line(one: RateLimitSnapshot)
    ensures
        snapshot_lines(seq![one]) == snapshot_text(one),
{
    reveal_with_fuel(snapshot_lines, 2);
    assert(seq![one].drop_last() =~= Seq::empty());
    assert(snapshot_lines(seq![one]) =~= snapshot_text(one));
}

/// A session is shown in three lines: its thread, its model and its effort, and what it has not is
/// named by a word. Its status adds the rate limits.
pub proof fn a_session_is_shown_in_three_lines(session: SessionView, limits: AccountRateLimits)
    ensures
        ({
            let thread = "Thread: `"@ + (if session.thread_id is Some {
                session.thread_id->0
            } else {
                "none"@
            }) + "`"@;
            let model = "Model: `"@ + session.model + "`"@;
            let effort = "Effort: `"@ + (if session.effort is Some {
                session.effort->0.name()
            } else {
                "Codex default"@
            }) + "`"@;
            &&& session_text(session) == unlines(seq![thread, model, effort])
            &&& status_text(session, limits) == unlines(
                seq![thread, model, effort, rate_limits_text(limits)],
            )
        }),
{
    let thread = "Thread: `"@ + (if session.thread_id is Some {
        session.thread_id->0
    } else {
        "none"@
    }) + "`"@;
    let model = "Model: `"@ + session.model + "`"@;
    let effort = "Effort: `"@ + (if session.effort is Some {
        session.effort->0.name()
    } else {
        "Codex default"@
    }) + "`"@;
    reveal_strlit("\n");
    reveal_strlit("`");
    reveal_strlit("`\nModel: `");
    reveal_strlit("Model: `");
    reveal_strlit("`\nEffort: `");
    reveal_strlit("Effort: `");
    assert("`\nModel: `"@ =~= "`"@ + seq!['\n'] + "Model: `"@);
    assert("`\nEffort: `"@ =~= "`"@ + seq!['\n'] + "Effort: `"@);
    assert("\n"@ =~= seq!['\n']);
    lemma_four_lines(thread, model, effort, rate_limits_text(limits));
    assert(session_text(session) =~= thread + seq!['\n'] + model + seq!['\n'] + effort);
}

/// Efforts have names that tell them apart, and none is that of the default.
pub proof fn efforts_are_told_apart(a: Option<ReasoningEffort>, b: Option<ReasoningEffort>)
    ensures
        effort_name(a) == effort_name(b) ==> a == b,
        effort_name(None) == "Codex default"@,
        a matches Some(effort) ==> effort_name(a) == effort.name(),
{
    reveal_strlit("minimal");
    reveal_strlit("low");
    reveal_strlit("medium");
    reveal_strlit("high");
    reveal_strlit("xhigh");
    reveal_strlit("Codex default");
    let (x, y) = (effort_name(a), effort_name(b));
    assert(x == y ==> x.len() == y.len() && x[0] == y[0] && x[1] == y[1]);
}

proof fn lemma_model_lines(a: Seq<Model>, b: Seq<Model>)
    ensures
        model_lines(a + b) == model_lines(a) + model_lines(b),
    decreases b.len(),
{
    if b.len() == 0 {
        assert(a + b =~= a);
        assert(model_lines(a) + model_lines(b) =~= model_lines(a));
    } else {
        assert((a + b).drop_last() =~= a + b.drop_last());
        lemma_model_lines(a, b.drop_last());
        assert(model_lines(a + b) =~= model_lines(a) + model_lines(b));
    }
}

/// Models are shown each in its line and in their order: the id, the name, and whether it is the
/// default. Only the first twenty-five of a page are shown, and that there are more is said exactly
/// where the page has a cursor.
pub proof fn every_model_has_its_line(
    response: ModelListResponse,
    a: Seq<Model>,
    one: Model,
    b: Seq<Model>,
)
    ensures
        model_lines(a + seq![one] + b) == model_lines(a) + model_text(one) + model_lines(b),
        model_lines(Seq::empty()) == Seq::<char>::empty(),
        model_text(one) == "- `"@ + one.model@ + "` ("@ + one.display_name@ + (
        if one.is_default {
            ") default\n"@
        } else {
            ")\n"@
        }),
        shown_models(response.data@) == response.data@.take(
            if response.data@.len() < 25 {
                response.data@.len() as int
            } else {
                25
            },
        ),
        response.next_cursor is None ==> models_text(response) == "Available models:\n"@
            + model_lines(shown_models(response.data@)),
        response.next_cursor is Some ==> models_text(response) == "Available models:\n"@
            + model_lines(shown_models(response.data@))
            + "\nMore models exist; increase this command if needed."@,
{
    lemma_model_lines(a + seq![one], b);
    lemma_model_lines(a, seq![one]);
    reveal_with_fuel(model_lines, 2);
    assert(seq![one].drop_last() =~= Seq::empty());
    assert(model_lines(seq![one]) =~= model_text(one));
    reveal_strlit(") default\n");
    reveal_strlit(" default");
    reveal_strlit(")\n");
    reveal_strlit(")");
    reveal_strlit("\n");
    assert(") default\n"@ =~= ")"@ + " default"@ + "\n"@);
    assert(")\n"@ =~= ")"@ + Seq::<char>::empty() + "\n"@);
    assert(model_text(one) =~= "- `"@ + one.model@ + "` ("@ + one.display_name@ + (
    if one.is_default {
        ") default\n"@
    } else {
        ")\n"@
    }));
    assert(response.data@.take(response.data@.len() as int) =~= response.data@);
    if response.next_cursor is None {
        assert(models_text(response) =~= "Available models:\n"@ + model_lines(
            shown_models(response.data@),
        ));
    }
}

proof fn lemma_thread_lines(a: Seq<Thread>, b: Seq<Thread>)
    ensures
        thread_lines(a + b) == thread_lines(a) + thread_lines(b),
    decreases b.len(),
{
    if b.len() == 0 {
        assert(a + b =~= a);
        assert(thread_lines(a) + thread_lines(b) =~= thread_lines(a));
    } else {
        assert((a + b).drop_last() =~= a + b.drop_last());
        lemma_thread_lines(a, b.drop_last());
        assert(thread_lines(a + b) =~= thread_lines(a) + thread_lines(b));
    }
}

/// The line of every thread, named or not, tells its id, its name or else its preview, and when it
/// last changed: by the text of that second, or as unknown where that has none.
pub proof fn every_thread_tells_when_it_changed(thread: Thread)
    ensures
        ({
            let head = "- `"@ + thread.id@ + "` "@ + (if thread.name is Some {
                thread.name->0@
            } else {
                thread.preview@
            });
            let known = FIRST_SECOND <= thread.updated_at <= LAST_SECOND;
            &&& known ==> exists|time: Seq<char>|
                #[trigger] tells(time, thread.updated_at as int) && thread_text(thread) == head
                    + " ("@ + time + ")\n"@
            &&& !known ==> thread_text(thread) == head + " (unknown)\n"@
        }),
{
    reveal_strlit(" (");
    reveal_strlit(")\n");
    reveal_strlit(" (unknown)\n");
    reveal_strlit("unknown");
    let head = "- `"@ + thread.id@ + "` "@ + (if thread.name is Some {
        thread.name->0@
    } else {
        thread.preview@
    });
    let shown = time_text(rfc3339_utc(thread.updated_at));
    assert(thread_text(thread) =~= head + " ("@ + shown + ")\n"@);
    if FIRST_SECOND <= thread.updated_at <= LAST_SECOND {
        every_second_has_a_text(thread.updated_at as int);
        assert(tells(shown, thread.updated_at as int));
    } else {
        assert(" (unknown)\n"@ =~= " ("@ + "unknown"@ + ")\n"@);
        assert(thread_text(thread) =~= head + " (unknown)\n"@);
    }
}

/// Threads are shown each in its line and in their order, behind the header.
pub proof fn every_thread_has_its_line(a: Seq<Thread>, one: Thread, b: Seq<Thread>)
    ensures
        threads_text(a + seq![one] + b) == "Recent threads:\n"@ + thread_lines(a) + thread_text(one)
            + thread_lines(b),
        threads_text(Seq::empty()) == "Recent threads:\n"@,
        thread_lines(a + b) == thread_lines(a) + thread_lines(b),
        thread_lines(seq![one]) == thread_text(one),
{
    lemma_thread_lines(a, b);
    lemma_thread_lines(a + seq![one], b);
    lemma_thread_lines(a, seq![one]);
    reveal_with_fuel(thread_lines, 2);
    assert(seq![one].drop_last() =~= Seq::empty());
    assert(thread_lines(seq![one]) =~= thread_text(one));
    assert("Recent threads:\n"@ + thread_lines(Seq::empty()) =~= "Recent threads:\n"@);
    assert("Recent threads:\n"@ + (thread_lines(a) + thread_text(one) + thread_lines(b))
        =~= "Recent threads:\n"@ + thread_lines(a) + thread_text(one) + thread_lines(b));
}

/// A second has an RFC 3339 text exactly within the range of the calendar that is at hand, and it is
/// the text of that second.
pub proof fn a_second_in_range_has_its_text(ts: i64)
    ensures
        rfc3339_utc(ts) is Some <==> -8_334_601_228_800 <= ts <= 8_210_266_876_799,
        rfc3339_utc(ts) matches Some(text) ==> tells(text, ts as int) && time_text(
            rfc3339_utc(ts),
        ) == text,
        rfc3339_utc(ts) is None ==> time_text(rfc3339_utc(ts)) == "unknown"@,
{
    every_second_has_a_text(ts as int);
}

/// The characters of an optional text are those of the text, if there is one.
pub proof fn an_optional_text_keeps_its_characters(text: Option<String>)
    ensures
        text is Some <==> opt_text(text) is Some,
        text is Some ==> opt_text(text)->0 == text->0@,
{
}

} // verus!
